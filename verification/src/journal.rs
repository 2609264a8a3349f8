//! The journal container and the derived execution status.

use vstd::prelude::*;

use crate::event::{AwaitKind, AwaitKindV, EventType, EventV};
use crate::promise_id::{ExecutionId, PidView, PromiseId};
use crate::time::Timestamp;

verus! {

/// Mathematical value of a [`JournalEntry`]: its sequence number and event.
///
/// The timestamp is deliberately absent: it is diagnostic only, and no
/// contract of this crate may depend on it.
#[verifier::ext_equal]
pub struct EntryV {
    pub sequence: u64,
    pub event: EventV,
}

/// A single entry in the journal's append-only event log.
///
/// `sequence` is 0-indexed and must equal the entry's position. `timestamp`
/// is wall-clock for debugging only and is never read by replay logic.
#[derive(Debug, PartialEq, Eq)]
pub struct JournalEntry {
    pub sequence: u64,
    pub timestamp: Timestamp,
    pub event: EventType,
}

impl View for JournalEntry {
    type V = EntryV;

    open spec fn view(&self) -> EntryV {
        EntryV { sequence: self.sequence, event: self.event@ }
    }
}

impl DeepView for JournalEntry {
    type V = EntryV;

    open spec fn deep_view(&self) -> EntryV {
        self.view()
    }
}

/// Views of a sequence of journal entries.
pub open spec fn entries_view(s: Seq<JournalEntry>) -> Seq<EntryV> {
    Seq::new(s.len(), |i: int| s[i]@)
}

/// Mathematical value of an [`ExecutionStatus`].
#[verifier::ext_equal]
pub enum StatusV {
    Running,
    Blocked { waiting_on: Seq<PidView>, kind: AwaitKindV },
    Cancelling,
    Completed,
    Failed,
    Cancelled,
}

/// Derived execution status: not stored independently, but folded over the
/// journal's entries.
#[derive(Debug, PartialEq, Eq)]
pub enum ExecutionStatus {
    Running,
    Blocked { waiting_on: Vec<PromiseId>, kind: AwaitKind },
    /// Cancel requested, cleanup in progress.
    Cancelling,
    /// Terminal.
    Completed,
    /// Terminal.
    Failed,
    /// Terminal.
    Cancelled,
}

impl View for ExecutionStatus {
    type V = StatusV;

    open spec fn view(&self) -> StatusV {
        match self {
            ExecutionStatus::Running => StatusV::Running,
            ExecutionStatus::Blocked { waiting_on, kind } => StatusV::Blocked {
                waiting_on: waiting_on.deep_view(),
                kind: kind@,
            },
            ExecutionStatus::Cancelling => StatusV::Cancelling,
            ExecutionStatus::Completed => StatusV::Completed,
            ExecutionStatus::Failed => StatusV::Failed,
            ExecutionStatus::Cancelled => StatusV::Cancelled,
        }
    }
}

impl DeepView for ExecutionStatus {
    type V = StatusV;

    open spec fn deep_view(&self) -> StatusV {
        self.view()
    }
}

/// Whether a status is terminal.
pub open spec fn is_terminal_status(s: StatusV) -> bool {
    match s {
        StatusV::Completed => true,
        StatusV::Failed => true,
        StatusV::Cancelled => true,
        _ => false,
    }
}

/// Display name of a status.
pub open spec fn status_display(s: StatusV) -> Seq<char> {
    match s {
        StatusV::Running => "Running"@,
        StatusV::Blocked { .. } => "Blocked"@,
        StatusV::Cancelling => "Cancelling"@,
        StatusV::Completed => "Completed"@,
        StatusV::Failed => "Failed"@,
        StatusV::Cancelled => "Cancelled"@,
    }
}

impl ExecutionStatus {
    /// Whether the execution has reached a terminal state.
    pub fn is_terminal(&self) -> (r: bool)
        ensures
            r == is_terminal_status(self@),
    {
        match self {
            ExecutionStatus::Completed => true,
            ExecutionStatus::Failed => true,
            ExecutionStatus::Cancelled => true,
            _ => false,
        }
    }

    /// Stable display name of the status.
    pub fn display_string(&self) -> (r: String)
        ensures
            r@ == status_display(self@),
    {
        match self {
            ExecutionStatus::Running => "Running".to_owned(),
            ExecutionStatus::Blocked { .. } => "Blocked".to_owned(),
            ExecutionStatus::Cancelling => "Cancelling".to_owned(),
            ExecutionStatus::Completed => "Completed".to_owned(),
            ExecutionStatus::Failed => "Failed".to_owned(),
            ExecutionStatus::Cancelled => "Cancelled".to_owned(),
        }
    }
}

/// The full journal for an execution: the persistence-level shape.
///
/// Version equals `entries.len()`. Entries are append-only; mutation is
/// restricted to append through the validator.
#[derive(Debug, PartialEq, Eq)]
pub struct ExecutionJournal {
    pub execution_id: ExecutionId,
    pub entries: Vec<JournalEntry>,
}

} // verus!
