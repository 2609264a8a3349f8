//! Structural invariants (S-1 through S-5).
//!
//! These checks enforce the physical integrity of the journal as an
//! append-only, 0-indexed event log with well-defined lifecycle bookends.
//! They run before any domain-level checks because later invariants rely on
//! structural soundness.

use vstd::prelude::*;

use crate::event::{event_name, is_terminal_event, EventType, EventV};
use crate::journal::{EntryV, JournalEntry};
use crate::state::{InvariantState, StateV};
use crate::violation::{result_view, JournalViolation, ViolationV};

verus! {

/// Saturating increment of a usize counter.
pub open spec fn sat_inc_usize(n: usize) -> usize {
    if n == usize::MAX {
        n
    } else {
        (n + 1) as usize
    }
}

/// The structural verdict on one candidate entry.
///
/// Checks are ordered so that sequence integrity (S-1) and the lifecycle
/// start (S-2) are verified before the terminal-event rules (S-3, S-4),
/// since the latter depend on coherent sequence numbering. Within the
/// terminal group, a duplicate terminal (S-3) takes precedence over a
/// post-terminal append (S-4), and both precede cancel gating (S-5).
pub open spec fn structural_result(s: StateV, e: EntryV) -> Option<ViolationV> {
    if e.sequence != s.len as u64 {
        Option::Some(
            ViolationV::NonMonotonicSequence {
                entry_index: s.len,
                expected: s.len as u64,
                actual: e.sequence,
            },
        )
    } else if s.len == 0 && !(e.event is ExecutionStarted) {
        Option::Some(ViolationV::MissingExecutionStarted { first_event: event_name(e.event) })
    } else {
        match s.terminal_seq {
            Option::Some(first_at) => if is_terminal_event(e.event) {
                Option::Some(
                    ViolationV::MultipleTerminalEvents { first_at, second_at: e.sequence },
                )
            } else {
                Option::Some(
                    ViolationV::TerminalNotLast {
                        terminal_seq: first_at,
                        journal_len: sat_inc_usize(s.len),
                    },
                )
            },
            Option::None => if e.event is ExecutionCancelled && !s.has_cancel_requested {
                Option::Some(ViolationV::CancelledWithoutRequest { cancelled_seq: e.sequence })
            } else {
                Option::None
            },
        }
    }
}

/// Validate the structural invariants against the accumulated state.
pub fn check(state: &InvariantState, entry: &JournalEntry) -> (r: Result<(), JournalViolation>)
    ensures
        result_view(r) == structural_result(state@, entry@),
{
    // S-1: sequence numbers must equal their 0-based array index. `state.len`
    // is the count of entries already ingested, so the next entry must carry
    // `sequence == len`.
    let expected = state.len as u64;
    if entry.sequence != expected {
        return Result::Err(
            JournalViolation::NonMonotonicSequence {
                entry_index: state.len,
                expected,
                actual: entry.sequence,
            },
        );
    }
    // S-2: the very first event must be `ExecutionStarted`.
    if state.len == 0 && !(matches!(entry.event, EventType::ExecutionStarted { .. })) {
        return Result::Err(
            JournalViolation::MissingExecutionStarted {
                first_event: entry.event.name().to_owned(),
            },
        );
    }
    // S-3 / S-4: terminal-event finality. Once a terminal event has been
    // recorded the journal is sealed: another terminal is a uniqueness
    // violation (S-3), and a non-terminal entry arrives too late (S-4).
    match state.terminal_seq {
        Option::Some(first_at) => {
            if entry.event.is_terminal() {
                return Result::Err(
                    JournalViolation::MultipleTerminalEvents {
                        first_at,
                        second_at: entry.sequence,
                    },
                );
            }
            let journal_len = if state.len == usize::MAX {
                state.len
            } else {
                state.len + 1
            };
            return Result::Err(
                JournalViolation::TerminalNotLast { terminal_seq: first_at, journal_len },
            );
        },
        Option::None => {},
    }
    // S-5: `ExecutionCancelled` requires a prior `CancelRequested`.
    if matches!(entry.event, EventType::ExecutionCancelled { .. }) && !state.has_cancel_requested {
        return Result::Err(
            JournalViolation::CancelledWithoutRequest { cancelled_seq: entry.sequence },
        );
    }
    Result::Ok(())
}

} // verus!
