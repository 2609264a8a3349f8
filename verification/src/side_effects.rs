//! Side-effect invariants (SE-1 through SE-4).
//!
//! These checks enforce the three-phase invoke lifecycle:
//! Scheduled -> Started -> Completed. Each phase is gated on its predecessor,
//! and `InvokeCompleted` is an absorbing state: no further Started, Retrying
//! or Completed events may reference the same promise after it.
//!
//! SE-3 checks the `(promise, failed_attempt)` pair rather than the promise
//! alone, so that a retry reference cannot skip attempts.

use vstd::prelude::*;

use crate::event::{event_name, EventType, EventV};
use crate::journal::{EntryV, JournalEntry};
use crate::state::{contains_attempt, contains_pid, InvariantState, StateV};
use crate::violation::{result_view, JournalViolation, ViolationV};

verus! {

/// The side-effect verdict on one candidate entry.
///
/// For `InvokeStarted` and `InvokeRetrying`, completed finality (SE-4) is
/// checked before the missing-predecessor checks (SE-1, SE-3): a real
/// "already completed" fact is the stronger diagnosis. For `InvokeCompleted`
/// the order is reversed: a Completed without any Started (SE-2) is more
/// fundamental than a second Completed (SE-4).
pub open spec fn side_effects_result(s: StateV, e: EntryV) -> Option<ViolationV> {
    match e.event {
        EventV::InvokeStarted { promise_id, .. } => if s.completed.contains(promise_id) {
            Option::Some(
                ViolationV::EventAfterCompleted {
                    promise_id,
                    offending_seq: e.sequence,
                    offending_event: event_name(e.event),
                },
            )
        } else if !s.scheduled.contains(promise_id) {
            Option::Some(
                ViolationV::StartedWithoutScheduled { promise_id, started_seq: e.sequence },
            )
        } else {
            Option::None
        },
        EventV::InvokeCompleted { promise_id, .. } => if !s.started.contains(promise_id) {
            Option::Some(
                ViolationV::CompletedWithoutStarted { promise_id, completed_seq: e.sequence },
            )
        } else if s.completed.contains(promise_id) {
            Option::Some(
                ViolationV::EventAfterCompleted {
                    promise_id,
                    offending_seq: e.sequence,
                    offending_event: event_name(e.event),
                },
            )
        } else {
            Option::None
        },
        EventV::InvokeRetrying { promise_id, failed_attempt, .. } => if s.completed.contains(
            promise_id,
        ) {
            Option::Some(
                ViolationV::EventAfterCompleted {
                    promise_id,
                    offending_seq: e.sequence,
                    offending_event: event_name(e.event),
                },
            )
        } else if !s.started_attempts.contains((promise_id, failed_attempt)) {
            Option::Some(
                ViolationV::RetryingWithoutStarted {
                    promise_id,
                    failed_attempt,
                    retrying_seq: e.sequence,
                },
            )
        } else {
            Option::None
        },
        _ => Option::None,
    }
}

/// Validate the side-effect invariants against the accumulated state.
pub fn check(state: &InvariantState, entry: &JournalEntry) -> (r: Result<(), JournalViolation>)
    ensures
        result_view(r) == side_effects_result(state@, entry@),
{
    match &entry.event {
        // InvokeStarted: SE-4 (finality), then SE-1 (requires prior Scheduled).
        EventType::InvokeStarted { promise_id, .. } => {
            if contains_pid(&state.completed_pids, promise_id) {
                return Result::Err(
                    JournalViolation::EventAfterCompleted {
                        promise_id: promise_id.clone(),
                        offending_seq: entry.sequence,
                        offending_event: entry.event.name().to_owned(),
                    },
                );
            }
            if !contains_pid(&state.scheduled_pids, promise_id) {
                return Result::Err(
                    JournalViolation::StartedWithoutScheduled {
                        promise_id: promise_id.clone(),
                        started_seq: entry.sequence,
                    },
                );
            }
        },
        // InvokeCompleted: SE-2 (requires prior Started), then SE-4 (no
        // duplicate Completed).
        EventType::InvokeCompleted { promise_id, .. } => {
            if !contains_pid(&state.started_pids, promise_id) {
                return Result::Err(
                    JournalViolation::CompletedWithoutStarted {
                        promise_id: promise_id.clone(),
                        completed_seq: entry.sequence,
                    },
                );
            }
            if contains_pid(&state.completed_pids, promise_id) {
                return Result::Err(
                    JournalViolation::EventAfterCompleted {
                        promise_id: promise_id.clone(),
                        offending_seq: entry.sequence,
                        offending_event: entry.event.name().to_owned(),
                    },
                );
            }
        },
        // InvokeRetrying: SE-4 (finality), then SE-3 (requires the matching
        // started attempt).
        EventType::InvokeRetrying { promise_id, failed_attempt, .. } => {
            if contains_pid(&state.completed_pids, promise_id) {
                return Result::Err(
                    JournalViolation::EventAfterCompleted {
                        promise_id: promise_id.clone(),
                        offending_seq: entry.sequence,
                        offending_event: entry.event.name().to_owned(),
                    },
                );
            }
            if !contains_attempt(&state.started_attempts, promise_id, *failed_attempt) {
                return Result::Err(
                    JournalViolation::RetryingWithoutStarted {
                        promise_id: promise_id.clone(),
                        failed_attempt: *failed_attempt,
                        retrying_seq: entry.sequence,
                    },
                );
            }
        },
        _ => {},
    }
    Result::Ok(())
}

} // verus!
