//! Join-set invariants (JS-1 through JS-7).
//!
//! A join set progresses through three phases: Created -> Submitted (one or
//! more promises) -> Awaited (consuming results). Once the first
//! `JoinSetAwaited` fires, the set is frozen: no further submissions (JS-2).
//! Ownership is exclusive: each promise may belong to at most one join set
//! (JS-7), each `(set, promise)` pair may be consumed at most once (JS-5),
//! and per set the awaits never exceed the submissions (JS-6).

use vstd::prelude::*;

use crate::event::{EventType, EventV};
use crate::journal::{EntryV, JournalEntry};
use crate::state::{
    contains_js, contains_pair, contains_pid, counts_get, owner_get, sat_inc, sat_inc_exec,
    InvariantState, StateV,
};
use crate::violation::{result_view, JournalViolation, ViolationV};

verus! {

/// The join-set verdict on one candidate entry.
///
/// For `JoinSetSubmitted` the order is: frozen set (JS-2) before missing
/// create (JS-1) before multiple owners (JS-7); submitting to a frozen set is
/// the stronger violation. For `JoinSetAwaited` the order is membership
/// (JS-3), completion (JS-4), single consumption (JS-5), then the count
/// bound (JS-6): each check assumes the previous invariants hold.
pub open spec fn joinsets_result(s: StateV, e: EntryV) -> Option<ViolationV> {
    match e.event {
        EventV::JoinSetSubmitted { join_set_id, promise_id } => if s.awaited.contains(
            join_set_id,
        ) {
            Option::Some(
                ViolationV::SubmitAfterAwait { join_set_id, submitted_seq: e.sequence },
            )
        } else if !s.created.contains(join_set_id) {
            Option::Some(
                ViolationV::SubmitWithoutCreate { join_set_id, submitted_seq: e.sequence },
            )
        } else if s.owner.contains_key(promise_id) && s.owner[promise_id] != join_set_id {
            Option::Some(
                ViolationV::PromiseInMultipleJoinSets {
                    promise_id,
                    first_js: s.owner[promise_id],
                    second_js: join_set_id,
                },
            )
        } else {
            Option::None
        },
        EventV::JoinSetAwaited { join_set_id, promise_id, .. } => {
            let pair = (join_set_id, promise_id);
            if !s.submitted.contains(pair) {
                Option::Some(
                    ViolationV::AwaitedNotMember {
                        join_set_id,
                        promise_id,
                        awaited_seq: e.sequence,
                    },
                )
            } else if !s.completed.contains(promise_id) {
                Option::Some(
                    ViolationV::AwaitedNotCompleted { promise_id, awaited_seq: e.sequence },
                )
            } else if s.consumed_pairs.contains(pair) {
                Option::Some(
                    ViolationV::DoubleConsume {
                        join_set_id,
                        promise_id,
                        second_seq: e.sequence,
                    },
                )
            } else {
                let counts = if s.counts.contains_key(join_set_id) {
                    s.counts[join_set_id]
                } else {
                    (0u32, 0u32)
                };
                let next_awaited = sat_inc(counts.1);
                if next_awaited > counts.0 {
                    Option::Some(
                        ViolationV::ConsumeExceedsSubmit {
                            join_set_id,
                            submitted: counts.0,
                            awaited: next_awaited,
                        },
                    )
                } else {
                    Option::None
                }
            }
        },
        _ => Option::None,
    }
}

/// Validate the join-set invariants against the accumulated state.
pub fn check(state: &InvariantState, entry: &JournalEntry) -> (r: Result<(), JournalViolation>)
    ensures
        result_view(r) == joinsets_result(state@, entry@),
{
    match &entry.event {
        EventType::JoinSetSubmitted { join_set_id, promise_id } => {
            // JS-2: a join set is frozen after its first await.
            if contains_js(&state.awaited_joinsets, join_set_id) {
                return Result::Err(
                    JournalViolation::SubmitAfterAwait {
                        join_set_id: join_set_id.clone(),
                        submitted_seq: entry.sequence,
                    },
                );
            }
            // JS-1: submitting requires a prior create.
            if !contains_js(&state.created_joinsets, join_set_id) {
                return Result::Err(
                    JournalViolation::SubmitWithoutCreate {
                        join_set_id: join_set_id.clone(),
                        submitted_seq: entry.sequence,
                    },
                );
            }
            // JS-7: a promise may belong to only one join set.
            match owner_get(&state.pid_owner, promise_id) {
                Option::Some(first_js) => {
                    if !first_js.same_id(join_set_id) {
                        return Result::Err(
                            JournalViolation::PromiseInMultipleJoinSets {
                                promise_id: promise_id.clone(),
                                first_js: first_js.clone(),
                                second_js: join_set_id.clone(),
                            },
                        );
                    }
                },
                Option::None => {},
            }
        },
        EventType::JoinSetAwaited { join_set_id, promise_id, .. } => {
            // JS-3: the awaited promise must be submitted to this set.
            if !contains_pair(&state.submitted_pairs, join_set_id, promise_id) {
                return Result::Err(
                    JournalViolation::AwaitedNotMember {
                        join_set_id: join_set_id.clone(),
                        promise_id: promise_id.clone(),
                        awaited_seq: entry.sequence,
                    },
                );
            }
            // JS-4: the awaited promise must be completed.
            if !contains_pid(&state.completed_pids, promise_id) {
                return Result::Err(
                    JournalViolation::AwaitedNotCompleted {
                        promise_id: promise_id.clone(),
                        awaited_seq: entry.sequence,
                    },
                );
            }
            // JS-5: the same (set, promise) pair cannot be consumed twice.
            if contains_pair(&state.consumed_pairs, join_set_id, promise_id) {
                return Result::Err(
                    JournalViolation::DoubleConsume {
                        join_set_id: join_set_id.clone(),
                        promise_id: promise_id.clone(),
                        second_seq: entry.sequence,
                    },
                );
            }
            // JS-6: the prospective awaited count stays within the submitted
            // count.
            let counts = counts_get(&state.joinset_counts, join_set_id);
            let next_awaited = sat_inc_exec(counts.1);
            if next_awaited > counts.0 {
                return Result::Err(
                    JournalViolation::ConsumeExceedsSubmit {
                        join_set_id: join_set_id.clone(),
                        submitted: counts.0,
                        awaited: next_awaited,
                    },
                );
            }
        },
        _ => {},
    }
    Result::Ok(())
}

} // verus!
