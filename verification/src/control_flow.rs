//! Control-flow invariants (CF-1 through CF-4).
//!
//! Timers follow a two-phase Scheduled -> Fired lifecycle (CF-1). Signals
//! follow a Delivered -> Received lifecycle with payload integrity (CF-2)
//! and at-most-once consumption (CF-3). The await-signal consistency rule
//! (CF-4) requires an `ExecutionAwaiting` with `Signal` kind to wait on
//! exactly the signal's one promise. `waiting_on` is persisted as an ordered
//! sequence but validated with set semantics: a duplicate promise id is
//! itself a violation, checked before CF-4.

use vstd::prelude::*;

use crate::event::{AwaitKind, AwaitKindV, EventType, EventV};
use crate::journal::{EntryV, JournalEntry};
use crate::promise_id::PidView;
use crate::state::{contains_pid, contains_sig_key, delivered_get, InvariantState, StateV};
use crate::violation::{result_view, JournalViolation, ViolationV};

verus! {

/// The first promise id that repeats an earlier element of the sequence, in
/// scan order, if any.
pub open spec fn first_duplicate(s: Seq<PidView>) -> Option<PidView>
    decreases s.len(),
{
    if s.len() == 0 {
        Option::None
    } else {
        match first_duplicate(s.drop_last()) {
            Option::Some(p) => Option::Some(p),
            Option::None => if s.drop_last().contains(s.last()) {
                Option::Some(s.last())
            } else {
                Option::None
            },
        }
    }
}

/// Once a prefix holds a duplicate, extending the sequence does not change
/// which duplicate is found first.
proof fn lemma_first_duplicate_extend(s: Seq<PidView>, j: int)
    requires
        0 <= j <= s.len(),
        first_duplicate(s.take(j)) is Some,
    ensures
        first_duplicate(s) == first_duplicate(s.take(j)),
    decreases s.len() - j,
{
    if j == s.len() {
        assert(s.take(j) =~= s);
    } else {
        assert(s.take(j + 1).drop_last() =~= s.take(j));
        lemma_first_duplicate_extend(s, j + 1);
    }
}

/// The control-flow verdict on one candidate entry.
///
/// For `SignalReceived`, a missing or mismatched delivery (CF-2) precedes a
/// double consumption (CF-3): existence is checked first because a "consumed
/// twice" error is misleading when there never was a valid delivery. For
/// `ExecutionAwaiting`, the duplicate check precedes CF-4.
pub open spec fn control_flow_result(s: StateV, e: EntryV) -> Option<ViolationV> {
    match e.event {
        EventV::TimerFired { promise_id } => if !s.timer_scheduled.contains(promise_id) {
            Option::Some(
                ViolationV::TimerFiredWithoutScheduled { promise_id, fired_seq: e.sequence },
            )
        } else {
            Option::None
        },
        EventV::SignalReceived { signal_name, payload, delivery_id, .. } => {
            let key = (signal_name, delivery_id);
            if !(s.delivered.contains_key(key) && s.delivered[key] == payload) {
                Option::Some(
                    ViolationV::SignalReceivedWithoutDelivery {
                        signal_name,
                        delivery_id,
                        received_seq: e.sequence,
                    },
                )
            } else if s.consumed_deliveries.contains(key) {
                Option::Some(
                    ViolationV::SignalConsumedTwice {
                        signal_name,
                        delivery_id,
                        second_seq: e.sequence,
                    },
                )
            } else {
                Option::None
            }
        },
        EventV::ExecutionAwaiting { waiting_on, kind } => {
            match first_duplicate(waiting_on) {
                Option::Some(p) => Option::Some(
                    ViolationV::AwaitWaitingOnDuplicate {
                        awaiting_seq: e.sequence,
                        promise_id: p,
                    },
                ),
                Option::None => match kind {
                    AwaitKindV::Signal { promise_id, .. } => if waiting_on.len() != 1
                        || waiting_on[0] != promise_id {
                        Option::Some(
                            ViolationV::AwaitSignalInconsistent {
                                awaiting_seq: e.sequence,
                                waiting_on_count: waiting_on.len() as usize,
                            },
                        )
                    } else {
                        Option::None
                    },
                    _ => Option::None,
                },
            }
        },
        _ => Option::None,
    }
}

/// Validate the control-flow invariants against the accumulated state.
#[verifier::loop_isolation(false)]
pub fn check(state: &InvariantState, entry: &JournalEntry) -> (r: Result<(), JournalViolation>)
    ensures
        result_view(r) == control_flow_result(state@, entry@),
{
    match &entry.event {
        // CF-1: TimerFired requires a prior TimerScheduled for the promise.
        EventType::TimerFired { promise_id } => {
            if !contains_pid(&state.scheduled_timer_pids, promise_id) {
                return Result::Err(
                    JournalViolation::TimerFiredWithoutScheduled {
                        promise_id: promise_id.clone(),
                        fired_seq: entry.sequence,
                    },
                );
            }
        },
        // CF-2 / CF-3: a received signal must match a prior delivery and be
        // consumed at most once.
        EventType::SignalReceived { signal_name, payload, delivery_id, .. } => {
            let matching = match delivered_get(&state.delivered_signals, signal_name, *delivery_id)
                {
                Option::Some(delivered_payload) => delivered_payload.same_payload(payload),
                Option::None => false,
            };
            if !matching {
                return Result::Err(
                    JournalViolation::SignalReceivedWithoutDelivery {
                        signal_name: signal_name.clone(),
                        delivery_id: *delivery_id,
                        received_seq: entry.sequence,
                    },
                );
            }
            if contains_sig_key(&state.consumed_signal_deliveries, signal_name, *delivery_id) {
                return Result::Err(
                    JournalViolation::SignalConsumedTwice {
                        signal_name: signal_name.clone(),
                        delivery_id: *delivery_id,
                        second_seq: entry.sequence,
                    },
                );
            }
        },
        EventType::ExecutionAwaiting { waiting_on, kind } => {
            // Duplicate detection with set semantics over the stored order.
            let ghost w = waiting_on.deep_view();
            let mut j: usize = 0;
            while j < waiting_on.len()
                invariant
                    j <= waiting_on.len(),
                    first_duplicate(w.take(j as int)) is None,
                decreases waiting_on.len() - j,
            {
                let mut i: usize = 0;
                while i < j
                    invariant
                        i <= j <= waiting_on.len(),
                        forall|t: int| 0 <= t < i ==> w[t] != w[j as int],
                    decreases j - i,
                {
                    if waiting_on[i].same_id(&waiting_on[j]) {
                        proof {
                            assert(w.take(j as int + 1).drop_last() =~= w.take(j as int));
                            assert(w.take(j as int)[i as int] == w[j as int]);
                            assert(w.take(j as int).contains(w[j as int]));
                            assert(first_duplicate(w.take(j as int + 1)) == Option::Some(
                                w[j as int],
                            ));
                            lemma_first_duplicate_extend(w, j as int + 1);
                        }
                        return Result::Err(
                            JournalViolation::AwaitWaitingOnDuplicate {
                                awaiting_seq: entry.sequence,
                                promise_id: waiting_on[j].clone(),
                            },
                        );
                    }
                    i = i + 1;
                }
                proof {
                    assert(w.take(j as int + 1).drop_last() =~= w.take(j as int));
                    assert(!w.take(j as int).contains(w[j as int])) by {
                        if w.take(j as int).contains(w[j as int]) {
                            let t = choose|t: int|
                                0 <= t < j && w.take(j as int)[t] == w[j as int];
                            assert(w[t] != w[j as int]);
                        }
                    }
                }
                j = j + 1;
            }
            proof {
                assert(w.take(waiting_on.len() as int) =~= w);
            }
            // CF-4: an await of `Signal` kind waits on exactly the signal's
            // one promise.
            match kind {
                AwaitKind::Signal { promise_id, .. } => {
                    if waiting_on.len() != 1 {
                        return Result::Err(
                            JournalViolation::AwaitSignalInconsistent {
                                awaiting_seq: entry.sequence,
                                waiting_on_count: waiting_on.len(),
                            },
                        );
                    }
                    if !waiting_on[0].same_id(promise_id) {
                        proof {
                            assert(w[0] != promise_id@);
                        }
                        return Result::Err(
                            JournalViolation::AwaitSignalInconsistent {
                                awaiting_seq: entry.sequence,
                                waiting_on_count: waiting_on.len(),
                            },
                        );
                    }
                    proof {
                        assert(w[0] == promise_id@);
                    }
                },
                _ => {},
            }
        },
        _ => {},
    }
    Result::Ok(())
}

} // verus!
