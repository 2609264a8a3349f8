//! Status derivation and wait resolution.
//!
//! The execution status is never stored: it is the left fold of a per-event
//! transition over the journal's entries, starting from `Running`. Only seven
//! of the twenty event kinds change the status. A matching single-step
//! function gives appenders an O(1) incremental update.

use vstd::prelude::*;

use crate::event::{clone_await, AwaitKind, AwaitKindV, EventType, EventV};
use crate::journal::{entries_view, EntryV, ExecutionStatus, JournalEntry, StatusV};
use crate::promise_id::{PidView, PromiseId};
use crate::state::{contains_pid, pid_views};

verus! {

broadcast use vstd::seq_lib::lemma_seq_contains_after_push;

/// The single-event status transition. Events that do not affect status
/// leave the previous status unchanged.
pub open spec fn step_status(current: StatusV, e: EventV) -> StatusV {
    match e {
        EventV::ExecutionStarted { .. } => StatusV::Running,
        EventV::ExecutionAwaiting { waiting_on, kind } => StatusV::Blocked { waiting_on, kind },
        EventV::ExecutionResumed => StatusV::Running,
        EventV::CancelRequested { .. } => StatusV::Cancelling,
        EventV::ExecutionCancelled { .. } => StatusV::Cancelled,
        EventV::ExecutionCompleted { .. } => StatusV::Completed,
        EventV::ExecutionFailed { .. } => StatusV::Failed,
        _ => current,
    }
}

/// The left fold of [`step_status`] over a journal, from `Running`.
pub open spec fn fold_status(entries: Seq<EntryV>) -> StatusV
    decreases entries.len(),
{
    if entries.len() == 0 {
        StatusV::Running
    } else {
        step_status(fold_status(entries.drop_last()), entries.last().event)
    }
}

/// Extending a journal by one entry steps its folded status by exactly one
/// `step_status` transition: deriving the status afresh and updating it
/// incrementally agree on every journal.
pub proof fn lemma_fold_status_step(entries: Seq<EntryV>, e: EntryV)
    ensures
        fold_status(entries.push(e)) == step_status(fold_status(entries), e.event),
{
    assert(entries.push(e).drop_last() =~= entries);
    assert(entries.push(e).last() == e);
}

/// Apply a single-event status transition.
///
/// Use this in append-time paths where the status is already known and a new
/// event arrives: it matches one step of [`derive_status`], so appenders can
/// keep the status current in O(1) instead of re-folding the journal.
pub fn derive_next_status(current_status: ExecutionStatus, event_type: &EventType) -> (r:
    ExecutionStatus)
    ensures
        r@ == step_status(current_status@, event_type@),
{
    match event_type {
        EventType::ExecutionStarted { .. } => ExecutionStatus::Running,
        EventType::ExecutionAwaiting { waiting_on, kind } => {
            let cloned = clone_await(waiting_on, kind);
            ExecutionStatus::Blocked { waiting_on: cloned.0, kind: cloned.1 }
        },
        EventType::ExecutionResumed => ExecutionStatus::Running,
        EventType::CancelRequested { .. } => ExecutionStatus::Cancelling,
        EventType::ExecutionCancelled { .. } => ExecutionStatus::Cancelled,
        EventType::ExecutionCompleted { .. } => ExecutionStatus::Completed,
        EventType::ExecutionFailed { .. } => ExecutionStatus::Failed,
        _ => current_status,
    }
}

/// Derive the current execution status by replaying journal events in order.
///
/// This is the canonical recovery path: load persisted entries and fold them
/// into the latest status. The result equals the left fold of
/// [`derive_next_status`] over the same entries.
///
/// Precondition: journal invariants are enforced upstream, so the journal is
/// non-empty and starts with `ExecutionStarted`.
#[verifier::loop_isolation(false)]
pub fn derive_status(entries: &[JournalEntry]) -> (r: ExecutionStatus)
    requires
        entries@.len() > 0,
        entries@[0].event is ExecutionStarted,
    ensures
        r@ == fold_status(entries_view(entries@)),
{
    let ghost all = entries_view(entries@);
    let mut status = ExecutionStatus::Running;
    let mut i: usize = 0;
    while i < entries.len()
        invariant
            i <= entries@.len(),
            status@ == fold_status(all.take(i as int)),
        decreases entries@.len() - i,
    {
        proof {
            assert(all.take(i as int + 1).drop_last() =~= all.take(i as int));
            assert(all.take(i as int + 1).last() == all[i as int]);
        }
        status = derive_next_status(status, &entries[i].event);
        i = i + 1;
    }
    proof {
        assert(all.take(entries@.len() as int) =~= all);
    }
    status
}

/// The promise resolved to a completed or cached result by an event, if any.
///
/// This is the five-event completion set: `InvokeCompleted`, `TimerFired`,
/// `RandomGenerated`, `TimeRecorded` and `SignalReceived`. It is broader
/// than the wait-resolver set: the nondeterminism captures are immediate
/// value recordings and do not satisfy waits.
pub open spec fn completion_pid(e: EventV) -> Option<PidView> {
    match e {
        EventV::InvokeCompleted { promise_id, .. } => Option::Some(promise_id),
        EventV::TimerFired { promise_id } => Option::Some(promise_id),
        EventV::RandomGenerated { promise_id, .. } => Option::Some(promise_id),
        EventV::TimeRecorded { promise_id, .. } => Option::Some(promise_id),
        EventV::SignalReceived { promise_id, .. } => Option::Some(promise_id),
        _ => Option::None,
    }
}

/// The promise whose wait an event satisfies, if any: `InvokeCompleted`,
/// `TimerFired` or `SignalReceived`.
pub open spec fn resolver_pid(e: EventV) -> Option<PidView> {
    match e {
        EventV::InvokeCompleted { promise_id, .. } => Option::Some(promise_id),
        EventV::TimerFired { promise_id } => Option::Some(promise_id),
        EventV::SignalReceived { promise_id, .. } => Option::Some(promise_id),
        _ => Option::None,
    }
}

/// Whether an event resolves a completed or cached result for the promise.
pub open spec fn completes_promise(e: EventV, p: PidView) -> bool {
    completion_pid(e) == Option::Some(p)
}

/// Whether an event satisfies a wait for the promise.
pub open spec fn resolves_wait(e: EventV, p: PidView) -> bool {
    resolver_pid(e) == Option::Some(p)
}

/// Collect the promises with a completed or cached result in the journal:
/// the five-event completion set, used for replay-cache population and
/// inspection.
#[verifier::loop_isolation(false)]
pub fn completed_promises(entries: &[JournalEntry]) -> (r: Vec<PromiseId>)
    ensures
        pid_views(r@).no_duplicates(),
        forall|p: PidView|
            #[trigger] pid_views(r@).contains(p) <==> exists|i: int|
                0 <= i < entries@.len() && completes_promise(#[trigger] entries@[i]@.event, p),
{
    let mut out: Vec<PromiseId> = Vec::new();
    let mut i: usize = 0;
    while i < entries.len()
        invariant
            i <= entries@.len(),
            pid_views(out@).no_duplicates(),
            forall|j: int|
                0 <= j < i ==> match completion_pid(#[trigger] entries@[j]@.event) {
                    Option::Some(p) => pid_views(out@).contains(p),
                    Option::None => true,
                },
            forall|p: PidView|
                #[trigger] pid_views(out@).contains(p) ==> exists|j: int|
                    0 <= j < i && completes_promise(#[trigger] entries@[j]@.event, p),
        decreases entries@.len() - i,
    {
        let candidate: Option<&PromiseId> = match &entries[i].event {
            EventType::InvokeCompleted { promise_id, .. } => Option::Some(promise_id),
            EventType::TimerFired { promise_id } => Option::Some(promise_id),
            EventType::RandomGenerated { promise_id, .. } => Option::Some(promise_id),
            EventType::TimeRecorded { promise_id, .. } => Option::Some(promise_id),
            EventType::SignalReceived { promise_id, .. } => Option::Some(promise_id),
            _ => Option::None,
        };
        match candidate {
            Option::Some(p) => {
                proof {
                    assert(completion_pid(entries@[i as int]@.event) == Option::Some(p@));
                }
                let already = contains_pid(&out, p);
                if !already {
                    let ghost before = pid_views(out@);
                    out.push(p.clone());
                    proof {
                        assert(pid_views(out@) =~= before.push(p@));
                        assert forall|a: int, b: int|
                            0 <= a < b < pid_views(out@).len() implies pid_views(out@)[a]
                            != pid_views(out@)[b] by {
                            if b < before.len() {
                            } else {
                                assert(pid_views(out@)[b] == p@);
                                assert(before[a] == pid_views(out@)[a]);
                                assert(before.contains(before[a]));
                            }
                        }
                    }
                }
            },
            Option::None => {
                proof {
                    assert(completion_pid(entries@[i as int]@.event) is None);
                }
            },
        }
        i = i + 1;
    }
    proof {
        assert forall|p: PidView| #[trigger] pid_views(out@).contains(p) implies exists|i: int|
            0 <= i < entries@.len() && completes_promise(entries@[i]@.event, p) by {}
        assert forall|p: PidView|
            (exists|i: int|
                0 <= i < entries@.len() && completes_promise(
                    #[trigger] entries@[i]@.event,
                    p,
                )) implies pid_views(out@).contains(p) by {
            let i = choose|i: int|
                0 <= i < entries@.len() && completes_promise(entries@[i]@.event, p);
            assert(completion_pid(entries@[i]@.event) == Option::Some(p));
        }
    }
    out
}

/// Collect the wait-resolver set of the journal: the promises resolved by
/// `InvokeCompleted`, `TimerFired` or `SignalReceived`, used by
/// [`can_resume`].
#[verifier::loop_isolation(false)]
pub fn wait_resolvers(entries: &[JournalEntry]) -> (r: Vec<PromiseId>)
    ensures
        pid_views(r@).no_duplicates(),
        forall|p: PidView|
            #[trigger] pid_views(r@).contains(p) <==> exists|i: int|
                0 <= i < entries@.len() && resolves_wait(#[trigger] entries@[i]@.event, p),
{
    let mut out: Vec<PromiseId> = Vec::new();
    let mut i: usize = 0;
    while i < entries.len()
        invariant
            i <= entries@.len(),
            pid_views(out@).no_duplicates(),
            forall|j: int|
                0 <= j < i ==> match resolver_pid(#[trigger] entries@[j]@.event) {
                    Option::Some(p) => pid_views(out@).contains(p),
                    Option::None => true,
                },
            forall|p: PidView|
                #[trigger] pid_views(out@).contains(p) ==> exists|j: int|
                    0 <= j < i && resolves_wait(#[trigger] entries@[j]@.event, p),
        decreases entries@.len() - i,
    {
        let candidate: Option<&PromiseId> = match &entries[i].event {
            EventType::InvokeCompleted { promise_id, .. } => Option::Some(promise_id),
            EventType::TimerFired { promise_id } => Option::Some(promise_id),
            EventType::SignalReceived { promise_id, .. } => Option::Some(promise_id),
            _ => Option::None,
        };
        match candidate {
            Option::Some(p) => {
                proof {
                    assert(resolver_pid(entries@[i as int]@.event) == Option::Some(p@));
                }
                let already = contains_pid(&out, p);
                if !already {
                    let ghost before = pid_views(out@);
                    out.push(p.clone());
                    proof {
                        assert(pid_views(out@) =~= before.push(p@));
                        assert forall|a: int, b: int|
                            0 <= a < b < pid_views(out@).len() implies pid_views(out@)[a]
                            != pid_views(out@)[b] by {
                            if b < before.len() {
                            } else {
                                assert(pid_views(out@)[b] == p@);
                                assert(before[a] == pid_views(out@)[a]);
                                assert(before.contains(before[a]));
                            }
                        }
                    }
                }
            },
            Option::None => {
                proof {
                    assert(resolver_pid(entries@[i as int]@.event) is None);
                }
            },
        }
        i = i + 1;
    }
    proof {
        assert forall|p: PidView| #[trigger] pid_views(out@).contains(p) implies exists|i: int|
            0 <= i < entries@.len() && resolves_wait(entries@[i]@.event, p) by {}
        assert forall|p: PidView|
            (exists|i: int|
                0 <= i < entries@.len() && resolves_wait(
                    #[trigger] entries@[i]@.event,
                    p,
                )) implies pid_views(out@).contains(p) by {
            let i = choose|i: int| 0 <= i < entries@.len() && resolves_wait(entries@[i]@.event, p);
            assert(resolver_pid(entries@[i]@.event) == Option::Some(p));
        }
    }
    out
}

/// Whether a blocked execution can resume, given the resolved promises.
///
/// `Single` and `All` require every waited-on promise to be resolved; `Any`
/// requires at least one; `Signal` requires exactly one waited-on promise,
/// resolved. A status that is not `Blocked` never resumes.
pub open spec fn can_resume_v(status: StatusV, resolved: Seq<PidView>) -> bool {
    match status {
        StatusV::Blocked { waiting_on, kind } => match kind {
            AwaitKindV::Single | AwaitKindV::All => forall|i: int|
                0 <= i < waiting_on.len() ==> resolved.contains(#[trigger] waiting_on[i]),
            AwaitKindV::Any => exists|i: int|
                0 <= i < waiting_on.len() && resolved.contains(#[trigger] waiting_on[i]),
            AwaitKindV::Signal { .. } => waiting_on.len() == 1 && resolved.contains(waiting_on[0]),
        },
        _ => false,
    }
}

/// Whether a blocked execution can resume based on the resolved promises.
///
/// `resolved` should be the wait-resolver set (`InvokeCompleted`,
/// `TimerFired`, `SignalReceived`). For non-blocked statuses this returns
/// false.
#[verifier::loop_isolation(false)]
pub fn can_resume(status: &ExecutionStatus, resolved: &Vec<PromiseId>) -> (r: bool)
    ensures
        r == can_resume_v(status@, pid_views(resolved@)),
{
    match status {
        ExecutionStatus::Blocked { waiting_on, kind } => {
            let ghost w = waiting_on.deep_view();
            proof {
                assert forall|t: int| 0 <= t < w.len() implies w[t] == waiting_on@[t]@ by {}
            }
            match kind {
                AwaitKind::Single | AwaitKind::All => {
                    let mut i: usize = 0;
                    while i < waiting_on.len()
                        invariant
                            i <= waiting_on@.len(),
                            forall|t: int|
                                0 <= t < i ==> pid_views(resolved@).contains(#[trigger] w[t]),
                        decreases waiting_on@.len() - i,
                    {
                        let resolved_here = contains_pid(resolved, &waiting_on[i]);
                        if !resolved_here {
                            proof {
                                assert(status@ is Blocked);
                                assert(status@->Blocked_kind is Single || status@->Blocked_kind is All);
                                assert(status@->Blocked_waiting_on == w);
                                assert(!pid_views(resolved@).contains(w[i as int]));
                                assert(!can_resume_v(status@, pid_views(resolved@)));
                            }
                            return false;
                        }
                        i = i + 1;
                    }
                    true
                },
                AwaitKind::Any => {
                    let mut i: usize = 0;
                    while i < waiting_on.len()
                        invariant
                            i <= waiting_on@.len(),
                            forall|t: int|
                                0 <= t < i ==> !pid_views(resolved@).contains(#[trigger] w[t]),
                        decreases waiting_on@.len() - i,
                    {
                        let resolved_here = contains_pid(resolved, &waiting_on[i]);
                        if resolved_here {
                            proof {
                                assert(status@ is Blocked);
                                assert(status@->Blocked_kind is Any);
                                assert(status@->Blocked_waiting_on == w);
                                assert(pid_views(resolved@).contains(w[i as int]));
                                assert(can_resume_v(status@, pid_views(resolved@)));
                            }
                            return true;
                        }
                        i = i + 1;
                    }
                    false
                },
                AwaitKind::Signal { .. } => {
                    if waiting_on.len() != 1 {
                        return false;
                    }
                    let resolved_here = contains_pid(resolved, &waiting_on[0]);
                    proof {
                        assert(w[0] == waiting_on@[0]@);
                    }
                    resolved_here
                },
            }
        },
        _ => false,
    }
}

} // verus!
