//! Linear-scan resolution helpers over the raw entry sequence.
//!
//! Boolean predicates and list extractors used by the replay engine to
//! answer questions about a journal without building auxiliary state. Each
//! is a single pass over the entries.

use vstd::prelude::*;

use crate::event::{EventType, EventV, SignalDeliveryId};
use crate::join_set::JoinSetId;
use crate::journal::{entries_view, EntryV, JournalEntry};
use crate::promise_id::{PidView, PromiseId};
use crate::state::pid_views;

verus! {

/// Whether the event schedules the invocation `p`.
pub open spec fn schedules_invoke(e: EventV, p: PidView) -> bool {
    match e {
        EventV::InvokeScheduled { promise_id, .. } => promise_id == p,
        _ => false,
    }
}

/// Whether the event starts the invocation `p`.
pub open spec fn starts_invoke(e: EventV, p: PidView) -> bool {
    match e {
        EventV::InvokeStarted { promise_id, .. } => promise_id == p,
        _ => false,
    }
}

/// Whether the event completes the invocation `p`.
pub open spec fn completes_invoke(e: EventV, p: PidView) -> bool {
    match e {
        EventV::InvokeCompleted { promise_id, .. } => promise_id == p,
        _ => false,
    }
}

/// Whether the event records a retry of the invocation `p`.
pub open spec fn retries_invoke(e: EventV, p: PidView) -> bool {
    match e {
        EventV::InvokeRetrying { promise_id, .. } => promise_id == p,
        _ => false,
    }
}

/// Whether the event schedules the timer `p`.
pub open spec fn schedules_timer(e: EventV, p: PidView) -> bool {
    match e {
        EventV::TimerScheduled { promise_id, .. } => promise_id == p,
        _ => false,
    }
}

/// Whether the event fires the timer `p`.
pub open spec fn fires_timer(e: EventV, p: PidView) -> bool {
    match e {
        EventV::TimerFired { promise_id } => promise_id == p,
        _ => false,
    }
}

/// Whether the event delivers the signal `(name, id)`.
pub open spec fn delivers_signal(e: EventV, name: Seq<char>, id: u64) -> bool {
    match e {
        EventV::SignalDelivered { signal_name, delivery_id, .. } => signal_name == name
            && delivery_id == id,
        _ => false,
    }
}

/// Whether the event consumes the signal delivery `(name, id)`.
pub open spec fn consumes_signal(e: EventV, name: Seq<char>, id: u64) -> bool {
    match e {
        EventV::SignalReceived { signal_name, delivery_id, .. } => signal_name == name
            && delivery_id == id,
        _ => false,
    }
}

/// Whether the event creates the join set `js`.
pub open spec fn creates_joinset(e: EventV, js: PidView) -> bool {
    match e {
        EventV::JoinSetCreated { join_set_id } => join_set_id == js,
        _ => false,
    }
}

/// Whether the event requests cancellation.
pub open spec fn requests_cancel(e: EventV) -> bool {
    e is CancelRequested
}

/// The promise the event submits to the join set `js`, if any.
pub open spec fn submitted_member(e: EventV, js: PidView) -> Option<PidView> {
    match e {
        EventV::JoinSetSubmitted { join_set_id, promise_id } => if join_set_id == js {
            Option::Some(promise_id)
        } else {
            Option::None
        },
        _ => Option::None,
    }
}

/// The promise the event consumes from the join set `js`, if any.
pub open spec fn consumed_member(e: EventV, js: PidView) -> Option<PidView> {
    match e {
        EventV::JoinSetAwaited { join_set_id, promise_id, .. } => if join_set_id == js {
            Option::Some(promise_id)
        } else {
            Option::None
        },
        _ => Option::None,
    }
}

/// A possible promise as a sequence of zero or one elements.
pub open spec fn opt_pid_seq(o: Option<PidView>) -> Seq<PidView> {
    match o {
        Option::Some(p) => seq![p],
        Option::None => Seq::empty(),
    }
}

/// The promises submitted to the join set `js`, in journal order, duplicates
/// preserved.
pub open spec fn joinset_members_of(entries: Seq<EntryV>, js: PidView) -> Seq<PidView>
    decreases entries.len(),
{
    if entries.len() == 0 {
        Seq::empty()
    } else {
        joinset_members_of(entries.drop_last(), js) + opt_pid_seq(
            submitted_member(entries.last().event, js),
        )
    }
}

/// The promises consumed from the join set `js`, in journal order, duplicates
/// preserved.
pub open spec fn joinset_consumed_of(entries: Seq<EntryV>, js: PidView) -> Seq<PidView>
    decreases entries.len(),
{
    if entries.len() == 0 {
        Seq::empty()
    } else {
        joinset_consumed_of(entries.drop_last(), js) + opt_pid_seq(
            consumed_member(entries.last().event, js),
        )
    }
}

/// The join set the event submits the promise `p` to, if any.
pub open spec fn owner_in(e: EventV, p: PidView) -> Option<PidView> {
    match e {
        EventV::JoinSetSubmitted { join_set_id, promise_id } => if promise_id == p {
            Option::Some(join_set_id)
        } else {
            Option::None
        },
        _ => Option::None,
    }
}

/// The first join set that submitted the promise `p`, in journal order.
pub open spec fn first_owner(entries: Seq<EntryV>, p: PidView) -> Option<PidView>
    decreases entries.len(),
{
    if entries.len() == 0 {
        Option::None
    } else {
        match owner_in(entries[0].event, p) {
            Option::Some(js) => Option::Some(js),
            Option::None => first_owner(entries.drop_first(), p),
        }
    }
}

/// The first terminal event, in journal order.
pub open spec fn first_terminal(entries: Seq<EntryV>) -> Option<EventV>
    decreases entries.len(),
{
    if entries.len() == 0 {
        Option::None
    } else if crate::event::is_terminal_event(entries[0].event) {
        Option::Some(entries[0].event)
    } else {
        first_terminal(entries.drop_first())
    }
}

/// How many retries the journal records for the invocation `p`.
pub open spec fn retry_count_of(entries: Seq<EntryV>, p: PidView) -> nat
    decreases entries.len(),
{
    if entries.len() == 0 {
        0
    } else {
        retry_count_of(entries.drop_last(), p) + (if retries_invoke(entries.last().event, p) {
            1nat
        } else {
            0nat
        })
    }
}

/// Returns true if the invocation identified by `pid` was ever scheduled.
#[verifier::loop_isolation(false)]
pub fn is_invoke_scheduled(entries: &[JournalEntry], pid: &PromiseId) -> (r: bool)
    ensures
        r == exists|i: int|
            0 <= i < entries@.len() && schedules_invoke(
                #[trigger] entries_view(entries@)[i].event,
                pid@,
            ),
{
    let ghost all = entries_view(entries@);
    let mut i: usize = 0;
    while i < entries.len()
        invariant
            i <= entries@.len(),
            forall|j: int| 0 <= j < i ==> !schedules_invoke(#[trigger] all[j].event, pid@),
        decreases entries@.len() - i,
    {
        let hit = match &entries[i].event {
            EventType::InvokeScheduled { promise_id, .. } => promise_id.same_id(pid),
            _ => false,
        };
        if hit {
            proof {
                assert(schedules_invoke(all[i as int].event, pid@));
            }
            return true;
        }
        i = i + 1;
    }
    false
}

/// Returns true if the invocation identified by `pid` was ever started.
#[verifier::loop_isolation(false)]
pub fn is_invoke_started(entries: &[JournalEntry], pid: &PromiseId) -> (r: bool)
    ensures
        r == exists|i: int|
            0 <= i < entries@.len() && starts_invoke(
                #[trigger] entries_view(entries@)[i].event,
                pid@,
            ),
{
    let ghost all = entries_view(entries@);
    let mut i: usize = 0;
    while i < entries.len()
        invariant
            i <= entries@.len(),
            forall|j: int| 0 <= j < i ==> !starts_invoke(#[trigger] all[j].event, pid@),
        decreases entries@.len() - i,
    {
        let hit = match &entries[i].event {
            EventType::InvokeStarted { promise_id, .. } => promise_id.same_id(pid),
            _ => false,
        };
        if hit {
            proof {
                assert(starts_invoke(all[i as int].event, pid@));
            }
            return true;
        }
        i = i + 1;
    }
    false
}

/// Returns true if the invocation identified by `pid` was ever completed.
#[verifier::loop_isolation(false)]
pub fn is_invoke_completed(entries: &[JournalEntry], pid: &PromiseId) -> (r: bool)
    ensures
        r == exists|i: int|
            0 <= i < entries@.len() && completes_invoke(
                #[trigger] entries_view(entries@)[i].event,
                pid@,
            ),
{
    let ghost all = entries_view(entries@);
    let mut i: usize = 0;
    while i < entries.len()
        invariant
            i <= entries@.len(),
            forall|j: int| 0 <= j < i ==> !completes_invoke(#[trigger] all[j].event, pid@),
        decreases entries@.len() - i,
    {
        let hit = match &entries[i].event {
            EventType::InvokeCompleted { promise_id, .. } => promise_id.same_id(pid),
            _ => false,
        };
        if hit {
            proof {
                assert(completes_invoke(all[i as int].event, pid@));
            }
            return true;
        }
        i = i + 1;
    }
    false
}

/// Returns true if the timer identified by `pid` was ever scheduled.
#[verifier::loop_isolation(false)]
pub fn is_timer_scheduled(entries: &[JournalEntry], pid: &PromiseId) -> (r: bool)
    ensures
        r == exists|i: int|
            0 <= i < entries@.len() && schedules_timer(
                #[trigger] entries_view(entries@)[i].event,
                pid@,
            ),
{
    let ghost all = entries_view(entries@);
    let mut i: usize = 0;
    while i < entries.len()
        invariant
            i <= entries@.len(),
            forall|j: int| 0 <= j < i ==> !schedules_timer(#[trigger] all[j].event, pid@),
        decreases entries@.len() - i,
    {
        let hit = match &entries[i].event {
            EventType::TimerScheduled { promise_id, .. } => promise_id.same_id(pid),
            _ => false,
        };
        if hit {
            proof {
                assert(schedules_timer(all[i as int].event, pid@));
            }
            return true;
        }
        i = i + 1;
    }
    false
}

/// Returns true if the timer identified by `pid` was ever fired.
#[verifier::loop_isolation(false)]
pub fn is_timer_fired(entries: &[JournalEntry], pid: &PromiseId) -> (r: bool)
    ensures
        r == exists|i: int|
            0 <= i < entries@.len() && fires_timer(
                #[trigger] entries_view(entries@)[i].event,
                pid@,
            ),
{
    let ghost all = entries_view(entries@);
    let mut i: usize = 0;
    while i < entries.len()
        invariant
            i <= entries@.len(),
            forall|j: int| 0 <= j < i ==> !fires_timer(#[trigger] all[j].event, pid@),
        decreases entries@.len() - i,
    {
        let hit = match &entries[i].event {
            EventType::TimerFired { promise_id } => promise_id.same_id(pid),
            _ => false,
        };
        if hit {
            proof {
                assert(fires_timer(all[i as int].event, pid@));
            }
            return true;
        }
        i = i + 1;
    }
    false
}

/// Returns true if a signal delivery `(name, delivery_id)` exists in the
/// journal. This checks durable delivery, not consumption.
#[verifier::loop_isolation(false)]
pub fn is_signal_delivered(entries: &[JournalEntry], name: &str, delivery_id: SignalDeliveryId) -> (
    r: bool)
    ensures
        r == exists|i: int|
            0 <= i < entries@.len() && delivers_signal(
                #[trigger] entries_view(entries@)[i].event,
                name@,
                delivery_id,
            ),
{
    let ghost all = entries_view(entries@);
    let mut i: usize = 0;
    while i < entries.len()
        invariant
            i <= entries@.len(),
            forall|j: int| 0 <= j < i ==> !delivers_signal(#[trigger] all[j].event, name@, delivery_id),
        decreases entries@.len() - i,
    {
        let hit = match &entries[i].event {
            EventType::SignalDelivered { signal_name, delivery_id: did, .. } => crate::text::str_eq(
                signal_name.as_str(),
                name,
            ) && *did == delivery_id,
            _ => false,
        };
        if hit {
            proof {
                assert(delivers_signal(all[i as int].event, name@, delivery_id));
            }
            return true;
        }
        i = i + 1;
    }
    false
}

/// Returns true if a signal delivery `(name, delivery_id)` was consumed by
/// workflow code (a `SignalReceived` entry).
#[verifier::loop_isolation(false)]
pub fn is_signal_consumed(entries: &[JournalEntry], name: &str, delivery_id: SignalDeliveryId) -> (
    r: bool)
    ensures
        r == exists|i: int|
            0 <= i < entries@.len() && consumes_signal(
                #[trigger] entries_view(entries@)[i].event,
                name@,
                delivery_id,
            ),
{
    let ghost all = entries_view(entries@);
    let mut i: usize = 0;
    while i < entries.len()
        invariant
            i <= entries@.len(),
            forall|j: int| 0 <= j < i ==> !consumes_signal(#[trigger] all[j].event, name@, delivery_id),
        decreases entries@.len() - i,
    {
        let hit = match &entries[i].event {
            EventType::SignalReceived { signal_name, delivery_id: did, .. } => crate::text::str_eq(
                signal_name.as_str(),
                name,
            ) && *did == delivery_id,
            _ => false,
        };
        if hit {
            proof {
                assert(consumes_signal(all[i as int].event, name@, delivery_id));
            }
            return true;
        }
        i = i + 1;
    }
    false
}

/// Returns true if the join set `js_id` was created.
#[verifier::loop_isolation(false)]
pub fn is_join_set_created(entries: &[JournalEntry], js_id: &JoinSetId) -> (r: bool)
    ensures
        r == exists|i: int|
            0 <= i < entries@.len() && creates_joinset(
                #[trigger] entries_view(entries@)[i].event,
                js_id@,
            ),
{
    let ghost all = entries_view(entries@);
    let mut i: usize = 0;
    while i < entries.len()
        invariant
            i <= entries@.len(),
            forall|j: int| 0 <= j < i ==> !creates_joinset(#[trigger] all[j].event, js_id@),
        decreases entries@.len() - i,
    {
        let hit = match &entries[i].event {
            EventType::JoinSetCreated { join_set_id } => join_set_id.same_id(js_id),
            _ => false,
        };
        if hit {
            proof {
                assert(creates_joinset(all[i as int].event, js_id@));
            }
            return true;
        }
        i = i + 1;
    }
    false
}

/// Returns true if a cancellation request appears anywhere in the journal.
#[verifier::loop_isolation(false)]
pub fn has_cancel_requested(entries: &[JournalEntry]) -> (r: bool)
    ensures
        r == exists|i: int|
            0 <= i < entries@.len() && requests_cancel(#[trigger] entries_view(entries@)[i].event),
{
    let ghost all = entries_view(entries@);
    let mut i: usize = 0;
    while i < entries.len()
        invariant
            i <= entries@.len(),
            forall|j: int| 0 <= j < i ==> !requests_cancel(#[trigger] all[j].event),
        decreases entries@.len() - i,
    {
        if matches!(entries[i].event, EventType::CancelRequested { .. }) {
            proof {
                assert(requests_cancel(all[i as int].event));
            }
            return true;
        }
        i = i + 1;
    }
    false
}

/// Returns the submitted members of the join set `js_id`, in journal order,
/// duplicates preserved.
#[verifier::loop_isolation(false)]
pub fn join_set_members(entries: &[JournalEntry], js_id: &JoinSetId) -> (r: Vec<PromiseId>)
    ensures
        pid_views(r@) == joinset_members_of(entries_view(entries@), js_id@),
{
    let ghost all = entries_view(entries@);
    let mut out: Vec<PromiseId> = Vec::new();
    let mut i: usize = 0;
    proof {
        assert(pid_views(out@) =~= joinset_members_of(all.take(0), js_id@));
    }
    while i < entries.len()
        invariant
            i <= entries@.len(),
            pid_views(out@) == joinset_members_of(all.take(i as int), js_id@),
        decreases entries@.len() - i,
    {
        proof {
            assert(all.take(i as int + 1).drop_last() =~= all.take(i as int));
            assert(all.take(i as int + 1).last() == all[i as int]);
        }
        let ghost before = pid_views(out@);
        match &entries[i].event {
            EventType::JoinSetSubmitted { join_set_id, promise_id } => {
                if join_set_id.same_id(js_id) {
                    out.push(promise_id.clone());
                    proof {
                        assert(pid_views(out@) =~= before.push(promise_id@));
                        assert(pid_views(out@) =~= joinset_members_of(
                            all.take(i as int + 1),
                            js_id@,
                        ));
                    }
                } else {
                    proof {
                        assert(pid_views(out@) =~= joinset_members_of(
                            all.take(i as int + 1),
                            js_id@,
                        ));
                    }
                }
            },
            _ => {
                proof {
                    assert(pid_views(out@) =~= joinset_members_of(all.take(i as int + 1), js_id@));
                }
            },
        }
        i = i + 1;
    }
    proof {
        assert(all.take(entries@.len() as int) =~= all);
    }
    out
}

/// Returns the consumed members of the join set `js_id`, in journal order,
/// duplicates preserved.
#[verifier::loop_isolation(false)]
pub fn join_set_consumed(entries: &[JournalEntry], js_id: &JoinSetId) -> (r: Vec<PromiseId>)
    ensures
        pid_views(r@) == joinset_consumed_of(entries_view(entries@), js_id@),
{
    let ghost all = entries_view(entries@);
    let mut out: Vec<PromiseId> = Vec::new();
    let mut i: usize = 0;
    proof {
        assert(pid_views(out@) =~= joinset_consumed_of(all.take(0), js_id@));
    }
    while i < entries.len()
        invariant
            i <= entries@.len(),
            pid_views(out@) == joinset_consumed_of(all.take(i as int), js_id@),
        decreases entries@.len() - i,
    {
        proof {
            assert(all.take(i as int + 1).drop_last() =~= all.take(i as int));
            assert(all.take(i as int + 1).last() == all[i as int]);
        }
        let ghost before = pid_views(out@);
        match &entries[i].event {
            EventType::JoinSetAwaited { join_set_id, promise_id, .. } => {
                if join_set_id.same_id(js_id) {
                    out.push(promise_id.clone());
                    proof {
                        assert(pid_views(out@) =~= before.push(promise_id@));
                        assert(pid_views(out@) =~= joinset_consumed_of(
                            all.take(i as int + 1),
                            js_id@,
                        ));
                    }
                } else {
                    proof {
                        assert(pid_views(out@) =~= joinset_consumed_of(
                            all.take(i as int + 1),
                            js_id@,
                        ));
                    }
                }
            },
            _ => {
                proof {
                    assert(pid_views(out@) =~= joinset_consumed_of(all.take(i as int + 1), js_id@));
                }
            },
        }
        i = i + 1;
    }
    proof {
        assert(all.take(entries@.len() as int) =~= all);
    }
    out
}

/// Returns the first join set that submitted `pid`, if any, in journal order.
#[verifier::loop_isolation(false)]
pub fn promise_owner(entries: &[JournalEntry], pid: &PromiseId) -> (r: Option<JoinSetId>)
    ensures
        match r {
            Option::Some(js) => first_owner(entries_view(entries@), pid@) == Option::Some(js@),
            Option::None => first_owner(entries_view(entries@), pid@) is None,
        },
{
    let ghost all = entries_view(entries@);
    let mut i: usize = 0;
    proof {
        assert(all.skip(0) =~= all);
    }
    while i < entries.len()
        invariant
            i <= entries@.len(),
            first_owner(all, pid@) == first_owner(all.skip(i as int), pid@),
        decreases entries@.len() - i,
    {
        proof {
            assert(all.skip(i as int)[0] == all[i as int]);
            assert(all.skip(i as int).drop_first() =~= all.skip(i as int + 1));
        }
        match &entries[i].event {
            EventType::JoinSetSubmitted { join_set_id, promise_id } => {
                if promise_id.same_id(pid) {
                    proof {
                        assert(owner_in(all[i as int].event, pid@) == Option::Some(join_set_id@));
                    }
                    return Option::Some(join_set_id.clone());
                }
                proof {
                    assert(owner_in(all[i as int].event, pid@) is None);
                }
            },
            _ => {},
        }
        i = i + 1;
    }
    proof {
        assert(all.skip(entries@.len() as int) =~= Seq::<EntryV>::empty());
    }
    Option::None
}

/// Returns the first terminal event in journal order, if present.
#[verifier::loop_isolation(false)]
pub fn terminal_event(entries: &[JournalEntry]) -> (r: Option<&EventType>)
    ensures
        match r {
            Option::Some(e) => first_terminal(entries_view(entries@)) == Option::Some(e@),
            Option::None => first_terminal(entries_view(entries@)) is None,
        },
{
    let ghost all = entries_view(entries@);
    let mut i: usize = 0;
    proof {
        assert(all.skip(0) =~= all);
    }
    while i < entries.len()
        invariant
            i <= entries@.len(),
            first_terminal(all) == first_terminal(all.skip(i as int)),
        decreases entries@.len() - i,
    {
        proof {
            assert(all.skip(i as int)[0] == all[i as int]);
            assert(all.skip(i as int).drop_first() =~= all.skip(i as int + 1));
        }
        if entries[i].event.is_terminal() {
            return Option::Some(&entries[i].event);
        }
        i = i + 1;
    }
    proof {
        assert(all.skip(entries@.len() as int) =~= Seq::<EntryV>::empty());
    }
    Option::None
}

/// Counts the retry attempts (`InvokeRetrying`) recorded for `pid`.
#[verifier::loop_isolation(false)]
pub fn retry_count(entries: &[JournalEntry], pid: &PromiseId) -> (r: usize)
    ensures
        r as nat == retry_count_of(entries_view(entries@), pid@),
{
    let ghost all = entries_view(entries@);
    let mut count: usize = 0;
    let mut i: usize = 0;
    proof {
        assert(retry_count_of(all.take(0), pid@) == 0) by {
            assert(all.take(0) =~= Seq::<EntryV>::empty());
        }
    }
    while i < entries.len()
        invariant
            i <= entries@.len(),
            count <= i,
            count as nat == retry_count_of(all.take(i as int), pid@),
        decreases entries@.len() - i,
    {
        proof {
            assert(all.take(i as int + 1).drop_last() =~= all.take(i as int));
            assert(all.take(i as int + 1).last() == all[i as int]);
        }
        let hit = match &entries[i].event {
            EventType::InvokeRetrying { promise_id, .. } => promise_id.same_id(pid),
            _ => false,
        };
        if hit {
            count = count + 1;
        }
        i = i + 1;
    }
    proof {
        assert(all.take(entries@.len() as int) =~= all);
    }
    count
}

} // verus!
