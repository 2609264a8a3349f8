//! What acceptance by the validator guarantees of a journal.
//!
//! A journal is accepted when every entry, checked against the state
//! accumulated from the entries before it, passes all four invariant
//! families: exactly the journals that `check_append` admits entry by entry.
//! The laws in this module state the global shape of accepted journals:
//! sequence integrity, terminal finality, cancel gating, invoke-lifecycle
//! finality, exactly-once signal consumption and join-set consumption bounds.

use vstd::prelude::*;

use crate::event::{is_terminal_event, EventV};
use crate::journal::EntryV;
use crate::promise_id::PidView;
use crate::resolution::{
    completes_invoke, consumes_signal, creates_joinset, delivers_signal, joinset_consumed_of,
    joinset_members_of, requests_cancel, retries_invoke, schedules_invoke, schedules_timer,
    starts_invoke, submitted_member, consumed_member, opt_pid_seq,
};
use crate::state::{apply_v, init_state, StateV};
use crate::validator::check_result;

verus! {

broadcast use vstd::seq_lib::lemma_seq_contains_after_push;

/// The auxiliary state accumulated from the first `n` entries.
pub open spec fn state_at(entries: Seq<EntryV>, n: int) -> StateV
    decreases n,
{
    if n <= 0 {
        init_state()
    } else {
        apply_v(state_at(entries, n - 1), entries[n - 1])
    }
}

/// Whether the validator accepts the whole journal: every entry passes all
/// four invariant families against the state accumulated before it.
pub open spec fn accepted(entries: Seq<EntryV>) -> bool {
    forall|i: int|
        0 <= i < entries.len() ==> check_result(state_at(entries, i), #[trigger] entries[i])
            is None
}

/// Whether the event starts attempt `a` of the invocation `p`.
pub open spec fn starts_attempt(e: EventV, p: PidView, a: u32) -> bool {
    match e {
        EventV::InvokeStarted { promise_id, attempt } => promise_id == p && attempt == a,
        _ => false,
    }
}

/// Whether the event awaits anything from the join set `js`.
pub open spec fn awaits_joinset(e: EventV, js: PidView) -> bool {
    match e {
        EventV::JoinSetAwaited { join_set_id, .. } => join_set_id == js,
        _ => false,
    }
}

/// Whether the event submits the promise `p` to the join set `js`.
pub open spec fn submits_pair(e: EventV, js: PidView, p: PidView) -> bool {
    submitted_member(e, js) == Option::Some(p)
}

/// Whether the event consumes the promise `p` from the join set `js`.
pub open spec fn awaits_pair(e: EventV, js: PidView, p: PidView) -> bool {
    consumed_member(e, js) == Option::Some(p)
}

/// Whether the event delivers the signal `(name, id)` with payload `payload`.
pub open spec fn delivers_signal_payload(
    e: EventV,
    name: Seq<char>,
    id: u64,
    payload: crate::payload::PayloadV,
) -> bool {
    match e {
        EventV::SignalDelivered { signal_name, payload: delivered, delivery_id } => signal_name
            == name && delivery_id == id && delivered == payload,
        _ => false,
    }
}

/// Whether the event consumes the signal `(name, id)` with payload `payload`.
pub open spec fn receives_signal_payload(
    e: EventV,
    name: Seq<char>,
    id: u64,
    payload: crate::payload::PayloadV,
) -> bool {
    match e {
        EventV::SignalReceived { signal_name, payload: received, delivery_id, .. } => signal_name
            == name && delivery_id == id && received == payload,
        _ => false,
    }
}

/// Whether no two deliveries in the journal share a `(name, id)` key.
pub open spec fn unique_delivery_keys(entries: Seq<EntryV>) -> bool {
    forall|a: int, b: int, name: Seq<char>, id: u64|
        #![trigger delivers_signal(entries[a].event, name, id), delivers_signal(entries[b].event, name, id)]
        0 <= a < b < entries.len() && delivers_signal(entries[a].event, name, id)
            ==> !delivers_signal(entries[b].event, name, id)
}

/// The accumulated entry count equals the number of entries ingested.
proof fn lemma_state_len(entries: Seq<EntryV>, n: int)
    requires
        0 <= n <= entries.len(),
        entries.len() <= usize::MAX,
    ensures
        state_at(entries, n).len == n,
    decreases n,
{
    if n > 0 {
        lemma_state_len(entries, n - 1);
    }
}

/// The lifecycle fields record exactly the history: the terminal marker is
/// set iff a terminal event was ingested, and the cancel flag iff a
/// `CancelRequested` was.
proof fn lemma_state_lifecycle(entries: Seq<EntryV>, n: int)
    requires
        0 <= n <= entries.len(),
    ensures
        (state_at(entries, n).terminal_seq is Some) <==> (exists|j: int|
            0 <= j < n && is_terminal_event(#[trigger] entries[j].event)),
        state_at(entries, n).has_cancel_requested <==> (exists|j: int|
            0 <= j < n && requests_cancel(#[trigger] entries[j].event)),
    decreases n,
{
    if n > 0 {
        lemma_state_lifecycle(entries, n - 1);
        let s = state_at(entries, n - 1);
        let e = entries[n - 1];
        if state_at(entries, n).terminal_seq is Some {
            if s.terminal_seq is None {
                assert(is_terminal_event(e.event));
            }
        }
        if exists|j: int| 0 <= j < n && is_terminal_event(#[trigger] entries[j].event) {
            let j = choose|j: int| 0 <= j < n && is_terminal_event(#[trigger] entries[j].event);
            if j < n - 1 {
                assert(s.terminal_seq is Some);
            }
            assert(state_at(entries, n).terminal_seq is Some);
        }
        if state_at(entries, n).has_cancel_requested {
            if !s.has_cancel_requested {
                assert(requests_cancel(e.event));
            }
        }
        if exists|j: int| 0 <= j < n && requests_cancel(#[trigger] entries[j].event) {
            let j = choose|j: int| 0 <= j < n && requests_cancel(#[trigger] entries[j].event);
            if j < n - 1 {
                assert(s.has_cancel_requested);
            }
            assert(state_at(entries, n).has_cancel_requested);
        }
    }
}

/// The side-effect sets record exactly the history of invoke events.
proof fn lemma_state_side_effects(entries: Seq<EntryV>, n: int)
    requires
        0 <= n <= entries.len(),
    ensures
        forall|p: PidView|
            #[trigger] state_at(entries, n).scheduled.contains(p) <==> (exists|j: int|
                0 <= j < n && schedules_invoke(#[trigger] entries[j].event, p)),
        forall|p: PidView|
            #[trigger] state_at(entries, n).started.contains(p) <==> (exists|j: int|
                0 <= j < n && starts_invoke(#[trigger] entries[j].event, p)),
        forall|p: PidView|
            #[trigger] state_at(entries, n).completed.contains(p) <==> (exists|j: int|
                0 <= j < n && completes_invoke(#[trigger] entries[j].event, p)),
        forall|p: PidView, a: u32|
            #[trigger] state_at(entries, n).started_attempts.contains((p, a)) <==> (exists|j: int|
                0 <= j < n && starts_attempt(#[trigger] entries[j].event, p, a)),
    decreases n,
{
    if n > 0 {
        lemma_state_side_effects(entries, n - 1);
        let s = state_at(entries, n - 1);
        let e = entries[n - 1];
        assert forall|p: PidView| #[trigger]
            state_at(entries, n).scheduled.contains(p) implies (exists|j: int|
            0 <= j < n && schedules_invoke(#[trigger] entries[j].event, p)) by {
            if s.scheduled.contains(p) {
                let j = choose|j: int| 0 <= j < n - 1 && schedules_invoke(entries[j].event, p);
                assert(schedules_invoke(entries[j].event, p));
            } else {
                assert(schedules_invoke(entries[n - 1].event, p));
            }
        }
        assert forall|p: PidView|
            (exists|j: int|
                0 <= j < n && schedules_invoke(#[trigger] entries[j].event, p)) implies state_at(
            entries,
            n,
        ).scheduled.contains(p) by {
            let j = choose|j: int| 0 <= j < n && schedules_invoke(entries[j].event, p);
            if j < n - 1 {
                assert(s.scheduled.contains(p));
            }
        }
        assert forall|p: PidView| #[trigger]
            state_at(entries, n).started.contains(p) implies (exists|j: int|
            0 <= j < n && starts_invoke(#[trigger] entries[j].event, p)) by {
            if s.started.contains(p) {
                let j = choose|j: int| 0 <= j < n - 1 && starts_invoke(entries[j].event, p);
                assert(starts_invoke(entries[j].event, p));
            } else {
                assert(starts_invoke(entries[n - 1].event, p));
            }
        }
        assert forall|p: PidView|
            (exists|j: int|
                0 <= j < n && starts_invoke(#[trigger] entries[j].event, p)) implies state_at(
            entries,
            n,
        ).started.contains(p) by {
            let j = choose|j: int| 0 <= j < n && starts_invoke(entries[j].event, p);
            if j < n - 1 {
                assert(s.started.contains(p));
            }
        }
        assert forall|p: PidView| #[trigger]
            state_at(entries, n).completed.contains(p) implies (exists|j: int|
            0 <= j < n && completes_invoke(#[trigger] entries[j].event, p)) by {
            if s.completed.contains(p) {
                let j = choose|j: int| 0 <= j < n - 1 && completes_invoke(entries[j].event, p);
                assert(completes_invoke(entries[j].event, p));
            } else {
                assert(completes_invoke(entries[n - 1].event, p));
            }
        }
        assert forall|p: PidView|
            (exists|j: int|
                0 <= j < n && completes_invoke(#[trigger] entries[j].event, p)) implies state_at(
            entries,
            n,
        ).completed.contains(p) by {
            let j = choose|j: int| 0 <= j < n && completes_invoke(entries[j].event, p);
            if j < n - 1 {
                assert(s.completed.contains(p));
            }
        }
        assert forall|p: PidView, a: u32| #[trigger]
            state_at(entries, n).started_attempts.contains((p, a)) implies (exists|j: int|
            0 <= j < n && starts_attempt(#[trigger] entries[j].event, p, a)) by {
            if s.started_attempts.contains((p, a)) {
                let j = choose|j: int| 0 <= j < n - 1 && starts_attempt(entries[j].event, p, a);
                assert(starts_attempt(entries[j].event, p, a));
            } else {
                assert(starts_attempt(entries[n - 1].event, p, a));
            }
        }
        assert forall|p: PidView, a: u32|
            (exists|j: int|
                0 <= j < n && starts_attempt(#[trigger] entries[j].event, p, a)) implies state_at(
            entries,
            n,
        ).started_attempts.contains((p, a)) by {
            let j = choose|j: int| 0 <= j < n && starts_attempt(entries[j].event, p, a);
            if j < n - 1 {
                assert(s.started_attempts.contains((p, a)));
            }
        }
    }
}

/// The control-flow fields record exactly the history of timer and signal
/// events.
proof fn lemma_state_control_flow(entries: Seq<EntryV>, n: int)
    requires
        0 <= n <= entries.len(),
    ensures
        forall|p: PidView|
            #[trigger] state_at(entries, n).timer_scheduled.contains(p) <==> (exists|j: int|
                0 <= j < n && schedules_timer(#[trigger] entries[j].event, p)),
        forall|k: (Seq<char>, u64)|
            #[trigger] state_at(entries, n).delivered.contains_key(k) <==> (exists|j: int|
                0 <= j < n && delivers_signal(#[trigger] entries[j].event, k.0, k.1)),
        forall|k: (Seq<char>, u64)|
            #[trigger] state_at(entries, n).consumed_deliveries.contains(k) <==> (exists|j: int|
                0 <= j < n && consumes_signal(#[trigger] entries[j].event, k.0, k.1)),
    decreases n,
{
    if n > 0 {
        lemma_state_control_flow(entries, n - 1);
        let s = state_at(entries, n - 1);
        let e = entries[n - 1];
        assert forall|p: PidView| #[trigger]
            state_at(entries, n).timer_scheduled.contains(p) implies (exists|j: int|
            0 <= j < n && schedules_timer(#[trigger] entries[j].event, p)) by {
            if s.timer_scheduled.contains(p) {
                let j = choose|j: int| 0 <= j < n - 1 && schedules_timer(entries[j].event, p);
                assert(schedules_timer(entries[j].event, p));
            } else {
                assert(schedules_timer(entries[n - 1].event, p));
            }
        }
        assert forall|p: PidView|
            (exists|j: int|
                0 <= j < n && schedules_timer(#[trigger] entries[j].event, p)) implies state_at(
            entries,
            n,
        ).timer_scheduled.contains(p) by {
            let j = choose|j: int| 0 <= j < n && schedules_timer(entries[j].event, p);
            if j < n - 1 {
                assert(s.timer_scheduled.contains(p));
            }
        }
        assert forall|k: (Seq<char>, u64)| #[trigger]
            state_at(entries, n).delivered.contains_key(k) implies (exists|j: int|
            0 <= j < n && delivers_signal(#[trigger] entries[j].event, k.0, k.1)) by {
            if s.delivered.contains_key(k) {
                let j = choose|j: int| 0 <= j < n - 1 && delivers_signal(entries[j].event, k.0, k.1);
                assert(delivers_signal(entries[j].event, k.0, k.1));
            } else {
                assert(delivers_signal(entries[n - 1].event, k.0, k.1));
            }
        }
        assert forall|k: (Seq<char>, u64)|
            (exists|j: int|
                0 <= j < n && delivers_signal(#[trigger] entries[j].event, k.0, k.1)) implies
            state_at(entries, n).delivered.contains_key(k) by {
            let j = choose|j: int| 0 <= j < n && delivers_signal(entries[j].event, k.0, k.1);
            if j < n - 1 {
                assert(s.delivered.contains_key(k));
            } else {
                match e.event {
                    EventV::SignalDelivered { signal_name, delivery_id, .. } => {
                        assert(k == (signal_name, delivery_id));
                    },
                    _ => {
                        assert(false);
                    },
                }
            }
        }
        assert forall|k: (Seq<char>, u64)| #[trigger]
            state_at(entries, n).consumed_deliveries.contains(k) implies (exists|j: int|
            0 <= j < n && consumes_signal(#[trigger] entries[j].event, k.0, k.1)) by {
            if s.consumed_deliveries.contains(k) {
                let j = choose|j: int| 0 <= j < n - 1 && consumes_signal(entries[j].event, k.0, k.1);
                assert(consumes_signal(entries[j].event, k.0, k.1));
            } else {
                assert(consumes_signal(entries[n - 1].event, k.0, k.1));
            }
        }
        assert forall|k: (Seq<char>, u64)|
            (exists|j: int|
                0 <= j < n && consumes_signal(#[trigger] entries[j].event, k.0, k.1)) implies
            state_at(entries, n).consumed_deliveries.contains(k) by {
            let j = choose|j: int| 0 <= j < n && consumes_signal(entries[j].event, k.0, k.1);
            if j < n - 1 {
                assert(s.consumed_deliveries.contains(k));
            } else {
                match e.event {
                    EventV::SignalReceived { signal_name, delivery_id, .. } => {
                        assert(k == (signal_name, delivery_id));
                    },
                    _ => {
                        assert(false);
                    },
                }
            }
        }
    }
}

/// The join-set fields record exactly the history of join-set events.
proof fn lemma_state_joinsets(entries: Seq<EntryV>, n: int)
    requires
        0 <= n <= entries.len(),
    ensures
        forall|js: PidView|
            #[trigger] state_at(entries, n).created.contains(js) <==> (exists|j: int|
                0 <= j < n && creates_joinset(#[trigger] entries[j].event, js)),
        forall|js: PidView|
            #[trigger] state_at(entries, n).awaited.contains(js) <==> (exists|j: int|
                0 <= j < n && awaits_joinset(#[trigger] entries[j].event, js)),
        forall|pr: (PidView, PidView)|
            #[trigger] state_at(entries, n).submitted.contains(pr) <==> (exists|j: int|
                0 <= j < n && submits_pair(#[trigger] entries[j].event, pr.0, pr.1)),
        forall|pr: (PidView, PidView)|
            #[trigger] state_at(entries, n).consumed_pairs.contains(pr) <==> (exists|j: int|
                0 <= j < n && awaits_pair(#[trigger] entries[j].event, pr.0, pr.1)),
    decreases n,
{
    if n > 0 {
        lemma_state_joinsets(entries, n - 1);
        let s = state_at(entries, n - 1);
        let e = entries[n - 1];
        assert forall|js: PidView| #[trigger]
            state_at(entries, n).created.contains(js) implies (exists|j: int|
            0 <= j < n && creates_joinset(#[trigger] entries[j].event, js)) by {
            if s.created.contains(js) {
                let j = choose|j: int| 0 <= j < n - 1 && creates_joinset(entries[j].event, js);
                assert(creates_joinset(entries[j].event, js));
            } else {
                assert(creates_joinset(entries[n - 1].event, js));
            }
        }
        assert forall|js: PidView|
            (exists|j: int|
                0 <= j < n && creates_joinset(#[trigger] entries[j].event, js)) implies state_at(
            entries,
            n,
        ).created.contains(js) by {
            let j = choose|j: int| 0 <= j < n && creates_joinset(entries[j].event, js);
            if j < n - 1 {
                assert(s.created.contains(js));
            }
        }
        assert forall|js: PidView| #[trigger]
            state_at(entries, n).awaited.contains(js) implies (exists|j: int|
            0 <= j < n && awaits_joinset(#[trigger] entries[j].event, js)) by {
            if s.awaited.contains(js) {
                let j = choose|j: int| 0 <= j < n - 1 && awaits_joinset(entries[j].event, js);
                assert(awaits_joinset(entries[j].event, js));
            } else {
                assert(awaits_joinset(entries[n - 1].event, js));
            }
        }
        assert forall|js: PidView|
            (exists|j: int|
                0 <= j < n && awaits_joinset(#[trigger] entries[j].event, js)) implies state_at(
            entries,
            n,
        ).awaited.contains(js) by {
            let j = choose|j: int| 0 <= j < n && awaits_joinset(entries[j].event, js);
            if j < n - 1 {
                assert(s.awaited.contains(js));
            }
        }
        assert forall|pr: (PidView, PidView)| #[trigger]
            state_at(entries, n).submitted.contains(pr) implies (exists|j: int|
            0 <= j < n && submits_pair(#[trigger] entries[j].event, pr.0, pr.1)) by {
            if s.submitted.contains(pr) {
                let j = choose|j: int| 0 <= j < n - 1 && submits_pair(entries[j].event, pr.0, pr.1);
                assert(submits_pair(entries[j].event, pr.0, pr.1));
            } else {
                assert(submits_pair(entries[n - 1].event, pr.0, pr.1));
            }
        }
        assert forall|pr: (PidView, PidView)|
            (exists|j: int|
                0 <= j < n && submits_pair(#[trigger] entries[j].event, pr.0, pr.1)) implies
            state_at(entries, n).submitted.contains(pr) by {
            let j = choose|j: int| 0 <= j < n && submits_pair(entries[j].event, pr.0, pr.1);
            if j < n - 1 {
                assert(s.submitted.contains(pr));
            } else {
                match e.event {
                    EventV::JoinSetSubmitted { join_set_id, promise_id } => {
                        assert(pr == (join_set_id, promise_id));
                    },
                    _ => {
                        assert(false);
                    },
                }
            }
        }
        assert forall|pr: (PidView, PidView)| #[trigger]
            state_at(entries, n).consumed_pairs.contains(pr) implies (exists|j: int|
            0 <= j < n && awaits_pair(#[trigger] entries[j].event, pr.0, pr.1)) by {
            if s.consumed_pairs.contains(pr) {
                let j = choose|j: int| 0 <= j < n - 1 && awaits_pair(entries[j].event, pr.0, pr.1);
                assert(awaits_pair(entries[j].event, pr.0, pr.1));
            } else {
                assert(awaits_pair(entries[n - 1].event, pr.0, pr.1));
            }
        }
        assert forall|pr: (PidView, PidView)|
            (exists|j: int|
                0 <= j < n && awaits_pair(#[trigger] entries[j].event, pr.0, pr.1)) implies
            state_at(entries, n).consumed_pairs.contains(pr) by {
            let j = choose|j: int| 0 <= j < n && awaits_pair(entries[j].event, pr.0, pr.1);
            if j < n - 1 {
                assert(s.consumed_pairs.contains(pr));
            } else {
                match e.event {
                    EventV::JoinSetAwaited { join_set_id, promise_id, .. } => {
                        assert(pr == (join_set_id, promise_id));
                    },
                    _ => {
                        assert(false);
                    },
                }
            }
        }
    }
}


/// In an accepted journal the delivered-signal map holds, under each key,
/// the payload of the one delivery with that key.
proof fn lemma_delivered_value(entries: Seq<EntryV>, n: int, j: int, name: Seq<char>, id: u64)
    requires
        unique_delivery_keys(entries),
        0 <= j < n <= entries.len(),
        delivers_signal(entries[j].event, name, id),
    ensures
        state_at(entries, n).delivered.contains_key((name, id)),
        delivers_signal_payload(
            entries[j].event,
            name,
            id,
            state_at(entries, n).delivered[(name, id)],
        ),
    decreases n,
{
    if n - 1 == j {
        lemma_state_control_flow(entries, n - 1);
    } else {
        lemma_delivered_value(entries, n - 1, j, name, id);
        if delivers_signal(entries[n - 1].event, name, id) {
            assert(false);
        }
    }
}

/// Law (sequence integrity): in an accepted journal, every entry's sequence
/// number equals its 0-based index.
pub proof fn lemma_accepted_sequences(entries: Seq<EntryV>)
    requires
        entries.len() <= usize::MAX,
        accepted(entries),
    ensures
        forall|i: int| 0 <= i < entries.len() ==> (#[trigger] entries[i]).sequence == i,
{
    assert forall|i: int| 0 <= i < entries.len() implies (#[trigger] entries[i]).sequence == i by {
        lemma_state_len(entries, i);
        assert(check_result(state_at(entries, i), entries[i]) is None);
        assert(crate::structural::structural_result(state_at(entries, i), entries[i]) is None);
    }
}

/// Any entry after a terminal event is rejected, so a terminal event in an
/// accepted journal is the last entry.
proof fn lemma_terminal_is_last(entries: Seq<EntryV>, i: int)
    requires
        entries.len() <= usize::MAX,
        accepted(entries),
        0 <= i < entries.len(),
        is_terminal_event(entries[i].event),
    ensures
        i == entries.len() - 1,
{
    if i < entries.len() - 1 {
        let k = i + 1;
        lemma_state_lifecycle(entries, k);
        assert(state_at(entries, k).terminal_seq is Some) by {
            assert(is_terminal_event(entries[i].event));
        }
        assert(crate::structural::structural_result(state_at(entries, k), entries[k]) is Some);
        assert(check_result(state_at(entries, k), entries[k]) is Some);
        assert(false);
    }
}

/// Law (terminal finality): in an accepted journal, a terminal event is the
/// last entry and the only terminal event.
pub proof fn lemma_accepted_terminal_last(entries: Seq<EntryV>, i: int)
    requires
        entries.len() <= usize::MAX,
        accepted(entries),
        0 <= i < entries.len(),
        is_terminal_event(entries[i].event),
    ensures
        i == entries.len() - 1,
        forall|j: int|
            0 <= j < entries.len() && is_terminal_event(#[trigger] entries[j].event) ==> j == i,
{
    lemma_terminal_is_last(entries, i);
    assert forall|j: int|
        0 <= j < entries.len() && is_terminal_event(#[trigger] entries[j].event) implies j == i by {
        lemma_terminal_is_last(entries, j);
    }
}

/// Law (cancel gating): in an accepted journal, `ExecutionCancelled` implies
/// a prior `CancelRequested`.
pub proof fn lemma_accepted_cancel_gated(entries: Seq<EntryV>, i: int)
    requires
        entries.len() <= usize::MAX,
        accepted(entries),
        0 <= i < entries.len(),
        entries[i].event is ExecutionCancelled,
    ensures
        exists|j: int| 0 <= j < i && requests_cancel(#[trigger] entries[j].event),
{
    lemma_state_lifecycle(entries, i);
    let s = state_at(entries, i);
    assert(check_result(s, entries[i]) is None);
    assert(crate::structural::structural_result(s, entries[i]) is None);
    assert(s.has_cancel_requested);
}

/// Law (invoke finality): in an accepted journal, every `InvokeCompleted`
/// has a prior `InvokeStarted` for the same promise, and no later
/// `InvokeStarted`, `InvokeRetrying` or `InvokeCompleted` references that
/// promise.
pub proof fn lemma_accepted_invoke_finality(entries: Seq<EntryV>, i: int, p: PidView)
    requires
        entries.len() <= usize::MAX,
        accepted(entries),
        0 <= i < entries.len(),
        completes_invoke(entries[i].event, p),
    ensures
        exists|j: int| 0 <= j < i && starts_invoke(#[trigger] entries[j].event, p),
        forall|k: int|
            i < k < entries.len() ==> !starts_invoke(#[trigger] entries[k].event, p)
                && !retries_invoke(entries[k].event, p) && !completes_invoke(entries[k].event, p),
{
    lemma_state_side_effects(entries, i);
    let s = state_at(entries, i);
    assert(check_result(s, entries[i]) is None);
    assert(crate::side_effects::side_effects_result(s, entries[i]) is None);
    assert(s.started.contains(p));
    assert forall|k: int| i < k < entries.len() implies !starts_invoke(
        #[trigger] entries[k].event,
        p,
    ) && !retries_invoke(entries[k].event, p) && !completes_invoke(entries[k].event, p) by {
        lemma_state_side_effects(entries, k);
        let sk = state_at(entries, k);
        assert(sk.completed.contains(p)) by {
            assert(completes_invoke(entries[i].event, p));
        }
        assert(check_result(sk, entries[k]) is None);
        assert(crate::side_effects::side_effects_result(sk, entries[k]) is None);
        if starts_invoke(entries[k].event, p) {
            assert(false);
        }
        if retries_invoke(entries[k].event, p) {
            assert(false);
        }
        if completes_invoke(entries[k].event, p) {
            assert(false);
        }
    }
}

/// Law (exactly-once signal consumption): in an accepted journal whose
/// deliveries have distinct `(name, id)` keys, every `SignalReceived` is
/// preceded by a delivery of the same key, every such prior delivery carries
/// the received payload, and no other `SignalReceived` consumes that key.
///
/// The key-uniqueness premise is needed because nothing stops a journal from
/// recording two deliveries under one key: the later delivery then overwrites
/// the earlier in the validator's index, and a receive matching the later
/// payload is accepted even though an earlier delivery with another payload
/// exists.
pub proof fn lemma_accepted_signal_once(
    entries: Seq<EntryV>,
    i: int,
    name: Seq<char>,
    id: u64,
    payload: crate::payload::PayloadV,
)
    requires
        entries.len() <= usize::MAX,
        accepted(entries),
        unique_delivery_keys(entries),
        0 <= i < entries.len(),
        receives_signal_payload(entries[i].event, name, id, payload),
    ensures
        exists|j: int| 0 <= j < i && delivers_signal(#[trigger] entries[j].event, name, id),
        forall|j: int|
            0 <= j < i && delivers_signal(#[trigger] entries[j].event, name, id)
                ==> delivers_signal_payload(entries[j].event, name, id, payload),
        forall|k: int|
            0 <= k < entries.len() && k != i ==> !consumes_signal(
                #[trigger] entries[k].event,
                name,
                id,
            ),
{
    lemma_state_control_flow(entries, i);
    let s = state_at(entries, i);
    assert(check_result(s, entries[i]) is None);
    assert(crate::control_flow::control_flow_result(s, entries[i]) is None);
    assert(s.delivered.contains_key((name, id)) && s.delivered[(name, id)] == payload);
    assert(exists|j: int| 0 <= j < i && delivers_signal(#[trigger] entries[j].event, name, id));
    assert forall|j: int|
        0 <= j < i && delivers_signal(#[trigger] entries[j].event, name, id) implies
        delivers_signal_payload(entries[j].event, name, id, payload) by {
        lemma_delivered_value(entries, i, j, name, id);
    }
    assert(!s.consumed_deliveries.contains((name, id)));
    assert forall|k: int| 0 <= k < entries.len() && k != i implies !consumes_signal(
        #[trigger] entries[k].event,
        name,
        id,
    ) by {
        if consumes_signal(entries[k].event, name, id) {
            if k < i {
                assert(s.consumed_deliveries.contains((name, id))) by {
                    assert(consumes_signal(entries[k].event, name, id));
                }
                assert(false);
            } else {
                lemma_state_control_flow(entries, k);
                let sk = state_at(entries, k);
                assert(sk.consumed_deliveries.contains((name, id))) by {
                    assert(consumes_signal(entries[i].event, name, id));
                }
                assert(check_result(sk, entries[k]) is None);
                assert(crate::control_flow::control_flow_result(sk, entries[k]) is None);
                assert(false);
            }
        }
    }
}

/// Law (join-set consumption): in an accepted journal, every `JoinSetAwaited`
/// consumes a pair that was previously submitted, of a promise previously
/// completed, and no other `JoinSetAwaited` consumes the same pair.
pub proof fn lemma_accepted_joinset_await(entries: Seq<EntryV>, i: int, js: PidView, p: PidView)
    requires
        entries.len() <= usize::MAX,
        accepted(entries),
        0 <= i < entries.len(),
        awaits_pair(entries[i].event, js, p),
    ensures
        exists|j: int| 0 <= j < i && submits_pair(#[trigger] entries[j].event, js, p),
        exists|j: int| 0 <= j < i && completes_invoke(#[trigger] entries[j].event, p),
        forall|k: int|
            0 <= k < entries.len() && k != i ==> !awaits_pair(#[trigger] entries[k].event, js, p),
{
    lemma_state_joinsets(entries, i);
    lemma_state_side_effects(entries, i);
    let s = state_at(entries, i);
    assert(check_result(s, entries[i]) is None);
    assert(crate::joinsets::joinsets_result(s, entries[i]) is None);
    assert(s.submitted.contains((js, p)));
    assert(s.completed.contains(p));
    assert(!s.consumed_pairs.contains((js, p)));
    assert forall|k: int| 0 <= k < entries.len() && k != i implies !awaits_pair(
        #[trigger] entries[k].event,
        js,
        p,
    ) by {
        if awaits_pair(entries[k].event, js, p) {
            if k < i {
                assert(s.consumed_pairs.contains((js, p))) by {
                    assert(awaits_pair(entries[k].event, js, p));
                }
                assert(false);
            } else {
                lemma_state_joinsets(entries, k);
                let sk = state_at(entries, k);
                assert(sk.consumed_pairs.contains((js, p))) by {
                    assert(awaits_pair(entries[i].event, js, p));
                }
                assert(check_result(sk, entries[k]) is None);
                assert(crate::joinsets::joinsets_result(sk, entries[k]) is None);
                assert(false);
            }
        }
    }
}

/// The consumed list of a join-set prefix holds exactly the promises of the
/// `JoinSetAwaited` entries for that set in the prefix.
proof fn lemma_consumed_of_contains(entries: Seq<EntryV>, js: PidView, n: int)
    requires
        0 <= n <= entries.len(),
    ensures
        forall|p: PidView|
            #[trigger] joinset_consumed_of(entries.take(n), js).contains(p) <==> (exists|j: int|
                0 <= j < n && awaits_pair(#[trigger] entries[j].event, js, p)),
    decreases n,
{
    broadcast use vstd::seq_lib::lemma_seq_concat_contains_all_elements;

    if n == 0 {
        assert(entries.take(0) =~= Seq::<EntryV>::empty());
    } else {
        lemma_consumed_of_contains(entries, js, n - 1);
        let prefix = entries.take(n - 1);
        let full = entries.take(n);
        let e = entries[n - 1];
        assert(full.drop_last() =~= prefix);
        assert(full.last() == e);
        let consumed_new = joinset_consumed_of(full, js);
        let consumed_old = joinset_consumed_of(prefix, js);
        assert(consumed_new == consumed_old + opt_pid_seq(consumed_member(e.event, js)));
        assert forall|p: PidView| #[trigger] consumed_new.contains(p) implies (exists|j: int|
            0 <= j < n && awaits_pair(#[trigger] entries[j].event, js, p)) by {
            if consumed_old.contains(p) {
                let j = choose|j: int| 0 <= j < n - 1 && awaits_pair(entries[j].event, js, p);
                assert(awaits_pair(entries[j].event, js, p));
            } else {
                let m = choose|m: int| 0 <= m < consumed_new.len() && consumed_new[m] == p;
                assert(m >= consumed_old.len());
                assert(consumed_member(e.event, js) == Option::Some(p));
                assert(awaits_pair(entries[n - 1].event, js, p));
            }
        }
        assert forall|p: PidView|
            (exists|j: int|
                0 <= j < n && awaits_pair(#[trigger] entries[j].event, js, p)) implies #[trigger]
        consumed_new.contains(p) by {
            let j = choose|j: int| 0 <= j < n && awaits_pair(entries[j].event, js, p);
            if j < n - 1 {
                assert(consumed_old.contains(p)) by {
                    assert(awaits_pair(entries[j].event, js, p));
                }
            } else {
                assert(consumed_member(e.event, js) == Option::Some(p));
                assert(opt_pid_seq(consumed_member(e.event, js))[0] == p);
                assert(consumed_new[consumed_old.len() as int] == p);
            }
        }
    }
}

/// The member list of a join-set prefix holds exactly the promises of the
/// `JoinSetSubmitted` entries for that set in the prefix.
proof fn lemma_members_of_contains(entries: Seq<EntryV>, js: PidView, n: int)
    requires
        0 <= n <= entries.len(),
    ensures
        forall|p: PidView|
            #[trigger] joinset_members_of(entries.take(n), js).contains(p) <==> (exists|j: int|
                0 <= j < n && submits_pair(#[trigger] entries[j].event, js, p)),
    decreases n,
{
    broadcast use vstd::seq_lib::lemma_seq_concat_contains_all_elements;

    if n == 0 {
        assert(entries.take(0) =~= Seq::<EntryV>::empty());
    } else {
        lemma_members_of_contains(entries, js, n - 1);
        let prefix = entries.take(n - 1);
        let full = entries.take(n);
        let e = entries[n - 1];
        assert(full.drop_last() =~= prefix);
        assert(full.last() == e);
        let members_new = joinset_members_of(full, js);
        let members_old = joinset_members_of(prefix, js);
        assert(members_new == members_old + opt_pid_seq(submitted_member(e.event, js)));
        assert forall|p: PidView| #[trigger] members_new.contains(p) implies (exists|j: int|
            0 <= j < n && submits_pair(#[trigger] entries[j].event, js, p)) by {
            if members_old.contains(p) {
                let j = choose|j: int| 0 <= j < n - 1 && submits_pair(entries[j].event, js, p);
                assert(submits_pair(entries[j].event, js, p));
            } else {
                let m = choose|m: int| 0 <= m < members_new.len() && members_new[m] == p;
                assert(m >= members_old.len());
                assert(submitted_member(e.event, js) == Option::Some(p));
                assert(submits_pair(entries[n - 1].event, js, p));
            }
        }
        assert forall|p: PidView|
            (exists|j: int|
                0 <= j < n && submits_pair(#[trigger] entries[j].event, js, p)) implies #[trigger]
        members_new.contains(p) by {
            let j = choose|j: int| 0 <= j < n && submits_pair(entries[j].event, js, p);
            if j < n - 1 {
                assert(members_old.contains(p)) by {
                    assert(submits_pair(entries[j].event, js, p));
                }
            } else {
                assert(submitted_member(e.event, js) == Option::Some(p));
                assert(opt_pid_seq(submitted_member(e.event, js))[0] == p);
                assert(members_new[members_old.len() as int] == p);
            }
        }
    }
}

/// In an accepted journal the consumed list of a join set never repeats a
/// promise: every consumption passed the double-consume rule.
proof fn lemma_consumed_of_nodup(entries: Seq<EntryV>, js: PidView, n: int)
    requires
        entries.len() <= usize::MAX,
        accepted(entries),
        0 <= n <= entries.len(),
    ensures
        joinset_consumed_of(entries.take(n), js).no_duplicates(),
    decreases n,
{
    if n == 0 {
        assert(entries.take(0) =~= Seq::<EntryV>::empty());
    } else {
        lemma_consumed_of_nodup(entries, js, n - 1);
        let prefix = entries.take(n - 1);
        let full = entries.take(n);
        let e = entries[n - 1];
        assert(full.drop_last() =~= prefix);
        assert(full.last() == e);
        let consumed_new = joinset_consumed_of(full, js);
        let consumed_old = joinset_consumed_of(prefix, js);
        assert(consumed_new == consumed_old + opt_pid_seq(consumed_member(e.event, js)));
        match consumed_member(e.event, js) {
            Option::Some(p) => {
                assert(awaits_pair(e.event, js, p));
                let s = state_at(entries, n - 1);
                assert(check_result(s, e) is None);
                assert(crate::joinsets::joinsets_result(s, e) is None);
                assert(!s.consumed_pairs.contains((js, p)));
                lemma_state_joinsets(entries, n - 1);
                lemma_consumed_of_contains(entries, js, n - 1);
                assert(!consumed_old.contains(p)) by {
                    if consumed_old.contains(p) {
                        let j = choose|j: int|
                            0 <= j < n - 1 && awaits_pair(entries[j].event, js, p);
                        assert(s.consumed_pairs.contains((js, p))) by {
                            assert(awaits_pair(entries[j].event, js, p));
                        }
                    }
                }
                assert(consumed_new =~= consumed_old.push(p));
                assert forall|a: int, b: int|
                    0 <= a < b < consumed_new.len() implies consumed_new[a] != consumed_new[b] by {
                    if b < consumed_old.len() {
                    } else {
                        assert(consumed_new[b] == p);
                        assert(consumed_old.contains(consumed_old[a]));
                    }
                }
            },
            Option::None => {
                assert(consumed_new =~= consumed_old);
            },
        }
    }
}

/// Law (join-set consumption bound): in an accepted journal, the consumed
/// list of every join set has no duplicates, consumes only submitted members,
/// and is therefore no longer than the member list.
pub proof fn lemma_accepted_joinset_bounded(entries: Seq<EntryV>, js: PidView)
    requires
        entries.len() <= usize::MAX,
        accepted(entries),
    ensures
        joinset_consumed_of(entries, js).no_duplicates(),
        forall|p: PidView|
            #[trigger] joinset_consumed_of(entries, js).contains(p) ==> joinset_members_of(
                entries,
                js,
            ).contains(p),
        joinset_consumed_of(entries, js).len() <= joinset_members_of(entries, js).len(),
{
    broadcast use vstd::seq_lib::seq_to_set_is_finite;
    broadcast use vstd::set::group_set_axioms;

    let n = entries.len() as int;
    lemma_consumed_of_contains(entries, js, n);
    lemma_members_of_contains(entries, js, n);
    lemma_consumed_of_nodup(entries, js, n);
    assert(entries.take(n) =~= entries);
    // Everything consumed was submitted: the membership rule at the
    // consuming entry.
    assert forall|p: PidView| #[trigger]
        joinset_consumed_of(entries, js).contains(p) implies joinset_members_of(
        entries,
        js,
    ).contains(p) by {
        let j = choose|j: int| 0 <= j < n && awaits_pair(entries[j].event, js, p);
        lemma_state_joinsets(entries, j);
        let sj = state_at(entries, j);
        assert(check_result(sj, entries[j]) is None);
        assert(crate::joinsets::joinsets_result(sj, entries[j]) is None);
        assert(sj.submitted.contains((js, p)));
        let j2 = choose|j2: int| 0 <= j2 < j && submits_pair(entries[j2].event, js, p);
        assert(submits_pair(entries[j2].event, js, p));
    }
    let consumed = joinset_consumed_of(entries, js);
    let members = joinset_members_of(entries, js);
    consumed.unique_seq_to_set();
    members.lemma_cardinality_of_set();
    assert(consumed.to_set().subset_of(members.to_set())) by {
        assert forall|p: PidView| consumed.to_set().contains(p) implies members.to_set().contains(
            p,
        ) by {
            assert(consumed.contains(p));
        }
    }
    vstd::set_lib::lemma_len_subset(consumed.to_set(), members.to_set());
}


/// From entry `n` on, batch validation collects nothing exactly when every
/// remaining entry passes the incremental check.
proof fn lemma_batch_clean_from(entries: Seq<EntryV>, n: int)
    requires
        0 <= n <= entries.len(),
    ensures
        (crate::validator::batch_violations(state_at(entries, n), entries.skip(n)).len() == 0)
            <==> (forall|i: int|
            n <= i < entries.len() ==> crate::validator::check_result(
                state_at(entries, i),
                #[trigger] entries[i],
            ) is None),
    decreases entries.len() - n,
{
    if n == entries.len() {
        assert(entries.skip(n) =~= Seq::<EntryV>::empty());
    } else {
        lemma_batch_clean_from(entries, n + 1);
        let s = state_at(entries, n);
        let suffix = entries.skip(n);
        assert(suffix[0] == entries[n]);
        assert(suffix.drop_first() =~= entries.skip(n + 1));
        assert(state_at(entries, n + 1) == apply_v(s, entries[n]));
        let here = crate::validator::entry_violations(s, entries[n]);
        assert(here.len() == 0 <==> crate::validator::check_result(s, entries[n]) is None);
    }
}

/// A journal is accepted exactly when batch validation collects no violation:
/// the incremental and the batch validator agree on which journals are clean.
pub proof fn lemma_accepted_iff_batch_clean(entries: Seq<EntryV>)
    ensures
        accepted(entries) <==> crate::validator::batch_violations(init_state(), entries).len()
            == 0,
{
    lemma_batch_clean_from(entries, 0);
    assert(entries.skip(0) =~= entries);
    assert(state_at(entries, 0) == init_state());
}

} // verus!
