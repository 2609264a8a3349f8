//! Accumulated auxiliary state for O(1) incremental invariant checking.
//!
//! Each field tracks just enough information from previously ingested entries
//! to validate the next append without rescanning the journal. Checkers only
//! read this state; all mutation is centralized in the single apply step.

use vstd::prelude::*;

use crate::event::{EventType, EventV, SignalDeliveryId};
use crate::join_set::JoinSetId;
use crate::journal::EntryV;
use crate::payload::{Payload, PayloadV};
use crate::promise_id::{PidView, PromiseId};

verus! {

/// Views of a sequence of promise ids.
pub open spec fn pid_views(s: Seq<PromiseId>) -> Seq<PidView> {
    Seq::new(s.len(), |i: int| s[i]@)
}

/// Views of a sequence of join-set ids.
pub open spec fn js_views(s: Seq<JoinSetId>) -> Seq<PidView> {
    Seq::new(s.len(), |i: int| s[i]@)
}

/// Views of a sequence of `(promise, attempt)` pairs.
pub open spec fn attempt_views(s: Seq<(PromiseId, u32)>) -> Seq<(PidView, u32)> {
    Seq::new(s.len(), |i: int| (s[i].0@, s[i].1))
}

/// Views of a sequence of `(join set, promise)` pairs.
pub open spec fn pair_views(s: Seq<(JoinSetId, PromiseId)>) -> Seq<(PidView, PidView)> {
    Seq::new(s.len(), |i: int| (s[i].0@, s[i].1@))
}

/// Views of a sequence of `(signal name, delivery id)` keys.
pub open spec fn sig_key_views(s: Seq<(String, SignalDeliveryId)>) -> Seq<(Seq<char>, u64)> {
    Seq::new(s.len(), |i: int| (s[i].0@, s[i].1))
}

/// The key of one delivered-signal record.
pub open spec fn delivered_key(t: (String, SignalDeliveryId, Payload)) -> (Seq<char>, u64) {
    (t.0@, t.1)
}

/// The delivered-signal map: later records overwrite earlier ones with the
/// same key.
pub open spec fn delivered_map(s: Seq<(String, SignalDeliveryId, Payload)>) -> Map<
    (Seq<char>, u64),
    PayloadV,
>
    decreases s.len(),
{
    if s.len() == 0 {
        Map::empty()
    } else {
        delivered_map(s.drop_last()).insert(delivered_key(s.last()), s.last().2@)
    }
}

/// The per-join-set counter map: later records overwrite earlier ones.
pub open spec fn counts_map(s: Seq<(JoinSetId, u32, u32)>) -> Map<PidView, (u32, u32)>
    decreases s.len(),
{
    if s.len() == 0 {
        Map::empty()
    } else {
        counts_map(s.drop_last()).insert(s.last().0@, (s.last().1, s.last().2))
    }
}

/// The promise-owner map: later records overwrite earlier ones. The apply
/// step only ever appends a record for a promise that has no owner yet, so
/// the map is first-writer-wins in practice.
pub open spec fn owner_map(s: Seq<(PromiseId, JoinSetId)>) -> Map<PidView, PidView>
    decreases s.len(),
{
    if s.len() == 0 {
        Map::empty()
    } else {
        owner_map(s.drop_last()).insert(s.last().0@, s.last().1@)
    }
}

/// Saturating increment of a u32 counter.
pub open spec fn sat_inc(n: u32) -> u32 {
    if n == 0xffff_ffffu32 {
        n
    } else {
        (n + 1) as u32
    }
}

/// Mathematical value of an [`InvariantState`].
#[verifier::ext_equal]
pub struct StateV {
    /// Number of entries ingested so far.
    pub len: usize,
    /// Sequence number of the first terminal event, once seen.
    pub terminal_seq: Option<u64>,
    /// Whether a `CancelRequested` event has been seen.
    pub has_cancel_requested: bool,
    /// Promises named by `InvokeScheduled` events.
    pub scheduled: Seq<PidView>,
    /// Promises named by `InvokeStarted` events.
    pub started: Seq<PidView>,
    /// Promises named by `InvokeCompleted` events.
    pub completed: Seq<PidView>,
    /// `(promise, attempt)` pairs named by `InvokeStarted` events.
    pub started_attempts: Seq<(PidView, u32)>,
    /// Promises named by `TimerScheduled` events.
    pub timer_scheduled: Seq<PidView>,
    /// Delivered signals by `(name, delivery id)`, with the delivered payload.
    pub delivered: Map<(Seq<char>, u64), PayloadV>,
    /// `(name, delivery id)` keys already consumed by a `SignalReceived`.
    pub consumed_deliveries: Seq<(Seq<char>, u64)>,
    /// Join sets named by `JoinSetCreated` events.
    pub created: Seq<PidView>,
    /// Join sets with at least one `JoinSetAwaited`.
    pub awaited: Seq<PidView>,
    /// `(join set, promise)` pairs named by `JoinSetSubmitted` events.
    pub submitted: Seq<(PidView, PidView)>,
    /// `(join set, promise)` pairs named by `JoinSetAwaited` events.
    pub consumed_pairs: Seq<(PidView, PidView)>,
    /// Per join set: `(submitted count, awaited count)`.
    pub counts: Map<PidView, (u32, u32)>,
    /// First join set that submitted each promise.
    pub owner: Map<PidView, PidView>,
}

/// The state before any entry has been ingested.
pub open spec fn init_state() -> StateV {
    StateV {
        len: 0,
        terminal_seq: Option::None,
        has_cancel_requested: false,
        scheduled: Seq::empty(),
        started: Seq::empty(),
        completed: Seq::empty(),
        started_attempts: Seq::empty(),
        timer_scheduled: Seq::empty(),
        delivered: Map::empty(),
        consumed_deliveries: Seq::empty(),
        created: Seq::empty(),
        awaited: Seq::empty(),
        submitted: Seq::empty(),
        consumed_pairs: Seq::empty(),
        counts: Map::empty(),
        owner: Map::empty(),
    }
}

/// The single-step state transition: how one ingested entry updates the
/// auxiliary state. `len` is incremented last in every case.
pub open spec fn apply_v(s: StateV, e: EntryV) -> StateV {
    let s1 = match e.event {
        EventV::ExecutionCompleted { .. } | EventV::ExecutionFailed { .. }
            | EventV::ExecutionCancelled { .. } => StateV {
            terminal_seq: match s.terminal_seq {
                Option::Some(t) => Option::Some(t),
                Option::None => Option::Some(e.sequence),
            },
            ..s
        },
        EventV::CancelRequested { .. } => StateV { has_cancel_requested: true, ..s },
        EventV::InvokeScheduled { promise_id, .. } => StateV {
            scheduled: s.scheduled.push(promise_id),
            ..s
        },
        EventV::InvokeStarted { promise_id, attempt } => StateV {
            started: s.started.push(promise_id),
            started_attempts: s.started_attempts.push((promise_id, attempt)),
            ..s
        },
        EventV::InvokeCompleted { promise_id, .. } => StateV {
            completed: s.completed.push(promise_id),
            ..s
        },
        EventV::TimerScheduled { promise_id, .. } => StateV {
            timer_scheduled: s.timer_scheduled.push(promise_id),
            ..s
        },
        EventV::SignalDelivered { signal_name, payload, delivery_id } => StateV {
            delivered: s.delivered.insert((signal_name, delivery_id), payload),
            ..s
        },
        EventV::SignalReceived { signal_name, delivery_id, .. } => StateV {
            consumed_deliveries: s.consumed_deliveries.push((signal_name, delivery_id)),
            ..s
        },
        EventV::JoinSetCreated { join_set_id } => StateV {
            created: s.created.push(join_set_id),
            ..s
        },
        EventV::JoinSetSubmitted { join_set_id, promise_id } => {
            let counts0 = if s.counts.contains_key(join_set_id) {
                s.counts[join_set_id]
            } else {
                (0u32, 0u32)
            };
            StateV {
                submitted: s.submitted.push((join_set_id, promise_id)),
                counts: s.counts.insert(join_set_id, (sat_inc(counts0.0), counts0.1)),
                owner: if s.owner.contains_key(promise_id) {
                    s.owner
                } else {
                    s.owner.insert(promise_id, join_set_id)
                },
                ..s
            }
        },
        EventV::JoinSetAwaited { join_set_id, promise_id, .. } => {
            let counts0 = if s.counts.contains_key(join_set_id) {
                s.counts[join_set_id]
            } else {
                (0u32, 0u32)
            };
            StateV {
                awaited: s.awaited.push(join_set_id),
                consumed_pairs: s.consumed_pairs.push((join_set_id, promise_id)),
                counts: s.counts.insert(join_set_id, (counts0.0, sat_inc(counts0.1))),
                ..s
            }
        },
        _ => s,
    };
    StateV { len: (s1.len + 1) as usize, ..s1 }
}

/// Accumulated auxiliary state for O(1) incremental invariant checking.
///
/// The association vectors (`delivered_signals`, `joinset_counts`,
/// `pid_owner`) are append-only: a new record for an existing key overrides
/// the older one, and lookups scan from the newest record backwards.
#[derive(Debug)]
pub struct InvariantState {
    /// Number of entries ingested so far (S-1 expects `sequence == len`).
    pub len: usize,
    /// Sequence number of the first terminal event, if any (S-3, S-4).
    pub terminal_seq: Option<u64>,
    /// Whether a `CancelRequested` event has been seen (S-5).
    pub has_cancel_requested: bool,
    /// Promise ids from `InvokeScheduled` events (SE-1).
    pub scheduled_pids: Vec<PromiseId>,
    /// Promise ids from `InvokeStarted` events (SE-2).
    pub started_pids: Vec<PromiseId>,
    /// Promise ids from `InvokeCompleted` events (SE-4, JS-4).
    pub completed_pids: Vec<PromiseId>,
    /// `(promise, attempt)` pairs from `InvokeStarted` events (SE-3).
    pub started_attempts: Vec<(PromiseId, u32)>,
    /// Promise ids from `TimerScheduled` events (CF-1).
    pub scheduled_timer_pids: Vec<PromiseId>,
    /// Delivered signals keyed by `(name, delivery id)`, with the payload
    /// stored for the equality check in CF-2.
    pub delivered_signals: Vec<(String, SignalDeliveryId, Payload)>,
    /// Signal deliveries already consumed by a `SignalReceived` (CF-3).
    pub consumed_signal_deliveries: Vec<(String, SignalDeliveryId)>,
    /// Join-set ids from `JoinSetCreated` events (JS-1).
    pub created_joinsets: Vec<JoinSetId>,
    /// Join sets with at least one `JoinSetAwaited` (JS-2).
    pub awaited_joinsets: Vec<JoinSetId>,
    /// `(join set, promise)` pairs from `JoinSetSubmitted` (JS-3).
    pub submitted_pairs: Vec<(JoinSetId, PromiseId)>,
    /// `(join set, promise)` pairs from `JoinSetAwaited` (JS-5).
    pub consumed_pairs: Vec<(JoinSetId, PromiseId)>,
    /// Per join set: `(submitted count, awaited count)` (JS-6).
    pub joinset_counts: Vec<(JoinSetId, u32, u32)>,
    /// First join set that submitted each promise (JS-7).
    pub pid_owner: Vec<(PromiseId, JoinSetId)>,
}

impl View for InvariantState {
    type V = StateV;

    open spec fn view(&self) -> StateV {
        StateV {
            len: self.len,
            terminal_seq: self.terminal_seq,
            has_cancel_requested: self.has_cancel_requested,
            scheduled: pid_views(self.scheduled_pids@),
            started: pid_views(self.started_pids@),
            completed: pid_views(self.completed_pids@),
            started_attempts: attempt_views(self.started_attempts@),
            timer_scheduled: pid_views(self.scheduled_timer_pids@),
            delivered: delivered_map(self.delivered_signals@),
            consumed_deliveries: sig_key_views(self.consumed_signal_deliveries@),
            created: js_views(self.created_joinsets@),
            awaited: js_views(self.awaited_joinsets@),
            submitted: pair_views(self.submitted_pairs@),
            consumed_pairs: pair_views(self.consumed_pairs@),
            counts: counts_map(self.joinset_counts@),
            owner: owner_map(self.pid_owner@),
        }
    }
}

impl Default for InvariantState {
    /// The empty state, before any entry has been ingested.
    fn default() -> (r: Self)
        ensures
            r@ == init_state(),
    {
        let r = InvariantState {
            len: 0,
            terminal_seq: Option::None,
            has_cancel_requested: false,
            scheduled_pids: Vec::new(),
            started_pids: Vec::new(),
            completed_pids: Vec::new(),
            started_attempts: Vec::new(),
            scheduled_timer_pids: Vec::new(),
            delivered_signals: Vec::new(),
            consumed_signal_deliveries: Vec::new(),
            created_joinsets: Vec::new(),
            awaited_joinsets: Vec::new(),
            submitted_pairs: Vec::new(),
            consumed_pairs: Vec::new(),
            joinset_counts: Vec::new(),
            pid_owner: Vec::new(),
        };
        proof {
            assert(r@ =~= init_state());
        }
        r
    }
}

impl InvariantState {
    /// The empty state, before any entry has been ingested.
    pub fn new() -> (r: Self)
        ensures
            r@ == init_state(),
    {
        Self::default()
    }
}

/// Whether a vector of promise ids holds the given promise.
pub(crate) fn contains_pid(v: &Vec<PromiseId>, p: &PromiseId) -> (r: bool)
    ensures
        r == pid_views(v@).contains(p@),
{
    let mut i: usize = 0;
    while i < v.len()
        invariant
            i <= v.len(),
            forall|j: int| 0 <= j < i ==> v@[j]@ != p@,
        decreases v.len() - i,
    {
        if v[i].same_id(p) {
            proof {
                assert(pid_views(v@)[i as int] == p@);
            }
            return true;
        }
        i = i + 1;
    }
    proof {
        assert forall|j: int| 0 <= j < pid_views(v@).len() implies pid_views(v@)[j] != p@ by {
            assert(v@[j]@ != p@);
        }
    }
    false
}

/// Whether a vector of join-set ids holds the given set.
pub(crate) fn contains_js(v: &Vec<JoinSetId>, js: &JoinSetId) -> (r: bool)
    ensures
        r == js_views(v@).contains(js@),
{
    let mut i: usize = 0;
    while i < v.len()
        invariant
            i <= v.len(),
            forall|j: int| 0 <= j < i ==> v@[j]@ != js@,
        decreases v.len() - i,
    {
        if v[i].same_id(js) {
            proof {
                assert(js_views(v@)[i as int] == js@);
            }
            return true;
        }
        i = i + 1;
    }
    proof {
        assert forall|j: int| 0 <= j < js_views(v@).len() implies js_views(v@)[j] != js@ by {
            assert(v@[j]@ != js@);
        }
    }
    false
}

/// Whether the given `(promise, attempt)` pair was started.
pub(crate) fn contains_attempt(v: &Vec<(PromiseId, u32)>, p: &PromiseId, attempt: u32) -> (r: bool)
    ensures
        r == attempt_views(v@).contains((p@, attempt)),
{
    let mut i: usize = 0;
    while i < v.len()
        invariant
            i <= v.len(),
            forall|j: int| 0 <= j < i ==> (v@[j].0@, v@[j].1) != (p@, attempt),
        decreases v.len() - i,
    {
        if v[i].0.same_id(p) && v[i].1 == attempt {
            proof {
                assert(attempt_views(v@)[i as int] == (p@, attempt));
            }
            return true;
        }
        i = i + 1;
    }
    proof {
        assert forall|j: int| 0 <= j < attempt_views(v@).len() implies attempt_views(v@)[j] != (
        p@,
        attempt,
        ) by {
            assert((v@[j].0@, v@[j].1) != (p@, attempt));
        }
    }
    false
}

/// Whether the given `(join set, promise)` pair is recorded.
pub(crate) fn contains_pair(v: &Vec<(JoinSetId, PromiseId)>, js: &JoinSetId, p: &PromiseId) -> (r:
    bool)
    ensures
        r == pair_views(v@).contains((js@, p@)),
{
    let mut i: usize = 0;
    while i < v.len()
        invariant
            i <= v.len(),
            forall|j: int| 0 <= j < i ==> (v@[j].0@, v@[j].1@) != (js@, p@),
        decreases v.len() - i,
    {
        if v[i].0.same_id(js) && v[i].1.same_id(p) {
            proof {
                assert(pair_views(v@)[i as int] == (js@, p@));
            }
            return true;
        }
        i = i + 1;
    }
    proof {
        assert forall|j: int| 0 <= j < pair_views(v@).len() implies pair_views(v@)[j] != (
        js@,
        p@,
        ) by {
            assert((v@[j].0@, v@[j].1@) != (js@, p@));
        }
    }
    false
}

/// Whether the given `(signal name, delivery id)` key is recorded.
pub(crate) fn contains_sig_key(
    v: &Vec<(String, SignalDeliveryId)>,
    name: &String,
    id: SignalDeliveryId,
) -> (r: bool)
    ensures
        r == sig_key_views(v@).contains((name@, id)),
{
    let mut i: usize = 0;
    while i < v.len()
        invariant
            i <= v.len(),
            forall|j: int| 0 <= j < i ==> (v@[j].0@, v@[j].1) != (name@, id),
        decreases v.len() - i,
    {
        if v[i].0 == *name && v[i].1 == id {
            proof {
                assert(sig_key_views(v@)[i as int] == (name@, id));
            }
            return true;
        }
        i = i + 1;
    }
    proof {
        assert forall|j: int| 0 <= j < sig_key_views(v@).len() implies sig_key_views(v@)[j] != (
        name@,
        id,
        ) by {
            assert((v@[j].0@, v@[j].1) != (name@, id));
        }
    }
    false
}

/// Look up the payload delivered under `(name, id)`: the newest record wins.
#[verifier::loop_isolation(false)]
pub(crate) fn delivered_get<'a>(
    v: &'a Vec<(String, SignalDeliveryId, Payload)>,
    name: &String,
    id: SignalDeliveryId,
) -> (r: Option<&'a Payload>)
    ensures
        match r {
            Option::Some(p) => delivered_map(v@).contains_key((name@, id)) && p@ == delivered_map(
                v@,
            )[(name@, id)],
            Option::None => !delivered_map(v@).contains_key((name@, id)),
        },
{
    let ghost k = (name@, id);
    let mut i: usize = v.len();
    proof {
        assert(v@.take(i as int) =~= v@);
    }
    while i > 0
        invariant
            i <= v.len(),
            delivered_map(v@).contains_key(k) == delivered_map(v@.take(i as int)).contains_key(k),
            delivered_map(v@).contains_key(k) ==> delivered_map(v@)[k] == delivered_map(
                v@.take(i as int),
            )[k],
        decreases i,
    {
        i = i - 1;
        proof {
            assert(v@.take(i as int + 1).drop_last() =~= v@.take(i as int));
            assert(v@.take(i as int + 1).last() == v@[i as int]);
        }
        if v[i].0 == *name && v[i].1 == id {
            proof {
                assert(delivered_key(v@[i as int]) == k);
                assert(delivered_map(v@.take(i as int + 1)).contains_key(k));
                assert(delivered_map(v@.take(i as int + 1))[k] == v@[i as int].2@);
            }
            return Option::Some(&v[i].2);
        }
        proof {
            assert(delivered_key(v@[i as int]) != k);
        }
    }
    proof {
        assert(v@.take(0) =~= Seq::<(String, SignalDeliveryId, Payload)>::empty());
    }
    Option::None
}

/// Look up the counters of a join set, defaulting to `(0, 0)`.
#[verifier::loop_isolation(false)]
pub(crate) fn counts_get(v: &Vec<(JoinSetId, u32, u32)>, js: &JoinSetId) -> (r: (u32, u32))
    ensures
        r == if counts_map(v@).contains_key(js@) {
            counts_map(v@)[js@]
        } else {
            (0u32, 0u32)
        },
{
    let ghost k = js@;
    let mut i: usize = v.len();
    proof {
        assert(v@.take(i as int) =~= v@);
    }
    while i > 0
        invariant
            i <= v.len(),
            counts_map(v@).contains_key(k) == counts_map(v@.take(i as int)).contains_key(k),
            counts_map(v@).contains_key(k) ==> counts_map(v@)[k] == counts_map(
                v@.take(i as int),
            )[k],
        decreases i,
    {
        i = i - 1;
        proof {
            assert(v@.take(i as int + 1).drop_last() =~= v@.take(i as int));
            assert(v@.take(i as int + 1).last() == v@[i as int]);
        }
        if v[i].0.same_id(js) {
            proof {
                assert(counts_map(v@.take(i as int + 1)).contains_key(k));
                assert(counts_map(v@.take(i as int + 1))[k] == (v@[i as int].1, v@[i as int].2));
            }
            return (v[i].1, v[i].2);
        }
    }
    proof {
        assert(v@.take(0) =~= Seq::<(JoinSetId, u32, u32)>::empty());
    }
    (0, 0)
}

/// Look up the owning join set of a promise, if any: the newest record wins.
#[verifier::loop_isolation(false)]
pub(crate) fn owner_get<'a>(v: &'a Vec<(PromiseId, JoinSetId)>, p: &PromiseId) -> (r: Option<
    &'a JoinSetId,
>)
    ensures
        match r {
            Option::Some(js) => owner_map(v@).contains_key(p@) && js@ == owner_map(v@)[p@],
            Option::None => !owner_map(v@).contains_key(p@),
        },
{
    let ghost k = p@;
    let mut i: usize = v.len();
    proof {
        assert(v@.take(i as int) =~= v@);
    }
    while i > 0
        invariant
            i <= v.len(),
            owner_map(v@).contains_key(k) == owner_map(v@.take(i as int)).contains_key(k),
            owner_map(v@).contains_key(k) ==> owner_map(v@)[k] == owner_map(v@.take(i as int))[k],
        decreases i,
    {
        i = i - 1;
        proof {
            assert(v@.take(i as int + 1).drop_last() =~= v@.take(i as int));
            assert(v@.take(i as int + 1).last() == v@[i as int]);
        }
        if v[i].0.same_id(p) {
            proof {
                assert(owner_map(v@.take(i as int + 1)).contains_key(k));
                assert(owner_map(v@.take(i as int + 1))[k] == v@[i as int].1@);
            }
            return Option::Some(&v[i].1);
        }
    }
    proof {
        assert(v@.take(0) =~= Seq::<(PromiseId, JoinSetId)>::empty());
    }
    Option::None
}

/// Saturating increment of a u32 counter.
pub(crate) fn sat_inc_exec(n: u32) -> (r: u32)
    ensures
        r == sat_inc(n),
{
    if n == 0xffff_ffffu32 {
        n
    } else {
        n + 1
    }
}

impl InvariantState {
    /// Update auxiliary state after an entry passed validation (or is
    /// force-applied during batch validation).
    ///
    /// Centralized here rather than spread across the checker modules so
    /// that all state mutations are visible in one place. Increments `len`
    /// as the final step.
    pub(crate) fn apply_entry(&mut self, entry: &crate::journal::JournalEntry)
        requires
            old(self).len < usize::MAX,
        ensures
            final(self)@ == apply_v(old(self)@, entry@),
    {
        match &entry.event {
            EventType::ExecutionCompleted { .. } | EventType::ExecutionFailed { .. }
                | EventType::ExecutionCancelled { .. } => {
                if self.terminal_seq.is_none() {
                    self.terminal_seq = Option::Some(entry.sequence);
                }
            },
            EventType::CancelRequested { .. } => {
                self.has_cancel_requested = true;
            },
            EventType::InvokeScheduled { promise_id, .. } => {
                self.scheduled_pids.push(promise_id.clone());
                proof {
                    assert(pid_views(self.scheduled_pids@) =~= pid_views(
                        old(self).scheduled_pids@,
                    ).push(promise_id@));
                }
            },
            EventType::InvokeStarted { promise_id, attempt } => {
                self.started_pids.push(promise_id.clone());
                self.started_attempts.push((promise_id.clone(), *attempt));
                proof {
                    assert(pid_views(self.started_pids@) =~= pid_views(
                        old(self).started_pids@,
                    ).push(promise_id@));
                    assert(attempt_views(self.started_attempts@) =~= attempt_views(
                        old(self).started_attempts@,
                    ).push((promise_id@, *attempt)));
                }
            },
            EventType::InvokeCompleted { promise_id, .. } => {
                self.completed_pids.push(promise_id.clone());
                proof {
                    assert(pid_views(self.completed_pids@) =~= pid_views(
                        old(self).completed_pids@,
                    ).push(promise_id@));
                }
            },
            EventType::TimerScheduled { promise_id, .. } => {
                self.scheduled_timer_pids.push(promise_id.clone());
                proof {
                    assert(pid_views(self.scheduled_timer_pids@) =~= pid_views(
                        old(self).scheduled_timer_pids@,
                    ).push(promise_id@));
                }
            },
            EventType::SignalDelivered { signal_name, payload, delivery_id } => {
                self.delivered_signals.push(
                    (signal_name.clone(), *delivery_id, payload.clone()),
                );
                proof {
                    assert(self.delivered_signals@.drop_last() =~= old(self).delivered_signals@);
                }
            },
            EventType::SignalReceived { signal_name, delivery_id, .. } => {
                self.consumed_signal_deliveries.push((signal_name.clone(), *delivery_id));
                proof {
                    assert(sig_key_views(self.consumed_signal_deliveries@) =~= sig_key_views(
                        old(self).consumed_signal_deliveries@,
                    ).push((signal_name@, *delivery_id)));
                }
            },
            EventType::JoinSetCreated { join_set_id } => {
                self.created_joinsets.push(join_set_id.clone());
                proof {
                    assert(js_views(self.created_joinsets@) =~= js_views(
                        old(self).created_joinsets@,
                    ).push(join_set_id@));
                }
            },
            EventType::JoinSetSubmitted { join_set_id, promise_id } => {
                self.submitted_pairs.push((join_set_id.clone(), promise_id.clone()));
                let counts = counts_get(&self.joinset_counts, join_set_id);
                self.joinset_counts.push(
                    (join_set_id.clone(), sat_inc_exec(counts.0), counts.1),
                );
                let owner = owner_get(&self.pid_owner, promise_id);
                let owner_known = owner.is_some();
                if !owner_known {
                    self.pid_owner.push((promise_id.clone(), join_set_id.clone()));
                }
                proof {
                    assert(pair_views(self.submitted_pairs@) =~= pair_views(
                        old(self).submitted_pairs@,
                    ).push((join_set_id@, promise_id@)));
                    assert(self.joinset_counts@.drop_last() =~= old(self).joinset_counts@);
                    if !owner_known {
                        assert(self.pid_owner@.drop_last() =~= old(self).pid_owner@);
                    }
                }
            },
            EventType::JoinSetAwaited { join_set_id, promise_id, .. } => {
                self.awaited_joinsets.push(join_set_id.clone());
                self.consumed_pairs.push((join_set_id.clone(), promise_id.clone()));
                let counts = counts_get(&self.joinset_counts, join_set_id);
                self.joinset_counts.push(
                    (join_set_id.clone(), counts.0, sat_inc_exec(counts.1)),
                );
                proof {
                    assert(js_views(self.awaited_joinsets@) =~= js_views(
                        old(self).awaited_joinsets@,
                    ).push(join_set_id@));
                    assert(pair_views(self.consumed_pairs@) =~= pair_views(
                        old(self).consumed_pairs@,
                    ).push((join_set_id@, promise_id@)));
                    assert(self.joinset_counts@.drop_last() =~= old(self).joinset_counts@);
                }
            },
            _ => {},
        }
        self.len = self.len + 1;
        proof {
            assert(self@ =~= apply_v(old(self)@, entry@));
        }
    }
}

} // verus!

