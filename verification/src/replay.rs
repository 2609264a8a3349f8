//! Batch-built replay cache keyed by promise id.
//!
//! Construction is a single pass over the journal; only five event kinds
//! contribute cache entries, and for each promise the last contributing
//! event wins. Typed accessors fail closed: they return a value only when
//! the stored variant matches the requested type.

use vstd::prelude::*;

use crate::event::{EventType, EventV};
use crate::journal::{entries_view, EntryV, JournalEntry};
use crate::payload::{Payload, PayloadV};
use crate::promise_id::{PidView, PromiseId};
use crate::time::Timestamp;
use crate::util::copy_vec;

verus! {

/// Mathematical value of a [`CachedResult`].
#[verifier::ext_equal]
pub enum CachedV {
    Invoke(PayloadV),
    Random(Seq<u8>),
    Time(Timestamp),
    Timer,
    Signal(PayloadV),
}

/// Replay-time cached value for a resolved promise. Each variant corresponds
/// to one event kind that can be replayed by promise id.
#[derive(Debug, PartialEq, Eq)]
pub enum CachedResult {
    /// From `InvokeCompleted { result, .. }`.
    Invoke(Payload),
    /// From `RandomGenerated { value, .. }`.
    Random(Vec<u8>),
    /// From `TimeRecorded { time, .. }`.
    Time(Timestamp),
    /// From `TimerFired { .. }`.
    Timer,
    /// From `SignalReceived { payload, .. }`.
    Signal(Payload),
}

impl View for CachedResult {
    type V = CachedV;

    open spec fn view(&self) -> CachedV {
        match self {
            CachedResult::Invoke(p) => CachedV::Invoke(p@),
            CachedResult::Random(b) => CachedV::Random(b@),
            CachedResult::Time(t) => CachedV::Time(*t),
            CachedResult::Timer => CachedV::Timer,
            CachedResult::Signal(p) => CachedV::Signal(p@),
        }
    }
}

impl DeepView for CachedResult {
    type V = CachedV;

    open spec fn deep_view(&self) -> CachedV {
        self.view()
    }
}

/// The cache entry an event contributes, if any.
///
/// `SignalDelivered` does not contribute (it carries no promise id), and
/// `JoinSetAwaited` is consumed by sequence scanning, not keyed lookup.
pub open spec fn cached_pair(e: EventV) -> Option<(PidView, CachedV)> {
    match e {
        EventV::InvokeCompleted { promise_id, result, .. } => Option::Some(
            (promise_id, CachedV::Invoke(result)),
        ),
        EventV::RandomGenerated { promise_id, value } => Option::Some(
            (promise_id, CachedV::Random(value)),
        ),
        EventV::TimeRecorded { promise_id, time } => Option::Some(
            (promise_id, CachedV::Time(time)),
        ),
        EventV::TimerFired { promise_id } => Option::Some((promise_id, CachedV::Timer)),
        EventV::SignalReceived { promise_id, payload, .. } => Option::Some(
            (promise_id, CachedV::Signal(payload)),
        ),
        _ => Option::None,
    }
}

/// The replay cache of a journal: per promise, the last cached value.
pub open spec fn cache_model(entries: Seq<EntryV>) -> Map<PidView, CachedV>
    decreases entries.len(),
{
    if entries.len() == 0 {
        Map::empty()
    } else {
        let m = cache_model(entries.drop_last());
        match cached_pair(entries.last().event) {
            Option::Some(pc) => m.insert(pc.0, pc.1),
            Option::None => m,
        }
    }
}

/// The map held by a result vector: later records overwrite earlier ones.
pub open spec fn results_map(s: Seq<(PromiseId, CachedResult)>) -> Map<PidView, CachedV>
    decreases s.len(),
{
    if s.len() == 0 {
        Map::empty()
    } else {
        results_map(s.drop_last()).insert(s.last().0@, s.last().1@)
    }
}

/// Whether a result vector holds each promise at most once.
pub open spec fn keys_unique(s: Seq<(PromiseId, CachedResult)>) -> bool {
    forall|i: int, j: int| 0 <= i < j < s.len() ==> s[i].0@ != s[j].0@
}

/// The keys of a result vector's map are exactly the promises it holds.
proof fn lemma_results_map_keys(s: Seq<(PromiseId, CachedResult)>, k: PidView)
    ensures
        results_map(s).contains_key(k) <==> exists|i: int| 0 <= i < s.len() && s[i].0@ == k,
    decreases s.len(),
{
    if s.len() == 0 {
    } else {
        let prefix = s.drop_last();
        lemma_results_map_keys(prefix, k);
        if s.last().0@ == k {
            assert(s[s.len() - 1].0@ == k);
        } else {
            if results_map(s).contains_key(k) {
                let i = choose|i: int| 0 <= i < prefix.len() && prefix[i].0@ == k;
                assert(s[i].0@ == k);
            }
            if exists|i: int| 0 <= i < s.len() && s[i].0@ == k {
                let i = choose|i: int| 0 <= i < s.len() && s[i].0@ == k;
                assert(i < s.len() - 1);
                assert(prefix[i].0@ == k);
            }
        }
    }
}

/// With unique keys, the map of a result vector has one entry per record.
proof fn lemma_results_map_card(s: Seq<(PromiseId, CachedResult)>)
    requires
        keys_unique(s),
    ensures
        results_map(s).dom().finite(),
        results_map(s).dom().len() == s.len(),
    decreases s.len(),
{
    if s.len() == 0 {
        assert(results_map(s).dom() =~= Set::<PidView>::empty());
    } else {
        let prefix = s.drop_last();
        assert(keys_unique(prefix)) by {
            assert forall|i: int, j: int| 0 <= i < j < prefix.len() implies prefix[i].0@
                != prefix[j].0@ by {
                assert(s[i].0@ != s[j].0@);
            }
        }
        lemma_results_map_card(prefix);
        lemma_results_map_keys(prefix, s.last().0@);
        assert(!results_map(prefix).contains_key(s.last().0@)) by {
            if exists|i: int| 0 <= i < prefix.len() && prefix[i].0@ == s.last().0@ {
                let i = choose|i: int| 0 <= i < prefix.len() && prefix[i].0@ == s.last().0@;
                assert(s[i].0@ != s[s.len() - 1].0@);
            }
        }
        assert(results_map(s).dom() =~= results_map(prefix).dom().insert(s.last().0@));
    }
}

/// Updating the record at a key's index replaces that key's value and nothing
/// else.
proof fn lemma_results_map_update(
    s: Seq<(PromiseId, CachedResult)>,
    i: int,
    t: (PromiseId, CachedResult),
)
    requires
        keys_unique(s),
        0 <= i < s.len(),
        t.0@ == s[i].0@,
    ensures
        keys_unique(s.update(i, t)),
        results_map(s.update(i, t)) == results_map(s).insert(t.0@, t.1@),
    decreases s.len(),
{
    let s2 = s.update(i, t);
    assert(keys_unique(s2)) by {
        assert forall|a: int, b: int| 0 <= a < b < s2.len() implies s2[a].0@ != s2[b].0@ by {
            assert(s[a].0@ != s[b].0@);
        }
    }
    if i == s.len() - 1 {
        assert(s2.drop_last() =~= s.drop_last());
        assert(results_map(s2) =~= results_map(s).insert(t.0@, t.1@));
    } else {
        let prefix = s.drop_last();
        assert(keys_unique(prefix)) by {
            assert forall|a: int, b: int| 0 <= a < b < prefix.len() implies prefix[a].0@
                != prefix[b].0@ by {
                assert(s[a].0@ != s[b].0@);
            }
        }
        lemma_results_map_update(prefix, i, t);
        assert(s2.drop_last() =~= prefix.update(i, t));
        assert(s2.last() == s.last());
        assert(s.last().0@ != t.0@) by {
            assert(s[i].0@ != s[s.len() - 1].0@);
        }
        assert(results_map(s2) =~= results_map(s).insert(t.0@, t.1@));
    }
}

/// Insert or overwrite one cached record, keeping keys unique.
#[verifier::loop_isolation(false)]
fn cache_put(results: &mut Vec<(PromiseId, CachedResult)>, pid: &PromiseId, value: CachedResult)
    requires
        keys_unique(old(results)@),
    ensures
        keys_unique(final(results)@),
        results_map(final(results)@) == results_map(old(results)@).insert(pid@, value@),
{
    let ghost value_v = value@;
    let ghost orig = results@;
    let n = results.len();
    let mut i: usize = 0;
    while i < n
        invariant
            i <= n,
            results@ == orig,
            n == results@.len(),
            forall|j: int| 0 <= j < i ==> results@[j].0@ != pid@,
        decreases n - i,
    {
        if results[i].0.same_id(pid) {
            results[i] = (pid.clone(), value);
            proof {
                let t = results@[i as int];
                assert(t.0@ == pid@ && t.1@ == value_v);
                assert(results@ == orig.update(i as int, t));
                lemma_results_map_update(orig, i as int, t);
                assert(results_map(results@) =~= results_map(orig).insert(pid@, value_v));
            }
            return ;
        }
        i = i + 1;
    }
    let ghost before = results@;
    results.push((pid.clone(), value));
    proof {
        assert(results@.drop_last() =~= before);
        assert(results_map(results@) =~= results_map(before).insert(pid@, value_v));
        assert forall|a: int, b: int| 0 <= a < b < results@.len() implies results@[a].0@
            != results@[b].0@ by {
            if b < before.len() {
                assert(before[a].0@ != before[b].0@);
            } else {
                assert(results@[b].0@ == pid@);
            }
        }
    }
}

/// Batch-built replay cache keyed by promise id.
#[derive(Debug)]
pub struct ReplayCache {
    results: Vec<(PromiseId, CachedResult)>,
}

impl View for ReplayCache {
    type V = Map<PidView, CachedV>;

    closed spec fn view(&self) -> Map<PidView, CachedV> {
        results_map(self.results@)
    }
}

impl ReplayCache {
    /// Every promise is keyed at most once.
    #[verifier::type_invariant]
    closed spec fn inv(self) -> bool {
        keys_unique(self.results@)
    }

    /// Build cache entries from a full journal history in one pass.
    ///
    /// Cached event kinds: `InvokeCompleted`, `RandomGenerated`,
    /// `TimeRecorded`, `TimerFired` and `SignalReceived`, each keyed by its
    /// promise id, the last value winning.
    #[verifier::loop_isolation(false)]
    pub fn build(entries: &[JournalEntry]) -> (r: Self)
        ensures
            r@ == cache_model(entries_view(entries@)),
    {
        let ghost all = entries_view(entries@);
        let mut results: Vec<(PromiseId, CachedResult)> = Vec::new();
        proof {
            assert(results_map(results@) =~= cache_model(all.take(0)));
        }
        let mut i: usize = 0;
        while i < entries.len()
            invariant
                i <= entries@.len(),
                keys_unique(results@),
                results_map(results@) == cache_model(all.take(i as int)),
            decreases entries@.len() - i,
        {
            proof {
                assert(all.take(i as int + 1).drop_last() =~= all.take(i as int));
                assert(all.take(i as int + 1).last() == all[i as int]);
            }
            match &entries[i].event {
                EventType::InvokeCompleted { promise_id, result, .. } => {
                    cache_put(&mut results, promise_id, CachedResult::Invoke(result.clone()));
                },
                EventType::RandomGenerated { promise_id, value } => {
                    cache_put(&mut results, promise_id, CachedResult::Random(copy_vec(value)));
                },
                EventType::TimeRecorded { promise_id, time } => {
                    cache_put(&mut results, promise_id, CachedResult::Time(*time));
                },
                EventType::TimerFired { promise_id } => {
                    cache_put(&mut results, promise_id, CachedResult::Timer);
                },
                EventType::SignalReceived { promise_id, payload, .. } => {
                    cache_put(&mut results, promise_id, CachedResult::Signal(payload.clone()));
                },
                _ => {},
            }
            proof {
                assert(results_map(results@) =~= cache_model(all.take(i as int + 1)));
            }
            i = i + 1;
        }
        proof {
            assert(all.take(entries@.len() as int) =~= all);
        }
        ReplayCache { results }
    }

    /// Generic lookup by promise id.
    #[verifier::loop_isolation(false)]
    pub fn lookup(&self, pid: &PromiseId) -> (r: Option<&CachedResult>)
        ensures
            match r {
                Option::Some(c) => self@.contains_key(pid@) && c@ == self@[pid@],
                Option::None => !self@.contains_key(pid@),
            },
    {
        let ghost k = pid@;
        let v = &self.results;
        let mut i: usize = v.len();
        proof {
            assert(v@.take(i as int) =~= v@);
        }
        while i > 0
            invariant
                i <= v@.len(),
                results_map(v@).contains_key(k) == results_map(v@.take(i as int)).contains_key(k),
                results_map(v@).contains_key(k) ==> results_map(v@)[k] == results_map(
                    v@.take(i as int),
                )[k],
            decreases i,
        {
            i = i - 1;
            proof {
                assert(v@.take(i as int + 1).drop_last() =~= v@.take(i as int));
                assert(v@.take(i as int + 1).last() == v@[i as int]);
            }
            if v[i].0.same_id(pid) {
                proof {
                    assert(results_map(v@.take(i as int + 1)).contains_key(k));
                    assert(results_map(v@.take(i as int + 1))[k] == v@[i as int].1@);
                }
                return Option::Some(&v[i].1);
            }
        }
        proof {
            assert(v@.take(0) =~= Seq::<(PromiseId, CachedResult)>::empty());
        }
        Option::None
    }

    /// Typed accessor for invoke results. Fails closed on a variant mismatch.
    pub fn get_invoke(&self, pid: &PromiseId) -> (r: Option<&Payload>)
        ensures
            match r {
                Option::Some(p) => self@.contains_key(pid@) && self@[pid@] == CachedV::Invoke(p@),
                Option::None => !self@.contains_key(pid@) || !(self@[pid@] is Invoke),
            },
    {
        match self.lookup(pid) {
            Option::Some(CachedResult::Invoke(payload)) => Option::Some(payload),
            _ => Option::None,
        }
    }

    /// Typed accessor for random bytes. Fails closed on a variant mismatch.
    pub fn get_random(&self, pid: &PromiseId) -> (r: Option<&[u8]>)
        ensures
            match r {
                Option::Some(b) => self@.contains_key(pid@) && self@[pid@] == CachedV::Random(b@),
                Option::None => !self@.contains_key(pid@) || !(self@[pid@] is Random),
            },
    {
        match self.lookup(pid) {
            Option::Some(CachedResult::Random(bytes)) => Option::Some(bytes.as_slice()),
            _ => Option::None,
        }
    }

    /// Typed accessor for the recorded wall-clock time. Fails closed on a
    /// variant mismatch.
    pub fn get_time(&self, pid: &PromiseId) -> (r: Option<Timestamp>)
        ensures
            match r {
                Option::Some(t) => self@.contains_key(pid@) && self@[pid@] == CachedV::Time(t),
                Option::None => !self@.contains_key(pid@) || !(self@[pid@] is Time),
            },
    {
        match self.lookup(pid) {
            Option::Some(CachedResult::Time(time)) => Option::Some(*time),
            _ => Option::None,
        }
    }

    /// True if a timer completion was recorded for this promise.
    pub fn is_timer_complete(&self, pid: &PromiseId) -> (r: bool)
        ensures
            r == (self@.contains_key(pid@) && self@[pid@] is Timer),
    {
        match self.lookup(pid) {
            Option::Some(CachedResult::Timer) => true,
            _ => false,
        }
    }

    /// Typed accessor for received signal payloads. Fails closed on a variant
    /// mismatch.
    pub fn get_signal(&self, pid: &PromiseId) -> (r: Option<&Payload>)
        ensures
            match r {
                Option::Some(p) => self@.contains_key(pid@) && self@[pid@] == CachedV::Signal(p@),
                Option::None => !self@.contains_key(pid@) || !(self@[pid@] is Signal),
            },
    {
        match self.lookup(pid) {
            Option::Some(CachedResult::Signal(payload)) => Option::Some(payload),
            _ => Option::None,
        }
    }

    /// Number of cached promise results.
    pub fn len(&self) -> (r: usize)
        ensures
            r == self@.dom().len(),
    {
        proof {
            use_type_invariant(self);
            lemma_results_map_card(self.results@);
        }
        self.results.len()
    }

    /// True when no promise results are cached.
    pub fn is_empty(&self) -> (r: bool)
        ensures
            r == (self@.dom().len() == 0),
    {
        proof {
            use_type_invariant(self);
            lemma_results_map_card(self.results@);
        }
        self.results.len() == 0
    }
}

impl Default for ReplayCache {
    /// The empty cache.
    fn default() -> (r: Self)
        ensures
            r@ == Map::<PidView, CachedV>::empty(),
    {
        let r = ReplayCache { results: Vec::new() };
        proof {
            assert(r@ =~= Map::<PidView, CachedV>::empty());
        }
        r
    }
}

} // verus!
