//! A deduplicating compute cache: for each key at most one computation is
//! ever started, and whoever asks for the key later waits for that
//! computation or finds its result.
//!
//! The cache decides; it never waits or computes. A caller that is told to
//! compute runs the operation and publishes the result; a caller that is
//! told to wait asks again when the result was published.

use vstd::prelude::*;

verus! {

/// A key of a cache: a value with a mathematical identity and an equality
/// test that decides it.
pub trait CacheKey: View + Sized {
    /// Whether the two keys are the same key.
    fn same(&self, other: &Self) -> (b: bool)
        ensures
            b == (self@ == other@),
    ;
}

impl CacheKey for u64 {
    fn same(&self, other: &Self) -> (b: bool) {
        *self == *other
    }
}

impl CacheKey for String {
    fn same(&self, other: &Self) -> (b: bool) {
        *self == *other
    }
}

/// What the cache tells a caller that asks for a key.
#[derive(Clone, Copy, Debug, PartialEq, Eq, Structural)]
pub enum Claim {
    /// Nobody asked for the key before: the caller computes and publishes.
    Compute,
    /// The computation is under way: the caller waits for its result.
    Wait,
    /// The result is there.
    Ready,
}

/// The mathematical state of a cache: for each key that was asked for,
/// `None` while its computation is under way, else the result.
pub type CacheState<KV, V> = Map<KV, Option<V>>;

/// What asking for `key` yields in state `m`.
pub open spec fn spec_claim<KV, V>(m: CacheState<KV, V>, key: KV) -> Claim {
    if !m.contains_key(key) {
        Claim::Compute
    } else if m[key] is None {
        Claim::Wait
    } else {
        Claim::Ready
    }
}

/// The state after `key` was asked for in state `m`.
pub open spec fn spec_begin<KV, V>(m: CacheState<KV, V>, key: KV) -> CacheState<KV, V> {
    if m.contains_key(key) {
        m
    } else {
        m.insert(key, None)
    }
}

/// Whether a result for `key` can be published in state `m`: its
/// computation is under way.
pub open spec fn spec_can_publish<KV, V>(m: CacheState<KV, V>, key: KV) -> bool {
    m.contains_key(key) && m[key] is None
}

/// The state after `value` was published for `key` in state `m`.
pub open spec fn spec_publish<KV, V>(m: CacheState<KV, V>, key: KV, value: V) -> CacheState<
    KV,
    V,
> {
    if spec_can_publish(m, key) {
        m.insert(key, Some(value))
    } else {
        m
    }
}

struct Entry<K, V> {
    key: K,
    slot: Option<V>,
}

/// The position of the first of `entries` with the key `key`, or the number
/// of entries if there is none.
spec fn spec_position<K: View, V>(entries: Seq<Entry<K, V>>, key: K::V) -> int
    decreases entries.len(),
{
    if entries.len() == 0 {
        0
    } else if entries[0].key@ == key {
        0
    } else {
        1 + spec_position(entries.skip(1), key)
    }
}

proof fn lemma_position<K: View, V>(entries: Seq<Entry<K, V>>, key: K::V)
    ensures
        0 <= spec_position(entries, key) <= entries.len(),
        spec_position(entries, key) < entries.len() ==> entries[spec_position(
            entries,
            key,
        )].key@ == key,
        forall|i: int| 0 <= i < spec_position(entries, key) ==> (#[trigger] entries[i]).key@ != key,
    decreases entries.len(),
{
    if entries.len() > 0 && entries[0].key@ != key {
        let tail = entries.skip(1);
        lemma_position(tail, key);
        assert forall|i: int| 0 <= i < spec_position(entries, key) implies (
        #[trigger] entries[i]).key@ != key by {
            if i > 0 {
                assert(entries[i] == tail[i - 1]);
            }
        }
    }
}

/// The first position with a key is the only position that has the key and
/// none before it has.
proof fn lemma_position_is<K: View, V>(entries: Seq<Entry<K, V>>, key: K::V, at: int)
    requires
        0 <= at <= entries.len(),
        at < entries.len() ==> entries[at].key@ == key,
        forall|i: int| 0 <= i < at ==> (#[trigger] entries[i]).key@ != key,
    ensures
        spec_position(entries, key) == at,
{
    lemma_position(entries, key);
    let p = spec_position(entries, key);
    if p < at {
        assert(entries[p].key@ == key);
    } else if p > at {
        assert(entries[at].key@ == key);
    }
}

/// A cache of results by key.
pub struct ComputeCache<K, V> {
    entries: Vec<Entry<K, V>>,
}

impl<K: CacheKey, V> View for ComputeCache<K, V> {
    type V = CacheState<K::V, V>;

    closed spec fn view(&self) -> CacheState<K::V, V> {
        Map::new(
            |k: K::V| spec_position(self.entries@, k) < self.entries@.len(),
            |k: K::V| self.entries@[spec_position(self.entries@, k)].slot,
        )
    }
}

impl<K: CacheKey, V> ComputeCache<K, V> {
    /// A cache that nobody asked anything yet.
    pub fn new() -> (c: Self)
        ensures
            c@ == Map::<K::V, Option<V>>::empty(),
    {
        let c = ComputeCache { entries: Vec::new() };
        assert(c@ =~= Map::<K::V, Option<V>>::empty());
        c
    }

    fn position(&self, key: &K) -> (at: usize)
        ensures
            at == spec_position(self.entries@, key@),
            at <= self.entries@.len(),
            at < self.entries@.len() <==> self@.contains_key(key@),
            at < self.entries@.len() ==> self@[key@] == self.entries@[at as int].slot,
    {
        let mut i: usize = 0;
        while i < self.entries.len()
            invariant
                i <= self.entries@.len(),
                forall|j: int| 0 <= j < i ==> (#[trigger] self.entries@[j]).key@ != key@,
            decreases self.entries@.len() - i,
        {
            if self.entries[i].key.same(key) {
                proof {
                    lemma_position_is(self.entries@, key@, i as int);
                }
                return i;
            }
            i += 1;
        }
        proof {
            lemma_position_is(self.entries@, key@, i as int);
        }
        i
    }

    /// Asks for `key`. The first caller for a key is told to compute, and the
    /// key is marked as under way; every later caller is told to wait or
    /// that the result is ready, and nothing changes.
    pub fn begin(&mut self, key: K) -> (claim: Claim)
        ensures
            claim == spec_claim(old(self)@, key@),
            final(self)@ == spec_begin(old(self)@, key@),
    {
        let at = self.position(&key);
        if at < self.entries.len() {
            match &self.entries[at].slot {
                None => Claim::Wait,
                Some(_) => Claim::Ready,
            }
        } else {
            let ghost before = self.entries@;
            let ghost k = key@;
            self.entries.push(Entry { key, slot: None });
            proof {
                assert forall|q: K::V|
                    spec_position(self.entries@, q) == if q == k {
                        before.len() as int
                    } else if spec_position(before, q) < before.len() {
                        spec_position(before, q)
                    } else {
                        self.entries@.len() as int
                    } by {
                    lemma_position(before, q);
                    let want = if q == k {
                        before.len() as int
                    } else if spec_position(before, q) < before.len() {
                        spec_position(before, q)
                    } else {
                        self.entries@.len() as int
                    };
                    lemma_position(before, k);
                    lemma_position_is(self.entries@, q, want);
                }
                let after = spec_begin(old(self)@, k);
                assert forall|q: K::V| self@.contains_key(q) == after.contains_key(q) by {
                    lemma_position(before, q);
                }
                assert forall|q: K::V| self@.contains_key(q) implies self@[q] == after[q] by {
                    lemma_position(before, q);
                    if q != k {
                        assert(self.entries@[spec_position(before, q)] == before[spec_position(
                            before,
                            q,
                        )]);
                    }
                }
                assert(self@ =~= after);
            }
            Claim::Compute
        }
    }

    /// Publishes `value` as the result for `key`, if the computation for the
    /// key is under way; says whether it was. A result that was published
    /// stays: publishing again changes nothing.
    pub fn publish(&mut self, key: &K, value: V) -> (published: bool)
        ensures
            published == spec_can_publish(old(self)@, key@),
            final(self)@ == spec_publish(old(self)@, key@, value),
    {
        let at = self.position(key);
        if at < self.entries.len() {
            if self.entries[at].slot.is_none() {
                let ghost before = self.entries@;
                self.entries[at].slot = Some(value);
                proof {
                    assert forall|q: K::V|
                        spec_position(self.entries@, q) == spec_position(before, q) by {
                        lemma_position(before, q);
                        lemma_position_is(self.entries@, q, spec_position(before, q));
                    }
                    let after = spec_publish(old(self)@, key@, value);
                    assert forall|q: K::V| self@.contains_key(q) == after.contains_key(q) by {
                        lemma_position(before, q);
                    }
                    assert forall|q: K::V| self@.contains_key(q) implies self@[q] == after[q] by {
                        lemma_position(before, q);
                        lemma_position(before, key@);
                        if spec_position(before, q) != at {
                            assert(self.entries@[spec_position(before, q)] == before[spec_position(
                                before,
                                q,
                            )]);
                        }
                    }
                    assert(self@ =~= after);
                }
                return true;
            }
        }
        false
    }

    /// Finds the result for `key`, computing it with `op` if nobody asked for
    /// the key before. The operation runs only for the first caller of a
    /// key; its result is kept and every later caller finds it. While a
    /// computation that was begun elsewhere is under way there is no result
    /// to hand out, and nothing changes.
    pub fn compute<F: FnOnce(&K) -> V>(&mut self, key: K, op: F) -> (r: Option<&V>)
        requires
            op.requires((&key,)),
        ensures
            match spec_claim(old(self)@, key@) {
                Claim::Compute => r matches Some(v) && op.ensures((&key,), *v) && final(self)@
                    == old(self)@.insert(key@, Some(*v)),
                Claim::Wait => r is None && final(self)@ == old(self)@,
                Claim::Ready => r matches Some(v) && old(self)@[key@] == Some(*v) && final(self)@
                    == old(self)@,
            },
    {
        let at = self.position(&key);
        if at >= self.entries.len() {
            let value = op(&key);
            let ghost before = self.entries@;
            let ghost k = key@;
            self.entries.push(Entry { key, slot: Some(value) });
            proof {
                let after = old(self)@.insert(k, Some(value));
                assert forall|q: K::V|
                    spec_position(self.entries@, q) == if q == k {
                        before.len() as int
                    } else if spec_position(before, q) < before.len() {
                        spec_position(before, q)
                    } else {
                        self.entries@.len() as int
                    } by {
                    lemma_position(before, q);
                    let want = if q == k {
                        before.len() as int
                    } else if spec_position(before, q) < before.len() {
                        spec_position(before, q)
                    } else {
                        self.entries@.len() as int
                    };
                    lemma_position(before, k);
                    lemma_position_is(self.entries@, q, want);
                }
                assert forall|q: K::V| self@.contains_key(q) == after.contains_key(q) by {
                    lemma_position(before, q);
                }
                assert forall|q: K::V| self@.contains_key(q) implies self@[q] == after[q] by {
                    lemma_position(before, q);
                    if q != k {
                        assert(self.entries@[spec_position(before, q)] == before[spec_position(
                            before,
                            q,
                        )]);
                    }
                }
                assert(self@ =~= after);
            }
        }
        self.entries[at].slot.as_ref()
    }

    /// The result for `key`, if it was published.
    pub fn result(&self, key: &K) -> (r: Option<&V>)
        ensures
            r is Some <==> self@.contains_key(key@) && self@[key@] is Some,
            r matches Some(v) ==> self@[key@] == Some(*v),
    {
        let at = self.position(key);
        if at < self.entries.len() {
            self.entries[at].slot.as_ref()
        } else {
            None
        }
    }
}

/// One step of the history of a cache.
pub enum CacheOp<KV, V> {
    Begin(KV),
    Publish(KV, V),
}

/// The state after the steps `ops` from state `m`.
pub open spec fn spec_run<KV, V>(m: CacheState<KV, V>, ops: Seq<CacheOp<KV, V>>) -> CacheState<
    KV,
    V,
>
    decreases ops.len(),
{
    if ops.len() == 0 {
        m
    } else {
        let before = spec_run(m, ops.drop_last());
        match ops.last() {
            CacheOp::Begin(k) => spec_begin(before, k),
            CacheOp::Publish(k, v) => spec_publish(before, k, v),
        }
    }
}

/// How many callers were told to compute `key` over the steps `ops` from
/// state `m`.
pub open spec fn spec_computations<KV, V>(
    m: CacheState<KV, V>,
    ops: Seq<CacheOp<KV, V>>,
    key: KV,
) -> nat
    decreases ops.len(),
{
    if ops.len() == 0 {
        0
    } else {
        let before = spec_run(m, ops.drop_last());
        spec_computations(m, ops.drop_last(), key) + match ops.last() {
            CacheOp::Begin(k) => if k == key && spec_claim(before, k) == Claim::Compute {
                1nat
            } else {
                0nat
            },
            CacheOp::Publish(_, _) => 0nat,
        }
    }
}

/// At most once: over any history, at most one caller is told to compute a
/// given key, and none if the key was asked for before the history began.
/// A key that was asked for stays known.
pub proof fn lemma_at_most_once<KV, V>(m: CacheState<KV, V>, ops: Seq<CacheOp<KV, V>>, key: KV)
    ensures
        spec_computations(m, ops, key) <= 1,
        m.contains_key(key) ==> spec_computations(m, ops, key) == 0,
        m.contains_key(key) ==> spec_run(m, ops).contains_key(key),
        spec_computations(m, ops, key) == 1 ==> spec_run(m, ops).contains_key(key),
    decreases ops.len(),
{
    if ops.len() > 0 {
        lemma_at_most_once(m, ops.drop_last(), key);
    }
}

/// Equal results: a result that was published for a key is the result that
/// every later step of any history finds for it.
pub proof fn lemma_result_stays<KV, V>(
    m: CacheState<KV, V>,
    ops: Seq<CacheOp<KV, V>>,
    key: KV,
    value: V,
)
    requires
        m.contains_key(key),
        m[key] == Some(value),
    ensures
        spec_run(m, ops).contains_key(key),
        spec_run(m, ops)[key] == Some(value),
        spec_claim(spec_run(m, ops), key) == Claim::Ready,
    decreases ops.len(),
{
    if ops.len() > 0 {
        lemma_result_stays(m, ops.drop_last(), key, value);
    }
}

} // verus!
