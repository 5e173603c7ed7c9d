//! A bounded least-recently-used cache over `u64` keys.
//!
//! The cache keeps its records in recency order (most recent first) and
//! evicts from the tail once the configured capacity is reached.  Reads
//! promote a record only on sampled ticks: dispatch paths need only
//! approximate recency, so most promotions are skipped.
//!
//! The recency order is a plain vector, scanned and shifted linearly;
//! where the design this models used an intrusive linked list with
//! constant-time splicing, the verified list trades that for an
//! exactly specified order.

use vstd::prelude::*;

verus! {

/// Reports the running size of the cache's contents and observes every
/// insertion and removal.  An implementation must account exactly one
/// unit per record, so that the cache's eviction rule keeps the record
/// count within its capacity.
pub trait SizePolicy<V>: Sized {
    /// The size the policy currently reports.
    spec fn spec_current(&self) -> usize;

    fn current(&self) -> (r: usize)
        ensures
            r == self.spec_current(),
    ;

    fn on_insert(&mut self, key: u64, value: &V)
        requires
            old(self).spec_current() < usize::MAX,
        ensures
            final(self).spec_current() == old(self).spec_current() + 1,
    ;

    fn on_remove(&mut self, key: u64, value: &V)
        requires
            old(self).spec_current() >= 1,
        ensures
            final(self).spec_current() == old(self).spec_current() - 1,
    ;

    fn on_reset(&mut self, val: usize)
        ensures
            final(self).spec_current() == val,
    ;
}

/// The default policy: the size is the number of records.
pub struct CountTracker(usize);

impl<V> SizePolicy<V> for CountTracker {
    closed spec fn spec_current(&self) -> usize {
        self.0
    }

    fn current(&self) -> (r: usize) {
        self.0
    }

    fn on_insert(&mut self, key: u64, value: &V) {
        self.0 = self.0 + 1;
    }

    fn on_remove(&mut self, key: u64, value: &V) {
        self.0 = self.0 - 1;
    }

    fn on_reset(&mut self, val: usize) {
        self.0 = val;
    }
}

impl Default for CountTracker {
    fn default() -> (r: Self)
        ensures
            SizePolicy::<()>::spec_current(&r) == 0,
    {
        CountTracker(0)
    }
}

/// One record of the cache.
struct LruEntry<V> {
    key: u64,
    value: V,
}

/// A bounded cache from `u64` addresses to values, with sampled
/// promotion and tail eviction.
pub struct LruCache<V, T = CountTracker> where T: SizePolicy<V> {
    /// Records in recency order: index 0 is the most recently used,
    /// the last index is the eviction candidate.
    entries: Vec<LruEntry<V>>,
    capacity: usize,
    sample_mask: usize,
    tick: usize,
    size_policy: T,
}

impl<V, T: SizePolicy<V>> LruCache<V, T> {
    /// The records as a sequence of key/value pairs, most recent first.
    pub closed spec fn view_seq(&self) -> Seq<(u64, V)> {
        Seq::new(self.entries@.len(), |i: int| (self.entries@[i].key, self.entries@[i].value))
    }

    /// The keys in recency order.
    pub open spec fn keys(&self) -> Seq<u64> {
        self.view_seq().map_values(|p: (u64, V)| p.0)
    }

    /// The number of records.
    pub open spec fn spec_len(&self) -> nat {
        self.view_seq().len()
    }

    pub closed spec fn spec_capacity(&self) -> usize {
        self.capacity
    }

    pub closed spec fn spec_sample_mask(&self) -> usize {
        self.sample_mask
    }

    pub closed spec fn spec_tick(&self) -> usize {
        self.tick
    }

    pub open spec fn contains_key(&self, key: u64) -> bool {
        self.keys().contains(key)
    }

    /// Well-formedness: the capacity is positive, the record count never
    /// exceeds it, keys are distinct, and the size policy has seen one
    /// unit per record.
    pub closed spec fn wf(&self) -> bool {
        &&& 1 <= self.capacity
        &&& self.entries@.len() <= self.capacity
        &&& forall|i: int, j: int|
            0 <= i < j < self.entries@.len() ==> self.entries@[i].key != self.entries@[j].key
        &&& self.size_policy.spec_current() == self.entries@.len()
    }

    /// A well-formed cache never holds more records than its capacity,
    /// and holds each key at most once.
    pub proof fn lemma_wf_bounded(&self)
        requires
            self.wf(),
        ensures
            self.spec_len() <= self.spec_capacity(),
            1 <= self.spec_capacity(),
            forall|i: int, j: int|
                0 <= i < j < self.spec_len() ==> self.keys()[i] != self.keys()[j],
    {
    }

    /// The key of any record is registered in the cache.
    pub proof fn lemma_record_key_is_contained(&self, i: int)
        requires
            0 <= i < self.spec_len(),
        ensures
            self.keys()[i] == self.view_seq()[i].0,
            self.contains_key(self.view_seq()[i].0),
    {
        assert(self.keys()[i] == self.view_seq()[i].0);
        assert(self.keys().contains(self.keys()[i]));
    }

    pub fn with_capacity_sample_and_trace(
        capacity: usize,
        sample_mask: usize,
        size_policy: T,
    ) -> (r: LruCache<V, T>)
        requires
            size_policy.spec_current() == 0,
        ensures
            r.wf(),
            r.spec_len() == 0,
            r.spec_capacity() == (if capacity == 0 { 1usize } else { capacity }),
            r.spec_sample_mask() == sample_mask,
            r.spec_tick() == 0,
    {
        let cap: usize = if capacity == 0 { 1 } else { capacity };
        LruCache { entries: Vec::new(), capacity: cap, sample_mask, tick: 0, size_policy }
    }

    /// The size reported by the policy; equals the record count for a
    /// well-formed cache, which is what `size` is for under the default
    /// policy.
    pub fn size(&self) -> (r: usize)
        requires
            self.wf(),
        ensures
            r == self.spec_len(),
    {
        self.size_policy.current()
    }

    pub fn clear(&mut self)
        ensures
            final(self).wf() <== old(self).wf(),
            final(self).spec_len() == 0,
            final(self).spec_capacity() == old(self).spec_capacity(),
            final(self).spec_sample_mask() == old(self).spec_sample_mask(),
            final(self).spec_tick() == old(self).spec_tick(),
    {
        self.entries.clear();
        self.size_policy.on_reset(0);
    }

    pub fn capacity(&self) -> (r: usize)
        ensures
            r == self.spec_capacity(),
    {
        self.capacity
    }

    pub fn len(&self) -> (r: usize)
        ensures
            r == self.spec_len(),
    {
        self.entries.len()
    }

    pub fn is_empty(&self) -> (r: bool)
        ensures
            r == (self.spec_len() == 0),
    {
        self.entries.len() == 0
    }

    /// The index of `key`, if present.
    fn find(&self, key: u64) -> (r: Option<usize>)
        requires
            self.wf(),
        ensures
            match r {
                Some(i) => i < self.spec_len() && self.keys()[i as int] == key,
                None => !self.contains_key(key),
            },
            r is Some <==> self.contains_key(key),
    {
        let n: usize = self.entries.len();
        let mut i: usize = 0;
        while i < n
            invariant
                n == self.spec_len(),
                i <= n,
                forall|j: int| 0 <= j < i ==> self.keys()[j] != key,
            decreases n - i,
        {
            if self.entries[i].key == key {
                assert(self.keys()[i as int] == key);
                return Some(i);
            }
            i = i + 1;
        }
        assert(forall|j: int| 0 <= j < self.keys().len() ==> self.keys()[j] != key);
        None
    }

    /// The sequence after moving the record at `i` to the front.
    pub open spec fn promoted(s: Seq<(u64, V)>, i: int) -> Seq<(u64, V)> {
        seq![s[i]].add(s.remove(i))
    }

    /// Move the record at `i` to the front of the recency order.
    fn promote(&mut self, i: usize)
        requires
            old(self).wf(),
            i < old(self).spec_len(),
        ensures
            final(self).wf(),
            final(self).view_seq() == Self::promoted(old(self).view_seq(), i as int),
            final(self).spec_capacity() == old(self).spec_capacity(),
            final(self).spec_sample_mask() == old(self).spec_sample_mask(),
            final(self).spec_tick() == old(self).spec_tick(),
    {
        let e = self.entries.remove(i);
        self.entries.insert(0, e);
        proof {
            assert(self.view_seq() =~= Self::promoted(old(self).view_seq(), i as int));
            let s0 = old(self).entries@;
            let s1 = self.entries@;
            assert forall|p: int, q: int| 0 <= p < q < s1.len() implies s1[p].key != s1[q].key by {
                if p == 0 {
                    if q <= i {
                        assert(s1[q] == s0[q - 1]);
                    } else {
                        assert(s1[q] == s0[q]);
                    }
                } else {
                    if p <= i {
                        assert(s1[p] == s0[p - 1]);
                    } else {
                        assert(s1[p] == s0[p]);
                    }
                    if q <= i {
                        assert(s1[q] == s0[q - 1]);
                    } else {
                        assert(s1[q] == s0[q]);
                    }
                }
            }
        }
    }

    /// Bump the sampling tick and promote the record at `i` only when
    /// the tick matches the sample mask.  Returns the record's new index.
    fn maybe_promote(&mut self, i: usize) -> (ni: usize)
        requires
            old(self).wf(),
            i < old(self).spec_len(),
        ensures
            final(self).wf(),
            final(self).spec_capacity() == old(self).spec_capacity(),
            final(self).spec_sample_mask() == old(self).spec_sample_mask(),
            final(self).spec_tick() == (if old(self).spec_tick() < usize::MAX {
                (old(self).spec_tick() + 1) as usize
            } else {
                0usize
            }),
            if final(self).spec_tick() & final(self).spec_sample_mask() == 0 {
                final(self).view_seq() == Self::promoted(old(self).view_seq(), i as int) && ni == 0
            } else {
                final(self).view_seq() == old(self).view_seq() && ni == i
            },
            ni < final(self).spec_len(),
            final(self).view_seq()[ni as int] == old(self).view_seq()[i as int],
    {
        self.tick = self.tick.wrapping_add(1);
        if self.tick & self.sample_mask == 0 {
            self.promote(i);
            0
        } else {
            i
        }
    }

    /// Insert `value` under `key`.  A present key is promoted and its
    /// value overwritten; an absent key becomes the most recent record,
    /// evicting the least recent one when the cache is full.
    pub fn insert(&mut self, key: u64, value: V)
        requires
            old(self).wf(),
        ensures
            final(self).wf(),
            final(self).spec_capacity() == old(self).spec_capacity(),
            final(self).spec_sample_mask() == old(self).spec_sample_mask(),
            final(self).spec_tick() == old(self).spec_tick(),
            final(self).contains_key(key),
            final(self).view_seq()[0] == (key, value),
            (if old(self).contains_key(key) {
                exists|i: int|
                    0 <= i < old(self).spec_len() && old(self).keys()[i] == key
                        && final(self).view_seq() == seq![(key, value)].add(
                        old(self).view_seq().remove(i),
                    )
            } else if old(self).spec_len() < old(self).spec_capacity() {
                final(self).view_seq() == seq![(key, value)].add(old(self).view_seq())
            } else {
                final(self).view_seq() == seq![(key, value)].add(
                    old(self).view_seq().take(old(self).spec_len() - 1),
                )
            }),
    {
        let current_size = self.size_policy.current();
        match self.find(key) {
            Some(i) => {
                let e = self.entries.remove(i);
                self.size_policy.on_remove(e.key, &e.value);
                self.size_policy.on_insert(key, &value);
                self.entries.insert(0, LruEntry { key, value });
                proof {
                    assert(old(self).keys()[i as int] == key);
                    assert(self.view_seq() =~= seq![(key, value)].add(
                        old(self).view_seq().remove(i as int),
                    ));
                    assert(self.keys()[0] == key);
                    assert(self.contains_key(key));
                    assert((i as int) < old(self).spec_len() && old(self).keys()[i as int]
                        == key && self.view_seq() == seq![(key, value)].add(
                        old(self).view_seq().remove(i as int),
                    ));
                    let s0 = old(self).entries@;
                    let s1 = self.entries@;
                    assert forall|p: int, q: int| 0 <= p < q < s1.len() implies s1[p].key
                        != s1[q].key by {
                        if 1 <= q {
                            assert(s1[q] == (if q <= i { s0[q - 1] } else { s0[q] }));
                        }
                        if 1 <= p {
                            assert(s1[p] == (if p <= i { s0[p - 1] } else { s0[p] }));
                        }
                    }
                }
            },
            None => {
                if self.capacity <= current_size {
                    // Reuse the tail record in place of an allocation:
                    // the least recent key leaves, the new one takes the
                    // front.
                    let tail = self.entries.pop().unwrap();
                    self.size_policy.on_remove(tail.key, &tail.value);
                    self.size_policy.on_insert(key, &value);
                    self.entries.insert(0, LruEntry { key, value });
                    proof {
                        assert(self.view_seq() =~= seq![(key, value)].add(
                            old(self).view_seq().take(old(self).spec_len() - 1),
                        ));
                        assert(self.keys()[0] == key);
                        assert(self.contains_key(key));
                        let s0 = old(self).entries@;
                        let s1 = self.entries@;
                        assert forall|p: int, q: int| 0 <= p < q < s1.len() implies s1[p].key
                            != s1[q].key by {
                            if 1 <= q {
                                assert(s1[q] == s0[q - 1]);
                                assert(s0[q - 1].key == old(self).keys()[q - 1]);
                                assert(old(self).contains_key(s0[q - 1].key));
                            }
                            if 1 <= p {
                                assert(s1[p] == s0[p - 1]);
                            }
                        }
                    }
                } else {
                    self.size_policy.on_insert(key, &value);
                    self.entries.insert(0, LruEntry { key, value });
                    proof {
                        assert(self.view_seq() =~= seq![(key, value)].add(
                            old(self).view_seq(),
                        ));
                        assert(self.keys()[0] == key);
                        assert(self.contains_key(key));
                        let s0 = old(self).entries@;
                        let s1 = self.entries@;
                        assert forall|p: int, q: int| 0 <= p < q < s1.len() implies s1[p].key
                            != s1[q].key by {
                            if 1 <= q {
                                assert(s1[q] == s0[q - 1]);
                                assert(s0[q - 1].key == old(self).keys()[q - 1]);
                                assert(old(self).contains_key(s0[q - 1].key));
                            }
                            if 1 <= p {
                                assert(s1[p] == s0[p - 1]);
                            }
                        }
                    }
                }
            },
        }
    }

    /// Remove `key`'s record, returning its value.
    pub fn remove(&mut self, key: &u64) -> (r: Option<V>)
        requires
            old(self).wf(),
        ensures
            final(self).wf(),
            final(self).spec_capacity() == old(self).spec_capacity(),
            final(self).spec_sample_mask() == old(self).spec_sample_mask(),
            final(self).spec_tick() == old(self).spec_tick(),
            r is Some <==> old(self).contains_key(*key),
            !final(self).contains_key(*key),
            (match r {
                Some(v) => exists|i: int|
                    0 <= i < old(self).spec_len() && old(self).view_seq()[i] == (*key, v)
                        && final(self).view_seq() == old(self).view_seq().remove(i),
                None => final(self).view_seq() == old(self).view_seq(),
            }),
    {
        match self.find(*key) {
            Some(i) => {
                let e = self.entries.remove(i);
                self.size_policy.on_remove(e.key, &e.value);
                proof {
                    let s0 = old(self).entries@;
                    let s1 = self.entries@;
                    assert(self.view_seq() =~= old(self).view_seq().remove(i as int));
                    assert(old(self).view_seq()[i as int] == (*key, e.value));
                    assert forall|p: int, q: int| 0 <= p < q < s1.len() implies s1[p].key
                        != s1[q].key by {
                        assert(s1[p] == (if p < i { s0[p] } else { s0[p + 1] }));
                        assert(s1[q] == (if q < i { s0[q] } else { s0[q + 1] }));
                    }
                    assert forall|j: int| 0 <= j < self.keys().len() implies self.keys()[j]
                        != *key by {
                        assert(s1[j] == (if j < i { s0[j] } else { s0[j + 1] }));
                    }
                }
                Some(e.value)
            },
            None => None,
        }
    }

    /// Look `key` up, promoting its record on sampled ticks.
    pub fn get(&mut self, key: &u64) -> (r: Option<&V>)
        requires
            old(self).wf(),
        ensures
            final(self).wf(),
            final(self).spec_capacity() == old(self).spec_capacity(),
            final(self).spec_sample_mask() == old(self).spec_sample_mask(),
            r is Some <==> old(self).contains_key(*key),
            final(self).contains_key(*key) == old(self).contains_key(*key),
            (match r {
                Some(v) => {
                    &&& final(self).spec_tick() == (if old(self).spec_tick() < usize::MAX {
                        (old(self).spec_tick() + 1) as usize
                    } else {
                        0usize
                    })
                    &&& exists|i: int|
                        0 <= i < old(self).spec_len() && old(self).view_seq()[i] == (*key, *v) && (
                        if final(self).spec_tick() & final(self).spec_sample_mask() == 0 {
                            final(self).view_seq() == Self::promoted(old(self).view_seq(), i)
                        } else {
                            final(self).view_seq() == old(self).view_seq()
                        })
                },
                None => *final(self) == *old(self),
            }),
    {
        match self.find(*key) {
            Some(i) => {
                let ni = self.maybe_promote(i);
                proof {
                    assert(self.keys()[ni as int] == *key);
                    assert(self.keys().contains(self.keys()[ni as int]));
                    assert(old(self).view_seq()[i as int].1 == self.view_seq()[ni as int].1);
                }
                Some(&self.entries[ni].value)
            },
            None => None,
        }
    }

    /// Look `key` up for writing, promoting its record on sampled
    /// ticks.  On a hit, the final records are the (possibly promoted)
    /// old records with only this entry's value replaced by what the
    /// caller wrote through the borrow.
    pub fn get_mut(&mut self, key: &u64) -> (r: Option<&mut V>)
        requires
            old(self).wf(),
        ensures
            (r is Some <==> old(self).contains_key(*key)),
            (match r {
                Some(v) => {
                    &&& final(self).spec_tick() == (if old(self).spec_tick() < usize::MAX {
                        (old(self).spec_tick() + 1) as usize
                    } else {
                        0usize
                    })
                    &&& final(self).spec_len() == old(self).spec_len()
                    &&& exists|i: int|
                        0 <= i < old(self).spec_len() && old(self).view_seq()[i] == (*key, *v) && (
                        if final(self).spec_tick() & final(self).spec_sample_mask() == 0 {
                            final(self).view_seq() == Self::promoted(
                                old(self).view_seq(),
                                i,
                            ).update(0, (*key, *final(v)))
                        } else {
                            final(self).view_seq() == old(self).view_seq().update(
                                i,
                                (*key, *final(v)),
                            )
                        })
                    &&& final(self).wf()
                    &&& final(self).contains_key(*key)
                },
                None => *final(self) == *old(self) && final(self).wf(),
            }),
            final(self).spec_capacity() == old(self).spec_capacity(),
            final(self).spec_sample_mask() == old(self).spec_sample_mask(),
    {
        match self.find(*key) {
            Some(i) => {
                let ni = self.maybe_promote(i);
                proof {
                    assert(self.view_seq()[ni as int] == old(self).view_seq()[i as int]);
                    assert(self.keys()[ni as int] == *key);
                    assert(self.contains_key(*key));
                    if self.spec_tick() & self.spec_sample_mask() == 0 {
                        assert(self.view_seq() == Self::promoted(old(self).view_seq(), i as int));
                    } else {
                        assert(self.view_seq() == old(self).view_seq());
                    }
                }
                let e = self.entry_value_mut(ni);
                Some(e)
            },
            None => None,
        }
    }

    /// A mutable borrow of the value at record `i`.
    fn entry_value_mut(&mut self, i: usize) -> (r: &mut V)
        requires
            old(self).wf(),
            i < old(self).spec_len(),
        ensures
            *r == old(self).view_seq()[i as int].1,
            final(self).view_seq() == old(self).view_seq().update(
                i as int,
                (old(self).view_seq()[i as int].0, *final(r)),
            ),
            final(self).keys() =~= old(self).keys(),
            final(self).view_seq()[i as int] == (
                old(self).view_seq()[i as int].0,
                *final(r),
            ),
            final(self).wf(),
            final(self).spec_capacity() == old(self).spec_capacity(),
            final(self).spec_sample_mask() == old(self).spec_sample_mask(),
            final(self).spec_tick() == old(self).spec_tick(),
    {
        &mut self.entries[i].value
    }

    /// Shrink or grow the capacity; shrinking below the current record
    /// count evicts from the tail until the records fit.
    pub fn resize(&mut self, new_cap: usize)
        requires
            old(self).wf(),
        ensures
            final(self).wf(),
            final(self).spec_capacity() == (if new_cap == 0 { 1usize } else { new_cap }),
            final(self).spec_len() <= final(self).spec_capacity(),
            final(self).spec_sample_mask() == old(self).spec_sample_mask(),
            final(self).spec_tick() == old(self).spec_tick(),
            final(self).view_seq() == (if old(self).spec_len() <= final(self).spec_capacity() {
                old(self).view_seq()
            } else {
                old(self).view_seq().take(final(self).spec_capacity() as int)
            }),
    {
        let cap: usize = if new_cap == 0 { 1 } else { new_cap };
        proof {
            assert(self.entries@ =~= old(self).entries@.take(self.entries@.len() as int));
        }
        if cap < self.capacity {
            while self.entries.len() > cap
                invariant
                    old(self).wf(),
                    cap >= 1,
                    self.capacity == old(self).spec_capacity(),
                    self.sample_mask == old(self).spec_sample_mask(),
                    self.tick == old(self).spec_tick(),
                    self.size_policy.spec_current() == self.entries@.len(),
                    self.entries@.len() <= old(self).entries@.len(),
                    old(self).entries@.len() > cap ==> self.entries@.len() >= cap,
                    old(self).entries@.len() <= cap ==> self.entries@.len() == old(
                        self,
                    ).entries@.len(),
                    self.entries@ == old(self).entries@.take(self.entries@.len() as int),
                decreases self.entries@.len(),
            {
                let tail = self.entries.pop().unwrap();
                self.size_policy.on_remove(tail.key, &tail.value);
                proof {
                    assert(self.entries@ =~= old(self).entries@.take(self.entries@.len() as int));
                }
            }
        }
        self.capacity = cap;
        proof {
            let l = self.entries@.len() as int;
            assert(self.entries@ == old(self).entries@.take(l));
            if old(self).spec_len() <= cap {
                assert(self.entries@ =~= old(self).entries@);
                assert(self.view_seq() =~= old(self).view_seq());
            } else {
                assert(l == cap);
                assert(self.view_seq() =~= old(self).view_seq().take(cap as int));
                assert forall|p: int, q: int| 0 <= p < q < l implies self.entries@[p].key
                    != self.entries@[q].key by {
                    assert(self.entries@[p] == old(self).entries@[p]);
                    assert(self.entries@[q] == old(self).entries@[q]);
                }
            }
        }
    }

}

impl<V> LruCache<V, CountTracker> {
    /// A cache that counts records, promoting on every read.
    pub fn with_capacity(capacity: usize) -> (r: LruCache<V, CountTracker>)
        ensures
            r.wf(),
            r.spec_len() == 0,
            r.spec_capacity() == (if capacity == 0 { 1usize } else { capacity }),
            r.spec_sample_mask() == 0,
            r.spec_tick() == 0,
    {
        LruCache::with_capacity_and_sample(capacity, 0)
    }

    /// A cache that counts records, promoting only on ticks selected
    /// by `sample_mask`.
    pub fn with_capacity_and_sample(capacity: usize, sample_mask: usize) -> (r: LruCache<
        V,
        CountTracker,
    >)
        ensures
            r.wf(),
            r.spec_len() == 0,
            r.spec_capacity() == (if capacity == 0 { 1usize } else { capacity }),
            r.spec_sample_mask() == sample_mask,
            r.spec_tick() == 0,
    {
        let tracker = CountTracker(0);
        proof {
            assert(SizePolicy::<V>::spec_current(&tracker) == 0);
        }
        LruCache::with_capacity_sample_and_trace(capacity, sample_mask, tracker)
    }
}

impl<V: Copy, T: SizePolicy<V>> LruCache<V, T> {
    /// A snapshot of the records, most recent first: exactly the
    /// stored pairs, in recency order, without touching the cache.
    pub fn iter(&self) -> (r: Iter<V>)
        requires
            self.wf(),
        ensures
            r.view_items().len() == self.spec_len(),
            forall|i: int|
                0 <= i < r.view_items().len() ==> r.view_items()[i] == self.view_seq()[i],
            r.spec_pos() == 0,
    {
        let mut items: Vec<(u64, V)> = Vec::new();
        let n = self.entries.len();
        let mut i: usize = 0;
        while i < n
            invariant
                n == self.spec_len(),
                i <= n,
                items@.len() == i,
                forall|j: int| 0 <= j < i ==> items@[j] == self.view_seq()[j],
            decreases n - i,
        {
            let pair = (self.entries[i].key, self.entries[i].value);
            items.push(pair);
            i = i + 1;
        }
        Iter { items, pos: 0 }
    }
}

/// A detached snapshot walk over a cache's records.
pub struct Iter<V> {
    items: Vec<(u64, V)>,
    pos: usize,
}

impl<V> Iter<V> {
    /// The snapshot this walk yields.
    pub closed spec fn view_items(&self) -> Seq<(u64, V)> {
        self.items@
    }

    /// How many records have been yielded so far.
    pub closed spec fn spec_pos(&self) -> usize {
        self.pos
    }

    /// The next record of the snapshot, if one is left.
    pub fn next(&mut self) -> (r: Option<&(u64, V)>)
        ensures
            final(self).view_items() == old(self).view_items(),
            r is Some <==> old(self).spec_pos() < old(self).view_items().len(),
            (match r {
                Some(p) => *p == old(self).view_items()[old(self).spec_pos() as int]
                    && final(self).spec_pos() == old(self).spec_pos() + 1,
                None => final(self).spec_pos() == old(self).spec_pos(),
            }),
    {
        if self.pos < self.items.len() {
            let i = self.pos;
            self.pos = self.pos + 1;
            Some(&self.items[i])
        } else {
            None
        }
    }
}

} // verus!
