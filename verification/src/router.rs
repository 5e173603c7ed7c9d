//! The address book: routes messages to the mailbox registered under an
//! address, keeps a small LRU cache of hot addresses, and owns the
//! control mailbox.

use vstd::prelude::*;
use std::sync::Arc;
use std::sync::atomic::AtomicUsize;
use crate::fsm::Fsm;
use crate::fsm::FsmScheduler;
use crate::fsm::FsmStatus;
use crate::fsm::FsmState;
use crate::lru::CountTracker;
use crate::lru::LruCache;
use crate::mailbox::BasicMailbox;
use crate::mpsc::CHECK_INTERVAL;
use crate::mpsc::SendError;
use crate::mpsc::TrySendError;
use crate::util::Either;
use crate::util::counter_value;

verus! {

/// Approximate memory use of the router, in bytes.
#[derive(Debug, Default)]
pub struct RouterTrace {
    /// Attributed to registered, living mailboxes.
    pub alive: usize,
    /// Attributed to cells created beyond the registered ones and the
    /// control cell.  The creation counter only ever grows — the
    /// verified model has no destructors to subtract destroyed cells —
    /// so closed mailboxes keep contributing here.
    pub leak: usize,
}

/// The registered mailboxes, with a mirror of their count.
///
/// Lookups scan the pairs linearly; where the design this models used
/// a hash map, the verified map trades the constant-time lookup for an
/// exactly specified one.
struct NormalMailMap<N: Fsm> {
    /// Address/mailbox pairs; addresses are distinct.
    entries: Vec<(u64, BasicMailbox<N>)>,
    /// Mirrors `entries.len()` at every stable state.
    alive_cnt: usize,
}

/// Relies on core::mem::size_of: the byte size of `X`, which depends on
/// the machine alone.
#[verifier::external_body]
fn type_size<X>() -> usize {
    core::mem::size_of::<X>()
}

/// Routes messages to the mailbox registered under an address.
///
/// Every send consults the router's own LRU cache of hot addresses
/// first; the authoritative map is behind it.  The control mailbox is
/// a singleton with its own scheduler.
pub struct Router<N: Fsm, C: Fsm, Ns, Cs> {
    normals: NormalMailMap<N>,
    caches: LruCache<(), CountTracker>,
    pub(crate) control_box: BasicMailbox<C>,
    pub(crate) normal_scheduler: Ns,
    control_scheduler: Cs,
    state_cnt: Arc<AtomicUsize>,
    shutdown: bool,
}

impl<N, C, Ns, Cs> Router<N, C, Ns, Cs> where
    N: Fsm,
    C: Fsm,
    Ns: FsmScheduler<Fsm = N>,
    Cs: FsmScheduler<Fsm = C>,
 {
    /// The registered address/mailbox pairs.
    pub closed spec fn map_seq(&self) -> Seq<(u64, BasicMailbox<N>)> {
        self.normals.entries@
    }

    /// The registered addresses.
    pub open spec fn map_keys(&self) -> Seq<u64> {
        self.map_seq().map_values(|p: (u64, BasicMailbox<N>)| p.0)
    }

    pub open spec fn spec_has_mailbox(&self, addr: u64) -> bool {
        self.map_keys().contains(addr)
    }

    /// Where `addr` sits in `s`, when registered.
    pub open spec fn seq_index_of(s: Seq<(u64, BasicMailbox<N>)>, addr: u64) -> int {
        choose|i: int| 0 <= i < s.len() && s[i].0 == addr
    }

    /// Where `addr` sits in the map, when registered.
    pub open spec fn mailbox_index(&self, addr: u64) -> int {
        Self::seq_index_of(self.map_seq(), addr)
    }

    /// The mailbox registered under `addr`.
    pub open spec fn spec_mailbox_at(&self, addr: u64) -> BasicMailbox<N> {
        self.map_seq()[self.mailbox_index(addr)].1
    }

    pub closed spec fn spec_alive_cnt(&self) -> usize {
        self.normals.alive_cnt
    }

    pub closed spec fn spec_shutdown(&self) -> bool {
        self.shutdown
    }

    pub closed spec fn spec_control(&self) -> BasicMailbox<C> {
        self.control_box
    }

    pub closed spec fn spec_cache_len(&self) -> nat {
        self.caches.spec_len()
    }

    /// Whether `addr` is remembered in the hot-address cache.
    pub closed spec fn spec_cache_has(&self, addr: u64) -> bool {
        self.caches.contains_key(addr)
    }

    /// Well-formedness: distinct addresses, the alive counter mirrors
    /// the map, every mailbox and the cache are themselves well formed.
    pub closed spec fn wf(&self) -> bool {
        &&& forall|i: int, j: int|
            0 <= i < j < self.map_seq().len() ==> self.map_seq()[i].0 != self.map_seq()[j].0
        &&& self.normals.alive_cnt == self.map_seq().len()
        &&& self.caches.wf()
        &&& forall|i: int|
            0 <= i < self.map_seq().len() ==> (#[trigger] self.map_seq()[i]).1.wf()
        &&& self.control_box.wf()
    }

    /// Law: in a well-formed router the alive counter equals the number
    /// of registered mailboxes.
    pub proof fn lemma_alive_cnt_mirrors_map(&self)
        requires
            self.wf(),
        ensures
            self.spec_alive_cnt() == self.map_seq().len(),
    {
    }

    /// The index found for `addr` is the one the lookup spec denotes.
    proof fn lemma_index_unique(&self, addr: u64, i: int)
        requires
            self.wf(),
            0 <= i < self.map_seq().len(),
            self.map_seq()[i].0 == addr,
        ensures
            self.mailbox_index(addr) == i,
            self.spec_has_mailbox(addr),
            self.spec_mailbox_at(addr) == self.map_seq()[i].1,
    {
        assert(self.map_keys()[i] == addr);
        assert(self.map_keys().contains(addr));
        assert(exists|k: int|
            0 <= k < self.map_seq().len() && self.map_seq()[k].0 == addr) by {
            assert(self.map_seq()[i].0 == addr);
        }
        let j = self.mailbox_index(addr);
        assert(0 <= j < self.map_seq().len() && self.map_seq()[j].0 == addr);
    }

    /// An absent address has no witness in the key sequence.
    proof fn lemma_not_found(&self, addr: u64)
        requires
            forall|i: int|
                0 <= i < self.map_seq().len() ==> (#[trigger] self.map_seq()[i]).0 != addr,
        ensures
            !self.spec_has_mailbox(addr),
    {
        assert forall|i: int| 0 <= i < self.map_keys().len() implies self.map_keys()[i]
            != addr by {
            assert(self.map_seq()[i].0 != addr);
        }
    }

    pub(crate) fn new(
        control_box: BasicMailbox<C>,
        normal_scheduler: Ns,
        control_scheduler: Cs,
        state_cnt: Arc<AtomicUsize>,
    ) -> (r: Router<N, C, Ns, Cs>)
        requires
            control_box.wf(),
        ensures
            r.wf(),
            r.map_seq().len() == 0,
            r.spec_alive_cnt() == 0,
            !r.spec_shutdown(),
            r.spec_control() == control_box,
    {
        Router {
            normals: NormalMailMap { entries: Vec::new(), alive_cnt: 0 },
            caches: LruCache::with_capacity_sample_and_trace(1024, 7, CountTracker::default()),
            control_box,
            normal_scheduler,
            control_scheduler,
            state_cnt,
            shutdown: false,
        }
    }

    pub fn is_shutdown(&self) -> (r: bool)
        ensures
            r == self.spec_shutdown(),
    {
        self.shutdown
    }

    /// The index of `addr` in the map, if registered.
    fn find_mailbox(&self, addr: u64) -> (r: Option<usize>)
        requires
            self.wf(),
        ensures
            match r {
                Some(i) => i < self.map_seq().len() && self.map_seq()[i as int].0 == addr
                    && self.mailbox_index(addr) == i && self.spec_mailbox_at(addr) == self.map_seq()[
                    i as int
                ].1,
                None => !self.spec_has_mailbox(addr),
            },
            r is Some <==> self.spec_has_mailbox(addr),
    {
        let n: usize = self.normals.entries.len();
        let mut i: usize = 0;
        while i < n
            invariant
                self.wf(),
                n == self.map_seq().len(),
                i <= n,
                forall|j: int| 0 <= j < i ==> (#[trigger] self.map_seq()[j]).0 != addr,
            decreases n - i,
        {
            if self.normals.entries[i].0 == addr {
                proof {
                    self.lemma_index_unique(addr, i as int);
                }
                return Some(i);
            }
            i = i + 1;
        }
        proof {
            self.lemma_not_found(addr);
        }
        None
    }

    /// Queue a normal FSM for a worker round through the normal
    /// scheduler.
    pub(crate) fn schedule_fsm(&self, fsm: Box<N>, addr: u64) {
        self.normal_scheduler.schedule(fsm, addr);
    }

    /// The control mailbox, borrowed.  The lock-free design this
    /// library models hands out an owned, cloneable handle here; the
    /// single-owner cell cannot be cloned, so callers work through this
    /// borrow instead.  The router stays well formed as long as the
    /// caller leaves the mailbox well formed.
    pub fn control_mailbox(&mut self) -> (r: &mut BasicMailbox<C>)
        requires
            old(self).wf(),
        ensures
            *r == old(self).spec_control(),
            r.wf(),
            final(self).spec_control() == *final(r),
            (final(r).wf() ==> final(self).wf()),
            final(self).map_seq() == old(self).map_seq(),
            final(self).spec_alive_cnt() == old(self).spec_alive_cnt(),
            final(self).spec_shutdown() == old(self).spec_shutdown(),
    {
        &mut self.control_box
    }

    /// A mutable borrow of the mailbox under `addr`, if one is
    /// registered.  The router stays well formed as long as the caller
    /// leaves the mailbox well formed.
    pub(crate) fn find_mailbox_mut(&mut self, addr: u64) -> (r: Option<&mut BasicMailbox<N>>)
        requires
            old(self).wf(),
        ensures
            r is Some <==> old(self).spec_has_mailbox(addr),
            (match r {
                Some(mb) => {
                    &&& *mb == old(self).spec_mailbox_at(addr)
                    &&& mb.wf()
                    &&& (final(mb).wf() ==> final(self).wf())
                    &&& final(self).spec_shutdown() == old(self).spec_shutdown()
                    &&& final(self).spec_control() == old(self).spec_control()
                    &&& final(self).spec_alive_cnt() == old(self).spec_alive_cnt()
                    &&& final(self).map_seq().len() == old(self).map_seq().len()
                    &&& forall|j: int|
                        0 <= j < old(self).map_seq().len() ==> (#[trigger] final(self).map_seq()[j]).0 == old(self).map_seq()[j].0
                },
                None => *final(self) == *old(self),
            }),
    {
        let found = self.find_mailbox(addr);
        match found {
            Some(i) => {
                proof {
                    self.lemma_index_unique(addr, i as int);
                }
                Some(&mut self.normals.entries[i].1)
            },
            None => None,
        }
    }

    /// The lookup protocol run before a send: consult the cache, then
    /// the map; track the map's size in the cache's capacity; remember
    /// a found address, forget a stale one.
    fn check_do(&mut self, addr: u64) -> (r: Option<usize>)
        requires
            old(self).wf(),
        ensures
            final(self).wf(),
            final(self).map_seq() == old(self).map_seq(),
            final(self).spec_alive_cnt() == old(self).spec_alive_cnt(),
            final(self).spec_shutdown() == old(self).spec_shutdown(),
            final(self).spec_control() == old(self).spec_control(),
            match r {
                Some(i) => i < final(self).map_seq().len() && final(self).map_seq()[i as int].0
                    == addr,
                None => !final(self).spec_has_mailbox(addr),
            },
            r is Some <==> old(self).spec_has_mailbox(addr),
            // a found address is remembered for the next lookup, a
            // stale one is forgotten
            r is Some <==> final(self).spec_cache_has(addr),
    {
        let hit = self.caches.get(&addr).is_some();
        let found = self.find_mailbox(addr);
        match found {
            None => {
                if hit {
                    self.caches.remove(&addr);
                }
                None
            },
            Some(i) => {
                let cnt = self.normals.entries.len();
                let cap = self.caches.capacity();
                if cnt > cap || cnt < cap / 2 {
                    self.caches.resize(cnt);
                }
                self.caches.insert(addr, ());
                Some(i)
            },
        }
    }

    /// Register `mailbox` under `addr`; a mailbox already registered
    /// there is closed and replaced.
    pub fn register(&mut self, addr: u64, mailbox: BasicMailbox<N>)
        requires
            old(self).wf(),
            mailbox.wf(),
        ensures
            final(self).wf(),
            Self::spec_register_rel(*old(self), *final(self), addr, mailbox),
            final(self).spec_has_mailbox(addr),
            final(self).spec_mailbox_at(addr).spec_sender() == mailbox.spec_sender(),
            final(self).spec_mailbox_at(addr).spec_state() == mailbox.spec_state(),
            final(self).spec_mailbox_at(addr).spec_addr() == addr,
            forall|a: u64|
                a != addr ==> #[trigger] final(self).spec_has_mailbox(a)
                    == old(self).spec_has_mailbox(a),
            forall|a: u64|
                a != addr && old(self).spec_has_mailbox(a)
                    ==> #[trigger] final(self).spec_mailbox_at(a) == old(self).spec_mailbox_at(a),
            final(self).spec_alive_cnt() == final(self).map_seq().len(),
            final(self).spec_shutdown() == old(self).spec_shutdown(),
            final(self).spec_control() == old(self).spec_control(),
    {
        let mut mailbox = mailbox;
        mailbox.set_addr(addr);
        let ghost mb_val = mailbox;
        let found = self.find_mailbox(addr);
        match found {
            Some(i) => {
                let mut pair = self.normals.entries.swap_remove(i);
                pair.1.close();
                self.normals.entries.push((addr, mailbox));
            },
            None => {
                self.normals.entries.push((addr, mailbox));
            },
        }
        self.normals.alive_cnt = self.normals.entries.len();
        proof {
            let prev = *old(self);
            let s = self.map_seq();
            let n = s.len() as int;
            if prev.spec_has_mailbox(addr) {
                self.lemma_after_replace(prev, addr, prev.mailbox_index(addr));
                let i = prev.mailbox_index(addr);
                assert forall|j: int| 0 <= j < n implies (#[trigger] s[j]).1.wf() by {
                    if j == n - 1 {
                        assert(s[j].1 == mailbox);
                    } else if j == i {
                        if i < n - 1 {
                            assert(s[j] == prev.map_seq()[n - 1]);
                        }
                    } else {
                        assert(s[j] == prev.map_seq()[j]);
                    }
                }
            } else {
                self.lemma_after_push(prev, addr);
                assert forall|j: int| 0 <= j < n implies (#[trigger] s[j]).1.wf() by {
                    if j == n - 1 {
                        assert(s[j].1 == mailbox);
                    } else {
                        assert(s[j] == prev.map_seq()[j]);
                    }
                }
            }
        }
    }

    /// An address known to the map has a witness index.
    proof fn lemma_has_gives_index(&self, addr: u64)
        requires
            self.spec_has_mailbox(addr),
        ensures
            0 <= self.mailbox_index(addr) < self.map_seq().len(),
            self.map_seq()[self.mailbox_index(addr)].0 == addr,
    {
        let k0 = choose|k: int| 0 <= k < self.map_keys().len() && self.map_keys()[k] == addr;
        assert(self.map_keys()[k0] == addr);
        assert(self.map_seq()[k0].0 == addr);
        assert(exists|k: int| 0 <= k < self.map_seq().len() && self.map_seq()[k].0 == addr);
        let j = self.mailbox_index(addr);
        assert(0 <= j < self.map_seq().len() && self.map_seq()[j].0 == addr);
    }

    /// Like `lemma_index_unique`, from distinct keys alone.
    proof fn lemma_index_unique_keys(&self, addr: u64, i: int)
        requires
            forall|p: int, q: int|
                0 <= p < q < self.map_seq().len() ==> self.map_seq()[p].0 != self.map_seq()[q].0,
            0 <= i < self.map_seq().len(),
            self.map_seq()[i].0 == addr,
        ensures
            self.mailbox_index(addr) == i,
            self.spec_has_mailbox(addr),
            self.spec_mailbox_at(addr) == self.map_seq()[i].1,
    {
        assert(self.map_keys()[i] == addr);
        assert(self.map_keys().contains(addr));
        assert(exists|k: int| 0 <= k < self.map_seq().len() && self.map_seq()[k].0 == addr) by {
            assert(self.map_seq()[i].0 == addr);
        }
        let j = self.mailbox_index(addr);
        assert(0 <= j < self.map_seq().len() && self.map_seq()[j].0 == addr);
    }

    /// After swap-removing index `i` (which held `addr`) and pushing a
    /// fresh pair for `addr`, the map still has distinct keys, holds
    /// `addr` at the end, and every other address is untouched.
    proof fn lemma_after_replace(&self, prev: Self, addr: u64, i: int)
        requires
            prev.wf(),
            0 <= i < prev.map_seq().len(),
            prev.map_seq()[i].0 == addr,
            self.map_seq() == prev.map_seq().update(
                i,
                prev.map_seq().last(),
            ).drop_last().push(self.map_seq().last()),
            self.map_seq().last().0 == addr,
        ensures
            forall|p: int, q: int|
                0 <= p < q < self.map_seq().len() ==> self.map_seq()[p].0 != self.map_seq()[q].0,
            self.spec_has_mailbox(addr),
            self.spec_mailbox_at(addr) == self.map_seq().last().1,
            forall|a: u64|
                a != addr ==> #[trigger] self.spec_has_mailbox(a) == prev.spec_has_mailbox(a),
            forall|a: u64|
                a != addr && prev.spec_has_mailbox(a) ==> #[trigger] self.spec_mailbox_at(a)
                    == prev.spec_mailbox_at(a),
    {
        let n = prev.map_seq().len() as int;
        let s = self.map_seq();
        let sp = prev.map_seq();
        assert(s.len() == n);
        assert(forall|j: int| 0 <= j < n - 1 && j != i ==> s[j] == sp[j]);
        assert(i < n - 1 ==> s[i] == sp[n - 1]);
        assert(s[n - 1].0 == addr);
        // `addr` sits only at index i in the old map
        assert forall|j: int| 0 <= j < n && j != i implies sp[j].0 != addr by {
            assert(sp[i].0 == addr);
        }
        // distinct keys
        assert forall|p: int, q: int| 0 <= p < q < n implies s[p].0 != s[q].0 by {
            if q == n - 1 {
                if p == i {
                    if i < n - 1 {
                        assert(s[p] == sp[n - 1]);
                    }
                } else {
                    assert(s[p] == sp[p]);
                }
            } else {
                let p0: int = if p == i { n - 1 } else { p };
                let q0: int = if q == i { n - 1 } else { q };
                assert(s[p] == sp[p0]);
                assert(s[q] == sp[q0]);
            }
        }
        self.lemma_index_unique_keys(addr, n - 1);
        // every other address is untouched
        assert forall|a: u64| a != addr implies #[trigger] self.spec_has_mailbox(a)
            == prev.spec_has_mailbox(a) by {
            if prev.spec_has_mailbox(a) {
                prev.lemma_has_gives_index(a);
                let j = prev.mailbox_index(a);
                let w: int = if j == n - 1 && i < n - 1 {
                    i
                } else {
                    j
                };
                assert(j != i);
                assert(s[w].0 == a);
                assert(self.map_keys()[w] == a);
                assert(self.map_keys().contains(a));
            }
            if self.spec_has_mailbox(a) {
                self.lemma_has_gives_index(a);
                let j = self.mailbox_index(a);
                assert(j != n - 1);
                let w: int = if j == i { n - 1 } else { j };
                assert(sp[w].0 == a);
                assert(prev.map_keys()[w] == a);
                assert(prev.map_keys().contains(a));
            }
        }
        assert forall|a: u64| a != addr && prev.spec_has_mailbox(a) implies #[trigger] self.spec_mailbox_at(
            a,
        ) == prev.spec_mailbox_at(a) by {
            prev.lemma_has_gives_index(a);
            let j = prev.mailbox_index(a);
            prev.lemma_index_unique_keys(a, j);
            assert(j != i);
            let w: int = if j == n - 1 && i < n - 1 {
                i
            } else {
                j
            };
            assert(s[w] == sp[j]);
            self.lemma_index_unique_keys(a, w);
        }
    }

    /// After pushing a pair for a fresh `addr`, the map still has
    /// distinct keys and every other address is untouched.
    proof fn lemma_after_push(&self, prev: Self, addr: u64)
        requires
            prev.wf(),
            !prev.spec_has_mailbox(addr),
            self.map_seq() == prev.map_seq().push(self.map_seq().last()),
            self.map_seq().last().0 == addr,
        ensures
            forall|p: int, q: int|
                0 <= p < q < self.map_seq().len() ==> self.map_seq()[p].0 != self.map_seq()[q].0,
            self.spec_has_mailbox(addr),
            self.spec_mailbox_at(addr) == self.map_seq().last().1,
            forall|a: u64|
                a != addr ==> #[trigger] self.spec_has_mailbox(a) == prev.spec_has_mailbox(a),
            forall|a: u64|
                a != addr && prev.spec_has_mailbox(a) ==> #[trigger] self.spec_mailbox_at(a)
                    == prev.spec_mailbox_at(a),
    {
        let n = self.map_seq().len() as int;
        let s = self.map_seq();
        let sp = prev.map_seq();
        assert(sp.len() == n - 1);
        assert(forall|j: int| 0 <= j < n - 1 ==> s[j] == sp[j]);
        // no old key is addr
        assert forall|j: int| 0 <= j < n - 1 implies sp[j].0 != addr by {
            if sp[j].0 == addr {
                assert(prev.map_keys()[j] == addr);
                assert(prev.map_keys().contains(addr));
            }
        }
        assert forall|p: int, q: int| 0 <= p < q < n implies s[p].0 != s[q].0 by {
            assert(s[p] == sp[p]);
            if q < n - 1 {
                assert(s[q] == sp[q]);
            }
        }
        self.lemma_index_unique_keys(addr, n - 1);
        assert forall|a: u64| a != addr implies #[trigger] self.spec_has_mailbox(a)
            == prev.spec_has_mailbox(a) by {
            if prev.spec_has_mailbox(a) {
                prev.lemma_has_gives_index(a);
                let j = prev.mailbox_index(a);
                assert(s[j].0 == a);
                assert(self.map_keys()[j] == a);
                assert(self.map_keys().contains(a));
            }
            if self.spec_has_mailbox(a) {
                self.lemma_has_gives_index(a);
                let j = self.mailbox_index(a);
                assert(j != n - 1);
                assert(sp[j].0 == a);
                assert(prev.map_keys()[j] == a);
                assert(prev.map_keys().contains(a));
            }
        }
        assert forall|a: u64| a != addr && prev.spec_has_mailbox(a) implies #[trigger] self.spec_mailbox_at(
            a,
        ) == prev.spec_mailbox_at(a) by {
            prev.lemma_has_gives_index(a);
            let j = prev.mailbox_index(a);
            prev.lemma_index_unique_keys(a, j);
            assert(s[j] == sp[j]);
            self.lemma_index_unique_keys(a, j);
        }
    }

    /// The relation `register(addr, mailbox)` establishes between the
    /// router before and after the call.
    pub open spec fn spec_register_rel(prev: Self, post: Self, addr: u64, mailbox: BasicMailbox<
        N,
    >) -> bool {
        &&& post.wf()
        &&& post.spec_has_mailbox(addr)
        &&& post.spec_mailbox_at(addr).spec_sender() == mailbox.spec_sender()
        &&& post.spec_mailbox_at(addr).spec_state() == mailbox.spec_state()
        &&& post.spec_mailbox_at(addr).spec_addr() == addr
        &&& forall|a: u64|
            a != addr ==> #[trigger] post.spec_has_mailbox(a) == prev.spec_has_mailbox(a)
        &&& forall|a: u64|
            a != addr && prev.spec_has_mailbox(a) ==> #[trigger] post.spec_mailbox_at(a)
                == prev.spec_mailbox_at(a)
        &&& post.spec_alive_cnt() == post.map_seq().len()
        &&& post.spec_shutdown() == prev.spec_shutdown()
        &&& post.spec_control() == prev.spec_control()
    }

    /// The relation `close(addr)` establishes between the router before
    /// and after the call.
    pub open spec fn spec_close_rel(prev: Self, post: Self, addr: u64) -> bool {
        &&& post.wf()
        &&& !post.spec_has_mailbox(addr)
        &&& forall|a: u64|
            a != addr ==> #[trigger] post.spec_has_mailbox(a) == prev.spec_has_mailbox(a)
        &&& forall|a: u64|
            a != addr && prev.spec_has_mailbox(a) ==> #[trigger] post.spec_mailbox_at(a)
                == prev.spec_mailbox_at(a)
        &&& post.spec_alive_cnt() == post.map_seq().len()
        &&& post.spec_shutdown() == prev.spec_shutdown()
        &&& post.spec_control() == prev.spec_control()
    }

    /// Law: once `close(addr)` completes, the router holds no mailbox
    /// under `addr`.  By `try_send`'s contract a later `try_send(addr, m)`
    /// then hands `m` back, `send` reports it disconnected, and
    /// `force_send` fails unless the router is shut down — and every
    /// operation except a new `register(addr, _)` preserves the absence.
    pub proof fn lemma_close_severs_address(prev: Self, post: Self, addr: u64)
        requires
            Self::spec_close_rel(prev, post, addr),
        ensures
            !post.spec_has_mailbox(addr),
    {
    }

    /// Law: `register(addr, m1); close(addr); register(addr, m2)` ends
    /// with the map holding exactly `m2` under `addr`; if `m2` is
    /// connected, the address answers sends again.
    pub proof fn lemma_reregister_yields_fresh_mailbox(
        r0: Self,
        r1: Self,
        r2: Self,
        r3: Self,
        addr: u64,
        m1: BasicMailbox<N>,
        m2: BasicMailbox<N>,
    )
        requires
            Self::spec_register_rel(r0, r1, addr, m1),
            Self::spec_close_rel(r1, r2, addr),
            Self::spec_register_rel(r2, r3, addr, m2),
        ensures
            r3.spec_has_mailbox(addr),
            r3.spec_mailbox_at(addr).spec_sender() == m2.spec_sender(),
            r3.spec_mailbox_at(addr).spec_state() == m2.spec_state(),
            m2.spec_connected() ==> r3.spec_mailbox_at(addr).spec_connected(),
    {
    }

    /// After replacing only the mailbox value at index `i`, the keys
    /// are untouched: every address resolves as before, and `addr`
    /// resolves to the new value.
    proof fn lemma_after_value_update(&self, prev: Self, addr: u64, i: int)
        requires
            prev.wf(),
            0 <= i < prev.map_seq().len(),
            prev.map_seq()[i].0 == addr,
            self.map_seq().len() == prev.map_seq().len(),
            forall|j: int|
                0 <= j < prev.map_seq().len() && j != i ==> self.map_seq()[j] == prev.map_seq()[j],
            self.map_seq()[i].0 == addr,
        ensures
            forall|p: int, q: int|
                0 <= p < q < self.map_seq().len() ==> self.map_seq()[p].0 != self.map_seq()[q].0,
            self.spec_has_mailbox(addr),
            self.spec_mailbox_at(addr) == self.map_seq()[i].1,
            forall|a: u64|
                #[trigger] self.spec_has_mailbox(a) == prev.spec_has_mailbox(a),
            forall|a: u64|
                a != addr && prev.spec_has_mailbox(a) ==> #[trigger] self.spec_mailbox_at(a)
                    == prev.spec_mailbox_at(a),
    {
        let n = self.map_seq().len() as int;
        let s = self.map_seq();
        let sp = prev.map_seq();
        assert(forall|j: int| 0 <= j < n ==> (#[trigger] s[j]).0 == sp[j].0);
        assert forall|p: int, q: int| 0 <= p < q < n implies s[p].0 != s[q].0 by {
            assert(s[p].0 == sp[p].0);
            assert(s[q].0 == sp[q].0);
        }
        self.lemma_index_unique_keys(addr, i);
        assert forall|a: u64| #[trigger] self.spec_has_mailbox(a) == prev.spec_has_mailbox(
            a,
        ) by {
            if prev.spec_has_mailbox(a) {
                prev.lemma_has_gives_index(a);
                let j = prev.mailbox_index(a);
                assert(s[j].0 == a);
                assert(self.map_keys()[j] == a);
                assert(self.map_keys().contains(a));
            }
            if self.spec_has_mailbox(a) {
                self.lemma_has_gives_index(a);
                let j = self.mailbox_index(a);
                assert(sp[j].0 == a);
                assert(prev.map_keys()[j] == a);
                assert(prev.map_keys().contains(a));
            }
        }
        assert forall|a: u64| a != addr && prev.spec_has_mailbox(a) implies #[trigger] self.spec_mailbox_at(
            a,
        ) == prev.spec_mailbox_at(a) by {
            prev.lemma_has_gives_index(a);
            let j = prev.mailbox_index(a);
            prev.lemma_index_unique_keys(a, j);
            assert(j != i);
            assert(s[j] == sp[j]);
            self.lemma_index_unique_keys(a, j);
        }
    }

    /// After swap-removing index `i` (which held `addr`), the map has
    /// distinct keys, no longer holds `addr`, and every other address
    /// is untouched.
    proof fn lemma_after_remove(&self, prev: Self, addr: u64, i: int)
        requires
            prev.wf(),
            0 <= i < prev.map_seq().len(),
            prev.map_seq()[i].0 == addr,
            self.map_seq() == prev.map_seq().update(i, prev.map_seq().last()).drop_last(),
        ensures
            forall|p: int, q: int|
                0 <= p < q < self.map_seq().len() ==> self.map_seq()[p].0 != self.map_seq()[q].0,
            !self.spec_has_mailbox(addr),
            forall|a: u64|
                a != addr ==> #[trigger] self.spec_has_mailbox(a) == prev.spec_has_mailbox(a),
            forall|a: u64|
                a != addr && prev.spec_has_mailbox(a) ==> #[trigger] self.spec_mailbox_at(a)
                    == prev.spec_mailbox_at(a),
            forall|j: int|
                0 <= j < self.map_seq().len() ==> (#[trigger] self.map_seq()[j]).1.wf(),
    {
        let n = prev.map_seq().len() as int;
        let s = self.map_seq();
        let sp = prev.map_seq();
        assert(s.len() == n - 1);
        assert(forall|j: int| 0 <= j < n - 1 && j != i ==> s[j] == sp[j]);
        assert(i < n - 1 ==> s[i] == sp[n - 1]);
        assert forall|j: int| 0 <= j < n && j != i implies sp[j].0 != addr by {
            assert(sp[i].0 == addr);
        }
        assert forall|p: int, q: int| 0 <= p < q < n - 1 implies s[p].0 != s[q].0 by {
            let p0: int = if p == i { n - 1 } else { p };
            let q0: int = if q == i { n - 1 } else { q };
            assert(s[p] == sp[p0]);
            assert(s[q] == sp[q0]);
        }
        assert forall|j: int| 0 <= j < n - 1 implies (#[trigger] s[j]).0 != addr by {
            let j0: int = if j == i { n - 1 } else { j };
            assert(s[j] == sp[j0]);
        }
        self.lemma_not_found(addr);
        assert forall|a: u64| a != addr implies #[trigger] self.spec_has_mailbox(a)
            == prev.spec_has_mailbox(a) by {
            if prev.spec_has_mailbox(a) {
                prev.lemma_has_gives_index(a);
                let j = prev.mailbox_index(a);
                assert(j != i);
                let w: int = if j == n - 1 { i } else { j };
                assert(s[w].0 == a);
                assert(self.map_keys()[w] == a);
                assert(self.map_keys().contains(a));
            }
            if self.spec_has_mailbox(a) {
                self.lemma_has_gives_index(a);
                let j = self.mailbox_index(a);
                let w: int = if j == i { n - 1 } else { j };
                assert(sp[w].0 == a);
                assert(prev.map_keys()[w] == a);
                assert(prev.map_keys().contains(a));
            }
        }
        assert forall|a: u64| a != addr && prev.spec_has_mailbox(a) implies #[trigger] self.spec_mailbox_at(
            a,
        ) == prev.spec_mailbox_at(a) by {
            prev.lemma_has_gives_index(a);
            let j = prev.mailbox_index(a);
            prev.lemma_index_unique_keys(a, j);
            assert(j != i);
            let w: int = if j == n - 1 { i } else { j };
            assert(s[w] == sp[j]);
            self.lemma_index_unique_keys(a, w);
        }
        assert forall|j: int| 0 <= j < n - 1 implies (#[trigger] s[j]).1.wf() by {
            let j0: int = if j == i { n - 1 } else { j };
            assert(s[j] == sp[j0]);
        }
    }

    /// Remove the mailbox under `addr` from the cache and the map, and
    /// close it: its queue is severed and its idle FSM dropped.
    pub fn close(&mut self, addr: u64)
        requires
            old(self).wf(),
        ensures
            final(self).wf(),
            Self::spec_close_rel(*old(self), *final(self), addr),
            !final(self).spec_has_mailbox(addr),
            forall|a: u64|
                a != addr ==> #[trigger] final(self).spec_has_mailbox(a)
                    == old(self).spec_has_mailbox(a),
            forall|a: u64|
                a != addr && old(self).spec_has_mailbox(a)
                    ==> #[trigger] final(self).spec_mailbox_at(a) == old(self).spec_mailbox_at(a),
            final(self).spec_alive_cnt() == final(self).map_seq().len(),
            final(self).spec_shutdown() == old(self).spec_shutdown(),
            final(self).spec_control() == old(self).spec_control(),
            !final(self).spec_cache_has(addr),
    {
        self.caches.remove(&addr);
        let found = self.find_mailbox(addr);
        match found {
            Some(i) => {
                let mut pair = self.normals.entries.swap_remove(i);
                pair.1.close();
            },
            None => {},
        }
        self.normals.alive_cnt = self.normals.entries.len();
        proof {
            let prev = *old(self);
            if prev.spec_has_mailbox(addr) {
                self.lemma_after_remove(prev, addr, prev.mailbox_index(addr));
            } else {
                assert(self.map_seq() == prev.map_seq());
            }
        }
    }

    /// The mailbox under `addr` is exactly `mailbox`, re-addressed to
    /// `addr`.
    pub open spec fn spec_installed(&self, addr: u64, mailbox: BasicMailbox<N>) -> bool {
        &&& self.spec_has_mailbox(addr)
        &&& self.spec_mailbox_at(addr).spec_sender() == mailbox.spec_sender()
        &&& self.spec_mailbox_at(addr).spec_state() == mailbox.spec_state()
        &&& self.spec_mailbox_at(addr).spec_addr() == addr
    }

    /// Register every pair, closing any mailbox already registered
    /// under one of the addresses.  For a duplicated address the last
    /// pair wins, as a sequence of single registers would have it.
    pub fn register_all(&mut self, mailboxes: Vec<(u64, BasicMailbox<N>)>)
        requires
            old(self).wf(),
            forall|i: int| 0 <= i < mailboxes@.len() ==> (#[trigger] mailboxes@[i]).1.wf(),
        ensures
            final(self).wf(),
            final(self).spec_alive_cnt() == final(self).map_seq().len(),
            final(self).spec_shutdown() == old(self).spec_shutdown(),
            final(self).spec_control() == old(self).spec_control(),
            forall|i: int|
                0 <= i < mailboxes@.len() ==> final(self).spec_has_mailbox(
                    #[trigger] mailboxes@[i].0,
                ),
            forall|i: int|
                #![trigger mailboxes@[i]]
                0 <= i < mailboxes@.len() && (forall|j: int|
                    i < j < mailboxes@.len() ==> (#[trigger] mailboxes@[j]).0 != mailboxes@[i].0)
                    ==> final(self).spec_installed(mailboxes@[i].0, mailboxes@[i].1),
            forall|a: u64|
                (forall|i: int| 0 <= i < mailboxes@.len() ==> (#[trigger] mailboxes@[i]).0 != a)
                    ==> #[trigger] final(self).spec_has_mailbox(a) == old(self).spec_has_mailbox(
                    a,
                ),
    {
        let ghost orig = mailboxes@;
        let mut rest = mailboxes;
        while rest.len() > 0
            invariant
                self.wf(),
                self.spec_alive_cnt() == self.map_seq().len(),
                self.spec_shutdown() == old(self).spec_shutdown(),
                self.spec_control() == old(self).spec_control(),
                rest@ == orig.skip(orig.len() - rest@.len()),
                rest@.len() <= orig.len(),
                forall|i: int| 0 <= i < rest@.len() ==> (#[trigger] rest@[i]).1.wf(),
                forall|i: int|
                    0 <= i < orig.len() - rest@.len() ==> self.spec_has_mailbox(
                        #[trigger] orig[i].0,
                    ),
                forall|i: int|
                    #![trigger orig[i]]
                    0 <= i < orig.len() - rest@.len() && (forall|j: int|
                        i < j < orig.len() - rest@.len() ==> (#[trigger] orig[j]).0 != orig[i].0)
                        ==> self.spec_installed(orig[i].0, orig[i].1),
                forall|a: u64|
                    (forall|i: int| 0 <= i < orig.len() ==> (#[trigger] orig[i]).0 != a)
                        ==> #[trigger] self.spec_has_mailbox(a) == old(self).spec_has_mailbox(a),
            decreases rest@.len(),
        {
            let ghost k = orig.len() - rest@.len();
            let ghost pre = *self;
            let (addr, mb) = rest.remove(0);
            proof {
                assert(orig.skip(k)[0] == (addr, mb));
                assert(orig[k] == (addr, mb));
                assert(rest@ =~= orig.skip(k + 1));
            }
            self.register(addr, mb);
            proof {
                assert(self.spec_has_mailbox(orig[k].0));
                assert forall|i: int| 0 <= i < k + 1 implies self.spec_has_mailbox(
                    #[trigger] orig[i].0,
                ) by {
                    if i < k && orig[i].0 != addr {
                        assert(pre.spec_has_mailbox(orig[i].0));
                    }
                }
                assert forall|i: int|
                    #![trigger orig[i]]
                    0 <= i < k + 1 && (forall|j: int|
                        i < j < k + 1 ==> (#[trigger] orig[j]).0 != orig[i].0) implies self.spec_installed(
                    orig[i].0,
                    orig[i].1,
                ) by {
                    if i == k {
                        assert(self.spec_installed(addr, mb));
                    } else {
                        assert(orig[k].0 != orig[i].0);
                        assert(forall|j: int|
                            i < j < k ==> (#[trigger] orig[j]).0 != orig[i].0);
                        assert(pre.spec_installed(orig[i].0, orig[i].1));
                        assert(self.spec_has_mailbox(orig[i].0) == pre.spec_has_mailbox(
                            orig[i].0,
                        ));
                        assert(self.spec_mailbox_at(orig[i].0) == pre.spec_mailbox_at(orig[i].0));
                    }
                }
                assert forall|a: u64|
                    (forall|i: int| 0 <= i < orig.len() ==> (#[trigger] orig[i]).0 != a) implies #[trigger] self.spec_has_mailbox(
                    a,
                ) == old(self).spec_has_mailbox(a) by {
                    assert(orig[k].0 != a);
                    assert(self.spec_has_mailbox(a) == pre.spec_has_mailbox(a));
                }
            }
        }
        proof {
            assert(orig.len() - rest@.len() == orig.len());
        }
    }

    /// The connected mailbox under `addr`, if one is registered; a
    /// disconnected one is reported as absent and forgotten by the
    /// cache.
    pub fn mailbox(&mut self, addr: u64) -> (r: Option<&BasicMailbox<N>>)
        requires
            old(self).wf(),
        ensures
            final(self).wf(),
            final(self).map_seq() == old(self).map_seq(),
            final(self).spec_alive_cnt() == old(self).spec_alive_cnt(),
            final(self).spec_shutdown() == old(self).spec_shutdown(),
            final(self).spec_control() == old(self).spec_control(),
            r is Some <==> (old(self).spec_has_mailbox(addr) && old(self).spec_mailbox_at(
                addr,
            ).spec_connected()),
            r matches Some(mb) ==> *mb == old(self).spec_mailbox_at(addr),
            old(self).spec_has_mailbox(addr) && !old(self).spec_mailbox_at(addr).spec_connected()
                ==> !final(self).spec_cache_has(addr),
    {
        let found = self.check_do(addr);
        match found {
            None => None,
            Some(i) => {
                proof {
                    self.lemma_index_unique(addr, i as int);
                }
                if self.normals.entries[i].1.is_connected() {
                    Some(&self.normals.entries[i].1)
                } else {
                    self.caches.remove(&addr);
                    None
                }
            },
        }
    }

    /// Two routers with the same map resolve every address alike.
    proof fn lemma_eq_map(&self, othr: Self)
        requires
            self.map_seq() == othr.map_seq(),
        ensures
            forall|a: u64|
                #[trigger] self.spec_has_mailbox(a) == othr.spec_has_mailbox(a),
            forall|a: u64|
                #[trigger] self.spec_mailbox_at(a) == othr.spec_mailbox_at(a),
    {
    }

    /// Try to deliver `msg` to the mailbox under `addr`.  `Right(msg)`
    /// hands the message back when no mailbox is registered there;
    /// `Left` reports the mailbox's own verdict.
    pub fn try_send(&mut self, addr: u64, msg: N::Message) -> (r: Either<
        Result<(), TrySendError<N::Message>>,
        N::Message,
    >)
        requires
            old(self).wf(),
        ensures
            final(self).wf(),
            forall|a: u64|
                #[trigger] final(self).spec_has_mailbox(a) == old(self).spec_has_mailbox(a),
            forall|a: u64|
                a != addr && old(self).spec_has_mailbox(a)
                    ==> #[trigger] final(self).spec_mailbox_at(a) == old(self).spec_mailbox_at(a),
            final(self).spec_alive_cnt() == old(self).spec_alive_cnt(),
            final(self).spec_shutdown() == old(self).spec_shutdown(),
            final(self).spec_control() == old(self).spec_control(),
            !old(self).spec_has_mailbox(addr) ==> r == Either::<
                Result<(), TrySendError<N::Message>>,
                N::Message,
            >::Right(msg),
            old(self).spec_has_mailbox(addr) ==> r is Left,
            old(self).spec_has_mailbox(addr) ==> final(self).spec_mailbox_at(
                addr,
            ).spec_connected() == old(self).spec_mailbox_at(addr).spec_connected(),
            old(self).spec_has_mailbox(addr) && !old(self).spec_mailbox_at(addr).spec_connected()
                ==> (r matches Either::Left(res) && res is Err),
            old(self).spec_has_mailbox(addr) && !old(self).spec_mailbox_at(addr).spec_connected()
                && old(self).spec_mailbox_at(addr).spec_sender().spec_tried_cnt()
                < CHECK_INTERVAL ==> (r matches Either::Left(res) && res matches Err(
            TrySendError::Disconnected(m),
            ) && m == msg),
            (match r {
                Either::Left(res) => {
                    &&& (res matches Err(TrySendError::Full(m)) ==> m == msg && final(self).spec_mailbox_at(addr) == old(self).spec_mailbox_at(addr)
                        && old(self).spec_mailbox_at(addr).spec_sender().spec_tried_cnt()
                        >= CHECK_INTERVAL)
                    &&& (res matches Err(TrySendError::Disconnected(m)) ==> m == msg
                        && !final(self).spec_cache_has(addr))
                    &&& (res is Ok ==> old(self).spec_mailbox_at(addr).spec_connected() && final(self).spec_mailbox_at(addr).spec_state() == old(self).spec_mailbox_at(
                        addr,
                    ).spec_state().spec_take_state())
                },
                Either::Right(m) => m == msg && !old(self).spec_has_mailbox(addr),
            }),
    {
        let found = self.check_do(addr);
        match found {
            None => {
                proof {
                    self.lemma_eq_map(*old(self));
                }
                Either::Right(msg)
            },
            Some(i) => {
                proof {
                    self.lemma_index_unique(addr, i as int);
                }
                let ghost mid = *self;
                let mb = &mut self.normals.entries[i].1;
                let res = BasicMailbox::try_send(mb, msg, &self.normal_scheduler);
                proof {
                    self.lemma_after_value_update(mid, addr, i as int);
                    mid.lemma_eq_map(*old(self));
                }
                let ghost post = *self;
                let out = match res {
                    Ok(()) => Either::Left(Ok(())),
                    Err(TrySendError::Full(m)) => Either::Left(Err(TrySendError::Full(m))),
                    Err(TrySendError::Disconnected(m)) => {
                        self.caches.remove(&addr);
                        Either::Left(Err(TrySendError::Disconnected(m)))
                    },
                };
                proof {
                    self.lemma_eq_map(post);
                    assert forall|a: u64| #[trigger] self.spec_has_mailbox(a)
                        == old(self).spec_has_mailbox(a) by {
                        assert(self.spec_has_mailbox(a) == post.spec_has_mailbox(a));
                        assert(post.spec_has_mailbox(a) == mid.spec_has_mailbox(a));
                        assert(mid.spec_has_mailbox(a) == old(self).spec_has_mailbox(a));
                    }
                    assert forall|a: u64| a != addr && old(self).spec_has_mailbox(a)
                        implies #[trigger] self.spec_mailbox_at(a) == old(self).spec_mailbox_at(
                        a,
                    ) by {
                        assert(self.spec_mailbox_at(a) == post.spec_mailbox_at(a));
                        assert(post.spec_mailbox_at(a) == mid.spec_mailbox_at(a));
                        assert(mid.spec_mailbox_at(a) == old(self).spec_mailbox_at(a));
                    }
                    assert(self.spec_mailbox_at(addr) == post.spec_mailbox_at(addr));
                    assert(mid.spec_mailbox_at(addr) == old(self).spec_mailbox_at(addr));
                }
                out
            },
        }
    }

    /// Deliver `msg` to the mailbox under `addr`; an absent mailbox is
    /// reported as disconnected.
    pub fn send(&mut self, addr: u64, msg: N::Message) -> (r: Result<(), TrySendError<N::Message>>)
        requires
            old(self).wf(),
        ensures
            final(self).wf(),
            forall|a: u64|
                #[trigger] final(self).spec_has_mailbox(a) == old(self).spec_has_mailbox(a),
            forall|a: u64|
                a != addr && old(self).spec_has_mailbox(a)
                    ==> #[trigger] final(self).spec_mailbox_at(a) == old(self).spec_mailbox_at(a),
            final(self).spec_alive_cnt() == old(self).spec_alive_cnt(),
            final(self).spec_shutdown() == old(self).spec_shutdown(),
            final(self).spec_control() == old(self).spec_control(),
            !old(self).spec_has_mailbox(addr) ==> r == Result::<
                (),
                TrySendError<N::Message>,
            >::Err(TrySendError::Disconnected(msg)),
            old(self).spec_has_mailbox(addr) && !old(self).spec_mailbox_at(addr).spec_connected()
                ==> r is Err,
            old(self).spec_has_mailbox(addr) && !old(self).spec_mailbox_at(addr).spec_connected()
                && old(self).spec_mailbox_at(addr).spec_sender().spec_tried_cnt()
                < CHECK_INTERVAL ==> (r matches Err(TrySendError::Disconnected(m)) && m == msg),
            r is Ok ==> old(self).spec_has_mailbox(addr) && old(self).spec_mailbox_at(
                addr,
            ).spec_connected(),
            r matches Err(TrySendError::Disconnected(m)) ==> m == msg,
            r matches Err(TrySendError::Full(m)) ==> m == msg && old(self).spec_has_mailbox(addr)
                && final(self).spec_mailbox_at(addr) == old(self).spec_mailbox_at(addr) && old(self).spec_mailbox_at(addr).spec_sender().spec_tried_cnt() >= CHECK_INTERVAL,
            old(self).spec_has_mailbox(addr) ==> final(self).spec_mailbox_at(
                addr,
            ).spec_connected() == old(self).spec_mailbox_at(addr).spec_connected(),
            r is Ok ==> final(self).spec_mailbox_at(addr).spec_state() == old(self).spec_mailbox_at(addr).spec_state().spec_take_state(),
    {
        match self.try_send(addr, msg) {
            Either::Left(res) => res,
            Either::Right(m) => Err(TrySendError::Disconnected(m)),
        }
    }

    /// Deliver `msg` past the soft capacity.  A `Full` verdict from the
    /// plain send is retried through the mailbox's force path; a
    /// disconnected verdict is swallowed while the router is shut down,
    /// since racing a shutdown is not actionable.
    pub fn force_send(&mut self, addr: u64, msg: N::Message) -> (r: Result<
        (),
        SendError<N::Message>,
    >)
        requires
            old(self).wf(),
        ensures
            final(self).wf(),
            forall|a: u64|
                #[trigger] final(self).spec_has_mailbox(a) == old(self).spec_has_mailbox(a),
            forall|a: u64|
                a != addr && old(self).spec_has_mailbox(a)
                    ==> #[trigger] final(self).spec_mailbox_at(a) == old(self).spec_mailbox_at(a),
            final(self).spec_alive_cnt() == old(self).spec_alive_cnt(),
            final(self).spec_shutdown() == old(self).spec_shutdown(),
            final(self).spec_control() == old(self).spec_control(),
            !old(self).spec_shutdown() && !old(self).spec_has_mailbox(addr) ==> (r matches Err(e)
                && e.0 == msg),
            !old(self).spec_shutdown() && old(self).spec_has_mailbox(addr) && !old(self).spec_mailbox_at(addr).spec_connected() ==> (r matches Err(e) && e.0 == msg),
            old(self).spec_shutdown() && !old(self).spec_has_mailbox(addr) ==> r is Ok,
            old(self).spec_shutdown() && old(self).spec_has_mailbox(addr) && !old(self).spec_mailbox_at(addr).spec_connected() && old(self).spec_mailbox_at(
                addr,
            ).spec_sender().spec_tried_cnt() < CHECK_INTERVAL ==> r is Ok,
            r is Ok ==> old(self).spec_shutdown() || (old(self).spec_has_mailbox(addr) && old(self).spec_mailbox_at(addr).spec_connected()),
            r is Ok && !old(self).spec_shutdown() ==> final(self).spec_mailbox_at(
                addr,
            ).spec_state() == old(self).spec_mailbox_at(addr).spec_state().spec_take_state(),
            r matches Err(e) ==> e.0 == msg,
    {
        let first = self.send(addr, msg);
        match first {
            Ok(()) => Ok(()),
            Err(TrySendError::Full(m)) => {
                let found = self.find_mailbox(addr);
                match found {
                    Some(i) => {
                        let ghost mid = *self;
                        let mb = &mut self.normals.entries[i].1;
                        let res = BasicMailbox::force_send(mb, m, &self.normal_scheduler);
                        proof {
                            self.lemma_after_value_update(mid, addr, i as int);
                            if res is Ok {
                                assert(self.spec_mailbox_at(addr).spec_state()
                                    == mid.spec_mailbox_at(addr).spec_state().spec_take_state());
                                assert(mid.spec_mailbox_at(addr) == old(self).spec_mailbox_at(
                                    addr,
                                ));
                            }
                        }
                        res
                    },
                    None => Err(SendError(m)),
                }
            },
            Err(TrySendError::Disconnected(m)) => {
                if self.is_shutdown() {
                    Ok(())
                } else {
                    Err(SendError(m))
                }
            },
        }
    }

    /// Deliver a message to the control mailbox through the control
    /// scheduler.
    pub fn send_control(&mut self, msg: C::Message) -> (r: Result<(), TrySendError<C::Message>>)
        requires
            old(self).wf(),
        ensures
            final(self).wf(),
            final(self).map_seq() == old(self).map_seq(),
            final(self).spec_alive_cnt() == old(self).spec_alive_cnt(),
            final(self).spec_shutdown() == old(self).spec_shutdown(),
            final(self).spec_control().spec_connected() == old(self).spec_control().spec_connected(),
            !old(self).spec_control().spec_connected() ==> r is Err,
            r is Ok ==> old(self).spec_control().spec_connected(),
            r matches Err(TrySendError::Full(m)) ==> m == msg && final(self).spec_control() == old(self).spec_control()
                && old(self).spec_control().spec_sender().spec_tried_cnt() >= CHECK_INTERVAL,
            r matches Err(TrySendError::Disconnected(m)) ==> m == msg,
            r is Ok ==> final(self).spec_control().spec_state() == old(self).spec_control().spec_state().spec_take_state(),
    {
        BasicMailbox::try_send(&mut self.control_box, msg, &self.control_scheduler)
    }

    /// Force-send a copy of `msg` to every registered mailbox,
    /// dropping individual send errors.  The design this models hands a
    /// message *generator* in, called once per mailbox; a mutable
    /// closure cannot be verified here, so a cloneable message stands
    /// in — one copy per registered mailbox.  Each registered cell either
    /// takes its force-send transition (idle FSMs go to the scheduler)
    /// or is left unchanged with the error ignored; connectivity and
    /// the soft cap of every mailbox are untouched.
    pub fn broadcast_normal(&mut self, msg: N::Message) where N::Message: Clone
        requires
            old(self).wf(),
        ensures
            final(self).wf(),
            forall|a: u64|
                #[trigger] final(self).spec_has_mailbox(a) == old(self).spec_has_mailbox(a),
            final(self).spec_alive_cnt() == old(self).spec_alive_cnt(),
            final(self).spec_shutdown() == old(self).spec_shutdown(),
            final(self).spec_control() == old(self).spec_control(),
            forall|a: u64|
                #![trigger final(self).spec_mailbox_at(a)]
                old(self).spec_has_mailbox(a) ==> {
                    &&& final(self).spec_mailbox_at(a).spec_connected() == old(self).spec_mailbox_at(a).spec_connected()
                    &&& final(self).spec_mailbox_at(a).spec_sender().spec_limit() == old(self).spec_mailbox_at(a).spec_sender().spec_limit()
                    &&& (final(self).spec_mailbox_at(a).spec_state() == old(self).spec_mailbox_at(
                        a,
                    ).spec_state().spec_take_state() || final(self).spec_mailbox_at(a).spec_state()
                        == old(self).spec_mailbox_at(a).spec_state())
                },
    {
        let ghost prev = *self;
        let n = self.normals.entries.len();
        let mut i: usize = 0;
        while i < n
            invariant
                self.wf(),
                i <= n,
                n == self.map_seq().len(),
                self.map_seq().len() == prev.map_seq().len(),
                prev.wf(),
                forall|j: int|
                    0 <= j < n ==> (#[trigger] self.map_seq()[j]).0 == prev.map_seq()[j].0,
                forall|j: int| i <= j < n ==> self.map_seq()[j] == prev.map_seq()[j],
                forall|j: int|
                    #![trigger self.map_seq()[j]]
                    0 <= j < i ==> {
                        &&& self.map_seq()[j].1.spec_connected()
                            == prev.map_seq()[j].1.spec_connected()
                        &&& self.map_seq()[j].1.spec_sender().spec_limit()
                            == prev.map_seq()[j].1.spec_sender().spec_limit()
                        &&& (self.map_seq()[j].1.spec_state()
                            == prev.map_seq()[j].1.spec_state().spec_take_state()
                            || self.map_seq()[j].1.spec_state() == prev.map_seq()[j].1.spec_state())
                    },
                self.spec_alive_cnt() == prev.spec_alive_cnt(),
                self.spec_shutdown() == prev.spec_shutdown(),
                self.spec_control() == prev.spec_control(),
            decreases n - i,
        {
            let m = msg.clone();
            let ghost mid = *self;
            let mb = &mut self.normals.entries[i].1;
            let _ = BasicMailbox::force_send(mb, m, &self.normal_scheduler);
            proof {
                self.lemma_after_value_update(mid, mid.map_seq()[i as int].0, i as int);
                assert(mid.map_seq()[i as int] == prev.map_seq()[i as int]);
                assert forall|j: int|
                    #![trigger self.map_seq()[j]]
                    0 <= j < i + 1 implies {
                    &&& self.map_seq()[j].1.spec_connected() == prev.map_seq()[j].1.spec_connected()
                    &&& self.map_seq()[j].1.spec_sender().spec_limit()
                        == prev.map_seq()[j].1.spec_sender().spec_limit()
                    &&& (self.map_seq()[j].1.spec_state()
                        == prev.map_seq()[j].1.spec_state().spec_take_state()
                        || self.map_seq()[j].1.spec_state() == prev.map_seq()[j].1.spec_state())
                } by {
                    if j < i {
                        assert(self.map_seq()[j] == mid.map_seq()[j]);
                    } else {
                        assert(j == i);
                    }
                }
            }
            i = i + 1;
        }
        proof {
            self.lemma_same_keys_same_has(prev);
            assert forall|a: u64|
                #![trigger self.spec_mailbox_at(a)]
                prev.spec_has_mailbox(a) implies {
                &&& self.spec_mailbox_at(a).spec_connected() == prev.spec_mailbox_at(
                    a,
                ).spec_connected()
                &&& self.spec_mailbox_at(a).spec_sender().spec_limit() == prev.spec_mailbox_at(
                    a,
                ).spec_sender().spec_limit()
                &&& (self.spec_mailbox_at(a).spec_state() == prev.spec_mailbox_at(
                    a,
                ).spec_state().spec_take_state() || self.spec_mailbox_at(a).spec_state()
                    == prev.spec_mailbox_at(a).spec_state())
            } by {
                prev.lemma_has_gives_index(a);
                let j = prev.mailbox_index(a);
                prev.lemma_index_unique_keys(a, j);
                assert(self.map_seq()[j].0 == a);
                self.lemma_index_unique_keys(a, j);
            }
        }
    }

    /// Two maps with pointwise equal keys register the same addresses.
    pub(crate) proof fn lemma_same_keys_same_has(&self, prev: Self)
        requires
            self.map_seq().len() == prev.map_seq().len(),
            forall|j: int|
                0 <= j < self.map_seq().len() ==> (#[trigger] self.map_seq()[j]).0
                    == prev.map_seq()[j].0,
        ensures
            forall|a: u64|
                #[trigger] self.spec_has_mailbox(a) == prev.spec_has_mailbox(a),
    {
        assert forall|a: u64| #[trigger] self.spec_has_mailbox(a) == prev.spec_has_mailbox(
            a,
        ) by {
            if prev.spec_has_mailbox(a) {
                prev.lemma_has_gives_index(a);
                let j = prev.mailbox_index(a);
                assert(self.map_seq()[j].0 == a);
                assert(self.map_keys()[j] == a);
                assert(self.map_keys().contains(a));
            }
            if self.spec_has_mailbox(a) {
                self.lemma_has_gives_index(a);
                let j = self.mailbox_index(a);
                assert(prev.map_seq()[j].0 == a);
                assert(prev.map_keys()[j] == a);
                assert(prev.map_keys().contains(a));
            }
        }
    }

    /// A router that has been shut down: flag set, map drained, cache
    /// cleared, control mailbox closed.
    pub open spec fn spec_is_shut(&self) -> bool {
        &&& self.spec_shutdown()
        &&& self.map_seq().len() == 0
        &&& self.spec_alive_cnt() == 0
        &&& self.spec_cache_len() == 0
        &&& self.spec_control().spec_status() == FsmStatus::Dropped
        &&& !self.spec_control().spec_connected()
    }

    /// Shut the router down: set the flag, clear the cache, drain the
    /// map closing every mailbox, close the control mailbox, and wake
    /// every worker.
    ///
    /// Law: this is idempotent — from a router already shut down, a
    /// second call leaves every observable piece exactly as it found
    /// it.
    pub fn broadcast_shutdown(&mut self)
        requires
            old(self).wf(),
        ensures
            final(self).wf(),
            final(self).spec_is_shut(),
            old(self).spec_is_shut() ==> {
                &&& final(self).map_seq() == old(self).map_seq()
                &&& final(self).spec_cache_len() == old(self).spec_cache_len()
                &&& final(self).spec_alive_cnt() == old(self).spec_alive_cnt()
                &&& final(self).spec_shutdown() == old(self).spec_shutdown()
                &&& final(self).spec_control().spec_state().spec_data() == old(self).spec_control().spec_state().spec_data()
                &&& final(self).spec_control().spec_status() == old(self).spec_control().spec_status()
                &&& final(self).spec_control().spec_connected() == old(self).spec_control().spec_connected()
                &&& final(self).spec_control().spec_sender().spec_tried_cnt() == old(self).spec_control().spec_sender().spec_tried_cnt()
                &&& final(self).spec_control().spec_sender().spec_limit() == old(self).spec_control().spec_sender().spec_limit()
            },
    {
        self.shutdown = true;
        self.caches.clear();
        while self.normals.entries.len() > 0
            invariant
                forall|j: int|
                    0 <= j < self.map_seq().len() ==> (#[trigger] self.map_seq()[j]).1.wf(),
                self.caches.wf(),
                self.spec_cache_len() == 0,
                self.spec_shutdown(),
                self.spec_control() == old(self).spec_control(),
                old(self).map_seq().len() == 0 ==> self.map_seq() == old(self).map_seq(),
            decreases self.normals.entries@.len(),
        {
            let ghost at_entry = *self;
            let mut pair = self.normals.entries.pop().unwrap();
            pair.1.close();
            proof {
                assert forall|j: int| 0 <= j < self.map_seq().len() implies (
                #[trigger] self.map_seq()[j]).1.wf() by {
                    assert(self.map_seq()[j] == at_entry.map_seq()[j]);
                }
            }
        }
        self.normals.alive_cnt = 0;
        self.control_box.close();
        self.normal_scheduler.shutdown();
        self.control_scheduler.shutdown();
        proof {
            assert(self.map_seq().len() == 0);
            if old(self).spec_is_shut() {
                assert(self.map_seq() =~= old(self).map_seq());
            }
        }
    }

    /// Forget every cached address.
    pub fn clear_cache(&mut self)
        requires
            old(self).wf(),
        ensures
            final(self).wf(),
            final(self).spec_cache_len() == 0,
            final(self).map_seq() == old(self).map_seq(),
            final(self).spec_alive_cnt() == old(self).spec_alive_cnt(),
            final(self).spec_shutdown() == old(self).spec_shutdown(),
            final(self).spec_control() == old(self).spec_control(),
    {
        self.caches.clear();
    }

    /// The shared counter of ownership cells ever created.
    pub fn state_cnt(&self) -> &Arc<AtomicUsize> {
        &self.state_cnt
    }

    /// How many mailboxes are registered; mirrors the map exactly.
    pub fn alive_cnt(&self) -> (r: usize)
        requires
            self.wf(),
        ensures
            r == self.map_seq().len(),
    {
        self.normals.alive_cnt
    }

    /// Approximate memory use: bytes attributed to the registered
    /// mailboxes, and to cells created beyond the registered ones and
    /// the control cell.  The byte figures rest on machine-dependent
    /// type sizes and a shared counter that is never decremented (no
    /// destructors in the verified model), so the leak figure is an
    /// over-count once mailboxes close, and only the empty-map and
    /// nothing-extant cases are pinned.
    pub fn trace(&self) -> (t: RouterTrace)
        requires
            self.wf(),
        ensures
            self.map_seq().len() == 0 ==> t.alive == 0,
            self.map_seq().len() > 0 ==> t.alive > 0,
    {
        let alive = self.normals.alive_cnt;
        let total = counter_value(&self.state_cnt);
        let leak: usize = if total > alive {
            let d = total - alive;
            if d > 1 {
                d - 1
            } else {
                0
            }
        } else {
            0
        };
        let mailbox_unit = type_size::<(u64, BasicMailbox<N>)>();
        let state_unit = type_size::<FsmState<N>>();
        // every queued message carries one word of queue state
        let message_unit = type_size::<N::Message>().saturating_add(8);
        // an unbounded queue keeps at least one 31-slot block per sender
        let sender_block_unit: usize = 31;
        let per_alive = (mailbox_unit.checked_mul(8).unwrap_or(usize::MAX) / 7).saturating_add(
            state_unit,
        ).saturating_add(message_unit).saturating_add(sender_block_unit);
        let per_leak = message_unit.checked_mul(sender_block_unit).unwrap_or(usize::MAX)
            .saturating_add(state_unit);
        proof {
            assert(per_alive >= 1);
        }
        let alive_bytes = match per_alive.checked_mul(alive) {
            Some(v) => {
                proof {
                    if alive == 0 {
                        assert(per_alive * alive == 0) by (nonlinear_arith)
                            requires
                                alive == 0,
                        ;
                    } else {
                        assert(per_alive * alive >= 1) by (nonlinear_arith)
                            requires
                                per_alive >= 1,
                                alive >= 1,
                        ;
                    }
                }
                v
            },
            None => {
                proof {
                    if alive == 0 {
                        assert(per_alive * alive == 0) by (nonlinear_arith)
                            requires
                                alive == 0,
                        ;
                    }
                }
                usize::MAX
            },
        };
        RouterTrace { alive: alive_bytes, leak: per_leak.checked_mul(leak).unwrap_or(usize::MAX) }
    }
}

} // verus!
