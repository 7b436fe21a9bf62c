//! ARC: the adaptive replacement block cache.
//!
//! Cached buffers sit in slots; the MRU list holds the slots of buffers seen
//! once, the MFU list those seen again. A hit on an MRU buffer moves it to
//! the MFU list. Room for a new buffer is made by evicting from the front of
//! the MRU list while it is longer than the target `p`, and from the front of
//! the MFU list otherwise; evicted keys are remembered in ghost lists, and a
//! miss that finds its key in a ghost list moves the target `p`.
use crate::bytes_util::slice_prefix;
use crate::seq_search::{count_where, first_index, lemma_first_index};
use std::collections::VecDeque;
use vstd::prelude::*;

verus! {

pub const HV_ARC_DEFAULT_SIZE: usize = 256;

pub const HV_ARC_MAX_SIZE: usize = 4096;

pub const HV_ARC_BUF_SIZE: usize = 4096;

pub const HV_ARC_META_SIZE: usize = 16384;

/// Where a buffer sits.
#[derive(Debug, Clone, Copy, PartialEq, Eq, Structural)]
pub enum HvArcState {
    Anon,
    Mru,
    Mfu,
    MruGhost,
    MfuGhost,
    L2Cache,
}

/// What a buffer holds.
#[derive(Debug, Clone, Copy, PartialEq, Eq, Structural)]
pub enum HvArcBufType {
    Data,
    Metadata,
}

/// Identity of a cached block.
#[derive(Debug, Clone, Copy)]
pub struct HvArcKey {
    pub vdev_id: u16,
    pub offset: u64,
    pub birth_txg: u64,
}

/// FNV-style hash of a key.
pub open spec fn arc_key_hash(k: HvArcKey) -> u64 {
    let h1 = (14695981039346656037u64 ^ (k.vdev_id as u64)).wrapping_mul(1099511628211u64);
    let h2 = (h1 ^ k.offset).wrapping_mul(1099511628211u64);
    (h2 ^ k.birth_txg).wrapping_mul(1099511628211u64)
}

impl HvArcKey {
    /// A key.
    pub fn new(vdev_id: u16, offset: u64, birth_txg: u64) -> (k: Self)
        ensures
            k == (HvArcKey { vdev_id, offset, birth_txg }),
    {
        HvArcKey { vdev_id, offset, birth_txg }
    }

    /// FNV-style hash of the three fields.
    pub fn hash(&self) -> (h: u64)
        ensures
            h == arc_key_hash(*self),
    {
        let mut h: u64 = 14695981039346656037;
        h = h ^ (self.vdev_id as u64);
        h = h.wrapping_mul(1099511628211);
        h = h ^ self.offset;
        h = h.wrapping_mul(1099511628211);
        h = h ^ self.birth_txg;
        h = h.wrapping_mul(1099511628211);
        h
    }

    /// Field-wise equality.
    pub fn same(&self, other: &HvArcKey) -> (r: bool)
        ensures
            r == (*self == *other),
    {
        self.vdev_id == other.vdev_id && self.offset == other.offset && self.birth_txg == other.birth_txg
    }
}

/// A cached buffer.
pub struct HvArcBuf {
    pub key: HvArcKey,
    pub data: Vec<u8>,
    pub size: usize,
    pub buf_type: HvArcBufType,
    pub state: HvArcState,
    pub ref_count: u32,
    pub access_count: u32,
    pub dirty: bool,
    pub l2cached: bool,
    pub compressed: bool,
}

impl HvArcBuf {
    /// A zero-filled anonymous buffer of `size` bytes with one reference.
    pub fn new(key: HvArcKey, size: usize, buf_type: HvArcBufType) -> (b: Self)
        ensures
            b.key == key,
            b.data@ == Seq::new(size as nat, |i: int| 0u8),
            b.size == size,
            b.buf_type == buf_type,
            b.state == HvArcState::Anon,
            b.ref_count == 1,
            b.access_count == 1,
            !b.dirty,
            !b.l2cached,
            !b.compressed,
    {
        HvArcBuf {
            key,
            data: crate::bytes_util::zeroed(size),
            size,
            buf_type,
            state: HvArcState::Anon,
            ref_count: 1,
            access_count: 1,
            dirty: false,
            l2cached: false,
            compressed: false,
        }
    }

    /// Whether someone holds a reference.
    pub fn is_referenced(&self) -> (r: bool)
        ensures
            r == (self.ref_count > 0),
    {
        self.ref_count > 0
    }

    /// Takes a reference.
    pub fn add_ref(&mut self)
        ensures
            final(self).ref_count == old(self).ref_count.wrapping_add(1),
            final(self).key == old(self).key,
            final(self).data@ == old(self).data@,
            final(self).size == old(self).size,
            final(self).buf_type == old(self).buf_type,
            final(self).state == old(self).state,
            final(self).access_count == old(self).access_count,
            final(self).dirty == old(self).dirty,
    {
        self.ref_count = self.ref_count.wrapping_add(1);
    }

    /// Drops a reference (never below zero); returns the new count.
    pub fn release(&mut self) -> (r: u32)
        ensures
            r == (if old(self).ref_count == 0 { 0 } else { old(self).ref_count - 1 }),
            final(self).ref_count == r,
            final(self).key == old(self).key,
            final(self).data@ == old(self).data@,
            final(self).size == old(self).size,
            final(self).buf_type == old(self).buf_type,
            final(self).state == old(self).state,
            final(self).access_count == old(self).access_count,
            final(self).dirty == old(self).dirty,
    {
        if self.ref_count == 0 {
            return 0;
        }
        self.ref_count = self.ref_count - 1;
        self.ref_count
    }
}

/// Cache counters.
#[derive(Debug, Clone, Copy)]
pub struct HvArcStats {
    pub hits: u64,
    pub misses: u64,
    pub mru_hits: u64,
    pub mfu_hits: u64,
    pub ghost_hits: u64,
    pub evicts: u64,
    pub size: u64,
    pub mru_size: u64,
    pub mfu_size: u64,
    pub ghost_mru_size: u64,
    pub ghost_mfu_size: u64,
    pub data_size: u64,
    pub meta_size: u64,
}

/// Every counter zero.
pub open spec fn arc_stats_zero(s: HvArcStats) -> bool {
    &&& s.hits == 0 && s.misses == 0 && s.mru_hits == 0 && s.mfu_hits == 0 && s.ghost_hits == 0
    &&& s.evicts == 0 && s.size == 0 && s.mru_size == 0 && s.mfu_size == 0
    &&& s.ghost_mru_size == 0 && s.ghost_mfu_size == 0 && s.data_size == 0 && s.meta_size == 0
}

impl HvArcStats {
    /// All counters zero.
    pub fn new() -> (s: Self)
        ensures
            arc_stats_zero(s),
    {
        HvArcStats {
            hits: 0,
            misses: 0,
            mru_hits: 0,
            mfu_hits: 0,
            ghost_hits: 0,
            evicts: 0,
            size: 0,
            mru_size: 0,
            mfu_size: 0,
            ghost_mru_size: 0,
            ghost_mfu_size: 0,
            data_size: 0,
            meta_size: 0,
        }
    }
}

/// The cache.
pub struct HvArc {
    pub buffers: Vec<Option<HvArcBuf>>,
    pub mru: VecDeque<usize>,
    pub mfu: VecDeque<usize>,
    pub ghost_mru: VecDeque<HvArcKey>,
    pub ghost_mfu: VecDeque<HvArcKey>,
    pub max_size: usize,
    pub p: usize,
    pub stats: HvArcStats,
    pub initialized: bool,
}

/// Slot `i` of `b` holds a buffer for `key`.
pub open spec fn slot_has_key(b: Seq<Option<HvArcBuf>>, i: int, key: HvArcKey) -> bool {
    0 <= i < b.len() && b[i] is Some && b[i].unwrap().key == key
}

/// Slot `i` of `b` holds a buffer in state `st`.
pub open spec fn slot_in_state(b: Seq<Option<HvArcBuf>>, i: int, st: HvArcState) -> bool {
    0 <= i < b.len() && b[i] is Some && b[i].unwrap().state == st
}

impl HvArc {
    /// Structural invariant: bounds, list membership matching buffer states,
    /// no slot listed twice, and no key cached twice.
    pub open spec fn wf(&self) -> bool {
        &&& 1 <= self.max_size <= HV_ARC_MAX_SIZE
        &&& self.p <= self.max_size
        &&& self.ghost_mru@.len() <= self.max_size
        &&& self.ghost_mfu@.len() <= self.max_size
        &&& self.mru@.len() + self.mfu@.len() <= self.max_size
        &&& self.mru@.no_duplicates()
        &&& self.mfu@.no_duplicates()
        &&& forall|k: int| 0 <= k < self.mru@.len() ==> slot_in_state(self.buffers@, #[trigger] self.mru@[k] as int, HvArcState::Mru)
        &&& forall|k: int| 0 <= k < self.mfu@.len() ==> slot_in_state(self.buffers@, #[trigger] self.mfu@[k] as int, HvArcState::Mfu)
        &&& forall|i: int| 0 <= i < self.buffers@.len() && #[trigger] self.buffers@[i] is Some ==> {
            ||| (self.buffers@[i].unwrap().state == HvArcState::Mru && self.mru@.contains(i as usize))
            ||| (self.buffers@[i].unwrap().state == HvArcState::Mfu && self.mfu@.contains(i as usize))
        }
        &&& forall|i: int, j: int| #![trigger self.buffers@[i], self.buffers@[j]]
            0 <= i < self.buffers@.len() && 0 <= j < self.buffers@.len() && i != j
            && self.buffers@[i] is Some && self.buffers@[j] is Some
            ==> self.buffers@[i].unwrap().key != self.buffers@[j].unwrap().key
    }

    /// Some slot caches `key`.
    pub open spec fn cached(&self, key: HvArcKey) -> bool {
        exists|i: int| slot_has_key(self.buffers@, i, key)
    }

    /// The key of the buffer that making room evicts: the oldest of the MRU
    /// list when that list holds more than the target `p`, else the oldest
    /// of the MFU list.
    pub open spec fn victim_key(&self) -> HvArcKey {
        let slot = if self.mru@.len() > self.p { self.mru@[0] } else { self.mfu@[0] };
        self.buffers@[slot as int].unwrap().key
    }

    /// The slot caching `key` (meaningful when `cached(key)`).
    pub open spec fn slot_of(&self, key: HvArcKey) -> int {
        choose|i: int| slot_has_key(self.buffers@, i, key)
    }

    /// Bytes held by the buffer cached for `key`; 0 when none is.
    pub open spec fn cached_bytes(&self, key: HvArcKey) -> u64 {
        if self.cached(key) {
            self.buffers@[self.slot_of(key)].unwrap().data@.len() as u64
        } else {
            0
        }
    }

    /// The slot that making room empties (see `victim_key`).
    pub open spec fn victim_slot(&self) -> int {
        (if self.mru@.len() > self.p { self.mru@[0] } else { self.mfu@[0] }) as int
    }

    /// The counters after the victim is evicted: one more eviction, and its
    /// recorded size taken off the total and off its list's size.
    pub open spec fn stats_after_evict(&self) -> HvArcStats {
        let vb = self.buffers@[self.victim_slot()].unwrap().size as u64;
        let st = self.stats;
        if self.mru@.len() > self.p {
            HvArcStats {
                mru_size: st.mru_size.wrapping_sub(vb),
                size: st.size.wrapping_sub(vb),
                evicts: st.evicts.wrapping_add(1),
                ..st
            }
        } else {
            HvArcStats {
                mfu_size: st.mfu_size.wrapping_sub(vb),
                size: st.size.wrapping_sub(vb),
                evicts: st.evicts.wrapping_add(1),
                ..st
            }
        }
    }

    /// The counters after `insert(key, ..)` of `n` bytes of type `t`: the
    /// bytes of the buffer it replaces are taken off the total, an eviction
    /// is counted when the cache was full without `key`, and the new bytes
    /// are added to the total, to the MRU size and to their type's size.
    pub open spec fn stats_after_insert(&self, key: HvArcKey, n: u64, t: HvArcBufType) -> HvArcStats {
        let removed = HvArcStats { size: self.stats.size.wrapping_sub(self.cached_bytes(key)), ..self.stats };
        let st = if !self.cached(key) && self.total() >= self.max_size { self.stats_after_evict() } else { removed };
        HvArcStats {
            size: st.size.wrapping_add(n),
            mru_size: st.mru_size.wrapping_add(n),
            data_size: if t == HvArcBufType::Data { st.data_size.wrapping_add(n) } else { st.data_size },
            meta_size: if t == HvArcBufType::Metadata { st.meta_size.wrapping_add(n) } else { st.meta_size },
            ..st
        }
    }

    /// Number of cached buffers after `insert(key, ..)`: one more, unless
    /// `key` was cached already or a buffer had to be evicted for it.
    pub open spec fn total_after_insert(&self, key: HvArcKey) -> int {
        if self.cached(key) || self.total() >= self.max_size { self.total() } else { self.total() + 1 }
    }

    /// Number of cached buffers.
    pub open spec fn total(&self) -> int {
        (self.mru@.len() + self.mfu@.len()) as int
    }

    /// An insert of `key` would never finish: the target `p` is the whole
    /// cache, the MFU list is empty and the MRU list fills the cache, so
    /// eviction finds no list to take from.
    pub open spec fn insert_stalls(&self, key: HvArcKey) -> bool {
        &&& self.p == self.max_size
        &&& self.mfu@.len() == 0
        &&& self.mru@.len() == self.max_size
        &&& !self.cached(key)
    }

    /// An empty, uninitialized cache with the default capacity.
    pub fn new() -> (a: Self)
        ensures
            a.wf(),
            !a.initialized,
            a.max_size == HV_ARC_DEFAULT_SIZE,
            a.p == 0,
            a.buffers@.len() == 0,
            a.total() == 0,
            arc_stats_zero(a.stats),
    {
        HvArc {
            buffers: Vec::new(),
            mru: VecDeque::new(),
            mfu: VecDeque::new(),
            ghost_mru: VecDeque::new(),
            ghost_mfu: VecDeque::new(),
            max_size: HV_ARC_DEFAULT_SIZE,
            p: 0,
            stats: HvArcStats::new(),
            initialized: false,
        }
    }

    /// Empties the cache and sets its capacity (0 means the default; capped
    /// at `HV_ARC_MAX_SIZE`); the target `p` becomes half the capacity.
    /// Counters are kept.
    pub fn init(&mut self, max_size: usize)
        ensures
            final(self).wf(),
            final(self).initialized,
            final(self).max_size == (if max_size == 0 {
                HV_ARC_DEFAULT_SIZE
            } else if max_size < HV_ARC_MAX_SIZE {
                max_size
            } else {
                HV_ARC_MAX_SIZE
            }),
            final(self).p == final(self).max_size / 2,
            final(self).buffers@.len() == 0,
            final(self).mru@.len() == 0,
            final(self).mfu@.len() == 0,
            final(self).ghost_mru@.len() == 0,
            final(self).ghost_mfu@.len() == 0,
            final(self).stats == old(self).stats,
    {
        let max = if max_size == 0 {
            HV_ARC_DEFAULT_SIZE
        } else if max_size < HV_ARC_MAX_SIZE {
            max_size
        } else {
            HV_ARC_MAX_SIZE
        };
        self.max_size = max;
        self.buffers.clear();
        self.mru.clear();
        self.mfu.clear();
        self.ghost_mru.clear();
        self.ghost_mfu.clear();
        self.p = max / 2;
        self.initialized = true;
    }

    /// Slot caching `key`.
    fn find_slot(&self, key: &HvArcKey) -> (r: Option<usize>)
        ensures
            r is None <==> !self.cached(*key),
            r matches Some(i) ==> slot_has_key(self.buffers@, i as int, *key),
    {
        let mut i: usize = 0;
        while i < self.buffers.len()
            invariant
                0 <= i <= self.buffers@.len(),
                forall|j: int| 0 <= j < i ==> !slot_has_key(self.buffers@, j, *key),
            decreases self.buffers@.len() - i,
        {
            match &self.buffers[i] {
                Some(b) => {
                    if b.key.same(key) {
                        proof {
                            assert(slot_has_key(self.buffers@, i as int, *key));
                        }
                        return Some(i);
                    }
                },
                None => {},
            }
            i += 1;
        }
        proof {
            if self.cached(*key) {
                let j = choose|j: int| slot_has_key(self.buffers@, j, *key);
                assert(!slot_has_key(self.buffers@, j, *key));
            }
        }
        None
    }

    /// Position of `x` in `v`.
    fn position_of(v: &VecDeque<usize>, x: usize) -> (r: Option<usize>)
        ensures
            r is None <==> !v@.contains(x),
            r matches Some(k) ==> k < v@.len() && v@[k as int] == x,
    {
        let mut k: usize = 0;
        while k < v.len()
            invariant
                0 <= k <= v@.len(),
                forall|j: int| 0 <= j < k ==> v@[j] != x,
            decreases v@.len() - k,
        {
            if v[k] == x {
                return Some(k);
            }
            k += 1;
        }
        None
    }

    /// Position of `key` in a ghost list.
    fn ghost_position(v: &VecDeque<HvArcKey>, key: &HvArcKey) -> (r: Option<usize>)
        ensures
            r is None <==> !v@.contains(*key),
            r matches Some(k) ==> k < v@.len() && v@[k as int] == *key
                && forall|j: int| 0 <= j < k ==> v@[j] != *key,
    {
        let mut k: usize = 0;
        while k < v.len()
            invariant
                0 <= k <= v@.len(),
                forall|j: int| 0 <= j < k ==> v@[j] != *key,
            decreases v@.len() - k,
        {
            if v[k].same(key) {
                return Some(k);
            }
            k += 1;
        }
        None
    }

    /// Looks `key` up. A hit takes a reference, counts an access, moves an
    /// MRU buffer to the MFU list and returns the slot. A miss counts a miss
    /// and, when the key is remembered in a ghost list, forgets it there and
    /// moves the target `p` (up for the MRU ghost, down for the MFU ghost).
    pub fn lookup(&mut self, key: &HvArcKey) -> (r: Option<usize>)
        requires
            old(self).wf(),
        ensures
            final(self).wf(),
            r is Some <==> old(self).cached(*key),
            final(self).max_size == old(self).max_size,
            final(self).initialized == old(self).initialized,
            final(self).buffers@.len() == old(self).buffers@.len(),
            forall|k: HvArcKey| final(self).cached(k) == old(self).cached(k),
            final(self).stats.evicts == old(self).stats.evicts,
            final(self).stats.size == old(self).stats.size,
            r matches Some(i) ==> {
                let ob = old(self).buffers@[i as int].unwrap();
                let nb = final(self).buffers@[i as int].unwrap();
                &&& slot_has_key(old(self).buffers@, i as int, *key)
                &&& slot_has_key(final(self).buffers@, i as int, *key)
                &&& nb.data@ == ob.data@
                &&& nb.state == HvArcState::Mfu
                &&& nb.ref_count == ob.ref_count.wrapping_add(1)
                &&& nb.access_count == ob.access_count.wrapping_add(1)
                &&& forall|j: int| 0 <= j < old(self).buffers@.len() && j != i
                    ==> final(self).buffers@[j] == old(self).buffers@[j]
                &&& final(self).stats.hits == old(self).stats.hits.wrapping_add(1)
                &&& final(self).stats.misses == old(self).stats.misses
                &&& final(self).p == old(self).p
                &&& final(self).ghost_mru@ == old(self).ghost_mru@
                &&& final(self).ghost_mfu@ == old(self).ghost_mfu@
                &&& ob.state == HvArcState::Mru ==> {
                    &&& final(self).mru@ == old(self).mru@.remove(old(self).mru@.index_of(i))
                    &&& final(self).mfu@ == old(self).mfu@.push(i)
                    &&& final(self).stats.mru_hits == old(self).stats.mru_hits.wrapping_add(1)
                }
                &&& ob.state == HvArcState::Mfu ==> {
                    &&& final(self).mru@ == old(self).mru@
                    &&& final(self).mfu@ == old(self).mfu@
                    &&& final(self).stats.mfu_hits == old(self).stats.mfu_hits.wrapping_add(1)
                }
            },
            r is None ==> {
                &&& final(self).buffers@ == old(self).buffers@
                &&& final(self).mru@ == old(self).mru@
                &&& final(self).mfu@ == old(self).mfu@
                &&& final(self).stats.hits == old(self).stats.hits
                &&& final(self).stats.misses == old(self).stats.misses.wrapping_add(1)
                &&& old(self).ghost_mru@.contains(*key) ==> {
                    let g = old(self).ghost_mru@.remove(first_index(old(self).ghost_mru@, *key));
                    let d = if old(self).mru@.len() + g.len() > 0 {
                        (old(self).max_size * g.len()) as int / (old(self).mru@.len() + g.len()) as int
                    } else {
                        1
                    };
                    &&& final(self).ghost_mru@ == g
                    &&& final(self).ghost_mfu@ == old(self).ghost_mfu@
                    &&& final(self).p == (if old(self).p + d < old(self).max_size { old(self).p + d } else { old(self).max_size as int })
                    &&& final(self).stats.ghost_hits == old(self).stats.ghost_hits.wrapping_add(1)
                }
                &&& !old(self).ghost_mru@.contains(*key) && old(self).ghost_mfu@.contains(*key) ==> {
                    let g = old(self).ghost_mfu@.remove(first_index(old(self).ghost_mfu@, *key));
                    let d = if old(self).mfu@.len() + g.len() > 0 {
                        (old(self).max_size * g.len()) as int / (old(self).mfu@.len() + g.len()) as int
                    } else {
                        1
                    };
                    &&& final(self).ghost_mfu@ == g
                    &&& final(self).ghost_mru@ == old(self).ghost_mru@
                    &&& final(self).p == (if old(self).p >= d { old(self).p - d } else { 0 })
                    &&& final(self).stats.ghost_hits == old(self).stats.ghost_hits.wrapping_add(1)
                }
                &&& !old(self).ghost_mru@.contains(*key) && !old(self).ghost_mfu@.contains(*key) ==> {
                    &&& final(self).ghost_mru@ == old(self).ghost_mru@
                    &&& final(self).ghost_mfu@ == old(self).ghost_mfu@
                    &&& final(self).p == old(self).p
                    &&& final(self).stats.ghost_hits == old(self).stats.ghost_hits
                }
            },
    {
        match self.find_slot(key) {
            Some(idx) => {
                let ghost old_self = *self;
                self.stats.hits = self.stats.hits.wrapping_add(1);
                let st = match &self.buffers[idx] {
                    Some(b) => b.state,
                    None => HvArcState::Anon,
                };
                if st == HvArcState::Mru {
                    self.stats.mru_hits = self.stats.mru_hits.wrapping_add(1);
                } else if st == HvArcState::Mfu {
                    self.stats.mfu_hits = self.stats.mfu_hits.wrapping_add(1);
                }
                let mut slot: Option<HvArcBuf> = None;
                self.buffers.set_and_swap(idx, &mut slot);
                let mut b = match slot {
                    Some(b) => b,
                    None => {
                        proof {
                            assert(false);
                        }
                        return None;
                    },
                };
                b.access_count = b.access_count.wrapping_add(1);
                let promote = b.state == HvArcState::Mru;
                if promote {
                    b.state = HvArcState::Mfu;
                }
                b.add_ref();
                let mut slot2 = Some(b);
                self.buffers.set_and_swap(idx, &mut slot2);
                if promote {
                    match Self::position_of(&self.mru, idx) {
                        Some(pos) => {
                            proof {
                                assert(old_self.mru@.contains(idx));
                                assert(self.mru@.index_of(idx) == pos as int) by {
                                    self.mru@.index_of_first_ensures(idx);
                                    let f = self.mru@.index_of(idx);
                                    assert(self.mru@[f] == idx);
                                };
                            }
                            self.mru.remove(pos);
                        },
                        None => {},
                    }
                    self.mfu.push_back(idx);
                }
                let blen = self.buffers.len();
                proof {
                    self.lemma_lookup_hit_wf(old_self, idx, *key);
                }
                Some(idx)
            },
            None => {
                let ghost old_self = *self;
                match Self::ghost_position(&self.ghost_mru, key) {
                    Some(pos) => {
                        proof {
                            lemma_first_index(self.ghost_mru@, *key, pos as int);
                        }
                        self.ghost_mru.remove(pos);
                        let denom = self.mru.len() + self.ghost_mru.len();
                        proof {
                            let m = self.max_size;
                            let g = self.ghost_mru@.len();
                            assert(m * g <= 4096 * 4096) by (nonlinear_arith)
                                requires
                                    m <= 4096,
                                    g <= 4096,
                            ;
                        }
                        let delta = if denom > 0 { (self.max_size * self.ghost_mru.len()) / denom } else { 1 };
                        proof {
                            lemma_scaled_share(self.max_size as int, self.ghost_mru@.len() as int, denom as int);
                        }
                        self.p = if self.p + delta < self.max_size { self.p + delta } else { self.max_size };
                        self.stats.ghost_hits = self.stats.ghost_hits.wrapping_add(1);
                    },
                    None => {
                        match Self::ghost_position(&self.ghost_mfu, key) {
                            Some(pos) => {
                                proof {
                                    lemma_first_index(self.ghost_mfu@, *key, pos as int);
                                }
                                self.ghost_mfu.remove(pos);
                                let denom = self.mfu.len() + self.ghost_mfu.len();
                                proof {
                                    let m = self.max_size;
                                    let g = self.ghost_mfu@.len();
                                    assert(m * g <= 4096 * 4096) by (nonlinear_arith)
                                        requires
                                            m <= 4096,
                                            g <= 4096,
                                    ;
                                }
                                let delta = if denom > 0 { (self.max_size * self.ghost_mfu.len()) / denom } else { 1 };
                                proof {
                                    lemma_scaled_share(self.max_size as int, self.ghost_mfu@.len() as int, denom as int);
                                }
                                self.p = if self.p >= delta { self.p - delta } else { 0 };
                                self.stats.ghost_hits = self.stats.ghost_hits.wrapping_add(1);
                            },
                            None => {},
                        }
                    },
                }
                self.stats.misses = self.stats.misses.wrapping_add(1);
                None
            },
        }
    }

    /// The invariant survives a hit.
    proof fn lemma_lookup_hit_wf(&self, old_self: HvArc, idx: usize, key: HvArcKey)
        requires
            old_self.wf(),
            slot_has_key(old_self.buffers@, idx as int, key),
            self.buffers@.len() == old_self.buffers@.len(),
            forall|j: int| 0 <= j < self.buffers@.len() && j != idx ==> self.buffers@[j] == old_self.buffers@[j],
            self.buffers@[idx as int] is Some,
            self.buffers@[idx as int].unwrap().key == key,
            self.buffers@[idx as int].unwrap().state == HvArcState::Mfu,
            old_self.buffers@[idx as int].unwrap().state == HvArcState::Mru ==> {
                &&& self.mru@ == old_self.mru@.remove(old_self.mru@.index_of(idx))
                &&& self.mfu@ == old_self.mfu@.push(idx)
            },
            old_self.buffers@[idx as int].unwrap().state != HvArcState::Mru ==> {
                &&& self.mru@ == old_self.mru@
                &&& self.mfu@ == old_self.mfu@
            },
            self.max_size == old_self.max_size,
            self.p == old_self.p,
            self.ghost_mru@ == old_self.ghost_mru@,
            self.ghost_mfu@ == old_self.ghost_mfu@,
            self.buffers@.len() <= usize::MAX,
        ensures
            self.wf(),
            forall|k: HvArcKey| self.cached(k) == old_self.cached(k),
    {
        let ob = old_self.buffers@[idx as int].unwrap();
        assert(ob.state == HvArcState::Mru || ob.state == HvArcState::Mfu);
        if ob.state == HvArcState::Mru {
            let pos = old_self.mru@.index_of(idx);
            old_self.mru@.index_of_first_ensures(idx);
            assert(old_self.mru@.contains(idx));
            assert(!old_self.mfu@.contains(idx)) by {
                if old_self.mfu@.contains(idx) {
                    let k = choose|k: int| 0 <= k < old_self.mfu@.len() && old_self.mfu@[k] == idx;
                    assert(slot_in_state(old_self.buffers@, old_self.mfu@[k] as int, HvArcState::Mfu));
                }
            }
            assert(self.mru@.no_duplicates()) by {
                assert forall|a: int, b: int| 0 <= a < self.mru@.len() && 0 <= b < self.mru@.len() && a != b
                    implies self.mru@[a] != self.mru@[b] by {
                    let a2 = if a < pos { a } else { a + 1 };
                    let b2 = if b < pos { b } else { b + 1 };
                    assert(self.mru@[a] == old_self.mru@[a2]);
                    assert(self.mru@[b] == old_self.mru@[b2]);
                }
            }
            assert forall|k: int| 0 <= k < self.mru@.len() implies slot_in_state(self.buffers@, #[trigger] self.mru@[k] as int, HvArcState::Mru) by {
                let k2 = if k < pos { k } else { k + 1 };
                assert(self.mru@[k] == old_self.mru@[k2]);
                assert(slot_in_state(old_self.buffers@, old_self.mru@[k2] as int, HvArcState::Mru));
                assert(old_self.mru@[k2] != idx);
            }
            assert forall|k: int| 0 <= k < self.mfu@.len() implies slot_in_state(self.buffers@, #[trigger] self.mfu@[k] as int, HvArcState::Mfu) by {
                if k < old_self.mfu@.len() {
                    assert(self.mfu@[k] == old_self.mfu@[k]);
                    assert(slot_in_state(old_self.buffers@, old_self.mfu@[k] as int, HvArcState::Mfu));
                }
            }
            assert(self.mfu@.no_duplicates()) by {
                assert forall|a: int, b: int| 0 <= a < self.mfu@.len() && 0 <= b < self.mfu@.len() && a != b
                    implies self.mfu@[a] != self.mfu@[b] by {
                    if a < old_self.mfu@.len() && b < old_self.mfu@.len() {
                    } else if a < old_self.mfu@.len() {
                        assert(old_self.mfu@.contains(self.mfu@[a]));
                    } else if b < old_self.mfu@.len() {
                        assert(old_self.mfu@.contains(self.mfu@[b]));
                    }
                }
            }
            assert forall|i: int| 0 <= i < self.buffers@.len() && #[trigger] self.buffers@[i] is Some implies {
                ||| (self.buffers@[i].unwrap().state == HvArcState::Mru && self.mru@.contains(i as usize))
                ||| (self.buffers@[i].unwrap().state == HvArcState::Mfu && self.mfu@.contains(i as usize))
            } by {
                if i == idx {
                    assert(self.mfu@[self.mfu@.len() - 1] == idx);
                } else {
                    assert(self.buffers@[i] == old_self.buffers@[i]);
                    if old_self.mru@.contains(i as usize) && old_self.buffers@[i].unwrap().state == HvArcState::Mru {
                        let k = choose|k: int| 0 <= k < old_self.mru@.len() && old_self.mru@[k] == i as usize;
                        assert(old_self.mru@[pos] == idx);
                        assert((i as usize) as int == i);
                        assert(k != pos);
                        let k2 = if k < pos { k } else { k - 1 };
                        assert(self.mru@[k2] == i as usize);
                    } else {
                        let k = choose|k: int| 0 <= k < old_self.mfu@.len() && old_self.mfu@[k] == i as usize;
                        assert(self.mfu@[k] == i as usize);
                    }
                }
            }
        } else {
            assert forall|k: int| 0 <= k < self.mru@.len() implies slot_in_state(self.buffers@, #[trigger] self.mru@[k] as int, HvArcState::Mru) by {
                assert(slot_in_state(old_self.buffers@, old_self.mru@[k] as int, HvArcState::Mru));
                assert(old_self.mru@[k] != idx);
            }
            assert forall|k: int| 0 <= k < self.mfu@.len() implies slot_in_state(self.buffers@, #[trigger] self.mfu@[k] as int, HvArcState::Mfu) by {
                assert(slot_in_state(old_self.buffers@, old_self.mfu@[k] as int, HvArcState::Mfu));
            }
            assert forall|i: int| 0 <= i < self.buffers@.len() && #[trigger] self.buffers@[i] is Some implies {
                ||| (self.buffers@[i].unwrap().state == HvArcState::Mru && self.mru@.contains(i as usize))
                ||| (self.buffers@[i].unwrap().state == HvArcState::Mfu && self.mfu@.contains(i as usize))
            } by {
                if i != idx {
                    assert(self.buffers@[i] == old_self.buffers@[i]);
                } else {
                    assert(old_self.buffers@[i] is Some);
                }
            }
        }
        assert forall|i: int, j: int| #![trigger self.buffers@[i], self.buffers@[j]]
            0 <= i < self.buffers@.len() && 0 <= j < self.buffers@.len() && i != j
            && self.buffers@[i] is Some && self.buffers@[j] is Some
            implies self.buffers@[i].unwrap().key != self.buffers@[j].unwrap().key by {
            assert(old_self.buffers@[i] is Some && old_self.buffers@[j] is Some);
            assert(old_self.buffers@[i].unwrap().key != old_self.buffers@[j].unwrap().key);
        }
        assert forall|k: HvArcKey| self.cached(k) == old_self.cached(k) by {
            if self.cached(k) {
                let j = choose|j: int| slot_has_key(self.buffers@, j, k);
                assert(slot_has_key(old_self.buffers@, j, k));
            }
            if old_self.cached(k) {
                let j = choose|j: int| slot_has_key(old_self.buffers@, j, k);
                assert(slot_has_key(self.buffers@, j, k));
            }
        }
    }


    /// Drops `idx` from a list of slots that holds it at most once.
    fn drop_from_list(v: &mut VecDeque<usize>, idx: usize)
        requires
            old(v)@.no_duplicates(),
        ensures
            old(v)@.contains(idx) ==> final(v)@ == old(v)@.remove(old(v)@.index_of(idx)),
            !old(v)@.contains(idx) ==> final(v)@ == old(v)@,
    {
        match Self::position_of(v, idx) {
            Some(pos) => {
                proof {
                    lemma_index_of_nodup(v@, idx, pos as int);
                }
                v.remove(pos);
            },
            None => {},
        }
    }

    /// Whether an insert of `key` would never finish (see `insert_stalls`).
    pub fn would_stall(&self, key: &HvArcKey) -> (r: bool)
        ensures
            r == self.insert_stalls(*key),
    {
        self.p == self.max_size && self.mfu.len() == 0 && self.mru.len() == self.max_size
            && self.find_slot(key).is_none()
    }

    /// Forgets the buffer cached for `key`, if any.
    fn remove_key(&mut self, key: &HvArcKey)
        requires
            old(self).wf(),
        ensures
            final(self).wf(),
            forall|k: HvArcKey| final(self).cached(k) == (old(self).cached(k) && k != *key),
            final(self).total() == (if old(self).cached(*key) { old(self).total() - 1 } else { old(self).total() }),
            final(self).buffers@.len() == old(self).buffers@.len(),
            final(self).max_size == old(self).max_size,
            final(self).p == old(self).p,
            final(self).initialized == old(self).initialized,
            final(self).ghost_mru@ == old(self).ghost_mru@,
            final(self).ghost_mfu@ == old(self).ghost_mfu@,
            final(self).stats == (HvArcStats {
                size: old(self).stats.size.wrapping_sub(old(self).cached_bytes(*key)),
                ..old(self).stats
            }),
            !old(self).cached(*key) ==> final(self).buffers@ == old(self).buffers@ && final(self).mru@ == old(self).mru@
                && final(self).mfu@ == old(self).mfu@,
            old(self).cached(*key) ==> final(self).buffers@ == old(self).buffers@.update(old(self).slot_of(*key), None),
    {
        match self.find_slot(key) {
            Some(idx) => {
                let ghost old_self = *self;
                let blen = self.buffers.len();
                let mut slot: Option<HvArcBuf> = None;
                self.buffers.set_and_swap(idx, &mut slot);
                let size = match &slot {
                    Some(b) => b.data.len(),
                    None => 0,
                };
                proof {
                    assert(old_self.slot_of(*key) == idx as int) by {
                        let j = old_self.slot_of(*key);
                        assert(slot_has_key(old_self.buffers@, j, *key));
                        assert(slot_has_key(old_self.buffers@, idx as int, *key));
                    }
                }
                self.stats.size = self.stats.size.wrapping_sub(size as u64);
                Self::drop_from_list(&mut self.mru, idx);
                Self::drop_from_list(&mut self.mfu, idx);
                proof {
                    assert(self.buffers@ == old_self.buffers@.update(idx as int, None));
                    self.lemma_clear_slot(old_self, idx as int);
                }
            },
            None => {},
        }
    }

    /// Makes room for one more buffer: while the cache is full, evicts the
    /// front of the MRU list when it is longer than the target `p`, else the
    /// front of the MFU list, remembering the evicted key in the matching
    /// ghost list (each ghost list keeps at most `max_size` keys).
    fn evict_if_needed(&mut self)
        requires
            old(self).wf(),
            !(old(self).p == old(self).max_size && old(self).mfu@.len() == 0
                && old(self).mru@.len() >= old(self).max_size),
        ensures
            final(self).wf(),
            final(self).total() < final(self).max_size,
            forall|k: HvArcKey| final(self).cached(k) ==> old(self).cached(k),
            old(self).total() < old(self).max_size ==> final(self).buffers@ == old(self).buffers@
                && final(self).mru@ == old(self).mru@ && final(self).mfu@ == old(self).mfu@,
            old(self).total() >= old(self).max_size ==> final(self).total() == old(self).total() - 1,
            old(self).total() >= old(self).max_size ==> forall|k: HvArcKey| final(self).cached(k)
                == (old(self).cached(k) && k != old(self).victim_key()),
            old(self).total() >= old(self).max_size ==> final(self).stats == old(self).stats_after_evict(),
            old(self).total() >= old(self).max_size
                ==> final(self).buffers@ == old(self).buffers@.update(old(self).victim_slot(), None),
            old(self).total() < old(self).max_size ==> final(self).stats == old(self).stats,
            final(self).buffers@.len() == old(self).buffers@.len(),
            final(self).max_size == old(self).max_size,
            final(self).p == old(self).p,
            final(self).initialized == old(self).initialized,
    {
        let ghost start = *self;
        while self.mru.len() + self.mfu.len() + 1 > self.max_size
            invariant
                self.wf(),
                forall|k: HvArcKey| self.cached(k) ==> start.cached(k),
                self.total() <= start.total(),
                self.total() == start.total() ==> self.buffers@ == start.buffers@
                    && self.mru@ == start.mru@ && self.mfu@ == start.mfu@,
                self.total() < start.total() ==> self.total() == start.total() - 1,
                self.total() < start.total() ==> forall|k: HvArcKey| self.cached(k)
                    == (start.cached(k) && k != start.victim_key()),
                start.total() <= start.max_size,
                self.total() == start.total() ==> self.stats == start.stats,
                self.total() < start.total() ==> self.stats == start.stats_after_evict(),
                self.total() < start.total() ==> self.buffers@ == start.buffers@.update(start.victim_slot(), None),
                start.total() < start.max_size ==> self.total() == start.total(),
                self.buffers@.len() == start.buffers@.len(),
                self.max_size == start.max_size,
                self.p == start.p,
                self.initialized == start.initialized,
                !(start.p == start.max_size && start.mfu@.len() == 0 && start.mru@.len() >= start.max_size),
            decreases self.total(),
        {
            let ghost old_self = *self;
            let blen = self.buffers.len();
            if self.mru.len() > self.p {
                let idx = self.mru[0];
                proof {
                    assert(slot_in_state(self.buffers@, self.mru@[0] as int, HvArcState::Mru));
                    lemma_index_of_nodup(self.mru@, idx, 0);
                }
                self.mru.remove(0);
                let mut slot: Option<HvArcBuf> = None;
                self.buffers.set_and_swap(idx, &mut slot);
                let ghost mid = *self;
                match slot {
                    Some(b) => {
                        self.ghost_mru.push_back(b.key);
                        self.stats.mru_size = self.stats.mru_size.wrapping_sub(b.size as u64);
                        self.stats.size = self.stats.size.wrapping_sub(b.size as u64);
                        self.stats.evicts = self.stats.evicts.wrapping_add(1);
                    },
                    None => {},
                }
                if self.ghost_mru.len() > self.max_size {
                    self.ghost_mru.remove(0);
                }
                proof {
                    assert(self.buffers@ == old_self.buffers@.update(idx as int, None));
                    assert(!old_self.mfu@.contains(idx)) by {
                        if old_self.mfu@.contains(idx) {
                            let a = choose|a: int| 0 <= a < old_self.mfu@.len() && old_self.mfu@[a] == idx;
                            assert(slot_in_state(old_self.buffers@, old_self.mfu@[a] as int, HvArcState::Mfu));
                        }
                    }
                    self.lemma_clear_slot(old_self, idx as int);
                }
            } else if self.mfu.len() > 0 {
                let idx = self.mfu[0];
                proof {
                    assert(slot_in_state(self.buffers@, self.mfu@[0] as int, HvArcState::Mfu));
                    lemma_index_of_nodup(self.mfu@, idx, 0);
                }
                self.mfu.remove(0);
                let mut slot: Option<HvArcBuf> = None;
                self.buffers.set_and_swap(idx, &mut slot);
                match slot {
                    Some(b) => {
                        self.ghost_mfu.push_back(b.key);
                        self.stats.mfu_size = self.stats.mfu_size.wrapping_sub(b.size as u64);
                        self.stats.size = self.stats.size.wrapping_sub(b.size as u64);
                        self.stats.evicts = self.stats.evicts.wrapping_add(1);
                    },
                    None => {},
                }
                if self.ghost_mfu.len() > self.max_size {
                    self.ghost_mfu.remove(0);
                }
                proof {
                    assert(self.buffers@ == old_self.buffers@.update(idx as int, None));
                    assert(!old_self.mru@.contains(idx)) by {
                        if old_self.mru@.contains(idx) {
                            let a = choose|a: int| 0 <= a < old_self.mru@.len() && old_self.mru@[a] == idx;
                            assert(slot_in_state(old_self.buffers@, old_self.mru@[a] as int, HvArcState::Mru));
                        }
                    }
                    self.lemma_clear_slot(old_self, idx as int);
                }
            } else {
                proof {
                    assert(false);
                }
            }
        }
        proof {
            if start.total() >= start.max_size {
                assert(self.total() < start.total());
                assert(start == *old(self));
                assert forall|k: HvArcKey| self.cached(k) == (old(self).cached(k) && k != old(self).victim_key()) by {
                    assert(self.cached(k) == (start.cached(k) && k != start.victim_key()));
                }
            }
        }
    }

    /// First empty slot.
    fn free_slot(&self) -> (r: Option<usize>)
        ensures
            r matches Some(i) ==> i < self.buffers@.len() && self.buffers@[i as int] is None,
            r is None ==> forall|j: int| 0 <= j < self.buffers@.len() ==> self.buffers@[j] is Some,
    {
        let mut i: usize = 0;
        while i < self.buffers.len()
            invariant
                0 <= i <= self.buffers@.len(),
                forall|j: int| 0 <= j < i ==> self.buffers@[j] is Some,
            decreases self.buffers@.len() - i,
        {
            if self.buffers[i].is_none() {
                return Some(i);
            }
            i += 1;
        }
        None
    }

    /// Caches a copy of `data` under `key`, replacing what was cached for
    /// it, after making room. The new buffer is at the back of the MRU list,
    /// in the first empty slot (or a new one), with two references (the
    /// cache's and the caller's); its slot is returned.
    pub fn insert(&mut self, key: HvArcKey, data: &[u8], buf_type: HvArcBufType) -> (r: Option<usize>)
        requires
            old(self).wf(),
            !old(self).insert_stalls(key),
        ensures
            final(self).wf(),
            r is Some,
            r matches Some(i) ==> {
                let b = final(self).buffers@[i as int].unwrap();
                &&& slot_has_key(final(self).buffers@, i as int, key)
                &&& b.data@ == data@
                &&& b.size == data@.len()
                &&& b.buf_type == buf_type
                &&& b.state == HvArcState::Mru
                &&& b.ref_count == 2
                &&& b.access_count == 1
                &&& !b.dirty
                &&& final(self).mru@.last() == i
            },
            forall|k: HvArcKey| final(self).cached(k) ==> (old(self).cached(k) || k == key),
            (if old(self).cached(key) { old(self).total() - 1 } else { old(self).total() }) < old(self).max_size
                ==> forall|k: HvArcKey| old(self).cached(k) ==> final(self).cached(k),
            !old(self).cached(key) && old(self).total() >= old(self).max_size ==> forall|k: HvArcKey|
                final(self).cached(k) == ((old(self).cached(k) && k != old(self).victim_key()) || k == key),
            final(self).max_size == old(self).max_size,
            final(self).p == old(self).p,
            final(self).initialized == old(self).initialized,
            final(self).stats == old(self).stats_after_insert(key, data@.len() as u64, buf_type),
            final(self).total() == old(self).total_after_insert(key),
            final(self).buffers@.len() >= old(self).buffers@.len(),
            r.unwrap() >= old(self).buffers@.len() || old(self).buffers@[r.unwrap() as int] is None
                || (old(self).cached(key) && r.unwrap() == old(self).slot_of(key))
                || (!old(self).cached(key) && old(self).total() >= old(self).max_size && r.unwrap() == old(self).victim_slot()),
            forall|j: int| 0 <= j < old(self).buffers@.len() && j != r.unwrap() as int
                && !(old(self).cached(key) && j == old(self).slot_of(key))
                && !(!old(self).cached(key) && old(self).total() >= old(self).max_size && j == old(self).victim_slot())
                ==> final(self).buffers@[j] == old(self).buffers@[j],
    {
        self.remove_key(&key);
        self.evict_if_needed();
        let ghost before = *self;
        let mut b = HvArcBuf {
            key,
            data: crate::bytes_util::copy_prefix(data, data.len()),
            size: data.len(),
            buf_type,
            state: HvArcState::Mru,
            ref_count: 1,
            access_count: 1,
            dirty: false,
            l2cached: false,
            compressed: false,
        };
        b.add_ref();
        proof {
            assert(b.data@ == data@);
        }
        let ghost gb = b;
        let idx = match self.free_slot() {
            Some(i) => {
                let mut slot = Some(b);
                self.buffers.set_and_swap(i, &mut slot);
                i
            },
            None => {
                self.buffers.push(Some(b));
                self.buffers.len() - 1
            },
        };
        self.mru.push_back(idx);
        let n = data.len() as u64;
        self.stats.size = self.stats.size.wrapping_add(n);
        match buf_type {
            HvArcBufType::Data => {
                self.stats.data_size = self.stats.data_size.wrapping_add(n);
            },
            HvArcBufType::Metadata => {
                self.stats.meta_size = self.stats.meta_size.wrapping_add(n);
            },
        }
        self.stats.mru_size = self.stats.mru_size.wrapping_add(n);
        proof {
            self.lemma_fill_slot(before, idx as int, gb);
            assert(slot_has_key(self.buffers@, idx as int, key));
        }
        Some(idx)
    }

    /// Drops one reference on the buffer cached for `key` (never below zero).
    pub fn release(&mut self, key: &HvArcKey)
        requires
            old(self).wf(),
        ensures
            final(self).wf(),
            final(self).buffers@.len() == old(self).buffers@.len(),
            forall|k: HvArcKey| final(self).cached(k) == old(self).cached(k),
            forall|i: int| 0 <= i < old(self).buffers@.len() && !slot_has_key(old(self).buffers@, i, *key)
                ==> final(self).buffers@[i] == old(self).buffers@[i],
            forall|i: int| slot_has_key(old(self).buffers@, i, *key) ==> {
                let ob = old(self).buffers@[i].unwrap();
                let nb = final(self).buffers@[i].unwrap();
                &&& slot_has_key(final(self).buffers@, i, *key)
                &&& nb.ref_count == (if ob.ref_count == 0 { 0 } else { ob.ref_count - 1 })
                &&& nb.data@ == ob.data@
                &&& nb.state == ob.state
                &&& nb.dirty == ob.dirty
                &&& nb.access_count == ob.access_count
            },
            final(self).mru@ == old(self).mru@,
            final(self).mfu@ == old(self).mfu@,
            final(self).max_size == old(self).max_size,
            final(self).p == old(self).p,
            final(self).initialized == old(self).initialized,
            final(self).stats == old(self).stats,
    {
        match self.find_slot(key) {
            Some(idx) => {
                let ghost old_self = *self;
                let mut slot: Option<HvArcBuf> = None;
                self.buffers.set_and_swap(idx, &mut slot);
                match slot {
                    Some(mut b) => {
                        b.release();
                        let mut back = Some(b);
                        self.buffers.set_and_swap(idx, &mut back);
                    },
                    None => {},
                }
                proof {
                    self.lemma_touch_slot(old_self, idx as int);
                    assert forall|i: int| slot_has_key(old_self.buffers@, i, *key) implies i == idx by {
                        if i != idx {
                            assert(old_self.buffers@[i].unwrap().key != old_self.buffers@[idx as int].unwrap().key);
                        }
                    }
                }
            },
            None => {},
        }
    }

    /// Marks the buffer cached for `key` dirty.
    pub fn mark_dirty(&mut self, key: &HvArcKey)
        requires
            old(self).wf(),
        ensures
            final(self).wf(),
            final(self).buffers@.len() == old(self).buffers@.len(),
            forall|k: HvArcKey| final(self).cached(k) == old(self).cached(k),
            forall|i: int| 0 <= i < old(self).buffers@.len() && !slot_has_key(old(self).buffers@, i, *key)
                ==> final(self).buffers@[i] == old(self).buffers@[i],
            forall|i: int| slot_has_key(old(self).buffers@, i, *key) ==> {
                let ob = old(self).buffers@[i].unwrap();
                let nb = final(self).buffers@[i].unwrap();
                &&& slot_has_key(final(self).buffers@, i, *key)
                &&& nb.dirty
                &&& nb.ref_count == ob.ref_count
                &&& nb.data@ == ob.data@
                &&& nb.state == ob.state
                &&& nb.access_count == ob.access_count
            },
            final(self).mru@ == old(self).mru@,
            final(self).mfu@ == old(self).mfu@,
            final(self).max_size == old(self).max_size,
            final(self).p == old(self).p,
            final(self).initialized == old(self).initialized,
            final(self).stats == old(self).stats,
    {
        match self.find_slot(key) {
            Some(idx) => {
                let ghost old_self = *self;
                let mut slot: Option<HvArcBuf> = None;
                self.buffers.set_and_swap(idx, &mut slot);
                match slot {
                    Some(mut b) => {
                        b.dirty = true;
                        let mut back = Some(b);
                        self.buffers.set_and_swap(idx, &mut back);
                    },
                    None => {},
                }
                proof {
                    self.lemma_touch_slot(old_self, idx as int);
                    assert forall|i: int| slot_has_key(old_self.buffers@, i, *key) implies i == idx by {
                        if i != idx {
                            assert(old_self.buffers@[i].unwrap().key != old_self.buffers@[idx as int].unwrap().key);
                        }
                    }
                }
            },
            None => {},
        }
    }

    /// Number of cached buffers marked dirty.
    pub fn flush_dirty(&self) -> (r: usize)
        ensures
            r == count_where(self.buffers@, |o: Option<HvArcBuf>| o is Some && o.unwrap().dirty),
    {
        let mut count: usize = 0;
        let mut i: usize = 0;
        while i < self.buffers.len()
            invariant
                0 <= i <= self.buffers@.len(),
                count == count_where(self.buffers@.take(i as int), |o: Option<HvArcBuf>| o is Some && o.unwrap().dirty),
                count <= i,
            decreases self.buffers@.len() - i,
        {
            proof {
                assert(self.buffers@.take(i as int + 1).drop_last() =~= self.buffers@.take(i as int));
                assert(self.buffers@.take(i as int + 1).last() == self.buffers@[i as int]);
            }
            let d = match &self.buffers[i] {
                Some(b) => b.dirty,
                None => false,
            };
            proof {
                assert(d == (self.buffers@[i as int] is Some && self.buffers@[i as int].unwrap().dirty));
            }
            if d {
                count += 1;
            }
            i += 1;
        }
        proof {
            assert(self.buffers@.take(i as int) =~= self.buffers@);
        }
        count
    }

    /// Looks `key` up as `lookup` does and, on a hit, lends the first `len`
    /// bytes of the buffer (`None` on a miss or when the buffer is shorter).
    /// The reference taken by the hit is the caller's to release.
    pub fn lookup_slice(&mut self, key: &HvArcKey, len: usize) -> (r: Option<&[u8]>)
        requires
            old(self).wf(),
        ensures
            final(self).wf(),
            forall|k: HvArcKey| final(self).cached(k) == old(self).cached(k),
            r is Some ==> old(self).cached(*key),
            r matches Some(s) ==> exists|i: int| slot_has_key(final(self).buffers@, i, *key)
                && s@ == final(self).buffers@[i].unwrap().data@.take(len as int),
            r matches Some(s) ==> exists|i: int| slot_has_key(old(self).buffers@, i, *key)
                && s@ == old(self).buffers@[i].unwrap().data@.take(len as int),
            old(self).cached(*key) && (forall|i: int| slot_has_key(old(self).buffers@, i, *key)
                ==> len <= old(self).buffers@[i].unwrap().data@.len()) ==> r is Some,
    {
        match self.lookup(key) {
            Some(i) => {
                let ghost gi = i as int;
                match &self.buffers[i] {
                    Some(b) => {
                        if len <= b.data.len() {
                            let s = slice_prefix(b.data.as_slice(), len);
                            proof {
                                assert(slot_has_key(self.buffers@, gi, *key));
                                assert(slot_has_key(old(self).buffers@, gi, *key));
                            }
                            Some(s)
                        } else {
                            None
                        }
                    },
                    None => None,
                }
            },
            None => None,
        }
    }

    /// The invariant survives changing a cached buffer in place, keeping its
    /// key and state.
    proof fn lemma_touch_slot(&self, old_self: HvArc, idx: int)
        requires
            old_self.wf(),
            0 <= idx < old_self.buffers@.len(),
            old_self.buffers@[idx] is Some,
            self.buffers@.len() == old_self.buffers@.len(),
            self.buffers@[idx] is Some,
            self.buffers@[idx].unwrap().key == old_self.buffers@[idx].unwrap().key,
            self.buffers@[idx].unwrap().state == old_self.buffers@[idx].unwrap().state,
            forall|j: int| 0 <= j < self.buffers@.len() && j != idx ==> self.buffers@[j] == old_self.buffers@[j],
            self.mru@ == old_self.mru@,
            self.mfu@ == old_self.mfu@,
            self.max_size == old_self.max_size,
            self.p == old_self.p,
            self.ghost_mru@ == old_self.ghost_mru@,
            self.ghost_mfu@ == old_self.ghost_mfu@,
        ensures
            self.wf(),
            forall|k: HvArcKey| self.cached(k) == old_self.cached(k),
    {
        assert forall|k: int| 0 <= k < self.mru@.len() implies slot_in_state(self.buffers@, #[trigger] self.mru@[k] as int, HvArcState::Mru) by {
            assert(slot_in_state(old_self.buffers@, old_self.mru@[k] as int, HvArcState::Mru));
        }
        assert forall|k: int| 0 <= k < self.mfu@.len() implies slot_in_state(self.buffers@, #[trigger] self.mfu@[k] as int, HvArcState::Mfu) by {
            assert(slot_in_state(old_self.buffers@, old_self.mfu@[k] as int, HvArcState::Mfu));
        }
        assert forall|i: int| 0 <= i < self.buffers@.len() && #[trigger] self.buffers@[i] is Some implies {
            ||| (self.buffers@[i].unwrap().state == HvArcState::Mru && self.mru@.contains(i as usize))
            ||| (self.buffers@[i].unwrap().state == HvArcState::Mfu && self.mfu@.contains(i as usize))
        } by {
            assert(old_self.buffers@[i] is Some);
        }
        assert forall|i: int, j: int| #![trigger self.buffers@[i], self.buffers@[j]]
            0 <= i < self.buffers@.len() && 0 <= j < self.buffers@.len() && i != j
            && self.buffers@[i] is Some && self.buffers@[j] is Some
            implies self.buffers@[i].unwrap().key != self.buffers@[j].unwrap().key by {
            assert(old_self.buffers@[i] is Some && old_self.buffers@[j] is Some);
            assert(old_self.buffers@[i].unwrap().key != old_self.buffers@[j].unwrap().key);
        }
        assert forall|k: HvArcKey| self.cached(k) == old_self.cached(k) by {
            if self.cached(k) {
                let j = choose|j: int| slot_has_key(self.buffers@, j, k);
                assert(slot_has_key(old_self.buffers@, j, k));
            }
            if old_self.cached(k) {
                let j = choose|j: int| slot_has_key(old_self.buffers@, j, k);
                assert(slot_has_key(self.buffers@, j, k));
            }
        }
    }

    /// The invariant survives emptying slot `idx` and dropping `idx` from the
    /// list it was on; the key it held is no longer cached.
    proof fn lemma_clear_slot(&self, old_self: HvArc, idx: int)
        requires
            old_self.wf(),
            0 <= idx < old_self.buffers@.len(),
            old_self.buffers@[idx] is Some,
            self.buffers@ == old_self.buffers@.update(idx, None),
            old_self.mru@.contains(idx as usize) ==> self.mru@ == old_self.mru@.remove(old_self.mru@.index_of(idx as usize)),
            !old_self.mru@.contains(idx as usize) ==> self.mru@ == old_self.mru@,
            old_self.mfu@.contains(idx as usize) ==> self.mfu@ == old_self.mfu@.remove(old_self.mfu@.index_of(idx as usize)),
            !old_self.mfu@.contains(idx as usize) ==> self.mfu@ == old_self.mfu@,
            self.max_size == old_self.max_size,
            self.p == old_self.p,
            self.ghost_mru@.len() <= self.max_size,
            self.ghost_mfu@.len() <= self.max_size,
            old_self.buffers@.len() <= usize::MAX,
        ensures
            self.wf(),
            forall|k: HvArcKey| self.cached(k) == (old_self.cached(k) && k != old_self.buffers@[idx].unwrap().key),
            self.total() == old_self.total() - 1,
    {
        let ob = old_self.buffers@[idx].unwrap();
        let u = idx as usize;
        assert(u as int == idx);
        assert(old_self.mru@.contains(u) || old_self.mfu@.contains(u));
        assert(!(old_self.mru@.contains(u) && old_self.mfu@.contains(u))) by {
            if old_self.mru@.contains(u) && old_self.mfu@.contains(u) {
                let a = choose|a: int| 0 <= a < old_self.mru@.len() && old_self.mru@[a] == u;
                let b = choose|b: int| 0 <= b < old_self.mfu@.len() && old_self.mfu@[b] == u;
                assert(slot_in_state(old_self.buffers@, old_self.mru@[a] as int, HvArcState::Mru));
                assert(slot_in_state(old_self.buffers@, old_self.mfu@[b] as int, HvArcState::Mfu));
            }
        }
        if old_self.mru@.contains(u) {
            let pos = old_self.mru@.index_of(u);
            assert(old_self.mru@[pos] == u);
            lemma_remove_keeps_nodup(old_self.mru@, pos);
            assert forall|k: int| 0 <= k < self.mru@.len() implies slot_in_state(self.buffers@, #[trigger] self.mru@[k] as int, HvArcState::Mru) by {
                let k2 = if k < pos { k } else { k + 1 };
                assert(self.mru@[k] == old_self.mru@[k2]);
                assert(slot_in_state(old_self.buffers@, old_self.mru@[k2] as int, HvArcState::Mru));
            }
            assert forall|k: int| 0 <= k < self.mfu@.len() implies slot_in_state(self.buffers@, #[trigger] self.mfu@[k] as int, HvArcState::Mfu) by {
                assert(slot_in_state(old_self.buffers@, old_self.mfu@[k] as int, HvArcState::Mfu));
                assert(old_self.mfu@[k] != u);
            }
        } else {
            let pos = old_self.mfu@.index_of(u);
            assert(old_self.mfu@[pos] == u);
            lemma_remove_keeps_nodup(old_self.mfu@, pos);
            assert forall|k: int| 0 <= k < self.mfu@.len() implies slot_in_state(self.buffers@, #[trigger] self.mfu@[k] as int, HvArcState::Mfu) by {
                let k2 = if k < pos { k } else { k + 1 };
                assert(self.mfu@[k] == old_self.mfu@[k2]);
                assert(slot_in_state(old_self.buffers@, old_self.mfu@[k2] as int, HvArcState::Mfu));
            }
            assert forall|k: int| 0 <= k < self.mru@.len() implies slot_in_state(self.buffers@, #[trigger] self.mru@[k] as int, HvArcState::Mru) by {
                assert(slot_in_state(old_self.buffers@, old_self.mru@[k] as int, HvArcState::Mru));
                assert(old_self.mru@[k] != u);
            }
        }
        assert forall|i: int| 0 <= i < self.buffers@.len() && #[trigger] self.buffers@[i] is Some implies {
            ||| (self.buffers@[i].unwrap().state == HvArcState::Mru && self.mru@.contains(i as usize))
            ||| (self.buffers@[i].unwrap().state == HvArcState::Mfu && self.mfu@.contains(i as usize))
        } by {
            assert(i != idx);
            assert(self.buffers@[i] == old_self.buffers@[i]);
            assert((i as usize) as int == i);
            assert((i as usize) != u);
            if old_self.buffers@[i].unwrap().state == HvArcState::Mru && old_self.mru@.contains(i as usize) {
                let k = choose|k: int| 0 <= k < old_self.mru@.len() && old_self.mru@[k] == i as usize;
                if old_self.mru@.contains(u) {
                    let pos = old_self.mru@.index_of(u);
                    let k2 = if k < pos { k } else { k - 1 };
                    assert(k != pos);
                    assert(self.mru@[k2] == i as usize);
                } else {
                    assert(self.mru@[k] == i as usize);
                }
            } else {
                let k = choose|k: int| 0 <= k < old_self.mfu@.len() && old_self.mfu@[k] == i as usize;
                if old_self.mfu@.contains(u) {
                    let pos = old_self.mfu@.index_of(u);
                    let k2 = if k < pos { k } else { k - 1 };
                    assert(k != pos);
                    assert(self.mfu@[k2] == i as usize);
                } else {
                    assert(self.mfu@[k] == i as usize);
                }
            }
        }
        assert forall|i: int, j: int| #![trigger self.buffers@[i], self.buffers@[j]]
            0 <= i < self.buffers@.len() && 0 <= j < self.buffers@.len() && i != j
            && self.buffers@[i] is Some && self.buffers@[j] is Some
            implies self.buffers@[i].unwrap().key != self.buffers@[j].unwrap().key by {
            assert(old_self.buffers@[i] is Some && old_self.buffers@[j] is Some);
            assert(old_self.buffers@[i].unwrap().key != old_self.buffers@[j].unwrap().key);
        }
        assert forall|k: HvArcKey| self.cached(k) == (old_self.cached(k) && k != ob.key) by {
            if self.cached(k) {
                let j = choose|j: int| slot_has_key(self.buffers@, j, k);
                assert(slot_has_key(old_self.buffers@, j, k));
                assert(j != idx);
                assert(old_self.buffers@[j].unwrap().key != old_self.buffers@[idx].unwrap().key);
            }
            if old_self.cached(k) && k != ob.key {
                let j = choose|j: int| slot_has_key(old_self.buffers@, j, k);
                assert(slot_has_key(self.buffers@, j, k));
            }
        }
    }

    /// The invariant survives filling an empty (or new, one past the end)
    /// slot `idx` with an MRU buffer for a key not cached yet, listed at the
    /// back of the MRU list.
    proof fn lemma_fill_slot(&self, old_self: HvArc, idx: int, b: HvArcBuf)
        requires
            old_self.wf(),
            old_self.total() < old_self.max_size,
            0 <= idx <= old_self.buffers@.len(),
            idx < old_self.buffers@.len() ==> old_self.buffers@[idx] is None,
            idx < old_self.buffers@.len() ==> self.buffers@ == old_self.buffers@.update(idx, Some(b)),
            idx == old_self.buffers@.len() ==> self.buffers@ == old_self.buffers@.push(Some(b)),
            b.state == HvArcState::Mru,
            !old_self.cached(b.key),
            self.mru@ == old_self.mru@.push(idx as usize),
            self.mfu@ == old_self.mfu@,
            self.max_size == old_self.max_size,
            self.p == old_self.p,
            self.ghost_mru@.len() <= self.max_size,
            self.ghost_mfu@.len() <= self.max_size,
            idx <= usize::MAX,
        ensures
            self.wf(),
            forall|k: HvArcKey| self.cached(k) == (old_self.cached(k) || k == b.key),
            self.total() == old_self.total() + 1,
    {
        let u = idx as usize;
        assert(u as int == idx);
        assert(!old_self.mru@.contains(u)) by {
            if old_self.mru@.contains(u) {
                let a = choose|a: int| 0 <= a < old_self.mru@.len() && old_self.mru@[a] == u;
                assert(slot_in_state(old_self.buffers@, old_self.mru@[a] as int, HvArcState::Mru));
            }
        }
        assert(!old_self.mfu@.contains(u)) by {
            if old_self.mfu@.contains(u) {
                let a = choose|a: int| 0 <= a < old_self.mfu@.len() && old_self.mfu@[a] == u;
                assert(slot_in_state(old_self.buffers@, old_self.mfu@[a] as int, HvArcState::Mfu));
            }
        }
        assert(self.buffers@.len() >= old_self.buffers@.len());
        assert forall|i: int| 0 <= i < old_self.buffers@.len() && i != idx implies self.buffers@[i] == old_self.buffers@[i] by {}
        assert(self.buffers@[idx] == Some(b));
        assert(self.mru@.no_duplicates()) by {
            assert forall|a: int, c: int| 0 <= a < self.mru@.len() && 0 <= c < self.mru@.len() && a != c
                implies self.mru@[a] != self.mru@[c] by {
                if a < old_self.mru@.len() && c < old_self.mru@.len() {
                } else if a < old_self.mru@.len() {
                    assert(old_self.mru@.contains(self.mru@[a]));
                } else if c < old_self.mru@.len() {
                    assert(old_self.mru@.contains(self.mru@[c]));
                }
            }
        }
        assert forall|k: int| 0 <= k < self.mru@.len() implies slot_in_state(self.buffers@, #[trigger] self.mru@[k] as int, HvArcState::Mru) by {
            if k < old_self.mru@.len() {
                assert(self.mru@[k] == old_self.mru@[k]);
                assert(slot_in_state(old_self.buffers@, old_self.mru@[k] as int, HvArcState::Mru));
            }
        }
        assert forall|k: int| 0 <= k < self.mfu@.len() implies slot_in_state(self.buffers@, #[trigger] self.mfu@[k] as int, HvArcState::Mfu) by {
            assert(slot_in_state(old_self.buffers@, old_self.mfu@[k] as int, HvArcState::Mfu));
        }
        assert forall|i: int| 0 <= i < self.buffers@.len() && #[trigger] self.buffers@[i] is Some implies {
            ||| (self.buffers@[i].unwrap().state == HvArcState::Mru && self.mru@.contains(i as usize))
            ||| (self.buffers@[i].unwrap().state == HvArcState::Mfu && self.mfu@.contains(i as usize))
        } by {
            if i == idx {
                assert(self.mru@[self.mru@.len() - 1] == u);
            } else {
                assert(self.buffers@[i] == old_self.buffers@[i]);
                if old_self.buffers@[i].unwrap().state == HvArcState::Mru && old_self.mru@.contains(i as usize) {
                    let k = choose|k: int| 0 <= k < old_self.mru@.len() && old_self.mru@[k] == i as usize;
                    assert(self.mru@[k] == i as usize);
                }
            }
        }
        assert forall|i: int, j: int| #![trigger self.buffers@[i], self.buffers@[j]]
            0 <= i < self.buffers@.len() && 0 <= j < self.buffers@.len() && i != j
            && self.buffers@[i] is Some && self.buffers@[j] is Some
            implies self.buffers@[i].unwrap().key != self.buffers@[j].unwrap().key by {
            if i == idx {
                assert(slot_has_key(old_self.buffers@, j, self.buffers@[j].unwrap().key));
            } else if j == idx {
                assert(slot_has_key(old_self.buffers@, i, self.buffers@[i].unwrap().key));
            } else {
                assert(old_self.buffers@[i].unwrap().key != old_self.buffers@[j].unwrap().key);
            }
        }
        assert forall|k: HvArcKey| self.cached(k) == (old_self.cached(k) || k == b.key) by {
            if self.cached(k) {
                let j = choose|j: int| slot_has_key(self.buffers@, j, k);
                if j != idx {
                    assert(slot_has_key(old_self.buffers@, j, k));
                }
            }
            if old_self.cached(k) {
                let j = choose|j: int| slot_has_key(old_self.buffers@, j, k);
                assert(j != idx);
                assert(slot_has_key(self.buffers@, j, k));
            }
            if k == b.key {
                assert(slot_has_key(self.buffers@, idx, k));
            }
        }
    }

    /// Whether the cache was initialized.
    pub fn is_initialized(&self) -> (r: bool)
        ensures
            r == self.initialized,
    {
        self.initialized
    }

    /// Bytes cached (as counted).
    pub fn current_size(&self) -> (r: u64)
        ensures
            r == self.stats.size,
    {
        self.stats.size
    }

    /// Bytes inserted into the MRU list (as counted).
    pub fn mru_size(&self) -> (r: u64)
        ensures
            r == self.stats.mru_size,
    {
        self.stats.mru_size
    }

    /// Bytes evicted from the MFU list (as counted).
    pub fn mfu_size(&self) -> (r: u64)
        ensures
            r == self.stats.mfu_size,
    {
        self.stats.mfu_size
    }

    /// Number of hits.
    pub fn hit_count(&self) -> (r: u64)
        ensures
            r == self.stats.hits,
    {
        self.stats.hits
    }

    /// Number of misses.
    pub fn miss_count(&self) -> (r: u64)
        ensures
            r == self.stats.misses,
    {
        self.stats.misses
    }

    /// Number of evictions.
    pub fn evict_count(&self) -> (r: u64)
        ensures
            r == self.stats.evicts,
    {
        self.stats.evicts
    }

    /// Capacity in buffers.
    pub fn max_size(&self) -> (r: u64)
        ensures
            r == self.max_size,
    {
        self.max_size as u64
    }

    /// Hits, misses, bytes cached, evictions.
    pub fn get_stats(&self) -> (r: (u64, u64, u64, u64))
        ensures
            r == (self.stats.hits, self.stats.misses, self.stats.size, self.stats.evicts),
    {
        (self.stats.hits, self.stats.misses, self.stats.size, self.stats.evicts)
    }
}

/// Removing one element keeps a sequence free of duplicates.
pub proof fn lemma_remove_keeps_nodup(s: Seq<usize>, pos: int)
    requires
        s.no_duplicates(),
        0 <= pos < s.len(),
    ensures
        s.remove(pos).no_duplicates(),
{
    let t = s.remove(pos);
    assert forall|a: int, c: int| 0 <= a < t.len() && 0 <= c < t.len() && a != c implies t[a] != t[c] by {
        let a2 = if a < pos { a } else { a + 1 };
        let c2 = if c < pos { c } else { c + 1 };
        assert(t[a] == s[a2]);
        assert(t[c] == s[c2]);
    }
}

/// In a sequence without duplicates, the position of an element is the one
/// that holds it.
pub proof fn lemma_index_of_nodup(s: Seq<usize>, x: usize, k: int)
    requires
        s.no_duplicates(),
        0 <= k < s.len(),
        s[k] == x,
    ensures
        s.index_of(x) == k,
{
    assert(s.contains(x));
    let j = s.index_of(x);
    assert(0 <= j < s.len() && s[j] == x);
}

/// `m * g / d` is at most `m` when `g <= d`.
pub proof fn lemma_scaled_share(m: int, g: int, d: int)
    requires
        0 <= m,
        0 <= g <= d,
    ensures
        d > 0 ==> 0 <= (m * g) / d <= m,
{
    if d > 0 {
        assert(m * g <= m * d) by (nonlinear_arith)
            requires
                0 <= m,
                0 <= g <= d,
        ;
        assert(0 <= m * g) by (nonlinear_arith)
            requires
                0 <= m,
                0 <= g,
        ;
        assert((m * g) / d <= (m * d) / d) by (nonlinear_arith)
            requires
                m * g <= m * d,
                d > 0,
        ;
        assert((m * d) / d == m) by (nonlinear_arith)
            requires
                d > 0,
        ;
        assert(0 <= (m * g) / d) by (nonlinear_arith)
            requires
                0 <= m * g,
                d > 0,
        ;
    }
}

} // verus!
