//! The `ArcCache` interface over block caches, and its standard
//! implementation backed by `NestArc`.
use crate::hvfs::arc::HV_ARC_DEFAULT_SIZE;
use crate::nestfs::arc::{NestArc, NestArcBufType, NestArcKey};
use vstd::prelude::*;

verus! {

/// A block cache.
pub trait ArcCache: Send + Sync {
    /// Empties the cache and sets its capacity.
    fn init(&mut self, max_size: usize);

    /// Whether the cache was initialized.
    fn is_initialized(&self) -> bool;

    /// Whether `key` is cached (a hit counts as an access).
    fn lookup(&mut self, key: &NestArcKey) -> bool;

    /// Caches `data` under `key`; whether it was cached.
    fn insert(&mut self, key: NestArcKey, data: &[u8], buf_type: NestArcBufType) -> bool;

    /// Drops a reference on the buffer cached for `key`.
    fn release(&mut self, key: &NestArcKey);

    /// Bytes cached.
    fn current_size(&self) -> u64;

    /// Entries on the recently-used list.
    fn mru_size(&self) -> u64;

    /// Entries on the frequently-used list.
    fn mfu_size(&self) -> u64;

    /// Capacity in entries.
    fn max_size(&self) -> u64;

    /// Number of hits.
    fn hit_count(&self) -> u64;

    /// Number of misses.
    fn miss_count(&self) -> u64;

    /// Number of evictions.
    fn evict_count(&self) -> u64;
}

/// The standard block cache: a `NestArc`.
pub struct StandardArc(pub NestArc);

impl StandardArc {
    /// An empty, uninitialized cache.
    pub fn new() -> (a: Self)
        ensures
            a.0.arc().wf(),
            !a.0.arc().initialized,
            a.0.arc().total() == 0,
            a.0.arc().max_size == HV_ARC_DEFAULT_SIZE,
            a.0.arc().stats.hits == 0,
            a.0.arc().stats.misses == 0,
            a.0.arc().stats.evicts == 0,
            a.0.arc().stats.size == 0,
    {
        StandardArc(NestArc::new())
    }

    /// The wrapped cache.
    pub fn inner(&self) -> (r: &NestArc)
        ensures
            *r == self.0,
    {
        &self.0
    }
}

impl Default for StandardArc {
    fn default() -> (a: Self)
        ensures
            a.0.arc().wf(),
            !a.0.arc().initialized,
            a.0.arc().total() == 0,
            a.0.arc().max_size == HV_ARC_DEFAULT_SIZE,
            a.0.arc().stats.hits == 0,
            a.0.arc().stats.misses == 0,
    {
        Self::new()
    }
}

impl ArcCache for StandardArc {
    fn init(&mut self, max_size: usize)
        ensures
            final(self).0.arc().wf(),
            final(self).0.arc().initialized,
            final(self).0.arc().total() == 0,
            final(self).0.arc().max_size == (if max_size == 0 {
                HV_ARC_DEFAULT_SIZE
            } else if max_size < crate::hvfs::arc::HV_ARC_MAX_SIZE {
                max_size
            } else {
                crate::hvfs::arc::HV_ARC_MAX_SIZE
            }),
            final(self).0.arc().stats == old(self).0.arc().stats,
            final(self).0.arc().p == final(self).0.arc().max_size / 2,
            forall|k: NestArcKey| !final(self).0.arc().cached(k),
    {
        self.0.init(max_size);
    }

    fn is_initialized(&self) -> (r: bool)
        ensures
            r == self.0.arc().initialized,
    {
        self.0.is_initialized()
    }

    fn lookup(&mut self, key: &NestArcKey) -> (r: bool)
        ensures
            final(self).0.arc().wf(),
            r == old(self).0.arc().cached(*key),
            forall|k: NestArcKey| final(self).0.arc().cached(k) == old(self).0.arc().cached(k),
            r ==> final(self).0.arc().stats.hits == old(self).0.arc().stats.hits.wrapping_add(1)
                && final(self).0.arc().stats.misses == old(self).0.arc().stats.misses,
            !r ==> final(self).0.arc().stats.misses == old(self).0.arc().stats.misses.wrapping_add(1)
                && final(self).0.arc().stats.hits == old(self).0.arc().stats.hits,
            final(self).0.arc().max_size == old(self).0.arc().max_size,
            final(self).0.arc().initialized == old(self).0.arc().initialized,
            final(self).0.arc().total() == old(self).0.arc().total(),
            final(self).0.arc().stats.evicts == old(self).0.arc().stats.evicts,
            final(self).0.arc().stats.size == old(self).0.arc().stats.size,
            final(self).0.arc().buffers@.len() == old(self).0.arc().buffers@.len(),
            forall|j: int| 0 <= j < old(self).0.arc().buffers@.len()
                && !crate::hvfs::arc::slot_has_key(old(self).0.arc().buffers@, j, *key)
                ==> final(self).0.arc().buffers@[j] == old(self).0.arc().buffers@[j],
            forall|j: int| crate::hvfs::arc::slot_has_key(old(self).0.arc().buffers@, j, *key)
                ==> crate::hvfs::arc::slot_has_key(final(self).0.arc().buffers@, j, *key)
                && final(self).0.arc().buffers@[j].unwrap().data@ == old(self).0.arc().buffers@[j].unwrap().data@,
    {
        let r = self.0.lookup(key);
        proof {
            if r is Some {
                let i = r.unwrap() as int;
                assert forall|j: int| crate::hvfs::arc::slot_has_key(old(self).0.arc().buffers@, j, *key) implies j == i by {
                    if j != i {
                        assert(old(self).0.arc().buffers@[j].unwrap().key == old(self).0.arc().buffers@[i].unwrap().key);
                    }
                }
            }
        }
        r.is_some()
    }

    fn insert(&mut self, key: NestArcKey, data: &[u8], buf_type: NestArcBufType) -> (r: bool)
        ensures
            final(self).0.arc().wf(),
            r == !old(self).0.arc().insert_stalls(key),
            r ==> final(self).0.arc().cached(key),
            r ==> forall|k: NestArcKey| final(self).0.arc().cached(k) ==> (old(self).0.arc().cached(k) || k == key),
            r && (if old(self).0.arc().cached(key) { old(self).0.arc().total() - 1 } else { old(self).0.arc().total() })
                < old(self).0.arc().max_size ==> forall|k: NestArcKey| old(self).0.arc().cached(k) ==> final(self).0.arc().cached(k),
            r && !old(self).0.arc().cached(key) && old(self).0.arc().total() >= old(self).0.arc().max_size
                ==> forall|k: NestArcKey| final(self).0.arc().cached(k)
                    == ((old(self).0.arc().cached(k) && k != old(self).0.arc().victim_key()) || k == key),
            !r ==> final(self).0.arc() == old(self).0.arc(),
            r ==> final(self).0.arc().max_size == old(self).0.arc().max_size,
            r ==> final(self).0.arc().initialized == old(self).0.arc().initialized,
            r ==> final(self).0.arc().stats
                == old(self).0.arc().stats_after_insert(key, data@.len() as u64, crate::nestfs::arc::hv_buf_type(buf_type)),
            r ==> final(self).0.arc().total() == old(self).0.arc().total_after_insert(key),
            r ==> final(self).0.arc().p == old(self).0.arc().p,
            r ==> final(self).0.arc().buffers@.len() >= old(self).0.arc().buffers@.len(),
            r ==> forall|j: int| 0 <= j < old(self).0.arc().buffers@.len() && old(self).0.arc().buffers@[j] is Some
                && !(old(self).0.arc().cached(key) && j == old(self).0.arc().slot_of(key))
                && !(!old(self).0.arc().cached(key) && old(self).0.arc().total() >= old(self).0.arc().max_size
                    && j == old(self).0.arc().victim_slot())
                ==> final(self).0.arc().buffers@[j] == old(self).0.arc().buffers@[j],
    {
        self.0.insert(key, data, buf_type).is_some()
    }

    fn release(&mut self, key: &NestArcKey)
        ensures
            final(self).0.arc().wf(),
            forall|k: NestArcKey| final(self).0.arc().cached(k) == old(self).0.arc().cached(k),
            final(self).0.arc().stats == old(self).0.arc().stats,
            final(self).0.arc().max_size == old(self).0.arc().max_size,
    {
        self.0.release(key);
    }

    fn current_size(&self) -> (r: u64)
        ensures
            r == self.0.arc().stats.size,
    {
        self.0.current_size()
    }

    fn mru_size(&self) -> (r: u64)
        ensures
            r == self.0.arc().mru@.len(),
            self.0.arc().wf(),
    {
        self.0.mru_size()
    }

    fn mfu_size(&self) -> (r: u64)
        ensures
            r == self.0.arc().mfu@.len(),
            self.0.arc().wf(),
    {
        self.0.mfu_size()
    }

    fn max_size(&self) -> (r: u64)
        ensures
            r == self.0.arc().max_size,
            self.0.arc().wf(),
    {
        self.0.max_size()
    }

    fn hit_count(&self) -> (r: u64)
        ensures
            r == self.0.arc().stats.hits,
    {
        self.0.hit_count()
    }

    fn miss_count(&self) -> (r: u64)
        ensures
            r == self.0.arc().stats.misses,
    {
        self.0.miss_count()
    }

    fn evict_count(&self) -> (r: u64)
        ensures
            r == self.0.arc().stats.evicts,
    {
        self.0.evict_count()
    }
}

} // verus!
