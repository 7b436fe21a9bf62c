//! The pool's block cache: an ARC over block keys that counts its lists by
//! entries.
use crate::hvfs::arc::{HvArc, HvArcBufType, HvArcKey};
use vstd::prelude::*;

verus! {

/// Identity of a cached block: device, offset and birth txg.
pub type NestArcKey = HvArcKey;

/// What a cached block holds.
#[derive(Debug, Clone, Copy, PartialEq, Eq, Structural)]
pub enum NestArcBufType {
    Data,
    Meta,
}

/// The buffer type of the underlying cache.
pub open spec fn hv_buf_type(t: NestArcBufType) -> HvArcBufType {
    match t {
        NestArcBufType::Data => HvArcBufType::Data,
        NestArcBufType::Meta => HvArcBufType::Metadata,
    }
}

/// The pool's block cache.
pub struct NestArc {
    cache: HvArc,
}

impl NestArc {
    #[verifier::type_invariant]
    spec fn inv(self) -> bool {
        self.cache.wf()
    }

    /// The underlying cache.
    pub closed spec fn arc(self) -> HvArc {
        self.cache
    }

    /// An empty, uninitialized cache.
    pub fn new() -> (a: Self)
        ensures
            a.arc().wf(),
            !a.arc().initialized,
            a.arc().total() == 0,
            a.arc().max_size == crate::hvfs::arc::HV_ARC_DEFAULT_SIZE,
            a.arc().stats.hits == 0,
            a.arc().stats.misses == 0,
            a.arc().stats.evicts == 0,
            a.arc().stats.size == 0,
    {
        NestArc { cache: HvArc::new() }
    }

    /// Empties the cache and sets its capacity (0 means the default).
    pub fn init(&mut self, max_size: usize)
        ensures
            final(self).arc().wf(),
            final(self).arc().initialized,
            final(self).arc().total() == 0,
            final(self).arc().max_size == (if max_size == 0 {
                crate::hvfs::arc::HV_ARC_DEFAULT_SIZE
            } else if max_size < crate::hvfs::arc::HV_ARC_MAX_SIZE {
                max_size
            } else {
                crate::hvfs::arc::HV_ARC_MAX_SIZE
            }),
            final(self).arc().stats == old(self).arc().stats,
            forall|k: NestArcKey| !final(self).arc().cached(k),
            final(self).arc().p == final(self).arc().max_size / 2,
    {
        let mut c = HvArc::new();
        std::mem::swap(&mut c, &mut self.cache);
        c.init(max_size);
        proof {
            assert forall|k: NestArcKey| !c.cached(k) by {
                if c.cached(k) {
                    let j = choose|j: int| crate::hvfs::arc::slot_has_key(c.buffers@, j, k);
                }
            }
        }
        self.cache = c;
    }

    /// Whether the cache was initialized.
    pub fn is_initialized(&self) -> (r: bool)
        ensures
            r == self.arc().initialized,
    {
        self.cache.is_initialized()
    }

    /// Looks `key` up; a hit returns the buffer's slot (see `HvArc::lookup`).
    pub fn lookup(&mut self, key: &NestArcKey) -> (r: Option<usize>)
        ensures
            final(self).arc().wf(),
            r is Some <==> old(self).arc().cached(*key),
            forall|k: NestArcKey| final(self).arc().cached(k) == old(self).arc().cached(k),
            final(self).arc().max_size == old(self).arc().max_size,
            final(self).arc().initialized == old(self).arc().initialized,
            r is Some ==> final(self).arc().stats.hits == old(self).arc().stats.hits.wrapping_add(1)
                && final(self).arc().stats.misses == old(self).arc().stats.misses,
            r is None ==> final(self).arc().stats.misses == old(self).arc().stats.misses.wrapping_add(1)
                && final(self).arc().stats.hits == old(self).arc().stats.hits,
            final(self).arc().stats.evicts == old(self).arc().stats.evicts,
            final(self).arc().stats.size == old(self).arc().stats.size,
            final(self).arc().total() == old(self).arc().total(),
            final(self).arc().buffers@.len() == old(self).arc().buffers@.len(),
            r is None ==> final(self).arc().buffers@ == old(self).arc().buffers@,
            r matches Some(i) ==> {
                &&& crate::hvfs::arc::slot_has_key(final(self).arc().buffers@, i as int, *key)
                &&& final(self).arc().buffers@[i as int].unwrap().data@ == old(self).arc().buffers@[i as int].unwrap().data@
                &&& forall|j: int| 0 <= j < old(self).arc().buffers@.len() && j != i
                    ==> final(self).arc().buffers@[j] == old(self).arc().buffers@[j]
            },
    {
        proof {
            use_type_invariant(&*self);
        }
        let mut c = HvArc::new();
        std::mem::swap(&mut c, &mut self.cache);
        let r = c.lookup(key);
        self.cache = c;
        r
    }

    /// Caches a copy of `data` under `key` (see `HvArc::insert`) and returns
    /// its slot; `None`, with nothing changed, when the cache can make no
    /// room: its target is the whole cache, the MFU list is empty and the
    /// MRU list is full.
    pub fn insert(&mut self, key: NestArcKey, data: &[u8], buf_type: NestArcBufType) -> (r: Option<usize>)
        ensures
            final(self).arc().wf(),
            r is None <==> old(self).arc().insert_stalls(key),
            r is None ==> final(self).arc() == old(self).arc(),
            r is Some ==> {
                &&& final(self).arc().cached(key)
                &&& forall|k: NestArcKey| final(self).arc().cached(k) ==> (old(self).arc().cached(k) || k == key)
                &&& (if old(self).arc().cached(key) { old(self).arc().total() - 1 } else { old(self).arc().total() })
                    < old(self).arc().max_size ==> forall|k: NestArcKey| old(self).arc().cached(k) ==> final(self).arc().cached(k)
                &&& !old(self).arc().cached(key) && old(self).arc().total() >= old(self).arc().max_size
                    ==> forall|k: NestArcKey| final(self).arc().cached(k)
                        == ((old(self).arc().cached(k) && k != old(self).arc().victim_key()) || k == key)
                &&& final(self).arc().max_size == old(self).arc().max_size
                &&& final(self).arc().initialized == old(self).arc().initialized
                &&& final(self).arc().stats == old(self).arc().stats_after_insert(key, data@.len() as u64, hv_buf_type(buf_type))
                &&& final(self).arc().total() == old(self).arc().total_after_insert(key)
                &&& final(self).arc().p == old(self).arc().p
                &&& final(self).arc().buffers@.len() >= old(self).arc().buffers@.len()
                &&& forall|j: int| 0 <= j < old(self).arc().buffers@.len() && old(self).arc().buffers@[j] is Some
                    && !(old(self).arc().cached(key) && j == old(self).arc().slot_of(key))
                    && !(!old(self).arc().cached(key) && old(self).arc().total() >= old(self).arc().max_size
                        && j == old(self).arc().victim_slot())
                    ==> final(self).arc().buffers@[j] == old(self).arc().buffers@[j]
            },
            r matches Some(i) ==> {
                let b = final(self).arc().buffers@[i as int].unwrap();
                &&& crate::hvfs::arc::slot_has_key(final(self).arc().buffers@, i as int, key)
                &&& b.data@ == data@
                &&& b.buf_type == hv_buf_type(buf_type)
            },
    {
        proof {
            use_type_invariant(&*self);
        }
        if self.cache.would_stall(&key) {
            return None;
        }
        let t = match buf_type {
            NestArcBufType::Data => HvArcBufType::Data,
            NestArcBufType::Meta => HvArcBufType::Metadata,
        };
        let mut c = HvArc::new();
        std::mem::swap(&mut c, &mut self.cache);
        let r = c.insert(key, data, t);
        proof {
            let i = r.unwrap();
            assert(crate::hvfs::arc::slot_has_key(c.buffers@, i as int, key));
        }
        self.cache = c;
        r
    }

    /// Drops one reference on the buffer cached for `key`.
    pub fn release(&mut self, key: &NestArcKey)
        ensures
            final(self).arc().wf(),
            forall|k: NestArcKey| final(self).arc().cached(k) == old(self).arc().cached(k),
            final(self).arc().mru@ == old(self).arc().mru@,
            final(self).arc().mfu@ == old(self).arc().mfu@,
            final(self).arc().stats == old(self).arc().stats,
            final(self).arc().max_size == old(self).arc().max_size,
            final(self).arc().initialized == old(self).arc().initialized,
            forall|i: int| crate::hvfs::arc::slot_has_key(old(self).arc().buffers@, i, *key) ==> {
                let ob = old(self).arc().buffers@[i].unwrap();
                let nb = final(self).arc().buffers@[i].unwrap();
                nb.ref_count == (if ob.ref_count == 0 { 0 } else { ob.ref_count - 1 })
            },
    {
        proof {
            use_type_invariant(&*self);
        }
        let mut c = HvArc::new();
        std::mem::swap(&mut c, &mut self.cache);
        c.release(key);
        self.cache = c;
    }

    /// Marks the buffer cached for `key` dirty.
    pub fn mark_dirty(&mut self, key: &NestArcKey)
        ensures
            final(self).arc().wf(),
            forall|k: NestArcKey| final(self).arc().cached(k) == old(self).arc().cached(k),
            final(self).arc().stats == old(self).arc().stats,
            final(self).arc().max_size == old(self).arc().max_size,
            final(self).arc().initialized == old(self).arc().initialized,
            forall|i: int| crate::hvfs::arc::slot_has_key(old(self).arc().buffers@, i, *key)
                ==> final(self).arc().buffers@[i].unwrap().dirty,
    {
        proof {
            use_type_invariant(&*self);
        }
        let mut c = HvArc::new();
        std::mem::swap(&mut c, &mut self.cache);
        c.mark_dirty(key);
        self.cache = c;
    }

    /// Number of dirty buffers.
    pub fn flush_dirty(&self) -> (r: usize)
        ensures
            r == crate::seq_search::count_where(self.arc().buffers@,
                |o: Option<crate::hvfs::arc::HvArcBuf>| o is Some && o.unwrap().dirty),
    {
        self.cache.flush_dirty()
    }

    /// Bytes cached (as counted).
    pub fn current_size(&self) -> (r: u64)
        ensures
            r == self.arc().stats.size,
    {
        self.cache.current_size()
    }

    /// Number of buffers on the MRU list.
    pub fn mru_size(&self) -> (r: u64)
        ensures
            self.arc().wf(),
            r == self.arc().mru@.len(),
    {
        proof {
            use_type_invariant(self);
        }
        self.cache.mru.len() as u64
    }

    /// Number of buffers on the MFU list.
    pub fn mfu_size(&self) -> (r: u64)
        ensures
            self.arc().wf(),
            r == self.arc().mfu@.len(),
    {
        proof {
            use_type_invariant(self);
        }
        self.cache.mfu.len() as u64
    }

    /// Capacity in buffers.
    pub fn max_size(&self) -> (r: u64)
        ensures
            self.arc().wf(),
            r == self.arc().max_size,
    {
        proof {
            use_type_invariant(self);
        }
        self.cache.max_size()
    }

    /// Number of hits.
    pub fn hit_count(&self) -> (r: u64)
        ensures
            r == self.arc().stats.hits,
    {
        self.cache.hit_count()
    }

    /// Number of misses.
    pub fn miss_count(&self) -> (r: u64)
        ensures
            r == self.arc().stats.misses,
    {
        self.cache.miss_count()
    }

    /// Number of evictions.
    pub fn evict_count(&self) -> (r: u64)
        ensures
            r == self.arc().stats.evicts,
    {
        self.cache.evict_count()
    }
}

} // verus!
