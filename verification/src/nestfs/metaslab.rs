//! Metaslabs: fixed-size regions of a device whose blocks are handed out
//! first-fit from a free-block bitmap.
use crate::nestfs::zil::HV_POOL_BLOCK_SIZE;
use vstd::prelude::*;

verus! {

/// Bytes per metaslab block.
pub const HV_MS_BLOCK_SIZE: u64 = HV_POOL_BLOCK_SIZE;

/// Most blocks a metaslab is meant to hold.
pub const HV_MS_MAX_BLOCKS: u32 = 16384;

/// Log2 of the metaslab size unit.
pub const HV_MS_SHIFT: u8 = 14;

/// Whether a metaslab can hand out space.
#[derive(Debug, Clone, Copy, PartialEq, Eq, Structural)]
pub enum NestMsState {
    Uninit,
    Active,
    Full,
}

/// Bit `k` of `w` is set.
pub open spec fn bit_set(w: u64, k: u64) -> bool {
    (w >> k) & 1u64 == 1u64
}

/// Block `b` is marked free in `bm` (one bit per block, 64 per word).
pub open spec fn block_free(bm: Seq<u64>, b: int) -> bool {
    0 <= b && b / 64 < bm.len() && bit_set(bm[b / 64], (b % 64) as u64)
}

/// Blocks `s..s+n` are all free.
pub open spec fn run_free(map: Seq<bool>, s: int, n: int) -> bool {
    forall|b: int| s <= b < s + n ==> #[trigger] map[b]
}

/// `s` is the lowest block starting `n` free blocks that fit in `map`.
pub open spec fn first_fit(map: Seq<bool>, n: int, s: int) -> bool {
    &&& 0 <= s
    &&& s + n <= map.len()
    &&& run_free(map, s, n)
    &&& forall|t: int| 0 <= t < s ==> !(#[trigger] run_free(map, t, n))
}

/// No `n` free blocks in a row fit in `map`.
pub open spec fn no_fit(map: Seq<bool>, n: int) -> bool {
    forall|t: int| 0 <= t && t + n <= map.len() ==> !(#[trigger] run_free(map, t, n))
}

/// Blocks needed for `size` bytes.
pub open spec fn blocks_for(size: u64) -> int {
    (size as int + HV_MS_BLOCK_SIZE - 1) / (HV_MS_BLOCK_SIZE as int)
}

/// The block holding byte `offset` of a metaslab starting at `start`
/// (offsets before the start count as the start).
pub open spec fn first_block_of(offset: u64, start: u64) -> u32 {
    ((if offset >= start { offset - start } else { 0 }) as int / HV_MS_BLOCK_SIZE as int) as u32
}

/// The weight of a metaslab with `free` bytes free out of `size`.
pub open spec fn weight_of(free: u64, size: u64) -> int {
    if free > size / 2 { free as int } else { free * 2 }
}

/// A metaslab.
pub struct NestMetaslab {
    pub id: u32,
    pub vdev_id: u16,
    pub start: u64,
    pub size: u64,
    pub state: NestMsState,
    pub allocated: u64,
    pub freed: u64,
    pub space: u64,
    pub free_space: u64,
    pub bitmap: Vec<u64>,
    pub max_block: u32,
    pub weight: u64,
    pub loaded: bool,
    pub condensing: bool,
}

/// Clearing bit `bit` of a word changes that bit only.
proof fn lemma_clear_bit(w: u64, bit: u64, k: u64)
    requires
        bit < 64,
        k < 64,
    ensures
        bit_set(w & !(1u64 << bit), k) == (k != bit && bit_set(w, k)),
{
    assert(bit_set(w & !(1u64 << bit), k) == (k != bit && bit_set(w, k))) by (bit_vector)
        requires
            bit < 64,
            k < 64,
    ;
}

/// Setting bit `bit` of a word changes that bit only.
proof fn lemma_set_bit(w: u64, bit: u64, k: u64)
    requires
        bit < 64,
        k < 64,
    ensures
        bit_set(w | (1u64 << bit), k) == (k == bit || bit_set(w, k)),
{
    assert(bit_set(w | (1u64 << bit), k) == (k == bit || bit_set(w, k))) by (bit_vector)
        requires
            bit < 64,
            k < 64,
    ;
}

/// Every bit of the all-ones word is set.
proof fn lemma_ones(k: u64)
    requires
        k < 64,
    ensures
        bit_set(!0u64, k),
{
    assert(bit_set(!0u64, k)) by (bit_vector)
        requires
            k < 64,
    ;
}

impl NestMetaslab {
    /// The bitmap covers every block and the blocks fit in the size.
    pub open spec fn wf(&self) -> bool {
        &&& self.bitmap@.len() * 64 >= self.max_block
        &&& self.max_block as int * HV_MS_BLOCK_SIZE <= self.size
    }

    /// Which blocks are free.
    pub open spec fn free_map(&self) -> Seq<bool> {
        Seq::new(self.max_block as nat, |b: int| block_free(self.bitmap@, b))
    }

    /// A metaslab of `size` bytes at `start`, every block free.
    pub fn new(id: u32, vdev_id: u16, start: u64, size: u64) -> (m: Self)
        ensures
            m.wf(),
            m.id == id && m.vdev_id == vdev_id && m.start == start && m.size == size,
            m.max_block == (size / HV_MS_BLOCK_SIZE) as u32,
            m.free_map() == Seq::new(m.max_block as nat, |b: int| true),
            m.state == NestMsState::Active,
            m.allocated == 0 && m.freed == 0,
            m.space == size && m.free_space == size && m.weight == size,
            m.loaded && !m.condensing,
    {
        let q = size / HV_MS_BLOCK_SIZE;
        let nblocks = q as u32;
        proof {
            assert((q as u32) as int <= q) by (bit_vector);
        }
        let words = (nblocks as usize) / 64 + if (nblocks as usize) % 64 != 0 { 1 } else { 0 };
        let mut bitmap: Vec<u64> = Vec::new();
        let mut i: usize = 0;
        while i < words
            invariant
                0 <= i <= words,
                bitmap@.len() == i,
                forall|k: int| 0 <= k < i ==> bitmap@[k] == !0u64,
            decreases words - i,
        {
            bitmap.push(!0u64);
            i += 1;
        }
        let m = NestMetaslab {
            id,
            vdev_id,
            start,
            size,
            state: NestMsState::Active,
            allocated: 0,
            freed: 0,
            space: size,
            free_space: size,
            bitmap,
            max_block: nblocks,
            weight: size,
            loaded: true,
            condensing: false,
        };
        proof {
            assert forall|b: int| 0 <= b < nblocks implies block_free(m.bitmap@, b) by {
                lemma_ones((b % 64) as u64);
            }
            assert(m.free_map() =~= Seq::new(m.max_block as nat, |b: int| true));
        }
        m
    }

    /// Whether block `block` is free.
    fn get_bit(&self, block: u32) -> (r: bool)
        ensures
            r == block_free(self.bitmap@, block as int),
    {
        let idx = (block as usize) / 64;
        let bit = (block as usize) % 64;
        if idx >= self.bitmap.len() {
            return false;
        }
        (self.bitmap[idx] >> (bit as u64)) & 1 == 1
    }

    /// Marks block `block` free (when the bitmap covers it).
    fn set_bit(&mut self, block: u32)
        ensures
            forall|b: int| #![trigger block_free(final(self).bitmap@, b)] block_free(final(self).bitmap@, b)
                == (block_free(old(self).bitmap@, b) || (b == block && b / 64 < old(self).bitmap@.len())),
            final(self).bitmap@.len() == old(self).bitmap@.len(),
            final(self).max_block == old(self).max_block,
            final(self).size == old(self).size,
            final(self).start == old(self).start,
            final(self).free_space == old(self).free_space,
            final(self).allocated == old(self).allocated,
            final(self).freed == old(self).freed,
            final(self).state == old(self).state,
            *final(self) == (NestMetaslab { bitmap: final(self).bitmap, ..*old(self) }),
    {
        let idx = (block as usize) / 64;
        let bit = (block as usize) % 64;
        if idx < self.bitmap.len() {
            let w = self.bitmap[idx];
            self.bitmap.set(idx, w | (1u64 << (bit as u64)));
            proof {
                assert forall|b: int| block_free(self.bitmap@, b)
                    == (block_free(old(self).bitmap@, b) || (b == block && b / 64 < old(self).bitmap@.len())) by {
                    if 0 <= b && b / 64 == idx as int {
                        lemma_set_bit(w, bit as u64, (b % 64) as u64);
                    }
                }
            }
        }
    }

    /// Marks block `block` used (when the bitmap covers it).
    fn clear_bit(&mut self, block: u32)
        ensures
            forall|b: int| #![trigger block_free(final(self).bitmap@, b)] block_free(final(self).bitmap@, b)
                == (b != block && block_free(old(self).bitmap@, b)),
            final(self).bitmap@.len() == old(self).bitmap@.len(),
            final(self).max_block == old(self).max_block,
            final(self).size == old(self).size,
            final(self).start == old(self).start,
            final(self).free_space == old(self).free_space,
            final(self).allocated == old(self).allocated,
            final(self).freed == old(self).freed,
            final(self).state == old(self).state,
            *final(self) == (NestMetaslab { bitmap: final(self).bitmap, ..*old(self) }),
    {
        let idx = (block as usize) / 64;
        let bit = (block as usize) % 64;
        if idx < self.bitmap.len() {
            let w = self.bitmap[idx];
            self.bitmap.set(idx, w & !(1u64 << (bit as u64)));
            proof {
                assert forall|b: int| block_free(self.bitmap@, b)
                    == (b != block && block_free(old(self).bitmap@, b)) by {
                    if 0 <= b && b / 64 == idx as int {
                        lemma_clear_bit(w, bit as u64, (b % 64) as u64);
                    }
                }
            }
        }
    }

    /// The first block starting `max(nblocks, 1)` free blocks in a row.
    fn find_contiguous(&self, nblocks: u32) -> (r: Option<u32>)
        requires
            self.wf(),
        ensures
            ({
                let n = if nblocks == 0 { 1int } else { nblocks as int };
                &&& r matches Some(s) ==> first_fit(self.free_map(), n, s as int)
                &&& r is None ==> no_fit(self.free_map(), n)
            }),
    {
        let ghost map = self.free_map();
        let ghost n: int = if nblocks == 0 { 1int } else { nblocks as int };
        let mut found: u32 = 0;
        let mut start: u32 = 0;
        let mut i: u32 = 0;
        while i < self.max_block
            invariant
                self.wf(),
                map == self.free_map(),
                n == (if nblocks == 0 { 1int } else { nblocks as int }),
                0 <= i <= self.max_block,
                found <= i,
                (found as int) < n,
                found > 0 ==> start == i - found,
                run_free(map, i - found, found as int),
                i - found > 0 ==> !map[i - found - 1],
                forall|t: int| 0 <= t && t + n <= i ==> !(#[trigger] run_free(map, t, n)),
            decreases self.max_block - i,
        {
            if self.get_bit(i) {
                if found == 0 {
                    start = i;
                }
                found += 1;
                if found >= nblocks {
                    proof {
                        assert(run_free(map, start as int, n));
                        assert forall|t: int| 0 <= t < start implies !(#[trigger] run_free(map, t, n)) by {
                            if t + n > i {
                                assert(!map[start - 1]);
                                assert(t <= start - 1 < t + n);
                            }
                        }
                    }
                    return Some(start);
                }
                proof {
                    assert forall|t: int| 0 <= t && t + n <= i + 1 implies !(#[trigger] run_free(map, t, n)) by {
                        if t + n == i + 1 {
                            assert(t < i + 1 - found);
                            assert(!map[i - found]);
                        }
                    }
                }
            } else {
                proof {
                    assert forall|t: int| 0 <= t && t + n <= i + 1 implies !(#[trigger] run_free(map, t, n)) by {
                        if t + n == i + 1 {
                            assert(!map[i as int]);
                        }
                    }
                }
                found = 0;
            }
            i += 1;
        }
        None
    }

    /// Hands out `size` bytes: the first run of free blocks that holds them
    /// is marked used and its byte offset returned. `None`, with nothing
    /// changed, when `size` is zero or larger than the metaslab, needs more
    /// blocks than it has, or no run is long enough.
    pub fn allocate(&mut self, size: u64) -> (r: Option<u64>)
        requires
            old(self).wf(),
            old(self).start as int + old(self).size <= u64::MAX,
        ensures
            final(self).wf(),
            final(self).start == old(self).start && final(self).size == old(self).size,
            final(self).max_block == old(self).max_block,
            final(self).state == old(self).state && final(self).freed == old(self).freed,
            size == 0 || size > old(self).size ==> r is None && *final(self) == *old(self),
            ({
                let nb = blocks_for(size) as u32;
                let n = if nb == 0 { 1int } else { nb as int };
                let bytes = (nb as u64 * HV_MS_BLOCK_SIZE) as u64;
                &&& 0 < size <= old(self).size && nb > old(self).max_block ==> r is None && *final(self) == *old(self)
                &&& 0 < size <= old(self).size && nb <= old(self).max_block && no_fit(old(self).free_map(), n)
                    ==> r is None && *final(self) == *old(self)
                &&& forall|s: int| 0 < size <= old(self).size && nb <= old(self).max_block
                    && first_fit(old(self).free_map(), n, s) ==> {
                    &&& r == Some((old(self).start + s * HV_MS_BLOCK_SIZE) as u64)
                    &&& final(self).free_map() == Seq::new(old(self).max_block as nat,
                        |b: int| if s <= b < s + nb { false } else { old(self).free_map()[b] })
                    &&& final(self).allocated == old(self).allocated.wrapping_add(bytes)
                    &&& final(self).free_space == old(self).free_space.wrapping_sub(bytes)
                    &&& final(self).weight == weight_of(final(self).free_space, final(self).size)
                }
            }),
    {
        if size == 0 || size > self.size {
            return None;
        }
        let blocks = size / HV_MS_BLOCK_SIZE + if size % HV_MS_BLOCK_SIZE != 0 { 1 } else { 0 };
        proof {
            assert(blocks as int == blocks_for(size));
        }
        let nblocks = blocks as u32;
        if nblocks > self.max_block {
            return None;
        }
        let start = match self.find_contiguous(nblocks) {
            Some(st) => st,
            None => {
                return None;
            },
        };
        let ghost old_map = self.free_map();
        let ghost n: int = if nblocks == 0 { 1int } else { nblocks as int };
        proof {
            assert forall|t: int| first_fit(old_map, n, t) implies t == start as int by {
                if t < start {
                    assert(!run_free(old_map, t, n));
                }
                if t > start {
                    assert(!run_free(old_map, start as int, n));
                }
            }
        }
        let end = start + nblocks;
        let mut b: u32 = start;
        while b < end
            invariant
                self.wf(),
                start <= b <= end,
                end == start + nblocks,
                end <= self.max_block,
                self.max_block == old(self).max_block,
                self.size == old(self).size,
                self.start == old(self).start,
                self.free_space == old(self).free_space,
                self.allocated == old(self).allocated,
                self.freed == old(self).freed,
                self.state == old(self).state,
                self.id == old(self).id && self.vdev_id == old(self).vdev_id && self.space == old(self).space,
                self.weight == old(self).weight && self.loaded == old(self).loaded
                    && self.condensing == old(self).condensing,
                old_map == old(self).free_map(),
                self.free_map() == Seq::new(self.max_block as nat,
                    |k: int| if start <= k < b { false } else { old_map[k] }),
            decreases end - b,
        {
            let ghost prev = self.bitmap@;
            let ghost pb = b;
            proof {
                assert forall|k: int| 0 <= k < self.max_block implies block_free(prev, k)
                    == (if start <= k < pb { false } else { old_map[k] }) by {
                    assert(self.free_map()[k] == block_free(prev, k));
                }
            }
            self.clear_bit(b);
            b += 1;
            proof {
                assert forall|k: int| 0 <= k < self.max_block implies #[trigger] block_free(self.bitmap@, k)
                    == (if start <= k < b { false } else { old_map[k] }) by {
                    assert(block_free(self.bitmap@, k) == (k != pb && block_free(prev, k)));
                }
                assert(self.free_map() =~= Seq::new(self.max_block as nat,
                    |k: int| if start <= k < b { false } else { old_map[k] }));
            }
        }
        let bytes = nblocks as u64 * HV_MS_BLOCK_SIZE;
        let offset = self.start + start as u64 * HV_MS_BLOCK_SIZE;
        self.allocated = self.allocated.wrapping_add(bytes);
        self.free_space = self.free_space.wrapping_sub(bytes);
        self.update_weight();
        Some(offset)
    }

    /// Returns the blocks of `size` bytes at `offset` (those the bitmap
    /// covers) to the free pool and counts the bytes freed.
    pub fn free(&mut self, offset: u64, size: u64)
        requires
            old(self).wf(),
            first_block_of(offset, old(self).start) + (blocks_for(size) as u32) <= u32::MAX,
        ensures
            final(self).wf(),
            final(self).start == old(self).start && final(self).size == old(self).size,
            final(self).max_block == old(self).max_block,
            final(self).state == old(self).state && final(self).allocated == old(self).allocated,
            ({
                let sb = first_block_of(offset, old(self).start);
                let nb = blocks_for(size) as u32;
                let bytes = (nb as u64 * HV_MS_BLOCK_SIZE) as u64;
                &&& final(self).free_map() == Seq::new(old(self).max_block as nat,
                    |b: int| if sb <= b < sb + nb { true } else { old(self).free_map()[b] })
                &&& final(self).freed == old(self).freed.wrapping_add(bytes)
                &&& final(self).free_space == old(self).free_space.wrapping_add(bytes)
                &&& final(self).weight == weight_of(final(self).free_space, final(self).size)
            }),
    {
        let rel = if offset >= self.start { offset - self.start } else { 0 };
        let start_block = (rel / HV_MS_BLOCK_SIZE) as u32;
        assert(start_block == first_block_of(offset, self.start));
        let blocks = size / HV_MS_BLOCK_SIZE + if size % HV_MS_BLOCK_SIZE != 0 { 1 } else { 0 };
        proof {
            assert(blocks as int == blocks_for(size));
        }
        let nblocks = blocks as u32;
        let ghost old_map = self.free_map();
        let end = start_block + nblocks;
        let mut b: u32 = start_block;
        while b < end
            invariant
                self.wf(),
                start_block <= b <= end,
                end == start_block + nblocks,
                self.max_block == old(self).max_block,
                self.size == old(self).size,
                self.start == old(self).start,
                self.free_space == old(self).free_space,
                self.allocated == old(self).allocated,
                self.freed == old(self).freed,
                self.state == old(self).state,
                old_map == old(self).free_map(),
                self.free_map() == Seq::new(self.max_block as nat,
                    |k: int| if start_block <= k < b { true } else { old_map[k] }),
            decreases end - b,
        {
            let ghost prev = self.bitmap@;
            let ghost pb = b;
            proof {
                assert forall|k: int| 0 <= k < self.max_block implies block_free(prev, k)
                    == (if start_block <= k < pb { true } else { old_map[k] }) by {
                    assert(self.free_map()[k] == block_free(prev, k));
                }
            }
            if b < self.max_block {
                self.set_bit(b);
            }
            b += 1;
            proof {
                assert forall|k: int| 0 <= k < self.max_block implies #[trigger] block_free(self.bitmap@, k)
                    == (if start_block <= k < b { true } else { old_map[k] }) by {
                    if pb < self.max_block {
                        assert(block_free(self.bitmap@, k) == (block_free(prev, k) || (k == pb && k / 64 < prev.len())));
                    }
                }
                assert(self.free_map() =~= Seq::new(self.max_block as nat,
                    |k: int| if start_block <= k < b { true } else { old_map[k] }));
            }
        }
        let bytes = nblocks as u64 * HV_MS_BLOCK_SIZE;
        self.freed = self.freed.wrapping_add(bytes);
        self.free_space = self.free_space.wrapping_add(bytes);
        self.update_weight();
    }

    /// Recomputes the weight from the free space.
    fn update_weight(&mut self)
        ensures
            final(self).weight == weight_of(old(self).free_space, old(self).size),
            *final(self) == (NestMetaslab { weight: final(self).weight, ..*old(self) }),
    {
        let free = self.free_space;
        self.weight = if free > self.size / 2 { free } else { free * 2 };
    }

    /// Whether the metaslab is active with free space left.
    pub fn is_available(&self) -> (r: bool)
        ensures
            r == (self.state == NestMsState::Active && self.free_space > 0),
    {
        self.state == NestMsState::Active && self.free_space > 0
    }

    /// Free space as a percentage of the size (0 for an empty metaslab).
    pub fn fragmentation(&self) -> (r: u8)
        requires
            self.size == 0 || self.free_space as int * 100 <= u64::MAX,
        ensures
            r == (if self.size == 0 { 0 } else { ((self.free_space * 100) / self.size as int) as u8 }),
    {
        let free = self.free_space;
        if self.size == 0 {
            return 0;
        }
        ((free * 100) / self.size) as u8
    }

    /// Marks the metaslab full when no space is free, active otherwise.
    pub fn sync(&mut self)
        ensures
            final(self).state == (if old(self).free_space == 0 { NestMsState::Full } else { NestMsState::Active }),
            *final(self) == (NestMetaslab { state: final(self).state, ..*old(self) }),
    {
        let free = self.free_space;
        if free == 0 {
            self.state = NestMsState::Full;
        } else {
            self.state = NestMsState::Active;
        }
    }
}

/// Freeing what an allocation handed out undoes it: the allocation at the
/// first fit `s` of `nb` blocks returns offset `start + s * HV_MS_BLOCK_SIZE`;
/// freeing that offset with the same size marks the same blocks free again,
/// which gives back the free map from before the allocation, and the free
/// byte count comes back as well.
pub proof fn lemma_free_undoes_allocate(map: Seq<bool>, s: int, nb: int, start: u64, free_space: u64, bytes: u64)
    requires
        first_fit(map, nb, s),
        s <= u32::MAX,
        start + s * HV_MS_BLOCK_SIZE <= u64::MAX,
    ensures
        ({
            let allocated = Seq::new(map.len(), |b: int| if s <= b < s + nb { false } else { map[b] });
            let sb = first_block_of((start + s * HV_MS_BLOCK_SIZE) as u64, start) as int;
            &&& sb == s
            &&& Seq::new(map.len(), |b: int| if sb <= b < sb + nb { true } else { allocated[b] }) == map
        }),
        free_space.wrapping_sub(bytes).wrapping_add(bytes) == free_space,
{
    let off = (start + s * HV_MS_BLOCK_SIZE) as u64;
    assert(off - start == s * HV_MS_BLOCK_SIZE);
    assert((s * HV_MS_BLOCK_SIZE) / (HV_MS_BLOCK_SIZE as int) == s) by (nonlinear_arith)
        requires
            s >= 0,
    ;
    let allocated = Seq::new(map.len(), |b: int| if s <= b < s + nb { false } else { map[b] });
    assert(Seq::new(map.len(), |b: int| if s <= b < s + nb { true } else { allocated[b] }) =~= map);
}

} // verus!
