//! Content-addressed deduplication index: for each content hash, the block
//! pointers holding that content and a reference count.
use crate::bytes_util::bytes_eq;
use crate::nestfs::bp::NestBlockPointer;
use crate::nestfs::checksum::{be_word, be_word_at};
use std::collections::BTreeMap;
use crate::nestfs::zil::NestZilRecord;
use crate::sha256::{sha256_spec, SHA256_MAX_LEN};
use vstd::prelude::*;

verus! {

/// Bytes in a content hash.
pub const CAS_HASH_SIZE: usize = 32;

/// A content hash.
pub type CasHash = [u8; CAS_HASH_SIZE];

/// Operations on the index, as logged.
#[derive(Debug, Clone, Copy)]
pub enum CasOp {
    RefInc,
    RefDec,
    Insert,
    Evict,
}

/// A content hash as an ordered key: its four big-endian 64-bit words, which
/// order as the hash's bytes do.
pub type CasKey = (u64, u64, u64, u64);

/// The key of a content hash.
pub open spec fn cas_key(h: CasHash) -> CasKey {
    (be_word(h@, 0), be_word(h@, 8), be_word(h@, 16), be_word(h@, 24))
}

/// The key of `h`.
fn key_of(h: &CasHash) -> (k: CasKey)
    ensures
        k == cas_key(*h),
{
    (be_word_at(h, 0), be_word_at(h, 8), be_word_at(h, 16), be_word_at(h, 24))
}

/// Keys are ordered as std orders tuples of integers.
proof fn lemma_key_order()
    ensures
        vstd::laws_cmp::obeys_cmp::<CasKey>(),
{
    broadcast use vstd::laws_cmp::group_laws_cmp;
}

/// Eight bytes are determined by their big-endian word.
proof fn lemma_be_word_injective(a: Seq<u8>, b: Seq<u8>, off: int)
    requires
        0 <= off,
        off + 8 <= a.len(),
        off + 8 <= b.len(),
        be_word(a, off) == be_word(b, off),
    ensures
        forall|k: int| off <= k < off + 8 ==> a[k] == b[k],
{
    let (a0, a1, a2, a3, a4, a5, a6, a7) = (a[off], a[off + 1], a[off + 2], a[off + 3], a[off + 4], a[off + 5], a[off + 6], a[off + 7]);
    let (b0, b1, b2, b3, b4, b5, b6, b7) = (b[off], b[off + 1], b[off + 2], b[off + 3], b[off + 4], b[off + 5], b[off + 6], b[off + 7]);
    assert(a0 == b0 && a1 == b1 && a2 == b2 && a3 == b3 && a4 == b4 && a5 == b5 && a6 == b6 && a7 == b7) by (bit_vector)
        requires
            ((a0 as u64) << 56) | ((a1 as u64) << 48) | ((a2 as u64) << 40) | ((a3 as u64) << 32) | ((a4 as u64) << 24)
                | ((a5 as u64) << 16) | ((a6 as u64) << 8) | (a7 as u64)
            == ((b0 as u64) << 56) | ((b1 as u64) << 48) | ((b2 as u64) << 40) | ((b3 as u64) << 32) | ((b4 as u64) << 24)
                | ((b5 as u64) << 16) | ((b6 as u64) << 8) | (b7 as u64),
    ;
    assert forall|k: int| off <= k < off + 8 implies a[k] == b[k] by {
        if k == off + 1 {} else if k == off + 2 {} else if k == off + 3 {} else if k == off + 4 {}
        else if k == off + 5 {} else if k == off + 6 {} else if k == off + 7 {} else {}
    }
}

/// Different hashes have different keys.
pub proof fn lemma_cas_key_injective(a: CasHash, b: CasHash)
    requires
        cas_key(a) == cas_key(b),
    ensures
        a == b,
{
    lemma_be_word_injective(a@, b@, 0);
    lemma_be_word_injective(a@, b@, 8);
    lemma_be_word_injective(a@, b@, 16);
    lemma_be_word_injective(a@, b@, 24);
    assert(a@ =~= b@);
    broadcast use vstd::array::group_array_axioms;
    assert(a =~= b);
}

/// The index: block pointers and reference counts by content hash.
pub struct CasIndex {
    hash_to_dva: BTreeMap<CasKey, Vec<NestBlockPointer>>,
    ref_counts: BTreeMap<CasKey, u64>,
    hits: u64,
    misses: u64,
    synced: u64,
}

/// The entries of a map by key, read by content hash.
pub open spec fn by_hash<V>(m: Map<CasKey, V>) -> Map<CasHash, V> {
    Map::new(|h: CasHash| m.contains_key(cas_key(h)), |h: CasHash| m[cas_key(h)])
}

/// Changing the entry of one key changes the entry of its hash only.
proof fn lemma_by_hash_insert<V>(m: Map<CasKey, V>, h: CasHash, v: V)
    ensures
        by_hash(m.insert(cas_key(h), v)) == by_hash(m).insert(h, v),
{
    assert forall|g: CasHash| #[trigger] by_hash(m.insert(cas_key(h), v)).contains_key(g)
        == by_hash(m).insert(h, v).contains_key(g) by {
        if g != h && cas_key(g) == cas_key(h) {
            lemma_cas_key_injective(g, h);
        }
    }
    assert forall|g: CasHash| by_hash(m.insert(cas_key(h), v)).contains_key(g)
        implies #[trigger] by_hash(m.insert(cas_key(h), v))[g] == by_hash(m).insert(h, v)[g] by {
        if g != h && cas_key(g) == cas_key(h) {
            lemma_cas_key_injective(g, h);
        }
    }
    assert(by_hash(m.insert(cas_key(h), v)) =~= by_hash(m).insert(h, v));
}

/// Removing the entry of one key removes the entry of its hash only.
proof fn lemma_by_hash_remove<V>(m: Map<CasKey, V>, h: CasHash)
    ensures
        by_hash(m.remove(cas_key(h))) == by_hash(m).remove(h),
{
    assert forall|g: CasHash| #[trigger] by_hash(m.remove(cas_key(h))).contains_key(g)
        == by_hash(m).remove(h).contains_key(g) by {
        if g != h && cas_key(g) == cas_key(h) {
            lemma_cas_key_injective(g, h);
        }
    }
    assert(by_hash(m.remove(cas_key(h))) =~= by_hash(m).remove(h));
}

/// The block pointer lists as sequences.
pub open spec fn dva_lists(m: Map<CasKey, Vec<NestBlockPointer>>) -> Map<CasKey, Seq<NestBlockPointer>> {
    m.map_values(|v: Vec<NestBlockPointer>| v@)
}

impl CasIndex {
    /// The block pointers recorded for each hash.
    pub closed spec fn dvas(&self) -> Map<CasHash, Seq<NestBlockPointer>> {
        by_hash(dva_lists(self.hash_to_dva@))
    }

    /// The reference count of each known hash.
    pub closed spec fn refs(&self) -> Map<CasHash, u64> {
        by_hash(self.ref_counts@)
    }

    /// Lookups that found a block, and reference increments.
    pub closed spec fn hit_count(&self) -> u64 {
        self.hits
    }

    /// Lookups that found none.
    pub closed spec fn miss_count(&self) -> u64 {
        self.misses
    }

    /// Inserts made.
    pub closed spec fn sync_count(&self) -> u64 {
        self.synced
    }

    /// An empty index.
    pub fn new() -> (c: Self)
        ensures
            c.dvas() == Map::<CasHash, Seq<NestBlockPointer>>::empty(),
            c.refs() == Map::<CasHash, u64>::empty(),
            c.hit_count() == 0 && c.miss_count() == 0 && c.sync_count() == 0,
    {
        let c = CasIndex { hash_to_dva: BTreeMap::new(), ref_counts: BTreeMap::new(), hits: 0, misses: 0, synced: 0 };
        assert(c.dvas() =~= Map::<CasHash, Seq<NestBlockPointer>>::empty());
        assert(c.refs() =~= Map::<CasHash, u64>::empty());
        c
    }

    /// The first block pointer recorded for `hash` (counting a hit), or
    /// `None` (counting a miss).
    pub fn lookup(&mut self, hash: &CasHash) -> (r: Option<NestBlockPointer>)
        ensures
            final(self).dvas() == old(self).dvas(),
            final(self).refs() == old(self).refs(),
            final(self).sync_count() == old(self).sync_count(),
            ({
                let d = old(self).dvas();
                if d.contains_key(*hash) && d[*hash].len() > 0 {
                    &&& r == Some(d[*hash][0])
                    &&& final(self).hit_count() == old(self).hit_count().wrapping_add(1)
                    &&& final(self).miss_count() == old(self).miss_count()
                } else {
                    &&& r is None
                    &&& final(self).miss_count() == old(self).miss_count().wrapping_add(1)
                    &&& final(self).hit_count() == old(self).hit_count()
                }
            }),
    {
        broadcast use vstd::std_specs::btree::group_btree_axioms;
        proof {
            lemma_key_order();
        }
        let k = key_of(hash);
        match self.hash_to_dva.get(&k) {
            Some(list) => {
                if list.len() > 0 {
                    let bp = list[0];
                    self.hits = self.hits.wrapping_add(1);
                    return Some(bp);
                }
            },
            None => {},
        }
        self.misses = self.misses.wrapping_add(1);
        None
    }

    /// The reference count of `hash` plus one, updating the count map.
    fn bump_ref(refs: &mut BTreeMap<CasKey, u64>, hash: &CasHash) -> (r: u64)
        requires
            !by_hash(old(refs)@).contains_key(*hash) || by_hash(old(refs)@)[*hash] < u64::MAX,
        ensures
            r == (if by_hash(old(refs)@).contains_key(*hash) { by_hash(old(refs)@)[*hash] + 1 } else { 1 }),
            by_hash(final(refs)@) == by_hash(old(refs)@).insert(*hash, r),
    {
        broadcast use vstd::std_specs::btree::group_btree_axioms;
        proof {
            lemma_key_order();
        }
        let k = key_of(hash);
        let c = match refs.get(&k) {
            Some(n) => *n + 1,
            None => 1,
        };
        refs.insert(k, c);
        proof {
            lemma_by_hash_insert(old(refs)@, *hash, c);
        }
        c
    }

    /// Records `bp` as holding the content `hash` and counts a reference
    /// and an insert.
    pub fn insert(&mut self, hash: CasHash, bp: NestBlockPointer)
        requires
            !old(self).refs().contains_key(hash) || old(self).refs()[hash] < u64::MAX,
        ensures
            final(self).dvas() == old(self).dvas().insert(hash,
                (if old(self).dvas().contains_key(hash) { old(self).dvas()[hash] } else { Seq::empty() }).push(bp)),
            final(self).refs() == old(self).refs().insert(hash,
                (if old(self).refs().contains_key(hash) { old(self).refs()[hash] + 1 } else { 1 }) as u64),
            final(self).sync_count() == old(self).sync_count().wrapping_add(1),
            final(self).hit_count() == old(self).hit_count(),
            final(self).miss_count() == old(self).miss_count(),
    {
        broadcast use vstd::std_specs::btree::group_btree_axioms;
        proof {
            lemma_key_order();
        }
        let k = key_of(&hash);
        let ghost m0 = self.hash_to_dva@;
        let mut list = match self.hash_to_dva.remove(&k) {
            Some(l) => l,
            None => Vec::new(),
        };
        let ghost prev = list@;
        list.push(bp);
        let ghost nl = list@;
        self.hash_to_dva.insert(k, list);
        proof {
            assert(self.hash_to_dva@ == m0.insert(k, self.hash_to_dva@[k]));
            assert(dva_lists(self.hash_to_dva@) =~= dva_lists(m0).insert(k, nl));
            lemma_by_hash_insert(dva_lists(m0), hash, nl);
            assert(prev == (if by_hash(dva_lists(m0)).contains_key(hash) { by_hash(dva_lists(m0))[hash] } else { Seq::<NestBlockPointer>::empty() }));
        }
        Self::bump_ref(&mut self.ref_counts, &hash);
        self.synced = self.synced.wrapping_add(1);
    }

    /// Adds a reference to `hash` (counting a hit) and returns the new
    /// count.
    pub fn ref_inc(&mut self, hash: &CasHash) -> (r: u64)
        requires
            !old(self).refs().contains_key(*hash) || old(self).refs()[*hash] < u64::MAX,
        ensures
            r == (if old(self).refs().contains_key(*hash) { old(self).refs()[*hash] + 1 } else { 1 }),
            final(self).refs() == old(self).refs().insert(*hash, r),
            final(self).dvas() == old(self).dvas(),
            final(self).hit_count() == old(self).hit_count().wrapping_add(1),
            final(self).miss_count() == old(self).miss_count(),
            final(self).sync_count() == old(self).sync_count(),
    {
        let c = Self::bump_ref(&mut self.ref_counts, hash);
        self.hits = self.hits.wrapping_add(1);
        c
    }

    /// Drops a reference to `hash` and returns the count left; at zero the
    /// hash is forgotten along with its block pointers. An unknown hash
    /// gives 0 and changes nothing.
    pub fn ref_dec(&mut self, hash: &CasHash) -> (r: u64)
        ensures
            final(self).hit_count() == old(self).hit_count(),
            final(self).miss_count() == old(self).miss_count(),
            final(self).sync_count() == old(self).sync_count(),
            !old(self).refs().contains_key(*hash) ==> r == 0 && final(self).refs() == old(self).refs()
                && final(self).dvas() == old(self).dvas(),
            old(self).refs().contains_key(*hash) && old(self).refs()[*hash] <= 1 ==> r == 0
                && final(self).refs() == old(self).refs().remove(*hash)
                && final(self).dvas() == old(self).dvas().remove(*hash),
            old(self).refs().contains_key(*hash) && old(self).refs()[*hash] > 1 ==> r == old(self).refs()[*hash] - 1
                && final(self).refs() == old(self).refs().insert(*hash, r)
                && final(self).dvas() == old(self).dvas(),
    {
        broadcast use vstd::std_specs::btree::group_btree_axioms;
        proof {
            lemma_key_order();
        }
        let k = key_of(hash);
        let ghost r0 = self.ref_counts@;
        let c = match self.ref_counts.get(&k) {
            Some(n) => *n,
            None => {
                return 0;
            },
        };
        let n = if c > 0 { c - 1 } else { 0 };
        if n == 0 {
            self.ref_counts.remove(&k);
            proof {
                lemma_by_hash_remove(r0, *hash);
            }
            self.drop_dvas(hash);
            return 0;
        }
        self.ref_counts.insert(k, n);
        proof {
            lemma_by_hash_insert(r0, *hash, n);
        }
        n
    }

    /// Forgets the block pointers of `hash`.
    fn drop_dvas(&mut self, hash: &CasHash)
        ensures
            final(self).dvas() == old(self).dvas().remove(*hash),
            final(self).refs() == old(self).refs(),
            final(self).hit_count() == old(self).hit_count(),
            final(self).miss_count() == old(self).miss_count(),
            final(self).sync_count() == old(self).sync_count(),
    {
        broadcast use vstd::std_specs::btree::group_btree_axioms;
        proof {
            lemma_key_order();
        }
        let k = key_of(hash);
        let ghost m0 = self.hash_to_dva@;
        self.hash_to_dva.remove(&k);
        proof {
            assert(dva_lists(self.hash_to_dva@) =~= dva_lists(m0).remove(k));
            lemma_by_hash_remove(dva_lists(m0), *hash);
        }
    }

    /// The reference count of `hash` (0 when unknown).
    pub fn ref_count(&self, hash: &CasHash) -> (r: u64)
        ensures
            r == (if self.refs().contains_key(*hash) { self.refs()[*hash] } else { 0 }),
    {
        broadcast use vstd::std_specs::btree::group_btree_axioms;
        proof {
            lemma_key_order();
        }
        let k = key_of(hash);
        match self.ref_counts.get(&k) {
            Some(n) => *n,
            None => 0,
        }
    }

    /// Whether `hash` has a reference count.
    pub fn is_known(&self, hash: &CasHash) -> (r: bool)
        ensures
            r == self.refs().contains_key(*hash),
    {
        broadcast use vstd::std_specs::btree::group_btree_axioms;
        proof {
            lemma_key_order();
        }
        let k = key_of(hash);
        self.ref_counts.contains_key(&k)
    }

    /// Hits, misses and inserts.
    pub fn get_stats(&self) -> (r: (u64, u64, u64))
        ensures
            r == (self.hit_count(), self.miss_count(), self.sync_count()),
    {
        (self.hits, self.misses, self.synced)
    }

    /// Forgets `hash`: its block pointers and its count.
    pub fn invalidate(&mut self, hash: &CasHash)
        ensures
            final(self).dvas() == old(self).dvas().remove(*hash),
            final(self).refs() == old(self).refs().remove(*hash),
            final(self).hit_count() == old(self).hit_count(),
            final(self).miss_count() == old(self).miss_count(),
            final(self).sync_count() == old(self).sync_count(),
    {
        broadcast use vstd::std_specs::btree::group_btree_axioms;
        proof {
            lemma_key_order();
        }
        self.drop_dvas(hash);
        let k = key_of(hash);
        let ghost r0 = self.ref_counts@;
        self.ref_counts.remove(&k);
        proof {
            lemma_by_hash_remove(r0, *hash);
        }
    }
}

/// Looks `hash` up in `cas` (see `CasIndex::lookup`).
pub fn cas_lookup(cas: &mut CasIndex, hash: &CasHash) -> (r: Option<NestBlockPointer>)
    ensures
        final(cas).dvas() == old(cas).dvas(),
        final(cas).refs() == old(cas).refs(),
        ({
            let d = old(cas).dvas();
            if d.contains_key(*hash) && d[*hash].len() > 0 { r == Some(d[*hash][0]) } else { r is None }
        }),
{
    cas.lookup(hash)
}

/// Records `bp` for `hash` in `cas` (see `CasIndex::insert`).
pub fn cas_insert(cas: &mut CasIndex, hash: CasHash, bp: NestBlockPointer)
    requires
        !old(cas).refs().contains_key(hash) || old(cas).refs()[hash] < u64::MAX,
    ensures
        final(cas).dvas() == old(cas).dvas().insert(hash,
            (if old(cas).dvas().contains_key(hash) { old(cas).dvas()[hash] } else { Seq::empty() }).push(bp)),
        final(cas).refs() == old(cas).refs().insert(hash,
            (if old(cas).refs().contains_key(hash) { old(cas).refs()[hash] + 1 } else { 1 }) as u64),
{
    cas.insert(hash, bp)
}

/// Adds a reference to `hash` in `cas` (see `CasIndex::ref_inc`).
pub fn cas_ref_inc(cas: &mut CasIndex, hash: &CasHash) -> (r: u64)
    requires
        !old(cas).refs().contains_key(*hash) || old(cas).refs()[*hash] < u64::MAX,
    ensures
        r == (if old(cas).refs().contains_key(*hash) { old(cas).refs()[*hash] + 1 } else { 1 }),
        final(cas).refs() == old(cas).refs().insert(*hash, r),
        final(cas).dvas() == old(cas).dvas(),
{
    cas.ref_inc(hash)
}

/// Drops a reference to `hash` in `cas` (see `CasIndex::ref_dec`).
pub fn cas_ref_dec(cas: &mut CasIndex, hash: &CasHash) -> (r: u64)
    ensures
        !old(cas).refs().contains_key(*hash) ==> r == 0 && final(cas).refs() == old(cas).refs()
            && final(cas).dvas() == old(cas).dvas(),
        old(cas).refs().contains_key(*hash) && old(cas).refs()[*hash] <= 1 ==> r == 0
            && final(cas).refs() == old(cas).refs().remove(*hash)
            && final(cas).dvas() == old(cas).dvas().remove(*hash),
        old(cas).refs().contains_key(*hash) && old(cas).refs()[*hash] > 1 ==> r == old(cas).refs()[*hash] - 1
            && final(cas).refs() == old(cas).refs().insert(*hash, r)
            && final(cas).dvas() == old(cas).dvas(),
{
    cas.ref_dec(hash)
}

/// The reference count of `hash` in `cas`.
pub fn cas_ref_count(cas: &CasIndex, hash: &CasHash) -> (r: u64)
    ensures
        r == (if cas.refs().contains_key(*hash) { cas.refs()[*hash] } else { 0 }),
{
    cas.ref_count(hash)
}

/// Whether `hash` is known to `cas`.
pub fn cas_is_known(cas: &CasIndex, hash: &CasHash) -> (r: bool)
    ensures
        r == cas.refs().contains_key(*hash),
{
    cas.is_known(hash)
}

/// Hits, misses and inserts of `cas`.
pub fn cas_stats(cas: &CasIndex) -> (r: (u64, u64, u64))
    ensures
        r == (cas.hit_count(), cas.miss_count(), cas.sync_count()),
{
    cas.get_stats()
}

/// Drops a reference to `hash`; whether the content is now unreferenced.
pub fn cas_aware_free(cas: &mut CasIndex, hash: &CasHash) -> (r: bool)
    ensures
        r == (!old(cas).refs().contains_key(*hash) || old(cas).refs()[*hash] <= 1),
        r ==> !final(cas).refs().contains_key(*hash),
{
    let count = cas_ref_dec(cas, hash);
    count == 0
}

/// The SHA-256 digest of `data`, the content hash of a block.
pub fn sha256(data: &[u8]) -> (h: CasHash)
    requires
        data@.len() < SHA256_MAX_LEN,
    ensures
        h@ == sha256_spec(data@),
{
    crate::sha256::sha256(data)
}

/// Whether `expected` is the content hash of `data`.
pub fn sha256_matches(data: &[u8], expected: &CasHash) -> (r: bool)
    requires
        data@.len() < SHA256_MAX_LEN,
    ensures
        r == (expected@ == sha256_spec(data@)),
{
    let h = sha256(data);
    bytes_eq(&h, expected)
}

/// Deduplicating write of `data`: when its content hash is known with a
/// block pointer, a reference is added and the first recorded block
/// pointer returned; otherwise nothing changes and `None` tells the caller
/// to write the block.
pub fn cas_aware_write(cas: &mut CasIndex, data: &[u8], txg: u64, obj_id: u64) -> (r: Option<NestBlockPointer>)
    requires
        data@.len() < SHA256_MAX_LEN,
        forall|h: CasHash| h@ == sha256_spec(data@) ==> (!old(cas).refs().contains_key(h) || old(cas).refs()[h] < u64::MAX),
    ensures
        forall|h: CasHash| #![trigger h@] h@ == sha256_spec(data@) ==> {
            let d = old(cas).dvas();
            if d.contains_key(h) && d[h].len() > 0 {
                &&& r == Some(d[h][0])
                &&& final(cas).refs() == old(cas).refs().insert(h,
                    (if old(cas).refs().contains_key(h) { old(cas).refs()[h] + 1 } else { 1 }) as u64)
                &&& final(cas).dvas() == d
            } else {
                &&& r is None
                &&& final(cas).refs() == old(cas).refs()
                &&& final(cas).dvas() == d
            }
        },
{
    let hash = sha256(data);
    proof {
        broadcast use vstd::array::group_array_axioms;
        assert forall|h: CasHash| h@ == sha256_spec(data@) implies h == hash by {
            assert(h =~= hash);
        }
    }
    match cas.lookup(&hash) {
        Some(existing) => {
            cas.ref_inc(&hash);
            let _record = NestZilRecord::new_dedup_ref(
                txg,
                [be_word_at(&hash, 0), be_word_at(&hash, 8), be_word_at(&hash, 16), be_word_at(&hash, 24)],
                obj_id,
            );
            Some(existing)
        },
        None => None,
    }
}

/// A reference taken and dropped again leaves the count where it was.
pub proof fn lemma_ref_inc_dec(before: Map<CasHash, u64>, hash: CasHash, after_inc: Map<CasHash, u64>, inc: u64,
    after_dec: Map<CasHash, u64>, dec: u64)
    requires
        !before.contains_key(hash) || before[hash] < u64::MAX,
        inc == (if before.contains_key(hash) { before[hash] + 1 } else { 1 }),
        after_inc == before.insert(hash, inc),
        after_inc.contains_key(hash) && after_inc[hash] > 1 ==> dec == after_inc[hash] - 1
            && after_dec == after_inc.insert(hash, dec),
        after_inc.contains_key(hash) && after_inc[hash] <= 1 ==> dec == 0 && after_dec == after_inc.remove(hash),
    ensures
        before.contains_key(hash) ==> dec == before[hash] && after_dec == (if before[hash] == 0 { before.remove(hash) } else { before }),
        !before.contains_key(hash) ==> dec == 0 && after_dec == before,
{
    if before.contains_key(hash) {
        if before[hash] == 0 {
            assert(after_dec =~= before.remove(hash));
        } else {
            assert(after_dec =~= before);
        }
    } else {
        assert(after_dec =~= before);
    }
}

} // verus!
