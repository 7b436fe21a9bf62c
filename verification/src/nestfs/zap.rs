//! ZAP: a small name → value attribute store.
//!
//! Entries keep the name (at most `HV_ZAP_MAX_NAME` bytes), the value (at most
//! `HV_ZAP_MAX_VALUE` bytes) and the FNV-1a hash of the full name. A name
//! matches an entry when the entry is in use, the hashes agree and the stored
//! name (up to its first NUL byte, decoded as UTF-8) equals the name.
use crate::bytes_util::{bytes_eq, copy_prefix, lemma_nul_index, slice_prefix, slice_until_nul, truncate, until_nul, utf8_or_empty, utf8_or_empty_spec};
use vstd::prelude::*;
use vstd::bytes::{spec_u64_from_le_bytes, spec_u64_to_le_bytes, u64_from_le_bytes, u64_to_le_bytes};
use vstd::string::StringSliceAdditionalSpecFns;
use vstd::utf8::encode_utf8;

verus! {

pub const HV_ZAP_MAX_NAME: usize = 64;

pub const HV_ZAP_MAX_VALUE: usize = 128;

pub const HV_ZAP_MAX_ENTRIES: usize = 256;

pub const FNV_OFFSET: u64 = 14695981039346656037;

pub const FNV_PRIME: u64 = 1099511628211;

/// 64-bit FNV-1a hash of a byte sequence.
pub open spec fn fnv1a(s: Seq<u8>) -> u64
    decreases s.len(),
{
    if s.len() == 0 {
        FNV_OFFSET
    } else {
        (fnv1a(s.drop_last()) ^ (s.last() as u64)).wrapping_mul(FNV_PRIME)
    }
}

/// One entry of a ZAP.
#[derive(Debug)]
pub struct NestZapEntry {
    pub name: Vec<u8>,
    pub value: Vec<u8>,
    pub hash: u64,
    pub used: bool,
}

/// The mathematical content of a ZAP entry.
pub struct ZapEntryView {
    pub name: Seq<u8>,
    pub value: Seq<u8>,
    pub hash: u64,
    pub used: bool,
}

impl View for NestZapEntry {
    type V = ZapEntryView;

    open spec fn view(&self) -> ZapEntryView {
        ZapEntryView { name: self.name@, value: self.value@, hash: self.hash, used: self.used }
    }
}

/// The name an entry reports: its bytes up to the first NUL, or empty when
/// those bytes are not UTF-8.
pub open spec fn entry_name(e: ZapEntryView) -> Seq<u8> {
    utf8_or_empty_spec(until_nul(e.name))
}

/// Whether the entry `e` answers to `name`.
pub open spec fn entry_matches(e: ZapEntryView, name: Seq<u8>) -> bool {
    e.used && e.hash == fnv1a(name) && entry_name(e) == name
}

/// The value an entry reads as a little-endian `u64` (0 when shorter than 8 bytes).
pub open spec fn entry_value_u64(e: ZapEntryView) -> u64 {
    if e.value.len() >= 8 {
        spec_u64_from_le_bytes(e.value.take(8))
    } else {
        0
    }
}

/// The entry that `NestZapEntry::new(name, value)` builds.
pub open spec fn new_entry_view(name: Seq<u8>, value: Seq<u8>) -> ZapEntryView {
    ZapEntryView {
        name: truncate(name, HV_ZAP_MAX_NAME as int),
        value: truncate(value, HV_ZAP_MAX_VALUE as int),
        hash: fnv1a(name),
        used: true,
    }
}

/// `i` is the first entry of `s` that answers to `name`.
pub open spec fn is_first_match(s: Seq<ZapEntryView>, name: Seq<u8>, i: int) -> bool {
    &&& 0 <= i < s.len()
    &&& entry_matches(s[i], name)
    &&& forall|j: int| 0 <= j < i ==> !entry_matches(s[j], name)
}

/// Some entry of `s` answers to `name`.
pub open spec fn has_match(s: Seq<ZapEntryView>, name: Seq<u8>) -> bool {
    exists|i: int| 0 <= i < s.len() && entry_matches(s[i], name)
}

/// The first entry of `s` that answers to `name` (meaningful under `has_match`).
pub open spec fn first_match(s: Seq<ZapEntryView>, name: Seq<u8>) -> int {
    choose|i: int| is_first_match(s, name, i)
}

/// The value stored under `name`, if any.
pub open spec fn zap_lookup_spec(s: Seq<ZapEntryView>, name: Seq<u8>) -> Option<Seq<u8>> {
    if has_match(s, name) {
        Some(s[first_match(s, name)].value)
    } else {
        None
    }
}

/// The entries after inserting `value` under `name`, and whether the insert succeeded.
pub open spec fn zap_insert_spec(s: Seq<ZapEntryView>, capacity: int, name: Seq<u8>, value: Seq<u8>) -> (Seq<ZapEntryView>, bool) {
    if s.len() >= capacity {
        (s, false)
    } else if has_match(s, name) {
        let i = first_match(s, name);
        (s.update(i, ZapEntryView { value: truncate(value, HV_ZAP_MAX_VALUE as int), ..s[i] }), true)
    } else {
        (s.push(new_entry_view(name, value)), true)
    }
}

/// The entries after removing `name`, and whether an entry was removed.
pub open spec fn zap_remove_spec(s: Seq<ZapEntryView>, name: Seq<u8>) -> (Seq<ZapEntryView>, bool) {
    if has_match(s, name) {
        (s.remove(first_match(s, name)), true)
    } else {
        (s, false)
    }
}

/// Number of entries in use.
pub open spec fn count_used(s: Seq<ZapEntryView>) -> nat
    decreases s.len(),
{
    if s.len() == 0 {
        0
    } else {
        count_used(s.drop_last()) + if s.last().used { 1nat } else { 0nat }
    }
}

/// The subsequence of entries in use.
pub open spec fn used_entries(s: Seq<ZapEntryView>) -> Seq<ZapEntryView> {
    s.filter(|e: ZapEntryView| e.used)
}

/// The first match of a name is unique.
pub proof fn lemma_first_match_unique(s: Seq<ZapEntryView>, name: Seq<u8>, i: int)
    requires
        is_first_match(s, name, i),
    ensures
        has_match(s, name),
        first_match(s, name) == i,
{
    assert(entry_matches(s[i], name));
    let k = first_match(s, name);
    assert(is_first_match(s, name, k));
    if k < i {
        assert(!entry_matches(s[k], name));
    }
    if i < k {
        assert(!entry_matches(s[i], name));
    }
}

/// When some entry answers to `name`, `first_match` is the first such entry.
pub proof fn lemma_first_match_exists(s: Seq<ZapEntryView>, name: Seq<u8>)
    requires
        has_match(s, name),
    ensures
        is_first_match(s, name, first_match(s, name)),
    decreases s.len(),
{
    let p = s.drop_last();
    if has_match(p, name) {
        lemma_first_match_exists(p, name);
        let i = first_match(p, name);
        assert(p[i] == s[i]);
        assert forall|j: int| 0 <= j < i implies !entry_matches(s[j], name) by {
            assert(p[j] == s[j]);
        }
        assert(is_first_match(s, name, i));
    } else {
        let i = s.len() - 1;
        let k = choose|k: int| 0 <= k < s.len() && entry_matches(s[k], name);
        if k < i {
            assert(p[k] == s[k]);
        }
        assert forall|j: int| 0 <= j < i implies !entry_matches(s[j], name) by {
            assert(p[j] == s[j]);
        }
        assert(is_first_match(s, name, i));
    }
}

/// The ZAP type that a capacity selects.
pub open spec fn zap_type_for(capacity: int) -> NestZapType {
    if capacity <= 64 { NestZapType::Micro } else { NestZapType::Normal }
}

impl NestZapEntry {
    /// Builds an entry, truncating name and value to their maximal lengths.
    pub fn new(name: &str, value: &[u8]) -> (e: Self)
        ensures
            e@ == new_entry_view(name.spec_bytes(), value@),
    {
        let nb = name.as_bytes();
        NestZapEntry {
            name: copy_prefix(nb, HV_ZAP_MAX_NAME),
            value: copy_prefix(value, HV_ZAP_MAX_VALUE),
            hash: Self::hash_name(name),
            used: true,
        }
    }

    /// The stored name up to its first NUL byte (empty when not UTF-8).
    pub fn get_name(&self) -> (s: &str)
        ensures
            s.spec_bytes() == entry_name(self@),
    {
        utf8_or_empty(slice_until_nul(self.name.as_slice()))
    }

    /// The stored value.
    pub fn get_value(&self) -> (v: &[u8])
        ensures
            v@ == self@.value,
    {
        self.value.as_slice()
    }

    /// The stored value read as a little-endian `u64`, or 0 when it is
    /// shorter than 8 bytes.
    pub fn get_value_u64(&self) -> (r: u64)
        ensures
            r == entry_value_u64(self@),
    {
        if self.value.len() >= 8 {
            u64_from_le_bytes(slice_prefix(self.value.as_slice(), 8))
        } else {
            0
        }
    }

    /// FNV-1a hash of the name's bytes.
    pub fn hash_name(name: &str) -> (h: u64)
        ensures
            h == fnv1a(name.spec_bytes()),
    {
        let b = name.as_bytes();
        let mut h: u64 = FNV_OFFSET;
        let mut i: usize = 0;
        while i < b.len()
            invariant
                0 <= i <= b@.len(),
                h == fnv1a(b@.take(i as int)),
            decreases b@.len() - i,
        {
            proof {
                assert(b@.take(i + 1).drop_last() =~= b@.take(i as int));
            }
            h = (h ^ (b[i] as u64)).wrapping_mul(FNV_PRIME);
            i += 1;
        }
        assert(b@.take(b@.len() as int) =~= b@);
        h
    }

    /// Whether this entry answers to `name`, whose hash is `hash`.
    fn matches(&self, name: &str, hash: u64) -> (r: bool)
        requires
            hash == fnv1a(name.spec_bytes()),
        ensures
            r == entry_matches(self@, name.spec_bytes()),
    {
        self.used && self.hash == hash && bytes_eq(self.get_name().as_bytes(), name.as_bytes())
    }
}

/// ZAP layout classes.
#[derive(Debug, Clone, Copy, PartialEq, Eq, Structural)]
pub enum NestZapType {
    Micro,
    Normal,
    Leaf,
}

/// A bounded name → value store.
pub struct NestZap {
    pub entries: Vec<NestZapEntry>,
    pub capacity: usize,
    pub zap_type: NestZapType,
}

impl View for NestZap {
    type V = Seq<ZapEntryView>;

    open spec fn view(&self) -> Seq<ZapEntryView> {
        self.entries@.map_values(|e: NestZapEntry| e@)
    }
}

impl NestZap {
    /// An empty micro ZAP with the default capacity.
    pub fn new() -> (z: Self)
        ensures
            z@ == Seq::<ZapEntryView>::empty(),
            z.capacity == HV_ZAP_MAX_ENTRIES,
            z.zap_type == NestZapType::Micro,
    {
        let z = NestZap { entries: Vec::new(), capacity: HV_ZAP_MAX_ENTRIES, zap_type: NestZapType::Micro };
        assert(z@ =~= Seq::<ZapEntryView>::empty());
        z
    }

    /// An empty ZAP of the given capacity: micro up to 64 entries, normal above.
    pub fn with_capacity(capacity: usize) -> (z: Self)
        ensures
            z@ == Seq::<ZapEntryView>::empty(),
            z.capacity == capacity,
            z.zap_type == zap_type_for(capacity as int),
    {
        let t = if capacity <= 64 { NestZapType::Micro } else { NestZapType::Normal };
        let z = NestZap { entries: Vec::new(), capacity, zap_type: t };
        assert(z@ =~= Seq::<ZapEntryView>::empty());
        z
    }

    /// Index of the first entry answering to `name`.
    fn find(&self, name: &str, hash: u64) -> (r: Option<usize>)
        requires
            hash == fnv1a(name.spec_bytes()),
        ensures
            r is None <==> !has_match(self@, name.spec_bytes()),
            r matches Some(i) ==> is_first_match(self@, name.spec_bytes(), i as int)
                && first_match(self@, name.spec_bytes()) == i,
    {
        let ghost n = name.spec_bytes();
        let mut i: usize = 0;
        while i < self.entries.len()
            invariant
                0 <= i <= self@.len(),
                self@.len() == self.entries@.len(),
                n == name.spec_bytes(),
                hash == fnv1a(n),
                forall|j: int| 0 <= j < i ==> !entry_matches(self@[j], n),
            decreases self@.len() - i,
        {
            if self.entries[i].matches(name, hash) {
                proof {
                    lemma_first_match_unique(self@, n, i as int);
                }
                return Some(i);
            }
            i += 1;
        }
        None
    }

    /// Inserts or updates `name`. Fails (returning `false`, changing nothing)
    /// when the store already holds `capacity` entries.
    pub fn insert(&mut self, name: &str, value: &[u8]) -> (ok: bool)
        ensures
            (final(self)@, ok) == zap_insert_spec(old(self)@, old(self).capacity as int, name.spec_bytes(), value@),
            final(self).capacity == old(self).capacity,
            final(self).zap_type == old(self).zap_type,
    {
        if self.entries.len() >= self.capacity {
            return false;
        }
        let hash = NestZapEntry::hash_name(name);
        match self.find(name, hash) {
            Some(i) => {
                let e = NestZapEntry {
                    name: vstd::slice::slice_to_vec(self.entries[i].name.as_slice()),
                    value: copy_prefix(value, HV_ZAP_MAX_VALUE),
                    hash: self.entries[i].hash,
                    used: self.entries[i].used,
                };
                self.entries.set(i, e);
                assert(self@ =~= old(self)@.update(i as int, ZapEntryView { value: truncate(value@, HV_ZAP_MAX_VALUE as int), ..old(self)@[i as int] }));
                true
            },
            None => {
                self.entries.push(NestZapEntry::new(name, value));
                assert(self@ =~= old(self)@.push(new_entry_view(name.spec_bytes(), value@)));
                true
            },
        }
    }

    /// Inserts `value` as 8 little-endian bytes.
    pub fn insert_u64(&mut self, name: &str, value: u64) -> (ok: bool)
        ensures
            (final(self)@, ok) == zap_insert_spec(old(self)@, old(self).capacity as int, name.spec_bytes(), spec_u64_to_le_bytes(value)),
            final(self).capacity == old(self).capacity,
            final(self).zap_type == old(self).zap_type,
    {
        let b = u64_to_le_bytes(value);
        self.insert(name, b.as_slice())
    }

    /// The value stored under `name`.
    pub fn lookup(&self, name: &str) -> (r: Option<Vec<u8>>)
        ensures
            r is Some <==> zap_lookup_spec(self@, name.spec_bytes()) is Some,
            r matches Some(v) ==> zap_lookup_spec(self@, name.spec_bytes()) == Some(v@),
    {
        let hash = NestZapEntry::hash_name(name);
        match self.find(name, hash) {
            Some(i) => {
                let v = vstd::slice::slice_to_vec(self.entries[i].get_value());
                Some(v)
            },
            None => None,
        }
    }

    /// The value stored under `name`, read as a little-endian `u64`.
    pub fn lookup_u64(&self, name: &str) -> (r: Option<u64>)
        ensures
            r == (if has_match(self@, name.spec_bytes()) {
                Some(entry_value_u64(self@[first_match(self@, name.spec_bytes())]))
            } else {
                None
            }),
    {
        let hash = NestZapEntry::hash_name(name);
        match self.find(name, hash) {
            Some(i) => Some(self.entries[i].get_value_u64()),
            None => None,
        }
    }

    /// Removes the entry for `name`; `false` when there is none.
    pub fn remove(&mut self, name: &str) -> (found: bool)
        ensures
            (final(self)@, found) == zap_remove_spec(old(self)@, name.spec_bytes()),
            final(self).capacity == old(self).capacity,
            final(self).zap_type == old(self).zap_type,
    {
        let hash = NestZapEntry::hash_name(name);
        match self.find(name, hash) {
            Some(i) => {
                self.entries.remove(i);
                assert(self@ =~= old(self)@.remove(i as int));
                true
            },
            None => false,
        }
    }

    /// Whether an entry answers to `name`.
    pub fn contains(&self, name: &str) -> (r: bool)
        ensures
            r == has_match(self@, name.spec_bytes()),
    {
        let hash = NestZapEntry::hash_name(name);
        self.find(name, hash).is_some()
    }

    /// Number of entries in use.
    pub fn len(&self) -> (n: usize)
        ensures
            n == count_used(self@),
    {
        let mut n: usize = 0;
        let mut i: usize = 0;
        while i < self.entries.len()
            invariant
                0 <= i <= self@.len(),
                self@.len() == self.entries@.len(),
                n == count_used(self@.take(i as int)),
                n <= i,
            decreases self@.len() - i,
        {
            proof {
                assert(self@.take(i + 1).drop_last() =~= self@.take(i as int));
            }
            if self.entries[i].used {
                n += 1;
            }
            i += 1;
        }
        assert(self@.take(self@.len() as int) =~= self@);
        n
    }

    /// Whether no entry is in use.
    pub fn is_empty(&self) -> (r: bool)
        ensures
            r == (count_used(self@) == 0),
    {
        self.len() == 0
    }

    /// Names of the entries in use, in order.
    pub fn keys(&self) -> (r: Vec<String>)
        ensures
            r@.len() == used_entries(self@).len(),
            forall|k: int| 0 <= k < r@.len() ==> encode_utf8(#[trigger] r@[k]@) == entry_name(used_entries(self@)[k]),
    {
        let mut out: Vec<String> = Vec::new();
        let mut i: usize = 0;
        while i < self.entries.len()
            invariant
                0 <= i <= self@.len(),
                self@.len() == self.entries@.len(),
                out@.len() == used_entries(self@.take(i as int)).len(),
                forall|k: int| 0 <= k < out@.len() ==> encode_utf8(#[trigger] out@[k]@) == entry_name(used_entries(self@.take(i as int))[k]),
            decreases self@.len() - i,
        {
            proof {
                lemma_filter_push(self@.take(i as int), self@[i as int]);
                assert(self@.take(i + 1) =~= self@.take(i as int).push(self@[i as int]));
            }
            if self.entries[i].used {
                let s = self.entries[i].get_name();
                out.push(s.to_owned());
            }
            i += 1;
        }
        assert(self@.take(self@.len() as int) =~= self@);
        out
    }

    /// Names and values of the entries in use, in order.
    pub fn entries(&self) -> (r: Vec<(String, Vec<u8>)>)
        ensures
            r@.len() == used_entries(self@).len(),
            forall|k: int| 0 <= k < r@.len() ==> encode_utf8(#[trigger] r@[k].0@) == entry_name(used_entries(self@)[k])
                && r@[k].1@ == used_entries(self@)[k].value,
    {
        let mut out: Vec<(String, Vec<u8>)> = Vec::new();
        let mut i: usize = 0;
        while i < self.entries.len()
            invariant
                0 <= i <= self@.len(),
                self@.len() == self.entries@.len(),
                out@.len() == used_entries(self@.take(i as int)).len(),
                forall|k: int| 0 <= k < out@.len() ==> encode_utf8(#[trigger] out@[k].0@) == entry_name(used_entries(self@.take(i as int))[k])
                    && out@[k].1@ == used_entries(self@.take(i as int))[k].value,
            decreases self@.len() - i,
        {
            proof {
                lemma_filter_push(self@.take(i as int), self@[i as int]);
                assert(self@.take(i + 1) =~= self@.take(i as int).push(self@[i as int]));
            }
            if self.entries[i].used {
                let s = self.entries[i].get_name();
                let v = vstd::slice::slice_to_vec(self.entries[i].get_value());
                out.push((s.to_owned(), v));
            }
            i += 1;
        }
        assert(self@.take(self@.len() as int) =~= self@);
        out
    }

    /// Removes every entry.
    pub fn clear(&mut self)
        ensures
            final(self)@ == Seq::<ZapEntryView>::empty(),
            final(self).capacity == old(self).capacity,
            final(self).zap_type == old(self).zap_type,
    {
        self.entries.clear();
        assert(self@ =~= Seq::<ZapEntryView>::empty());
    }
}

/// Filtering a sequence extended by one element.
pub proof fn lemma_filter_push(s: Seq<ZapEntryView>, e: ZapEntryView)
    ensures
        used_entries(s.push(e)) == if e.used { used_entries(s).push(e) } else { used_entries(s) },
{
    reveal(Seq::filter);
    assert(s.push(e).drop_last() =~= s);
}

/// Inserting a name that fits and holds no NUL byte makes it readable back:
/// a lookup right after a successful insert returns the inserted value
/// (truncated to `HV_ZAP_MAX_VALUE` bytes).
pub proof fn lemma_insert_then_lookup(s: Seq<ZapEntryView>, capacity: int, name: Seq<u8>, value: Seq<u8>)
    requires
        name.len() <= HV_ZAP_MAX_NAME,
        forall|j: int| 0 <= j < name.len() ==> name[j] != 0,
        vstd::utf8::valid_utf8(name),
        zap_insert_spec(s, capacity, name, value).1,
    ensures
        zap_lookup_spec(zap_insert_spec(s, capacity, name, value).0, name) == Some(truncate(value, HV_ZAP_MAX_VALUE as int)),
{
    let t = zap_insert_spec(s, capacity, name, value).0;
    if has_match(s, name) {
        lemma_first_match_exists(s, name);
        let i = first_match(s, name);
        assert(is_first_match(t, name, i));
        lemma_first_match_unique(t, name, i);
    } else {
        let e = new_entry_view(name, value);
        assert(truncate(name, HV_ZAP_MAX_NAME as int) =~= name);
        lemma_nul_index(name, name.len() as int);
        assert(until_nul(name) =~= name);
        assert(entry_matches(e, name));
        let i = s.len() as int;
        assert forall|j: int| 0 <= j < i implies !entry_matches(t[j], name) by {
            assert(t[j] == s[j]);
            if entry_matches(s[j], name) {
                assert(has_match(s, name));
            }
        }
        assert(is_first_match(t, name, i));
        lemma_first_match_unique(t, name, i);
    }
}

/// After a removal the name no longer answers, provided it answered only once.
pub proof fn lemma_remove_then_lookup(s: Seq<ZapEntryView>, name: Seq<u8>)
    requires
        forall|i: int, j: int| 0 <= i < s.len() && 0 <= j < s.len() && entry_matches(s[i], name) && entry_matches(s[j], name) ==> i == j,
    ensures
        zap_lookup_spec(zap_remove_spec(s, name).0, name) is None,
{
    if has_match(s, name) {
        lemma_first_match_exists(s, name);
        let i = first_match(s, name);
        let t = s.remove(i);
        if has_match(t, name) {
            let k = choose|k: int| 0 <= k < t.len() && entry_matches(t[k], name);
            if k < i {
                assert(t[k] == s[k]);
            } else {
                assert(t[k] == s[k + 1]);
            }
        }
    }
}

} // verus!
