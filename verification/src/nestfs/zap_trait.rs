//! The `ZapStore` interface over name → value stores, and its standard
//! implementation backed by `NestZap`.
use crate::nestfs::zap::{
    count_used, entry_value_u64, first_match, has_match, zap_insert_spec, zap_lookup_spec,
    zap_remove_spec, NestZap, NestZapType,
};
use vstd::prelude::*;
use vstd::bytes::spec_u64_to_le_bytes;
use vstd::string::StringSliceAdditionalSpecFns;

verus! {

/// A bounded name → value store.
pub trait ZapStore: Send + Sync {
    /// Inserts or updates a name; `false` when the store is full.
    fn insert(&mut self, name: &str, value: &[u8]) -> bool;

    /// Inserts a `u64` value (8 little-endian bytes).
    fn insert_u64(&mut self, name: &str, value: u64) -> bool;

    /// The value stored under a name.
    fn lookup(&self, name: &str) -> Option<Vec<u8>>;

    /// The value stored under a name, read as a `u64`.
    fn lookup_u64(&self, name: &str) -> Option<u64>;

    /// Removes a name; `false` when it is absent.
    fn remove(&mut self, name: &str) -> bool;

    /// Whether a name is present.
    fn contains(&self, name: &str) -> bool;

    /// Number of entries.
    fn len(&self) -> usize;

    /// Whether the store holds no entry.
    fn is_empty(&self) -> (r: bool) {
        self.len() == 0
    }

    /// Maximal number of entries.
    fn capacity(&self) -> usize;

    /// Layout class of the store.
    fn zap_type(&self) -> NestZapType;
}

/// The standard store: a `NestZap`.
pub struct StandardZap(pub NestZap);

impl StandardZap {
    /// A store with the default capacity.
    pub fn new() -> (z: Self)
        ensures
            z.0@ == Seq::<crate::nestfs::zap::ZapEntryView>::empty(),
            z.0.capacity == crate::nestfs::zap::HV_ZAP_MAX_ENTRIES,
            z.0.zap_type == NestZapType::Micro,
    {
        StandardZap(NestZap::new())
    }

    /// A store with the given capacity.
    pub fn with_capacity(capacity: usize) -> (z: Self)
        ensures
            z.0@ == Seq::<crate::nestfs::zap::ZapEntryView>::empty(),
            z.0.capacity == capacity,
            z.0.zap_type == crate::nestfs::zap::zap_type_for(capacity as int),
    {
        StandardZap(NestZap::with_capacity(capacity))
    }
}

impl ZapStore for StandardZap {
    fn insert(&mut self, name: &str, value: &[u8]) -> (ok: bool)
        ensures
            (final(self).0@, ok) == zap_insert_spec(old(self).0@, old(self).0.capacity as int, name.spec_bytes(), value@),
            final(self).0.capacity == old(self).0.capacity,
            final(self).0.zap_type == old(self).0.zap_type,
    {
        self.0.insert(name, value)
    }

    fn insert_u64(&mut self, name: &str, value: u64) -> (ok: bool)
        ensures
            (final(self).0@, ok) == zap_insert_spec(old(self).0@, old(self).0.capacity as int, name.spec_bytes(), spec_u64_to_le_bytes(value)),
            final(self).0.capacity == old(self).0.capacity,
            final(self).0.zap_type == old(self).0.zap_type,
    {
        self.0.insert_u64(name, value)
    }

    fn lookup(&self, name: &str) -> (r: Option<Vec<u8>>)
        ensures
            r is Some <==> zap_lookup_spec(self.0@, name.spec_bytes()) is Some,
            r matches Some(v) ==> zap_lookup_spec(self.0@, name.spec_bytes()) == Some(v@),
    {
        self.0.lookup(name)
    }

    fn lookup_u64(&self, name: &str) -> (r: Option<u64>)
        ensures
            r == (if has_match(self.0@, name.spec_bytes()) {
                Some(entry_value_u64(self.0@[first_match(self.0@, name.spec_bytes())]))
            } else {
                None
            }),
    {
        self.0.lookup_u64(name)
    }

    fn remove(&mut self, name: &str) -> (found: bool)
        ensures
            (final(self).0@, found) == zap_remove_spec(old(self).0@, name.spec_bytes()),
            final(self).0.capacity == old(self).0.capacity,
            final(self).0.zap_type == old(self).0.zap_type,
    {
        self.0.remove(name)
    }

    fn contains(&self, name: &str) -> (r: bool)
        ensures
            r == has_match(self.0@, name.spec_bytes()),
    {
        self.0.contains(name)
    }

    fn len(&self) -> (n: usize)
        ensures
            n == count_used(self.0@),
    {
        self.0.len()
    }

    fn capacity(&self) -> (c: usize)
        ensures
            c == self.0.capacity,
    {
        self.0.capacity
    }

    fn zap_type(&self) -> (t: NestZapType)
        ensures
            t == self.0.zap_type,
    {
        self.0.zap_type
    }
}

} // verus!
