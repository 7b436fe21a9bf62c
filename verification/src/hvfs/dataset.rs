//! Datasets: a named object set with a directory ZAP mapping names to
//! object ids, and its properties and counters.
use crate::bytes_util::{find_nul, slice_prefix, until_nul, utf8_or_empty, utf8_or_empty_spec};
use crate::nestfs::bp::{bp_is_null_value, NestBlockPointer};
use crate::nestfs::dmu::{live, unlinked, NestObjSet, NestObjType, HV_DMU_OBJ_ROOT};
use crate::seq_search::{first_pos, has_some};
use crate::nestfs::zap::{
    entry_name, entry_value_u64, first_match, has_match, used_entries, zap_insert_spec, zap_remove_spec,
    NestZap, ZapEntryView, HV_ZAP_MAX_ENTRIES,
};
use vstd::bytes::spec_u64_to_le_bytes;
use vstd::prelude::*;
use vstd::string::StringSliceAdditionalSpecFns;
use vstd::utf8::encode_utf8;

verus! {

/// Longest dataset name, in bytes (one less is stored).
pub const HV_DS_MAX_NAME: usize = 128;

/// Capacity of a dataset table.
pub const HV_DS_MAX_DATASETS: usize = 16;

/// Life-cycle state of a dataset.
#[derive(Debug, Clone, Copy, PartialEq, Eq, Structural)]
pub enum HvDsState {
    Uninit,
    Creating,
    Active,
    Destroying,
    Suspended,
    ReadOnly,
}

/// Dataset properties.
#[derive(Debug, Clone, Copy)]
pub struct HvDsProps {
    pub record_size: u32,
    pub compression: u8,
    pub checksum: u8,
    pub atime: bool,
    pub sync: u8,
    pub sensitivity: u8,
    pub owner_pwm: u64,
    pub quota: u64,
    pub reservation: u64,
    pub ref_quota: u64,
    pub ref_reservation: u64,
}

/// The default properties owned by `owner`.
pub open spec fn default_props(owner: u64) -> HvDsProps {
    HvDsProps {
        record_size: 131072,
        compression: 0,
        checksum: 2,
        atime: true,
        sync: 0,
        sensitivity: 0,
        owner_pwm: owner,
        quota: 0,
        reservation: 0,
        ref_quota: 0,
        ref_reservation: 0,
    }
}

impl HvDsProps {
    /// Records of 128 KiB, no compression, Fletcher-4 checksums, access
    /// times on, no quotas.
    pub fn default() -> (p: Self)
        ensures
            p == default_props(0),
    {
        HvDsProps {
            record_size: 131072,
            compression: 0,
            checksum: 2,
            atime: true,
            sync: 0,
            sensitivity: 0,
            owner_pwm: 0,
            quota: 0,
            reservation: 0,
            ref_quota: 0,
            ref_reservation: 0,
        }
    }
}

/// A dataset.
pub struct HvDataset {
    pub ds_id: u64,
    pub name: [u8; HV_DS_MAX_NAME],
    pub state: HvDsState,
    pub props: HvDsProps,
    pub objset: NestObjSet,
    pub dir_zap: NestZap,
    pub xattr_zap: NestZap,
    pub parent_id: Option<u64>,
    pub child_ids: Vec<u64>,
    pub used_space: u64,
    pub ref_count: u64,
    pub birth_txg: u64,
    pub root_bp: NestBlockPointer,
    pub is_snapshot: bool,
    pub snapshot_origin: Option<u64>,
    pub prev_snap: Option<u64>,
    pub next_snap: Option<u64>,
    pub snap_name: [u8; HV_DS_MAX_NAME],
    pub writeable: bool,
    pub mounted: bool,
}

/// `name` cut to 127 bytes and padded with zeros to 128.
pub open spec fn name_field(name: Seq<u8>) -> Seq<u8> {
    Seq::new(HV_DS_MAX_NAME as nat, |i: int| if i < name.len() && i < HV_DS_MAX_NAME - 1 { name[i] } else { 0u8 })
}

/// The (name, object id) pairs of the entries of `s` among `keys` that look
/// up to a value.
pub open spec fn listed(s: Seq<ZapEntryView>, keys: Seq<Seq<u8>>) -> Seq<(Seq<u8>, u64)>
    decreases keys.len(),
{
    if keys.len() == 0 {
        Seq::empty()
    } else {
        let rest = listed(s, keys.drop_last());
        let k = keys.last();
        if has_match(s, k) { rest.push((k, entry_value_u64(s[first_match(s, k)]))) } else { rest }
    }
}

/// The names of the entries in use.
pub open spec fn zap_keys(s: Seq<ZapEntryView>) -> Seq<Seq<u8>> {
    used_entries(s).map_values(|e: ZapEntryView| entry_name(e))
}

impl HvDataset {
    /// A dataset being created: `name` stored (at most 127 bytes), default
    /// properties owned by `owner_pwm`, empty object set and ZAPs, one
    /// reference, writeable, not mounted.
    pub fn new(ds_id: u64, name: &str, owner_pwm: u64) -> (d: Self)
        ensures
            d.ds_id == ds_id,
            d.name@ == name_field(name.spec_bytes()),
            d.state == HvDsState::Creating,
            d.props == default_props(owner_pwm),
            !d.objset.initialized && d.objset.objects@.len() == 0 && d.objset.next_obj_id == HV_DMU_OBJ_ROOT + 1,
            d.dir_zap@.len() == 0 && d.dir_zap.capacity == HV_ZAP_MAX_ENTRIES,
            d.xattr_zap@.len() == 0,
            d.parent_id is None && d.child_ids@.len() == 0,
            d.used_space == 0 && d.ref_count == 1 && d.birth_txg == 0,
            bp_is_null_value(d.root_bp),
            !d.is_snapshot && d.snapshot_origin is None && d.prev_snap is None && d.next_snap is None,
            d.writeable && !d.mounted,
    {
        let b = name.as_bytes();
        let len = if b.len() < HV_DS_MAX_NAME - 1 { b.len() } else { HV_DS_MAX_NAME - 1 };
        let mut n = [0u8; HV_DS_MAX_NAME];
        let mut i: usize = 0;
        while i < len
            invariant
                len <= b@.len(),
                len <= HV_DS_MAX_NAME - 1,
                0 <= i <= len,
                n@.len() == HV_DS_MAX_NAME,
                forall|k: int| 0 <= k < i ==> n@[k] == b@[k],
                forall|k: int| i <= k < HV_DS_MAX_NAME ==> n@[k] == 0u8,
            decreases len - i,
        {
            n[i] = b[i];
            i += 1;
        }
        assert(n@ =~= name_field(name.spec_bytes()));
        let mut props = HvDsProps::default();
        props.owner_pwm = owner_pwm;
        HvDataset {
            ds_id,
            name: n,
            state: HvDsState::Creating,
            props,
            objset: NestObjSet::new(),
            dir_zap: NestZap::new(),
            xattr_zap: NestZap::new(),
            parent_id: None,
            child_ids: Vec::new(),
            used_space: 0,
            ref_count: 1,
            birth_txg: 0,
            root_bp: NestBlockPointer::null(),
            is_snapshot: false,
            snapshot_origin: None,
            prev_snap: None,
            next_snap: None,
            snap_name: [0u8; HV_DS_MAX_NAME],
            writeable: true,
            mounted: false,
        }
    }

    /// The stored name up to its first zero byte (empty when not UTF-8).
    pub fn get_name(&self) -> (r: &str)
        ensures
            r.spec_bytes() == utf8_or_empty_spec(until_nul(self.name@)),
    {
        let end = find_nul(self.name.as_slice());
        utf8_or_empty(slice_prefix(self.name.as_slice(), end))
    }

    /// Creates the object set's meta and root objects and makes the dataset
    /// active and mounted.
    pub fn init(&mut self, owner_pwm: u64)
        ensures
            final(self).state == HvDsState::Active,
            final(self).mounted,
            final(self).objset.initialized,
            final(self).objset.objects@.len() == 2,
            final(self).objset.next_obj_id == old(self).objset.next_obj_id,
            final(self).dir_zap == old(self).dir_zap,
            final(self).writeable == old(self).writeable,
    {
        self.objset.init(owner_pwm);
        self.state = HvDsState::Active;
        self.mounted = true;
    }

    /// Whether the dataset is active.
    pub fn is_active(&self) -> (r: bool)
        ensures
            r == (self.state == HvDsState::Active),
    {
        self.state == HvDsState::Active
    }

    /// Whether the dataset is writeable and active.
    pub fn is_writeable(&self) -> (r: bool)
        ensures
            r == (self.writeable && self.state == HvDsState::Active),
    {
        self.writeable && self.state == HvDsState::Active
    }

    /// Allocates an object of kind `t` and enters it under `name`.
    fn create_obj(&mut self, name: &str, owner_pwm: u64, t: NestObjType) -> (r: Option<u64>)
        requires
            t != NestObjType::Unused,
        ensures
            !(old(self).writeable && old(self).state == HvDsState::Active) ==> r is None && *final(self) == *old(self),
            old(self).writeable && old(self).state == HvDsState::Active ==> {
                &&& (old(self).objset.objects@.len() >= crate::nestfs::dmu::HV_DMU_MAX_OBJECTS
                    || old(self).objset.next_obj_id == u64::MAX) ==> r is None && *final(self) == *old(self)
                &&& !(old(self).objset.objects@.len() >= crate::nestfs::dmu::HV_DMU_MAX_OBJECTS
                    || old(self).objset.next_obj_id == u64::MAX) ==> {
                    &&& r == Some(old(self).objset.next_obj_id)
                    &&& final(self).objset.next_obj_id == old(self).objset.next_obj_id + 1
                    &&& final(self).objset.objects@.len() == old(self).objset.objects@.len() + 1
                    &&& final(self).objset.objects@.last().obj_type == t
                    &&& final(self).dir_zap@ == zap_insert_spec(old(self).dir_zap@, old(self).dir_zap.capacity as int,
                        name.spec_bytes(), spec_u64_to_le_bytes(old(self).objset.next_obj_id)).0
                }
            },
            final(self).dir_zap.capacity == old(self).dir_zap.capacity,
            final(self).state == old(self).state && final(self).writeable == old(self).writeable,
    {
        if !self.is_writeable() {
            return None;
        }
        let id = match self.objset.alloc_obj(t, owner_pwm) {
            Some(i) => i,
            None => {
                return None;
            },
        };
        let _ = self.dir_zap.insert_u64(name, id);
        Some(id)
    }

    /// Allocates a file object and enters it under `name` (see
    /// `create_obj`); `None` when the dataset is not writeable or the
    /// object set is full.
    pub fn create_file(&mut self, name: &str, owner_pwm: u64) -> (r: Option<u64>)
        ensures
            !(old(self).writeable && old(self).state == HvDsState::Active) ==> r is None && *final(self) == *old(self),
            old(self).writeable && old(self).state == HvDsState::Active ==> {
                &&& (old(self).objset.objects@.len() >= crate::nestfs::dmu::HV_DMU_MAX_OBJECTS
                    || old(self).objset.next_obj_id == u64::MAX) ==> r is None && *final(self) == *old(self)
                &&& !(old(self).objset.objects@.len() >= crate::nestfs::dmu::HV_DMU_MAX_OBJECTS
                    || old(self).objset.next_obj_id == u64::MAX) ==> {
                    &&& r == Some(old(self).objset.next_obj_id)
                    &&& final(self).objset.objects@.last().obj_type == NestObjType::File
                    &&& final(self).dir_zap@ == zap_insert_spec(old(self).dir_zap@, old(self).dir_zap.capacity as int,
                        name.spec_bytes(), spec_u64_to_le_bytes(old(self).objset.next_obj_id)).0
                }
            },
    {
        self.create_obj(name, owner_pwm, NestObjType::File)
    }

    /// Allocates a directory object and enters it under `name` (see
    /// `create_obj`).
    pub fn create_dir(&mut self, name: &str, owner_pwm: u64) -> (r: Option<u64>)
        ensures
            !(old(self).writeable && old(self).state == HvDsState::Active) ==> r is None && *final(self) == *old(self),
            old(self).writeable && old(self).state == HvDsState::Active ==> {
                &&& (old(self).objset.objects@.len() >= crate::nestfs::dmu::HV_DMU_MAX_OBJECTS
                    || old(self).objset.next_obj_id == u64::MAX) ==> r is None && *final(self) == *old(self)
                &&& !(old(self).objset.objects@.len() >= crate::nestfs::dmu::HV_DMU_MAX_OBJECTS
                    || old(self).objset.next_obj_id == u64::MAX) ==> {
                    &&& r == Some(old(self).objset.next_obj_id)
                    &&& final(self).objset.objects@.last().obj_type == NestObjType::Dir
                    &&& final(self).dir_zap@ == zap_insert_spec(old(self).dir_zap@, old(self).dir_zap.capacity as int,
                        name.spec_bytes(), spec_u64_to_le_bytes(old(self).objset.next_obj_id)).0
                }
            },
    {
        self.create_obj(name, owner_pwm, NestObjType::Dir)
    }

    /// The object id entered under `name`.
    pub fn lookup(&self, name: &str) -> (r: Option<u64>)
        ensures
            r == (if has_match(self.dir_zap@, name.spec_bytes()) {
                Some(entry_value_u64(self.dir_zap@[first_match(self.dir_zap@, name.spec_bytes())]))
            } else {
                None
            }),
    {
        self.dir_zap.lookup_u64(name)
    }

    /// Removes `name` and drops a link of its object; `false` when the
    /// dataset is not writeable or has no such name.
    pub fn unlink(&mut self, name: &str) -> (r: bool)
        ensures
            r == (old(self).writeable && old(self).state == HvDsState::Active
                && has_match(old(self).dir_zap@, name.spec_bytes())),
            !r ==> *final(self) == *old(self),
            r ==> final(self).dir_zap@ == zap_remove_spec(old(self).dir_zap@, name.spec_bytes()).0,
            r ==> ({
                let os = old(self).objset.objects@;
                let id = entry_value_u64(old(self).dir_zap@[first_match(old(self).dir_zap@, name.spec_bytes())]);
                &&& has_some(os, live(id)) ==> final(self).objset.objects@ == os.update(
                    first_pos(os, live(id)),
                    unlinked(os[first_pos(os, live(id))]),
                )
                &&& !has_some(os, live(id)) ==> final(self).objset.objects@ == os
                &&& final(self).objset.next_obj_id == old(self).objset.next_obj_id
            }),
    {
        if !self.is_writeable() {
            return false;
        }
        match self.dir_zap.lookup_u64(name) {
            Some(obj_id) => {
                let _ = self.objset.free_obj(obj_id);
                let _ = self.dir_zap.remove(name);
                true
            },
            None => false,
        }
    }

    /// Enters `obj_id` under `name`; `false` when the dataset is not
    /// writeable.
    pub fn link(&mut self, name: &str, obj_id: u64) -> (r: bool)
        ensures
            r == (old(self).writeable && old(self).state == HvDsState::Active),
            !r ==> *final(self) == *old(self),
            r ==> final(self).dir_zap@ == zap_insert_spec(old(self).dir_zap@, old(self).dir_zap.capacity as int,
                name.spec_bytes(), spec_u64_to_le_bytes(obj_id)).0,
            *final(self) == (HvDataset { dir_zap: final(self).dir_zap, ..*old(self) }),
    {
        if !self.is_writeable() {
            return false;
        }
        let _ = self.dir_zap.insert_u64(name, obj_id);
        true
    }

    /// The names in the directory, in order, with the object ids they look
    /// up to.
    pub fn list_entries(&self) -> (r: Vec<(String, u64)>)
        ensures
            r@.len() == listed(self.dir_zap@, zap_keys(self.dir_zap@)).len(),
            forall|i: int| 0 <= i < r@.len() ==> encode_utf8((#[trigger] r@[i]).0@)
                == listed(self.dir_zap@, zap_keys(self.dir_zap@))[i].0
                && r@[i].1 == listed(self.dir_zap@, zap_keys(self.dir_zap@))[i].1,
    {
        let keys = self.dir_zap.keys();
        let ghost ks = zap_keys(self.dir_zap@);
        proof {
            assert forall|k: int| 0 <= k < keys@.len() implies encode_utf8(#[trigger] keys@[k]@) == ks[k] by {}
        }
        let mut result: Vec<(String, u64)> = Vec::new();
        let mut i: usize = 0;
        while i < keys.len()
            invariant
                keys@.len() == ks.len(),
                ks == zap_keys(self.dir_zap@),
                forall|k: int| 0 <= k < keys@.len() ==> encode_utf8(#[trigger] keys@[k]@) == ks[k],
                0 <= i <= keys@.len(),
                result@.len() == listed(self.dir_zap@, ks.take(i as int)).len(),
                forall|j: int| 0 <= j < result@.len() ==> encode_utf8((#[trigger] result@[j]).0@)
                    == listed(self.dir_zap@, ks.take(i as int))[j].0
                    && result@[j].1 == listed(self.dir_zap@, ks.take(i as int))[j].1,
            decreases keys@.len() - i,
        {
            let key = &keys[i];
            proof {
                assert(ks.take(i as int + 1).drop_last() =~= ks.take(i as int));
                assert(ks.take(i as int + 1).last() == ks[i as int]);
            }
            match self.dir_zap.lookup_u64(key.as_str()) {
                Some(obj_id) => {
                    result.push((key.clone(), obj_id));
                },
                None => {},
            }
            i += 1;
        }
        proof {
            assert(ks.take(ks.len() as int) =~= ks);
        }
        result
    }

    /// Bytes in use.
    pub fn get_used(&self) -> (r: u64)
        ensures
            r == self.used_space,
    {
        self.used_space
    }

    /// Number of references.
    pub fn get_ref_count(&self) -> (r: u64)
        ensures
            r == self.ref_count,
    {
        self.ref_count
    }
}

} // verus!
