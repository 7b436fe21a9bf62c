//! The metadata image of a dataset: its objects and directory entries in one
//! little-endian byte buffer.
//!
//! Layout: a 32-byte header (`"HVM1"`, version 1, object count, entry count,
//! next object id, total length, 4 zero bytes), then one 202-byte record per
//! object in use, then per directory entry a 16-bit name length and the name
//! bytes, then zeros up to the total length. The total length reserves 222
//! bytes per object and 10 bytes plus the name per entry. Entries carry no
//! object id in the image: the 8 bytes the reader takes as the id of an entry
//! are whatever follows its name.
use crate::bytes_util::{append_bytes, slice_range, utf8_checked, zeroed};
use crate::hvfs::dataset::{zap_keys, HvDataset};
use crate::hvfs::zil_persist::{le16, le32, le64, zeros};
use crate::nestfs::bp::{
    bp_fields_match, bp_image, le_u16_at, le_u32_at, le_u64_at, lemma_bp_image_len,
    lemma_bp_image_roundtrip, read_le_u16, read_le_u32, read_le_u64, NestBlockPointer,
};
use crate::nestfs::dmu::{lemma_obj_type_code_roundtrip, obj_type_code, obj_type_from_code, NestDmuObject, NestObjType};
use crate::nestfs::zap::{zap_insert_spec, ZapEntryView};
use crate::nestfs::zil::HV_POOL_BLOCK_SIZE;
use vstd::prelude::*;
use vstd::bytes::{
    lemma_auto_spec_u16_to_from_le_bytes, lemma_auto_spec_u32_to_from_le_bytes,
    lemma_auto_spec_u64_to_from_le_bytes, spec_u64_to_le_bytes, u16_to_le_bytes, u32_to_le_bytes,
    u64_to_le_bytes,
};
use vstd::string::StringSliceAdditionalSpecFns;
use vstd::utf8::{encode_utf8, valid_utf8};

verus! {

/// Bytes reserved per object in the total length.
pub const HVM_OBJ_RECORD_SIZE: usize = 222;

/// Bytes actually written per object.
pub const HVM_OBJ_ENCODED_SIZE: usize = 202;

/// Size of the header.
pub const HVM_HEADER_SIZE: usize = 32;

/// Most objects an image may hold.
pub const HVM_MAX_OBJECTS: usize = 65536;

/// Most directory entries an image may hold.
pub const HVM_MAX_ENTRIES: usize = 65536;

/// Longest entry name the reader accepts.
pub const HVM_MAX_NAME_LEN: usize = 4096;

/// The 202 bytes of an object record.
pub open spec fn obj_record(o: NestDmuObject) -> Seq<u8> {
    le64(o.obj_id) + seq![obj_type_code(o.obj_type)] + le32(o.block_size) + le64(o.nblocks)
        + le64(o.size) + bp_image(o.bp) + le64(o.atime) + le64(o.mtime) + le64(o.ctime)
        + le64(o.owner_pwm) + le64(o.group_pwm) + seq![o.sensitivity] + le16(o.pwm_perm)
        + le32(o.link_count) + le32(o.flags) + le64(o.birth_txg)
        + seq![if o.used { 1u8 } else { 0u8 }, 0u8]
}

/// The records of `objs`, one after the other.
pub open spec fn records_image(objs: Seq<NestDmuObject>) -> Seq<u8>
    decreases objs.len(),
{
    if objs.len() == 0 {
        Seq::empty()
    } else {
        records_image(objs.drop_last()) + obj_record(objs.last())
    }
}

/// An entry: its name length (low 16 bits) and its name.
pub open spec fn entry_image(name: Seq<u8>) -> Seq<u8> {
    le16((name.len() % 0x10000) as u16) + name
}

/// The entries of `names`, one after the other.
pub open spec fn entries_image(names: Seq<Seq<u8>>) -> Seq<u8>
    decreases names.len(),
{
    if names.len() == 0 {
        Seq::empty()
    } else {
        entries_image(names.drop_last()) + entry_image(names.last())
    }
}

/// Bytes reserved for the entries: 10 plus the name each.
pub open spec fn names_reserved(names: Seq<Seq<u8>>) -> nat
    decreases names.len(),
{
    if names.len() == 0 {
        0
    } else {
        names_reserved(names.drop_last()) + 10 + names.last().len()
    }
}

/// The total length of the image of `n` objects and the entries `names`.
pub open spec fn metadata_total(n: nat, names: Seq<Seq<u8>>) -> nat {
    32 + 222 * n + names_reserved(names)
}

/// The header bytes.
pub open spec fn metadata_header(n: u32, m: u32, next_id: u64, total: u32) -> Seq<u8> {
    seq![72u8, 86u8, 77u8, 49u8] + le32(1) + le32(n) + le32(m) + le64(next_id) + le32(total) + zeros(4)
}

/// The image of the objects `objs`, the entry names `names` and the next
/// object id.
pub open spec fn metadata_image(objs: Seq<NestDmuObject>, names: Seq<Seq<u8>>, next_id: u64) -> Seq<u8> {
    let total = metadata_total(objs.len(), names);
    let body = metadata_header(objs.len() as u32, names.len() as u32, next_id, total as u32)
        + records_image(objs) + entries_image(names);
    body + zeros((total - body.len()) as nat)
}

/// The objects of `s` in use, in order.
pub open spec fn used_objects(s: Seq<NestDmuObject>) -> Seq<NestDmuObject> {
    s.filter(|o: NestDmuObject| o.used)
}

/// The header of `s` checks out: long enough, the magic, counts within the
/// limits and the buffer as long as the counts ask for.
pub open spec fn meta_header_ok(s: Seq<u8>) -> bool {
    &&& s.len() >= 32
    &&& s[0] == 72u8 && s[1] == 86u8 && s[2] == 77u8 && s[3] == 49u8
    &&& le_u32_at(s, 8) <= HVM_MAX_OBJECTS
    &&& le_u32_at(s, 12) <= HVM_MAX_ENTRIES
    &&& s.len() >= 32 + 222 * le_u32_at(s, 8) + 10 * le_u32_at(s, 12)
}

/// `o` is the object the reader builds from the record at `off` of `s`: the
/// recorded fields, the pool block size, no data hash, no fill, clean.
pub open spec fn obj_decoded_at(o: NestDmuObject, s: Seq<u8>, off: int) -> bool {
    &&& o.obj_id == le_u64_at(s, off)
    &&& o.obj_type == obj_type_from_code(s[off + 8])
    &&& o.block_size == HV_POOL_BLOCK_SIZE as u32
    &&& o.nblocks == le_u64_at(s, off + 13)
    &&& o.size == le_u64_at(s, off + 21)
    &&& bp_fields_match(o.bp, s.subrange(off + 29, off + 141))
    &&& o.atime == le_u64_at(s, off + 141)
    &&& o.mtime == le_u64_at(s, off + 149)
    &&& o.ctime == le_u64_at(s, off + 157)
    &&& o.owner_pwm == le_u64_at(s, off + 165)
    &&& o.group_pwm == le_u64_at(s, off + 173)
    &&& o.sensitivity == s[off + 181]
    &&& o.pwm_perm == le_u16_at(s, off + 182)
    &&& o.link_count == le_u32_at(s, off + 184)
    &&& o.flags == le_u32_at(s, off + 188)
    &&& o.birth_txg == le_u64_at(s, off + 192)
    &&& o.used == (s[off + 200] != 0)
    &&& o.data_hash@ == seq![0u64, 0u64, 0u64, 0u64]
    &&& o.fill == 0
    &&& !o.dirty
}

/// The name an entry is filed under: its bytes when they are UTF-8, `"?"`
/// otherwise.
pub open spec fn entry_name_or_mark(b: Seq<u8>) -> Seq<u8> {
    if valid_utf8(b) { b } else { seq![63u8] }
}

/// The entries the reader takes from `s`, `k` of them starting at `off`,
/// and whether all `k` were there.
pub open spec fn parse_entries(s: Seq<u8>, off: int, k: nat) -> (Seq<(Seq<u8>, u64)>, bool)
    decreases k,
{
    if k == 0 {
        (Seq::empty(), true)
    } else if off + 2 > s.len() {
        (Seq::empty(), false)
    } else {
        let len = le_u16_at(s, off) as int;
        if len > HVM_MAX_NAME_LEN as int || off + 2 + len + 8 > s.len() {
            (Seq::empty(), false)
        } else {
            let name = entry_name_or_mark(s.subrange(off + 2, off + 2 + len));
            let id = le_u64_at(s, off + 2 + len);
            let rest = parse_entries(s, off + 2 + len + 8, (k - 1) as nat);
            (seq![(name, id)] + rest.0, rest.1)
        }
    }
}

/// A ZAP of capacity `cap`, emptied, after `insert_u64` of each entry of `l`
/// in order.
pub open spec fn inserted_all(cap: int, l: Seq<(Seq<u8>, u64)>) -> Seq<ZapEntryView>
    decreases l.len(),
{
    if l.len() == 0 {
        Seq::empty()
    } else {
        zap_insert_spec(inserted_all(cap, l.drop_last()), cap, l.last().0, spec_u64_to_le_bytes(l.last().1)).0
    }
}

proof fn lemma_used_filter_push(s: Seq<NestDmuObject>, o: NestDmuObject)
    ensures
        used_objects(s.push(o)) == if o.used { used_objects(s).push(o) } else { used_objects(s) },
{
    reveal(Seq::filter);
    assert(s.push(o).drop_last() =~= s);
}

proof fn lemma_obj_record_len(o: NestDmuObject)
    ensures
        obj_record(o).len() == HVM_OBJ_ENCODED_SIZE,
{
    lemma_auto_spec_u64_to_from_le_bytes();
    lemma_auto_spec_u32_to_from_le_bytes();
    lemma_auto_spec_u16_to_from_le_bytes();
    lemma_bp_image_len(o.bp);
}

proof fn lemma_records_len(objs: Seq<NestDmuObject>)
    ensures
        records_image(objs).len() == 202 * objs.len(),
    decreases objs.len(),
{
    if objs.len() > 0 {
        lemma_records_len(objs.drop_last());
        lemma_obj_record_len(objs.last());
    }
}

proof fn lemma_entries_len(names: Seq<Seq<u8>>)
    ensures
        entries_image(names).len() + 8 * names.len() == names_reserved(names),
    decreases names.len(),
{
    lemma_auto_spec_u16_to_from_le_bytes();
    if names.len() > 0 {
        lemma_entries_len(names.drop_last());
    }
}

/// The 202-byte record of one object.
pub fn obj_record_bytes(o: &NestDmuObject) -> (b: Vec<u8>)
    ensures
        b@ == obj_record(*o),
{
    let mut b: Vec<u8> = Vec::new();
    append_bytes(&mut b, u64_to_le_bytes(o.obj_id).as_slice());
    b.push(o.obj_type.to_u8());
    append_bytes(&mut b, u32_to_le_bytes(o.block_size).as_slice());
    append_bytes(&mut b, u64_to_le_bytes(o.nblocks).as_slice());
    append_bytes(&mut b, u64_to_le_bytes(o.size).as_slice());
    append_bytes(&mut b, o.bp.to_bytes().as_slice());
    append_bytes(&mut b, u64_to_le_bytes(o.atime).as_slice());
    append_bytes(&mut b, u64_to_le_bytes(o.mtime).as_slice());
    append_bytes(&mut b, u64_to_le_bytes(o.ctime).as_slice());
    append_bytes(&mut b, u64_to_le_bytes(o.owner_pwm).as_slice());
    append_bytes(&mut b, u64_to_le_bytes(o.group_pwm).as_slice());
    b.push(o.sensitivity);
    append_bytes(&mut b, u16_to_le_bytes(o.pwm_perm).as_slice());
    append_bytes(&mut b, u32_to_le_bytes(o.link_count).as_slice());
    append_bytes(&mut b, u32_to_le_bytes(o.flags).as_slice());
    append_bytes(&mut b, u64_to_le_bytes(o.birth_txg).as_slice());
    b.push(if o.used { 1u8 } else { 0u8 });
    b.push(0u8);
    assert(b@ =~= obj_record(*o));
    b
}

/// The bytes of each name of `names`.
pub open spec fn name_bytes(names: Seq<String>) -> Seq<Seq<u8>> {
    names.map_values(|t: String| encode_utf8(t@))
}

proof fn lemma_reserved_prefix(names: Seq<Seq<u8>>, j: int)
    requires
        0 <= j <= names.len(),
    ensures
        names_reserved(names.take(j)) <= names_reserved(names),
    decreases names.len(),
{
    if j < names.len() {
        assert(names.drop_last().take(j) =~= names.take(j));
        lemma_reserved_prefix(names.drop_last(), j);
    } else {
        assert(names.take(j) =~= names);
    }
}

/// The image of `objects`, the entry names `names` and `next_id`; `None`
/// when there are more than 65536 objects or more than 65536 names.
pub fn encode_metadata(objects: &Vec<NestDmuObject>, names: &Vec<String>, next_id: u64) -> (r: Option<Vec<u8>>)
    requires
        objects@.len() <= HVM_MAX_OBJECTS && names@.len() <= HVM_MAX_ENTRIES
            ==> metadata_total(objects@.len(), name_bytes(names@)) <= u32::MAX,
    ensures
        r is Some <==> objects@.len() <= HVM_MAX_OBJECTS && names@.len() <= HVM_MAX_ENTRIES,
        r matches Some(b) ==> b@ == metadata_image(objects@, name_bytes(names@), next_id),
{
    let n = objects.len();
    let m = names.len();
    if n > HVM_MAX_OBJECTS || m > HVM_MAX_ENTRIES {
        return None;
    }
    let ghost nb = name_bytes(names@);
    let ghost total_spec = metadata_total(n as nat, nb);
    proof {
        lemma_auto_spec_u64_to_from_le_bytes();
        lemma_auto_spec_u32_to_from_le_bytes();
        lemma_auto_spec_u16_to_from_le_bytes();
    }
    let mut total: u32 = 32;
    let mut i: usize = 0;
    while i < n
        invariant
            n == objects@.len(),
            n <= HVM_MAX_OBJECTS,
            0 <= i <= n,
            total == 32 + 222 * i,
        decreases n - i,
    {
        total = total + 222;
        i += 1;
    }
    let mut j: usize = 0;
    while j < m
        invariant
            m == names@.len(),
            nb == name_bytes(names@),
            0 <= j <= m,
            total_spec == metadata_total(n as nat, nb),
            total_spec <= u32::MAX,
            total == 32 + 222 * n + names_reserved(nb.take(j as int)),
        decreases m - j,
    {
        let len = names[j].as_str().as_bytes().len();
        proof {
            assert(nb.take(j + 1).drop_last() =~= nb.take(j as int));
            lemma_reserved_prefix(nb, j + 1);
        }
        total = total + 2 + len as u32 + 8;
        j += 1;
    }
    proof {
        assert(nb.take(m as int) =~= nb);
    }
    let mut b: Vec<u8> = Vec::new();
    b.push(72u8);
    b.push(86u8);
    b.push(77u8);
    b.push(49u8);
    append_bytes(&mut b, u32_to_le_bytes(1).as_slice());
    append_bytes(&mut b, u32_to_le_bytes(n as u32).as_slice());
    append_bytes(&mut b, u32_to_le_bytes(m as u32).as_slice());
    append_bytes(&mut b, u64_to_le_bytes(next_id).as_slice());
    append_bytes(&mut b, u32_to_le_bytes(total).as_slice());
    append_bytes(&mut b, zeroed(4).as_slice());
    let ghost header = metadata_header(n as u32, m as u32, next_id, total);
    assert(b@ =~= header);
    let mut i: usize = 0;
    while i < n
        invariant
            n == objects@.len(),
            0 <= i <= n,
            b@ == header + records_image(objects@.take(i as int)),
        decreases n - i,
    {
        let rec = obj_record_bytes(&objects[i]);
        proof {
            assert(objects@.take(i + 1).drop_last() =~= objects@.take(i as int));
        }
        append_bytes(&mut b, rec.as_slice());
        proof {
            assert(b@ =~= header + records_image(objects@.take(i + 1)));
        }
        i += 1;
    }
    proof {
        assert(objects@.take(n as int) =~= objects@);
    }
    let mut j: usize = 0;
    while j < m
        invariant
            m == names@.len(),
            nb == name_bytes(names@),
            0 <= j <= m,
            b@ == header + records_image(objects@) + entries_image(nb.take(j as int)),
        decreases m - j,
    {
        let nbytes = names[j].as_str().as_bytes();
        let len16 = (nbytes.len() % 0x10000) as u16;
        proof {
            assert(nb.take(j + 1).drop_last() =~= nb.take(j as int));
            assert(nb[j as int] == nbytes@);
        }
        append_bytes(&mut b, u16_to_le_bytes(len16).as_slice());
        append_bytes(&mut b, nbytes);
        proof {
            assert(b@ =~= header + records_image(objects@) + entries_image(nb.take(j + 1)));
        }
        j += 1;
    }
    proof {
        assert(nb.take(m as int) =~= nb);
        lemma_records_len(objects@);
        lemma_entries_len(nb);
    }
    let cur = b.len();
    let pad = zeroed(total as usize - cur);
    append_bytes(&mut b, pad.as_slice());
    proof {
        assert(zeros((total - cur) as nat) =~= pad@);
        assert(b@ =~= metadata_image(objects@, nb, next_id));
    }
    Some(b)
}

/// The metadata image of `ds`: its objects in use, the names of its
/// directory entries in use and its next object id; `None` when there are
/// more than 65536 of either.
pub fn serialize_dataset_metadata(ds: &HvDataset) -> (r: Option<Vec<u8>>)
    requires
        used_objects(ds.objset.objects@).len() <= HVM_MAX_OBJECTS && zap_keys(ds.dir_zap@).len() <= HVM_MAX_ENTRIES
            ==> metadata_total(used_objects(ds.objset.objects@).len(), zap_keys(ds.dir_zap@)) <= u32::MAX,
    ensures
        r is Some <==> used_objects(ds.objset.objects@).len() <= HVM_MAX_OBJECTS
            && zap_keys(ds.dir_zap@).len() <= HVM_MAX_ENTRIES,
        r matches Some(b) ==> b@ == metadata_image(
            used_objects(ds.objset.objects@),
            zap_keys(ds.dir_zap@),
            ds.objset.next_obj_id,
        ),
{
    let all = &ds.objset.objects;
    let mut objs: Vec<NestDmuObject> = Vec::new();
    let mut i: usize = 0;
    while i < all.len()
        invariant
            0 <= i <= all@.len(),
            objs@ == used_objects(all@.take(i as int)),
        decreases all@.len() - i,
    {
        proof {
            lemma_used_filter_push(all@.take(i as int), all@[i as int]);
            assert(all@.take(i + 1) =~= all@.take(i as int).push(all@[i as int]));
        }
        if all[i].used {
            objs.push(all[i]);
        }
        i += 1;
    }
    proof {
        assert(all@.take(all@.len() as int) =~= all@);
    }
    let names = ds.dir_zap.keys();
    proof {
        assert(name_bytes(names@) =~= zap_keys(ds.dir_zap@));
    }
    encode_metadata(&objs, &names, ds.objset.next_obj_id)
}

/// The object the record at `off` of `buf` describes.
pub fn decode_obj_at(buf: &[u8], off: usize) -> (o: NestDmuObject)
    requires
        off + HVM_OBJ_ENCODED_SIZE <= buf@.len(),
    ensures
        obj_decoded_at(o, buf@, off as int),
{
    let _n = buf.len();
    let bp = match NestBlockPointer::from_bytes(slice_range(buf, off + 29, off + 141)) {
        Some(b) => b,
        None => NestBlockPointer::null(),
    };
    let o = NestDmuObject {
        obj_id: read_le_u64(buf, off),
        obj_type: NestObjType::from_u8(buf[off + 8]),
        block_size: HV_POOL_BLOCK_SIZE as u32,
        nblocks: read_le_u64(buf, off + 13),
        size: read_le_u64(buf, off + 21),
        bp,
        atime: read_le_u64(buf, off + 141),
        mtime: read_le_u64(buf, off + 149),
        ctime: read_le_u64(buf, off + 157),
        owner_pwm: read_le_u64(buf, off + 165),
        group_pwm: read_le_u64(buf, off + 173),
        sensitivity: buf[off + 181],
        pwm_perm: read_le_u16(buf, off + 182),
        link_count: read_le_u32(buf, off + 184),
        flags: read_le_u32(buf, off + 188),
        birth_txg: read_le_u64(buf, off + 192),
        data_hash: [0u64; 4],
        fill: 0,
        dirty: false,
        used: buf[off + 200] != 0,
    };
    assert(o.data_hash@ =~= seq![0u64, 0u64, 0u64, 0u64]);
    o
}

/// Loads the metadata image `buf` into `ds`.
///
/// When the header does not check out nothing changes and the result is
/// `false`. Otherwise the objects of `ds` become the recorded ones, its next
/// object id the recorded one, and its directory ZAP is emptied and filled
/// with the entries read until one is cut short or names more than 4096
/// bytes; the result says whether all recorded entries were read.
pub fn deserialize_dataset_metadata(ds: &mut HvDataset, buf: &[u8]) -> (ok: bool)
    ensures
        !meta_header_ok(buf@) ==> !ok && *final(ds) == *old(ds),
        meta_header_ok(buf@) ==> {
            let n = le_u32_at(buf@, 8) as int;
            let m = le_u32_at(buf@, 12) as nat;
            let parsed = parse_entries(buf@, 32 + 202 * n, m);
            &&& final(ds).objset.objects@.len() == n
            &&& forall|i: int| 0 <= i < n ==> obj_decoded_at(#[trigger] final(ds).objset.objects@[i], buf@, 32 + 202 * i)
            &&& final(ds).objset.next_obj_id == le_u64_at(buf@, 16)
            &&& final(ds).objset.root_obj == old(ds).objset.root_obj
            &&& final(ds).objset.initialized == old(ds).objset.initialized
            &&& final(ds).dir_zap@ == inserted_all(old(ds).dir_zap.capacity as int, parsed.0)
            &&& final(ds).dir_zap.capacity == old(ds).dir_zap.capacity
            &&& final(ds).dir_zap.zap_type == old(ds).dir_zap.zap_type
            &&& ok == parsed.1
            &&& *final(ds) == (HvDataset { objset: final(ds).objset, dir_zap: final(ds).dir_zap, ..*old(ds) })
        },
{
    if buf.len() < HVM_HEADER_SIZE {
        return false;
    }
    if buf[0] != 72u8 || buf[1] != 86u8 || buf[2] != 77u8 || buf[3] != 49u8 {
        return false;
    }
    let obj_count = read_le_u32(buf, 8) as usize;
    let zap_count = read_le_u32(buf, 12) as usize;
    let next_obj_id = read_le_u64(buf, 16);
    if obj_count > HVM_MAX_OBJECTS || zap_count > HVM_MAX_ENTRIES {
        return false;
    }
    let expected_min: u64 = 32 + obj_count as u64 * 222 + zap_count as u64 * 10;
    if (buf.len() as u64) < expected_min {
        return false;
    }
    let mut objs: Vec<NestDmuObject> = Vec::new();
    let mut off: usize = 32;
    let mut i: usize = 0;
    while i < obj_count
        invariant
            0 <= i <= obj_count,
            obj_count <= HVM_MAX_OBJECTS,
            buf@.len() >= 32 + 222 * obj_count,
            off == 32 + 202 * i,
            objs@.len() == i,
            forall|k: int| 0 <= k < i ==> obj_decoded_at(#[trigger] objs@[k], buf@, 32 + 202 * k),
        decreases obj_count - i,
    {
        let o = decode_obj_at(buf, off);
        objs.push(o);
        off = off + HVM_OBJ_ENCODED_SIZE;
        i += 1;
    }
    assert(meta_header_ok(buf@));
    ds.objset.objects = objs;
    ds.objset.next_obj_id = next_obj_id;
    ds.dir_zap.clear();
    let ghost cap = ds.dir_zap.capacity as int;
    let ghost start = off as int;
    let ghost mut parsed: Seq<(Seq<u8>, u64)> = Seq::empty();
    let mut j: usize = 0;
    while j < zap_count
        invariant
            0 <= j <= zap_count,
            off <= buf@.len(),
            cap == ds.dir_zap.capacity,
            cap == old(ds).dir_zap.capacity,
            ds.dir_zap.zap_type == old(ds).dir_zap.zap_type,
            meta_header_ok(buf@),
            obj_count == le_u32_at(buf@, 8),
            zap_count == le_u32_at(buf@, 12),
            start == 32 + 202 * obj_count,
            ds.objset.objects@.len() == obj_count,
            forall|k: int| 0 <= k < obj_count ==> obj_decoded_at(#[trigger] ds.objset.objects@[k], buf@, 32 + 202 * k),
            ds.objset.next_obj_id == le_u64_at(buf@, 16),
            ds.objset.root_obj == old(ds).objset.root_obj,
            ds.objset.initialized == old(ds).objset.initialized,
            *ds == (HvDataset { objset: ds.objset, dir_zap: ds.dir_zap, ..*old(ds) }),
            parse_entries(buf@, start, zap_count as nat) == (
                parsed + parse_entries(buf@, off as int, (zap_count - j) as nat).0,
                parse_entries(buf@, off as int, (zap_count - j) as nat).1,
            ),
            ds.dir_zap@ == inserted_all(cap, parsed),
        decreases zap_count - j,
    {
        let ghost k = (zap_count - j) as nat;
        if buf.len() - off < 2 {
            proof {
                assert(parsed + Seq::<(Seq<u8>, u64)>::empty() =~= parsed);
            }
            return false;
        }
        let name_len = read_le_u16(buf, off) as usize;
        if name_len > HVM_MAX_NAME_LEN {
            proof {
                assert(parsed + Seq::<(Seq<u8>, u64)>::empty() =~= parsed);
            }
            return false;
        }
        if buf.len() - off - 2 < name_len + 8 {
            proof {
                assert(parsed + Seq::<(Seq<u8>, u64)>::empty() =~= parsed);
            }
            return false;
        }
        let nb = slice_range(buf, off + 2, off + 2 + name_len);
        let name: &str = match utf8_checked(nb) {
            Some(t) => t,
            None => "?",
        };
        proof {
            if !valid_utf8(nb@) {
                reveal_strlit("?");
                vstd::string::is_ascii_spec_bytes("?");
                assert(name.spec_bytes() =~= seq![63u8]);
            }
        }
        let id = read_le_u64(buf, off + 2 + name_len);
        let ghost e = (entry_name_or_mark(nb@), id);
        let ghost next_off = off + 2 + name_len + 8;
        assert(name.spec_bytes() == e.0);
        ds.dir_zap.insert_u64(name, id);
        proof {
            let rest = parse_entries(buf@, next_off, (k - 1) as nat);
            assert(parse_entries(buf@, off as int, k) == (seq![e] + rest.0, rest.1));
            assert(parsed + (seq![e] + rest.0) =~= parsed.push(e) + rest.0);
            assert(parsed.push(e).drop_last() =~= parsed);
            parsed = parsed.push(e);
        }
        off = off + 2 + name_len + 8;
        j += 1;
    }
    proof {
        assert(parsed + Seq::<(Seq<u8>, u64)>::empty() =~= parsed);
    }
    true
}

/// `x` is `o` as the reader restores it: every recorded field kept, the pool
/// block size, no data hash, no fill, clean.
pub open spec fn restored_from(x: NestDmuObject, o: NestDmuObject) -> bool {
    &&& x.obj_id == o.obj_id
    &&& x.obj_type == o.obj_type
    &&& x.block_size == HV_POOL_BLOCK_SIZE as u32
    &&& x.nblocks == o.nblocks
    &&& x.size == o.size
    &&& x.bp == o.bp
    &&& x.atime == o.atime
    &&& x.mtime == o.mtime
    &&& x.ctime == o.ctime
    &&& x.owner_pwm == o.owner_pwm
    &&& x.group_pwm == o.group_pwm
    &&& x.sensitivity == o.sensitivity
    &&& x.pwm_perm == o.pwm_perm
    &&& x.link_count == o.link_count
    &&& x.flags == o.flags
    &&& x.birth_txg == o.birth_txg
    &&& x.used == o.used
    &&& x.data_hash@ == seq![0u64, 0u64, 0u64, 0u64]
    &&& x.fill == 0
    &&& !x.dirty
}

proof fn lemma_record_at(objs: Seq<NestDmuObject>, i: int)
    requires
        0 <= i < objs.len(),
    ensures
        records_image(objs).subrange(202 * i, 202 * i + 202) == obj_record(objs[i]),
    decreases objs.len(),
{
    let pre = objs.drop_last();
    lemma_records_len(pre);
    lemma_obj_record_len(objs.last());
    if i == objs.len() - 1 {
        assert(records_image(objs).subrange(202 * i, 202 * i + 202) =~= obj_record(objs.last()));
    } else {
        lemma_record_at(pre, i);
        lemma_records_len(pre);
        assert(records_image(objs).subrange(202 * i, 202 * i + 202) =~= records_image(pre).subrange(
            202 * i,
            202 * i + 202,
        ));
    }
}

proof fn lemma_decode_record(o: NestDmuObject, s: Seq<u8>, off: int, x: NestDmuObject)
    requires
        0 <= off,
        off + 202 <= s.len(),
        s.subrange(off, off + 202) == obj_record(o),
        o.bp._pad@ == seq![0u64, 0u64],
        obj_decoded_at(x, s, off),
    ensures
        restored_from(x, o),
{
    lemma_auto_spec_u64_to_from_le_bytes();
    lemma_auto_spec_u32_to_from_le_bytes();
    lemma_auto_spec_u16_to_from_le_bytes();
    lemma_bp_image_len(o.bp);
    let r = obj_record(o);
    let p0 = le64(o.obj_id);
    assert(p0.len() == 8);
    let p1 = p0 + seq![obj_type_code(o.obj_type)];
    assert(p1.len() == 9);
    let p2 = p1 + le32(o.block_size);
    assert(p2.len() == 13);
    let p3 = p2 + le64(o.nblocks);
    assert(p3.len() == 21);
    let p4 = p3 + le64(o.size);
    assert(p4.len() == 29);
    let p5 = p4 + bp_image(o.bp);
    assert(p5.len() == 141);
    let p6 = p5 + le64(o.atime);
    assert(p6.len() == 149);
    let p7 = p6 + le64(o.mtime);
    assert(p7.len() == 157);
    let p8 = p7 + le64(o.ctime);
    assert(p8.len() == 165);
    let p9 = p8 + le64(o.owner_pwm);
    assert(p9.len() == 173);
    let p10 = p9 + le64(o.group_pwm);
    assert(p10.len() == 181);
    let p11 = p10 + seq![o.sensitivity];
    assert(p11.len() == 182);
    let p12 = p11 + le16(o.pwm_perm);
    assert(p12.len() == 184);
    let p13 = p12 + le32(o.link_count);
    assert(p13.len() == 188);
    let p14 = p13 + le32(o.flags);
    assert(p14.len() == 192);
    let p15 = p14 + le64(o.birth_txg);
    assert(p15.len() == 200);
    let p16 = p15 + seq![if o.used { 1u8 } else { 0u8 }, 0u8];
    assert(p16.len() == 202);
    assert(r == p16);
    assert(p16.subrange(0, 200) =~= p15);
    assert(p15.subrange(0, 192) =~= p14);
    assert(p14.subrange(0, 188) =~= p13);
    assert(p13.subrange(0, 184) =~= p12);
    assert(p12.subrange(0, 182) =~= p11);
    assert(p11.subrange(0, 181) =~= p10);
    assert(p10.subrange(0, 173) =~= p9);
    assert(p9.subrange(0, 165) =~= p8);
    assert(p8.subrange(0, 157) =~= p7);
    assert(p7.subrange(0, 149) =~= p6);
    assert(p6.subrange(0, 141) =~= p5);
    assert(p5.subrange(0, 29) =~= p4);
    assert(p4.subrange(0, 21) =~= p3);
    assert(p3.subrange(0, 13) =~= p2);
    assert(p2.subrange(0, 9) =~= p1);
    assert(p1.subrange(0, 8) =~= p0);
    assert(p0.subrange(0, 8) =~= le64(o.obj_id));
    assert(r.subrange(0, 8) =~= p0.subrange(0, 8));
    assert(s.subrange(off + 0, off + 8) =~= r.subrange(0, 8));
    assert(p1.subrange(8, 9) =~= seq![obj_type_code(o.obj_type)]);
    assert(r.subrange(8, 9) =~= p1.subrange(8, 9));
    assert(s.subrange(off + 8, off + 9) =~= r.subrange(8, 9));
    assert(p2.subrange(9, 13) =~= le32(o.block_size));
    assert(r.subrange(9, 13) =~= p2.subrange(9, 13));
    assert(s.subrange(off + 9, off + 13) =~= r.subrange(9, 13));
    assert(p3.subrange(13, 21) =~= le64(o.nblocks));
    assert(r.subrange(13, 21) =~= p3.subrange(13, 21));
    assert(s.subrange(off + 13, off + 21) =~= r.subrange(13, 21));
    assert(p4.subrange(21, 29) =~= le64(o.size));
    assert(r.subrange(21, 29) =~= p4.subrange(21, 29));
    assert(s.subrange(off + 21, off + 29) =~= r.subrange(21, 29));
    assert(p5.subrange(29, 141) =~= bp_image(o.bp));
    assert(r.subrange(29, 141) =~= p5.subrange(29, 141));
    assert(s.subrange(off + 29, off + 141) =~= r.subrange(29, 141));
    assert(p6.subrange(141, 149) =~= le64(o.atime));
    assert(r.subrange(141, 149) =~= p6.subrange(141, 149));
    assert(s.subrange(off + 141, off + 149) =~= r.subrange(141, 149));
    assert(p7.subrange(149, 157) =~= le64(o.mtime));
    assert(r.subrange(149, 157) =~= p7.subrange(149, 157));
    assert(s.subrange(off + 149, off + 157) =~= r.subrange(149, 157));
    assert(p8.subrange(157, 165) =~= le64(o.ctime));
    assert(r.subrange(157, 165) =~= p8.subrange(157, 165));
    assert(s.subrange(off + 157, off + 165) =~= r.subrange(157, 165));
    assert(p9.subrange(165, 173) =~= le64(o.owner_pwm));
    assert(r.subrange(165, 173) =~= p9.subrange(165, 173));
    assert(s.subrange(off + 165, off + 173) =~= r.subrange(165, 173));
    assert(p10.subrange(173, 181) =~= le64(o.group_pwm));
    assert(r.subrange(173, 181) =~= p10.subrange(173, 181));
    assert(s.subrange(off + 173, off + 181) =~= r.subrange(173, 181));
    assert(p11.subrange(181, 182) =~= seq![o.sensitivity]);
    assert(r.subrange(181, 182) =~= p11.subrange(181, 182));
    assert(s.subrange(off + 181, off + 182) =~= r.subrange(181, 182));
    assert(p12.subrange(182, 184) =~= le16(o.pwm_perm));
    assert(r.subrange(182, 184) =~= p12.subrange(182, 184));
    assert(s.subrange(off + 182, off + 184) =~= r.subrange(182, 184));
    assert(p13.subrange(184, 188) =~= le32(o.link_count));
    assert(r.subrange(184, 188) =~= p13.subrange(184, 188));
    assert(s.subrange(off + 184, off + 188) =~= r.subrange(184, 188));
    assert(p14.subrange(188, 192) =~= le32(o.flags));
    assert(r.subrange(188, 192) =~= p14.subrange(188, 192));
    assert(s.subrange(off + 188, off + 192) =~= r.subrange(188, 192));
    assert(p15.subrange(192, 200) =~= le64(o.birth_txg));
    assert(r.subrange(192, 200) =~= p15.subrange(192, 200));
    assert(s.subrange(off + 192, off + 200) =~= r.subrange(192, 200));
    assert(p16.subrange(200, 202) =~= seq![if o.used { 1u8 } else { 0u8 }, 0u8]);
    assert(r.subrange(200, 202) =~= p16.subrange(200, 202));
    assert(s.subrange(off + 200, off + 202) =~= r.subrange(200, 202));
    assert(s[off + 8] == s.subrange(off + 8, off + 9)[0]);
    assert(s[off + 181] == s.subrange(off + 181, off + 182)[0]);
    assert(s[off + 200] == s.subrange(off + 200, off + 202)[0]);
    lemma_obj_type_code_roundtrip(o.obj_type);
    lemma_bp_image_roundtrip(o.bp, x.bp);
}

/// Objects come back from their metadata image: for objects whose block
/// pointers have zero padding and no directory entries, the image passes
/// the header check, records the object count, no entries and the next
/// object id, reads all of its (zero) entries, and the reader restores each
/// object with its recorded fields.
pub proof fn lemma_metadata_roundtrip(objs: Seq<NestDmuObject>, next_id: u64, i: int, x: NestDmuObject)
    requires
        objs.len() <= HVM_MAX_OBJECTS,
        forall|k: int| 0 <= k < objs.len() ==> (#[trigger] objs[k]).bp._pad@ == seq![0u64, 0u64],
    ensures
        meta_header_ok(metadata_image(objs, Seq::empty(), next_id)),
        le_u32_at(metadata_image(objs, Seq::empty(), next_id), 8) == objs.len(),
        le_u32_at(metadata_image(objs, Seq::empty(), next_id), 12) == 0,
        le_u64_at(metadata_image(objs, Seq::empty(), next_id), 16) == next_id,
        parse_entries(metadata_image(objs, Seq::empty(), next_id), 32 + 202 * (objs.len() as int), 0nat)
            == (Seq::<(Seq<u8>, u64)>::empty(), true),
        0 <= i < objs.len() && obj_decoded_at(x, metadata_image(objs, Seq::empty(), next_id), 32 + 202 * i)
            ==> restored_from(x, objs[i]),
{
    lemma_auto_spec_u64_to_from_le_bytes();
    lemma_auto_spec_u32_to_from_le_bytes();
    lemma_auto_spec_u16_to_from_le_bytes();
    let names = Seq::<Seq<u8>>::empty();
    let n = objs.len();
    let img = metadata_image(objs, names, next_id);
    let total = metadata_total(n, names);
    let header = metadata_header(n as u32, 0, next_id, total as u32);
    lemma_records_len(objs);
    assert(entries_image(names) =~= Seq::<u8>::empty());
    let body = header + records_image(objs) + entries_image(names);
    assert(header.len() == 32);
    assert(img.len() == total);
    assert(img.subrange(8, 12) =~= le32(n as u32));
    assert(img.subrange(12, 16) =~= le32(0));
    assert(img.subrange(16, 24) =~= le64(next_id));
    assert(meta_header_ok(img));
    if 0 <= i < n && obj_decoded_at(x, img, 32 + 202 * i) {
        lemma_record_at(objs, i);
        assert(img.subrange(32 + 202 * i, 32 + 202 * i + 202) =~= records_image(objs).subrange(
            202 * i,
            202 * i + 202,
        ));
        lemma_decode_record(objs[i], img, 32 + 202 * i, x);
    }
}

} // verus!
