//! On-disk persistence of the intent log.
//!
//! A ZIL block is `ZIL_BLOCK_SIZE` bytes: a 64-byte header (magic, version,
//! txg, first sequence number, record count, header CRC), up to
//! `ZIL_MAX_RECORDS_PER_BLOCK` record slots of 256 bytes each (209 bytes used:
//! the fields and a CRC32 of them) and an 8-byte trailer (tail magic and the
//! CRC32 of everything before it). All integers are little-endian. A block is
//! read back only when the header, the trailer and every record check out;
//! otherwise nothing is returned.
use crate::bytes_util::{append_bytes, overwrite, slice_prefix, slice_range, write_at, write_slice_at, zeroed};
use crate::nestfs::bp::{le_u16_at, le_u32_at, le_u64_at, read_le_u16, read_le_u32, read_le_u64};
use crate::nestfs::zil::{
    rec_type_code, sort_by_seq, NestZil, NestZilRecord,
    NestZilRecordType,
};
use vstd::prelude::*;
use vstd::bytes::{
    lemma_auto_spec_u16_to_from_le_bytes, lemma_auto_spec_u32_to_from_le_bytes,
    lemma_auto_spec_u64_to_from_le_bytes, spec_u16_to_le_bytes, spec_u32_to_le_bytes,
    spec_u64_to_le_bytes, u16_to_le_bytes, u32_to_le_bytes, u64_to_le_bytes,
};

verus! {

pub type HvZil = NestZil;

pub type HvZilRecord = NestZilRecord;

pub type HvZilRecordType = NestZilRecordType;

pub const ZIL_MAGIC: u32 = 0x5A494C31;

pub const ZIL_TAIL_MAGIC: u32 = 0x454E4400;

pub const ZIL_BLOCK_SIZE: usize = 8192;

pub const ZIL_HEADER_SIZE: usize = 64;

pub const ZIL_TRAILER_SIZE: usize = 8;

pub const ZIL_RECORD_DISK_SIZE: usize = 256;

pub const ZIL_MAX_RECORDS_PER_BLOCK: usize = 31;

/// Bytes of a record slot that carry data: the 205 field bytes and their CRC32.
pub const ZIL_RECORD_PAYLOAD: usize = 209;

/// Offset of the trailer in a block.
pub const ZIL_TRAILER_OFFSET: usize = 8184;

/// Errors of the record decoder.
#[derive(Debug, Clone, Copy, PartialEq, Eq, Structural)]
pub enum HvZilPersistError {
    BufferTooShort { need: usize, got: usize },
    CrcMismatch { expected: u32, computed: u32 },
    UnknownRecordType(u8),
    InvalidBlock,
}

impl HvZilPersistError {
    /// A fixed name for the error kind.
    pub fn as_static_str(&self) -> (s: &'static str)
        ensures
            self is BufferTooShort ==> s == "buffer_too_short",
            self is CrcMismatch ==> s == "crc_mismatch",
            self is UnknownRecordType ==> s == "unknown_record_type",
            self is InvalidBlock ==> s == "invalid_block",
    {
        match self {
            HvZilPersistError::BufferTooShort { .. } => "buffer_too_short",
            HvZilPersistError::CrcMismatch { .. } => "crc_mismatch",
            HvZilPersistError::UnknownRecordType(_) => "unknown_record_type",
            HvZilPersistError::InvalidBlock => "invalid_block",
        }
    }
}

// ---------------------------------------------------------------------------
// CRC32 (IEEE, reflected, polynomial 0xEDB88320)
// ---------------------------------------------------------------------------

/// One bit step of the reflected CRC32 register.
pub open spec fn crc_shift(c: u32) -> u32 {
    if c & 1 != 0 { (c >> 1u32) ^ 0xEDB88320u32 } else { c >> 1u32 }
}

/// `n` bit steps.
pub open spec fn crc_rounds(c: u32, n: nat) -> u32
    decreases n,
{
    if n == 0 { c } else { crc_rounds(crc_shift(c), (n - 1) as nat) }
}

/// The CRC32 register after feeding `s` (initial value all ones).
pub open spec fn crc_state(s: Seq<u8>) -> u32
    decreases s.len(),
{
    if s.len() == 0 {
        0xFFFFFFFFu32
    } else {
        crc_rounds(crc_state(s.drop_last()) ^ (s.last() as u32), 8)
    }
}

/// CRC32 of `s`.
pub open spec fn crc32(s: Seq<u8>) -> u32 {
    !crc_state(s)
}

/// CRC32 of `data`.
pub fn crc32_checksum(data: &[u8]) -> (c: u32)
    ensures
        c == crc32(data@),
{
    let mut crc: u32 = 0xFFFFFFFF;
    let mut i: usize = 0;
    while i < data.len()
        invariant
            0 <= i <= data@.len(),
            crc == crc_state(data@.take(i as int)),
        decreases data@.len() - i,
    {
        proof {
            assert(data@.take(i + 1).drop_last() =~= data@.take(i as int));
        }
        crc = crc ^ (data[i] as u32);
        let ghost start = crc;
        let mut k: u32 = 0;
        while k < 8
            invariant
                0 <= k <= 8,
                crc_rounds(crc, (8 - k) as nat) == crc_rounds(start, 8),
            decreases 8 - k,
        {
            if crc & 1 != 0 {
                crc = (crc >> 1u32) ^ 0xEDB88320u32;
            } else {
                crc = crc >> 1u32;
            }
            k += 1;
        }
        i += 1;
    }
    assert(data@.take(data@.len() as int) =~= data@);
    !crc
}

/// CRC32 of `data` (exposed for tests).
pub fn crc32_test_wrapper(data: &[u8]) -> (c: u32)
    ensures
        c == crc32(data@),
{
    crc32_checksum(data)
}

/// One bit step is linear: stepping `x ^ y` combines the steps of each.
proof fn lemma_shift_xor(x: u32, y: u32)
    ensures
        crc_shift(x ^ y) == crc_shift(x) ^ crc_shift(y),
{
    assert(crc_shift(x ^ y) == crc_shift(x) ^ crc_shift(y)) by (bit_vector);
}

/// One bit step maps only zero to zero.
proof fn lemma_shift_nonzero(c: u32)
    requires
        c != 0,
    ensures
        crc_shift(c) != 0,
{
    assert(c != 0 ==> crc_shift(c) != 0) by (bit_vector);
}

/// `n` bit steps are linear.
proof fn lemma_rounds_xor(x: u32, y: u32, n: nat)
    ensures
        crc_rounds(x ^ y, n) == crc_rounds(x, n) ^ crc_rounds(y, n),
    decreases n,
{
    if n > 0 {
        lemma_shift_xor(x, y);
        lemma_rounds_xor(crc_shift(x), crc_shift(y), (n - 1) as nat);
    }
}

/// `n` bit steps map only zero to zero.
proof fn lemma_rounds_nonzero(c: u32, n: nat)
    requires
        c != 0,
    ensures
        crc_rounds(c, n) != 0,
    decreases n,
{
    if n > 0 {
        lemma_shift_nonzero(c);
        lemma_rounds_nonzero(crc_shift(c), (n - 1) as nat);
    }
}

/// Eight bit steps from two different registers end in different registers.
proof fn lemma_rounds_distinct(a: u32, b: u32)
    requires
        a != b,
    ensures
        crc_rounds(a, 8) != crc_rounds(b, 8),
{
    lemma_rounds_xor(a, b, 8);
    assert(a ^ b != 0) by (bit_vector)
        requires
            a != b,
    ;
    lemma_rounds_nonzero(a ^ b, 8);
    let ra = crc_rounds(a, 8);
    let rb = crc_rounds(b, 8);
    assert(ra ^ rb != 0 ==> ra != rb) by (bit_vector);
}

/// The CRC32 register tells apart two inputs that differ in one byte.
proof fn lemma_crc_state_one_byte(s: Seq<u8>, i: int, v: u8)
    requires
        0 <= i < s.len(),
        v != s[i],
    ensures
        crc_state(s) != crc_state(s.update(i, v)),
    decreases s.len(),
{
    let t = s.update(i, v);
    let x = crc_state(s.drop_last());
    let y = crc_state(t.drop_last());
    let sl = s.last();
    let tl = t.last();
    if i == s.len() - 1 {
        assert(t.drop_last() =~= s.drop_last());
        assert(tl == v);
        assert(x ^ (sl as u32) != x ^ (tl as u32)) by (bit_vector)
            requires
                sl != tl,
        ;
        lemma_rounds_distinct(x ^ (sl as u32), x ^ (tl as u32));
    } else {
        assert(t.drop_last() =~= s.drop_last().update(i, v));
        lemma_crc_state_one_byte(s.drop_last(), i, v);
        assert(tl == sl);
        assert(x ^ (sl as u32) != y ^ (sl as u32)) by (bit_vector)
            requires
                x != y,
        ;
        lemma_rounds_distinct(x ^ (sl as u32), y ^ (sl as u32));
    }
}

/// CRC32 detects every change of a single byte.
pub proof fn lemma_crc32_one_byte(s: Seq<u8>, i: int, v: u8)
    requires
        0 <= i < s.len(),
        v != s[i],
    ensures
        crc32(s) != crc32(s.update(i, v)),
{
    lemma_crc_state_one_byte(s, i, v);
    let p = crc_state(s);
    let q = crc_state(s.update(i, v));
    assert(p != q ==> !p != !q) by (bit_vector);
}

// ---------------------------------------------------------------------------
// Little-endian pieces
// ---------------------------------------------------------------------------

pub open spec fn le16(x: u16) -> Seq<u8> {
    spec_u16_to_le_bytes(x)
}

pub open spec fn le32(x: u32) -> Seq<u8> {
    spec_u32_to_le_bytes(x)
}

pub open spec fn le64(x: u64) -> Seq<u8> {
    spec_u64_to_le_bytes(x)
}

/// `n` zero bytes.
pub open spec fn zeros(n: nat) -> Seq<u8> {
    Seq::new(n, |i: int| 0u8)
}

/// Lengths of the encodings, and decoding an encoding gives the value back.
pub proof fn lemma_le_facts()
    ensures
        forall|x: u16| #[trigger] le16(x).len() == 2 && le_u16_at(le16(x), 0) == x,
        forall|x: u32| #[trigger] le32(x).len() == 4 && le_u32_at(le32(x), 0) == x,
        forall|x: u64| #[trigger] le64(x).len() == 8 && le_u64_at(le64(x), 0) == x,
{
    lemma_auto_spec_u16_to_from_le_bytes();
    lemma_auto_spec_u32_to_from_le_bytes();
    lemma_auto_spec_u64_to_from_le_bytes();
    assert forall|x: u16| #[trigger] le16(x).len() == 2 && le_u16_at(le16(x), 0) == x by {
        assert(le16(x).subrange(0, 2) =~= le16(x));
    }
    assert forall|x: u32| #[trigger] le32(x).len() == 4 && le_u32_at(le32(x), 0) == x by {
        assert(le32(x).subrange(0, 4) =~= le32(x));
    }
    assert forall|x: u64| #[trigger] le64(x).len() == 8 && le_u64_at(le64(x), 0) == x by {
        assert(le64(x).subrange(0, 8) =~= le64(x));
    }
}

// ---------------------------------------------------------------------------
// Records
// ---------------------------------------------------------------------------

/// The 205 field bytes of a record slot.
pub open spec fn record_fields_bytes(r: NestZilRecord) -> Seq<u8> {
    seq![rec_type_code(r.rec_type)] + le64(r.txg) + le64(r.obj_id) + le64(r.parent_obj) + le64(r.offset)
        + le32(r.size) + le64(r.seq) + r.name@ + le64(r.data_hash[0]) + le64(r.data_hash[1])
        + le64(r.data_hash[2]) + le64(r.data_hash[3])
}

/// The 209 bytes a record occupies in its slot: fields, then their CRC32.
pub open spec fn record_bytes(r: NestZilRecord) -> Seq<u8> {
    record_fields_bytes(r) + le32(crc32(record_fields_bytes(r)))
}

/// The stored CRC of a slot matches its field bytes.
pub open spec fn record_crc_ok(s: Seq<u8>) -> bool {
    le_u32_at(s, 205) == crc32(s.take(205))
}

/// `r` is the record whose fields the slot bytes `s` hold.
pub open spec fn record_fields_match(r: NestZilRecord, s: Seq<u8>) -> bool {
    &&& rec_type_code(r.rec_type) == s[0]
    &&& r.txg == le_u64_at(s, 1)
    &&& r.obj_id == le_u64_at(s, 9)
    &&& r.parent_obj == le_u64_at(s, 17)
    &&& r.offset == le_u64_at(s, 25)
    &&& r.size == le_u32_at(s, 33)
    &&& r.seq == le_u64_at(s, 37)
    &&& r.name@ == s.subrange(45, 173)
    &&& r.data_hash@ == seq![le_u64_at(s, 173), le_u64_at(s, 181), le_u64_at(s, 189), le_u64_at(s, 197)]
}

/// A slot decodes to a record: long enough, CRC matches, known type code.
pub open spec fn record_ok(s: Seq<u8>) -> bool {
    s.len() >= ZIL_RECORD_PAYLOAD && record_crc_ok(s) && 1 <= s[0] <= 13
}

/// Writes the 209 bytes of `record` at the front of `buf`.
pub fn serialize_record(record: &NestZilRecord, buf: &mut [u8])
    requires
        old(buf)@.len() >= ZIL_RECORD_PAYLOAD,
    ensures
        final(buf)@ == record_bytes(*record) + old(buf)@.skip(ZIL_RECORD_PAYLOAD as int),
{
    let mut p: Vec<u8> = Vec::new();
    p.push(record.rec_type.code());
    append_bytes(&mut p, u64_to_le_bytes(record.txg).as_slice());
    append_bytes(&mut p, u64_to_le_bytes(record.obj_id).as_slice());
    append_bytes(&mut p, u64_to_le_bytes(record.parent_obj).as_slice());
    append_bytes(&mut p, u64_to_le_bytes(record.offset).as_slice());
    append_bytes(&mut p, u32_to_le_bytes(record.size).as_slice());
    append_bytes(&mut p, u64_to_le_bytes(record.seq).as_slice());
    append_bytes(&mut p, &record.name);
    append_bytes(&mut p, u64_to_le_bytes(record.data_hash[0]).as_slice());
    append_bytes(&mut p, u64_to_le_bytes(record.data_hash[1]).as_slice());
    append_bytes(&mut p, u64_to_le_bytes(record.data_hash[2]).as_slice());
    append_bytes(&mut p, u64_to_le_bytes(record.data_hash[3]).as_slice());
    assert(p@ =~= record_fields_bytes(*record));
    let c = crc32_checksum(p.as_slice());
    append_bytes(&mut p, u32_to_le_bytes(c).as_slice());
    proof {
        lemma_le_facts();
        assert(le32(c).len() == 4);
    }
    write_slice_at(buf, 0, p.as_slice());
    assert(buf@ =~= record_bytes(*record) + old(buf)@.skip(ZIL_RECORD_PAYLOAD as int));
}

/// Decodes the record at the front of `buf`: `BufferTooShort` below 209
/// bytes, `CrcMismatch` when the stored CRC is not that of the field bytes,
/// `UnknownRecordType` when the type code is outside 1 to 13.
pub fn try_deserialize_record(buf: &[u8]) -> (r: Result<NestZilRecord, HvZilPersistError>)
    ensures
        buf@.len() < ZIL_RECORD_PAYLOAD ==> r == Err::<NestZilRecord, HvZilPersistError>(
            HvZilPersistError::BufferTooShort { need: ZIL_RECORD_PAYLOAD, got: buf@.len() as usize }),
        buf@.len() >= ZIL_RECORD_PAYLOAD && !record_crc_ok(buf@) ==> r == Err::<NestZilRecord, HvZilPersistError>(
            HvZilPersistError::CrcMismatch { expected: le_u32_at(buf@, 205), computed: crc32(buf@.take(205)) }),
        buf@.len() >= ZIL_RECORD_PAYLOAD && record_crc_ok(buf@) && !(1 <= buf@[0] <= 13) ==>
            r == Err::<NestZilRecord, HvZilPersistError>(HvZilPersistError::UnknownRecordType(buf@[0])),
        r is Ok <==> record_ok(buf@),
        r matches Ok(rec) ==> record_fields_match(rec, buf@),
{
    if buf.len() < ZIL_RECORD_PAYLOAD {
        return Err(HvZilPersistError::BufferTooShort { need: ZIL_RECORD_PAYLOAD, got: buf.len() });
    }
    let rec_crc = read_le_u32(buf, 205);
    let computed = crc32_checksum(slice_prefix(buf, 205));
    if rec_crc != computed {
        return Err(HvZilPersistError::CrcMismatch { expected: rec_crc, computed });
    }
    let t = match NestZilRecordType::from_code(buf[0]) {
        Some(t) => t,
        None => {
            return Err(HvZilPersistError::UnknownRecordType(buf[0]));
        },
    };
    let mut name = [0u8; 128];
    let mut i: usize = 0;
    while i < 128
        invariant
            buf@.len() >= ZIL_RECORD_PAYLOAD,
            0 <= i <= 128,
            forall|k: int| 0 <= k < i ==> name@[k] == buf@[45 + k],
        decreases 128 - i,
    {
        name[i] = buf[45 + i];
        i += 1;
    }
    assert(name@ =~= buf@.subrange(45, 173));
    let data_hash = [read_le_u64(buf, 173), read_le_u64(buf, 181), read_le_u64(buf, 189), read_le_u64(buf, 197)];
    assert(data_hash@ =~= seq![le_u64_at(buf@, 173), le_u64_at(buf@, 181), le_u64_at(buf@, 189), le_u64_at(buf@, 197)]);
    Ok(NestZilRecord {
        rec_type: t,
        txg: read_le_u64(buf, 1),
        obj_id: read_le_u64(buf, 9),
        parent_obj: read_le_u64(buf, 17),
        offset: read_le_u64(buf, 25),
        size: read_le_u32(buf, 33),
        seq: read_le_u64(buf, 37),
        name,
        data_hash,
    })
}

/// The bytes of a slot determine its record.
pub proof fn lemma_fields_determine_record(a: NestZilRecord, b: NestZilRecord, s: Seq<u8>)
    requires
        record_fields_match(a, s),
        record_fields_match(b, s),
    ensures
        a == b,
{
    crate::nestfs::zil::lemma_rec_type_code_injective(a.rec_type, b.rec_type);
    assert(a.name@ =~= b.name@);
    assert(a.data_hash@ =~= b.data_hash@);
    assert(a.name == b.name);
    assert(a.data_hash == b.data_hash);
}

/// A field read where an encoding was written gives the encoded value.
pub proof fn lemma_read_le64(s: Seq<u8>, off: int, x: u64)
    requires
        0 <= off,
        off + 8 <= s.len(),
        s.subrange(off, off + 8) == le64(x),
    ensures
        le_u64_at(s, off) == x,
{
    lemma_le_facts();
    assert(le64(x).subrange(0, 8) =~= le64(x));
}

/// A field read where an encoding was written gives the encoded value.
pub proof fn lemma_read_le32(s: Seq<u8>, off: int, x: u32)
    requires
        0 <= off,
        off + 4 <= s.len(),
        s.subrange(off, off + 4) == le32(x),
    ensures
        le_u32_at(s, off) == x,
{
    lemma_le_facts();
    assert(le32(x).subrange(0, 4) =~= le32(x));
}

/// A field read where an encoding was written gives the encoded value.
pub proof fn lemma_read_le16(s: Seq<u8>, off: int, x: u16)
    requires
        0 <= off,
        off + 2 <= s.len(),
        s.subrange(off, off + 2) == le16(x),
    ensures
        le_u16_at(s, off) == x,
{
    lemma_le_facts();
    assert(le16(x).subrange(0, 2) =~= le16(x));
}

/// Record round trip: the bytes written for a record decode, and decode to
/// that record.
#[verifier::rlimit(50)]
pub proof fn lemma_record_roundtrip(r: NestZilRecord)
    ensures
        record_bytes(r).len() == ZIL_RECORD_PAYLOAD,
        record_ok(record_bytes(r)),
        record_fields_match(r, record_bytes(r)),
{
    lemma_le_facts();
    let f = record_fields_bytes(r);
    let s = record_bytes(r);
    assert(f.len() == 205);
    assert(s.take(205) =~= f);
    assert(s.subrange(205, 209) =~= le32(crc32(f)));
    lemma_read_le32(s, 205, crc32(f));
    assert(s.subrange(1, 9) =~= le64(r.txg));
    lemma_read_le64(s, 1, r.txg);
    assert(s.subrange(9, 17) =~= le64(r.obj_id));
    lemma_read_le64(s, 9, r.obj_id);
    assert(s.subrange(17, 25) =~= le64(r.parent_obj));
    lemma_read_le64(s, 17, r.parent_obj);
    assert(s.subrange(25, 33) =~= le64(r.offset));
    lemma_read_le64(s, 25, r.offset);
    assert(s.subrange(33, 37) =~= le32(r.size));
    lemma_read_le32(s, 33, r.size);
    assert(s.subrange(37, 45) =~= le64(r.seq));
    lemma_read_le64(s, 37, r.seq);
    assert(s.subrange(45, 173) =~= r.name@);
    assert(s.subrange(173, 181) =~= le64(r.data_hash[0]));
    lemma_read_le64(s, 173, r.data_hash[0]);
    assert(s.subrange(181, 189) =~= le64(r.data_hash[1]));
    lemma_read_le64(s, 181, r.data_hash[1]);
    assert(s.subrange(189, 197) =~= le64(r.data_hash[2]));
    lemma_read_le64(s, 189, r.data_hash[2]);
    assert(s.subrange(197, 205) =~= le64(r.data_hash[3]));
    lemma_read_le64(s, 197, r.data_hash[3]);
    assert(r.data_hash@ =~= seq![r.data_hash[0], r.data_hash[1], r.data_hash[2], r.data_hash[3]]);
}


// ---------------------------------------------------------------------------
// Header and trailer
// ---------------------------------------------------------------------------

/// Block header (64 bytes on disk).
#[derive(Debug, Clone, Copy)]
pub struct ZilBlockHeader {
    pub magic: u32,
    pub version: u16,
    pub flags: u16,
    pub txg: u64,
    pub seq_start: u64,
    pub record_count: u16,
    pub record_capacity: u16,
    pub total_size: u32,
    pub header_checksum: u32,
    pub data_checksum: u32,
    pub next_block: u64,
    pub padding: [u8; 16],
}

/// The header bytes before the header checksum (32 bytes).
pub open spec fn header_pre(h: ZilBlockHeader) -> Seq<u8> {
    le32(h.magic) + le16(h.version) + le16(h.flags) + le64(h.txg) + le64(h.seq_start) + le16(h.record_count)
        + le16(h.record_capacity) + le32(h.total_size)
}

/// The header bytes after the header checksum (28 bytes).
pub open spec fn header_post(h: ZilBlockHeader) -> Seq<u8> {
    le32(h.data_checksum) + le64(h.next_block) + h.padding@
}

/// The 64 on-disk bytes of a header.
pub open spec fn header_image(h: ZilBlockHeader) -> Seq<u8> {
    header_pre(h) + le32(h.header_checksum) + header_post(h)
}

/// The checksum a header carries: CRC32 of its image with the checksum field zero.
pub open spec fn header_crc(h: ZilBlockHeader) -> u32 {
    crc32(header_pre(h) + le32(0) + header_post(h))
}

/// `h` holds the fields that the 64 bytes at the front of `s` encode.
pub open spec fn header_fields_match(h: ZilBlockHeader, s: Seq<u8>) -> bool {
    &&& h.magic == le_u32_at(s, 0)
    &&& h.version == le_u16_at(s, 4)
    &&& h.flags == le_u16_at(s, 6)
    &&& h.txg == le_u64_at(s, 8)
    &&& h.seq_start == le_u64_at(s, 16)
    &&& h.record_count == le_u16_at(s, 24)
    &&& h.record_capacity == le_u16_at(s, 26)
    &&& h.total_size == le_u32_at(s, 28)
    &&& h.header_checksum == le_u32_at(s, 32)
    &&& h.data_checksum == le_u32_at(s, 36)
    &&& h.next_block == le_u64_at(s, 40)
    &&& h.padding@ == s.subrange(48, 64)
}

/// A header as `ZilBlockHeader::new(txg, seq_start)` builds it.
pub open spec fn header_is_new(h: ZilBlockHeader, txg: u64, seq_start: u64) -> bool {
    &&& h.magic == ZIL_MAGIC
    &&& h.version == 1
    &&& h.flags == 0
    &&& h.txg == txg
    &&& h.seq_start == seq_start
    &&& h.record_count == 0
    &&& h.record_capacity == ZIL_MAX_RECORDS_PER_BLOCK
    &&& h.total_size == ZIL_BLOCK_SIZE
    &&& h.header_checksum == 0
    &&& h.data_checksum == 0
    &&& h.next_block == 0
    &&& h.padding@ == zeros(16)
}

/// Lengths of the header pieces.
pub proof fn lemma_header_lens(h: ZilBlockHeader)
    ensures
        header_pre(h).len() == 32,
        header_post(h).len() == 28,
        header_image(h).len() == 64,
{
    lemma_le_facts();
}

/// Decoding the 64 bytes of `s` into fields and encoding them again gives those bytes.
pub proof fn lemma_header_image_of_fields(h: ZilBlockHeader, s: Seq<u8>)
    requires
        s.len() >= 64,
        header_fields_match(h, s),
    ensures
        header_image(h) == s.take(64),
        header_pre(h) == s.take(32),
        header_post(h) == s.subrange(36, 64),
{
    lemma_auto_spec_u16_to_from_le_bytes();
    lemma_auto_spec_u32_to_from_le_bytes();
    lemma_auto_spec_u64_to_from_le_bytes();
    lemma_header_lens(h);
    assert(le32(h.magic) == s.subrange(0, 4));
    assert(le16(h.version) == s.subrange(4, 6));
    assert(le16(h.flags) == s.subrange(6, 8));
    assert(le64(h.txg) == s.subrange(8, 16));
    assert(le64(h.seq_start) == s.subrange(16, 24));
    assert(le16(h.record_count) == s.subrange(24, 26));
    assert(le16(h.record_capacity) == s.subrange(26, 28));
    assert(le32(h.total_size) == s.subrange(28, 32));
    assert(le32(h.header_checksum) == s.subrange(32, 36));
    assert(le32(h.data_checksum) == s.subrange(36, 40));
    assert(le64(h.next_block) == s.subrange(40, 48));
    assert(header_pre(h) =~= s.take(32));
    assert(header_post(h) =~= s.subrange(36, 64));
    assert(header_image(h) =~= s.take(64));
}

impl ZilBlockHeader {
    /// A fresh header for `txg` whose first record has sequence number `seq_start`.
    pub fn new(txg: u64, seq_start: u64) -> (h: Self)
        ensures
            header_is_new(h, txg, seq_start),
    {
        let h = ZilBlockHeader {
            magic: ZIL_MAGIC,
            version: 1,
            flags: 0,
            txg,
            seq_start,
            record_count: 0,
            record_capacity: ZIL_MAX_RECORDS_PER_BLOCK as u16,
            total_size: ZIL_BLOCK_SIZE as u32,
            header_checksum: 0,
            data_checksum: 0,
            next_block: 0,
            padding: [0u8; 16],
        };
        assert(h.padding@ =~= zeros(16));
        h
    }

    /// Magic matches and the version is at least 1.
    pub fn is_valid(&self) -> (r: bool)
        ensures
            r == (self.magic == ZIL_MAGIC && self.version >= 1),
    {
        self.magic == ZIL_MAGIC && self.version >= 1
    }

    /// The 64 on-disk bytes.
    pub fn to_bytes(&self) -> (b: Vec<u8>)
        ensures
            b@ == header_image(*self),
    {
        let mut b: Vec<u8> = Vec::new();
        append_bytes(&mut b, u32_to_le_bytes(self.magic).as_slice());
        append_bytes(&mut b, u16_to_le_bytes(self.version).as_slice());
        append_bytes(&mut b, u16_to_le_bytes(self.flags).as_slice());
        append_bytes(&mut b, u64_to_le_bytes(self.txg).as_slice());
        append_bytes(&mut b, u64_to_le_bytes(self.seq_start).as_slice());
        append_bytes(&mut b, u16_to_le_bytes(self.record_count).as_slice());
        append_bytes(&mut b, u16_to_le_bytes(self.record_capacity).as_slice());
        append_bytes(&mut b, u32_to_le_bytes(self.total_size).as_slice());
        append_bytes(&mut b, u32_to_le_bytes(self.header_checksum).as_slice());
        append_bytes(&mut b, u32_to_le_bytes(self.data_checksum).as_slice());
        append_bytes(&mut b, u64_to_le_bytes(self.next_block).as_slice());
        append_bytes(&mut b, &self.padding);
        assert(b@ =~= header_image(*self));
        b
    }

    /// Stores the CRC32 of the header image (taken with the checksum field zero).
    pub fn compute_header_checksum(&mut self)
        ensures
            *final(self) == (ZilBlockHeader { header_checksum: header_crc(*old(self)), ..*old(self) }),
    {
        self.header_checksum = 0;
        let b = self.to_bytes();
        self.header_checksum = crc32_checksum(b.as_slice());
    }

    /// Whether the stored header checksum is right.
    pub fn verify_header(&self) -> (r: bool)
        ensures
            r == (self.header_checksum == header_crc(*self)),
    {
        let mut copy = *self;
        copy.compute_header_checksum();
        copy.header_checksum == self.header_checksum
    }

    /// Decodes a header from the front of `block`; `None` below 64 bytes.
    pub fn from_block(block: &[u8]) -> (r: Option<Self>)
        ensures
            r is Some <==> block@.len() >= ZIL_HEADER_SIZE,
            r matches Some(h) ==> header_fields_match(h, block@),
    {
        if block.len() < ZIL_HEADER_SIZE {
            return None;
        }
        let mut padding = [0u8; 16];
        let mut i: usize = 0;
        while i < 16
            invariant
                block@.len() >= 64,
                0 <= i <= 16,
                forall|k: int| 0 <= k < i ==> padding@[k] == block@[48 + k],
            decreases 16 - i,
        {
            padding[i] = block[48 + i];
            i += 1;
        }
        assert(padding@ =~= block@.subrange(48, 64));
        Some(ZilBlockHeader {
            magic: read_le_u32(block, 0),
            version: read_le_u16(block, 4),
            flags: read_le_u16(block, 6),
            txg: read_le_u64(block, 8),
            seq_start: read_le_u64(block, 16),
            record_count: read_le_u16(block, 24),
            record_capacity: read_le_u16(block, 26),
            total_size: read_le_u32(block, 28),
            header_checksum: read_le_u32(block, 32),
            data_checksum: read_le_u32(block, 36),
            next_block: read_le_u64(block, 40),
            padding,
        })
    }
}

/// Block trailer (8 bytes on disk).
#[derive(Debug, Clone, Copy)]
pub struct ZilBlockTrailer {
    pub tail_magic: u32,
    pub block_checksum: u32,
}

impl ZilBlockTrailer {
    /// A trailer with the tail magic and a zero checksum.
    pub fn new() -> (t: Self)
        ensures
            t.tail_magic == ZIL_TAIL_MAGIC,
            t.block_checksum == 0,
    {
        ZilBlockTrailer { tail_magic: ZIL_TAIL_MAGIC, block_checksum: 0 }
    }

    /// Whether the tail magic is right.
    pub fn is_valid(&self) -> (r: bool)
        ensures
            r == (self.tail_magic == ZIL_TAIL_MAGIC),
    {
        self.tail_magic == ZIL_TAIL_MAGIC
    }

    /// The 8 on-disk bytes.
    pub fn to_bytes(&self) -> (b: Vec<u8>)
        ensures
            b@ == le32(self.tail_magic) + le32(self.block_checksum),
    {
        let mut b: Vec<u8> = Vec::new();
        append_bytes(&mut b, u32_to_le_bytes(self.tail_magic).as_slice());
        append_bytes(&mut b, u32_to_le_bytes(self.block_checksum).as_slice());
        assert(b@ =~= le32(self.tail_magic) + le32(self.block_checksum));
        b
    }
}


// ---------------------------------------------------------------------------
// Blocks
// ---------------------------------------------------------------------------

/// Offset of record slot `i` in a block.
pub open spec fn slot_offset(i: int) -> int {
    ZIL_HEADER_SIZE + i * ZIL_RECORD_DISK_SIZE
}

/// Record slot `i` of block `b`.
pub open spec fn slot(b: Seq<u8>, i: int) -> Seq<u8> {
    b.subrange(slot_offset(i), slot_offset(i) + ZIL_RECORD_DISK_SIZE)
}

/// Number of records a block of the log `recs` holds.
pub open spec fn block_count(recs: Seq<NestZilRecord>) -> int {
    if recs.len() < ZIL_MAX_RECORDS_PER_BLOCK { recs.len() as int } else { ZIL_MAX_RECORDS_PER_BLOCK as int }
}

/// The header that a block for `recs` and `txg` carries, as bytes.
pub open spec fn block_header_image(recs: Seq<NestZilRecord>, txg: u64) -> Seq<u8> {
    let pre = le32(ZIL_MAGIC) + le16(1) + le16(0) + le64(txg) + le64(recs[0].seq) + le16(block_count(recs) as u16)
        + le16(ZIL_MAX_RECORDS_PER_BLOCK as u16) + le32(ZIL_BLOCK_SIZE as u32);
    let post = le32(0) + le64(0) + zeros(16);
    pre + le32(crc32(pre + le32(0) + post)) + post
}

/// `b` with the first `k` records of `recs` written into their slots.
pub open spec fn write_slots(b: Seq<u8>, recs: Seq<NestZilRecord>, k: nat) -> Seq<u8>
    decreases k,
{
    if k == 0 {
        b
    } else {
        overwrite(write_slots(b, recs, (k - 1) as nat), slot_offset(k - 1), record_bytes(recs[k - 1]))
    }
}

/// The block before its trailer is written.
pub open spec fn block_body(recs: Seq<NestZilRecord>, txg: u64) -> Seq<u8> {
    write_slots(overwrite(zeros(ZIL_BLOCK_SIZE as nat), 0, block_header_image(recs, txg)), recs, block_count(recs) as nat)
}

/// The block that `serialize_zil_to_block` writes for the records `recs`.
pub open spec fn block_image(recs: Seq<NestZilRecord>, txg: u64) -> Seq<u8> {
    let b = overwrite(block_body(recs, txg), ZIL_TRAILER_OFFSET as int, le32(ZIL_TAIL_MAGIC) + le32(0));
    overwrite(b, ZIL_TRAILER_OFFSET + 4, le32(crc32(b.take(ZIL_TRAILER_OFFSET as int))))
}

/// Header and trailer of `b` check out: length, magic, version, header CRC,
/// tail magic and block CRC.
pub open spec fn block_accepted(b: Seq<u8>) -> bool {
    &&& b.len() >= ZIL_BLOCK_SIZE
    &&& le_u32_at(b, 0) == ZIL_MAGIC
    &&& le_u16_at(b, 4) >= 1
    &&& le_u32_at(b, 32) == crc32(b.take(32) + le32(0) + b.subrange(36, 64))
    &&& le_u32_at(b, ZIL_TRAILER_OFFSET as int) == ZIL_TAIL_MAGIC
    &&& le_u32_at(b, ZIL_TRAILER_OFFSET + 4) == crc32(b.take(ZIL_TRAILER_OFFSET as int))
}

/// A written block with any one byte changed is refused whole: before the
/// trailer the block checksum no longer matches, in the tail magic the magic
/// is wrong, and in the checksum field the checksum is.
#[verifier::spinoff_prover]
pub proof fn law_changed_byte_refused(recs: Seq<NestZilRecord>, txg: u64, i: int, v: u8)
    requires
        recs.len() > 0,
        0 <= i < ZIL_BLOCK_SIZE,
        v != block_image(recs, txg)[i],
    ensures
        !block_accepted(block_image(recs, txg).update(i, v)),
{
    lemma_block_roundtrip(recs, txg);
    lemma_auto_spec_u32_to_from_le_bytes();
    let b = block_image(recs, txg);
    let c = b.update(i, v);
    let off = ZIL_TRAILER_OFFSET as int;
    let sum_b = b.subrange(off + 4, off + 8);
    let sum_c = c.subrange(off + 4, off + 8);
    if i < off {
        assert(c.take(off) =~= b.take(off).update(i, v));
        lemma_crc32_one_byte(b.take(off), i, v);
        assert(sum_c =~= sum_b);
    } else if i < off + 4 {
        let mb = b.subrange(off, off + 4);
        let mc = c.subrange(off, off + 4);
        assert(mc[i - off] != mb[i - off]);
        assert(mc != mb);
        assert(spec_u32_to_le_bytes(le_u32_at(c, off)) == mc);
        assert(spec_u32_to_le_bytes(le_u32_at(b, off)) == mb);
    } else {
        assert(c.take(off) =~= b.take(off));
        assert(sum_c[i - off - 4] != sum_b[i - off - 4]);
        assert(sum_c != sum_b);
        assert(spec_u32_to_le_bytes(le_u32_at(c, off + 4)) == sum_c);
        assert(spec_u32_to_le_bytes(le_u32_at(b, off + 4)) == sum_b);
    }
}

/// Record count that the header of `b` announces.
pub open spec fn announced_count(b: Seq<u8>) -> int {
    le_u16_at(b, 24) as int
}

/// Every announced record slot of `b` decodes.
pub open spec fn all_records_ok(b: Seq<u8>) -> bool {
    forall|i: int| 0 <= i < announced_count(b) ==> record_ok(#[trigger] slot(b, i))
}

/// `d` are the records the announced slots of `b` hold, in slot order.
pub open spec fn decoded_records(b: Seq<u8>, d: Seq<NestZilRecord>) -> bool {
    &&& d.len() == announced_count(b)
    &&& forall|i: int| 0 <= i < d.len() ==> record_fields_match(#[trigger] d[i], slot(b, i))
}

/// Whole record slots that fit in `b`.
pub open spec fn fitting_slots(b: Seq<u8>) -> int {
    (b.len() - ZIL_HEADER_SIZE) / ZIL_RECORD_DISK_SIZE as int
}

/// `b` checks out, its announced slots lie inside it and all decode.
pub open spec fn block_readable(b: Seq<u8>) -> bool {
    &&& block_accepted(b)
    &&& slot_offset(announced_count(b)) <= b.len()
    &&& all_records_ok(b)
}

/// Reading `b` runs past its end: it checks out, it announces more slots
/// than fit, and every slot that fits decodes, so the first slot past the
/// end is read.
pub open spec fn decode_overruns(b: Seq<u8>) -> bool {
    &&& block_accepted(b)
    &&& slot_offset(announced_count(b)) > b.len()
    &&& forall|j: int| 0 <= j < fitting_slots(b) ==> record_ok(#[trigger] slot(b, j))
}

/// Writing slots keeps the length, and the bytes before the first slot and
/// from the end of the last written slot on.
pub proof fn lemma_write_slots_frame(b: Seq<u8>, recs: Seq<NestZilRecord>, k: nat)
    requires
        b.len() == ZIL_BLOCK_SIZE,
        k <= ZIL_MAX_RECORDS_PER_BLOCK,
        k <= recs.len(),
    ensures
        write_slots(b, recs, k).len() == ZIL_BLOCK_SIZE,
        write_slots(b, recs, k).take(ZIL_HEADER_SIZE as int) == b.take(ZIL_HEADER_SIZE as int),
        write_slots(b, recs, k).skip(7744 + ZIL_RECORD_PAYLOAD) == b.skip(7744 + ZIL_RECORD_PAYLOAD),
        forall|j: int| 0 <= j < k ==> #[trigger] write_slots(b, recs, k).subrange(slot_offset(j), slot_offset(j) + ZIL_RECORD_PAYLOAD)
            == record_bytes(recs[j]),
    decreases k,
{
    if k > 0 {
        lemma_write_slots_frame(b, recs, (k - 1) as nat);
        let w = write_slots(b, recs, (k - 1) as nat);
        lemma_record_roundtrip(recs[k - 1]);
        let o = slot_offset(k - 1);
        let t = write_slots(b, recs, k);
        assert(t == overwrite(w, o, record_bytes(recs[k - 1])));
        assert(t.len() == ZIL_BLOCK_SIZE);
        assert(t.take(ZIL_HEADER_SIZE as int) =~= w.take(ZIL_HEADER_SIZE as int));
        assert(t.skip(7744 + ZIL_RECORD_PAYLOAD) =~= w.skip(7744 + ZIL_RECORD_PAYLOAD));
        assert forall|j: int| 0 <= j < k implies #[trigger] t.subrange(slot_offset(j), slot_offset(j) + ZIL_RECORD_PAYLOAD)
            == record_bytes(recs[j]) by {
            if j < k - 1 {
                assert(w.subrange(slot_offset(j), slot_offset(j) + ZIL_RECORD_PAYLOAD) == record_bytes(recs[j]));
                assert(t.subrange(slot_offset(j), slot_offset(j) + ZIL_RECORD_PAYLOAD)
                    =~= w.subrange(slot_offset(j), slot_offset(j) + ZIL_RECORD_PAYLOAD));
            } else {
                assert(t.subrange(o, o + ZIL_RECORD_PAYLOAD) =~= record_bytes(recs[k - 1]));
            }
        }
    }
}

/// Record checks and field decoding look only at the first 209 bytes of a slot.
pub proof fn lemma_record_prefix(s: Seq<u8>, p: Seq<u8>, r: NestZilRecord)
    requires
        s.len() >= ZIL_RECORD_PAYLOAD,
        s.take(ZIL_RECORD_PAYLOAD as int) == p,
    ensures
        record_ok(s) == record_ok(p),
        record_fields_match(r, s) == record_fields_match(r, p),
{
    assert(s.take(205) =~= p.take(205));
    assert(s.subrange(205, 209) =~= p.subrange(205, 209));
    assert(s.subrange(1, 9) =~= p.subrange(1, 9));
    assert(s.subrange(9, 17) =~= p.subrange(9, 17));
    assert(s.subrange(17, 25) =~= p.subrange(17, 25));
    assert(s.subrange(25, 33) =~= p.subrange(25, 33));
    assert(s.subrange(33, 37) =~= p.subrange(33, 37));
    assert(s.subrange(37, 45) =~= p.subrange(37, 45));
    assert(s.subrange(45, 173) =~= p.subrange(45, 173));
    assert(s.subrange(173, 181) =~= p.subrange(173, 181));
    assert(s.subrange(181, 189) =~= p.subrange(181, 189));
    assert(s.subrange(189, 197) =~= p.subrange(189, 197));
    assert(s.subrange(197, 205) =~= p.subrange(197, 205));
    assert(s[0] == p[0]);
}

/// Persistence round trip: the block written for a non-empty log is
/// accepted, announces `block_count` records, and its slots decode to the
/// first `block_count` records of the log, in order.
#[verifier::rlimit(100)]
#[verifier::spinoff_prover]
pub proof fn lemma_block_roundtrip(recs: Seq<NestZilRecord>, txg: u64)
    requires
        recs.len() > 0,
    ensures
        block_image(recs, txg).len() == ZIL_BLOCK_SIZE,
        block_accepted(block_image(recs, txg)),
        announced_count(block_image(recs, txg)) == block_count(recs),
        block_readable(block_image(recs, txg)),
        !decode_overruns(block_image(recs, txg)),
        all_records_ok(block_image(recs, txg)),
        decoded_records(block_image(recs, txg), recs.take(block_count(recs))),
{
    lemma_le_facts();
    let count = block_count(recs);
    let hdr = block_header_image(recs, txg);
    let pre = le32(ZIL_MAGIC) + le16(1) + le16(0) + le64(txg) + le64(recs[0].seq) + le16(count as u16)
        + le16(ZIL_MAX_RECORDS_PER_BLOCK as u16) + le32(ZIL_BLOCK_SIZE as u32);
    let post = le32(0) + le64(0) + zeros(16);
    assert(pre.len() == 32);
    assert(post.len() == 28);
    assert(hdr.len() == 64);
    let z = zeros(ZIL_BLOCK_SIZE as nat);
    let b0 = overwrite(z, 0, hdr);
    assert(b0.len() == ZIL_BLOCK_SIZE);
    lemma_write_slots_frame(b0, recs, count as nat);
    let body = block_body(recs, txg);
    assert(body.take(64) == b0.take(64));
    assert(b0.take(64) =~= hdr);
    let tr = le32(ZIL_TAIL_MAGIC) + le32(0);
    let b1 = overwrite(body, ZIL_TRAILER_OFFSET as int, tr);
    let c = crc32(b1.take(ZIL_TRAILER_OFFSET as int));
    let img = overwrite(b1, ZIL_TRAILER_OFFSET + 4, le32(c));
    assert(img == block_image(recs, txg));
    assert(img.len() == ZIL_BLOCK_SIZE);
    assert(img.take(64) =~= hdr);
    assert(img.take(ZIL_TRAILER_OFFSET as int) =~= b1.take(ZIL_TRAILER_OFFSET as int));
    // header fields
    assert(img.subrange(0, 4) =~= le32(ZIL_MAGIC));
    lemma_read_le32(img, 0, ZIL_MAGIC);
    assert(img.subrange(4, 6) =~= le16(1));
    lemma_read_le16(img, 4, 1);
    assert(img.subrange(24, 26) =~= le16(count as u16));
    lemma_read_le16(img, 24, count as u16);
    assert(img.subrange(32, 36) =~= le32(crc32(pre + le32(0) + post)));
    lemma_read_le32(img, 32, crc32(pre + le32(0) + post));
    assert(img.take(32) =~= pre);
    assert(img.subrange(36, 64) =~= post);
    // trailer
    assert(img.subrange(8184, 8188) =~= le32(ZIL_TAIL_MAGIC));
    lemma_read_le32(img, 8184, ZIL_TAIL_MAGIC);
    assert(img.subrange(8188, 8192) =~= le32(c));
    lemma_read_le32(img, 8188, c);
    // record slots
    assert forall|i: int| 0 <= i < count implies record_ok(#[trigger] slot(img, i))
        && record_fields_match(recs.take(count)[i], slot(img, i)) by {
        let o = slot_offset(i);
        assert(body.subrange(o, o + ZIL_RECORD_PAYLOAD) == record_bytes(recs[i]));
        assert(slot(img, i).take(ZIL_RECORD_PAYLOAD as int) =~= body.subrange(o, o + ZIL_RECORD_PAYLOAD));
        lemma_record_roundtrip(recs[i]);
        lemma_record_prefix(slot(img, i), record_bytes(recs[i]), recs[i]);
        assert(recs.take(count)[i] == recs[i]);
    }
}

/// The block for the records of `zil` at `txg`; `None` when the log is
/// empty. At most `ZIL_MAX_RECORDS_PER_BLOCK` records are written.
pub fn serialize_zil_to_block_impl(zil: &NestZil, txg: u64) -> (r: Option<Vec<u8>>)
    ensures
        r is None <==> zil.records@.len() == 0,
        r matches Some(b) ==> b@ == block_image(zil.records@, txg),
{
    let records = &zil.records;
    if records.len() == 0 {
        return None;
    }
    let count: usize = if records.len() < ZIL_MAX_RECORDS_PER_BLOCK { records.len() } else { ZIL_MAX_RECORDS_PER_BLOCK };
    let mut block = zeroed(ZIL_BLOCK_SIZE);
    let mut header = ZilBlockHeader::new(txg, records[0].seq);
    header.record_count = count as u16;
    header.compute_header_checksum();
    let hb = header.to_bytes();
    proof {
        lemma_le_facts();
        let h0 = ZilBlockHeader { header_checksum: 0, ..header };
        assert(header_pre(header) =~= le32(ZIL_MAGIC) + le16(1) + le16(0) + le64(txg) + le64(zil.records@[0].seq)
            + le16(count as u16) + le16(ZIL_MAX_RECORDS_PER_BLOCK as u16) + le32(ZIL_BLOCK_SIZE as u32));
        assert(header_post(header) =~= le32(0) + le64(0) + zeros(16));
        assert(hb@ =~= block_header_image(zil.records@, txg));
    }
    write_at(&mut block, 0, hb.as_slice());
    let ghost b0 = block@;
    let mut i: usize = 0;
    while i < count
        invariant
            count <= records@.len(),
            count <= ZIL_MAX_RECORDS_PER_BLOCK,
            count == block_count(records@),
            0 <= i <= count,
            block@ == write_slots(b0, records@, i as nat),
            b0.len() == ZIL_BLOCK_SIZE,
        decreases count - i,
    {
        let mut tmp = [0u8; 256];
        serialize_record(&records[i], &mut tmp);
        let off = ZIL_HEADER_SIZE + i * ZIL_RECORD_DISK_SIZE;
        proof {
            lemma_write_slots_frame(b0, records@, i as nat);
            lemma_record_roundtrip(records@[i as int]);
        }
        let p = slice_prefix(&tmp, ZIL_RECORD_PAYLOAD);
        assert(p@ =~= record_bytes(records@[i as int]));
        write_at(&mut block, off, p);
        i += 1;
    }
    let trailer = ZilBlockTrailer::new();
    proof {
        lemma_le_facts();
        lemma_write_slots_frame(b0, records@, count as nat);
    }
    write_at(&mut block, ZIL_TRAILER_OFFSET, trailer.to_bytes().as_slice());
    let full = crc32_checksum(slice_prefix(block.as_slice(), ZIL_TRAILER_OFFSET));
    write_at(&mut block, ZIL_TRAILER_OFFSET + 4, u32_to_le_bytes(full).as_slice());
    Some(block)
}

/// The records of a block, ordered by sequence number; empty unless the
/// header, the trailer and every announced record check out.
pub fn deserialize_zil_from_block_impl(block: &[u8]) -> (r: Vec<NestZilRecord>)
    requires
        !decode_overruns(block@),
    ensures
        !block_readable(block@) ==> r@.len() == 0,
        block_readable(block@) ==> exists|d: Seq<NestZilRecord>|
            decoded_records(block@, d) && r@ == sort_by_seq(d),
{
    if block.len() < ZIL_BLOCK_SIZE {
        return Vec::new();
    }
    let header = match ZilBlockHeader::from_block(block) {
        Some(h) => h,
        None => {
            return Vec::new();
        },
    };
    proof {
        lemma_header_image_of_fields(header, block@);
    }
    if !header.is_valid() || !header.verify_header() {
        return Vec::new();
    }
    let tail_magic = read_le_u32(block, ZIL_TRAILER_OFFSET);
    let block_checksum = read_le_u32(block, ZIL_TRAILER_OFFSET + 4);
    let trailer = ZilBlockTrailer { tail_magic, block_checksum };
    if !trailer.is_valid() {
        return Vec::new();
    }
    let computed = crc32_checksum(slice_prefix(block, ZIL_TRAILER_OFFSET));
    if computed != trailer.block_checksum {
        return Vec::new();
    }
    assert(block_accepted(block@));
    let count = header.record_count as usize;
    let mut records: Vec<NestZilRecord> = Vec::new();
    let mut i: usize = 0;
    while i < count
        invariant
            block_accepted(block@),
            !decode_overruns(block@),
            count == announced_count(block@),
            slot_offset(i as int) <= block@.len(),
            0 <= i <= count,
            records@.len() == i,
            forall|k: int| 0 <= k < i ==> record_ok(#[trigger] slot(block@, k)),
            forall|k: int| 0 <= k < i ==> record_fields_match(#[trigger] records@[k], slot(block@, k)),
        decreases count - i,
    {
        let offset = ZIL_HEADER_SIZE + i * ZIL_RECORD_DISK_SIZE;
        proof {
            if offset + ZIL_RECORD_DISK_SIZE > block@.len() {
                let n = block@.len() as int;
                let f = fitting_slots(block@);
                assert(f * 256 <= n - 64) by (nonlinear_arith)
                    requires
                        n >= 64,
                        f == (n - 64) / 256,
                ;
                assert(f <= i) by (nonlinear_arith)
                    requires
                        f * 256 <= n - 64,
                        64 + (i + 1) * 256 > n,
                ;
                assert(slot_offset(count as int) >= slot_offset(i + 1)) by (nonlinear_arith)
                    requires
                        count >= i + 1,
                ;
                assert(decode_overruns(block@));
            }
        }
        let sl = slice_range(block, offset, offset + ZIL_RECORD_DISK_SIZE);
        assert(sl@ == slot(block@, i as int));
        match try_deserialize_record(sl) {
            Ok(rec) => {
                records.push(rec);
            },
            Err(_) => {
                assert(!record_ok(slot(block@, i as int)));
                assert(!all_records_ok(block@));
                assert(!block_readable(block@));
                return Vec::new();
            },
        }
        i += 1;
    }
    assert(decoded_records(block@, records@));
    crate::nestfs::zil::sort_records_by_seq(&records)
}

/// Persistence of the intent log to blocks.
pub struct HvZilPersist {
    pub zil_blocks_written: bool,
}

impl HvZilPersist {
    /// Nothing written yet.
    pub fn new() -> (p: Self)
        ensures
            !p.zil_blocks_written,
    {
        HvZilPersist { zil_blocks_written: false }
    }

    /// The block for the records of `zil` at `txg`; `None` when the log is empty.
    pub fn serialize_zil_to_block(zil: &NestZil, txg: u64) -> (r: Option<Vec<u8>>)
        ensures
            r is None <==> zil.records@.len() == 0,
            r matches Some(b) ==> b@ == block_image(zil.records@, txg),
    {
        serialize_zil_to_block_impl(zil, txg)
    }

    /// The records of a block ordered by sequence number; empty unless it checks out.
    pub fn deserialize_zil_from_block(block: &[u8]) -> (r: Vec<NestZilRecord>)
        requires
            !decode_overruns(block@),
        ensures
            !block_readable(block@) ==> r@.len() == 0,
            block_readable(block@) ==> exists|d: Seq<NestZilRecord>|
                decoded_records(block@, d) && r@ == sort_by_seq(d),
    {
        deserialize_zil_from_block_impl(block)
    }

    /// Records that a block has been written (idempotent).
    pub fn mark_written(&mut self)
        ensures
            final(self).zil_blocks_written,
    {
        self.zil_blocks_written = true;
    }
}

/// Decoded records are unique: two decodings of one block agree.
pub proof fn lemma_decoded_unique(b: Seq<u8>, d1: Seq<NestZilRecord>, d2: Seq<NestZilRecord>)
    requires
        decoded_records(b, d1),
        decoded_records(b, d2),
    ensures
        d1 == d2,
{
    assert forall|i: int| 0 <= i < d1.len() implies d1[i] == d2[i] by {
        lemma_fields_determine_record(d1[i], d2[i], slot(b, i));
    }
    assert(d1 =~= d2);
}

/// Reading back the block written for a non-empty log gives the first
/// `block_count` records of that log, ordered by sequence number.
pub proof fn lemma_persist_roundtrip(recs: Seq<NestZilRecord>, txg: u64, d: Seq<NestZilRecord>)
    requires
        recs.len() > 0,
        decoded_records(block_image(recs, txg), d),
    ensures
        d == recs.take(block_count(recs)),
        sort_by_seq(d) == sort_by_seq(recs.take(block_count(recs))),
{
    lemma_block_roundtrip(recs, txg);
    lemma_decoded_unique(block_image(recs, txg), d, recs.take(block_count(recs)));
}

} // verus!
