//! Block pointers: data virtual addresses (DVAs), block properties and the
//! little-endian on-disk decoding of each.
use crate::bytes_util::{append_bytes, slice_range};
use vstd::prelude::*;
use vstd::bytes::{
    lemma_auto_spec_u16_to_from_le_bytes, lemma_auto_spec_u32_to_from_le_bytes,
    lemma_auto_spec_u64_to_from_le_bytes, spec_u16_from_le_bytes, spec_u16_to_le_bytes,
    spec_u32_from_le_bytes, spec_u32_to_le_bytes, spec_u64_from_le_bytes, spec_u64_to_le_bytes,
    u16_from_le_bytes, u16_to_le_bytes, u32_from_le_bytes, u32_to_le_bytes, u64_from_le_bytes,
    u64_to_le_bytes,
};

verus! {

pub const HV_DVA_MAX: usize = 2;

pub const HV_BP_CHECKSUM_SIZE: usize = 32;

/// On-disk size of a `NestDva`.
pub const NEST_DVA_BYTES: usize = 16;

/// On-disk size of a `NestBpProp`.
pub const NEST_BP_PROP_BYTES: usize = 16;

/// On-disk size of a `NestBlockPointer`.
pub const NEST_BP_BYTES: usize = 112;

/// Little-endian `u64` at `off` in `s`.
pub open spec fn le_u64_at(s: Seq<u8>, off: int) -> u64 {
    spec_u64_from_le_bytes(s.subrange(off, off + 8))
}

/// Little-endian `u32` at `off` in `s`.
pub open spec fn le_u32_at(s: Seq<u8>, off: int) -> u32 {
    spec_u32_from_le_bytes(s.subrange(off, off + 4))
}

/// Little-endian `u16` at `off` in `s`.
pub open spec fn le_u16_at(s: Seq<u8>, off: int) -> u16 {
    spec_u16_from_le_bytes(s.subrange(off, off + 2))
}

/// Reads a little-endian `u64` at `off`.
pub fn read_le_u64(b: &[u8], off: usize) -> (r: u64)
    requires
        off + 8 <= b@.len(),
    ensures
        r == le_u64_at(b@, off as int),
{
    let _n = b.len();
    u64_from_le_bytes(slice_range(b, off, off + 8))
}

/// Reads a little-endian `u32` at `off`.
pub fn read_le_u32(b: &[u8], off: usize) -> (r: u32)
    requires
        off + 4 <= b@.len(),
    ensures
        r == le_u32_at(b@, off as int),
{
    let _n = b.len();
    u32_from_le_bytes(slice_range(b, off, off + 4))
}

/// Reads a little-endian `u16` at `off`.
pub fn read_le_u16(b: &[u8], off: usize) -> (r: u16)
    requires
        off + 2 <= b@.len(),
    ensures
        r == le_u16_at(b@, off as int),
{
    let _n = b.len();
    u16_from_le_bytes(slice_range(b, off, off + 2))
}

/// A data virtual address: where a copy of a block lives.
#[derive(Debug, Clone, Copy)]
pub struct NestDva {
    pub offset: u64,
    pub asize: u32,
    pub vdev_id: u16,
    pub gang: u8,
    pub _pad: [u8; 1],
}

/// The DVA that `NestDva::from_bytes` decodes from the first 16 bytes of `s`.
pub open spec fn dva_fields_match(d: NestDva, s: Seq<u8>) -> bool {
    &&& d.offset == le_u64_at(s, 0)
    &&& d.asize == le_u32_at(s, 8)
    &&& d.vdev_id == le_u16_at(s, 12)
    &&& d.gang == s[14]
    &&& d._pad[0] == s[15]
}

/// A DVA with every field zero.
pub open spec fn dva_is_zero(d: NestDva) -> bool {
    d.offset == 0 && d.asize == 0 && d.vdev_id == 0 && d.gang == 0 && d._pad[0] == 0
}

impl NestDva {
    /// The null DVA (all zero).
    pub fn null() -> (d: Self)
        ensures
            dva_is_zero(d),
    {
        NestDva { offset: 0, asize: 0, vdev_id: 0, gang: 0, _pad: [0u8; 1] }
    }

    /// Whether the DVA points nowhere (vdev, offset and size all zero).
    pub fn is_null(&self) -> (r: bool)
        ensures
            r == (self.vdev_id == 0 && self.offset == 0 && self.asize == 0),
    {
        self.vdev_id == 0 && self.offset == 0 && self.asize == 0
    }

    /// A non-gang DVA.
    pub fn new(vdev_id: u16, offset: u64, asize: u32) -> (d: Self)
        ensures
            d.vdev_id == vdev_id,
            d.offset == offset,
            d.asize == asize,
            d.gang == 0,
            d._pad[0] == 0,
    {
        NestDva { vdev_id, offset, asize, gang: 0, _pad: [0u8; 1] }
    }

    /// The same DVA marked as a gang block.
    pub fn with_gang(self) -> (d: Self)
        ensures
            d == (NestDva { gang: 1, ..self }),
    {
        let mut d = self;
        d.gang = 1;
        d
    }

    /// Whether the DVA is a gang block.
    pub fn is_gang(&self) -> (r: bool)
        ensures
            r == (self.gang != 0),
    {
        self.gang != 0
    }

    /// Decodes a DVA from its 16-byte little-endian layout; `None` when
    /// fewer than 16 bytes are given.
    pub fn from_bytes(bytes: &[u8]) -> (r: Option<Self>)
        ensures
            r is Some <==> bytes@.len() >= NEST_DVA_BYTES,
            r matches Some(d) ==> dva_fields_match(d, bytes@),
    {
        if bytes.len() < NEST_DVA_BYTES {
            return None;
        }
        Some(NestDva {
            offset: read_le_u64(bytes, 0),
            asize: read_le_u32(bytes, 8),
            vdev_id: read_le_u16(bytes, 12),
            gang: bytes[14],
            _pad: [bytes[15]],
        })
    }
}

/// Compression algorithms.
#[derive(Debug, Clone, Copy, PartialEq, Eq, Structural)]
pub enum NestCompType {
    Off,
    LZ4,
    ZSTD,
    Gzip1,
    Gzip9,
    ZLE,
}

/// On-disk code of each compression algorithm.
pub open spec fn comp_code(t: NestCompType) -> u8 {
    match t {
        NestCompType::Off => 0,
        NestCompType::LZ4 => 1,
        NestCompType::ZSTD => 2,
        NestCompType::Gzip1 => 3,
        NestCompType::Gzip9 => 4,
        NestCompType::ZLE => 5,
    }
}

/// Compression algorithm of an on-disk code (unknown codes mean `Off`).
pub open spec fn comp_from_code(v: u8) -> NestCompType {
    if v == 1 {
        NestCompType::LZ4
    } else if v == 2 {
        NestCompType::ZSTD
    } else if v == 3 {
        NestCompType::Gzip1
    } else if v == 4 {
        NestCompType::Gzip9
    } else if v == 5 {
        NestCompType::ZLE
    } else {
        NestCompType::Off
    }
}

impl NestCompType {
    /// Decodes an on-disk code; unknown codes give `Off`.
    pub fn from_u8(v: u8) -> (t: Self)
        ensures
            t == comp_from_code(v),
    {
        match v {
            1 => NestCompType::LZ4,
            2 => NestCompType::ZSTD,
            3 => NestCompType::Gzip1,
            4 => NestCompType::Gzip9,
            5 => NestCompType::ZLE,
            _ => NestCompType::Off,
        }
    }

    /// The on-disk code.
    pub fn to_u8(self) -> (v: u8)
        ensures
            v == comp_code(self),
    {
        match self {
            NestCompType::Off => 0,
            NestCompType::LZ4 => 1,
            NestCompType::ZSTD => 2,
            NestCompType::Gzip1 => 3,
            NestCompType::Gzip9 => 4,
            NestCompType::ZLE => 5,
        }
    }
}

/// Checksum algorithms.
#[derive(Debug, Clone, Copy, PartialEq, Eq, Structural)]
pub enum NestCksumType {
    Off,
    Fletcher2,
    Fletcher4,
    SHA256,
    EdonR,
}

/// On-disk code of each checksum algorithm.
pub open spec fn cksum_code(t: NestCksumType) -> u8 {
    match t {
        NestCksumType::Off => 0,
        NestCksumType::Fletcher2 => 1,
        NestCksumType::Fletcher4 => 2,
        NestCksumType::SHA256 => 3,
        NestCksumType::EdonR => 4,
    }
}

/// Checksum algorithm of an on-disk code (unknown codes mean `Off`).
pub open spec fn cksum_from_code(v: u8) -> NestCksumType {
    if v == 1 {
        NestCksumType::Fletcher2
    } else if v == 2 {
        NestCksumType::Fletcher4
    } else if v == 3 {
        NestCksumType::SHA256
    } else if v == 4 {
        NestCksumType::EdonR
    } else {
        NestCksumType::Off
    }
}

impl NestCksumType {
    /// Decodes an on-disk code; unknown codes give `Off`.
    pub fn from_u8(v: u8) -> (t: Self)
        ensures
            t == cksum_from_code(v),
    {
        match v {
            1 => NestCksumType::Fletcher2,
            2 => NestCksumType::Fletcher4,
            3 => NestCksumType::SHA256,
            4 => NestCksumType::EdonR,
            _ => NestCksumType::Off,
        }
    }

    /// The on-disk code.
    pub fn to_u8(self) -> (v: u8)
        ensures
            v == cksum_code(self),
    {
        match self {
            NestCksumType::Off => 0,
            NestCksumType::Fletcher2 => 1,
            NestCksumType::Fletcher4 => 2,
            NestCksumType::SHA256 => 3,
            NestCksumType::EdonR => 4,
        }
    }
}

/// Decoding a code after encoding gives the algorithm back.
pub proof fn lemma_codes_roundtrip(c: NestCompType, k: NestCksumType)
    ensures
        comp_from_code(comp_code(c)) == c,
        cksum_from_code(cksum_code(k)) == k,
{
}

/// Sizes and algorithms of a block.
#[derive(Debug, Clone, Copy)]
pub struct NestBpProp {
    pub logical_size: u32,
    pub physical_size: u32,
    pub level: u8,
    pub comp_type: u8,
    pub cksum_type: u8,
    pub encrypted: u8,
    pub byteorder: u8,
    pub _pad: [u8; 3],
}

/// The properties of a fresh block: sizes 0, no compression, Fletcher-4.
pub open spec fn prop_is_default(p: NestBpProp) -> bool {
    &&& p.logical_size == 0
    &&& p.physical_size == 0
    &&& p.level == 0
    &&& p.comp_type == 0
    &&& p.cksum_type == 2
    &&& p.encrypted == 0
    &&& p.byteorder == 0
    &&& p._pad@ == seq![0u8, 0u8, 0u8]
}

/// The properties that `NestBpProp::from_bytes` decodes from `s`.
pub open spec fn prop_fields_match(p: NestBpProp, s: Seq<u8>) -> bool {
    &&& p.logical_size == le_u32_at(s, 0)
    &&& p.physical_size == le_u32_at(s, 4)
    &&& p.level == s[8]
    &&& p.comp_type == s[9]
    &&& p.cksum_type == s[10]
    &&& p.encrypted == s[11]
    &&& p.byteorder == s[12]
    &&& p._pad@ == s.subrange(13, 16)
}

impl NestBpProp {
    /// Default properties: no compression, Fletcher-4 checksums.
    pub fn default() -> (p: Self)
        ensures
            prop_is_default(p),
    {
        let p = NestBpProp {
            logical_size: 0,
            physical_size: 0,
            level: 0,
            comp_type: 0,
            cksum_type: 2,
            encrypted: 0,
            byteorder: 0,
            _pad: [0u8; 3],
        };
        assert(p._pad@ =~= seq![0u8, 0u8, 0u8]);
        p
    }

    /// The compression algorithm.
    pub fn comp_type(&self) -> (t: NestCompType)
        ensures
            t == comp_from_code(self.comp_type),
    {
        NestCompType::from_u8(self.comp_type)
    }

    /// The checksum algorithm.
    pub fn cksum_type(&self) -> (t: NestCksumType)
        ensures
            t == cksum_from_code(self.cksum_type),
    {
        NestCksumType::from_u8(self.cksum_type)
    }

    /// Sets the compression algorithm.
    pub fn set_comp_type(&mut self, v: NestCompType)
        ensures
            *final(self) == (NestBpProp { comp_type: comp_code(v), ..*old(self) }),
    {
        self.comp_type = v.to_u8();
    }

    /// Sets the checksum algorithm.
    pub fn set_cksum_type(&mut self, v: NestCksumType)
        ensures
            *final(self) == (NestBpProp { cksum_type: cksum_code(v), ..*old(self) }),
    {
        self.cksum_type = v.to_u8();
    }

    /// Whether the block is encrypted.
    pub fn is_encrypted(&self) -> (r: bool)
        ensures
            r == (self.encrypted != 0),
    {
        self.encrypted != 0
    }

    /// Sets the encryption flag (1 or 0).
    pub fn set_encrypted(&mut self, v: bool)
        ensures
            *final(self) == (NestBpProp { encrypted: if v { 1u8 } else { 0u8 }, ..*old(self) }),
    {
        self.encrypted = if v { 1 } else { 0 };
    }

    /// Decodes properties from their 16-byte little-endian layout; `None`
    /// when fewer than 16 bytes are given.
    pub fn from_bytes(bytes: &[u8]) -> (r: Option<Self>)
        ensures
            r is Some <==> bytes@.len() >= NEST_BP_PROP_BYTES,
            r matches Some(p) ==> prop_fields_match(p, bytes@),
    {
        if bytes.len() < NEST_BP_PROP_BYTES {
            return None;
        }
        let p = NestBpProp {
            logical_size: read_le_u32(bytes, 0),
            physical_size: read_le_u32(bytes, 4),
            level: bytes[8],
            comp_type: bytes[9],
            cksum_type: bytes[10],
            encrypted: bytes[11],
            byteorder: bytes[12],
            _pad: [bytes[13], bytes[14], bytes[15]],
        };
        assert(p._pad@ =~= bytes@.subrange(13, 16));
        Some(p)
    }
}

/// A block pointer: up to two copies, properties, checksum and birth txg.
#[derive(Debug, Clone, Copy)]
pub struct NestBlockPointer {
    pub dva: [NestDva; 2],
    pub prop: NestBpProp,
    pub checksum: [u64; 4],
    pub birth_txg: u64,
    pub fill: u64,
    pub _pad: [u64; 2],
}

/// Whether a DVA is null in the sense of `NestDva::is_null`.
pub open spec fn dva_null(d: NestDva) -> bool {
    d.vdev_id == 0 && d.offset == 0 && d.asize == 0
}

/// Whether a block pointer is a hole: no copy and no birth txg.
pub open spec fn bp_is_hole(bp: NestBlockPointer) -> bool {
    dva_null(bp.dva[0]) && dva_null(bp.dva[1]) && bp.birth_txg == 0
}

/// The null block pointer.
pub open spec fn bp_is_null_value(bp: NestBlockPointer) -> bool {
    &&& dva_is_zero(bp.dva[0])
    &&& dva_is_zero(bp.dva[1])
    &&& prop_is_default(bp.prop)
    &&& bp.checksum@ == seq![0u64, 0u64, 0u64, 0u64]
    &&& bp.birth_txg == 0
    &&& bp.fill == 0
    &&& bp._pad@ == seq![0u64, 0u64]
}

/// The block pointer that `NestBlockPointer::from_bytes` decodes from `s`.
pub open spec fn bp_fields_match(bp: NestBlockPointer, s: Seq<u8>) -> bool {
    &&& dva_fields_match(bp.dva[0], s.subrange(0, 16))
    &&& dva_fields_match(bp.dva[1], s.subrange(16, 32))
    &&& prop_fields_match(bp.prop, s.subrange(32, 48))
    &&& bp.checksum@ == seq![le_u64_at(s, 48), le_u64_at(s, 56), le_u64_at(s, 64), le_u64_at(s, 72)]
    &&& bp.birth_txg == le_u64_at(s, 80)
    &&& bp.fill == le_u64_at(s, 88)
    &&& bp._pad@ == seq![0u64, 0u64]
}

impl NestBlockPointer {
    /// The null block pointer: no copies, default properties, everything zero.
    pub fn null() -> (bp: Self)
        ensures
            bp_is_null_value(bp),
    {
        let bp = NestBlockPointer {
            dva: [NestDva::null(), NestDva::null()],
            prop: NestBpProp::default(),
            checksum: [0u64; 4],
            birth_txg: 0,
            fill: 0,
            _pad: [0u64; 2],
        };
        assert(bp.checksum@ =~= seq![0u64, 0u64, 0u64, 0u64]);
        assert(bp._pad@ =~= seq![0u64, 0u64]);
        bp
    }

    /// Whether both copies are null.
    pub fn is_null(&self) -> (r: bool)
        ensures
            r == (dva_null(self.dva[0]) && dva_null(self.dva[1])),
    {
        self.dva[0].is_null() && self.dva[1].is_null()
    }

    /// Whether the pointer is a hole (null and never born).
    pub fn is_hole(&self) -> (r: bool)
        ensures
            r == bp_is_hole(*self),
    {
        self.dva[0].is_null() && self.dva[1].is_null() && self.birth_txg == 0
    }

    /// Logical size of the block.
    pub fn logical_size(&self) -> (r: u32)
        ensures
            r == self.prop.logical_size,
    {
        self.prop.logical_size
    }

    /// Physical size of the block.
    pub fn physical_size(&self) -> (r: u32)
        ensures
            r == self.prop.physical_size,
    {
        self.prop.physical_size
    }

    /// The copy at `idx`, when it exists and is not null.
    pub fn get_dva(&self, idx: usize) -> (r: Option<&NestDva>)
        ensures
            r is Some <==> (idx < HV_DVA_MAX && !dva_null(self.dva[idx as int])),
            r matches Some(d) ==> *d == self.dva[idx as int],
    {
        if idx < HV_DVA_MAX && !self.dva[idx].is_null() {
            Some(&self.dva[idx])
        } else {
            None
        }
    }

    /// Replaces the copy at `idx`; indices past the last copy are ignored.
    pub fn set_dva(&mut self, idx: usize, dva: NestDva)
        ensures
            idx < HV_DVA_MAX ==> final(self).dva@ == old(self).dva@.update(idx as int, dva),
            idx >= HV_DVA_MAX ==> final(self).dva@ == old(self).dva@,
            final(self).prop == old(self).prop,
            final(self).checksum == old(self).checksum,
            final(self).birth_txg == old(self).birth_txg,
            final(self).fill == old(self).fill,
            final(self)._pad == old(self)._pad,
    {
        if idx < HV_DVA_MAX {
            self.dva[idx] = dva;
        }
    }

    /// Sets the birth txg.
    pub fn set_birth(&mut self, txg: u64)
        ensures
            *final(self) == (NestBlockPointer { birth_txg: txg, ..*old(self) }),
    {
        self.birth_txg = txg;
    }

    /// Whether the pointer addresses a level-0 (data) block.
    pub fn is_data(&self) -> (r: bool)
        ensures
            r == (self.prop.level == 0 && !bp_is_hole(*self)),
    {
        self.prop.level == 0 && !self.is_hole()
    }

    /// Whether the pointer addresses an indirect (metadata) block.
    pub fn is_metadata(&self) -> (r: bool)
        ensures
            r == (self.prop.level > 0 && !bp_is_hole(*self)),
    {
        self.prop.level > 0 && !self.is_hole()
    }

    /// Decodes a block pointer from its 112-byte little-endian layout (the
    /// trailing padding is not read); `None` when fewer bytes are given.
    pub fn from_bytes(bytes: &[u8]) -> (r: Option<Self>)
        ensures
            r is Some <==> bytes@.len() >= NEST_BP_BYTES,
            r matches Some(bp) ==> bp_fields_match(bp, bytes@),
    {
        if bytes.len() < NEST_BP_BYTES {
            return None;
        }
        let mut bp = Self::null();
        let d0 = NestDva::from_bytes(slice_range(bytes, 0, 16));
        let d1 = NestDva::from_bytes(slice_range(bytes, 16, 32));
        let pr = NestBpProp::from_bytes(slice_range(bytes, 32, 48));
        match (d0, d1, pr) {
            (Some(a), Some(b), Some(p)) => {
                bp.dva[0] = a;
                bp.dva[1] = b;
                bp.prop = p;
            },
            _ => {
                return None;
            },
        }
        bp.checksum[0] = read_le_u64(bytes, 48);
        bp.checksum[1] = read_le_u64(bytes, 56);
        bp.checksum[2] = read_le_u64(bytes, 64);
        bp.checksum[3] = read_le_u64(bytes, 72);
        bp.birth_txg = read_le_u64(bytes, 80);
        bp.fill = read_le_u64(bytes, 88);
        assert(bp.checksum@ =~= seq![le_u64_at(bytes@, 48), le_u64_at(bytes@, 56), le_u64_at(bytes@, 64), le_u64_at(bytes@, 72)]);
        Some(bp)
    }
}


/// The 16 on-disk bytes of a DVA.
pub open spec fn dva_image(d: NestDva) -> Seq<u8> {
    spec_u64_to_le_bytes(d.offset) + spec_u32_to_le_bytes(d.asize) + spec_u16_to_le_bytes(d.vdev_id)
        + seq![d.gang, d._pad[0]]
}

/// The 16 on-disk bytes of block properties.
pub open spec fn prop_image(p: NestBpProp) -> Seq<u8> {
    spec_u32_to_le_bytes(p.logical_size) + spec_u32_to_le_bytes(p.physical_size)
        + seq![p.level, p.comp_type, p.cksum_type, p.encrypted, p.byteorder] + p._pad@
}

/// The 112 on-disk bytes of a block pointer, fields in declaration order.
pub open spec fn bp_image(bp: NestBlockPointer) -> Seq<u8> {
    dva_image(bp.dva[0]) + dva_image(bp.dva[1]) + prop_image(bp.prop)
        + spec_u64_to_le_bytes(bp.checksum[0]) + spec_u64_to_le_bytes(bp.checksum[1])
        + spec_u64_to_le_bytes(bp.checksum[2]) + spec_u64_to_le_bytes(bp.checksum[3])
        + spec_u64_to_le_bytes(bp.birth_txg) + spec_u64_to_le_bytes(bp.fill)
        + spec_u64_to_le_bytes(bp._pad[0]) + spec_u64_to_le_bytes(bp._pad[1])
}

impl NestDva {
    /// The 16 on-disk bytes.
    pub fn to_bytes(&self) -> (b: Vec<u8>)
        ensures
            b@ == dva_image(*self),
    {
        let mut b: Vec<u8> = Vec::new();
        append_bytes(&mut b, u64_to_le_bytes(self.offset).as_slice());
        append_bytes(&mut b, u32_to_le_bytes(self.asize).as_slice());
        append_bytes(&mut b, u16_to_le_bytes(self.vdev_id).as_slice());
        b.push(self.gang);
        b.push(self._pad[0]);
        assert(b@ =~= dva_image(*self));
        b
    }
}

impl NestBpProp {
    /// The 16 on-disk bytes.
    pub fn to_bytes(&self) -> (b: Vec<u8>)
        ensures
            b@ == prop_image(*self),
    {
        let mut b: Vec<u8> = Vec::new();
        append_bytes(&mut b, u32_to_le_bytes(self.logical_size).as_slice());
        append_bytes(&mut b, u32_to_le_bytes(self.physical_size).as_slice());
        b.push(self.level);
        b.push(self.comp_type);
        b.push(self.cksum_type);
        b.push(self.encrypted);
        b.push(self.byteorder);
        append_bytes(&mut b, &self._pad);
        assert(b@ =~= prop_image(*self));
        b
    }
}

impl NestBlockPointer {
    /// The 112 on-disk bytes.
    pub fn to_bytes(&self) -> (b: Vec<u8>)
        ensures
            b@ == bp_image(*self),
            b@.len() == NEST_BP_BYTES,
    {
        proof {
            lemma_auto_spec_u64_to_from_le_bytes();
            lemma_auto_spec_u32_to_from_le_bytes();
            lemma_auto_spec_u16_to_from_le_bytes();
        }
        let mut b = self.dva[0].to_bytes();
        append_bytes(&mut b, self.dva[1].to_bytes().as_slice());
        append_bytes(&mut b, self.prop.to_bytes().as_slice());
        append_bytes(&mut b, u64_to_le_bytes(self.checksum[0]).as_slice());
        append_bytes(&mut b, u64_to_le_bytes(self.checksum[1]).as_slice());
        append_bytes(&mut b, u64_to_le_bytes(self.checksum[2]).as_slice());
        append_bytes(&mut b, u64_to_le_bytes(self.checksum[3]).as_slice());
        append_bytes(&mut b, u64_to_le_bytes(self.birth_txg).as_slice());
        append_bytes(&mut b, u64_to_le_bytes(self.fill).as_slice());
        append_bytes(&mut b, u64_to_le_bytes(self._pad[0]).as_slice());
        append_bytes(&mut b, u64_to_le_bytes(self._pad[1]).as_slice());
        assert(b@ =~= bp_image(*self));
        b
    }
}

/// The image of a block pointer has its fixed size.
pub proof fn lemma_bp_image_len(bp: NestBlockPointer)
    ensures
        bp_image(bp).len() == NEST_BP_BYTES,
{
    lemma_auto_spec_u64_to_from_le_bytes();
    lemma_auto_spec_u32_to_from_le_bytes();
    lemma_auto_spec_u16_to_from_le_bytes();
}

/// Decoding the image of a block pointer whose padding is zero gives it back.
pub proof fn lemma_bp_image_roundtrip(bp: NestBlockPointer, x: NestBlockPointer)
    requires
        bp._pad@ == seq![0u64, 0u64],
        bp_fields_match(x, bp_image(bp)),
    ensures
        x == bp,
{
    lemma_auto_spec_u64_to_from_le_bytes();
    lemma_auto_spec_u32_to_from_le_bytes();
    lemma_auto_spec_u16_to_from_le_bytes();
    let s = bp_image(bp);
    let d0 = dva_image(bp.dva[0]);
    let d1 = dva_image(bp.dva[1]);
    assert(s.subrange(0, 16) =~= d0);
    assert(s.subrange(16, 32) =~= d1);
    assert(s.subrange(32, 48) =~= prop_image(bp.prop));
    assert(d0.subrange(0, 8) =~= spec_u64_to_le_bytes(bp.dva[0].offset));
    assert(d0.subrange(8, 12) =~= spec_u32_to_le_bytes(bp.dva[0].asize));
    assert(d0.subrange(12, 14) =~= spec_u16_to_le_bytes(bp.dva[0].vdev_id));
    assert(d1.subrange(0, 8) =~= spec_u64_to_le_bytes(bp.dva[1].offset));
    assert(d1.subrange(8, 12) =~= spec_u32_to_le_bytes(bp.dva[1].asize));
    assert(d1.subrange(12, 14) =~= spec_u16_to_le_bytes(bp.dva[1].vdev_id));
    let p = prop_image(bp.prop);
    assert(p.subrange(0, 4) =~= spec_u32_to_le_bytes(bp.prop.logical_size));
    assert(p.subrange(4, 8) =~= spec_u32_to_le_bytes(bp.prop.physical_size));
    assert(s.subrange(48, 56) =~= spec_u64_to_le_bytes(bp.checksum[0]));
    assert(s.subrange(56, 64) =~= spec_u64_to_le_bytes(bp.checksum[1]));
    assert(s.subrange(64, 72) =~= spec_u64_to_le_bytes(bp.checksum[2]));
    assert(s.subrange(72, 80) =~= spec_u64_to_le_bytes(bp.checksum[3]));
    assert(s.subrange(80, 88) =~= spec_u64_to_le_bytes(bp.birth_txg));
    assert(s.subrange(88, 96) =~= spec_u64_to_le_bytes(bp.fill));
    broadcast use vstd::array::group_array_axioms;
    assert(x.dva[0].offset == bp.dva[0].offset && x.dva[0].asize == bp.dva[0].asize);
    assert(x.dva[0].vdev_id == bp.dva[0].vdev_id && x.dva[0].gang == bp.dva[0].gang);
    assert(x.dva[1].offset == bp.dva[1].offset && x.dva[1].asize == bp.dva[1].asize);
    assert(x.dva[1].vdev_id == bp.dva[1].vdev_id && x.dva[1].gang == bp.dva[1].gang);
    assert(x.dva[0]._pad =~= bp.dva[0]._pad);
    assert(x.dva[1]._pad =~= bp.dva[1]._pad);
    assert(x.prop._pad@ =~= bp.prop._pad@);
    assert(x.prop._pad =~= bp.prop._pad);
    assert(x.dva[0] == bp.dva[0]);
    assert(x.dva[1] == bp.dva[1]);
    assert(x.prop == bp.prop);
    assert(x.dva =~= bp.dva);
    assert(x.checksum@ =~= bp.checksum@);
    assert(x.checksum =~= bp.checksum);
    assert(x._pad@ =~= bp._pad@);
    assert(x._pad =~= bp._pad);
}

} // verus!
