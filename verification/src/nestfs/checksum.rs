//! Block checksums: Fletcher-2, Fletcher-4 and SHA-256, each as four
//! 64-bit words.
//!
//! The Fletcher sums read the data as little-endian 64-bit words, the last
//! one padded with zeros, and keep running sums modulo 2^64. SHA-256 gives
//! its digest as four big-endian 64-bit words.
use crate::nestfs::bp::NestCksumType;
use crate::sha256::{sha256, sha256_spec, SHA256_MAX_LEN};
use vstd::prelude::*;
use vstd::bytes::{spec_u64_from_le_bytes, spec_u64_to_le_bytes, u64_from_le_bytes};

verus! {

pub const HV_CKSUM_FLETCHER2: usize = 1;

pub const HV_CKSUM_FLETCHER4: usize = 2;

pub const HV_CKSUM_SHA256: usize = 3;

/// Number of 64-bit words the data is read as.
pub open spec fn word_count(data: Seq<u8>) -> nat {
    ((data.len() + 7) / 8) as nat
}

/// Word `k` of the data: eight bytes from `8 * k` on, zeros past the end.
pub open spec fn word_at(data: Seq<u8>, k: int) -> u64 {
    spec_u64_from_le_bytes(Seq::new(8, |j: int| if 8 * k + j < data.len() { data[8 * k + j] } else { 0u8 }))
}

/// The four running sums after the first `k` words.
pub open spec fn fletcher_sums(data: Seq<u8>, k: nat) -> (u64, u64, u64, u64)
    decreases k,
{
    if k == 0 {
        (0, 0, 0, 0)
    } else {
        let s = fletcher_sums(data, (k - 1) as nat);
        let a = s.0.wrapping_add(word_at(data, k - 1));
        let b = s.1.wrapping_add(a);
        let c = s.2.wrapping_add(b);
        let d = s.3.wrapping_add(c);
        (a, b, c, d)
    }
}

/// The Fletcher-4 checksum of `data`.
pub open spec fn fletcher4_spec(data: Seq<u8>) -> Seq<u64> {
    let s = fletcher_sums(data, word_count(data));
    seq![s.0, s.1, s.2, s.3]
}

/// The Fletcher-2 checksum of `data`: the first two sums, then zeros.
pub open spec fn fletcher2_spec(data: Seq<u8>) -> Seq<u64> {
    let s = fletcher_sums(data, word_count(data));
    seq![s.0, s.1, 0u64, 0u64]
}

/// The SHA-256 digest as four big-endian words.
pub open spec fn sha256_words(data: Seq<u8>) -> Seq<u64> {
    let h = sha256_spec(data);
    Seq::new(4, |i: int| be_word(h, 8 * i))
}

/// The big-endian 64-bit word at `off` of `h`.
pub open spec fn be_word(h: Seq<u8>, off: int) -> u64 {
    ((h[off] as u64) << 56) | ((h[off + 1] as u64) << 48) | ((h[off + 2] as u64) << 40) | ((h[off + 3]
        as u64) << 32) | ((h[off + 4] as u64) << 24) | ((h[off + 5] as u64) << 16) | ((h[off + 6] as u64)
        << 8) | (h[off + 7] as u64)
}

/// The checksum of `data` under `kind`.
pub open spec fn checksum_spec(kind: NestCksumType, data: Seq<u8>) -> Seq<u64> {
    match kind {
        NestCksumType::Off => seq![0u64, 0u64, 0u64, 0u64],
        NestCksumType::Fletcher2 => fletcher2_spec(data),
        NestCksumType::Fletcher4 => fletcher4_spec(data),
        NestCksumType::SHA256 => sha256_words(data),
        NestCksumType::EdonR => fletcher4_spec(data),
    }
}

/// Word `k` of the data.
fn read_word(data: &[u8], k: usize) -> (w: u64)
    requires
        k < word_count(data@),
    ensures
        w == word_at(data@, k as int),
{
    let n = data.len();
    let mut buf = [0u8; 8];
    let mut j: usize = 0;
    while j < 8
        invariant
            n == data@.len(),
            k < word_count(data@),
            0 <= j <= 8,
            forall|i: int| 0 <= i < j ==> buf@[i] == (if 8 * k + i < n { data@[8 * k + i] } else { 0u8 }),
            forall|i: int| j <= i < 8 ==> buf@[i] == 0u8,
        decreases 8 - j,
    {
        if j < n && 8 * k < n - j {
            buf[j] = data[8 * k + j];
        }
        j += 1;
    }
    assert(buf@ =~= Seq::new(8, |j: int| if 8 * k + j < n { data@[8 * k + j] } else { 0u8 }));
    u64_from_le_bytes(&buf)
}

/// The running sums over the whole data.
fn fletcher_run(data: &[u8]) -> (s: (u64, u64, u64, u64))
    ensures
        s == fletcher_sums(data@, word_count(data@)),
{
    let n = data.len();
    let words = n / 8 + if n % 8 == 0 { 0 } else { 1 };
    assert(words == word_count(data@));
    let mut a: u64 = 0;
    let mut b: u64 = 0;
    let mut c: u64 = 0;
    let mut d: u64 = 0;
    let mut k: usize = 0;
    while k < words
        invariant
            n == data@.len(),
            words == word_count(data@),
            0 <= k <= words,
            (a, b, c, d) == fletcher_sums(data@, k as nat),
        decreases words - k,
    {
        let w = read_word(data, k);
        a = a.wrapping_add(w);
        b = b.wrapping_add(a);
        c = c.wrapping_add(b);
        d = d.wrapping_add(c);
        k += 1;
    }
    (a, b, c, d)
}

/// Checksum interface, so that callers can be given another implementation.
pub trait Checksum {
    /// The checksum of `data` under `kind`.
    fn compute(&self, kind: NestCksumType, data: &[u8]) -> (r: [u64; 4])
        requires
            kind == NestCksumType::SHA256 ==> data@.len() < SHA256_MAX_LEN,
        ensures
            r@ == checksum_spec(kind, data@),
    ;

    /// Whether `expected` is the checksum of `data` under `kind`.
    fn verify(&self, kind: NestCksumType, data: &[u8], expected: &[u64; 4]) -> (r: bool)
        requires
            kind == NestCksumType::SHA256 ==> data@.len() < SHA256_MAX_LEN,
        ensures
            r == (expected@ == checksum_spec(kind, data@)),
    ;
}

/// A checksum value and its algorithm.
#[derive(Debug, Clone, Copy)]
pub struct NestChecksum {
    pub kind: NestCksumType,
    pub value: [u64; 4],
}

impl NestChecksum {
    /// A zero checksum of `kind`.
    pub fn new(kind: NestCksumType) -> (c: Self)
        ensures
            c.kind == kind,
            c.value@ == seq![0u64, 0u64, 0u64, 0u64],
    {
        let c = NestChecksum { kind, value: [0u64; 4] };
        assert(c.value@ =~= seq![0u64, 0u64, 0u64, 0u64]);
        c
    }

    /// The checksum of `data` under `kind` (EdonR is computed as Fletcher-4).
    pub fn compute(kind: NestCksumType, data: &[u8]) -> (c: Self)
        requires
            kind == NestCksumType::SHA256 ==> data@.len() < SHA256_MAX_LEN,
        ensures
            c.kind == kind,
            c.value@ == checksum_spec(kind, data@),
    {
        let mut ck = Self::new(kind);
        match kind {
            NestCksumType::Off => {},
            NestCksumType::Fletcher2 => ck.fletcher2(data),
            NestCksumType::Fletcher4 => ck.fletcher4(data),
            NestCksumType::SHA256 => ck.sha256(data),
            NestCksumType::EdonR => ck.fletcher4(data),
        }
        ck
    }

    /// Whether the stored value is the checksum of `data`.
    pub fn verify(&self, data: &[u8]) -> (r: bool)
        requires
            self.kind == NestCksumType::SHA256 ==> data@.len() < SHA256_MAX_LEN,
        ensures
            r == (self.value@ == checksum_spec(self.kind, data@)),
    {
        let computed = Self::compute(self.kind, data);
        let r = self.value[0] == computed.value[0] && self.value[1] == computed.value[1] && self.value[2]
            == computed.value[2] && self.value[3] == computed.value[3];
        proof {
            if r {
                assert(self.value@ =~= computed.value@);
            } else {
                assert(self.value@[0] != computed.value@[0] || self.value@[1] != computed.value@[1]
                    || self.value@[2] != computed.value@[2] || self.value@[3] != computed.value@[3]);
            }
        }
        r
    }

    fn fletcher2(&mut self, data: &[u8])
        ensures
            final(self).kind == old(self).kind,
            final(self).value@ == fletcher2_spec(data@),
    {
        let (a, b, _c, _d) = fletcher_run(data);
        self.value[0] = a;
        self.value[1] = b;
        self.value[2] = 0;
        self.value[3] = 0;
        assert(self.value@ =~= fletcher2_spec(data@));
    }

    fn fletcher4(&mut self, data: &[u8])
        ensures
            final(self).kind == old(self).kind,
            final(self).value@ == fletcher4_spec(data@),
    {
        let (a, b, c, d) = fletcher_run(data);
        self.value[0] = a;
        self.value[1] = b;
        self.value[2] = c;
        self.value[3] = d;
        assert(self.value@ =~= fletcher4_spec(data@));
    }

    fn sha256(&mut self, data: &[u8])
        requires
            data@.len() < SHA256_MAX_LEN,
        ensures
            final(self).kind == old(self).kind,
            final(self).value@ == sha256_words(data@),
    {
        let hash = sha256(data);
        self.value[0] = be_word_at(&hash, 0);
        self.value[1] = be_word_at(&hash, 8);
        self.value[2] = be_word_at(&hash, 16);
        self.value[3] = be_word_at(&hash, 24);
        assert(self.value@ =~= sha256_words(data@));
    }
}

/// The big-endian 64-bit word at `off` of the digest.
pub(crate) fn be_word_at(h: &[u8; 32], off: usize) -> (w: u64)
    requires
        off + 8 <= 32,
    ensures
        w == be_word(h@, off as int),
{
    ((h[off] as u64) << 56) | ((h[off + 1] as u64) << 48) | ((h[off + 2] as u64) << 40) | ((h[off + 3]
        as u64) << 32) | ((h[off + 4] as u64) << 24) | ((h[off + 5] as u64) << 16) | ((h[off + 6] as u64)
        << 8) | (h[off + 7] as u64)
}

impl Checksum for NestChecksum {
    fn compute(&self, kind: NestCksumType, data: &[u8]) -> (r: [u64; 4]) {
        NestChecksum::compute(kind, data).value
    }

    fn verify(&self, kind: NestCksumType, data: &[u8], expected: &[u64; 4]) -> (r: bool) {
        let computed = NestChecksum::compute(kind, data);
        let r = computed.value[0] == expected[0] && computed.value[1] == expected[1] && computed.value[2]
            == expected[2] && computed.value[3] == expected[3];
        proof {
            if r {
                assert(computed.value@ =~= expected@);
            } else {
                assert(computed.value@[0] != expected@[0] || computed.value@[1] != expected@[1]
                    || computed.value@[2] != expected@[2] || computed.value@[3] != expected@[3]);
            }
        }
        r
    }
}

/// Running sums agree over the words on which two inputs agree.
proof fn lemma_sums_agree(d1: Seq<u8>, d2: Seq<u8>, k: nat)
    requires
        forall|j: int| 0 <= j < k ==> word_at(d1, j) == word_at(d2, j),
    ensures
        fletcher_sums(d1, k) == fletcher_sums(d2, k),
    decreases k,
{
    if k > 0 {
        lemma_sums_agree(d1, d2, (k - 1) as nat);
    }
}

/// The Fletcher checksums of no data are all zeros.
pub proof fn law_fletcher_empty()
    ensures
        checksum_spec(NestCksumType::Fletcher2, Seq::<u8>::empty()) == seq![0u64, 0u64, 0u64, 0u64],
        checksum_spec(NestCksumType::Fletcher4, Seq::<u8>::empty()) == seq![0u64, 0u64, 0u64, 0u64],
{
    assert(word_count(Seq::<u8>::empty()) == 0);
}

/// Appending one whole little-endian word `w` to data of whole words
/// steps the sums: `a` gains `w`, and each later sum gains the new value of
/// the one before it, all modulo 2^64. Fletcher-2 keeps its last two words
/// zero.
pub proof fn law_fletcher_append_word(d: Seq<u8>, w: u64)
    requires
        d.len() % 8 == 0,
    ensures
        ({
            let f2 = checksum_spec(NestCksumType::Fletcher2, d);
            let g2 = checksum_spec(NestCksumType::Fletcher2, d + spec_u64_to_le_bytes(w));
            let a = f2[0].wrapping_add(w);
            g2 == seq![a, f2[1].wrapping_add(a), 0u64, 0u64]
        }),
        ({
            let f4 = checksum_spec(NestCksumType::Fletcher4, d);
            let g4 = checksum_spec(NestCksumType::Fletcher4, d + spec_u64_to_le_bytes(w));
            let a = f4[0].wrapping_add(w);
            let b = f4[1].wrapping_add(a);
            let c = f4[2].wrapping_add(b);
            g4 == seq![a, b, c, f4[3].wrapping_add(c)]
        }),
{
    vstd::bytes::lemma_auto_spec_u64_to_from_le_bytes();
    let e = spec_u64_to_le_bytes(w);
    let d2 = d + e;
    let n = word_count(d);
    assert(n * 8 == d.len());
    assert(word_count(d2) == n + 1);
    assert forall|j: int| 0 <= j < n implies word_at(d, j) == word_at(d2, j) by {
        assert(Seq::new(8, |i: int| if 8 * j + i < d.len() { d[8 * j + i] } else { 0u8 })
            =~= Seq::new(8, |i: int| if 8 * j + i < d2.len() { d2[8 * j + i] } else { 0u8 }));
    }
    lemma_sums_agree(d, d2, n);
    assert(Seq::new(8, |i: int| if 8 * n + i < d2.len() { d2[8 * n + i] } else { 0u8 }) =~= e);
    assert(word_at(d2, n as int) == w);
}

/// Zeros that fill the last word up do not change a Fletcher checksum:
/// a short last word is read as if padded with zero bytes.
pub proof fn law_fletcher_zero_fill(d: Seq<u8>, kind: NestCksumType)
    requires
        kind == NestCksumType::Fletcher2 || kind == NestCksumType::Fletcher4,
    ensures
        checksum_spec(kind, d + Seq::new(((8 - d.len() % 8) % 8) as nat, |i: int| 0u8)) == checksum_spec(kind, d),
{
    let z = Seq::new(((8 - d.len() % 8) % 8) as nat, |i: int| 0u8);
    let d2 = d + z;
    assert(word_count(d2) == word_count(d));
    assert forall|j: int| 0 <= j < word_count(d) implies word_at(d, j) == word_at(d2, j) by {
        assert(Seq::new(8, |i: int| if 8 * j + i < d.len() { d[8 * j + i] } else { 0u8 })
            =~= Seq::new(8, |i: int| if 8 * j + i < d2.len() { d2[8 * j + i] } else { 0u8 }));
    }
    lemma_sums_agree(d, d2, word_count(d));
}

/// Fletcher-2 is the first two Fletcher-4 sums followed by two zero words.
pub proof fn law_fletcher2_prefix_of_fletcher4(d: Seq<u8>)
    ensures
        checksum_spec(NestCksumType::Fletcher2, d)
            == checksum_spec(NestCksumType::Fletcher4, d).take(2) + seq![0u64, 0u64],
{
    assert(checksum_spec(NestCksumType::Fletcher2, d)
        =~= checksum_spec(NestCksumType::Fletcher4, d).take(2) + seq![0u64, 0u64]);
}

} // verus!
