//! SHA-256 (FIPS 180-4).
//!
//! The message is padded with a one bit, zeros and its length in bits
//! (big-endian) to a multiple of 64 bytes; each 64-byte block extends the
//! 64-word message schedule and runs 64 rounds over the eight working
//! words; the digest is the final hash words, big-endian.
use vstd::prelude::*;

verus! {

/// Longest message, in bytes, that SHA-256 is defined for (2^64 bits).
pub const SHA256_MAX_LEN: u64 = 0x2000_0000_0000_0000;

/// Rotation right by `n` (1 to 31) bits.
pub open spec fn rotr(x: u32, n: u32) -> u32 {
    (x >> n) | (x << ((32 - n) as u32))
}

pub open spec fn big_sigma0(x: u32) -> u32 {
    rotr(x, 2) ^ rotr(x, 13) ^ rotr(x, 22)
}

pub open spec fn big_sigma1(x: u32) -> u32 {
    rotr(x, 6) ^ rotr(x, 11) ^ rotr(x, 25)
}

pub open spec fn small_sigma0(x: u32) -> u32 {
    rotr(x, 7) ^ rotr(x, 18) ^ (x >> 3)
}

pub open spec fn small_sigma1(x: u32) -> u32 {
    rotr(x, 17) ^ rotr(x, 19) ^ (x >> 10)
}

pub open spec fn ch(e: u32, f: u32, g: u32) -> u32 {
    (e & f) ^ (!e & g)
}

pub open spec fn maj(a: u32, b: u32, c: u32) -> u32 {
    (a & b) ^ (a & c) ^ (b & c)
}

/// The round constants.
pub open spec fn round_k() -> Seq<u32> {
    seq![
        0x428a2f98u32, 0x71374491, 0xb5c0fbcf, 0xe9b5dba5, 0x3956c25b, 0x59f111f1, 0x923f82a4, 0xab1c5ed5,
        0xd807aa98, 0x12835b01, 0x243185be, 0x550c7dc3, 0x72be5d74, 0x80deb1fe, 0x9bdc06a7, 0xc19bf174,
        0xe49b69c1, 0xefbe4786, 0x0fc19dc6, 0x240ca1cc, 0x2de92c6f, 0x4a7484aa, 0x5cb0a9dc, 0x76f988da,
        0x983e5152, 0xa831c66d, 0xb00327c8, 0xbf597fc7, 0xc6e00bf3, 0xd5a79147, 0x06ca6351, 0x14292967,
        0x27b70a85, 0x2e1b2138, 0x4d2c6dfc, 0x53380d13, 0x650a7354, 0x766a0abb, 0x81c2c92e, 0x92722c85,
        0xa2bfe8a1, 0xa81a664b, 0xc24b8b70, 0xc76c51a3, 0xd192e819, 0xd6990624, 0xf40e3585, 0x106aa070,
        0x19a4c116, 0x1e376c08, 0x2748774c, 0x34b0bcb5, 0x391c0cb3, 0x4ed8aa4a, 0x5b9cca4f, 0x682e6ff3,
        0x748f82ee, 0x78a5636f, 0x84c87814, 0x8cc70208, 0x90befffa, 0xa4506ceb, 0xbef9a3f7, 0xc67178f2,
    ]
}

/// The initial hash words.
pub open spec fn initial_hash() -> Seq<u32> {
    seq![0x6a09e667u32, 0xbb67ae85, 0x3c6ef372, 0xa54ff53a, 0x510e527f, 0x9b05688c, 0x1f83d9ab, 0x5be0cd19]
}

/// Number of zero bytes of padding after the one bit for `l` bytes.
pub open spec fn pad_zeros(l: nat) -> nat {
    ((119 - (l % 64) as int) % 64) as nat
}

/// Length of the padded message of `l` bytes.
pub open spec fn padded_len(l: nat) -> nat {
    l + 1 + pad_zeros(l) + 8
}

/// The message length in bits, modulo 2^64.
pub open spec fn bit_len(l: nat) -> u64 {
    ((l * 8) % 0x1_0000_0000_0000_0000) as u64
}

/// Byte `i` of the padded message.
pub open spec fn padded_byte(m: Seq<u8>, i: int) -> u8 {
    let l = m.len();
    let pl = padded_len(l);
    if i < l {
        m[i]
    } else if i == l {
        0x80u8
    } else if i < pl - 8 {
        0u8
    } else {
        ((bit_len(l) >> ((8 * (pl - 1 - i)) as u64)) & 0xff) as u8
    }
}

/// The padded message.
pub open spec fn padded(m: Seq<u8>) -> Seq<u8> {
    Seq::new(padded_len(m.len()), |i: int| padded_byte(m, i))
}

/// The big-endian 32-bit word at `off` of `p`.
pub open spec fn be32_at(p: Seq<u8>, off: int) -> u32 {
    ((p[off] as u32) << 24) | ((p[off + 1] as u32) << 16) | ((p[off + 2] as u32) << 8) | (p[off + 3] as u32)
}

/// Word `t` of the message schedule of block `blk` of the padded message `p`.
pub open spec fn schedule(p: Seq<u8>, blk: int, t: int) -> u32
    decreases t,
{
    if t < 16 {
        be32_at(p, 64 * blk + 4 * t)
    } else {
        small_sigma1(schedule(p, blk, t - 2)).wrapping_add(schedule(p, blk, t - 7)).wrapping_add(
            small_sigma0(schedule(p, blk, t - 15)),
        ).wrapping_add(schedule(p, blk, t - 16))
    }
}

/// The working words after `t` rounds of block `blk`, starting from `h`.
pub open spec fn rounds(p: Seq<u8>, blk: int, h: Seq<u32>, t: nat) -> Seq<u32>
    decreases t,
{
    if t == 0 {
        h
    } else {
        let s = rounds(p, blk, h, (t - 1) as nat);
        let t1 = s[7].wrapping_add(big_sigma1(s[4])).wrapping_add(ch(s[4], s[5], s[6])).wrapping_add(
            round_k()[t - 1],
        ).wrapping_add(schedule(p, blk, t - 1));
        let t2 = big_sigma0(s[0]).wrapping_add(maj(s[0], s[1], s[2]));
        seq![t1.wrapping_add(t2), s[0], s[1], s[2], s[3].wrapping_add(t1), s[4], s[5], s[6]]
    }
}

/// The hash words after block `blk`, starting from `h`.
pub open spec fn block_hash(p: Seq<u8>, blk: int, h: Seq<u32>) -> Seq<u32> {
    let s = rounds(p, blk, h, 64);
    Seq::new(8, |i: int| h[i].wrapping_add(s[i]))
}

/// The hash words after the first `k` blocks.
pub open spec fn hash_blocks(p: Seq<u8>, k: nat) -> Seq<u32>
    decreases k,
{
    if k == 0 {
        initial_hash()
    } else {
        block_hash(p, k - 1, hash_blocks(p, (k - 1) as nat))
    }
}

/// The SHA-256 digest of `m`.
pub open spec fn sha256_spec(m: Seq<u8>) -> Seq<u8> {
    let p = padded(m);
    let h = hash_blocks(p, p.len() / 64);
    Seq::new(32, |i: int| (h[i / 4] >> ((24 - 8 * (i % 4)) as u32)) as u8)
}

proof fn lemma_padded_len(l: nat)
    ensures
        padded_len(l) % 64 == 0,
        padded_len(l) >= l + 9,
        padded_len(l) <= l + 73,
{
}

fn round_k_table() -> (k: [u32; 64])
    ensures
        k@ == round_k(),
{
    let k = [
        0x428a2f98u32, 0x71374491, 0xb5c0fbcf, 0xe9b5dba5, 0x3956c25b, 0x59f111f1, 0x923f82a4, 0xab1c5ed5,
        0xd807aa98, 0x12835b01, 0x243185be, 0x550c7dc3, 0x72be5d74, 0x80deb1fe, 0x9bdc06a7, 0xc19bf174,
        0xe49b69c1, 0xefbe4786, 0x0fc19dc6, 0x240ca1cc, 0x2de92c6f, 0x4a7484aa, 0x5cb0a9dc, 0x76f988da,
        0x983e5152, 0xa831c66d, 0xb00327c8, 0xbf597fc7, 0xc6e00bf3, 0xd5a79147, 0x06ca6351, 0x14292967,
        0x27b70a85, 0x2e1b2138, 0x4d2c6dfc, 0x53380d13, 0x650a7354, 0x766a0abb, 0x81c2c92e, 0x92722c85,
        0xa2bfe8a1, 0xa81a664b, 0xc24b8b70, 0xc76c51a3, 0xd192e819, 0xd6990624, 0xf40e3585, 0x106aa070,
        0x19a4c116, 0x1e376c08, 0x2748774c, 0x34b0bcb5, 0x391c0cb3, 0x4ed8aa4a, 0x5b9cca4f, 0x682e6ff3,
        0x748f82ee, 0x78a5636f, 0x84c87814, 0x8cc70208, 0x90befffa, 0xa4506ceb, 0xbef9a3f7, 0xc67178f2,
    ];
    assert(k@ =~= round_k());
    k
}

fn rotr_exec(x: u32, n: u32) -> (r: u32)
    requires
        1 <= n <= 31,
    ensures
        r == rotr(x, n),
{
    (x >> n) | (x << (32 - n))
}

/// Byte `i` of the padded message of `data`.
fn padded_byte_exec(data: &[u8], i: u64) -> (b: u8)
    requires
        data@.len() < SHA256_MAX_LEN,
        i < padded_len(data@.len()),
    ensures
        b == padded_byte(data@, i as int),
{
    let l = data.len() as u64;
    let z: u64 = (119 - (l % 64)) % 64;
    let pl = l + 1 + z + 8;
    if i < l {
        data[i as usize]
    } else if i == l {
        0x80u8
    } else if i < pl - 8 {
        0u8
    } else {
        let bits = l * 8;
        assert(bits == bit_len(data@.len()));
        ((bits >> (8 * (pl - 1 - i))) & 0xff) as u8
    }
}

/// The big-endian word at `off` of the padded message.
fn padded_word(data: &[u8], off: u64) -> (w: u32)
    requires
        data@.len() < SHA256_MAX_LEN,
        off + 4 <= padded_len(data@.len()),
    ensures
        w == be32_at(padded(data@), off as int),
{
    let b0 = padded_byte_exec(data, off);
    let b1 = padded_byte_exec(data, off + 1);
    let b2 = padded_byte_exec(data, off + 2);
    let b3 = padded_byte_exec(data, off + 3);
    ((b0 as u32) << 24) | ((b1 as u32) << 16) | ((b2 as u32) << 8) | (b3 as u32)
}

/// One block: the schedule and the 64 rounds, added into `h`.
fn process_block(data: &[u8], blk: u64, h: &mut [u32; 8], k: &[u32; 64])
    requires
        data@.len() < SHA256_MAX_LEN,
        64 * blk + 64 <= padded_len(data@.len()),
        k@ == round_k(),
    ensures
        final(h)@ == block_hash(padded(data@), blk as int, old(h)@),
{
    let ghost p = padded(data@);
    let mut w = [0u32; 64];
    let mut t: usize = 0;
    while t < 16
        invariant
            data@.len() < SHA256_MAX_LEN,
            64 * blk + 64 <= padded_len(data@.len()),
            p == padded(data@),
            0 <= t <= 16,
            forall|j: int| 0 <= j < t ==> w@[j] == schedule(p, blk as int, j),
        decreases 16 - t,
    {
        w[t] = padded_word(data, 64 * blk + 4 * (t as u64));
        t += 1;
    }
    while t < 64
        invariant
            16 <= t <= 64,
            forall|j: int| 0 <= j < t ==> w@[j] == schedule(p, blk as int, j),
        decreases 64 - t,
    {
        let x2 = w[t - 2];
        let x15 = w[t - 15];
        let s1 = rotr_exec(x2, 17) ^ rotr_exec(x2, 19) ^ (x2 >> 10);
        let s0 = rotr_exec(x15, 7) ^ rotr_exec(x15, 18) ^ (x15 >> 3);
        w[t] = s1.wrapping_add(w[t - 7]).wrapping_add(s0).wrapping_add(w[t - 16]);
        t += 1;
    }
    let mut a = h[0];
    let mut b = h[1];
    let mut c = h[2];
    let mut d = h[3];
    let mut e = h[4];
    let mut f = h[5];
    let mut g = h[6];
    let mut hh = h[7];
    let ghost h0 = h@;
    assert(seq![a, b, c, d, e, f, g, hh] =~= rounds(p, blk as int, h0, 0));
    let mut r: usize = 0;
    while r < 64
        invariant
            0 <= r <= 64,
            k@ == round_k(),
            forall|j: int| 0 <= j < 64 ==> w@[j] == schedule(p, blk as int, j),
            seq![a, b, c, d, e, f, g, hh] == rounds(p, blk as int, h0, r as nat),
        decreases 64 - r,
    {
        let bs1 = rotr_exec(e, 6) ^ rotr_exec(e, 11) ^ rotr_exec(e, 25);
        let chv = (e & f) ^ (!e & g);
        let t1 = hh.wrapping_add(bs1).wrapping_add(chv).wrapping_add(k[r]).wrapping_add(w[r]);
        let bs0 = rotr_exec(a, 2) ^ rotr_exec(a, 13) ^ rotr_exec(a, 22);
        let mj = (a & b) ^ (a & c) ^ (b & c);
        let t2 = bs0.wrapping_add(mj);
        proof {
            let s = rounds(p, blk as int, h0, r as nat);
            assert(s[0] == a && s[1] == b && s[2] == c && s[3] == d);
            assert(s[4] == e && s[5] == f && s[6] == g && s[7] == hh);
        }
        hh = g;
        g = f;
        f = e;
        e = d.wrapping_add(t1);
        d = c;
        c = b;
        b = a;
        a = t1.wrapping_add(t2);
        r += 1;
        proof {
            assert(seq![a, b, c, d, e, f, g, hh] =~= rounds(p, blk as int, h0, r as nat));
        }
    }
    let ghost s = rounds(p, blk as int, h0, 64);
    h[0] = h[0].wrapping_add(a);
    h[1] = h[1].wrapping_add(b);
    h[2] = h[2].wrapping_add(c);
    h[3] = h[3].wrapping_add(d);
    h[4] = h[4].wrapping_add(e);
    h[5] = h[5].wrapping_add(f);
    h[6] = h[6].wrapping_add(g);
    h[7] = h[7].wrapping_add(hh);
    assert(h@ =~= block_hash(p, blk as int, h0));
}

/// The SHA-256 digest of `data`.
pub fn sha256(data: &[u8]) -> (digest: [u8; 32])
    requires
        data@.len() < SHA256_MAX_LEN,
    ensures
        digest@ == sha256_spec(data@),
{
    let ghost p = padded(data@);
    proof {
        lemma_padded_len(data@.len());
    }
    let l = data.len() as u64;
    let z: u64 = (119 - (l % 64)) % 64;
    let nblocks = (l + 1 + z + 8) / 64;
    assert(nblocks == p.len() / 64);
    let k = round_k_table();
    let mut h: [u32; 8] = [0x6a09e667u32, 0xbb67ae85, 0x3c6ef372, 0xa54ff53a, 0x510e527f, 0x9b05688c, 0x1f83d9ab, 0x5be0cd19];
    assert(h@ =~= initial_hash());
    let mut blk: u64 = 0;
    while blk < nblocks
        invariant
            data@.len() < SHA256_MAX_LEN,
            p == padded(data@),
            nblocks == p.len() / 64,
            p.len() % 64 == 0,
            k@ == round_k(),
            0 <= blk <= nblocks,
            h@ == hash_blocks(p, blk as nat),
        decreases nblocks - blk,
    {
        process_block(data, blk, &mut h, &k);
        blk += 1;
    }
    let mut out = [0u8; 32];
    let mut i: usize = 0;
    while i < 32
        invariant
            0 <= i <= 32,
            h@ == hash_blocks(p, p.len() / 64),
            forall|j: int| 0 <= j < i ==> out@[j] == (h@[j / 4] >> ((24 - 8 * (j % 4)) as u32)) as u8,
        decreases 32 - i,
    {
        out[i] = (h[i / 4] >> ((24 - 8 * (i % 4)) as u32)) as u8;
        i += 1;
    }
    assert(out@ =~= sha256_spec(data@));
    out
}

/// The number that the bytes of `s` spell big-endian.
pub open spec fn be_value(s: Seq<u8>) -> int
    decreases s.len(),
{
    if s.len() == 0 {
        0
    } else {
        be_value(s.drop_last()) * 256 + s.last() as int
    }
}

/// The padding is that of FIPS 180-4: the message itself, one `0x80`
/// byte, the fewest zero bytes that make the whole a multiple of 64 bytes
/// long, then the message's length in bits as a big-endian 64-bit number.
pub proof fn law_sha256_padding(m: Seq<u8>)
    requires
        m.len() < SHA256_MAX_LEN,
    ensures
        ({
            let p = padded(m);
            let l = m.len() as int;
            &&& p.len() % 64 == 0
            &&& l + 9 <= p.len() < l + 73
            &&& p.take(l) == m
            &&& p[l] == 0x80u8
            &&& forall|i: int| l < i < p.len() - 8 ==> #[trigger] p[i] == 0u8
            &&& be_value(p.subrange(p.len() - 8, p.len() as int)) == 8 * l
        }),
{
    let p = padded(m);
    let l = m.len() as int;
    let pl = p.len() as int;
    lemma_padded_len(m.len());
    assert(p.take(l) =~= m);
    let x = bit_len(m.len());
    assert(x == 8 * l);
    let t = p.subrange(pl - 8, pl);
    assert forall|j: int| 0 <= j < 8 implies #[trigger] t[j] == ((x >> ((8 * (7 - j)) as u64)) & 0xff) as u8 by {
        assert(t[j] == padded_byte(m, pl - 8 + j));
    }
    reveal_with_fuel(be_value, 9);
    let b0 = ((x >> 56u64) & 0xff) as u8;
    let b1 = ((x >> 48u64) & 0xff) as u8;
    let b2 = ((x >> 40u64) & 0xff) as u8;
    let b3 = ((x >> 32u64) & 0xff) as u8;
    let b4 = ((x >> 24u64) & 0xff) as u8;
    let b5 = ((x >> 16u64) & 0xff) as u8;
    let b6 = ((x >> 8u64) & 0xff) as u8;
    let b7 = ((x >> 0u64) & 0xff) as u8;
    assert(t[0] == b0 && t[1] == b1 && t[2] == b2 && t[3] == b3);
    assert(t[4] == b4 && t[5] == b5 && t[6] == b6 && t[7] == b7);
    assert(t.drop_last() =~= seq![b0, b1, b2, b3, b4, b5, b6]);
    assert(t.drop_last().drop_last() =~= seq![b0, b1, b2, b3, b4, b5]);
    assert(t.drop_last().drop_last().drop_last() =~= seq![b0, b1, b2, b3, b4]);
    assert(t.drop_last().drop_last().drop_last().drop_last() =~= seq![b0, b1, b2, b3]);
    assert(seq![b0, b1, b2, b3].drop_last() =~= seq![b0, b1, b2]);
    assert(seq![b0, b1, b2].drop_last() =~= seq![b0, b1]);
    assert(seq![b0, b1].drop_last() =~= seq![b0]);
    assert(seq![b0].drop_last() =~= Seq::<u8>::empty());
    assert(be_value(t) == (((((((b0 as int) * 256 + b1 as int) * 256 + b2 as int) * 256 + b3 as int) * 256
        + b4 as int) * 256 + b5 as int) * 256 + b6 as int) * 256 + b7 as int);
    assert((((((((((x >> 56u64) & 0xff) as u8 as int) * 256 + ((x >> 48u64) & 0xff) as u8 as int) * 256
        + ((x >> 40u64) & 0xff) as u8 as int) * 256 + ((x >> 32u64) & 0xff) as u8 as int) * 256
        + ((x >> 24u64) & 0xff) as u8 as int) * 256 + ((x >> 16u64) & 0xff) as u8 as int) * 256
        + ((x >> 8u64) & 0xff) as u8 as int) * 256 + ((x >> 0u64) & 0xff) as u8 as int == x) by (bit_vector);
}

} // verus!
