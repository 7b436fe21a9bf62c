//! Block compression.
//!
//! Every compressed stream starts with the length of the uncompressed data
//! (its low 32 bits, little-endian). RLE follows it with (byte, count) pairs
//! of runs of at most 255 equal bytes; ZLE with the data in which each run
//! of at most 255 zero bytes is written as a zero and the run length; LZ4
//! with LZ4-style sequences. A compressor gives `None` when its output would
//! not be shorter than its input.
use crate::bytes_util::{append_bytes, slice_range};
use crate::nestfs::bp::{le_u32_at, read_le_u32, NestCompType};
use vstd::prelude::*;
use vstd::bytes::{
    lemma_auto_spec_u32_to_from_le_bytes, spec_u32_from_le_bytes, spec_u32_to_le_bytes,
    u32_from_le_bytes, u32_to_le_bytes,
};

verus! {

/// Inputs shorter than this are not compressed.
pub const HV_COMP_MIN_SIZE: usize = 64;

/// The stream header for `n` bytes of data.
pub open spec fn len_header(n: nat) -> Seq<u8> {
    spec_u32_to_le_bytes((n % 0x1_0000_0000) as u32)
}

/// The data length a stream header records.
pub open spec fn header_len(c: Seq<u8>) -> nat {
    spec_u32_from_le_bytes(c.take(4)) as nat
}

/// `c` copies of the byte `b`.
pub open spec fn repeat(b: u8, c: nat) -> Seq<u8> {
    Seq::new(c, |k: int| b)
}

/// Length of the run of bytes equal to `data[i]` that starts at `i`, counted
/// on from `c` and capped at 255.
pub open spec fn run_count(data: Seq<u8>, i: int, c: int) -> int
    decreases 255 - c,
{
    if c < 255 && i + c < data.len() && data[i + c] == data[i] {
        run_count(data, i, c + 1)
    } else {
        c
    }
}

/// The facts about a run: it stays within the data, holds equal bytes and
/// ends at a different byte, at the end of the data or at 255 bytes.
pub proof fn lemma_run_count(data: Seq<u8>, i: int, c: int)
    requires
        0 <= i,
        1 <= c <= 255,
        i + c <= data.len(),
        forall|j: int| i <= j < i + c ==> data[j] == data[i],
    ensures
        c <= run_count(data, i, c) <= 255,
        i + run_count(data, i, c) <= data.len(),
        forall|j: int| i <= j < i + run_count(data, i, c) ==> data[j] == data[i],
        run_count(data, i, c) < 255 && i + run_count(data, i, c) < data.len()
            ==> data[i + run_count(data, i, c)] != data[i],
    decreases 255 - c,
{
    if c < 255 && i + c < data.len() && data[i + c] == data[i] {
        lemma_run_count(data, i, c + 1);
    }
}

/// The (byte, count) pairs of the runs of `data` from `i` on.
pub open spec fn rle_body(data: Seq<u8>, i: int) -> Seq<u8>
    decreases data.len() - i,
{
    if i < 0 || i >= data.len() {
        Seq::empty()
    } else {
        let c = run_count(data, i, 1);
        proof {
            lemma_run_count(data, i, 1);
        }
        seq![data[i], c as u8] + rle_body(data, i + c)
    }
}

/// What RLE compression of `data` gives.
pub open spec fn rle_compressed(data: Seq<u8>) -> Option<Seq<u8>> {
    let out = len_header(data.len()) + rle_body(data, 0);
    if data.len() == 0 || out.len() >= data.len() {
        None
    } else {
        Some(out)
    }
}

/// RLE decoding of `c` from `ip` on, after `out` was produced, until `n`
/// bytes are out or fewer than two bytes are left.
pub open spec fn rle_decode(c: Seq<u8>, ip: int, out: Seq<u8>, n: nat) -> Seq<u8>
    decreases c.len() - ip,
{
    if 0 <= ip && ip + 1 < c.len() && out.len() < n {
        rle_decode(c, ip + 2, out + repeat(c[ip], c[ip + 1] as nat), n)
    } else {
        out
    }
}

/// What RLE decompression of `c` gives.
pub open spec fn rle_decompressed(c: Seq<u8>) -> Option<Seq<u8>> {
    if c.len() < 4 {
        None
    } else {
        Some(rle_decode(c, 4, Seq::empty(), header_len(c)))
    }
}

/// The header of `n` bytes.
fn len_header_bytes(n: usize) -> (b: Vec<u8>)
    ensures
        b@ == len_header(n as nat),
{
    let v = (n as u64 % 0x1_0000_0000) as u32;
    let mut b: Vec<u8> = Vec::new();
    append_bytes(&mut b, u32_to_le_bytes(v).as_slice());
    b
}

/// The data length recorded in the header of `c`.
fn read_header_len(c: &[u8]) -> (n: usize)
    requires
        c@.len() >= 4,
    ensures
        n == header_len(c@),
{
    u32_from_le_bytes(slice_range(c, 0, 4)) as usize
}

/// RLE compression.
pub fn compress_rle(data: &[u8]) -> (r: Option<Vec<u8>>)
    ensures
        r is Some <==> rle_compressed(data@) is Some,
        r matches Some(v) ==> rle_compressed(data@) == Some(v@),
{
    if data.len() == 0 {
        return None;
    }
    let _n = data.len();
    let mut out = len_header_bytes(data.len());
    let ghost header = out@;
    proof {
        lemma_auto_spec_u32_to_from_le_bytes();
    }
    let mut i: usize = 0;
    while i < data.len()
        invariant
            0 <= i <= data@.len(),
            data@.len() <= usize::MAX,
            header + rle_body(data@, 0) == out@ + rle_body(data@, i as int),
        decreases data@.len() - i,
    {
        let byte = data[i];
        let mut count: usize = 1;
        while count < data.len() - i && data[i + count] == byte && count < 255
            invariant
                0 <= i < data@.len(),
                byte == data@[i as int],
                1 <= count <= 255,
                i + count <= data@.len(),
                run_count(data@, i as int, 1) == run_count(data@, i as int, count as int),
            decreases 255 - count,
        {
            count += 1;
        }
        proof {
            lemma_run_count(data@, i as int, 1);
        }
        out.push(byte);
        out.push(count as u8);
        proof {
            assert(seq![data@[i as int], count as u8] + rle_body(data@, i + count) == rle_body(data@, i as int));
            assert(out@ + rle_body(data@, i + count) =~= out@.drop_last().drop_last() + rle_body(data@, i as int));
        }
        i = i + count;
    }
    if out.len() >= data.len() {
        None
    } else {
        Some(out)
    }
}

/// RLE decompression: `None` for fewer than 4 bytes; otherwise the pairs
/// are expanded until the recorded length is reached or the pairs run out
/// (the last pair is expanded whole).
pub fn decompress_rle(compressed: &[u8], _expected_size: usize) -> (r: Option<Vec<u8>>)
    ensures
        r is Some <==> rle_decompressed(compressed@) is Some,
        r matches Some(v) ==> rle_decompressed(compressed@) == Some(v@),
{
    if compressed.len() < 4 {
        return None;
    }
    let _n = compressed.len();
    let src_len = read_header_len(compressed);
    let mut output: Vec<u8> = Vec::new();
    let mut ip: usize = 4;
    while compressed.len() - ip > 1 && output.len() < src_len
        invariant
            4 <= ip <= compressed@.len(),
            compressed@.len() <= usize::MAX,
            src_len == header_len(compressed@),
            rle_decode(compressed@, 4, Seq::empty(), src_len as nat) == rle_decode(
                compressed@,
                ip as int,
                output@,
                src_len as nat,
            ),
        decreases compressed@.len() - ip,
    {
        let byte = compressed[ip];
        let count = compressed[ip + 1] as usize;
        let ghost before = output@;
        let mut k: usize = 0;
        while k < count
            invariant
                0 <= k <= count,
                output@ == before + repeat(byte, k as nat),
            decreases count - k,
        {
            output.push(byte);
            proof {
                assert(before + repeat(byte, (k + 1) as nat) =~= (before + repeat(byte, k as nat)).push(byte));
            }
            k += 1;
        }
        ip += 2;
    }
    Some(output)
}

/// Decoding the RLE pairs of the data from `i` on, after the first `i`
/// bytes, gives the data back.
proof fn lemma_rle_decode_suffix(data: Seq<u8>, i: int, pre: Seq<u8>)
    requires
        0 <= i <= data.len(),
    ensures
        rle_decode(pre + rle_body(data, i), pre.len() as int, data.take(i), data.len()) == data,
    decreases data.len() - i,
{
    let c = pre + rle_body(data, i);
    if i == data.len() {
        assert(rle_body(data, i) =~= Seq::<u8>::empty());
        assert(data.take(i) =~= data);
    } else {
        let k = run_count(data, i, 1);
        lemma_run_count(data, i, 1);
        let pre2 = pre + seq![data[i], k as u8];
        assert(c =~= pre2 + rle_body(data, i + k));
        assert(c[pre.len() as int] == data[i]);
        assert(c[pre.len() as int + 1] == k as u8);
        assert(data.take(i) + repeat(data[i], k as nat) =~= data.take(i + k));
        lemma_rle_decode_suffix(data, i + k, pre2);
    }
}

/// RLE compression is undone by RLE decompression.
pub proof fn lemma_rle_roundtrip(data: Seq<u8>)
    requires
        data.len() < 0x1_0000_0000,
        rle_compressed(data) is Some,
    ensures
        rle_decompressed(rle_compressed(data).unwrap()) == Some(data),
{
    lemma_auto_spec_u32_to_from_le_bytes();
    let h = len_header(data.len());
    let c = h + rle_body(data, 0);
    assert(c.take(4) =~= h);
    assert(header_len(c) == data.len());
    assert(data.take(0) =~= Seq::<u8>::empty());
    lemma_rle_decode_suffix(data, 0, h);
}

/// The ZLE body of `data` from `i` on: each run of zero bytes (at most 255)
/// as a zero and the run length, every other byte as itself.
pub open spec fn zle_body(data: Seq<u8>, i: int) -> Seq<u8>
    decreases data.len() - i,
{
    if i < 0 || i >= data.len() {
        Seq::empty()
    } else if data[i] == 0 {
        let c = run_count(data, i, 1);
        proof {
            lemma_run_count(data, i, 1);
        }
        seq![0u8, c as u8] + zle_body(data, i + c)
    } else {
        seq![data[i]] + zle_body(data, i + 1)
    }
}

/// What ZLE compression of `data` gives.
pub open spec fn zle_compressed(data: Seq<u8>) -> Option<Seq<u8>> {
    let out = len_header(data.len()) + zle_body(data, 0);
    if out.len() >= data.len() {
        None
    } else {
        Some(out)
    }
}

/// ZLE decoding of `c` from `ip` on, after `out` was produced, until `n`
/// bytes are out or the input ends.
pub open spec fn zle_decode(c: Seq<u8>, ip: int, out: Seq<u8>, n: nat) -> Seq<u8>
    decreases c.len() - ip,
{
    if 0 <= ip < c.len() && out.len() < n {
        if c[ip] == 0 && ip + 1 < c.len() {
            zle_decode(c, ip + 2, out + repeat(0u8, c[ip + 1] as nat), n)
        } else {
            zle_decode(c, ip + 1, out.push(c[ip]), n)
        }
    } else {
        out
    }
}

/// What ZLE decompression of `c` gives.
pub open spec fn zle_decompressed(c: Seq<u8>) -> Option<Seq<u8>> {
    if c.len() < 4 {
        None
    } else {
        Some(zle_decode(c, 4, Seq::empty(), header_len(c)))
    }
}

/// ZLE compression.
pub fn compress_zle(data: &[u8]) -> (r: Option<Vec<u8>>)
    ensures
        r is Some <==> zle_compressed(data@) is Some,
        r matches Some(v) ==> zle_compressed(data@) == Some(v@),
{
    let _n = data.len();
    let mut out = len_header_bytes(data.len());
    let ghost header = out@;
    proof {
        lemma_auto_spec_u32_to_from_le_bytes();
    }
    let mut i: usize = 0;
    while i < data.len()
        invariant
            0 <= i <= data@.len(),
            data@.len() <= usize::MAX,
            header + zle_body(data@, 0) == out@ + zle_body(data@, i as int),
        decreases data@.len() - i,
    {
        if data[i] == 0 {
            let mut count: usize = 0;
            while count < data.len() - i && data[i + count] == 0 && count < 255
                invariant
                    0 <= i < data@.len(),
                    data@.len() <= usize::MAX,
                    data@[i as int] == 0,
                    count <= 255,
                    i + count <= data@.len(),
                    count >= 1 ==> run_count(data@, i as int, 1) == run_count(data@, i as int, count as int),
                decreases 255 - count,
            {
                count += 1;
            }
            proof {
                lemma_run_count(data@, i as int, 1);
            }
            out.push(0u8);
            out.push(count as u8);
            proof {
                assert(seq![0u8, count as u8] + zle_body(data@, i + count) == zle_body(data@, i as int));
                assert(out@ + zle_body(data@, i + count) =~= out@.drop_last().drop_last() + zle_body(
                    data@,
                    i as int,
                ));
            }
            i = i + count;
        } else {
            out.push(data[i]);
            proof {
                assert(seq![data@[i as int]] + zle_body(data@, i + 1) == zle_body(data@, i as int));
                assert(out@ + zle_body(data@, i + 1) =~= out@.drop_last() + zle_body(data@, i as int));
            }
            i = i + 1;
        }
    }
    if out.len() >= data.len() {
        None
    } else {
        Some(out)
    }
}

/// ZLE decompression: `None` for fewer than 4 bytes; otherwise the stream
/// is expanded until the recorded length is reached or the input ends.
pub fn decompress_zle(compressed: &[u8], _expected_size: usize) -> (r: Option<Vec<u8>>)
    ensures
        r is Some <==> zle_decompressed(compressed@) is Some,
        r matches Some(v) ==> zle_decompressed(compressed@) == Some(v@),
{
    if compressed.len() < 4 {
        return None;
    }
    let _n = compressed.len();
    let src_len = read_header_len(compressed);
    let mut output: Vec<u8> = Vec::new();
    let mut ip: usize = 4;
    while ip < compressed.len() && output.len() < src_len
        invariant
            4 <= ip <= compressed@.len(),
            compressed@.len() <= usize::MAX,
            src_len == header_len(compressed@),
            zle_decode(compressed@, 4, Seq::empty(), src_len as nat) == zle_decode(
                compressed@,
                ip as int,
                output@,
                src_len as nat,
            ),
        decreases compressed@.len() - ip,
    {
        if compressed[ip] == 0 && compressed.len() - ip > 1 {
            let count = compressed[ip + 1] as usize;
            let ghost before = output@;
            let mut k: usize = 0;
            while k < count
                invariant
                    0 <= k <= count,
                    output@ == before + repeat(0u8, k as nat),
                decreases count - k,
            {
                output.push(0u8);
                proof {
                    assert(before + repeat(0u8, (k + 1) as nat) =~= (before + repeat(0u8, k as nat)).push(0u8));
                }
                k += 1;
            }
            ip += 2;
        } else {
            output.push(compressed[ip]);
            ip += 1;
        }
    }
    Some(output)
}

/// Decoding the ZLE body of the data from `i` on, after the first `i` bytes,
/// gives the data back.
proof fn lemma_zle_decode_suffix(data: Seq<u8>, i: int, pre: Seq<u8>)
    requires
        0 <= i <= data.len(),
    ensures
        zle_decode(pre + zle_body(data, i), pre.len() as int, data.take(i), data.len()) == data,
    decreases data.len() - i,
{
    let c = pre + zle_body(data, i);
    if i == data.len() {
        assert(zle_body(data, i) =~= Seq::<u8>::empty());
        assert(data.take(i) =~= data);
    } else if data[i] == 0 {
        let k = run_count(data, i, 1);
        lemma_run_count(data, i, 1);
        let pre2 = pre + seq![0u8, k as u8];
        assert(c =~= pre2 + zle_body(data, i + k));
        assert(c[pre.len() as int] == 0);
        assert(c[pre.len() as int + 1] == k as u8);
        assert(data.take(i) + repeat(0u8, k as nat) =~= data.take(i + k));
        lemma_zle_decode_suffix(data, i + k, pre2);
    } else {
        let pre2 = pre + seq![data[i]];
        assert(c =~= pre2 + zle_body(data, i + 1));
        assert(c[pre.len() as int] == data[i]);
        assert(data.take(i).push(data[i]) =~= data.take(i + 1));
        lemma_zle_decode_suffix(data, i + 1, pre2);
    }
}

/// ZLE compression is undone by ZLE decompression.
pub proof fn lemma_zle_roundtrip(data: Seq<u8>)
    requires
        data.len() < 0x1_0000_0000,
        zle_compressed(data) is Some,
    ensures
        zle_decompressed(zle_compressed(data).unwrap()) == Some(data),
{
    lemma_auto_spec_u32_to_from_le_bytes();
    let h = len_header(data.len());
    let c = h + zle_body(data, 0);
    assert(c.take(4) =~= h);
    assert(header_len(c) == data.len());
    assert(data.take(0) =~= Seq::<u8>::empty());
    lemma_zle_decode_suffix(data, 0, h);
}

// ---------------------------------------------------------------------------
// LZ4
// ---------------------------------------------------------------------------

/// Length-extension bytes for `rem`: 255 while at least 255 is left, then
/// the rest.
pub open spec fn ext_bytes(rem: nat) -> Seq<u8>
    decreases rem,
{
    if rem >= 255 {
        seq![255u8] + ext_bytes((rem - 255) as nat)
    } else {
        seq![rem as u8]
    }
}

/// The 4-bit field for a length: the length, or 15 when it is 15 or more.
pub open spec fn nibble(v: nat) -> nat {
    if v >= 15 { 15 } else { v }
}

/// The extension bytes that follow a 4-bit length field.
pub open spec fn len_ext(v: nat) -> Seq<u8> {
    if v >= 15 { ext_bytes((v - 15) as nat) } else { Seq::empty() }
}

/// A sequence: the literals `lits`, then a copy of `ml` bytes from `dist`
/// bytes back (the distance stored in 16 bits).
pub open spec fn match_seq(lits: Seq<u8>, dist: nat, ml: nat) -> Seq<u8> {
    let m = (ml - 4) as nat;
    seq![(nibble(lits.len()) + 16 * nibble(m)) as u8] + len_ext(lits.len()) + lits
        + seq![(dist % 256) as u8, ((dist / 256) % 256) as u8] + len_ext(m)
}

/// The closing sequence: literals only.
pub open spec fn last_seq(lits: Seq<u8>) -> Seq<u8> {
    seq![nibble(lits.len()) as u8] + len_ext(lits.len()) + lits
}

/// Where the match search for position `ip` starts: 64 KiB back, or 0.
pub open spec fn search_start(ip: int) -> int {
    if ip >= 65536 { ip - 65536 } else { 0 }
}

/// The first of the positions `s, s + 4, s + 8, ...` before `ip` whose four
/// bytes equal the four at `ip`.
pub open spec fn lz4_find(data: Seq<u8>, ip: int, s: int) -> Option<int>
    decreases ip - s,
{
    if s >= ip || s < 0 {
        None
    } else if data.subrange(s, s + 4) == data.subrange(ip, ip + 4) {
        Some(s)
    } else if s + 4 >= ip {
        None
    } else {
        lz4_find(data, ip, s + 4)
    }
}

/// How far the match of `ip` against `r` extends from `len` on, without
/// running past the data or into `ip`.
pub open spec fn match_ext(data: Seq<u8>, ip: int, r: int, len: int) -> int
    decreases data.len() - ip - len,
{
    if ip + len < data.len() && r + len < ip && data[r + len] == data[ip + len] {
        match_ext(data, ip, r, len + 1)
    } else {
        len
    }
}

/// The facts about a match extension.
pub proof fn lemma_match_ext(data: Seq<u8>, ip: int, r: int, len: int)
    requires
        0 <= r < ip,
        0 <= len,
        ip + len <= data.len(),
        data.subrange(r, r + len) == data.subrange(ip, ip + len),
    ensures
        len <= match_ext(data, ip, r, len),
        ip + match_ext(data, ip, r, len) <= data.len(),
        data.subrange(r, r + match_ext(data, ip, r, len)) == data.subrange(ip, ip + match_ext(data, ip, r, len)),
    decreases data.len() - ip - len,
{
    if ip + len < data.len() && r + len < ip && data[r + len] == data[ip + len] {
        assert(data.subrange(r, r + len + 1) =~= data.subrange(r, r + len).push(data[r + len]));
        assert(data.subrange(ip, ip + len + 1) =~= data.subrange(ip, ip + len).push(data[ip + len]));
        lemma_match_ext(data, ip, r, len + 1);
    }
}

/// The facts about a match search.
pub proof fn lemma_lz4_find(data: Seq<u8>, ip: int, s: int)
    requires
        ip + 4 <= data.len(),
    ensures
        lz4_find(data, ip, s) matches Some(r) ==> s <= r < ip && 0 <= r
            && data.subrange(r, r + 4) == data.subrange(ip, ip + 4),
    decreases ip - s,
{
    if !(s >= ip || s < 0) && data.subrange(s, s + 4) != data.subrange(ip, ip + 4) && s + 4 < ip {
        lemma_lz4_find(data, ip, s + 4);
    }
}

/// The LZ4 sequences of `data` from `ip` on, the literals pending from
/// `anchor`.
pub open spec fn lz4_body(data: Seq<u8>, ip: int, anchor: int) -> Seq<u8>
    decreases data.len() - ip,
{
    if ip < 0 || ip >= data.len() {
        if 0 <= anchor < data.len() {
            last_seq(data.subrange(anchor, data.len() as int))
        } else {
            Seq::empty()
        }
    } else if ip + 4 <= data.len() && lz4_find(data, ip, search_start(ip)) is Some {
        let r = lz4_find(data, ip, search_start(ip)).unwrap();
        proof {
            lemma_lz4_find(data, ip, search_start(ip));
            lemma_match_ext(data, ip, r, 4);
        }
        let ml = match_ext(data, ip, r, 4);
        match_seq(data.subrange(anchor, ip), (ip - r) as nat, ml as nat) + lz4_body(data, ip + ml, ip + ml)
    } else {
        lz4_body(data, ip + 1, anchor)
    }
}

/// What LZ4 compression of `data` gives.
pub open spec fn lz4_compressed(data: Seq<u8>) -> Option<Seq<u8>> {
    let out = len_header(data.len()) + lz4_body(data, 0, 0);
    if out.len() >= data.len() {
        None
    } else {
        Some(out)
    }
}

/// A length read from extension bytes starting at `ip`, added to `acc`, and
/// where reading stopped.
pub open spec fn ext_len(c: Seq<u8>, ip: int, acc: int) -> (int, int)
    decreases c.len() - ip,
{
    if 0 <= ip < c.len() {
        if c[ip] != 255 {
            (acc + c[ip], ip + 1)
        } else {
            ext_len(c, ip + 1, acc + 255)
        }
    } else {
        (acc, ip)
    }
}

/// The facts about reading extension bytes.
pub proof fn lemma_ext_len(c: Seq<u8>, ip: int, acc: int)
    requires
        0 <= ip,
    ensures
        ip <= ext_len(c, ip, acc).1,
        ext_len(c, ip, acc).1 <= if ip < c.len() { c.len() as int } else { ip },
        acc <= ext_len(c, ip, acc).0 <= acc + 255 * (ext_len(c, ip, acc).1 - ip),
    decreases c.len() - ip,
{
    if 0 <= ip < c.len() && c[ip] == 255 {
        lemma_ext_len(c, ip + 1, acc + 255);
    }
}

/// A match copy: `k` more bytes taken one by one from position `p` on of
/// the growing output (a position past its end copies nothing).
pub open spec fn copy_step(out: Seq<u8>, p: int, k: nat) -> Seq<u8>
    decreases k,
{
    if k == 0 {
        out
    } else if 0 <= p < out.len() {
        copy_step(out.push(out[p]), p + 1, (k - 1) as nat)
    } else {
        copy_step(out, p + 1, (k - 1) as nat)
    }
}

/// A copy that starts past the end of the output copies nothing.
pub proof fn lemma_copy_step_past_end(out: Seq<u8>, p: int, k: nat)
    requires
        p >= out.len(),
    ensures
        copy_step(out, p, k) == out,
    decreases k,
{
    if k > 0 {
        lemma_copy_step_past_end(out, p + 1, (k - 1) as nat);
    }
}

/// LZ4 decoding of `c` from `ip` on, after `out` was produced, until `n`
/// bytes are out or the input ends or is malformed.
pub open spec fn lz4_decode(c: Seq<u8>, ip: int, out: Seq<u8>, n: nat) -> Seq<u8>
    decreases c.len() - ip,
{
    if !(0 <= ip < c.len() && out.len() < n) {
        out
    } else {
        let tok = c[ip];
        let le = if tok % 16 == 15 { ext_len(c, ip + 1, 15) } else { ((tok % 16) as int, ip + 1) };
        proof {
            lemma_ext_len(c, ip + 1, 15);
        }
        let lit = le.0;
        let ip2 = le.1;
        if ip2 + lit > c.len() {
            out
        } else {
            let out2 = out + c.subrange(ip2, ip2 + lit);
            let ip3 = ip2 + lit;
            if ip3 + 2 > c.len() {
                out2
            } else {
                let offset = c[ip3] + 256 * c[ip3 + 1];
                if offset == 0 {
                    out2
                } else {
                    let me = if tok / 16 == 15 { ext_len(c, ip3 + 2, 19) } else { ((tok / 16) + 4, ip3 + 2) };
                    proof {
                        lemma_ext_len(c, ip3 + 2, 19);
                    }
                    let start = if out2.len() >= offset { out2.len() - offset } else { 0 };
                    lz4_decode(c, me.1, copy_step(out2, start, me.0 as nat), n)
                }
            }
        }
    }
}

/// What LZ4 decompression of `c` gives.
pub open spec fn lz4_decompressed(c: Seq<u8>) -> Option<Seq<u8>> {
    if c.len() < 4 {
        None
    } else {
        Some(lz4_decode(c, 4, Seq::empty(), header_len(c)))
    }
}

/// Appends the extension bytes of `rem`.
fn push_ext(out: &mut Vec<u8>, rem: usize)
    ensures
        final(out)@ == old(out)@ + ext_bytes(rem as nat),
{
    let mut remaining = rem;
    while remaining >= 255
        invariant
            old(out)@ + ext_bytes(rem as nat) == out@ + ext_bytes(remaining as nat),
        decreases remaining,
    {
        let ghost before = out@;
        out.push(255u8);
        proof {
            assert(before + ext_bytes(remaining as nat) =~= out@ + ext_bytes((remaining - 255) as nat));
        }
        remaining = remaining - 255;
    }
    let ghost before = out@;
    out.push(remaining as u8);
    proof {
        assert(before + ext_bytes(remaining as nat) =~= out@);
    }
}

/// Whether the four bytes at `a` equal the four at `b`.
fn eq4(data: &[u8], a: usize, b: usize) -> (r: bool)
    requires
        a + 4 <= data@.len(),
        b + 4 <= data@.len(),
    ensures
        r == (data@.subrange(a as int, a + 4) == data@.subrange(b as int, b + 4)),
{
    let r = data[a] == data[b] && data[a + 1] == data[b + 1] && data[a + 2] == data[b + 2] && data[a + 3]
        == data[b + 3];
    proof {
        let x = data@.subrange(a as int, a + 4);
        let y = data@.subrange(b as int, b + 4);
        if r {
            assert(x =~= y);
        } else {
            assert(x[0] != y[0] || x[1] != y[1] || x[2] != y[2] || x[3] != y[3]);
        }
    }
    r
}

/// Multiplicative hash of the four bytes at `pos` (little-endian), top 16
/// bits of the product kept.
fn lz4_hash(data: &[u8], pos: usize) -> (h: u32)
    requires
        pos + 4 <= data@.len(),
    ensures
        h == le_u32_at(data@, pos as int).wrapping_mul(2654435761u32) >> 16,
{
    let v = read_le_u32(data, pos);
    v.wrapping_mul(2654435761u32) >> 16
}

/// The first earlier position whose four bytes match those at `ip`, as
/// `lz4_find` from the search start.
fn find_match(data: &[u8], ip: usize) -> (r: Option<usize>)
    requires
        ip + 4 <= data@.len(),
    ensures
        r matches Some(x) ==> lz4_find(data@, ip as int, search_start(ip as int)) == Some(x as int),
        r is None ==> lz4_find(data@, ip as int, search_start(ip as int)) is None,
{
    let ss: usize = if ip >= 65536 { ip - 65536 } else { 0 };
    let mut s = ss;
    while s < ip
        invariant
            s <= ip,
            lz4_find(data@, ip as int, ss as int) == lz4_find(data@, ip as int, s as int),
            ip + 4 <= data@.len(),
            ss == search_start(ip as int),
        decreases ip - s,
    {
        if eq4(data, s, ip) {
            return Some(s);
        }
        if ip - s <= 4 {
            return None;
        }
        s = s + 4;
    }
    None
}

/// How far the match of `ip` against `rp` extends, as `match_ext` from 4.
fn extend_match(data: &[u8], ip: usize, rp: usize) -> (len: usize)
    requires
        rp < ip,
        ip + 4 <= data@.len(),
    ensures
        len == match_ext(data@, ip as int, rp as int, 4),
        4 <= len,
        ip + len <= data@.len(),
{
    let n = data.len();
    let mut len: usize = 4;
    while n - ip > len && rp + len < ip && data[rp + len] == data[ip + len]
        invariant
            n == data@.len(),
            rp < ip,
            4 <= len,
            ip + len <= n,
            match_ext(data@, ip as int, rp as int, 4) == match_ext(data@, ip as int, rp as int, len as int),
        decreases n - ip - len,
    {
        len += 1;
    }
    len
}

/// Appends the sequence of the literals `anchor..ip` and a match of `len`
/// bytes at distance `ip - rp`.
fn push_match_seq(out: &mut Vec<u8>, data: &[u8], anchor: usize, ip: usize, rp: usize, len: usize)
    requires
        anchor <= ip,
        rp < ip,
        4 <= len,
        ip <= data@.len(),
    ensures
        final(out)@ == old(out)@ + match_seq(data@.subrange(anchor as int, ip as int), (ip - rp) as nat, len as nat),
{
    let literal_len = ip - anchor;
    let lit_nib: u8 = if literal_len >= 15 { 15 } else { literal_len as u8 };
    let ml = len - 4;
    let ml_nib: u8 = if ml >= 15 { 15 } else { ml as u8 };
    out.push(lit_nib + 16 * ml_nib);
    if literal_len >= 15 {
        push_ext(out, literal_len - 15);
    }
    append_bytes(out, slice_range(data, anchor, ip));
    let dist = ip - rp;
    out.push((dist % 256) as u8);
    out.push(((dist / 256) % 256) as u8);
    if ml >= 15 {
        push_ext(out, ml - 15);
    }
    assert(out@ =~= old(out)@ + match_seq(data@.subrange(anchor as int, ip as int), dist as nat, len as nat));
}

/// Appends the closing sequence of the literals `anchor..n`.
fn push_last_seq(out: &mut Vec<u8>, data: &[u8], anchor: usize)
    requires
        anchor <= data@.len(),
    ensures
        final(out)@ == old(out)@ + last_seq(data@.subrange(anchor as int, data@.len() as int)),
{
    let n = data.len();
    let literal_len = n - anchor;
    let tok: u8 = if literal_len >= 15 { 15 } else { literal_len as u8 };
    out.push(tok);
    if literal_len >= 15 {
        push_ext(out, literal_len - 15);
    }
    append_bytes(out, slice_range(data, anchor, n));
    assert(out@ =~= old(out)@ + last_seq(data@.subrange(anchor as int, n as int)));
}

/// LZ4 compression: a greedy scan that, at each position with four bytes
/// left, looks for the first earlier position (64 KiB back at most, every
/// fourth position) holding the same four bytes, extends the match, and
/// emits the pending literals with it.
pub fn compress_lz4(data: &[u8]) -> (r: Option<Vec<u8>>)
    requires
        data@.len() + data@.len() / 255 + 16 <= usize::MAX,
    ensures
        r is Some <==> lz4_compressed(data@) is Some,
        r matches Some(v) ==> lz4_compressed(data@) == Some(v@),
{
    let n = data.len();
    let mut out = len_header_bytes(n);
    let ghost header = out@;
    let mut ip: usize = 0;
    let mut anchor: usize = 0;
    while ip < n
        invariant
            0 <= anchor <= ip <= n,
            n == data@.len(),
            n + 16 <= usize::MAX,
            header + lz4_body(data@, 0, 0) == out@ + lz4_body(data@, ip as int, anchor as int),
        decreases n - ip,
    {
        let found = if n - ip >= 4 {
            let _hash = lz4_hash(data, ip);
            find_match(data, ip)
        } else {
            None
        };
        match found {
            Some(rp) => {
                proof {
                    lemma_lz4_find(data@, ip as int, search_start(ip as int));
                }
                let len = extend_match(data, ip, rp);
                let ghost before = out@;
                push_match_seq(&mut out, data, anchor, ip, rp, len);
                proof {
                    assert(out@ + lz4_body(data@, ip + len, ip + len) =~= before + lz4_body(
                        data@,
                        ip as int,
                        anchor as int,
                    ));
                }
                ip = ip + len;
                anchor = ip;
            },
            None => {
                ip = ip + 1;
            },
        }
    }
    if anchor < n {
        push_last_seq(&mut out, data, anchor);
    }
    proof {
        assert(anchor >= n ==> lz4_body(data@, ip as int, anchor as int) =~= Seq::<u8>::empty());
    }
    if out.len() >= n {
        None
    } else {
        Some(out)
    }
}

/// Reads extension bytes from `ip` on, adding them to `acc`.
fn read_ext(c: &[u8], ip: usize, acc: usize) -> (r: (usize, usize))
    requires
        ip <= c@.len(),
        acc <= 19,
        c@.len() <= usize::MAX / 256,
    ensures
        (r.0 as int, r.1 as int) == ext_len(c@, ip as int, acc as int),
{
    let n = c.len();
    let mut i = ip;
    let mut a = acc;
    while i < n
        invariant
            ip <= i <= n,
            n == c@.len(),
            n <= usize::MAX / 256,
            a <= 19 + 255 * (i - ip),
            ext_len(c@, ip as int, acc as int) == ext_len(c@, i as int, a as int),
        decreases n - i,
    {
        let byte = c[i];
        i += 1;
        a += byte as usize;
        if byte != 255 {
            return (a, i);
        }
    }
    (a, i)
}

/// Copies `k` bytes one by one from position `p` on of the growing output.
fn copy_match(out: &mut Vec<u8>, start: usize, count: usize)
    ensures
        final(out)@ == copy_step(old(out)@, start as int, count as nat),
{
    let mut p = start;
    let mut k = count;
    while k > 0 && p < out.len()
        invariant
            copy_step(old(out)@, start as int, count as nat) == copy_step(out@, p as int, k as nat),
        decreases k,
    {
        let b = out[p];
        out.push(b);
        p += 1;
        k -= 1;
    }
    if k > 0 {
        proof {
            lemma_copy_step_past_end(out@, p as int, k as nat);
        }
    }
}

/// LZ4 decompression: `None` for fewer than 4 bytes; otherwise sequences
/// are decoded until the recorded length is reached, the input ends, or a
/// sequence is cut short or has distance 0.
pub fn decompress_lz4(compressed: &[u8], _expected_size: usize) -> (r: Option<Vec<u8>>)
    requires
        compressed@.len() <= usize::MAX / 256,
    ensures
        r is Some <==> lz4_decompressed(compressed@) is Some,
        r matches Some(v) ==> lz4_decompressed(compressed@) == Some(v@),
{
    let n = compressed.len();
    if n < 4 {
        return None;
    }
    let src_len = read_header_len(compressed);
    let mut output: Vec<u8> = Vec::new();
    let mut ip: usize = 4;
    while ip < n && output.len() < src_len
        invariant
            4 <= ip <= n,
            n == compressed@.len(),
            n <= usize::MAX / 256,
            src_len == header_len(compressed@),
            lz4_decode(compressed@, 4, Seq::empty(), src_len as nat) == lz4_decode(
                compressed@,
                ip as int,
                output@,
                src_len as nat,
            ),
        decreases n - ip,
    {
        let ghost c = compressed@;
        let ghost ip0 = ip as int;
        let ghost out0 = output@;
        let tok = compressed[ip];
        proof {
            lemma_ext_len(c, ip0 + 1, 15);
        }
        let (lit, ip2) = if tok % 16 == 15 { read_ext(compressed, ip + 1, 15) } else { ((tok % 16) as usize, ip + 1) };
        if lit > n - ip2 {
            return Some(output);
        }
        append_bytes(&mut output, slice_range(compressed, ip2, ip2 + lit));
        let ip3 = ip2 + lit;
        if n - ip3 < 2 {
            return Some(output);
        }
        let offset = compressed[ip3] as usize + 256 * (compressed[ip3 + 1] as usize);
        if offset == 0 {
            return Some(output);
        }
        proof {
            lemma_ext_len(c, ip3 + 2, 19);
        }
        let (ml, ip5) = if tok / 16 == 15 {
            read_ext(compressed, ip3 + 2, 19)
        } else {
            ((tok / 16) as usize + 4, ip3 + 2)
        };
        let start = if output.len() >= offset { output.len() - offset } else { 0 };
        copy_match(&mut output, start, ml);
        ip = ip5;
    }
    Some(output)
}

/// Every match the compressor emits from `ip` on lies less than 64 KiB
/// back (its distance fits the 16-bit field without becoming 0).
pub open spec fn lz4_dists_ok(data: Seq<u8>, ip: int) -> bool
    decreases data.len() - ip,
{
    if ip < 0 || ip >= data.len() {
        true
    } else if ip + 4 <= data.len() && lz4_find(data, ip, search_start(ip)) is Some {
        let r = lz4_find(data, ip, search_start(ip)).unwrap();
        proof {
            lemma_lz4_find(data, ip, search_start(ip));
            lemma_match_ext(data, ip, r, 4);
        }
        let ml = match_ext(data, ip, r, 4);
        ip - r < 65536 && lz4_dists_ok(data, ip + ml)
    } else {
        lz4_dists_ok(data, ip + 1)
    }
}

proof fn lemma_ext_bytes_read(pre: Seq<u8>, rem: nat, rest: Seq<u8>, acc: int)
    ensures
        ext_len(pre + ext_bytes(rem) + rest, pre.len() as int, acc) == (acc + rem, (pre.len() + ext_bytes(rem).len()) as int),
    decreases rem,
{
    let c = pre + ext_bytes(rem) + rest;
    if rem >= 255 {
        let pre2 = pre + seq![255u8];
        assert(c =~= pre2 + ext_bytes((rem - 255) as nat) + rest);
        assert(c[pre.len() as int] == 255u8);
        lemma_ext_bytes_read(pre2, (rem - 255) as nat, rest, acc + 255);
    } else {
        assert(c[pre.len() as int] == rem as u8);
    }
}

/// Reading a 4-bit length field and its extension bytes gives the length.
proof fn lemma_len_field_read(pre: Seq<u8>, v: nat, rest: Seq<u8>, base: int)
    ensures
        (if nibble(v) == 15 {
            ext_len(pre + len_ext(v) + rest, pre.len() as int, base + 15)
        } else {
            (base + nibble(v), pre.len() as int)
        }) == (base + v, (pre.len() + len_ext(v).len()) as int),
{
    if v >= 15 {
        lemma_ext_bytes_read(pre, (v - 15) as nat, rest, base + 15);
    } else {
        assert(len_ext(v) =~= Seq::<u8>::empty());
    }
}

proof fn lemma_copy_match_restores(data: Seq<u8>, ip: int, r: int, ml: int, j: int)
    requires
        0 <= r < ip,
        0 <= j <= ml,
        ip + ml <= data.len(),
        data.subrange(r, r + ml) == data.subrange(ip, ip + ml),
    ensures
        copy_step(data.take(ip + j), r + j, (ml - j) as nat) == data.take(ip + ml),
    decreases ml - j,
{
    if j < ml {
        let t = data.take(ip + j);
        assert(data.subrange(r, r + ml)[j] == data.subrange(ip, ip + ml)[j]);
        assert(data.subrange(r, r + ml)[j] == data[r + j]);
        assert(data.subrange(ip, ip + ml)[j] == data[ip + j]);
        assert(t[r + j] == data[r + j]);
        assert(t.push(t[r + j]) =~= data.take(ip + j + 1));
        lemma_copy_match_restores(data, ip, r, ml, j + 1);
    } else {
        assert(data.take(ip + j) =~= data.take(ip + ml));
    }
}

proof fn lemma_token_fields(l: nat, m: nat)
    requires
        l <= 15,
        m <= 15,
    ensures
        ((l + 16 * m) as u8) % 16 == l,
        ((l + 16 * m) as u8) / 16 == m,
{
    assert(l + 16 * m < 256);
    assert((l + 16 * m) % 16 == l && (l + 16 * m) / 16 == m) by (nonlinear_arith)
        requires
            l <= 15,
            m <= 15,
    ;
}

proof fn lemma_dist_bytes(dist: nat)
    requires
        0 < dist < 65536,
    ensures
        ((dist % 256) as u8) + 256 * (((dist / 256) % 256) as u8) == dist,
{
    assert((dist % 256) + 256 * ((dist / 256) % 256) == dist) by (nonlinear_arith)
        requires
            0 < dist < 65536,
    ;
}

/// The closing sequence decodes to the pending literals.
proof fn lemma_lz4_decode_last(data: Seq<u8>, anchor: int, pre: Seq<u8>)
    requires
        0 <= anchor < data.len(),
    ensures
        lz4_decode(pre + last_seq(data.subrange(anchor, data.len() as int)), pre.len() as int, data.take(anchor), data.len())
            == data,
{
    let n = data.len();
    let p0 = pre.len() as int;
    let lits = data.subrange(anchor, n as int);
    let lit = lits.len();
    let a = pre + seq![nibble(lit) as u8];
    let c = pre + last_seq(lits);
    assert(c =~= a + len_ext(lit) + lits);
    assert(c[p0] == nibble(lit) as u8);
    lemma_token_fields(nibble(lit), 0);
    lemma_len_field_read(a, lit, lits, 0);
    let ip2 = p0 + 1 + len_ext(lit).len();
    assert(c.subrange(ip2, ip2 + lit) =~= lits);
    assert(data.take(anchor) + lits =~= data);
}

/// A match sequence decodes to the pending literals and the match.
#[verifier::rlimit(50)]
proof fn lemma_lz4_decode_match(data: Seq<u8>, ip: int, anchor: int, r: int, ml: int, pre: Seq<u8>, rest: Seq<u8>)
    requires
        0 <= anchor <= ip,
        0 <= r < ip,
        ip - r < 65536,
        4 <= ml,
        ip + ml <= data.len(),
        data.subrange(r, r + ml) == data.subrange(ip, ip + ml),
    ensures
        ({
            let c = pre + match_seq(data.subrange(anchor, ip), (ip - r) as nat, ml as nat) + rest;
            lz4_decode(c, pre.len() as int, data.take(anchor), data.len()) == lz4_decode(
                c,
                (pre.len() + match_seq(data.subrange(anchor, ip), (ip - r) as nat, ml as nat).len()) as int,
                data.take(ip + ml),
                data.len(),
            )
        }),
{
    let n = data.len();
    let p0 = pre.len() as int;
    let dist = (ip - r) as nat;
    let lits = data.subrange(anchor, ip);
    let lit = lits.len();
    let m = (ml - 4) as nat;
    let tok = (nibble(lit) + 16 * nibble(m)) as u8;
    let ms = match_seq(lits, dist, ml as nat);
    let c = pre + ms + rest;
    let a = pre + seq![tok];
    let db = seq![(dist % 256) as u8, ((dist / 256) % 256) as u8];
    let tail = lits + db + len_ext(m) + rest;
    assert(c =~= a + len_ext(lit) + tail);
    assert(c[p0] == tok);
    lemma_token_fields(nibble(lit), nibble(m));
    lemma_len_field_read(a, lit, tail, 0);
    let ip2 = p0 + 1 + len_ext(lit).len();
    assert(c.subrange(ip2, ip2 + lit) =~= lits);
    let out2 = data.take(anchor) + lits;
    assert(out2 =~= data.take(ip));
    let ip3 = ip2 + lit;
    let b = a + len_ext(lit) + lits + db;
    assert(c =~= b + len_ext(m) + rest);
    assert(b.len() == ip3 + 2);
    assert(c[ip3] == (dist % 256) as u8);
    assert(c[ip3 + 1] == ((dist / 256) % 256) as u8);
    lemma_dist_bytes(dist);
    lemma_len_field_read(b, m, rest, 4);
    assert((pre + ms).len() == b.len() + len_ext(m).len());
    lemma_copy_match_restores(data, ip, r, ml, 0);
    assert(data.take(ip + 0) =~= data.take(ip));
}

proof fn lemma_lz4_decode_suffix(data: Seq<u8>, ip: int, anchor: int, pre: Seq<u8>)
    requires
        0 <= anchor <= ip <= data.len(),
        lz4_dists_ok(data, ip),
    ensures
        lz4_decode(pre + lz4_body(data, ip, anchor), pre.len() as int, data.take(anchor), data.len()) == data,
    decreases data.len() - ip,
{
    let n = data.len();
    if ip >= n {
        if anchor < n {
            lemma_lz4_decode_last(data, anchor, pre);
        } else {
            assert(pre + lz4_body(data, ip, anchor) =~= pre);
            assert(data.take(anchor) =~= data);
        }
    } else if ip + 4 <= n && lz4_find(data, ip, search_start(ip)) is Some {
        let r = lz4_find(data, ip, search_start(ip)).unwrap();
        lemma_lz4_find(data, ip, search_start(ip));
        lemma_match_ext(data, ip, r, 4);
        let ml = match_ext(data, ip, r, 4);
        let ms = match_seq(data.subrange(anchor, ip), (ip - r) as nat, ml as nat);
        let rest = lz4_body(data, ip + ml, ip + ml);
        assert(pre + lz4_body(data, ip, anchor) =~= pre + ms + rest);
        assert(pre + ms + rest =~= (pre + ms) + rest);
        lemma_lz4_decode_match(data, ip, anchor, r, ml, pre, rest);
        lemma_lz4_decode_suffix(data, ip + ml, ip + ml, pre + ms);
    } else {
        lemma_lz4_decode_suffix(data, ip + 1, anchor, pre);
    }
}

/// LZ4 compression is undone by LZ4 decompression, for data shorter than
/// 4 GiB whose matches all lie less than 64 KiB back.
pub proof fn lemma_lz4_roundtrip(data: Seq<u8>)
    requires
        data.len() < 0x1_0000_0000,
        lz4_dists_ok(data, 0),
        lz4_compressed(data) is Some,
    ensures
        lz4_decompressed(lz4_compressed(data).unwrap()) == Some(data),
{
    lemma_auto_spec_u32_to_from_le_bytes();
    let h = len_header(data.len());
    let c = h + lz4_body(data, 0, 0);
    assert(c.take(4) =~= h);
    assert(header_len(c) == data.len());
    assert(data.take(0) =~= Seq::<u8>::empty());
    lemma_lz4_decode_suffix(data, 0, 0, h);
}

/// Data of at most 64 KiB has every match less than 64 KiB back.
pub proof fn lemma_lz4_dists_ok_small(data: Seq<u8>, ip: int)
    requires
        data.len() <= 65536,
    ensures
        lz4_dists_ok(data, ip),
    decreases data.len() - ip,
{
    if 0 <= ip < data.len() {
        if ip + 4 <= data.len() && lz4_find(data, ip, search_start(ip)) is Some {
            let r = lz4_find(data, ip, search_start(ip)).unwrap();
            lemma_lz4_find(data, ip, search_start(ip));
            lemma_match_ext(data, ip, r, 4);
            lemma_lz4_dists_ok_small(data, ip + match_ext(data, ip, r, 4));
        } else {
            lemma_lz4_dists_ok_small(data, ip + 1);
        }
    }
}

/// What `compress` gives for each algorithm.
pub open spec fn compressed_spec(data: Seq<u8>, comp_type: NestCompType) -> Option<Seq<u8>> {
    if data.len() < HV_COMP_MIN_SIZE {
        None
    } else {
        match comp_type {
            NestCompType::Off => None,
            NestCompType::LZ4 => lz4_compressed(data),
            NestCompType::ZSTD => rle_compressed(data),
            NestCompType::Gzip1 => rle_compressed(data),
            NestCompType::Gzip9 => rle_compressed(data),
            NestCompType::ZLE => zle_compressed(data),
        }
    }
}

/// What `decompress` gives for each algorithm.
pub open spec fn decompressed_spec(compressed: Seq<u8>, comp_type: NestCompType) -> Option<Seq<u8>> {
    match comp_type {
        NestCompType::Off => None,
        NestCompType::LZ4 => lz4_decompressed(compressed),
        NestCompType::ZSTD => rle_decompressed(compressed),
        NestCompType::Gzip1 => rle_decompressed(compressed),
        NestCompType::Gzip9 => rle_decompressed(compressed),
        NestCompType::ZLE => zle_decompressed(compressed),
    }
}

/// Zstandard is not implemented: RLE stands in for it.
fn compress_zstd_fallback(data: &[u8]) -> (r: Option<Vec<u8>>)
    ensures
        r is Some <==> rle_compressed(data@) is Some,
        r matches Some(v) ==> rle_compressed(data@) == Some(v@),
{
    compress_rle(data)
}

/// Zstandard is not implemented: RLE stands in for it.
fn decompress_zstd_fallback(compressed: &[u8], expected: usize) -> (r: Option<Vec<u8>>)
    ensures
        r is Some <==> rle_decompressed(compressed@) is Some,
        r matches Some(v) ==> rle_decompressed(compressed@) == Some(v@),
{
    decompress_rle(compressed, expected)
}

/// Compresses `data` with `comp_type`; `None` below 64 bytes, for `Off`,
/// or when the output would not be shorter than the input.
pub fn compress(data: &[u8], comp_type: NestCompType) -> (r: Option<Vec<u8>>)
    requires
        comp_type == NestCompType::LZ4 ==> data@.len() + data@.len() / 255 + 16 <= usize::MAX,
    ensures
        r is Some <==> compressed_spec(data@, comp_type) is Some,
        r matches Some(v) ==> compressed_spec(data@, comp_type) == Some(v@),
{
    if data.len() < HV_COMP_MIN_SIZE {
        return None;
    }
    match comp_type {
        NestCompType::Off => None,
        NestCompType::LZ4 => compress_lz4(data),
        NestCompType::ZSTD => compress_zstd_fallback(data),
        NestCompType::Gzip1 => compress_rle(data),
        NestCompType::Gzip9 => compress_rle(data),
        NestCompType::ZLE => compress_zle(data),
    }
}

/// Decompresses `compressed` with `comp_type`; `None` for `Off` and for
/// inputs shorter than the 4-byte header.
pub fn decompress(compressed: &[u8], expected_size: usize, comp_type: NestCompType) -> (r: Option<Vec<u8>>)
    requires
        comp_type == NestCompType::LZ4 ==> compressed@.len() <= usize::MAX / 256,
    ensures
        r is Some <==> decompressed_spec(compressed@, comp_type) is Some,
        r matches Some(v) ==> decompressed_spec(compressed@, comp_type) == Some(v@),
{
    match comp_type {
        NestCompType::Off => None,
        NestCompType::LZ4 => decompress_lz4(compressed, expected_size),
        NestCompType::ZSTD => decompress_zstd_fallback(compressed, expected_size),
        NestCompType::Gzip1 => decompress_rle(compressed, expected_size),
        NestCompType::Gzip9 => decompress_rle(compressed, expected_size),
        NestCompType::ZLE => decompress_zle(compressed, expected_size),
    }
}

/// Whatever algorithm compressed a block (of less than 4 GiB, with LZ4
/// matches less than 64 KiB back), decompressing with the same algorithm
/// gives the block back.
pub proof fn lemma_compress_roundtrip(data: Seq<u8>, comp_type: NestCompType)
    requires
        data.len() < 0x1_0000_0000,
        comp_type == NestCompType::LZ4 ==> lz4_dists_ok(data, 0),
        compressed_spec(data, comp_type) is Some,
    ensures
        decompressed_spec(compressed_spec(data, comp_type).unwrap(), comp_type) == Some(data),
{
    match comp_type {
        NestCompType::Off => {},
        NestCompType::LZ4 => lemma_lz4_roundtrip(data),
        NestCompType::ZLE => lemma_zle_roundtrip(data),
        _ => lemma_rle_roundtrip(data),
    }
}

/// ZLE decoding reads the stream only from the current position on.
proof fn lemma_zle_decode_frame(c1: Seq<u8>, i1: int, c2: Seq<u8>, i2: int, out: Seq<u8>, n: nat)
    requires
        0 <= i1 <= c1.len(),
        0 <= i2 <= c2.len(),
        c1.subrange(i1, c1.len() as int) == c2.subrange(i2, c2.len() as int),
    ensures
        zle_decode(c1, i1, out, n) == zle_decode(c2, i2, out, n),
    decreases c1.len() - i1,
{
    assert(c1.subrange(i1, c1.len() as int).len() == c1.len() - i1);
    assert(c2.subrange(i2, c2.len() as int).len() == c2.len() - i2);
    if i1 < c1.len() && out.len() < n {
        assert(c1[i1] == c1.subrange(i1, c1.len() as int)[0]);
        assert(c2[i2] == c2.subrange(i2, c2.len() as int)[0]);
        if i1 + 1 < c1.len() {
            assert(c1[i1 + 1] == c1.subrange(i1, c1.len() as int)[1]);
            assert(c2[i2 + 1] == c2.subrange(i2, c2.len() as int)[1]);
        }
        if c1[i1] == 0 && i1 + 1 < c1.len() {
            assert(c1.subrange(i1 + 2, c1.len() as int) =~= c1.subrange(i1, c1.len() as int).skip(2));
            assert(c2.subrange(i2 + 2, c2.len() as int) =~= c2.subrange(i2, c2.len() as int).skip(2));
            lemma_zle_decode_frame(c1, i1 + 2, c2, i2 + 2, out + repeat(0u8, c1[i1 + 1] as nat), n);
        } else {
            assert(c1.subrange(i1 + 1, c1.len() as int) =~= c1.subrange(i1, c1.len() as int).skip(1));
            assert(c2.subrange(i2 + 1, c2.len() as int) =~= c2.subrange(i2, c2.len() as int).skip(1));
            lemma_zle_decode_frame(c1, i1 + 1, c2, i2 + 1, out.push(c1[i1]), n);
        }
    }
}

/// Output already produced stays in front of what ZLE decoding adds.
proof fn lemma_zle_decode_prefix(c: Seq<u8>, ip: int, pre: Seq<u8>, out: Seq<u8>, n: nat)
    ensures
        zle_decode(c, ip, pre + out, n + pre.len()) == pre + zle_decode(c, ip, out, n),
    decreases c.len() - ip,
{
    if 0 <= ip < c.len() && out.len() < n {
        if c[ip] == 0 && ip + 1 < c.len() {
            let z = repeat(0u8, c[ip + 1] as nat);
            assert(pre + out + z =~= pre + (out + z));
            lemma_zle_decode_prefix(c, ip + 2, pre, out + z, n);
        } else {
            assert((pre + out).push(c[ip]) =~= pre + out.push(c[ip]));
            lemma_zle_decode_prefix(c, ip + 1, pre, out.push(c[ip]), n);
        }
    }
}

/// A stream header for fewer than 2^32 bytes reads back as that length.
proof fn lemma_header_reads_back(n: nat, rest: Seq<u8>)
    requires
        n < 0x1_0000_0000,
    ensures
        (len_header(n) + rest).len() == 4 + rest.len(),
        header_len(len_header(n) + rest) == n,
        (len_header(n) + rest).skip(4) == rest,
{
    lemma_auto_spec_u32_to_from_le_bytes();
    assert((len_header(n) + rest).take(4) =~= len_header(n));
    assert((len_header(n) + rest).skip(4) =~= rest);
}

/// How ZLE decompression reads a stream after its length header `n`: a
/// header of 0, or one with nothing after it, gives no bytes; a non-zero
/// byte is itself; a zero and a count `k` are `k` zero bytes (the output
/// may go past `n` with the last run, and stops there); a zero that ends
/// the stream is itself. What follows is read as a stream for the bytes
/// still owed.
pub proof fn law_zle_decode_steps(n: nat, x: u8, k: u8, b: Seq<u8>)
    requires
        n < 0x1_0000_0000,
    ensures
        decompressed_spec(len_header(0) + b, NestCompType::ZLE) == Some(Seq::<u8>::empty()),
        decompressed_spec(len_header(n), NestCompType::ZLE) == Some(Seq::<u8>::empty()),
        x != 0 && n >= 1 ==> decompressed_spec(len_header(n) + seq![x] + b, NestCompType::ZLE) == Some(
            seq![x] + decompressed_spec(len_header((n - 1) as nat) + b, NestCompType::ZLE).unwrap(),
        ),
        k < n ==> decompressed_spec(len_header(n) + seq![0u8, k] + b, NestCompType::ZLE) == Some(
            repeat(0u8, k as nat) + decompressed_spec(len_header((n - k) as nat) + b, NestCompType::ZLE).unwrap(),
        ),
        1 <= n <= k ==> decompressed_spec(len_header(n) + seq![0u8, k] + b, NestCompType::ZLE) == Some(
            repeat(0u8, k as nat),
        ),
        n >= 1 ==> decompressed_spec(len_header(n) + seq![0u8], NestCompType::ZLE) == Some(seq![0u8]),
{
    let e = Seq::<u8>::empty();
    lemma_header_reads_back(0, b);
    lemma_header_reads_back(n, e);
    assert(len_header(n) + e =~= len_header(n));
    if x != 0 && n >= 1 {
        let c1 = len_header(n) + seq![x] + b;
        let c2 = len_header((n - 1) as nat) + b;
        lemma_header_reads_back(n, seq![x] + b);
        assert(c1 =~= len_header(n) + (seq![x] + b));
        lemma_header_reads_back((n - 1) as nat, b);
        assert(c1[4] == x);
        assert(c1.subrange(5, c1.len() as int) =~= b);
        assert(c2.subrange(4, c2.len() as int) =~= b);
        lemma_zle_decode_frame(c1, 5, c2, 4, seq![x], n);
        lemma_zle_decode_prefix(c2, 4, seq![x], e, (n - 1) as nat);
        assert(seq![x] + e =~= seq![x]);
        assert(e.push(x) =~= seq![x]);
    }
    if k < n || 1 <= n <= k {
        let c1 = len_header(n) + seq![0u8, k] + b;
        lemma_header_reads_back(n, seq![0u8, k] + b);
        assert(c1 =~= len_header(n) + (seq![0u8, k] + b));
        assert(c1[4] == 0u8);
        assert(c1[5] == k);
        assert(e + repeat(0u8, k as nat) =~= repeat(0u8, k as nat));
        if k < n {
            let c2 = len_header((n - k) as nat) + b;
            lemma_header_reads_back((n - k) as nat, b);
            assert(c1.subrange(6, c1.len() as int) =~= b);
            assert(c2.subrange(4, c2.len() as int) =~= b);
            lemma_zle_decode_frame(c1, 6, c2, 4, repeat(0u8, k as nat), n);
            lemma_zle_decode_prefix(c2, 4, repeat(0u8, k as nat), e, (n - k) as nat);
            assert(repeat(0u8, k as nat) + e =~= repeat(0u8, k as nat));
        } else {
            assert(repeat(0u8, k as nat).len() >= n);
            assert(zle_decode(c1, 6, repeat(0u8, k as nat), n) == repeat(0u8, k as nat));
            assert(zle_decode(c1, 4, e, n) == zle_decode(c1, 6, e + repeat(0u8, k as nat), n));
        }
    }
    if n >= 1 {
        let c1 = len_header(n) + seq![0u8];
        lemma_header_reads_back(n, seq![0u8]);
        assert(c1[4] == 0u8);
        assert(e.push(0u8) =~= seq![0u8]);
        assert(c1.len() == 5);
        assert(zle_decode(c1, 5, seq![0u8], n) == seq![0u8]);
        assert(zle_decode(c1, 4, e, n) == zle_decode(c1, 5, e.push(0u8), n));
    }
}

/// A run is counted the same with bytes put in front of the data.
proof fn lemma_run_count_shift(p: Seq<u8>, d: Seq<u8>, i: int, c: int)
    requires
        0 <= i,
        0 <= c,
    ensures
        run_count(p + d, i + p.len(), c) == run_count(d, i, c),
    decreases 255 - c,
{
    let pd = p + d;
    let j = i + p.len();
    if c < 255 && i + c < d.len() {
        assert(pd[j + c] == d[i + c]);
        assert(pd[j] == d[i]);
        lemma_run_count_shift(p, d, i, c + 1);
    }
}

/// The ZLE body of data from `i` on is the same with bytes put in front.
proof fn lemma_zle_body_shift(p: Seq<u8>, d: Seq<u8>, i: int)
    requires
        0 <= i <= d.len(),
    ensures
        zle_body(p + d, i + p.len()) == zle_body(d, i),
    decreases d.len() - i,
{
    let pd = p + d;
    let j = i + p.len();
    if i < d.len() {
        assert(pd[j] == d[i]);
        if d[i] == 0 {
            lemma_run_count_shift(p, d, i, 1);
            lemma_run_count(d, i, 1);
            let c = run_count(d, i, 1);
            lemma_zle_body_shift(p, d, i + c);
        } else {
            lemma_zle_body_shift(p, d, i + 1);
        }
    }
}

/// The run of `k` zero bytes in front of data that does not go on with a
/// zero (or of 255 of them, whatever follows) is counted as `k`.
proof fn lemma_zero_run(d: Seq<u8>, k: int, c: int)
    requires
        1 <= c <= k <= 255,
        k < 255 ==> d.len() == 0 || d[0] != 0,
    ensures
        run_count(repeat(0u8, k as nat) + d, 0, c) == k,
    decreases k - c,
{
    let z = repeat(0u8, k as nat) + d;
    assert(z[0] == 0u8);
    if c < k {
        assert(z[c] == 0u8);
        lemma_zero_run(d, k, c + 1);
    } else if k < 255 && k < z.len() {
        assert(z[k] == d[0]);
    }
}

/// Data without a zero byte is its own ZLE body.
proof fn lemma_zle_body_no_zero(d: Seq<u8>, i: int)
    requires
        0 <= i <= d.len(),
        forall|j: int| 0 <= j < d.len() ==> d[j] != 0,
    ensures
        zle_body(d, i).len() == d.len() - i,
    decreases d.len() - i,
{
    if i < d.len() {
        lemma_zle_body_no_zero(d, i + 1);
    }
}

/// ZLE never compresses data without a zero byte: each byte stands for
/// itself, so the stream is longer than the data.
pub proof fn law_zle_no_zero_no_gain(d: Seq<u8>)
    requires
        forall|j: int| 0 <= j < d.len() ==> d[j] != 0,
    ensures
        compressed_spec(d, NestCompType::ZLE) is None,
{
    lemma_auto_spec_u32_to_from_le_bytes();
    lemma_zle_body_no_zero(d, 0);
}

/// A non-zero byte put in front of data (of at least 64 bytes) is written
/// as itself in front of the data's ZLE stream, under the new length; the
/// data compresses exactly when the longer data does.
pub proof fn law_zle_encode_literal(d: Seq<u8>, x: u8)
    requires
        d.len() >= HV_COMP_MIN_SIZE,
        x != 0,
    ensures
        compressed_spec(seq![x] + d, NestCompType::ZLE) is Some <==> compressed_spec(d, NestCompType::ZLE) is Some,
        compressed_spec(d, NestCompType::ZLE) matches Some(c) ==> compressed_spec(seq![x] + d, NestCompType::ZLE)
            == Some(len_header(d.len() + 1) + seq![x] + c.skip(4)),
{
    lemma_auto_spec_u32_to_from_le_bytes();
    let xd = seq![x] + d;
    assert(xd[0] == x);
    lemma_zle_body_shift(seq![x], d, 0);
    assert(zle_body(xd, 0) == seq![x] + zle_body(d, 0));
    let c = len_header(d.len()) + zle_body(d, 0);
    assert(c.skip(4) =~= zle_body(d, 0));
    assert(len_header(xd.len()) + zle_body(xd, 0) =~= len_header(d.len() + 1) + seq![x] + c.skip(4));
}

/// A run of `k` zero bytes (1 to 255; below 255 only where the data does
/// not start with a zero) put in front of data that compresses is written
/// as a zero and `k` in front of the data's ZLE stream, under the new
/// length, unless that is not shorter than the longer data.
pub proof fn law_zle_encode_zero_run(d: Seq<u8>, k: u8)
    requires
        d.len() >= HV_COMP_MIN_SIZE,
        1 <= k,
        k < 255 ==> d[0] != 0,
    ensures
        compressed_spec(d, NestCompType::ZLE) matches Some(c) ==> compressed_spec(
            repeat(0u8, k as nat) + d,
            NestCompType::ZLE,
        ) == if c.len() + 2 < d.len() + k {
            Some(len_header(d.len() + k as nat) + seq![0u8, k] + c.skip(4))
        } else {
            None
        },
{
    lemma_auto_spec_u32_to_from_le_bytes();
    let z = repeat(0u8, k as nat);
    let zd = z + d;
    assert(zd[0] == 0u8);
    lemma_zero_run(d, k as int, 1);
    lemma_zle_body_shift(z, d, 0);
    assert(zle_body(zd, 0) == seq![0u8, k] + zle_body(d, 0));
    let c = len_header(d.len()) + zle_body(d, 0);
    assert(c.skip(4) =~= zle_body(d, 0));
    assert(len_header(zd.len()) + zle_body(zd, 0) =~= len_header(d.len() + k as nat) + seq![0u8, k] + c.skip(4));
}

} // verus!
