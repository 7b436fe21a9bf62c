//! Byte-level helpers shared by the file-system services: bounded copies,
//! NUL-terminated names, UTF-8 views and little-endian field access.
use vstd::prelude::*;
use vstd::utf8::valid_utf8;
use vstd::string::StringSliceAdditionalSpecFns;

verus! {

/// The smaller of two integers.
pub open spec fn min_int(a: int, b: int) -> int {
    if a <= b { a } else { b }
}

/// The first `max` bytes of `s` (all of `s` when it is shorter).
pub open spec fn truncate(s: Seq<u8>, max: int) -> Seq<u8> {
    s.take(min_int(s.len() as int, max))
}

/// Index of the first zero byte of `s`, or its length when it holds none.
pub open spec fn nul_index(s: Seq<u8>) -> int
    decreases s.len(),
{
    if s.len() == 0 {
        0
    } else if s[0] == 0 {
        0
    } else {
        1 + nul_index(s.drop_first())
    }
}

/// The bytes of `s` before its first zero byte.
pub open spec fn until_nul(s: Seq<u8>) -> Seq<u8> {
    s.take(nul_index(s))
}

/// `s` itself when it is valid UTF-8, the empty sequence otherwise: the bytes
/// of the `&str` that a lossy-to-empty UTF-8 decoding yields.
pub open spec fn utf8_or_empty_spec(s: Seq<u8>) -> Seq<u8> {
    if valid_utf8(s) { s } else { Seq::empty() }
}

/// `nul_index` is the position of the first zero byte.
pub proof fn lemma_nul_index(s: Seq<u8>, i: int)
    requires
        0 <= i <= s.len(),
        forall|j: int| 0 <= j < i ==> s[j] != 0,
        i == s.len() || s[i] == 0,
    ensures
        nul_index(s) == i,
    decreases i,
{
    if s.len() == 0 {
    } else if i == 0 {
    } else {
        let t = s.drop_first();
        assert forall|j: int| 0 <= j < i - 1 implies t[j] != 0 by {
            assert(t[j] == s[j + 1]);
        }
        if i - 1 < t.len() {
            assert(t[i - 1] == s[i]);
        }
        lemma_nul_index(t, i - 1);
    }
}

/// Decodes `v` as UTF-8, giving the empty string where it is not valid.
///
/// Calls `core::str::from_utf8`; the contract claims that it accepts exactly
/// the byte sequences that are valid UTF-8 and then returns a string whose
/// bytes are `v`.
#[verifier::external_body]
pub(crate) fn utf8_or_empty(v: &[u8]) -> (s: &str)
    ensures
        s.spec_bytes() == utf8_or_empty_spec(v@),
{
    core::str::from_utf8(v).unwrap_or("")
}

/// Decodes `v` as UTF-8, or `None` where it is not valid.
///
/// Calls `core::str::from_utf8`; the contract claims that it accepts exactly
/// the byte sequences that are valid UTF-8 and then returns a string whose
/// bytes are `v`.
#[verifier::external_body]
pub(crate) fn utf8_checked(v: &[u8]) -> (s: Option<&str>)
    ensures
        s.is_some() == valid_utf8(v@),
        s matches Some(t) ==> t.spec_bytes() == v@,
{
    core::str::from_utf8(v).ok()
}

/// Whether two byte slices hold the same bytes.
pub fn bytes_eq(a: &[u8], b: &[u8]) -> (r: bool)
    ensures
        r == (a@ == b@),
{
    if a.len() != b.len() {
        return false;
    }
    let mut i: usize = 0;
    while i < a.len()
        invariant
            a@.len() == b@.len(),
            0 <= i <= a@.len(),
            forall|j: int| 0 <= j < i ==> a@[j] == b@[j],
        decreases a@.len() - i,
    {
        if a[i] != b[i] {
            return false;
        }
        i += 1;
    }
    assert(a@ =~= b@);
    true
}

/// A copy of at most the first `max` bytes of `b`.
pub fn copy_prefix(b: &[u8], max: usize) -> (r: Vec<u8>)
    ensures
        r@ == truncate(b@, max as int),
{
    let n = if b.len() < max { b.len() } else { max };
    let mut out: Vec<u8> = Vec::new();
    let mut i: usize = 0;
    while i < n
        invariant
            n <= b@.len(),
            0 <= i <= n,
            out@ == b@.take(i as int),
        decreases n - i,
    {
        out.push(b[i]);
        i += 1;
        assert(out@ =~= b@.take(i as int));
    }
    out
}

/// Position of the first zero byte of `b`, or its length.
pub fn find_nul(b: &[u8]) -> (r: usize)
    ensures
        r as int == nul_index(b@),
        r <= b@.len(),
{
    let mut i: usize = 0;
    while i < b.len() && b[i] != 0
        invariant
            0 <= i <= b@.len(),
            forall|j: int| 0 <= j < i ==> b@[j] != 0,
        decreases b@.len() - i,
    {
        i += 1;
    }
    proof {
        lemma_nul_index(b@, i as int);
    }
    i
}

/// The bytes of `b` before its first zero byte.
pub fn slice_until_nul(b: &[u8]) -> (r: &[u8])
    ensures
        r@ == until_nul(b@),
{
    let n = find_nul(b);
    slice_prefix(b, n)
}

/// The first `n` elements of `b`.
pub fn slice_prefix(b: &[u8], n: usize) -> (r: &[u8])
    requires
        n <= b@.len(),
    ensures
        r@ == b@.take(n as int),
{
    let r = vstd::slice::slice_subrange(b, 0, n);
    assert(r@ =~= b@.take(n as int));
    r
}

/// Elements `start..end` of `b`.
pub fn slice_range(b: &[u8], start: usize, end: usize) -> (r: &[u8])
    requires
        start <= end <= b@.len(),
    ensures
        r@ == b@.subrange(start as int, end as int),
{
    vstd::slice::slice_subrange(b, start, end)
}

/// Copies `src` into `dst` starting at `offset`.
pub fn write_at(dst: &mut Vec<u8>, offset: usize, src: &[u8])
    requires
        offset + src@.len() <= old(dst)@.len(),
    ensures
        final(dst)@.len() == old(dst)@.len(),
        final(dst)@ == old(dst)@.take(offset as int) + src@ + old(dst)@.skip(offset + src@.len()),
{
    let ghost dl = dst.len();
    let mut i: usize = 0;
    while i < src.len()
        invariant
            offset + src@.len() <= dst@.len(),
            dst@.len() == old(dst)@.len(),
            dl == dst@.len(),
            0 <= i <= src@.len(),
            forall|j: int| 0 <= j < offset ==> dst@[j] == old(dst)@[j],
            forall|j: int| 0 <= j < i ==> dst@[offset + j] == src@[j],
            forall|j: int| offset + i <= j < dst@.len() ==> dst@[j] == old(dst)@[j],
        decreases src@.len() - i,
    {
        dst.set(offset + i, src[i]);
        i += 1;
    }
    assert(dst@ =~= old(dst)@.take(offset as int) + src@ + old(dst)@.skip(offset + src@.len()));
}

/// Copies `src` into the front of the slice `dst`.
pub fn copy_into_slice(dst: &mut [u8], src: &[u8])
    requires
        src@.len() <= old(dst)@.len(),
    ensures
        final(dst)@ == src@ + old(dst)@.skip(src@.len() as int),
{
    let mut i: usize = 0;
    while i < src.len()
        invariant
            src@.len() <= dst@.len(),
            dst@.len() == old(dst)@.len(),
            0 <= i <= src@.len(),
            forall|j: int| 0 <= j < i ==> dst@[j] == src@[j],
            forall|j: int| i <= j < dst@.len() ==> dst@[j] == old(dst)@[j],
        decreases src@.len() - i,
    {
        dst[i] = src[i];
        i += 1;
    }
    assert(dst@ =~= src@ + old(dst)@.skip(src@.len() as int));
}

} // verus!

verus! {

/// `src` written over `dst` from `off` on.
pub open spec fn overwrite(dst: Seq<u8>, off: int, src: Seq<u8>) -> Seq<u8> {
    dst.take(off) + src + dst.skip(off + src.len())
}

/// Appends the bytes of `src` to `dst`.
pub fn append_bytes(dst: &mut Vec<u8>, src: &[u8])
    ensures
        final(dst)@ == old(dst)@ + src@,
{
    let mut i: usize = 0;
    while i < src.len()
        invariant
            0 <= i <= src@.len(),
            dst@ == old(dst)@ + src@.take(i as int),
        decreases src@.len() - i,
    {
        dst.push(src[i]);
        i += 1;
        assert(dst@ =~= old(dst)@ + src@.take(i as int));
    }
    assert(src@.take(src@.len() as int) =~= src@);
}

/// Copies `src` into the slice `dst` from `off` on.
pub fn write_slice_at(dst: &mut [u8], off: usize, src: &[u8])
    requires
        off + src@.len() <= old(dst)@.len(),
    ensures
        final(dst)@ == overwrite(old(dst)@, off as int, src@),
{
    let _n = dst.len();
    let mut i: usize = 0;
    while i < src.len()
        invariant
            off + src@.len() <= dst@.len(),
            _n == dst@.len(),
            dst@.len() == old(dst)@.len(),
            0 <= i <= src@.len(),
            forall|j: int| 0 <= j < off ==> dst@[j] == old(dst)@[j],
            forall|j: int| 0 <= j < i ==> dst@[off + j] == src@[j],
            forall|j: int| off + i <= j < dst@.len() ==> dst@[j] == old(dst)@[j],
        decreases src@.len() - i,
    {
        dst[off + i] = src[i];
        i += 1;
    }
    assert(dst@ =~= overwrite(old(dst)@, off as int, src@));
}

/// A vector of `n` zero bytes.
pub fn zeroed(n: usize) -> (v: Vec<u8>)
    ensures
        v@ == Seq::new(n as nat, |i: int| 0u8),
{
    let mut v: Vec<u8> = Vec::new();
    let mut i: usize = 0;
    while i < n
        invariant
            0 <= i <= n,
            v@ == Seq::new(i as nat, |k: int| 0u8),
        decreases n - i,
    {
        v.push(0);
        i += 1;
        assert(v@ =~= Seq::new(i as nat, |k: int| 0u8));
    }
    v
}

/// Copies as much of `src` as fits into the front of `dst`; returns how
/// many bytes were copied.
pub fn store_prefix(dst: &mut [u8], src: &[u8]) -> (n: usize)
    ensures
        n as int == min_int(src@.len() as int, old(dst)@.len() as int),
        final(dst)@ == overwrite(old(dst)@, 0, truncate(src@, old(dst)@.len() as int)),
        final(dst)@.len() == old(dst)@.len(),
{
    let n = if src.len() < dst.len() { src.len() } else { dst.len() };
    let part = slice_prefix(src, n);
    copy_into_slice(dst, part);
    assert(dst@ =~= overwrite(old(dst)@, 0, truncate(src@, old(dst)@.len() as int)));
    n
}

/// The decimal digits of `n`, most significant first.
pub open spec fn decimal(n: nat) -> Seq<u8>
    decreases n,
{
    if n < 10 {
        seq![(48 + n) as u8]
    } else {
        decimal(n / 10).push((48 + n % 10) as u8)
    }
}

/// The decimal digits of `n`.
pub fn decimal_digits(n: u64) -> (v: Vec<u8>)
    ensures
        v@ == decimal(n as nat),
        v@.len() <= 20,
    decreases n,
{
    if n < 10 {
        let mut v: Vec<u8> = Vec::new();
        v.push(48 + n as u8);
        assert(v@ =~= decimal(n as nat));
        v
    } else {
        let mut v = decimal_digits(n / 10);
        v.push(48 + (n % 10) as u8);
        proof {
            assert(pow10(20) == 100000000000000000000) by {
                reveal_with_fuel(pow10, 21);
            }
            lemma_decimal_len(n as nat, 20);
        }
        v
    }
}

/// Ten to the power `k`.
pub open spec fn pow10(k: nat) -> nat
    decreases k,
{
    if k == 0 { 1 } else { 10 * pow10((k - 1) as nat) }
}

/// A number below ten to the `k` has at most `k` digits.
pub proof fn lemma_decimal_len(n: nat, k: nat)
    requires
        k >= 1,
        n < pow10(k),
    ensures
        decimal(n).len() <= k,
    decreases k,
{
    if n >= 10 {
        if k == 1 {
            assert(pow10(1) == 10) by {
                assert(pow10(0) == 1);
            }
        } else {
            lemma_decimal_len(n / 10, (k - 1) as nat);
        }
    }
}

/// The twenty-byte rendering of an integer: its decimal digits followed by
/// `'0'` bytes up to twenty.
pub open spec fn format_spec(n: u64) -> Seq<u8> {
    decimal(n as nat) + Seq::new((20 - decimal(n as nat).len()) as nat, |i: int| 48u8)
}

/// The twenty-byte rendering of `n` (see `format_spec`).
pub fn format_u64(n: u64) -> (out: [u8; 20])
    ensures
        out@ == format_spec(n),
{
    let digits = decimal_digits(n);
    let mut out = [48u8; 20];
    let mut j: usize = 0;
    while j < digits.len()
        invariant
            digits@ == decimal(n as nat),
            digits@.len() <= 20,
            out@.len() == 20,
            0 <= j <= digits@.len(),
            forall|k: int| 0 <= k < j ==> out@[k] == digits@[k],
            forall|k: int| j <= k < 20 ==> out@[k] == 48u8,
        decreases digits@.len() - j,
    {
        out[j] = digits[j];
        j += 1;
    }
    assert(out@ =~= format_spec(n));
    out
}

} // verus!
