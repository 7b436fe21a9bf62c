//! RAM file system descriptors (an open node with its flags, offset and
//! owner) and path splitting.
use vstd::prelude::*;
use vstd::string::StringSliceAdditionalSpecFns;
use vstd::utf8::{
    is_char_boundary, is_char_boundary_iff_not_is_continuation_byte, is_char_boundary_start_end_of_seq,
    length_of_first_scalar, pop_first_scalar, valid_utf8, valid_utf8_split,
};

verus! {

/// Capacity of the node table.
pub const RAMFS_MAX_NODES: usize = 256;

/// Capacity of the block table.
pub const RAMFS_MAX_BLOCKS: usize = 2048;

/// An open file: node, open flags, offset and owner.
#[derive(Debug, Clone, Copy, PartialEq, Eq)]
pub struct FileDescriptor {
    pub node_id: u32,
    pub flags: u32,
    pub offset: u64,
    pub pwm: u64,
}

impl FileDescriptor {
    /// A descriptor at offset 0.
    pub fn new(node_id: u32, flags: u32, pwm: u64) -> (d: Self)
        ensures
            d == (FileDescriptor { node_id, flags, offset: 0, pwm }),
    {
        FileDescriptor { node_id, flags, offset: 0, pwm }
    }

    /// Opened for reading only: the read bit (1) set and the read-write
    /// bit (4) clear.
    pub fn is_read_only(&self) -> (r: bool)
        ensures
            r == (self.flags & 0x0001 != 0 && self.flags & 0x0004 == 0),
    {
        self.flags & 0x0001 != 0 && self.flags & 0x0004 == 0
    }

    /// Opened for writing: the write bit (2) or the read-write bit (4) set.
    pub fn is_writable(&self) -> (r: bool)
        ensures
            r == (self.flags & 0x0002 != 0 || self.flags & 0x0004 != 0),
    {
        self.flags & 0x0002 != 0 || self.flags & 0x0004 != 0
    }
}

/// Length of `s` once the trailing `/` among its first `e` bytes are dropped.
pub open spec fn trim_end_len(s: Seq<u8>, e: int) -> int
    decreases e,
{
    if e > 0 && s[e - 1] == 47u8 {
        trim_end_len(s, e - 1)
    } else {
        e
    }
}

/// Position of the last `/` among the first `i` bytes of `t`, or -1.
pub open spec fn last_slash(t: Seq<u8>, i: int) -> int
    decreases i,
{
    if i <= 0 {
        -1
    } else if t[i - 1] == 47u8 {
        i - 1
    } else {
        last_slash(t, i - 1)
    }
}

/// The (parent, name) split of a path: trailing slashes are dropped; no
/// slash left gives parent `.`; a slash at the front gives parent `/`;
/// an empty path or name gives `None`.
pub open spec fn split_path_spec(s: Seq<u8>) -> Option<(Seq<u8>, Seq<u8>)> {
    let e = trim_end_len(s, s.len() as int);
    let t = s.take(e);
    if e <= 0 {
        None
    } else {
        let p = last_slash(t, e);
        if p < 0 {
            Some((seq![46u8], t))
        } else if p + 1 >= e {
            None
        } else {
            Some((if p == 0 { seq![47u8] } else { t.take(p) }, t.subrange(p + 1, e)))
        }
    }
}

proof fn lemma_trim_end_len(s: Seq<u8>, e: int)
    requires
        0 <= e <= s.len(),
    ensures
        0 <= trim_end_len(s, e) <= e,
        trim_end_len(s, e) > 0 ==> s[trim_end_len(s, e) - 1] != 47u8,
        forall|j: int| trim_end_len(s, e) <= j < e ==> s[j] == 47u8,
    decreases e,
{
    if e > 0 && s[e - 1] == 47u8 {
        lemma_trim_end_len(s, e - 1);
    }
}

proof fn lemma_last_slash(t: Seq<u8>, i: int)
    requires
        0 <= i <= t.len(),
    ensures
        -1 <= last_slash(t, i) < i,
        last_slash(t, i) >= 0 ==> t[last_slash(t, i)] == 47u8,
        forall|j: int| last_slash(t, i) < j < i ==> t[j] != 47u8,
    decreases i,
{
    if i > 0 && t[i - 1] != 47u8 {
        lemma_last_slash(t, i - 1);
    }
}

/// A slash of valid UTF-8 is a character boundary, and so is the byte
/// after it.
proof fn lemma_slash_boundaries(b: Seq<u8>, i: int)
    requires
        valid_utf8(b),
        0 <= i < b.len(),
        b[i] == 47u8,
    ensures
        is_char_boundary(b, i),
        valid_utf8(b.subrange(i, b.len() as int)),
        is_char_boundary(b.subrange(i, b.len() as int), 1),
{
    is_char_boundary_iff_not_is_continuation_byte(b, i);
    valid_utf8_split(b, i);
    let r = b.subrange(i, b.len() as int);
    assert(r[0] == 47u8);
    assert(length_of_first_scalar(r) == 1);
    reveal_with_fuel(is_char_boundary, 2);
    is_char_boundary_start_end_of_seq(pop_first_scalar(r));
}

/// Splits `path` into its parent and last name (see `split_path_spec`).
pub fn split_path(path: &str) -> (r: Option<(&str, &str)>)
    ensures
        r is None <==> split_path_spec(path.spec_bytes()) is None,
        r matches Some(pn) ==> split_path_spec(path.spec_bytes()) == Some((pn.0.spec_bytes(), pn.1.spec_bytes())),
{
    let bytes = path.as_bytes();
    let ghost s = path.spec_bytes();
    proof {
        vstd::utf8::encode_utf8_valid_utf8(path@);
        lemma_trim_end_len(s, s.len() as int);
    }
    let mut e = bytes.len();
    while e > 0 && bytes[e - 1] == 47u8
        invariant
            bytes@ == s,
            e <= s.len(),
            trim_end_len(s, s.len() as int) == trim_end_len(s, e as int),
        decreases e,
    {
        e -= 1;
    }
    if e == 0 {
        return None;
    }
    proof {
        if e < s.len() {
            lemma_trim_end_len(s, s.len() as int);
            is_char_boundary_iff_not_is_continuation_byte(s, e as int);
        } else {
            is_char_boundary_start_end_of_seq(s);
        }
        valid_utf8_split(s, e as int);
    }
    let (t, _rest) = path.split_at(e);
    let ghost tb = t.spec_bytes();
    assert(tb =~= s.take(e as int));
    proof {
        lemma_last_slash(tb, e as int);
    }
    let mut i = e;
    while i > 0 && bytes[i - 1] != 47u8
        invariant
            bytes@ == s,
            tb == s.take(e as int),
            i <= e <= s.len(),
            last_slash(tb, e as int) == last_slash(tb, i as int),
        decreases i,
    {
        i -= 1;
    }
    if i == 0 {
        proof {
            reveal_strlit(".");
            vstd::string::is_ascii_spec_bytes(".");
            assert(".".spec_bytes() =~= seq![46u8]);
        }
        return Some((".", t));
    }
    let p = i - 1;
    proof {
        lemma_slash_boundaries(tb, p as int);
    }
    let (parent_part, slash_name) = t.split_at(p);
    let (_slash, name) = slash_name.split_at(1);
    if name.is_empty() {
        return None;
    }
    assert(name.spec_bytes() =~= tb.subrange(p + 1, e as int));
    if p == 0 {
        proof {
            reveal_strlit("/");
            vstd::string::is_ascii_spec_bytes("/");
            assert("/".spec_bytes() =~= seq![47u8]);
        }
        Some(("/", name))
    } else {
        assert(parent_part.spec_bytes() =~= tb.take(p as int));
        Some((parent_part, name))
    }
}

} // verus!
