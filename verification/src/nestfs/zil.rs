//! ZIL: the in-memory intent log.
//!
//! Records are appended with increasing sequence numbers; committing a txg
//! drops every record of that txg or an earlier one; replay hands the
//! pending records back ordered by sequence number.
use crate::bytes_util::min_int;
use crate::nestfs::bp::{bp_is_null_value, NestBlockPointer};
use vstd::prelude::*;
use vstd::string::StringSliceAdditionalSpecFns;

verus! {

pub const HV_ZIL_MAX_RECORDS: usize = 1024;

pub const HV_POOL_BLOCK_SIZE: u64 = 8192;

pub const HV_ZIL_BLOCK_SIZE: usize = 8192;

/// Size of the name area of a record.
pub const ZIL_NAME_LEN: usize = 128;

/// Kinds of logged operations.
#[derive(Debug, Clone, Copy, PartialEq, Eq, Structural)]
pub enum NestZilRecordType {
    Create,
    Remove,
    Link,
    Rename,
    Write,
    Truncate,
    SetAttr,
    Acl,
    CreateAcl,
    Mkdir,
    Symlink,
    DedupRef,
    DedupUnref,
}

/// On-disk code of each record type (1 to 13).
pub open spec fn rec_type_code(t: NestZilRecordType) -> u8 {
    match t {
        NestZilRecordType::Create => 1,
        NestZilRecordType::Remove => 2,
        NestZilRecordType::Link => 3,
        NestZilRecordType::Rename => 4,
        NestZilRecordType::Write => 5,
        NestZilRecordType::Truncate => 6,
        NestZilRecordType::SetAttr => 7,
        NestZilRecordType::Acl => 8,
        NestZilRecordType::CreateAcl => 9,
        NestZilRecordType::Mkdir => 10,
        NestZilRecordType::Symlink => 11,
        NestZilRecordType::DedupRef => 12,
        NestZilRecordType::DedupUnref => 13,
    }
}

impl NestZilRecordType {
    /// The on-disk code (1 to 13).
    pub fn code(self) -> (c: u8)
        ensures
            c == rec_type_code(self),
    {
        match self {
            NestZilRecordType::Create => 1,
            NestZilRecordType::Remove => 2,
            NestZilRecordType::Link => 3,
            NestZilRecordType::Rename => 4,
            NestZilRecordType::Write => 5,
            NestZilRecordType::Truncate => 6,
            NestZilRecordType::SetAttr => 7,
            NestZilRecordType::Acl => 8,
            NestZilRecordType::CreateAcl => 9,
            NestZilRecordType::Mkdir => 10,
            NestZilRecordType::Symlink => 11,
            NestZilRecordType::DedupRef => 12,
            NestZilRecordType::DedupUnref => 13,
        }
    }

    /// The record type of an on-disk code; `None` outside 1 to 13.
    pub fn from_code(c: u8) -> (t: Option<Self>)
        ensures
            t is Some <==> 1 <= c <= 13,
            t matches Some(k) ==> rec_type_code(k) == c,
    {
        match c {
            1 => Some(NestZilRecordType::Create),
            2 => Some(NestZilRecordType::Remove),
            3 => Some(NestZilRecordType::Link),
            4 => Some(NestZilRecordType::Rename),
            5 => Some(NestZilRecordType::Write),
            6 => Some(NestZilRecordType::Truncate),
            7 => Some(NestZilRecordType::SetAttr),
            8 => Some(NestZilRecordType::Acl),
            9 => Some(NestZilRecordType::CreateAcl),
            10 => Some(NestZilRecordType::Mkdir),
            11 => Some(NestZilRecordType::Symlink),
            12 => Some(NestZilRecordType::DedupRef),
            13 => Some(NestZilRecordType::DedupUnref),
            _ => None,
        }
    }
}

/// Each record type has exactly one code.
pub proof fn lemma_rec_type_code_injective(a: NestZilRecordType, b: NestZilRecordType)
    ensures
        rec_type_code(a) == rec_type_code(b) ==> a == b,
{
}

/// One logged operation.
#[derive(Debug, Clone, Copy)]
pub struct NestZilRecord {
    pub rec_type: NestZilRecordType,
    pub txg: u64,
    pub obj_id: u64,
    pub parent_obj: u64,
    pub offset: u64,
    pub size: u32,
    pub name: [u8; 128],
    pub data_hash: [u64; 4],
    pub seq: u64,
}

/// A 128-byte name area holding the first `min(s.len(), max)` bytes of `s`.
pub open spec fn name_area(s: Seq<u8>, max: int) -> Seq<u8> {
    Seq::new(128, |i: int| if i < min_int(s.len() as int, max) { s[i] } else { 0u8 })
}

/// A 128-byte name area holding at most 63 bytes of `a` at 0 and at most
/// 63 bytes of `b` at 64.
pub open spec fn pair_area(a: Seq<u8>, b: Seq<u8>) -> Seq<u8> {
    Seq::new(
        128,
        |i: int|
            if i < min_int(a.len() as int, 63) {
                a[i]
            } else if 64 <= i < 64 + min_int(b.len() as int, 63) {
                b[i - 64]
            } else {
                0u8
            },
    )
}

/// A record of kind `t` with the given fields, an empty name, a zero hash and
/// sequence number 0.
pub open spec fn plain_record(r: NestZilRecord, t: NestZilRecordType, txg: u64, obj_id: u64, parent_obj: u64, offset: u64, size: u32) -> bool {
    &&& r.rec_type == t
    &&& r.txg == txg
    &&& r.obj_id == obj_id
    &&& r.parent_obj == parent_obj
    &&& r.offset == offset
    &&& r.size == size
    &&& r.seq == 0
}

/// Copies at most `max` bytes of `src` into `area` from `off` on.
fn put_bytes(area: &mut [u8; 128], off: usize, src: &[u8], max: usize)
    requires
        off + max <= 128,
    ensures
        forall|i: int| 0 <= i < 128 ==> #[trigger] final(area)@[i] == (
            if off <= i < off + min_int(src@.len() as int, max as int) {
                src@[i - off]
            } else {
                old(area)@[i]
            }),
{
    let n = if src.len() < max { src.len() } else { max };
    let mut i: usize = 0;
    while i < n
        invariant
            n <= src@.len(),
            n == min_int(src@.len() as int, max as int),
            off + max <= 128,
            0 <= i <= n,
            forall|k: int| 0 <= k < 128 ==> #[trigger] area@[k] == (
                if off <= k < off + i { src@[k - off] } else { old(area)@[k] }),
        decreases n - i,
    {
        area[off + i] = src[i];
        i += 1;
    }
}

impl NestZilRecord {
    fn base(t: NestZilRecordType, txg: u64, obj_id: u64, parent_obj: u64, offset: u64, size: u32) -> (r: Self)
        ensures
            plain_record(r, t, txg, obj_id, parent_obj, offset, size),
            r.name@ == Seq::new(128, |i: int| 0u8),
            r.data_hash@ == seq![0u64, 0u64, 0u64, 0u64],
    {
        let r = NestZilRecord {
            rec_type: t,
            txg,
            obj_id,
            parent_obj,
            offset,
            size,
            name: [0u8; 128],
            data_hash: [0u64; 4],
            seq: 0,
        };
        assert(r.name@ =~= Seq::new(128, |i: int| 0u8));
        assert(r.data_hash@ =~= seq![0u64, 0u64, 0u64, 0u64]);
        r
    }

    /// A write of `size` bytes at `offset` of `obj_id`.
    pub fn new_write(txg: u64, obj_id: u64, offset: u64, size: u32) -> (r: Self)
        ensures
            plain_record(r, NestZilRecordType::Write, txg, obj_id, 0, offset, size),
            r.name@ == name_area(Seq::empty(), 0),
            r.data_hash@ == seq![0u64, 0u64, 0u64, 0u64],
    {
        let r = Self::base(NestZilRecordType::Write, txg, obj_id, 0, offset, size);
        assert(r.name@ =~= name_area(Seq::empty(), 0));
        r
    }

    fn named(t: NestZilRecordType, txg: u64, obj_id: u64, parent_obj: u64, name: &str) -> (r: Self)
        ensures
            plain_record(r, t, txg, obj_id, parent_obj, 0, 0),
            r.name@ == name_area(name.spec_bytes(), 127),
            r.data_hash@ == seq![0u64, 0u64, 0u64, 0u64],
    {
        let mut r = Self::base(t, txg, obj_id, parent_obj, 0, 0);
        put_bytes(&mut r.name, 0, name.as_bytes(), 127);
        assert(r.name@ =~= name_area(name.spec_bytes(), 127));
        r
    }

    /// Creation of `name` under `parent_obj`.
    pub fn new_create(txg: u64, parent_obj: u64, name: &str) -> (r: Self)
        ensures
            plain_record(r, NestZilRecordType::Create, txg, 0, parent_obj, 0, 0),
            r.name@ == name_area(name.spec_bytes(), 127),
            r.data_hash@ == seq![0u64, 0u64, 0u64, 0u64],
    {
        Self::named(NestZilRecordType::Create, txg, 0, parent_obj, name)
    }

    /// Removal of `name` under `parent_obj`.
    pub fn new_remove(txg: u64, parent_obj: u64, name: &str) -> (r: Self)
        ensures
            plain_record(r, NestZilRecordType::Remove, txg, 0, parent_obj, 0, 0),
            r.name@ == name_area(name.spec_bytes(), 127),
            r.data_hash@ == seq![0u64, 0u64, 0u64, 0u64],
    {
        Self::named(NestZilRecordType::Remove, txg, 0, parent_obj, name)
    }

    /// Creation of directory `name` under `parent_obj`.
    pub fn new_mkdir(txg: u64, parent_obj: u64, name: &str) -> (r: Self)
        ensures
            plain_record(r, NestZilRecordType::Mkdir, txg, 0, parent_obj, 0, 0),
            r.name@ == name_area(name.spec_bytes(), 127),
            r.data_hash@ == seq![0u64, 0u64, 0u64, 0u64],
    {
        Self::named(NestZilRecordType::Mkdir, txg, 0, parent_obj, name)
    }

    /// Attribute change of `obj_id`.
    pub fn new_setattr(txg: u64, obj_id: u64) -> (r: Self)
        ensures
            plain_record(r, NestZilRecordType::SetAttr, txg, obj_id, 0, 0, 0),
            r.name@ == name_area(Seq::empty(), 0),
            r.data_hash@ == seq![0u64, 0u64, 0u64, 0u64],
    {
        let r = Self::base(NestZilRecordType::SetAttr, txg, obj_id, 0, 0, 0);
        assert(r.name@ =~= name_area(Seq::empty(), 0));
        r
    }

    /// A hard link `name` under `parent_obj` to `obj_id`.
    pub fn new_link(txg: u64, parent_obj: u64, name: &str, obj_id: u64) -> (r: Self)
        ensures
            plain_record(r, NestZilRecordType::Link, txg, obj_id, parent_obj, 0, 0),
            r.name@ == name_area(name.spec_bytes(), 127),
            r.data_hash@ == seq![0u64, 0u64, 0u64, 0u64],
    {
        Self::named(NestZilRecordType::Link, txg, obj_id, parent_obj, name)
    }

    fn paired(t: NestZilRecordType, txg: u64, parent_obj: u64, a: &str, b: &str) -> (r: Self)
        ensures
            plain_record(r, t, txg, 0, parent_obj, 0, 0),
            r.name@ == pair_area(a.spec_bytes(), b.spec_bytes()),
            r.data_hash@ == seq![0u64, 0u64, 0u64, 0u64],
    {
        let mut r = Self::base(t, txg, 0, parent_obj, 0, 0);
        put_bytes(&mut r.name, 0, a.as_bytes(), 63);
        put_bytes(&mut r.name, 64, b.as_bytes(), 63);
        assert(r.name@ =~= pair_area(a.spec_bytes(), b.spec_bytes()));
        r
    }

    /// Rename of `old_name` to `new_name` under `parent_obj`.
    pub fn new_rename(txg: u64, parent_obj: u64, old_name: &str, new_name: &str) -> (r: Self)
        ensures
            plain_record(r, NestZilRecordType::Rename, txg, 0, parent_obj, 0, 0),
            r.name@ == pair_area(old_name.spec_bytes(), new_name.spec_bytes()),
            r.data_hash@ == seq![0u64, 0u64, 0u64, 0u64],
    {
        Self::paired(NestZilRecordType::Rename, txg, parent_obj, old_name, new_name)
    }

    /// Symbolic link `link_name` → `target` under `parent_obj`.
    pub fn new_symlink(txg: u64, parent_obj: u64, link_name: &str, target: &str) -> (r: Self)
        ensures
            plain_record(r, NestZilRecordType::Symlink, txg, 0, parent_obj, 0, 0),
            r.name@ == pair_area(link_name.spec_bytes(), target.spec_bytes()),
            r.data_hash@ == seq![0u64, 0u64, 0u64, 0u64],
    {
        Self::paired(NestZilRecordType::Symlink, txg, parent_obj, link_name, target)
    }

    /// A new reference of `obj_id` to the deduplicated block `hash`.
    pub fn new_dedup_ref(txg: u64, hash: [u64; 4], obj_id: u64) -> (r: Self)
        ensures
            plain_record(r, NestZilRecordType::DedupRef, txg, obj_id, 0, 0, 0),
            r.name@ == name_area(Seq::empty(), 0),
            r.data_hash == hash,
    {
        let mut r = Self::base(NestZilRecordType::DedupRef, txg, obj_id, 0, 0, 0);
        r.data_hash = hash;
        assert(r.name@ =~= name_area(Seq::empty(), 0));
        r
    }

    /// A dropped reference to the deduplicated block `hash`.
    pub fn new_dedup_unref(txg: u64, hash: [u64; 4]) -> (r: Self)
        ensures
            plain_record(r, NestZilRecordType::DedupUnref, txg, 0, 0, 0, 0),
            r.name@ == name_area(Seq::empty(), 0),
            r.data_hash == hash,
    {
        let mut r = Self::base(NestZilRecordType::DedupUnref, txg, 0, 0, 0, 0);
        r.data_hash = hash;
        assert(r.name@ =~= name_area(Seq::empty(), 0));
        r
    }
}

/// The records that survive a commit of `txg`.
pub open spec fn kept_after_commit(s: Seq<NestZilRecord>, txg: u64) -> Seq<NestZilRecord>
    decreases s.len(),
{
    if s.len() == 0 {
        s
    } else {
        let k = kept_after_commit(s.drop_last(), txg);
        if s.last().txg > txg { k.push(s.last()) } else { k }
    }
}

/// The largest sequence number among the records a commit of `txg` drops (0 when none).
pub open spec fn max_committed_seq(s: Seq<NestZilRecord>, txg: u64) -> u64
    decreases s.len(),
{
    if s.len() == 0 {
        0
    } else {
        let m = max_committed_seq(s.drop_last(), txg);
        if s.last().txg <= txg && s.last().seq > m { s.last().seq } else { m }
    }
}

/// `r` inserted into `s` after every record whose sequence number is not larger.
pub open spec fn sorted_insert(s: Seq<NestZilRecord>, r: NestZilRecord) -> Seq<NestZilRecord>
    decreases s.len(),
{
    if s.len() == 0 {
        seq![r]
    } else if s.last().seq <= r.seq {
        s.push(r)
    } else {
        sorted_insert(s.drop_last(), r).push(s.last())
    }
}

/// The records of `s` in a stable order of increasing sequence number.
pub open spec fn sort_by_seq(s: Seq<NestZilRecord>) -> Seq<NestZilRecord>
    decreases s.len(),
{
    if s.len() == 0 {
        s
    } else {
        sorted_insert(sort_by_seq(s.drop_last()), s.last())
    }
}

/// Sequence numbers never decrease along `s`.
pub open spec fn seq_sorted(s: Seq<NestZilRecord>) -> bool {
    forall|i: int, j: int| 0 <= i < j < s.len() ==> s[i].seq <= s[j].seq
}

/// `sorted_insert` places `r` at the given position.
pub proof fn lemma_sorted_insert_at(s: Seq<NestZilRecord>, r: NestZilRecord, j: int)
    requires
        0 <= j <= s.len(),
        forall|k: int| j <= k < s.len() ==> s[k].seq > r.seq,
        j == 0 || s[j - 1].seq <= r.seq,
    ensures
        sorted_insert(s, r) == s.insert(j, r),
    decreases s.len(),
{
    if s.len() == 0 {
        assert(s.insert(j, r) =~= seq![r]);
    } else if j == s.len() {
        assert(s.insert(j, r) =~= s.push(r));
    } else {
        let p = s.drop_last();
        assert forall|k: int| j <= k < p.len() implies p[k].seq > r.seq by {
            assert(p[k] == s[k]);
        }
        if j > 0 {
            assert(p[j - 1] == s[j - 1]);
        }
        lemma_sorted_insert_at(p, r, j);
        assert(p.insert(j, r).push(s.last()) =~= s.insert(j, r));
    }
}

/// `sorted_insert` keeps a sorted sequence sorted and adds one element.
pub proof fn lemma_sorted_insert_sorted(s: Seq<NestZilRecord>, r: NestZilRecord)
    requires
        seq_sorted(s),
    ensures
        seq_sorted(sorted_insert(s, r)),
        sorted_insert(s, r).len() == s.len() + 1,
        forall|i: int| 0 <= i < sorted_insert(s, r).len() ==>
            sorted_insert(s, r)[i] == r || s.contains(#[trigger] sorted_insert(s, r)[i]),
    decreases s.len(),
{
    if s.len() == 0 {
    } else if s.last().seq <= r.seq {
        let t = s.push(r);
        assert forall|i: int| 0 <= i < t.len() implies t[i] == r || s.contains(#[trigger] t[i]) by {
            if i < s.len() {
                assert(t[i] == s[i]);
            }
        }
    } else {
        let p = s.drop_last();
        assert(seq_sorted(p)) by {
            assert forall|i: int, j: int| 0 <= i < j < p.len() implies p[i].seq <= p[j].seq by {
                assert(p[i] == s[i] && p[j] == s[j]);
            }
        }
        lemma_sorted_insert_sorted(p, r);
        let q = sorted_insert(p, r);
        let t = q.push(s.last());
        assert forall|i: int| 0 <= i < q.len() implies q[i].seq <= s.last().seq by {
            if q[i] == r {
            } else {
                assert(p.contains(q[i]));
                let k = choose|k: int| 0 <= k < p.len() && p[k] == q[i];
                assert(p[k] == s[k]);
            }
        }
        assert forall|i: int| 0 <= i < t.len() implies t[i] == r || s.contains(#[trigger] t[i]) by {
            if i < q.len() {
                assert(t[i] == q[i]);
                if q[i] != r {
                    assert(p.contains(q[i]));
                    let k = choose|k: int| 0 <= k < p.len() && p[k] == q[i];
                    assert(s[k] == p[k]);
                }
            } else {
                assert(t[i] == s[s.len() - 1]);
            }
        }
        assert forall|i: int, j: int| 0 <= i < j < t.len() implies t[i].seq <= t[j].seq by {
            if j < q.len() {
                assert(t[i] == q[i] && t[j] == q[j]);
            } else {
                assert(t[i] == q[i]);
            }
        }
    }
}

/// Replay order: the records of any log come back sorted by sequence number,
/// one for each record held.
pub proof fn lemma_sort_by_seq_sorted(s: Seq<NestZilRecord>)
    ensures
        seq_sorted(sort_by_seq(s)),
        sort_by_seq(s).len() == s.len(),
    decreases s.len(),
{
    if s.len() > 0 {
        lemma_sort_by_seq_sorted(s.drop_last());
        lemma_sorted_insert_sorted(sort_by_seq(s.drop_last()), s.last());
    }
}

/// The records of `v` in a stable order of increasing sequence number.
pub fn sort_records_by_seq(v: &Vec<NestZilRecord>) -> (out: Vec<NestZilRecord>)
    ensures
        out@ == sort_by_seq(v@),
{
    let ghost s = v@;
    let mut out: Vec<NestZilRecord> = Vec::new();
    let mut i: usize = 0;
    while i < v.len()
        invariant
            s == v@,
            0 <= i <= s.len(),
            out@ == sort_by_seq(s.take(i as int)),
            out@.len() == i,
        decreases s.len() - i,
    {
        proof {
            assert(s.take(i + 1).drop_last() =~= s.take(i as int));
            lemma_sort_by_seq_sorted(s.take(i as int));
        }
        let r = v[i];
        let mut j: usize = out.len();
        while j > 0 && out[j - 1].seq > r.seq
            invariant
                0 <= j <= out@.len(),
                forall|k: int| j <= k < out@.len() ==> out@[k].seq > r.seq,
            decreases j,
        {
            j -= 1;
        }
        proof {
            lemma_sorted_insert_at(out@, r, j as int);
        }
        out.insert(j, r);
        i += 1;
    }
    assert(s.take(s.len() as int) =~= s);
    out
}

/// The intent log.
pub struct NestZil {
    pub records: Vec<NestZilRecord>,
    pub committed_seq: u64,
    pub current_seq: u64,
    pub log_bp: NestBlockPointer,
    pub itxg: u64,
    pub syncing: bool,
    pub replaying: bool,
    pub enabled: bool,
}

/// The log state after `add_record(record)`.
pub open spec fn zil_after_add(old: NestZil, new: NestZil, record: NestZilRecord) -> bool {
    if old.enabled {
        &&& new.current_seq == old.current_seq.wrapping_add(1)
        &&& new.records@ == old.records@.push(NestZilRecord { seq: new.current_seq, ..record })
    } else {
        &&& new.current_seq == old.current_seq
        &&& new.records@ == old.records@
    }
}

impl NestZil {
    /// An empty, enabled log.
    pub fn new() -> (z: Self)
        ensures
            z.records@ == Seq::<NestZilRecord>::empty(),
            z.committed_seq == 0,
            z.current_seq == 0,
            bp_is_null_value(z.log_bp),
            z.itxg == 0,
            !z.syncing,
            !z.replaying,
            z.enabled,
    {
        NestZil {
            records: Vec::new(),
            committed_seq: 0,
            current_seq: 0,
            log_bp: NestBlockPointer::null(),
            itxg: 0,
            syncing: false,
            replaying: false,
            enabled: true,
        }
    }

    /// Resets both sequence counters, drops every record and enables the log.
    pub fn init(&mut self)
        ensures
            final(self).records@ == Seq::<NestZilRecord>::empty(),
            final(self).committed_seq == 0,
            final(self).current_seq == 0,
            final(self).enabled,
            final(self).log_bp == old(self).log_bp,
            final(self).itxg == old(self).itxg,
            final(self).syncing == old(self).syncing,
            final(self).replaying == old(self).replaying,
    {
        self.committed_seq = 0;
        self.current_seq = 0;
        self.records.clear();
        self.enabled = true;
    }

    /// Appends `record` with the next sequence number; ignored while the log
    /// is disabled.
    pub fn add_record(&mut self, record: NestZilRecord)
        ensures
            zil_after_add(*old(self), *final(self), record),
            final(self).committed_seq == old(self).committed_seq,
            final(self).enabled == old(self).enabled,
            final(self).syncing == old(self).syncing,
            final(self).replaying == old(self).replaying,
            final(self).log_bp == old(self).log_bp,
            final(self).itxg == old(self).itxg,
    {
        if !self.enabled {
            return;
        }
        let seq = self.current_seq.wrapping_add(1);
        self.current_seq = seq;
        let mut rec = record;
        rec.seq = seq;
        self.records.push(rec);
    }

    /// Drops every record of txg `txg` or earlier and sets the committed
    /// sequence number to the largest dropped one (0 when none is dropped).
    pub fn commit(&mut self, txg: u64)
        ensures
            final(self).records@ == kept_after_commit(old(self).records@, txg),
            final(self).committed_seq == max_committed_seq(old(self).records@, txg),
            final(self).current_seq == old(self).current_seq,
            final(self).enabled == old(self).enabled,
            final(self).syncing == old(self).syncing,
            final(self).replaying == old(self).replaying,
            final(self).log_bp == old(self).log_bp,
            final(self).itxg == old(self).itxg,
    {
        let ghost s = self.records@;
        let mut kept: Vec<NestZilRecord> = Vec::new();
        let mut max_seq: u64 = 0;
        let mut i: usize = 0;
        while i < self.records.len()
            invariant
                s == self.records@,
                0 <= i <= s.len(),
                kept@ == kept_after_commit(s.take(i as int), txg),
                max_seq == max_committed_seq(s.take(i as int), txg),
            decreases s.len() - i,
        {
            proof {
                assert(s.take(i + 1).drop_last() =~= s.take(i as int));
            }
            let r = self.records[i];
            if r.txg <= txg {
                if r.seq > max_seq {
                    max_seq = r.seq;
                }
            } else {
                kept.push(r);
            }
            i += 1;
        }
        assert(s.take(s.len() as int) =~= s);
        self.records = kept;
        self.committed_seq = max_seq;
    }

    /// Commits `txg`, unless a sync is already under way.
    pub fn sync(&mut self, txg: u64)
        ensures
            old(self).syncing ==> *final(self) == *old(self),
            !old(self).syncing ==> {
                &&& final(self).records@ == kept_after_commit(old(self).records@, txg)
                &&& final(self).committed_seq == max_committed_seq(old(self).records@, txg)
                &&& final(self).current_seq == old(self).current_seq
                &&& final(self).enabled == old(self).enabled
                &&& !final(self).syncing
                &&& final(self).replaying == old(self).replaying
                &&& final(self).log_bp == old(self).log_bp
                &&& final(self).itxg == old(self).itxg
            },
    {
        if self.syncing {
            return;
        }
        self.commit(txg);
    }

    /// The pending records ordered by sequence number (stable); empty while
    /// another replay is under way.
    pub fn replay(&self) -> (r: Vec<NestZilRecord>)
        ensures
            self.replaying ==> r@ == Seq::<NestZilRecord>::empty(),
            !self.replaying ==> r@ == sort_by_seq(self.records@),
    {
        if self.replaying {
            return Vec::new();
        }
        sort_records_by_seq(&self.records)
    }

    /// Whether records were added after the last commit.
    pub fn has_uncommitted(&self) -> (r: bool)
        ensures
            r == (self.current_seq > self.committed_seq),
    {
        self.current_seq > self.committed_seq
    }

    /// Number of pending records.
    pub fn pending_count(&self) -> (n: usize)
        ensures
            n == self.records@.len(),
    {
        self.records.len()
    }
}

/// A committed txg leaves no pending record of that txg or an earlier one.
pub proof fn lemma_commit_drops_old(s: Seq<NestZilRecord>, txg: u64)
    ensures
        forall|i: int| 0 <= i < kept_after_commit(s, txg).len() ==> #[trigger] kept_after_commit(s, txg)[i].txg > txg,
        kept_after_commit(s, txg).len() <= s.len(),
    decreases s.len(),
{
    if s.len() > 0 {
        lemma_commit_drops_old(s.drop_last(), txg);
        let k = kept_after_commit(s.drop_last(), txg);
        if s.last().txg > txg {
            assert forall|i: int| 0 <= i < k.push(s.last()).len() implies #[trigger] k.push(s.last())[i].txg > txg by {
                if i < k.len() {
                    assert(k.push(s.last())[i] == k[i]);
                }
            }
        }
    }
}

/// Commit keeps, in order, exactly the records of later txgs.
pub proof fn lemma_commit_keeps_later(s: Seq<NestZilRecord>, txg: u64)
    requires
        forall|i: int| 0 <= i < s.len() ==> #[trigger] s[i].txg > txg,
    ensures
        kept_after_commit(s, txg) == s,
        max_committed_seq(s, txg) == 0,
    decreases s.len(),
{
    if s.len() > 0 {
        let p = s.drop_last();
        assert forall|i: int| 0 <= i < p.len() implies #[trigger] p[i].txg > txg by {
            assert(p[i] == s[i]);
        }
        lemma_commit_keeps_later(p, txg);
        assert(p.push(s.last()) =~= s);
    }
}

} // verus!
