//! ext2 directory blocks: the bytes of a new directory entry, where in a
//! directory block a new entry goes, and the block after placing it.
//!
//! An entry is the child's inode number (32 bits), the record length (16
//! bits), the name length and the file type (a byte each), then the name,
//! padded with zeros to a multiple of four bytes. All integers are
//! little-endian. Reading and writing blocks is the caller's part.
use crate::bytes_util::{append_bytes, min_int, overwrite, slice_prefix, write_at, zeroed};
use crate::errno::Errno;
use crate::nestfs::bp::{le_u16_at, le_u32_at, read_le_u16, read_le_u32};
use vstd::prelude::*;
use vstd::bytes::{spec_u16_to_le_bytes, spec_u32_to_le_bytes, u16_to_le_bytes, u32_to_le_bytes};
use vstd::string::StringSliceAdditionalSpecFns;

verus! {

/// Bytes of an entry before its name.
pub const DIR_ENTRY_HEADER: usize = 8;

/// Longest name an entry holds.
pub const DIR_NAME_MAX: usize = 255;

/// Bytes of `name` that an entry keeps.
pub open spec fn dir_name_len(name: Seq<u8>) -> int {
    min_int(name.len() as int, DIR_NAME_MAX as int)
}

/// Record length of an entry with a name of `n` bytes: header and name,
/// rounded up to a multiple of four.
pub open spec fn dir_rec_len(n: int) -> int {
    (n + 11) / 4 * 4
}

/// The bytes of the entry for `child` named `name` with type `file_type`.
pub open spec fn dir_entry_image(child: u32, name: Seq<u8>, file_type: u8) -> Seq<u8> {
    let n = dir_name_len(name);
    let rl = dir_rec_len(n);
    spec_u32_to_le_bytes(child) + spec_u16_to_le_bytes(rl as u16) + seq![n as u8, file_type] + name.take(n)
        + Seq::new((rl - 8 - n) as nat, |i: int| 0u8)
}

/// The entry for `child` named `name` (cut at 255 bytes) with type
/// `file_type`.
pub fn dir_entry_bytes(child: u32, name: &str, file_type: u8) -> (r: Vec<u8>)
    ensures
        r@ == dir_entry_image(child, name.spec_bytes(), file_type),
        r@.len() == dir_rec_len(dir_name_len(name.spec_bytes())),
{
    let nb = name.as_bytes();
    let n: usize = if nb.len() < DIR_NAME_MAX { nb.len() } else { DIR_NAME_MAX };
    let rl: usize = (n + 11) / 4 * 4;
    proof {
        vstd::bytes::lemma_auto_spec_u32_to_from_le_bytes();
        vstd::bytes::lemma_auto_spec_u16_to_from_le_bytes();
        assert(rl <= 268);
        assert(rl >= n + 8);
    }
    let mut r: Vec<u8> = Vec::new();
    append_bytes(&mut r, u32_to_le_bytes(child).as_slice());
    append_bytes(&mut r, u16_to_le_bytes(rl as u16).as_slice());
    r.push(n as u8);
    r.push(file_type);
    append_bytes(&mut r, slice_prefix(nb, n));
    let pad = zeroed(rl - 8 - n);
    append_bytes(&mut r, pad.as_slice());
    proof {
        assert(r@ =~= dir_entry_image(child, name.spec_bytes(), file_type));
    }
    r
}

/// Where a scan of directory block `b` (of `bs` bytes) that has reached
/// offset `off` stops: at the end of the block (an offset of `bs` or
/// more), where fewer than eight bytes of `b` are left, or at the first
/// entry whose inode is 0 (a free entry). `None` when an entry in use has
/// record length 0: the scan would never end.
pub open spec fn dir_scan_from(b: Seq<u8>, bs: int, off: int) -> Option<int>
    decreases (if off < bs { bs - off } else { 0 }),
{
    if off >= bs || off < 0 {
        Some(off)
    } else if off + 8 > b.len() {
        Some(off)
    } else if le_u32_at(b, off) == 0 {
        Some(off)
    } else if le_u16_at(b, off + 4) == 0 {
        None
    } else {
        dir_scan_from(b, bs, off + le_u16_at(b, off + 4) as int)
    }
}

/// Walks directory block `block` of `block_size` bytes entry by entry from
/// the start and returns where it stopped (see `dir_scan_from`): an offset
/// under `block_size` is where a new entry may go. `None` when it meets an
/// entry in use with record length 0, past which the walk makes no
/// progress.
pub fn dir_scan_block(block: &[u8], block_size: usize) -> (r: Option<usize>)
    requires
        block_size + 0x10000 <= usize::MAX,
    ensures
        r is None <==> dir_scan_from(block@, block_size as int, 0) is None,
        r matches Some(o) ==> dir_scan_from(block@, block_size as int, 0) == Some(o as int),
{
    let mut off: usize = 0;
    while off < block_size
        invariant
            off < block_size + 0x10000,
            block_size + 0x10000 <= usize::MAX,
            dir_scan_from(block@, block_size as int, off as int) == dir_scan_from(block@, block_size as int, 0),
        decreases (if off < block_size { block_size - off } else { 0 }),
    {
        if off + 8 > block.len() {
            return Some(off);
        }
        let ino = read_le_u32(block, off);
        let rl = read_le_u16(block, off + 4);
        if ino == 0 {
            return Some(off);
        }
        if rl == 0 {
            return None;
        }
        off = off + rl as usize;
    }
    Some(off)
}

/// Where a new entry lands.
#[derive(Debug, Clone)]
pub enum DirInsert {
    /// In the block scanned, whose new bytes these are.
    InBlock(Vec<u8>),
    /// In a fresh block after it, whose bytes these are.
    FreshBlock(Vec<u8>),
}

/// Places `entry` in directory block `block` at `offset`, where its scan
/// stopped, when it fits within `block_size` bytes; else in a fresh block
/// of `block_size` zero bytes, at its start.
pub fn dir_insert(block: &[u8], offset: usize, entry: &[u8], block_size: usize) -> (r: DirInsert)
    requires
        offset + entry@.len() <= block_size ==> offset + entry@.len() <= block@.len(),
        offset + entry@.len() > block_size ==> entry@.len() <= block_size,
        offset + entry@.len() <= usize::MAX,
    ensures
        offset + entry@.len() <= block_size ==> (r matches DirInsert::InBlock(d)
            && d@ == overwrite(block@, offset as int, entry@)),
        offset + entry@.len() > block_size ==> (r matches DirInsert::FreshBlock(d)
            && d@ == overwrite(Seq::new(block_size as nat, |i: int| 0u8), 0, entry@)),
{
    if offset + entry.len() > block_size {
        let mut d = zeroed(block_size);
        write_at(&mut d, 0, entry);
        DirInsert::FreshBlock(d)
    } else {
        let mut d: Vec<u8> = Vec::new();
        append_bytes(&mut d, block);
        write_at(&mut d, offset, entry);
        DirInsert::InBlock(d)
    }
}

/// File type of a directory, as an inode reports it.
pub const EXT2_TYPE_DIR: u8 = 1;

/// Entries go only into directories: `ENOTDIR` for any other file type.
pub fn require_directory(file_type: u8) -> (r: Result<(), Errno>)
    ensures
        r is Err <==> file_type != EXT2_TYPE_DIR,
        r is Err ==> r == Err::<(), Errno>(Errno::ENOTDIR),
{
    if file_type != EXT2_TYPE_DIR {
        Err(Errno::ENOTDIR)
    } else {
        Ok(())
    }
}

/// The directory's size after an entry of `entry_len` bytes is added.
pub fn dir_commit(i_size: u32, entry_len: usize) -> (r: u32)
    requires
        i_size + entry_len <= u32::MAX,
    ensures
        r == i_size + entry_len,
{
    i_size + entry_len as u32
}

/// Direct slots a directory's entries are placed in.
pub const DIR_DIRECT_SLOTS: usize = 12;

/// The first direct slot from `from` on that holds a block; 12 when none.
pub open spec fn next_used(slots: Seq<u32>, from: int) -> int
    decreases (if from < 12 { 12 - from } else { 0 }),
{
    if from >= 12 || from < 0 {
        12
    } else if slots[from] != 0 {
        from
    } else {
        next_used(slots, from + 1)
    }
}

/// The first direct slot from `from` on that holds a block (12 when none).
fn find_used(slots: &[u32; 15], from: usize) -> (r: usize)
    requires
        from <= 12,
    ensures
        r as int == next_used(slots@, from as int),
        from <= r <= 12,
        r < 12 ==> slots@[r as int] != 0,
{
    let mut j = from;
    while j < DIR_DIRECT_SLOTS
        invariant
            from <= j <= 12,
            next_used(slots@, j as int) == next_used(slots@, from as int),
        decreases 12 - j,
    {
        if slots[j] != 0 {
            return j;
        }
        j += 1;
    }
    j
}

/// Where a walk adding a directory entry stands.
#[derive(Debug, Clone)]
pub enum DirStage {
    /// The block of direct slot `i` is being read to find room in it.
    Scanning(usize),
    /// A first block is being allocated for a directory that has none.
    AllocatingFirst,
    /// The chosen block is being read to place the entry.
    Final,
    /// A fresh block is being allocated to hold these bytes.
    AllocatingFresh(Vec<u8>),
    /// The block holding the entry is being written.
    Saving,
    /// Nothing more to do.
    Finished,
}

/// A walk adding entry `entry` to a directory whose direct slots are
/// `slots` (kept up to date), with `block_size`-byte blocks: the last block
/// looked at, its slot, the offset chosen and the stage.
#[derive(Debug)]
pub struct DirWalk {
    pub slots: [u32; 15],
    pub entry: Vec<u8>,
    pub block_size: usize,
    pub last_idx: usize,
    pub last_num: u32,
    pub insert_offset: usize,
    pub stage: DirStage,
}

/// What the caller does next.
#[derive(Debug, Clone)]
pub enum DirAction {
    /// Read the block and report its bytes.
    Read(u32),
    /// Allocate a block and report it.
    Allocate,
    /// Write these bytes to the block.
    Save(u32, Vec<u8>),
    /// The entry is in place; the slots and the size are to be stored.
    Done,
    /// A walked entry in use has record length 0: the walk of the block
    /// makes no progress.
    Stuck,
    /// The entry reaches past the end of the block read.
    OutOfRange,
}

/// What the caller reports back.
#[derive(Debug, Clone)]
pub enum DirEvent {
    /// The bytes of the block read.
    Read(Vec<u8>),
    /// The block allocated.
    Allocated(u32),
    /// The write is done.
    Saved,
}

impl DirWalk {
    /// Bounds the walk keeps.
    pub open spec fn wf(&self) -> bool {
        &&& self.block_size + 0x10000 <= usize::MAX
        &&& self.entry@.len() <= 0x1000
        &&& self.last_idx < DIR_DIRECT_SLOTS
        &&& self.insert_offset <= self.block_size
        &&& (self.stage matches DirStage::Scanning(i) ==> i < DIR_DIRECT_SLOTS && self.slots@[i as int] != 0)
    }

    /// The report that the walk's stage waits for.
    pub open spec fn expects(&self, ev: DirEvent) -> bool {
        match self.stage {
            DirStage::Scanning(_) => ev is Read,
            DirStage::Final => ev is Read,
            DirStage::AllocatingFirst => ev is Allocated,
            DirStage::AllocatingFresh(_) => ev is Allocated,
            DirStage::Saving => ev is Saved,
            DirStage::Finished => false,
        }
    }
}

/// Whether `w` waits for `ev` (see `DirWalk::expects`).
pub fn dir_expects(w: &DirWalk, ev: &DirEvent) -> (r: bool)
    ensures
        r == w.expects(*ev),
{
    match (&w.stage, ev) {
        (DirStage::Scanning(_), DirEvent::Read(_)) => true,
        (DirStage::Final, DirEvent::Read(_)) => true,
        (DirStage::AllocatingFirst, DirEvent::Allocated(_)) => true,
        (DirStage::AllocatingFresh(_), DirEvent::Allocated(_)) => true,
        (DirStage::Saving, DirEvent::Saved) => true,
        _ => false,
    }
}

/// The step once the direct slots have been looked through: allocate a
/// first block when no slot held one, else read the block chosen.
pub open spec fn after_scan(nw: DirWalk, a: DirAction) -> bool {
    if nw.last_num == 0 {
        a is Allocate && nw.stage is AllocatingFirst
    } else {
        a == DirAction::Read(nw.last_num) && nw.stage is Final
    }
}

/// The step that looks at the used direct slots from `from` on.
pub open spec fn scan_from(nw: DirWalk, from: int, a: DirAction) -> bool {
    let j = next_used(nw.slots@, from);
    if j < 12 {
        a == DirAction::Read(nw.slots@[j]) && nw.stage == DirStage::Scanning(j as usize)
    } else {
        after_scan(nw, a)
    }
}

/// The step `nw`, `a` of walk `w` on report `ev` (see `dir_next`).
pub open spec fn dir_step(w: DirWalk, ev: DirEvent, nw: DirWalk, a: DirAction) -> bool {
    let bs = w.block_size as int;
    let off = w.insert_offset as int;
    let len = w.entry@.len() as int;
    &&& nw.entry == w.entry
    &&& nw.block_size == w.block_size
    &&& match (w.stage, ev) {
        (DirStage::Scanning(i), DirEvent::Read(d)) => {
            let s = dir_scan_from(d@, bs, 0);
            &&& nw.slots == w.slots && nw.last_idx == i && nw.last_num == w.slots@[i as int]
            &&& s is None ==> a is Stuck && nw.stage is Finished
            &&& s is Some && s.unwrap() < bs ==> nw.insert_offset == s.unwrap() && a == DirAction::Read(w.slots@[i as int])
                && nw.stage is Final
            &&& s is Some && s.unwrap() >= bs ==> nw.insert_offset == w.insert_offset && scan_from(nw, i + 1, a)
        },
        (DirStage::AllocatingFirst, DirEvent::Allocated(b)) => {
            &&& nw.slots@ == w.slots@.update(0, b) && nw.last_idx == w.last_idx && nw.last_num == b
            &&& nw.insert_offset == 0 && a == DirAction::Read(b) && nw.stage is Final
        },
        (DirStage::Final, DirEvent::Read(d)) => {
            &&& nw.slots == w.slots && nw.last_idx == w.last_idx
            &&& off + len > bs && len > bs ==> a is OutOfRange && nw.stage is Finished
            &&& off + len > bs && len <= bs ==> a is Allocate && nw.stage is AllocatingFresh
                && nw.stage->AllocatingFresh_0@ == overwrite(Seq::new(bs as nat, |k: int| 0u8), 0, w.entry@)
            &&& off + len <= bs && off + len > d@.len() ==> a is OutOfRange && nw.stage is Finished
            &&& off + len <= bs && off + len <= d@.len() ==> a is Save && a->Save_0 == w.last_num
                && a->Save_1@ == overwrite(d@, off, w.entry@) && nw.stage is Saving
        },
        (DirStage::AllocatingFresh(f), DirEvent::Allocated(b)) => {
            &&& nw.slots@ == w.slots@.update(w.last_idx + 1, b) && nw.last_idx == w.last_idx && nw.last_num == b
            &&& a is Save && a->Save_0 == b && a->Save_1 == f && nw.stage is Saving
        },
        (DirStage::Saving, _) => nw.slots == w.slots && a is Done && nw.stage is Finished,
        _ => true,
    }
}

/// Starts adding `entry` to a directory whose direct slots are `slots`:
/// reads the first used direct block, or allocates a first block when
/// there is none.
pub fn dir_begin(slots: [u32; 15], entry: Vec<u8>, block_size: usize) -> (r: (DirWalk, DirAction))
    requires
        block_size + 0x10000 <= usize::MAX,
        entry@.len() <= 0x1000,
    ensures
        r.0.wf(),
        r.0.slots == slots && r.0.entry == entry && r.0.block_size == block_size,
        r.0.last_idx == 0 && r.0.last_num == 0 && r.0.insert_offset == 0,
        scan_from(r.0, 0, r.1),
{
    let w = DirWalk { slots, entry, block_size, last_idx: 0, last_num: 0, insert_offset: 0, stage: DirStage::Finished };
    dir_scan_on(w, 0)
}

/// The walk looking at the used direct slots of `w` from `from` on.
fn dir_scan_on(w: DirWalk, from: usize) -> (r: (DirWalk, DirAction))
    requires
        from <= 12,
        w.block_size + 0x10000 <= usize::MAX,
        w.entry@.len() <= 0x1000,
        w.last_idx < DIR_DIRECT_SLOTS,
        w.insert_offset <= w.block_size,
    ensures
        r.0.wf(),
        r.0.slots == w.slots && r.0.entry == w.entry && r.0.block_size == w.block_size,
        r.0.last_idx == w.last_idx && r.0.last_num == w.last_num && r.0.insert_offset == w.insert_offset,
        scan_from(r.0, from as int, r.1),
{
    let j = find_used(&w.slots, from);
    let DirWalk { slots, entry, block_size, last_idx, last_num, insert_offset, stage: _ } = w;
    if j < DIR_DIRECT_SLOTS {
        let b = slots[j];
        (DirWalk { slots, entry, block_size, last_idx, last_num, insert_offset, stage: DirStage::Scanning(j) }, DirAction::Read(b))
    } else if last_num == 0 {
        (DirWalk { slots, entry, block_size, last_idx, last_num, insert_offset, stage: DirStage::AllocatingFirst }, DirAction::Allocate)
    } else {
        (DirWalk { slots, entry, block_size, last_idx, last_num, insert_offset, stage: DirStage::Final }, DirAction::Read(last_num))
    }
}

/// The next step of walk `w` on report `ev`.
///
/// Each used direct block is scanned in turn; the first whose scan stops
/// inside the block takes the entry at that offset, else the last used
/// block is taken at the offset kept (0 at first). A directory with no
/// block gets a first one in slot 0. The chosen block is read again; when
/// the entry does not fit in it, a fresh block after it (in the next slot)
/// holds the entry at its start.
pub fn dir_next(w: DirWalk, ev: DirEvent) -> (r: (DirWalk, DirAction))
    requires
        w.wf(),
        w.expects(ev),
    ensures
        r.0.wf(),
        dir_step(w, ev, r.0, r.1),
{
    let DirWalk { slots, entry, block_size, last_idx, last_num, insert_offset, stage } = w;
    match stage {
        DirStage::Scanning(i) => {
            let d = match ev {
                DirEvent::Read(d) => d,
                _ => Vec::new(),
            };
            let num = slots[i];
            match dir_scan_block(d.as_slice(), block_size) {
                None => {
                    (DirWalk { slots, entry, block_size, last_idx: i, last_num: num, insert_offset, stage: DirStage::Finished }, DirAction::Stuck)
                },
                Some(o) => {
                    if o < block_size {
                        (DirWalk { slots, entry, block_size, last_idx: i, last_num: num, insert_offset: o, stage: DirStage::Final }, DirAction::Read(num))
                    } else {
                        let nw = DirWalk { slots, entry, block_size, last_idx: i, last_num: num, insert_offset, stage: DirStage::Finished };
                        dir_scan_on(nw, i + 1)
                    }
                },
            }
        },
        DirStage::AllocatingFirst => {
            let b = match ev {
                DirEvent::Allocated(b) => b,
                _ => 0,
            };
            let mut slots = slots;
            slots[0] = b;
            (DirWalk { slots, entry, block_size, last_idx, last_num: b, insert_offset: 0, stage: DirStage::Final }, DirAction::Read(b))
        },
        DirStage::Final => {
            let d = match ev {
                DirEvent::Read(d) => d,
                _ => Vec::new(),
            };
            let len = entry.len();
            if insert_offset + len > block_size && len > block_size {
                return (DirWalk { slots, entry, block_size, last_idx, last_num, insert_offset, stage: DirStage::Finished }, DirAction::OutOfRange);
            }
            if insert_offset + len <= block_size && insert_offset + len > d.len() {
                return (DirWalk { slots, entry, block_size, last_idx, last_num, insert_offset, stage: DirStage::Finished }, DirAction::OutOfRange);
            }
            match dir_insert(d.as_slice(), insert_offset, entry.as_slice(), block_size) {
                DirInsert::InBlock(nd) => {
                    (DirWalk { slots, entry, block_size, last_idx, last_num, insert_offset, stage: DirStage::Saving }, DirAction::Save(last_num, nd))
                },
                DirInsert::FreshBlock(f) => {
                    (DirWalk { slots, entry, block_size, last_idx, last_num, insert_offset, stage: DirStage::AllocatingFresh(f) }, DirAction::Allocate)
                },
            }
        },
        DirStage::AllocatingFresh(f) => {
            let b = match ev {
                DirEvent::Allocated(b) => b,
                _ => 0,
            };
            let mut slots = slots;
            slots[last_idx + 1] = b;
            (DirWalk { slots, entry, block_size, last_idx, last_num: b, insert_offset, stage: DirStage::Saving }, DirAction::Save(b, f))
        },
        DirStage::Saving => {
            (DirWalk { slots, entry, block_size, last_idx, last_num, insert_offset, stage: DirStage::Finished }, DirAction::Done)
        },
        DirStage::Finished => {
            (DirWalk { slots, entry, block_size, last_idx, last_num, insert_offset, stage: DirStage::Finished }, DirAction::Done)
        },
    }
}

/// An entry placed in a block reads back from it: the saved block keeps
/// its length, holds the entry at the offset chosen and is unchanged
/// elsewhere.
pub proof fn law_placed_entry_reads_back(d: Seq<u8>, off: int, entry: Seq<u8>)
    requires
        0 <= off,
        off + entry.len() <= d.len(),
    ensures
        overwrite(d, off, entry).len() == d.len(),
        overwrite(d, off, entry).subrange(off, off + entry.len()) == entry,
        forall|k: int| 0 <= k < d.len() && !(off <= k < off + entry.len())
            ==> #[trigger] overwrite(d, off, entry)[k] == d[k],
{
    assert(overwrite(d, off, entry).subrange(off, off + entry.len()) =~= entry);
}

} // verus!
