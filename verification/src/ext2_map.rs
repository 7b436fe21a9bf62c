//! The ext2 block map: which inode slot and which entries of which
//! indirect blocks lead to a logical block of a file.
//!
//! Slots 0 to 11 of an inode point at data blocks; slot 12 at a block of
//! pointers, slot 13 at a block of pointers to such blocks, slot 14 one
//! level deeper. A block of pointers holds `block_size / 4` little-endian
//! 32-bit block numbers; 0 means "not allocated". Reading the blocks is
//! the caller's part: `map_first` and `map_next` say, after each read,
//! which block to read next or what the answer is.
use crate::bytes_util::{append_bytes, overwrite, write_at};
use crate::nestfs::bp::{le_u32_at, read_le_u32};
use vstd::prelude::*;
use vstd::bytes::{spec_u32_to_le_bytes, u32_to_le_bytes};

verus! {

/// Direct pointers in an inode.
pub const EXT2_NDIR_BLOCKS: u32 = 12;

/// The slot of the inode that the path to `logical` starts from.
pub open spec fn path_slot(logical: int, bpi: int) -> int {
    if logical < 12 {
        logical
    } else if logical < 12 + bpi {
        12
    } else if logical < 12 + bpi + bpi * bpi {
        13
    } else {
        14
    }
}

/// The entries to follow in the blocks of pointers, outermost first.
pub open spec fn path_indices(logical: int, bpi: int) -> Seq<int> {
    if logical < 12 {
        Seq::empty()
    } else if logical < 12 + bpi {
        seq![logical - 12]
    } else if logical < 12 + bpi + bpi * bpi {
        let idx = logical - 12 - bpi;
        seq![idx / bpi, idx % bpi]
    } else {
        let idx = logical - 12 - bpi - bpi * bpi;
        seq![idx / (bpi * bpi), (idx / bpi) % bpi, idx % bpi]
    }
}

/// The block map path of a logical block.
#[derive(Debug, Clone)]
pub struct Ext2BlockPath {
    pub slot: usize,
    pub indices: Vec<u32>,
}

/// The path to logical block `logical` for blocks of `block_size` bytes.
pub fn block_path(logical: u32, block_size: u32) -> (p: Ext2BlockPath)
    requires
        logical >= 12 ==> block_size >= 4,
        logical >= 12 + block_size / 4 ==> 12 + block_size / 4 + (block_size / 4) * (block_size / 4) <= u32::MAX,
    ensures
        p.slot == path_slot(logical as int, (block_size / 4) as int),
        p.indices@.len() == path_indices(logical as int, (block_size / 4) as int).len(),
        forall|k: int| 0 <= k < p.indices@.len() ==> p.indices@[k] as int == path_indices(logical as int, (block_size / 4) as int)[k],
{
    let bpi = block_size / 4;
    if logical < 12 {
        Ext2BlockPath { slot: logical as usize, indices: Vec::new() }
    } else if logical - 12 < bpi {
        Ext2BlockPath { slot: 12, indices: vec![logical - 12] }
    } else {
        assert(bpi * bpi <= u32::MAX) by (nonlinear_arith)
            requires
                12 + bpi + bpi * bpi <= u32::MAX,
        ;
        let sq = bpi * bpi;
        if logical < 12 + bpi + sq {
            let idx = logical - 12 - bpi;
            Ext2BlockPath { slot: 13, indices: vec![idx / bpi, idx % bpi] }
        } else {
            assert(sq >= 1) by (nonlinear_arith)
                requires
                    bpi >= 1,
                    sq == bpi * bpi,
            ;
            let idx = logical - 12 - bpi - sq;
            Ext2BlockPath { slot: 14, indices: vec![idx / sq, (idx / bpi) % bpi, idx % bpi] }
        }
    }
}

/// Entry `idx` of a block of pointers; 0 when the block is too short.
pub open spec fn pointer_entry(data: Seq<u8>, idx: int) -> u32 {
    if 4 * idx + 4 <= data.len() {
        le_u32_at(data, 4 * idx)
    } else {
        0
    }
}

/// Entry `idx` of the block of pointers `data` (0 past its end).
pub fn indirect_entry(data: &[u8], idx: u32) -> (r: u32)
    ensures
        r == pointer_entry(data@, idx as int),
{
    let n = data.len();
    let i = idx as usize;
    if i >= n / 4 {
        return 0;
    }
    read_le_u32(data, 4 * i)
}

/// What to do next while mapping a block.
#[derive(Debug, Clone, Copy, PartialEq, Eq, Structural)]
pub enum MapStep {
    /// The physical block (0: not allocated).
    Done(u32),
    /// Read this block of pointers and call `map_next`.
    Read(u32),
}

/// The first step: a direct slot gives the block; the root of an indirect
/// path is read unless it is 0, which means not allocated.
pub fn map_first(i_block: &[u32; 15], path: &Ext2BlockPath) -> (r: MapStep)
    requires
        path.slot < 15,
    ensures
        path.indices@.len() == 0 ==> r == MapStep::Done(i_block@[path.slot as int]),
        path.indices@.len() > 0 && i_block@[path.slot as int] == 0 ==> r == MapStep::Done(0),
        path.indices@.len() > 0 && i_block@[path.slot as int] != 0 ==> r == MapStep::Read(i_block@[path.slot as int]),
{
    let b = i_block[path.slot];
    if path.indices.len() == 0 {
        MapStep::Done(b)
    } else if b == 0 {
        MapStep::Done(0)
    } else {
        MapStep::Read(b)
    }
}

/// The step after reading `data`, the block of pointers at depth `level`:
/// the entry of the path in it is the answer at the last level; before
/// that it is read next unless it is 0.
pub fn map_next(path: &Ext2BlockPath, level: usize, data: &[u8]) -> (r: MapStep)
    requires
        level < path.indices@.len(),
    ensures
        ({
            let e = pointer_entry(data@, path.indices@[level as int] as int);
            if level + 1 == path.indices@.len() {
                r == MapStep::Done(e)
            } else if e == 0 {
                r == MapStep::Done(0)
            } else {
                r == MapStep::Read(e)
            }
        }),
{
    let e = indirect_entry(data, path.indices[level]);
    if level == path.indices.len() - 1 {
        MapStep::Done(e)
    } else if e == 0 {
        MapStep::Done(0)
    } else {
        MapStep::Read(e)
    }
}

/// The path along which a logical block is filled in: one or two levels
/// of pointer blocks; `None` for logical blocks that need three levels,
/// which filling in does not support.
pub fn alloc_path(logical: u32, block_size: u32) -> (r: Option<Ext2BlockPath>)
    requires
        logical >= 12,
        block_size >= 4,
        logical >= 12 + block_size / 4 ==> 12 + block_size / 4 + (block_size / 4) * (block_size / 4) <= u32::MAX,
    ensures
        path_slot(logical as int, (block_size / 4) as int) == 14 ==> r is None,
        path_slot(logical as int, (block_size / 4) as int) != 14 ==> (r matches Some(p)
            && p.slot == path_slot(logical as int, (block_size / 4) as int)
            && p.indices@.len() == path_indices(logical as int, (block_size / 4) as int).len()
            && forall|k: int| 0 <= k < p.indices@.len()
                ==> p.indices@[k] as int == path_indices(logical as int, (block_size / 4) as int)[k]),
{
    let p = block_path(logical, block_size);
    if p.slot == 14 {
        None
    } else {
        Some(p)
    }
}

/// What filling in a path does with the entry of one pointer block.
#[derive(Debug, Clone, Copy, PartialEq, Eq, Structural)]
pub enum AllocStep {
    /// The entry points at this block: follow it, or at the last level it
    /// is the block sought.
    Use(u32),
    /// The entry is 0: a block is allocated and its number stored there
    /// (see `set_indirect_entry`).
    Allocate,
    /// The pointer block is too short to hold the entry.
    OutOfRange,
}

/// The step for entry `idx` of the pointer block `data`.
pub fn alloc_step(data: &[u8], idx: u32) -> (r: AllocStep)
    ensures
        4 * idx + 4 > data@.len() ==> r == AllocStep::OutOfRange,
        4 * idx + 4 <= data@.len() && le_u32_at(data@, 4 * idx) == 0 ==> r == AllocStep::Allocate,
        4 * idx + 4 <= data@.len() && le_u32_at(data@, 4 * idx) != 0
            ==> r == AllocStep::Use(le_u32_at(data@, 4 * idx)),
{
    let n = data.len();
    let i = idx as usize;
    if i >= n / 4 {
        return AllocStep::OutOfRange;
    }
    let e = read_le_u32(data, 4 * i);
    if e == 0 {
        AllocStep::Allocate
    } else {
        AllocStep::Use(e)
    }
}

/// The pointer block `data` with entry `idx` set to `block`.
pub fn set_indirect_entry(data: &[u8], idx: u32, block: u32) -> (r: Vec<u8>)
    requires
        4 * idx + 4 <= data@.len(),
    ensures
        r@ == overwrite(data@, 4 * idx as int, spec_u32_to_le_bytes(block)),
        r@.len() == data@.len(),
        pointer_entry(r@, idx as int) == block,
{
    let _n = data.len();
    let off: usize = 4 * (idx as usize);
    let mut r: Vec<u8> = Vec::new();
    append_bytes(&mut r, data);
    let b = u32_to_le_bytes(block);
    proof {
        vstd::bytes::lemma_auto_spec_u32_to_from_le_bytes();
    }
    write_at(&mut r, off, b.as_slice());
    proof {
        assert(r@ =~= overwrite(data@, 4 * idx as int, spec_u32_to_le_bytes(block)));
        assert(r@.subrange(4 * idx as int, 4 * idx + 4) =~= spec_u32_to_le_bytes(block));
    }
    r
}

/// The map step after reading block `data` at depth `level` of a path
/// whose entries are `indices` (see `map_next`).
pub open spec fn map_step(indices: Seq<u32>, level: int, data: Seq<u8>) -> MapStep {
    let e = pointer_entry(data, indices[level] as int);
    if level + 1 == indices.len() {
        MapStep::Done(e)
    } else if e == 0 {
        MapStep::Done(0)
    } else {
        MapStep::Read(e)
    }
}

/// Where a walk filling in a path stands.
#[derive(Debug, Clone)]
pub enum FillStage {
    /// The root pointer block is being allocated.
    Root,
    /// The new root pointer block is being zeroed.
    RootZeroing,
    /// The pointer block `holder` is being read.
    Reading,
    /// A block is being allocated for the empty entry of this pointer block.
    Allocating(Vec<u8>),
    /// The new pointer block is being zeroed; then the parent, these bytes,
    /// is saved with its entry set.
    Zeroing(u32, Vec<u8>),
    /// The parent is being saved with its entry set to this block.
    Saving(u32),
    /// Nothing more to do.
    Finished,
}

/// A walk filling in the path to a logical block: the path, the depth
/// reached, the pointer block at that depth and the stage.
#[derive(Debug)]
pub struct FillWalk {
    pub path: Ext2BlockPath,
    pub level: usize,
    pub holder: u32,
    pub stage: FillStage,
}

/// What the caller does next for a walk.
#[derive(Debug, Clone)]
pub enum FillAction {
    /// Allocate a block and report it.
    Allocate,
    /// Store `block` in inode slot `slot` and write zeros to it.
    ZeroRoot { slot: usize, block: u32 },
    /// Write zeros to the block.
    Zero(u32),
    /// Read the block and report its bytes.
    Read(u32),
    /// Write these bytes to the block.
    Save(u32, Vec<u8>),
    /// The physical block sought.
    Done(u32),
    /// The single-indirect block is too short for the entry.
    InvalidArgument,
    /// The logical block needs triple indirection, or blocks are under four
    /// bytes.
    NotSupported,
    /// A double-indirect entry lies past the end of its block.
    OutOfRange,
}

/// What the caller reports back.
#[derive(Debug, Clone)]
pub enum FillEvent {
    /// The block allocated.
    Allocated(u32),
    /// The bytes of the block read.
    Read(Vec<u8>),
    /// The write is done.
    Saved,
}

impl FillWalk {
    /// The entry of the path at the current depth.
    pub open spec fn index(&self) -> int {
        self.path.indices@[self.level as int] as int
    }

    /// The current depth is the last.
    pub open spec fn at_last(&self) -> bool {
        self.level + 1 == self.path.indices@.len()
    }

    /// Depth within the path, and the bytes held while allocating cover
    /// the entry.
    pub open spec fn wf(&self) -> bool {
        &&& self.path.slot < 15
        &&& self.stage !is Finished ==> self.level < self.path.indices@.len()
        &&& (self.stage matches FillStage::Allocating(d) ==> 4 * self.index() + 4 <= d@.len())
        &&& (self.stage matches FillStage::Zeroing(_, d) ==> 4 * self.index() + 4 <= d@.len())
    }

    /// The report that the walk's stage waits for.
    pub open spec fn expects(&self, ev: FillEvent) -> bool {
        match self.stage {
            FillStage::Root => ev is Allocated,
            FillStage::Allocating(_) => ev is Allocated,
            FillStage::Reading => ev is Read,
            FillStage::RootZeroing => ev is Saved,
            FillStage::Zeroing(..) => ev is Saved,
            FillStage::Saving(_) => ev is Saved,
            FillStage::Finished => false,
        }
    }
}

/// Whether `w` waits for `ev` (see `FillWalk::expects`).
pub fn fill_expects(w: &FillWalk, ev: &FillEvent) -> (r: bool)
    ensures
        r == w.expects(*ev),
{
    match (&w.stage, ev) {
        (FillStage::Root, FillEvent::Allocated(_)) => true,
        (FillStage::Allocating(_), FillEvent::Allocated(_)) => true,
        (FillStage::Reading, FillEvent::Read(_)) => true,
        (FillStage::RootZeroing, FillEvent::Saved) => true,
        (FillStage::Zeroing(..), FillEvent::Saved) => true,
        (FillStage::Saving(_), FillEvent::Saved) => true,
        _ => false,
    }
}

/// Walk `nw` and action `a` are the step of walk `w` on report `ev` (see
/// `fill_next`).
pub open spec fn fill_step(w: FillWalk, ev: FillEvent, nw: FillWalk, a: FillAction) -> bool {
    let i = w.index();
    &&& nw.path == w.path
    &&& match (w.stage, ev) {
        (FillStage::Root, FillEvent::Allocated(b)) => {
            &&& a == (FillAction::ZeroRoot { slot: w.path.slot, block: b })
            &&& nw.stage is RootZeroing && nw.holder == b && nw.level == w.level
        },
        (FillStage::RootZeroing, _) => {
            a == FillAction::Read(w.holder) && nw.stage is Reading && nw.holder == w.holder && nw.level == w.level
        },
        (FillStage::Reading, FillEvent::Read(d)) => {
            &&& 4 * i + 4 > d@.len() && w.path.indices@.len() == 1 ==> a is InvalidArgument && nw.stage is Finished
            &&& 4 * i + 4 > d@.len() && w.path.indices@.len() > 1 ==> a is OutOfRange && nw.stage is Finished
            &&& 4 * i + 4 <= d@.len() && pointer_entry(d@, i) == 0 ==> a is Allocate
                && nw.stage == FillStage::Allocating(d) && nw.holder == w.holder && nw.level == w.level
            &&& 4 * i + 4 <= d@.len() && pointer_entry(d@, i) != 0 && w.at_last()
                ==> a == FillAction::Done(pointer_entry(d@, i)) && nw.stage is Finished
            &&& 4 * i + 4 <= d@.len() && pointer_entry(d@, i) != 0 && !w.at_last()
                ==> a == FillAction::Read(pointer_entry(d@, i)) && nw.stage is Reading
                && nw.holder == pointer_entry(d@, i) && nw.level == w.level + 1
        },
        (FillStage::Allocating(d), FillEvent::Allocated(b)) => {
            &&& w.at_last() ==> (a matches FillAction::Save(h, s) && h == w.holder
                && s@ == overwrite(d@, 4 * i, spec_u32_to_le_bytes(b)))
                && nw.stage == FillStage::Saving(b) && nw.holder == w.holder && nw.level == w.level
            &&& !w.at_last() ==> a == FillAction::Zero(b) && nw.stage == FillStage::Zeroing(b, d)
                && nw.holder == w.holder && nw.level == w.level
        },
        (FillStage::Zeroing(b, d), _) => {
            &&& (a matches FillAction::Save(h, s) && h == w.holder && s@ == overwrite(d@, 4 * i, spec_u32_to_le_bytes(b)))
            &&& nw.stage == FillStage::Saving(b) && nw.holder == w.holder && nw.level == w.level
        },
        (FillStage::Saving(b), _) => {
            &&& w.at_last() ==> a == FillAction::Done(b) && nw.stage is Finished
            &&& !w.at_last() ==> a == FillAction::Read(b) && nw.stage is Reading && nw.holder == b
                && nw.level == w.level + 1
        },
        _ => true,
    }
}

/// Starts filling in logical block `logical` (12 or more) of an inode whose
/// block slots are `i_block`: unsupported for blocks under four bytes or
/// triple indirection; else the root pointer block is allocated when its
/// slot is 0, and read otherwise.
pub fn fill_begin(i_block: &[u32; 15], logical: u32, block_size: u32) -> (r: (FillWalk, FillAction))
    requires
        logical >= 12,
        block_size >= 4 && logical >= 12 + block_size / 4
            ==> 12 + block_size / 4 + (block_size / 4) * (block_size / 4) <= u32::MAX,
    ensures
        r.0.wf(),
        block_size < 4 || path_slot(logical as int, (block_size / 4) as int) == 14
            ==> r.1 is NotSupported && r.0.stage is Finished,
        block_size >= 4 && path_slot(logical as int, (block_size / 4) as int) != 14 ==> {
            let slot = path_slot(logical as int, (block_size / 4) as int);
            let ix = path_indices(logical as int, (block_size / 4) as int);
            &&& r.0.path.slot == slot
            &&& r.0.path.indices@.len() == ix.len()
            &&& forall|k: int| 0 <= k < ix.len() ==> r.0.path.indices@[k] as int == ix[k]
            &&& r.0.level == 0
            &&& i_block@[slot] == 0 ==> r.1 is Allocate && r.0.stage is Root
            &&& i_block@[slot] != 0 ==> r.1 == FillAction::Read(i_block@[slot]) && r.0.stage is Reading
                && r.0.holder == i_block@[slot]
        },
{
    let none = Ext2BlockPath { slot: 0, indices: Vec::new() };
    if block_size < 4 {
        return (FillWalk { path: none, level: 0, holder: 0, stage: FillStage::Finished }, FillAction::NotSupported);
    }
    let path = match alloc_path(logical, block_size) {
        Some(p) => p,
        None => {
            return (FillWalk { path: none, level: 0, holder: 0, stage: FillStage::Finished }, FillAction::NotSupported);
        },
    };
    proof {
        assert(path.indices@.len() >= 1);
    }
    let root = i_block[path.slot];
    if root == 0 {
        (FillWalk { path, level: 0, holder: 0, stage: FillStage::Root }, FillAction::Allocate)
    } else {
        (FillWalk { path, level: 0, holder: root, stage: FillStage::Reading }, FillAction::Read(root))
    }
}

/// The next step of walk `w` on report `ev`.
///
/// A new root is stored in its slot and zeroed, then read. A pointer block
/// read: an entry past its end is `InvalidArgument` at single indirection
/// (`OutOfRange` deeper); an entry 0 gets a block allocated; another entry
/// is followed, or is the answer at the last level. A block allocated for
/// an entry is zeroed unless at the last level; then the parent is saved
/// with the entry set to it, and it is followed, or is the answer at the
/// last level.
pub fn fill_next(w: FillWalk, ev: FillEvent) -> (r: (FillWalk, FillAction))
    requires
        w.wf(),
        w.expects(ev),
    ensures
        r.0.wf(),
        r.0.path == w.path,
        fill_step(w, ev, r.0, r.1),
{
    let FillWalk { path, level, holder, stage } = w;
    let last = path.indices.len() > 0 && level == path.indices.len() - 1;
    match stage {
        FillStage::Root => {
            let b = match ev {
                FillEvent::Allocated(b) => b,
                _ => 0,
            };
            let slot = path.slot;
            (FillWalk { path, level, holder: b, stage: FillStage::RootZeroing }, FillAction::ZeroRoot { slot, block: b })
        },
        FillStage::RootZeroing => {
            (FillWalk { path, level, holder, stage: FillStage::Reading }, FillAction::Read(holder))
        },
        FillStage::Reading => {
            let d = match ev {
                FillEvent::Read(d) => d,
                _ => Vec::new(),
            };
            let idx = path.indices[level];
            match alloc_step(d.as_slice(), idx) {
                AllocStep::OutOfRange => {
                    let a = if path.indices.len() == 1 { FillAction::InvalidArgument } else { FillAction::OutOfRange };
                    (FillWalk { path, level, holder, stage: FillStage::Finished }, a)
                },
                AllocStep::Use(e) => {
                    if last {
                        (FillWalk { path, level, holder, stage: FillStage::Finished }, FillAction::Done(e))
                    } else {
                        (FillWalk { path, level: level + 1, holder: e, stage: FillStage::Reading }, FillAction::Read(e))
                    }
                },
                AllocStep::Allocate => {
                    (FillWalk { path, level, holder, stage: FillStage::Allocating(d) }, FillAction::Allocate)
                },
            }
        },
        FillStage::Allocating(d) => {
            let b = match ev {
                FillEvent::Allocated(b) => b,
                _ => 0,
            };
            if last {
                let s = set_indirect_entry(d.as_slice(), path.indices[level], b);
                (FillWalk { path, level, holder, stage: FillStage::Saving(b) }, FillAction::Save(holder, s))
            } else {
                (FillWalk { path, level, holder, stage: FillStage::Zeroing(b, d) }, FillAction::Zero(b))
            }
        },
        FillStage::Zeroing(b, d) => {
            let s = set_indirect_entry(d.as_slice(), path.indices[level], b);
            (FillWalk { path, level, holder, stage: FillStage::Saving(b) }, FillAction::Save(holder, s))
        },
        FillStage::Saving(b) => {
            if last {
                (FillWalk { path, level, holder, stage: FillStage::Finished }, FillAction::Done(b))
            } else {
                (FillWalk { path, level: level + 1, holder: b, stage: FillStage::Reading }, FillAction::Read(b))
            }
        },
        FillStage::Finished => {
            (FillWalk { path, level, holder, stage: FillStage::Finished }, FillAction::NotSupported)
        },
    }
}

/// A filled-in entry maps back: once a pointer block is saved with the
/// entry of the path set to a new block `b`, the map step on the saved
/// bytes gives `b` as the answer at the last level, and as the next block
/// to read before it; and a root stored in its slot is the first block the
/// map reads.
pub proof fn law_filled_entry_maps_back(indices: Seq<u32>, level: int, data: Seq<u8>, b: u32, i_block: Seq<u32>, slot: int)
    requires
        0 <= level < indices.len(),
        4 * indices[level] + 4 <= data.len(),
        b != 0,
        0 <= slot < i_block.len(),
    ensures
        map_step(indices, level, overwrite(data, 4 * indices[level] as int, spec_u32_to_le_bytes(b)))
            == if level + 1 == indices.len() { MapStep::Done(b) } else { MapStep::Read(b) },
        i_block.update(slot, b)[slot] == b,
{
    vstd::bytes::lemma_auto_spec_u32_to_from_le_bytes();
    let off = 4 * indices[level] as int;
    let s = overwrite(data, off, spec_u32_to_le_bytes(b));
    assert(s.subrange(off, off + 4) =~= spec_u32_to_le_bytes(b));
}

/// A walk saves what the map reads: when a step saves a pointer block and
/// the walk, told the save is done, answers with a block or goes on to read
/// one, the map step on the saved bytes gives that same answer or next
/// read (the allocated block being non-zero, as 0 means "none").
pub proof fn law_fill_saves_what_map_reads(w: FillWalk, ev: FillEvent, nw: FillWalk, a: FillAction, nw2: FillWalk, a2: FillAction)
    requires
        w.wf(),
        w.expects(ev),
        fill_step(w, ev, nw, a),
        a is Save,
        fill_step(nw, FillEvent::Saved, nw2, a2),
        nw.stage is Saving,
        nw.stage->Saving_0 != 0,
    ensures
        a2 is Done ==> map_step(w.path.indices@, w.level as int, a->Save_1@) == MapStep::Done(a2->Done_0),
        a2 is Read ==> map_step(w.path.indices@, w.level as int, a->Save_1@) == MapStep::Read(a2->Read_0),
        a2 is Done || a2 is Read,
{
    let b = nw.stage->Saving_0;
    match (w.stage, ev) {
        (FillStage::Allocating(d), FillEvent::Allocated(_)) => {
            law_filled_entry_maps_back(w.path.indices@, w.level as int, d@, b, seq![0u32], 0);
        },
        (FillStage::Zeroing(_, d), _) => {
            law_filled_entry_maps_back(w.path.indices@, w.level as int, d@, b, seq![0u32], 0);
        },
        _ => {},
    }
}

/// The first logical block reached through `slot`: slots below 12 map
/// their own block; slot 12 starts after the direct blocks, slot 13 after
/// what slot 12 reaches, slot 14 after what slot 13 reaches.
pub open spec fn slot_base(slot: int, bpi: int) -> int {
    if slot < 12 {
        slot
    } else if slot == 12 {
        12
    } else if slot == 13 {
        12 + bpi
    } else {
        12 + bpi + bpi * bpi
    }
}

/// The number that a sequence of indices spells in base `bpi`, the first
/// index the most significant digit.
pub open spec fn base_value(digits: Seq<int>, bpi: int) -> int
    decreases digits.len(),
{
    if digits.len() == 0 {
        0
    } else {
        base_value(digits.drop_last(), bpi) * bpi + digits.last()
    }
}

/// A path recomposes its logical block: the indices are digits in base
/// `bpi` (each at least 0 and below `bpi`, as many as the slot's level of
/// indirection), and the first block of the slot plus the number they
/// spell is the logical block. The first digit is below `bpi` for every
/// block that the triple-indirect slot can reach.
pub proof fn law_path_recomposes(logical: int, bpi: int)
    requires
        bpi >= 1,
        logical >= 0,
    ensures
        ({
            let slot = path_slot(logical, bpi);
            let ix = path_indices(logical, bpi);
            &&& slot_base(slot, bpi) + base_value(ix, bpi) == logical
            &&& ix.len() == if slot < 12 { 0 } else { slot - 11 }
            &&& forall|k: int| 0 <= k < ix.len() ==> 0 <= #[trigger] ix[k]
            &&& forall|k: int| 1 <= k < ix.len() ==> #[trigger] ix[k] < bpi
            &&& logical < 12 + bpi + bpi * bpi + bpi * bpi * bpi ==> (ix.len() > 0 ==> ix[0] < bpi)
        }),
{
    let slot = path_slot(logical, bpi);
    let ix = path_indices(logical, bpi);
    reveal_with_fuel(base_value, 4);
    if logical < 12 {
        assert(base_value(ix, bpi) == 0);
    } else if logical < 12 + bpi {
        assert(ix.drop_last() =~= Seq::<int>::empty());
        assert(base_value(ix, bpi) == logical - 12);
    } else if logical < 12 + bpi + bpi * bpi {
        let idx = logical - 12 - bpi;
        vstd::arithmetic::div_mod::lemma_fundamental_div_mod(idx, bpi);
        vstd::arithmetic::div_mod::lemma_mod_pos_bound(idx, bpi);
        vstd::arithmetic::div_mod::lemma_div_pos_is_pos(idx, bpi);
        assert(ix.drop_last() =~= seq![idx / bpi]);
        assert(ix.drop_last().drop_last() =~= Seq::<int>::empty());
        assert(base_value(ix, bpi) == (idx / bpi) * bpi + idx % bpi);
        assert((idx / bpi) * bpi == bpi * (idx / bpi)) by (nonlinear_arith);
        assert(idx / bpi < bpi) by (nonlinear_arith)
            requires
                idx == bpi * (idx / bpi) + idx % bpi,
                0 <= idx % bpi,
                idx < bpi * bpi,
                bpi >= 1,
        ;
    } else {
        let idx = logical - 12 - bpi - bpi * bpi;
        assert(idx >= 0);
        let a = idx / bpi;
        vstd::arithmetic::div_mod::lemma_fundamental_div_mod(idx, bpi);
        vstd::arithmetic::div_mod::lemma_mod_pos_bound(idx, bpi);
        vstd::arithmetic::div_mod::lemma_div_pos_is_pos(idx, bpi);
        vstd::arithmetic::div_mod::lemma_fundamental_div_mod(a, bpi);
        vstd::arithmetic::div_mod::lemma_mod_pos_bound(a, bpi);
        vstd::arithmetic::div_mod::lemma_div_pos_is_pos(a, bpi);
        vstd::arithmetic::div_mod::lemma_div_denominator(idx, bpi, bpi);
        let q = idx / (bpi * bpi);
        assert(a / bpi == q);
        assert(ix =~= seq![q, a % bpi, idx % bpi]);
        assert(ix.drop_last() =~= seq![q, a % bpi]);
        assert(ix.drop_last().drop_last() =~= seq![q]);
        assert(ix.drop_last().drop_last().drop_last() =~= Seq::<int>::empty());
        assert(base_value(ix, bpi) == (q * bpi + a % bpi) * bpi + idx % bpi);
        assert((q * bpi + a % bpi) * bpi + idx % bpi == idx) by (nonlinear_arith)
            requires
                idx == bpi * a + idx % bpi,
                a == bpi * q + a % bpi,
        ;
        if logical < 12 + bpi + bpi * bpi + bpi * bpi * bpi {
            assert(q < bpi) by (nonlinear_arith)
                requires
                    idx == bpi * a + idx % bpi,
                    a == bpi * q + a % bpi,
                    0 <= idx % bpi,
                    0 <= a % bpi,
                    idx < bpi * bpi * bpi,
                    bpi >= 1,
            ;
        }
    }
}

} // verus!
