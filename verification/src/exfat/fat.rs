//! Following a cluster chain through the exFAT file allocation table.
//!
//! Each cluster from 2 on has a 32-bit little-endian entry in the table,
//! which starts `fat_offset` sectors into the volume: the next cluster of
//! the chain, or a mark (free, bad, end of chain). Reading sectors is the
//! caller's part: the walk says which sector to read and takes its bytes.
use crate::nestfs::bp::{le_u32_at, read_le_u32};
use vstd::prelude::*;

verus! {

/// Entry of a free cluster.
pub const FAT_FREE: u32 = 0x00000000;

/// Entry of a bad cluster.
pub const FAT_BAD: u32 = 0xFFFFFFF7;

/// Entry of the last cluster of a chain.
pub const FAT_END: u32 = 0x0FFFFFFF;

/// Entries from this value on end a chain.
pub const FAT_LAST_MIN: u32 = 0x0FFFFFF8;

/// The entry `e` ends the chain: an end mark, free or bad.
pub open spec fn ends_chain(e: u32) -> bool {
    e >= FAT_LAST_MIN || e == FAT_END || e == FAT_FREE || e == FAT_BAD
}

/// What the walk does next.
#[derive(Debug, Clone, Copy, PartialEq, Eq, Structural)]
pub enum FatAction {
    /// Read this sector of the volume and report its bytes (or the failure).
    ReadSector(u32),
    /// The chain is complete.
    Done,
    /// The table position of the cluster overflows 32 bits.
    Overflow,
    /// The entry lies past the end of the sector read.
    OutOfRange,
}

/// A walk along a cluster chain: the clusters collected, the current one,
/// the volume's cluster count, sector size and table start.
#[derive(Debug, Clone)]
pub struct FatWalk {
    pub chain: Vec<u32>,
    pub current: u32,
    pub cluster_count: u32,
    pub bytes_per_sector: u32,
    pub fat_offset: u32,
}

impl FatWalk {
    /// The current cluster is a data cluster of the volume.
    pub open spec fn in_volume(&self, c: u32) -> bool {
        2 <= c && c < self.cluster_count + 2
    }
}

/// The step at cluster `c` of walk `w` (already set as current and, when in
/// the volume, collected): done outside the volume, else read the sector of
/// its entry.
pub open spec fn visit(w: FatWalk, c: u32, a: FatAction) -> bool {
    if !w.in_volume(c) {
        a == FatAction::Done
    } else if c * 4 > u32::MAX || w.fat_offset + (c * 4) / w.bytes_per_sector as int > u32::MAX {
        a == FatAction::Overflow
    } else {
        a == FatAction::ReadSector((w.fat_offset + (c * 4) / w.bytes_per_sector as int) as u32)
    }
}

/// The walk moved to cluster `c`: collected when in the volume.
fn enter(w: FatWalk, c: u32) -> (r: (FatWalk, FatAction))
    requires
        w.bytes_per_sector > 0,
        w.cluster_count + 2 <= u32::MAX,
    ensures
        r.0.current == c,
        r.0.cluster_count == w.cluster_count && r.0.bytes_per_sector == w.bytes_per_sector
            && r.0.fat_offset == w.fat_offset,
        r.0.chain@ == (if w.in_volume(c) { w.chain@.push(c) } else { w.chain@ }),
        visit(r.0, c, r.1),
{
    let FatWalk { chain, current: _, cluster_count, bytes_per_sector, fat_offset } = w;
    let mut chain = chain;
    if c < 2 || c >= cluster_count + 2 {
        return (FatWalk { chain, current: c, cluster_count, bytes_per_sector, fat_offset }, FatAction::Done);
    }
    chain.push(c);
    let nw = FatWalk { chain, current: c, cluster_count, bytes_per_sector, fat_offset };
    if c > u32::MAX / 4 {
        return (nw, FatAction::Overflow);
    }
    let q = (c * 4) / bytes_per_sector;
    if fat_offset > u32::MAX - q {
        return (nw, FatAction::Overflow);
    }
    (nw, FatAction::ReadSector(fat_offset + q))
}

/// Starts following the chain from `start` on a volume of `cluster_count`
/// clusters whose table starts at sector `fat_offset`.
pub fn fat_begin(start: u32, cluster_count: u32, bytes_per_sector: u32, fat_offset: u32) -> (r: (FatWalk, FatAction))
    requires
        bytes_per_sector > 0,
        cluster_count + 2 <= u32::MAX,
    ensures
        r.0.current == start,
        r.0.cluster_count == cluster_count && r.0.bytes_per_sector == bytes_per_sector
            && r.0.fat_offset == fat_offset,
        r.0.chain@ == (if 2 <= start < cluster_count + 2 { seq![start] } else { Seq::empty() }),
        visit(r.0, start, r.1),
{
    let w = FatWalk { chain: Vec::new(), current: start, cluster_count, bytes_per_sector, fat_offset };
    let r = enter(w, start);
    proof {
        assert(Seq::<u32>::empty().push(start) =~= seq![start]);
    }
    r
}

/// The next step once the sector of the current cluster's entry was read
/// (`None`: the read failed, which ends the chain). The entry sits at the
/// current cluster times four, modulo the sector size; an entry that ends
/// the chain ends the walk, any other is the next cluster.
pub fn fat_next(w: FatWalk, sector: Option<Vec<u8>>) -> (r: (FatWalk, FatAction))
    requires
        w.bytes_per_sector > 0,
        w.cluster_count + 2 <= u32::MAX,
        w.current * 4 <= u32::MAX,
    ensures
        r.0.cluster_count == w.cluster_count && r.0.bytes_per_sector == w.bytes_per_sector
            && r.0.fat_offset == w.fat_offset,
        sector is None ==> r.1 == FatAction::Done && r.0.chain@ == w.chain@,
        sector is Some ==> ({
            let data = sector->0@;
            let off = (w.current * 4) as int % w.bytes_per_sector as int;
            &&& off + 4 > data.len() ==> r.1 == FatAction::OutOfRange && r.0.chain@ == w.chain@
            &&& off + 4 <= data.len() && ends_chain(le_u32_at(data, off)) ==> r.1 == FatAction::Done
                && r.0.chain@ == w.chain@
            &&& off + 4 <= data.len() && !ends_chain(le_u32_at(data, off)) ==> {
                let e = le_u32_at(data, off);
                &&& r.0.current == e
                &&& r.0.chain@ == (if w.in_volume(e) { w.chain@.push(e) } else { w.chain@ })
                &&& visit(r.0, e, r.1)
            }
        }),
{
    let data = match sector {
        Some(d) => d,
        None => {
            return (w, FatAction::Done);
        },
    };
    let off = ((w.current * 4) % w.bytes_per_sector) as usize;
    if off > data.len() || data.len() - off < 4 {
        return (w, FatAction::OutOfRange);
    }
    let e = read_le_u32(data.as_slice(), off);
    if e >= FAT_LAST_MIN || e == FAT_END || e == FAT_FREE || e == FAT_BAD {
        return (w, FatAction::Done);
    }
    enter(w, e)
}

} // verus!
