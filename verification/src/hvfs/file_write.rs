//! The descriptor table (taking and releasing slots) and the decisions
//! of reading and writing through an open file descriptor. For a write: whether the
//! descriptor and its flags allow it, whether the caller may write the
//! object, how many bytes go, and what the write leaves behind (the file's
//! size, the descriptor's offset, the cache key of the block and the log
//! record). Allocating, writing and caching the data is the caller's part.
use crate::errno::Errno;
use crate::hvfs::arc::HvArcKey;
use crate::nestfs::zil::{plain_record, NestZilRecord, NestZilRecordType, HV_POOL_BLOCK_SIZE};
use vstd::prelude::*;

verus! {

/// Capacity of the descriptor table.
pub const HVFS_MAX_FDS: usize = 256;

/// Flag of a descriptor opened for writing only.
pub const HVFS_O_WRONLY: u32 = 0x0001;

/// Flag of a descriptor opened for reading and writing.
pub const HVFS_O_RDWR: u32 = 0x0002;

/// Capability a writer needs on the dataset domain.
pub const HVFS_CAP_WRITE: u64 = 0x02;

/// Privilege level that denies everything.
pub const PWM_LEVEL_NONE: u8 = 0xFF;

/// An open-file descriptor.
#[derive(Debug, Clone, Copy)]
pub struct HvfsFd {
    pub fd: u32,
    pub obj_id: u64,
    pub ds_id: u64,
    pub offset: u64,
    pub flags: u32,
    pub pwm: u64,
    pub used: bool,
}

/// How a write through a descriptor starts.
#[derive(Debug, Clone, Copy, PartialEq, Eq, Structural)]
pub enum WriteStart {
    /// No such descriptor, or it is not in use.
    BadDescriptor,
    /// The flags hold the write-only bit without the read-write bit.
    FlagsDenied,
    /// Go on with this object, at this offset, for this caller.
    Proceed { obj_id: u64, offset: u64, pwm: u64 },
}

/// The flags refuse a write: the write-only bit is set and the read-write
/// bit is not.
pub open spec fn flags_refuse_write(flags: u32) -> bool {
    flags & HVFS_O_WRONLY != 0 && flags & HVFS_O_RDWR == 0
}

/// How a write through descriptor `fd` of the table `fds` starts.
pub fn write_start(fds: &[HvfsFd; HVFS_MAX_FDS], fd: u32) -> (r: WriteStart)
    ensures
        fd as int >= HVFS_MAX_FDS || !fds@[fd as int].used ==> r == WriteStart::BadDescriptor,
        (fd as int) < HVFS_MAX_FDS && fds@[fd as int].used && flags_refuse_write(fds@[fd as int].flags)
            ==> r == WriteStart::FlagsDenied,
        (fd as int) < HVFS_MAX_FDS && fds@[fd as int].used && !flags_refuse_write(fds@[fd as int].flags)
            ==> r == (WriteStart::Proceed {
                obj_id: fds@[fd as int].obj_id,
                offset: fds@[fd as int].offset,
                pwm: fds@[fd as int].pwm,
            }),
{
    let idx = fd as usize;
    if idx >= HVFS_MAX_FDS || !fds[idx].used {
        return WriteStart::BadDescriptor;
    }
    let d = fds[idx];
    if d.flags & HVFS_O_WRONLY != 0 && d.flags & HVFS_O_RDWR == 0 {
        return WriteStart::FlagsDenied;
    }
    WriteStart::Proceed { obj_id: d.obj_id, offset: d.offset, pwm: d.pwm }
}

/// Whether caller `pwm` may use an object owned by `owner_pwm`, given the
/// caller's privilege level and whether it holds the capability asked for:
/// never for the null caller or the level that denies everything, always
/// at level 0 and for the owner, else as the capability says.
pub open spec fn permission_spec(pwm: u64, level: u8, owner_pwm: u64, has_capability: bool) -> bool {
    if pwm == 0 || level == PWM_LEVEL_NONE {
        false
    } else if level == 0 || owner_pwm == pwm {
        true
    } else {
        has_capability
    }
}

/// Whether caller `pwm` may use an object owned by `owner_pwm` (see
/// `permission_spec`).
pub fn permission_granted(pwm: u64, level: u8, owner_pwm: u64, has_capability: bool) -> (r: bool)
    ensures
        r == permission_spec(pwm, level, owner_pwm, has_capability),
{
    if pwm == 0 {
        return false;
    }
    if level == PWM_LEVEL_NONE {
        return false;
    }
    if level == 0 {
        return true;
    }
    if owner_pwm == pwm {
        return true;
    }
    has_capability
}

/// Bytes a write of `count` bytes from a buffer of `buf_len` bytes writes.
pub fn write_len(count: u32, buf_len: usize) -> (r: usize)
    ensures
        r as int == if (count as int) < buf_len { count as int } else { buf_len as int },
{
    let c = count as usize;
    if c < buf_len { c } else { buf_len }
}

/// Offset of the block holding byte `offset`.
pub open spec fn block_start(offset: u64) -> u64 {
    (offset / HV_POOL_BLOCK_SIZE * HV_POOL_BLOCK_SIZE) as u64
}

/// Cache key of the block holding byte `offset` of object `obj_id`, born
/// in `txg`: the object number in the high bits of the offset.
pub open spec fn block_key_spec(obj_id: u64, offset: u64, txg: u64) -> HvArcKey {
    HvArcKey { vdev_id: 0, offset: (obj_id << 40u64) | block_start(offset), birth_txg: txg }
}

/// Cache key of the block holding byte `offset` of object `obj_id`, born
/// in `txg`.
pub fn block_key(obj_id: u64, offset: u64, txg: u64) -> (k: HvArcKey)
    ensures
        k == block_key_spec(obj_id, offset, txg),
{
    let start = offset / HV_POOL_BLOCK_SIZE * HV_POOL_BLOCK_SIZE;
    HvArcKey::new(0, (obj_id << 40u64) | start, txg)
}

/// What a write of `len` bytes at `offset` leaves behind.
#[derive(Debug, Clone, Copy)]
pub struct WriteDone {
    /// The file's size after the write.
    pub new_size: u64,
    /// The descriptor's offset after the write.
    pub new_offset: u64,
    /// Cache key of the block written.
    pub key: HvArcKey,
    /// The log record of the write.
    pub record: NestZilRecord,
}

/// What writing `len` bytes at `offset` of object `obj_id`, of size
/// `old_size`, in transaction group `txg`, leaves behind: the size grows to
/// the end of the write if that is past it, the offset moves past the
/// write, and the log records the write (its length taken to 32 bits).
pub fn write_done(obj_id: u64, offset: u64, len: usize, old_size: u64, txg: u64) -> (d: WriteDone)
    requires
        offset + len <= u64::MAX,
    ensures
        d.new_size == if offset + len > old_size { offset + len } else { old_size as int },
        d.new_offset == offset + len,
        d.key == block_key_spec(obj_id, offset, txg),
        plain_record(d.record, NestZilRecordType::Write, txg, obj_id, 0, offset, len as u32),
{
    let end = offset + len as u64;
    let new_size = if end > old_size { end } else { old_size };
    let key = block_key(obj_id, offset, txg);
    let record = NestZilRecord::new_write(txg, obj_id, offset, len as u32);
    WriteDone { new_size, new_offset: end, key, record }
}

/// The first descriptor slot not in use.
pub open spec fn first_free(fds: Seq<HvfsFd>, i: int) -> bool {
    &&& 0 <= i < fds.len()
    &&& !fds[i].used
    &&& forall|j: int| 0 <= j < i ==> (#[trigger] fds[j]).used
}

/// Takes the first descriptor slot not in use, numbering it `next_fd`;
/// `None` when every slot is in use. The counter of descriptor numbers
/// moves on by one (wrapping) only when a slot is taken.
pub fn alloc_fd(fds: &mut [HvfsFd; HVFS_MAX_FDS], next_fd: u32) -> (r: (Option<usize>, u32))
    ensures
        r.0 is None <==> forall|j: int| 0 <= j < HVFS_MAX_FDS ==> (#[trigger] old(fds)@[j]).used,
        r.0 is None ==> final(fds)@ == old(fds)@ && r.1 == next_fd,
        r.0 matches Some(i) ==> {
            &&& first_free(old(fds)@, i as int)
            &&& final(fds)@ == old(fds)@.update(i as int, HvfsFd { fd: next_fd, used: true, ..old(fds)@[i as int] })
            &&& r.1 == next_fd.wrapping_add(1)
        },
{
    let mut i: usize = 0;
    while i < HVFS_MAX_FDS
        invariant
            0 <= i <= HVFS_MAX_FDS,
            fds@ == old(fds)@,
            forall|j: int| 0 <= j < i ==> (#[trigger] fds@[j]).used,
        decreases HVFS_MAX_FDS - i,
    {
        if !fds[i].used {
            let mut d = fds[i];
            d.fd = next_fd;
            d.used = true;
            fds[i] = d;
            return (Some(i), next_fd.wrapping_add(1));
        }
        i += 1;
    }
    (None, next_fd)
}

/// Closes descriptor `fd`: `EINVAL` when it is out of range or not in
/// use; else the slot is released with its offset reset.
pub fn close_fd(fds: &mut [HvfsFd; HVFS_MAX_FDS], fd: u32) -> (r: Result<(), Errno>)
    ensures
        fd as int >= HVFS_MAX_FDS || !old(fds)@[fd as int].used ==> r == Err::<(), Errno>(Errno::EINVAL)
            && final(fds)@ == old(fds)@,
        (fd as int) < HVFS_MAX_FDS && old(fds)@[fd as int].used ==> r is Ok
            && final(fds)@ == old(fds)@.update(fd as int, HvfsFd { used: false, offset: 0, ..old(fds)@[fd as int] }),
{
    let idx = fd as usize;
    if idx >= HVFS_MAX_FDS || !fds[idx].used {
        return Err(Errno::EINVAL);
    }
    let mut d = fds[idx];
    d.used = false;
    d.offset = 0;
    fds[idx] = d;
    Ok(())
}

/// Bytes a read of `count` bytes into a buffer of `buf_len` bytes at
/// `offset` of an object of `size` bytes reads: the bytes up to the end of
/// the object, at most `count` and at most the buffer.
pub open spec fn read_len_spec(count: u32, buf_len: usize, offset: u64, size: u64) -> int {
    let available = if offset < size { size - offset } else { 0 };
    let a = if (count as int) < available { count as int } else { available };
    if a < buf_len { a } else { buf_len as int }
}

/// Bytes a read reads (see `read_len_spec`).
pub fn read_len(count: u32, buf_len: usize, offset: u64, size: u64) -> (r: usize)
    ensures
        r == read_len_spec(count, buf_len, offset, size),
{
    let c = count as u64;
    let available: u64 = if offset < size { size - offset } else { 0 };
    let a: u64 = if c < available { c } else { available };
    if a < buf_len as u64 { a as usize } else { buf_len }
}

/// The part of a cached block that a read of `len` bytes at `offset`
/// copies: from the offset within the block to at most the block's end.
pub fn cached_range(offset: u64, len: usize) -> (r: (usize, usize))
    requires
        len <= usize::MAX - HV_POOL_BLOCK_SIZE,
    ensures
        r.0 == offset - block_start(offset),
        r.1 == if r.0 + len < HV_POOL_BLOCK_SIZE { r.0 + len } else { HV_POOL_BLOCK_SIZE as int },
        r.0 <= r.1,
{
    let start = offset - offset / HV_POOL_BLOCK_SIZE * HV_POOL_BLOCK_SIZE;
    let s = start as usize;
    let e = if s + len < HV_POOL_BLOCK_SIZE as usize { s + len } else { HV_POOL_BLOCK_SIZE as usize };
    (s, e)
}

} // verus!
