//! The decisions of the file-access and copy system calls: the order in
//! which `access`, `faccessat` and `unlink` refuse their arguments, which
//! capabilities an access mode needs, and how `copy_file_range` moves data
//! chunk by chunk and what it returns after a failure or a short write.
//! Checking user pointers, capabilities and files, and reading and writing
//! descriptors, is the caller's part.
use crate::errno::Errno;
use vstd::prelude::*;

verus! {

/// Existence check.
pub const F_OK: i32 = 0;

/// Read permission.
pub const R_OK: i32 = 4;

/// Write permission.
pub const W_OK: i32 = 2;

/// Execute permission.
pub const X_OK: i32 = 1;

/// Largest piece `copy_file_range` moves at once.
pub const COPY_CHUNK: usize = 4096;

/// A user path argument is refused with `EFAULT` when it is null or not a
/// user address (`ptr_ok` says whether it is one).
pub fn user_path_check(path_ptr: u64, ptr_ok: bool) -> (r: Result<(), Errno>)
    ensures
        r is Ok <==> path_ptr != 0 && ptr_ok,
        r is Err ==> r == Err::<(), Errno>(Errno::EFAULT),
{
    if path_ptr == 0 || !ptr_ok {
        Err(Errno::EFAULT)
    } else {
        Ok(())
    }
}

/// The capabilities an access mode asks for.
#[derive(Debug, Clone, Copy, PartialEq, Eq, Structural)]
pub struct AccessNeed {
    pub read: bool,
    pub write: bool,
    pub execute: bool,
}

impl AccessNeed {
    /// Some capability is asked for (not a bare existence check).
    pub open spec fn any(&self) -> bool {
        self.read || self.write || self.execute
    }
}

/// The checks of `access(path, mode)` before any file is looked at: the
/// path first (`EFAULT`), then the mode, which must lie in `0..=7`
/// (`EINVAL`); then the capabilities the mode's read, write and execute
/// bits ask for.
pub fn access_check(path_ptr: u64, ptr_ok: bool, mode: i32) -> (r: Result<AccessNeed, Errno>)
    ensures
        path_ptr == 0 || !ptr_ok ==> r == Err::<AccessNeed, Errno>(Errno::EFAULT),
        path_ptr != 0 && ptr_ok && !(0 <= mode <= 7) ==> r == Err::<AccessNeed, Errno>(Errno::EINVAL),
        path_ptr != 0 && ptr_ok && 0 <= mode <= 7 ==> r == Ok::<AccessNeed, Errno>(AccessNeed {
            read: mode & R_OK != 0,
            write: mode & W_OK != 0,
            execute: mode & X_OK != 0,
        }),
{
    match user_path_check(path_ptr, ptr_ok) {
        Err(e) => {
            return Err(e);
        },
        Ok(()) => {},
    }
    if mode < 0 || mode > 7 {
        return Err(Errno::EINVAL);
    }
    Ok(AccessNeed { read: mode & R_OK != 0, write: mode & W_OK != 0, execute: mode & X_OK != 0 })
}

/// The end of `access`: `EACCES` when a capability is asked for and not
/// held (`has_caps`), or when the path does not exist; else 0.
pub fn access_finish(need: AccessNeed, has_caps: bool, exists: bool) -> (r: Result<usize, Errno>)
    ensures
        need.any() && !has_caps ==> r == Err::<usize, Errno>(Errno::EACCES),
        !(need.any() && !has_caps) && !exists ==> r == Err::<usize, Errno>(Errno::EACCES),
        !(need.any() && !has_caps) && exists ==> r == Ok::<usize, Errno>(0),
{
    if (need.read || need.write || need.execute) && !has_caps {
        return Err(Errno::EACCES);
    }
    if !exists {
        return Err(Errno::EACCES);
    }
    Ok(0)
}

/// How `copy_file_range` ends.
#[derive(Debug, Clone, Copy, PartialEq, Eq, Structural)]
pub enum CopyEnd {
    /// This many bytes were copied.
    Copied(usize),
    /// A descriptor is negative.
    BadDescriptor,
    /// The first read or write failed with this negative return value.
    Failed(i32),
}

/// What the copy does next.
#[derive(Debug, Clone, Copy, PartialEq, Eq, Structural)]
pub enum CopyAction {
    /// Read up to this many bytes from the source and report the return value.
    Read(usize),
    /// Write the bytes read, this many, to the target and report the return value.
    Write(usize),
    /// The call returns.
    Finish(CopyEnd),
}

/// A copy in progress: bytes asked for, the chunk size, bytes copied so
/// far, the bytes read and not yet written, and whether a write is awaited.
#[derive(Debug, Clone, Copy, PartialEq, Eq, Structural)]
pub struct CopyState {
    pub len: usize,
    pub chunk: usize,
    pub total: usize,
    pub pending: usize,
    pub writing: bool,
    pub done: bool,
}

impl CopyState {
    /// Bytes copied stay within those asked for; a pending write holds what
    /// the last read returned.
    pub open spec fn wf(&self) -> bool {
        &&& self.total <= self.len
        &&& self.chunk <= COPY_CHUNK
        &&& self.writing ==> 0 < self.pending <= self.len - self.total
    }

    /// Bytes left to copy.
    pub open spec fn remaining(&self) -> int {
        self.len - self.total
    }

    /// The size of the next read: the remaining bytes, at most a chunk.
    pub open spec fn next_read(&self) -> int {
        if self.remaining() < self.chunk { self.remaining() } else { self.chunk as int }
    }
}

/// The step that reads the next chunk, or finishes when nothing is left.
pub open spec fn read_or_finish(ns: CopyState, a: CopyAction) -> bool {
    if ns.remaining() == 0 {
        a == CopyAction::Finish(CopyEnd::Copied(ns.total)) && ns.done
    } else {
        a == CopyAction::Read(ns.next_read() as usize) && !ns.writing && !ns.done
    }
}

/// Starts `copy_file_range(fd_in, .., fd_out, .., len)`: `EBADF` for a
/// negative descriptor, 0 for an empty copy, else a read of up to one
/// chunk.
pub fn copy_begin(fd_in: i32, fd_out: i32, len: usize) -> (r: (CopyState, CopyAction))
    ensures
        r.0.wf(),
        r.0.len == len,
        r.0.chunk == (if len < COPY_CHUNK { len } else { COPY_CHUNK }),
        fd_in < 0 || fd_out < 0 ==> r.1 == CopyAction::Finish(CopyEnd::BadDescriptor) && r.0.done,
        fd_in >= 0 && fd_out >= 0 && len == 0 ==> r.1 == CopyAction::Finish(CopyEnd::Copied(0)) && r.0.done,
        fd_in >= 0 && fd_out >= 0 && len > 0 ==> r.0.total == 0 && read_or_finish(r.0, r.1),
{
    let chunk = if len < COPY_CHUNK { len } else { COPY_CHUNK };
    let st = CopyState { len, chunk, total: 0, pending: 0, writing: false, done: true };
    if fd_in < 0 || fd_out < 0 {
        return (st, CopyAction::Finish(CopyEnd::BadDescriptor));
    }
    if len == 0 {
        return (st, CopyAction::Finish(CopyEnd::Copied(0)));
    }
    let n = if len < chunk { len } else { chunk };
    (CopyState { done: false, ..st }, CopyAction::Read(n))
}

/// The next step after the read or write asked for returned `ret`.
///
/// A failed read or write ends the copy with the bytes copied so far, or
/// with the failure when nothing was copied. A read of 0 bytes (end of
/// file) ends it. Bytes read are written; after the write the count grows
/// by the bytes read, and a write shorter than the read ends the copy;
/// otherwise the next chunk is read until all bytes asked for are copied.
pub fn copy_next(st: CopyState, ret: i32) -> (r: (CopyState, CopyAction))
    requires
        st.wf(),
        !st.done,
        !st.writing ==> ret <= st.next_read(),
    ensures
        r.0.wf(),
        r.0.len == st.len && r.0.chunk == st.chunk,
        ret < 0 ==> r.0.done && r.1 == CopyAction::Finish(
            if st.total > 0 { CopyEnd::Copied(st.total) } else { CopyEnd::Failed(ret) },
        ),
        !st.writing && ret == 0 ==> r.0.done && r.1 == CopyAction::Finish(CopyEnd::Copied(st.total)),
        !st.writing && ret > 0 ==> r.1 == CopyAction::Write(ret as usize) && r.0.writing && !r.0.done
            && r.0.pending == ret && r.0.total == st.total,
        st.writing && ret >= 0 && ret < st.pending ==> r.0.done
            && r.1 == CopyAction::Finish(CopyEnd::Copied((st.total + st.pending) as usize)),
        st.writing && ret >= 0 && ret >= st.pending ==> r.0.total == st.total + st.pending
            && read_or_finish(r.0, r.1),
{
    if ret < 0 {
        let end = if st.total > 0 { CopyEnd::Copied(st.total) } else { CopyEnd::Failed(ret) };
        return (CopyState { done: true, writing: false, ..st }, CopyAction::Finish(end));
    }
    let n = ret as usize;
    if !st.writing {
        if n == 0 {
            return (CopyState { done: true, ..st }, CopyAction::Finish(CopyEnd::Copied(st.total)));
        }
        return (CopyState { pending: n, writing: true, ..st }, CopyAction::Write(n));
    }
    let total = st.total + st.pending;
    if n < st.pending {
        return (CopyState { total, pending: 0, writing: false, done: true, ..st }, CopyAction::Finish(CopyEnd::Copied(total)));
    }
    let ns = CopyState { total, pending: 0, writing: false, ..st };
    let rem = ns.len - ns.total;
    if rem == 0 {
        return (CopyState { done: true, ..ns }, CopyAction::Finish(CopyEnd::Copied(total)));
    }
    let m = if rem < ns.chunk { rem } else { ns.chunk };
    (ns, CopyAction::Read(m))
}

} // verus!
