//! Flags of `open` and the check of their combination.
use crate::errno::Errno;
use vstd::prelude::*;

verus! {

/// Read only.
pub const O_RDONLY: i32 = 0o0;

/// Write only.
pub const O_WRONLY: i32 = 0o1;

/// Read and write.
pub const O_RDWR: i32 = 0o2;

/// Create when missing (needs write access).
pub const O_CREAT: i32 = 0o100;

/// Truncate an existing regular file opened for writing.
pub const O_TRUNC: i32 = 0o1000;

/// Fail when the file exists.
pub const O_EXCL: i32 = 0o200;

/// Every write goes to the end.
pub const O_APPEND: i32 = 0o2000;

/// The path must be a directory.
pub const O_DIRECTORY: i32 = 0o200_000;

/// Do not follow a final symbolic link.
pub const O_NOFOLLOW: i32 = 0o400_000;

/// Close on exec.
pub const O_CLOEXEC: i32 = 0o2_000_000;

/// Whether `flags` is an acceptable combination: non-negative, an access
/// mode of read, write or both, creation and truncation only with write
/// access, and no directory requirement together with creation.
pub open spec fn flags_ok(flags: i32) -> bool {
    &&& flags >= 0
    &&& (flags & 3) <= 2
    &&& !((flags & O_CREAT) != 0 && (flags & 3) == O_RDONLY)
    &&& !((flags & O_TRUNC) != 0 && (flags & 3) == O_RDONLY)
    &&& !((flags & O_DIRECTORY) != 0 && (flags & O_CREAT) != 0)
}

/// Checks `flags`; `EINVAL` when they are not an acceptable combination.
pub fn validate_flags(flags: i32) -> (r: Result<(), Errno>)
    ensures
        r is Ok <==> flags_ok(flags),
        r matches Err(e) ==> e == Errno::EINVAL,
{
    if flags < 0 {
        return Err(Errno::EINVAL);
    }
    let access = flags & 0o3;
    if access > 0o2 {
        return Err(Errno::EINVAL);
    }
    if (flags & O_CREAT) != 0 && access == O_RDONLY {
        return Err(Errno::EINVAL);
    }
    if (flags & O_TRUNC) != 0 && access == O_RDONLY {
        return Err(Errno::EINVAL);
    }
    if (flags & O_DIRECTORY) != 0 && (flags & O_CREAT) != 0 {
        return Err(Errno::EINVAL);
    }
    Ok(())
}

} // verus!
