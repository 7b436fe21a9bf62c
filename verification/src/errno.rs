use vstd::prelude::*;

verus! {

/// POSIX error numbers returned by the file-system services.
#[derive(Debug, Clone, Copy, PartialEq, Eq, Structural)]
pub enum Errno {
    EPERM,
    ENOENT,
    EIO,
    EBADF,
    ENOMEM,
    EACCES,
    EFAULT,
    EBUSY,
    EEXIST,
    ENOTDIR,
    EISDIR,
    EINVAL,
    ENOSPC,
    ENOSYS,
    ENOTEMPTY,
}

impl Errno {
    /// The Linux numeric value of the error.
    pub fn as_i32(self) -> (r: i32)
        ensures
            r == errno_value(self),
    {
        match self {
            Errno::EPERM => 1,
            Errno::ENOENT => 2,
            Errno::EIO => 5,
            Errno::EBADF => 9,
            Errno::ENOMEM => 12,
            Errno::EACCES => 13,
            Errno::EFAULT => 14,
            Errno::EBUSY => 16,
            Errno::EEXIST => 17,
            Errno::ENOTDIR => 20,
            Errno::EISDIR => 21,
            Errno::EINVAL => 22,
            Errno::ENOSPC => 28,
            Errno::ENOSYS => 38,
            Errno::ENOTEMPTY => 39,
        }
    }
}

/// Linux numbering of each error.
pub open spec fn errno_value(e: Errno) -> i32 {
    match e {
        Errno::EPERM => 1,
        Errno::ENOENT => 2,
        Errno::EIO => 5,
        Errno::EBADF => 9,
        Errno::ENOMEM => 12,
        Errno::EACCES => 13,
        Errno::EFAULT => 14,
        Errno::EBUSY => 16,
        Errno::EEXIST => 17,
        Errno::ENOTDIR => 20,
        Errno::EISDIR => 21,
        Errno::EINVAL => 22,
        Errno::ENOSPC => 28,
        Errno::ENOSYS => 38,
        Errno::ENOTEMPTY => 39,
    }
}

} // verus!
