//! Size accounting of the temporary file system.
use vstd::prelude::*;

verus! {

/// Default capacity: 64 MiB.
pub const TMPFS_DEFAULT_MAX_SIZE: u64 = 67108864;

/// An inode handle: node number and mount index.
pub struct TmpFsInode {
    node_id: u32,
    mount_idx: u32,
}

impl TmpFsInode {
    /// The handle of node `node_id` of mount `mount_idx`.
    pub fn new(node_id: u32, mount_idx: u32) -> (i: Self)
        ensures
            i.node() == node_id,
            i.mount() == mount_idx,
    {
        TmpFsInode { node_id, mount_idx }
    }

    /// The node number.
    pub closed spec fn node(&self) -> u32 {
        self.node_id
    }

    /// The mount index.
    pub closed spec fn mount(&self) -> u32 {
        self.mount_idx
    }
}

/// Capacity and bytes in use of a mounted tmpfs.
pub struct TmpFsData {
    max_size: u64,
    used_size: u64,
}

impl TmpFsData {
    /// Capacity in bytes.
    pub closed spec fn capacity(&self) -> u64 {
        self.max_size
    }

    /// Bytes in use.
    pub closed spec fn used(&self) -> u64 {
        self.used_size
    }

    /// Nothing used, `max_size` bytes of capacity.
    pub fn new(max_size: u64) -> (d: Self)
        ensures
            d.capacity() == max_size,
            d.used() == 0,
    {
        TmpFsData { max_size, used_size: 0 }
    }

    /// Nothing used, the default capacity.
    pub fn new_default() -> (d: Self)
        ensures
            d.capacity() == TMPFS_DEFAULT_MAX_SIZE,
            d.used() == 0,
    {
        Self::new(TMPFS_DEFAULT_MAX_SIZE)
    }

    /// Capacity in bytes.
    pub fn max_size(&self) -> (r: u64)
        ensures
            r == self.capacity(),
    {
        self.max_size
    }

    /// Bytes in use.
    pub fn used_size(&self) -> (r: u64)
        ensures
            r == self.used(),
    {
        self.used_size
    }

    /// Bytes left (zero when over capacity).
    pub fn free_size(&self) -> (r: u64)
        ensures
            r == (if self.capacity() >= self.used() { self.capacity() - self.used() } else { 0 }),
    {
        self.max_size.saturating_sub(self.used_size)
    }

    /// Whether `size` more bytes fit.
    pub fn has_space(&self, size: u64) -> (r: bool)
        requires
            self.used() + size <= u64::MAX,
        ensures
            r == (self.used() + size <= self.capacity()),
    {
        self.used_size + size <= self.max_size
    }

    /// Counts `size` more bytes in use (saturating).
    pub fn add_used(&mut self, size: u64)
        ensures
            final(self).used() == old(self).used().saturating_add(size),
            final(self).capacity() == old(self).capacity(),
    {
        self.used_size = self.used_size.saturating_add(size);
    }

    /// Counts `size` bytes fewer in use (not below zero).
    pub fn sub_used(&mut self, size: u64)
        ensures
            final(self).used() == old(self).used().saturating_sub(size),
            final(self).capacity() == old(self).capacity(),
    {
        self.used_size = self.used_size.saturating_sub(size);
    }
}

} // verus!
