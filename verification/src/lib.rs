use vstd::prelude::*;

pub mod bytes_util;
pub mod cgroupfs;
pub mod configfs;
pub mod devpts;
pub mod errno;
pub mod exfat;
pub mod fs_syscalls;
pub mod ext2_dir;
pub mod ext2_map;
pub mod hvfs;
pub mod nestfs;
pub mod open_flags;
pub mod path_rel;
pub mod process_fd_table;
pub mod procfs;
pub mod ramfs;
pub mod seq_search;
pub mod sha256;
pub mod sysfs;
pub mod systree;
pub mod tmpfs;
pub mod vfs_poll_policy;

verus! {

} // verus!
