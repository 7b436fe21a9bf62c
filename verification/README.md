# File-system services, verified

A library of kernel file-system services whose behaviour is stated in
`requires`/`ensures` contracts and proved with Verus.

Layout:

- `src/` — the verified library.
  - `nestfs/` — the pooled copy-on-write file system: block pointers and
    their on-disk images, the ZAP name store, the intent log and its
    persistence, the object set, transaction groups, the pool, the ARC
    cache, metaslab allocation, deduplication, compression (RLE, ZLE, LZ4)
    and checksums (Fletcher, SHA-256), with the traits that abstract them.
  - `hvfs/` — datasets, their metadata image, the ARC used by datasets,
    the on-disk intent-log blocks and the decisions of a write through a
    file descriptor.
  - `cgroupfs`, `configfs`, `devpts`, `sysfs`, `systree`, `procfs`,
    `tmpfs`, `ramfs` — the small virtual file systems.
  - `exfat/`, `ext2_map`, `ext2_dir` — exFAT directory entries; the ext2
    block map and the walk that fills in missing indirect blocks; ext2
    directory entries and the walk that places a new one. The walks are
    step functions: each takes what the caller read, allocated or wrote
    and says what to do next, so block I/O stays with the caller.
  - `process_fd_table`, `vfs_poll_policy`, `open_flags`, `path_rel` —
    descriptor tables, poll policy, open-flag checks and path relations.
  - `hvfs/front` — HvFS's name operations on its root dataset (open,
    mkdir, stat, unlink, rename, link, chmod, chown, seek).
  - `fs_syscalls`, `exfat/fat`, `hvfs/mount`, `hvfs/file_write` — the
    decisions of `access`, `unlink` and `copy_file_range`, the exFAT
    cluster-chain walk, bringing HvFS up and mounting a drive, and the
    HvFS descriptor table and read and write decisions, as step functions
    or plain functions over what the caller read or checked.
- `app/` — process-wide instances behind locks, the attribute handler
  registry of the system tree, and loops that carry out the ext2 walks'
  actions against block read, write and allocate callbacks.
- `tests/` — tests of the library.

Models:

The pool-level components under `nestfs/` (`arc`, `dmu`, `spa`, `txg`,
`vdev`) are compact in-memory models. They hold the state that the other
modules' contracts speak of — cached keys and list lengths, object records,
transaction-group numbers, device extents — rather than a complete pool
with its disks. HvFS's block pointers, objects and intent log are the NestFS
types (`NestBlockPointer`, the DMU object records, `NestZil`). Contracts
stated over these, such as those of `StandardArc` and of the metadata image,
hold of these models.

Not held here:

The file systems' front ends that sit on the kernel framework — the
RAM-backed and proc file systems, the anonymous file system, overlayfs,
the ext2 and exFAT file objects, HvFS's file-system object and the system
calls themselves — depend on the framework's block devices, VFS, RAM
file-system data and credentials, which this library does not have. What
those front ends decide is here where it can be stated over plain values
(the modules above); the calls into the framework are not.
