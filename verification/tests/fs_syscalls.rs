use lib::errno::Errno;
use lib::exfat::fat::{fat_begin, fat_next, FatAction};
use lib::fs_syscalls::{access_check, access_finish, copy_begin, copy_next, user_path_check, AccessNeed, CopyAction, CopyEnd};
use lib::hvfs::file_write::{alloc_fd, cached_range, close_fd, read_len, HvfsFd, HVFS_MAX_FDS};

#[test]
fn access_refusal_order() {
    assert_eq!(access_check(0, false, 9), Err(Errno::EFAULT));
    assert_eq!(access_check(0x1000, false, 9), Err(Errno::EFAULT));
    assert_eq!(access_check(0x1000, true, 9), Err(Errno::EINVAL));
    assert_eq!(access_check(0x1000, true, -1), Err(Errno::EINVAL));
    assert_eq!(
        access_check(0x1000, true, 6),
        Ok(AccessNeed { read: true, write: true, execute: false })
    );
    let none = access_check(0x1000, true, 0).unwrap();
    assert_eq!(access_finish(none, false, true), Ok(0));
    assert_eq!(access_finish(none, false, false), Err(Errno::EACCES));
    let rx = access_check(0x1000, true, 5).unwrap();
    assert_eq!(access_finish(rx, false, true), Err(Errno::EACCES));
    assert_eq!(access_finish(rx, true, true), Ok(0));
    assert_eq!(user_path_check(0, true), Err(Errno::EFAULT));
    assert_eq!(user_path_check(8, true), Ok(()));
}

#[test]
fn copy_file_range_steps() {
    let (_, a) = copy_begin(-1, 3, 10);
    assert_eq!(a, CopyAction::Finish(CopyEnd::BadDescriptor));
    let (_, a) = copy_begin(1, 3, 0);
    assert_eq!(a, CopyAction::Finish(CopyEnd::Copied(0)));
    // 5000 bytes: a full chunk, then the rest.
    let (st, a) = copy_begin(1, 3, 5000);
    assert_eq!(a, CopyAction::Read(4096));
    let (st, a) = copy_next(st, 4096);
    assert_eq!(a, CopyAction::Write(4096));
    let (st, a) = copy_next(st, 4096);
    assert_eq!(a, CopyAction::Read(904));
    let (st, a) = copy_next(st, 904);
    assert_eq!(a, CopyAction::Write(904));
    let (_, a) = copy_next(st, 904);
    assert_eq!(a, CopyAction::Finish(CopyEnd::Copied(5000)));
    // A short write ends the copy, counting the bytes read.
    let (st, _) = copy_begin(1, 3, 100);
    let (st, _) = copy_next(st, 100);
    let (_, a) = copy_next(st, 40);
    assert_eq!(a, CopyAction::Finish(CopyEnd::Copied(100)));
    // A failed first read reports the failure; later, the count so far.
    let (st, _) = copy_begin(1, 3, 100);
    let (_, a) = copy_next(st, -5);
    assert_eq!(a, CopyAction::Finish(CopyEnd::Failed(-5)));
    let (st, _) = copy_begin(1, 3, 5000);
    let (st, _) = copy_next(st, 4096);
    let (st, _) = copy_next(st, 4096);
    let (_, a) = copy_next(st, -9);
    assert_eq!(a, CopyAction::Finish(CopyEnd::Copied(4096)));
    // End of file.
    let (st, _) = copy_begin(1, 3, 100);
    let (_, a) = copy_next(st, 0);
    assert_eq!(a, CopyAction::Finish(CopyEnd::Copied(0)));
}

fn sector_with(entries: &[(usize, u32)], size: usize) -> Vec<u8> {
    let mut s = vec![0u8; size];
    for &(off, v) in entries {
        s[off..off + 4].copy_from_slice(&v.to_le_bytes());
    }
    s
}

#[test]
fn exfat_fat_chain_walk() {
    // 512-byte sectors, table at sector 100, 1000 clusters; chain 3 -> 4 -> 200 -> end.
    let (w, a) = fat_begin(3, 1000, 512, 100);
    assert_eq!(a, FatAction::ReadSector(100));
    let (w, a) = fat_next(w, Some(sector_with(&[(12, 4)], 512)));
    assert_eq!(a, FatAction::ReadSector(100));
    let (w, a) = fat_next(w, Some(sector_with(&[(16, 200)], 512)));
    assert_eq!(a, FatAction::ReadSector(101));
    let (w, a) = fat_next(w, Some(sector_with(&[(288, 0x0FFF_FFFF)], 512)));
    assert_eq!(a, FatAction::Done);
    assert_eq!(w.chain, vec![3, 4, 200]);
    // Out of the volume at once, a failed read, a free entry.
    let (w, a) = fat_begin(1, 1000, 512, 100);
    assert_eq!(a, FatAction::Done);
    assert!(w.chain.is_empty());
    let (w, _) = fat_begin(5, 1000, 512, 100);
    let (w, a) = fat_next(w, None);
    assert_eq!(a, FatAction::Done);
    assert_eq!(w.chain, vec![5]);
    let (w, _) = fat_begin(5, 1000, 512, 100);
    let (w, a) = fat_next(w, Some(vec![0u8; 512]));
    assert_eq!(a, FatAction::Done);
    assert_eq!(w.chain, vec![5]);
    // A next cluster past the volume ends the chain without collecting it.
    let (w, _) = fat_begin(5, 10, 512, 100);
    let (w, a) = fat_next(w, Some(sector_with(&[(20, 50)], 512)));
    assert_eq!(a, FatAction::Done);
    assert_eq!(w.chain, vec![5]);
}

#[test]
fn hvfs_descriptor_table_and_read_len() {
    let mut fds = [HvfsFd { fd: 0, obj_id: 0, ds_id: 0, offset: 0, flags: 0, pwm: 0, used: false }; HVFS_MAX_FDS];
    assert_eq!(alloc_fd(&mut fds, 7), (Some(0), 8));
    assert_eq!(alloc_fd(&mut fds, 8), (Some(1), 9));
    assert!(fds[0].used && fds[0].fd == 7);
    fds[0].offset = 55;
    assert_eq!(close_fd(&mut fds, 0), Ok(()));
    assert!(!fds[0].used && fds[0].offset == 0);
    assert_eq!(close_fd(&mut fds, 0), Err(Errno::EINVAL));
    assert_eq!(close_fd(&mut fds, 300), Err(Errno::EINVAL));
    assert_eq!(alloc_fd(&mut fds, u32::MAX), (Some(0), 0));
    for f in fds.iter_mut() {
        f.used = true;
    }
    assert_eq!(alloc_fd(&mut fds, 3), (None, 3));
    assert_eq!(read_len(100, 50, 10, 40), 30);
    assert_eq!(read_len(10, 50, 10, 40), 10);
    assert_eq!(read_len(100, 5, 10, 40), 5);
    assert_eq!(read_len(100, 50, 40, 40), 0);
    assert_eq!(cached_range(8192 + 100, 50), (100, 150));
    assert_eq!(cached_range(8000, 500), (8000, 8192));
}
