use lib::hvfs::dataset::HvDataset;
use lib::hvfs::file_write::{HvfsFd, HVFS_MAX_FDS};
use lib::hvfs::front::{
    hvfs_link, hvfs_open, HVFS_O_APPEND, HVFS_O_CREAT,
    hvfs_chmod, hvfs_chown_ext, hvfs_mkdir, hvfs_rename, hvfs_seek, hvfs_stat, hvfs_unlink, HvfsError,
};
use lib::nestfs::zil::NestZil;

fn setup() -> (HvDataset, NestZil) {
    let mut ds = HvDataset::new(0, "root", 0);
    ds.init(0);
    let mut zil = NestZil::new();
    zil.init();
    (ds, zil)
}

#[test]
fn hvfs_mkdir_stat_rename_unlink() {
    let (mut ds, mut zil) = setup();
    assert_eq!(hvfs_mkdir(false, &mut ds, &mut zil, "/a", 5, 1), Err(HvfsError::NotInitialized));
    let id = hvfs_mkdir(true, &mut ds, &mut zil, "//a", 5, 1).unwrap();
    assert_eq!(zil.records.len(), 1);
    let o = hvfs_stat(true, &ds, "/a", 5, 3, false).unwrap();
    assert_eq!(o.obj_id, id);
    assert!(hvfs_stat(true, &ds, "/a", 6, 3, false).is_none());
    assert!(hvfs_stat(true, &ds, "/a", 6, 3, true).is_some());
    assert!(hvfs_stat(true, &ds, "/a", 0, 0, true).is_none());
    assert!(hvfs_stat(true, &ds, "/zz", 5, 0, true).is_none());
    hvfs_mkdir(true, &mut ds, &mut zil, "/b", 5, 1).unwrap();
    assert_eq!(hvfs_rename(true, &mut ds, &mut zil, "/a", "/b", 5, 3, false, 2), Err(HvfsError::AlreadyExists));
    assert_eq!(hvfs_rename(true, &mut ds, &mut zil, "/a", "/c", 9, 3, false, 2), Err(HvfsError::PermissionDenied));
    assert_eq!(hvfs_rename(true, &mut ds, &mut zil, "/q", "/c", 5, 3, false, 2), Err(HvfsError::FileNotFound));
    assert_eq!(hvfs_rename(true, &mut ds, &mut zil, "/a", "/c", 5, 3, false, 2), Ok(()));
    assert!(hvfs_stat(true, &ds, "/a", 5, 0, true).is_none());
    assert_eq!(hvfs_stat(true, &ds, "c", 5, 0, true).unwrap().obj_id, id);
    assert!(matches!(hvfs_unlink(true, &mut ds, &mut zil, "/c", 9, 3, false, 3), Err(HvfsError::PermissionDenied)));
    assert!(matches!(hvfs_unlink(true, &mut ds, &mut zil, "/c", 5, 3, false, 3), Ok(None)));
    assert!(matches!(hvfs_unlink(true, &mut ds, &mut zil, "/c", 5, 3, false, 3), Err(HvfsError::FileNotFound)));
    assert_eq!(zil.records.len(), 4);
}

#[test]
fn hvfs_chmod_chown_seek() {
    let (mut ds, mut zil) = setup();
    let id = hvfs_mkdir(true, &mut ds, &mut zil, "/d", 5, 1).unwrap();
    assert_eq!(hvfs_chmod(true, &mut ds, "/d", 0o700, 9, 3, 100), Err(HvfsError::PermissionDenied));
    assert_eq!(hvfs_chmod(true, &mut ds, "/d", 0o700, 5, 3, 100), Ok(()));
    let o = hvfs_stat(true, &ds, "/d", 5, 3, false).unwrap();
    assert_eq!((o.pwm_perm, o.ctime, o.dirty), (0o700, 100, true));
    assert_eq!(hvfs_chown_ext(true, &mut ds, "/d", 7, 0, 3, 200), Err(HvfsError::PermissionDenied));
    assert_eq!(hvfs_chown_ext(true, &mut ds, "/x", 7, 0, 0, 200), Err(HvfsError::FileNotFound));
    assert_eq!(hvfs_chown_ext(true, &mut ds, "/d", 7, 0, 0, 200), Ok(()));
    let o = hvfs_stat(true, &ds, "/d", 7, 3, false).unwrap();
    assert_eq!((o.owner_pwm, o.ctime), (7, 200));
    let mut fds = [HvfsFd { fd: 0, obj_id: 0, ds_id: 0, offset: 0, flags: 0, pwm: 0, used: false }; HVFS_MAX_FDS];
    fds[2] = HvfsFd { fd: 1, obj_id: id, ds_id: 0, offset: 10, flags: 2, pwm: 7, used: true };
    assert_eq!(hvfs_seek(&mut fds, &ds, 2, 5, 0), Ok(5));
    assert_eq!(hvfs_seek(&mut fds, &ds, 2, 3, 1), Ok(8));
    assert_eq!(fds[2].offset, 8);
    assert_eq!(hvfs_seek(&mut fds, &ds, 2, 4, 2), Ok(o.size + 4));
    assert_eq!(hvfs_seek(&mut fds, &ds, 2, 0, 3), Err(HvfsError::InvalidArgument));
    assert_eq!(hvfs_seek(&mut fds, &ds, 3, 0, 0), Err(HvfsError::InvalidArgument));
    fds[4] = HvfsFd { fd: 1, obj_id: 999, ds_id: 0, offset: 0, flags: 2, pwm: 7, used: true };
    assert_eq!(hvfs_seek(&mut fds, &ds, 4, 0, 0), Err(HvfsError::FileNotFound));
}

#[test]
fn hvfs_open_and_link() {
    let (mut ds, mut zil) = setup();
    let mut fds = [HvfsFd { fd: 0, obj_id: 0, ds_id: 0, offset: 0, flags: 0, pwm: 0, used: false }; HVFS_MAX_FDS];
    let (r, nf) = hvfs_open(true, &mut ds, &mut fds, 10, &mut zil, "/f", 0, 5, 3, false, 0);
    assert_eq!((r, nf), (Err(HvfsError::FileNotFound), 10));
    let (r, nf) = hvfs_open(true, &mut ds, &mut fds, 10, &mut zil, "/f", HVFS_O_CREAT, 5, 3, false, 0);
    assert_eq!((r, nf), (Ok(0), 11));
    assert!(fds[0].used && fds[0].fd == 10 && fds[0].flags == HVFS_O_CREAT && fds[0].offset == 0);
    let f = hvfs_stat(true, &ds, "/f", 5, 3, false).unwrap();
    assert_eq!(fds[0].obj_id, f.obj_id);
    let (r, _) = hvfs_open(true, &mut ds, &mut fds, 11, &mut zil, "/f", HVFS_O_APPEND, 9, 3, false, 0);
    assert_eq!(r, Err(HvfsError::PermissionDenied));
    let (r, nf) = hvfs_open(true, &mut ds, &mut fds, 11, &mut zil, "/f", HVFS_O_APPEND, 9, 3, true, 4);
    assert_eq!((r, nf), (Ok(1), 12));
    assert_eq!((fds[1].ds_id, fds[1].offset), (4, f.size));
    let (r, _) = hvfs_open(false, &mut ds, &mut fds, 12, &mut zil, "/f", 0, 5, 3, false, 0);
    assert_eq!(r, Err(HvfsError::NotInitialized));
    // link
    assert_eq!(hvfs_link(true, &mut ds, &mut zil, "/f", "/g", 5, 3, false, 7), Ok(()));
    let g = hvfs_stat(true, &ds, "/g", 5, 3, false).unwrap();
    assert_eq!(g.obj_id, f.obj_id);
    assert_eq!(g.link_count, f.link_count + 1);
    assert_eq!(hvfs_link(true, &mut ds, &mut zil, "/f", "/g", 5, 3, false, 7), Err(HvfsError::AlreadyExists));
    assert_eq!(hvfs_link(true, &mut ds, &mut zil, "/nope", "/h", 5, 3, false, 7), Err(HvfsError::FileNotFound));
    hvfs_mkdir(true, &mut ds, &mut zil, "/dir", 5, 1).unwrap();
    assert_eq!(hvfs_link(true, &mut ds, &mut zil, "/dir", "/h", 5, 3, false, 7), Err(HvfsError::IsDirectory));
    assert_eq!(hvfs_link(true, &mut ds, &mut zil, "/f", "/h", 9, 3, false, 7), Err(HvfsError::PermissionDenied));
}
