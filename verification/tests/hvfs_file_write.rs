use lib::hvfs::file_write::{
    block_key, permission_granted, write_done, write_len, write_start, HvfsFd, WriteStart, HVFS_MAX_FDS,
};
use lib::nestfs::zil::NestZilRecordType;

fn table() -> [HvfsFd; HVFS_MAX_FDS] {
    [HvfsFd { fd: 0, obj_id: 0, ds_id: 0, offset: 0, flags: 0, pwm: 0, used: false }; HVFS_MAX_FDS]
}

#[test]
fn hvfs_write_start_checks_descriptor_and_flags() {
    let mut fds = table();
    fds[3] = HvfsFd { fd: 9, obj_id: 42, ds_id: 1, offset: 100, flags: 0x0002, pwm: 7, used: true };
    fds[4] = HvfsFd { fd: 10, obj_id: 43, ds_id: 1, offset: 0, flags: 0x0001, pwm: 7, used: true };
    fds[5] = HvfsFd { fd: 11, obj_id: 44, ds_id: 1, offset: 0, flags: 0x0003, pwm: 7, used: true };
    assert_eq!(write_start(&fds, 3), WriteStart::Proceed { obj_id: 42, offset: 100, pwm: 7 });
    assert_eq!(write_start(&fds, 4), WriteStart::FlagsDenied);
    assert_eq!(write_start(&fds, 5), WriteStart::Proceed { obj_id: 44, offset: 0, pwm: 7 });
    assert_eq!(write_start(&fds, 6), WriteStart::BadDescriptor);
    assert_eq!(write_start(&fds, 256), WriteStart::BadDescriptor);
}

#[test]
fn hvfs_write_permission() {
    assert!(!permission_granted(0, 0, 0, true));
    assert!(!permission_granted(5, 0xFF, 5, true));
    assert!(permission_granted(5, 0, 9, false));
    assert!(permission_granted(5, 2, 5, false));
    assert!(!permission_granted(5, 2, 9, false));
    assert!(permission_granted(5, 2, 9, true));
}

#[test]
fn hvfs_write_len_and_effects() {
    assert_eq!(write_len(10, 4), 4);
    assert_eq!(write_len(3, 4), 3);
    assert_eq!(write_len(0, 4), 0);
    let d = write_done(2, 8200, 100, 5000, 7);
    assert_eq!(d.new_size, 8300);
    assert_eq!(d.new_offset, 8300);
    assert_eq!((d.key.vdev_id, d.key.offset, d.key.birth_txg), (0, (2u64 << 40) | 8192, 7));
    assert_eq!(d.record.rec_type, NestZilRecordType::Write);
    assert_eq!(d.record.offset, 8200);
    assert_eq!(d.record.size, 100);
    assert_eq!(d.record.obj_id, 2);
    let d = write_done(2, 10, 5, 9000, 7);
    assert_eq!(d.new_size, 9000);
    let k = block_key(1, 100, 3);
    assert_eq!((k.vdev_id, k.offset, k.birth_txg), (0, 1u64 << 40, 3));
}
