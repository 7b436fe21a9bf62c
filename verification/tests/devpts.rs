use lib::devpts::{
    alloc_pty, free_pty, get_pty, mount_devpts, pty_count, pty_exists, PtyState, PtyTable, MAX_PTY_DEVICES,
};
use lib::errno::Errno;

#[test]
fn devpts_alloc_names_and_counts() {
    let mut t = PtyTable::new();
    assert_eq!(t.allocate(), Ok(0));
    assert_eq!(t.allocate(), Ok(1));
    let d0 = t.get(0).unwrap();
    assert_eq!(&d0.name[..d0.name_len as usize], b"pts/0");
    assert_eq!(t.count(), 2);
    assert!(t.slot_exists(1));
    assert_eq!(t.free(0), Ok(()));
    assert_eq!(t.free(0), Err(Errno::EINVAL));
    assert_eq!(t.free(300), Err(Errno::EINVAL));
    assert!(t.get(0).is_none());
    assert_eq!(t.count(), 1);
    assert_eq!(t.allocate(), Ok(0));
}

#[test]
fn devpts_multi_digit_names() {
    let mut t = PtyTable::new();
    for i in 0..124 {
        assert_eq!(alloc_pty(&mut t), Ok(i));
    }
    let d = get_pty(&t, 123).unwrap();
    assert_eq!(&d.name[..d.name_len as usize], b"pts/123");
    assert_eq!(d.state, PtyState::Allocated);
    let d9 = get_pty(&t, 9).unwrap();
    assert_eq!(&d9.name[..d9.name_len as usize], b"pts/9");
    assert_eq!(pty_count(&t), 124);
    assert!(pty_exists(&t, 100));
    assert!(!pty_exists(&t, 200));
    assert_eq!(free_pty(&mut t, 100), Ok(()));
    assert!(!pty_exists(&t, 100));
}

#[test]
fn devpts_full_table() {
    let mut t = PtyTable::new();
    for _ in 0..MAX_PTY_DEVICES {
        t.allocate().unwrap();
    }
    assert_eq!(t.allocate(), Err(Errno::ENOMEM));
    assert_eq!(t.count(), 256);
    assert_eq!(mount_devpts(&mut t), Ok(()));
    assert_eq!(t.count(), 0);
    assert!(!pty_exists(&t, 5));
}

#[test]
fn devpts_allocated_id_is_slot_number() {
    let mut t = PtyTable::new();
    assert_eq!(t.allocate(), Ok(0));
    assert_eq!(t.allocate(), Ok(1));
    assert_eq!(t.get(1).unwrap().id, 1);
    assert_eq!(get_pty(&t, 0).unwrap().id, 0);
    assert_eq!(alloc_pty(&mut t), Ok(2));
    assert_eq!(get_pty(&t, 2).unwrap().id, 2);
}
