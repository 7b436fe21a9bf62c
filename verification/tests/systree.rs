use lib::errno::Errno;
use lib::systree::parse_u64;
use lib::systree::{
    create_node, delete_node, find_node, mount_systree, read_int_attr, resolve_path, umount_systree,
    write_int_attr, Systree, SystreeAttr, SystreeNode,
};
use lib::systree::{handle_request, SystreeReply};

fn tree() -> Box<Systree> {
    let mut t = Box::new(Systree::new());
    mount_systree(&mut t).unwrap();
    t
}

#[test]
fn systree_create_find_resolve() {
    let mut t = tree();
    let dev = create_node(&mut t, 0, "devices").unwrap();
    assert_eq!(dev, 1);
    let cpu = create_node(&mut t, dev, "cpu0").unwrap();
    assert_eq!(cpu, 2);
    assert_eq!(create_node(&mut t, 99, "x"), Err(Errno::ENOENT));
    assert_eq!(find_node(&t, cpu).unwrap().parent_id, dev);
    assert_eq!(resolve_path(&t, "/devices/cpu0").unwrap().id, cpu);
    assert_eq!(resolve_path(&t, "//devices//cpu0/").unwrap().id, cpu);
    assert_eq!(resolve_path(&t, "/").unwrap().id, 0);
    assert_eq!(resolve_path(&t, "").unwrap().id, 0);
    assert!(resolve_path(&t, "/devices/cpu1").is_none());
    assert_eq!(t.find_node_by_name(dev, "cpu0").unwrap().id, cpu);
}

#[test]
fn systree_delete_rules() {
    let mut t = tree();
    let a = create_node(&mut t, 0, "a").unwrap();
    let b = create_node(&mut t, a, "b").unwrap();
    assert_eq!(delete_node(&mut t, 0), Err(Errno::EINVAL));
    assert_eq!(delete_node(&mut t, a), Err(Errno::ENOTEMPTY));
    assert_eq!(delete_node(&mut t, b), Ok(()));
    assert_eq!(delete_node(&mut t, b), Err(Errno::ENOENT));
    assert_eq!(delete_node(&mut t, a), Ok(()));
    assert_eq!(t.node_count, 1);
}

#[test]
fn systree_list_children() {
    let mut t = tree();
    create_node(&mut t, 0, "aa").unwrap();
    create_node(&mut t, 0, "bbb").unwrap();
    let mut buf = [0u8; 16];
    assert_eq!(t.list_children(0, &mut buf), Ok(9));
    assert_eq!(&buf[..9], b"/\naa\nbbb\n");
    let mut small = [0u8; 5];
    assert_eq!(t.list_children(0, &mut small), Ok(5));
    assert_eq!(&small, b"/\naa\n");
}

#[test]
fn systree_attrs() {
    let mut n = SystreeNode::new(5, 0);
    let mut a = SystreeAttr::new();
    a.set_name("freq");
    assert_eq!(n.add_attr(a), Ok(()));
    assert_eq!(n.find_attr("freq").unwrap().perm, 0o644);
    n.find_attr_mut("freq").unwrap().perm = 0o400;
    assert_eq!(n.find_attr("freq").unwrap().perm, 0o400);
    assert_eq!(n.delete_attr("freq"), Ok(()));
    assert_eq!(n.delete_attr("freq"), Err(Errno::ENOENT));
}

#[test]
fn systree_int_attrs() {
    let mut buf = [0u8; 32];
    assert_eq!(read_int_attr(7, &mut buf), Ok(20));
    assert_eq!(buf[0], b'7');
    let mut small = [0u8; 3];
    assert_eq!(read_int_attr(7, &mut small), Err(Errno::EINVAL));
    assert_eq!(write_int_attr(b" 42\n"), Ok(42));
    assert_eq!(write_int_attr(b"+7"), Ok(7));
    assert_eq!(write_int_attr(b"-1"), Err(Errno::EINVAL));
    assert_eq!(write_int_attr(b"18446744073709551616"), Err(Errno::EINVAL));
    assert_eq!(write_int_attr(&[0xff]), Err(Errno::EINVAL));
}

#[test]
fn systree_umount() {
    let mut t = tree();
    create_node(&mut t, 0, "x").unwrap();
    assert_eq!(umount_systree(&mut t), Ok(()));
    assert_eq!(t.node_count, 0);
    assert_eq!(t.next_id, 1);
}

#[test]
fn systree_request_dispatch() {
    let mut t = tree();
    let dev = create_node(&mut t, 0, "dev").unwrap();
    {
        let n = t.find_node_mut(dev).unwrap();
        let mut a = SystreeAttr::new();
        a.set_name("freq");
        a.read_fn = Some(3);
        assert!(n.add_attr(a).is_ok());
        let mut w = SystreeAttr::new();
        w.set_name("ro");
        w.read_fn = Some(4);
        assert!(n.add_attr(w).is_ok());
    }
    let mut buf = [0xffu8; 8];
    assert_eq!(handle_request(&t, 1, 0, b"dev", &mut buf), SystreeReply::Done(4));
    assert_eq!(&buf[..4], &dev.to_le_bytes());
    assert_eq!(buf[4], 0xff);
    let mut short = [0u8; 3];
    assert_eq!(handle_request(&t, 1, 0, b"dev", &mut short), SystreeReply::Failed(Errno::EINVAL));
    assert_eq!(handle_request(&t, 1, 0, b"nope", &mut buf), SystreeReply::Failed(Errno::ENOENT));
    assert_eq!(handle_request(&t, 1, 0, &[0xff], &mut buf), SystreeReply::Failed(Errno::EINVAL));
    let mut list = [0u8; 16];
    assert_eq!(handle_request(&t, 27, 0, b"", &mut list), SystreeReply::Done(6));
    assert_eq!(&list[..6], b"/\ndev\n");
    assert_eq!(handle_request(&t, 19, dev as u64, b"freq", &mut buf), SystreeReply::Read(3));
    assert_eq!(handle_request(&t, 20, dev as u64, b"ro", &mut buf), SystreeReply::Failed(Errno::EIO));
    assert_eq!(handle_request(&t, 19, dev as u64, b"none", &mut buf), SystreeReply::Failed(Errno::ENOENT));
    assert_eq!(handle_request(&t, 19, 77, b"freq", &mut buf), SystreeReply::Failed(Errno::ENOENT));
    assert_eq!(handle_request(&t, 5, 0, b"", &mut buf), SystreeReply::Failed(Errno::ENOSYS));
    assert_eq!(t.read_attr(dev, "freq"), Ok(3));
    assert_eq!(t.write_attr(dev, "freq"), Err(Errno::EIO));
}

#[test]
fn systree_int_attr_trims_unicode_white_space() {
    assert_eq!(write_int_attr("\u{3000}\t7\u{2028}\u{85}".as_bytes()), Ok(7));
    assert_eq!(write_int_attr("\u{a0}12\u{202f}".as_bytes()), Ok(12));
    assert_eq!(write_int_attr("\u{200b}5".as_bytes()), Err(lib::errno::Errno::EINVAL));
    assert_eq!(write_int_attr(b"4 2"), Err(lib::errno::Errno::EINVAL));
}

#[test]
fn systree_parse_u64_accepts_as_std_does() {
    for s in ["", "+", "-1", "1a", " 1", "18446744073709551616", "99999999999999999999"] {
        assert_eq!(parse_u64(s), s.parse::<u64>().ok(), "{s:?}");
        assert_eq!(parse_u64(s), None);
    }
    for s in ["0", "+0", "00012", "42", "18446744073709551615", "+18446744073709551615"] {
        assert_eq!(parse_u64(s), s.parse::<u64>().ok(), "{s:?}");
    }
    assert_eq!(parse_u64("18446744073709551615"), Some(u64::MAX));
}
