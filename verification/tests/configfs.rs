use lib::configfs::{mount_configfs, umount_configfs, ConfigDir, ConfigFs, ConfigNode};
use lib::errno::Errno;

fn node(name: &str, value: &str, writable: bool) -> ConfigNode {
    let mut n = ConfigNode::new();
    n.set_name(name);
    n.set_value(value);
    n.writable = writable;
    n
}

#[test]
fn configfs_node_read_write() {
    let mut n = node("speed", "100", true);
    let mut buf = [0u8; 8];
    assert_eq!(n.read(&mut buf), Ok(3));
    assert_eq!(&buf[..3], b"100");
    assert_eq!(n.write(b"250"), Ok(()));
    assert_eq!(n.get_value(), "250");
    assert_eq!(n.write(&[0xc3]), Err(Errno::EINVAL));
    let mut ro = node("id", "7", false);
    assert_eq!(ro.write(b"8"), Err(Errno::EPERM));
    let mut tiny = [0u8; 2];
    assert_eq!(n.read(&mut tiny), Err(Errno::EINVAL));
}

#[test]
fn configfs_dirs_and_nodes() {
    let mut fs = ConfigFs::new();
    assert_eq!(fs.create_dir("net"), Ok(()));
    assert_eq!(fs.create_dir("net"), Err(Errno::EEXIST));
    {
        let d = fs.find_dir_mut("net").unwrap();
        d.add_node(node("mtu", "1500", true)).unwrap();
        d.add_node(node("mac", "aa", false)).unwrap();
    }
    let mut buf = [0u8; 8];
    assert_eq!(fs.read_node("net", "mtu", &mut buf), Ok(4));
    assert_eq!(&buf[..4], b"1500");
    assert_eq!(fs.write_node("net", "mtu", b"9000"), Ok(()));
    assert_eq!(fs.read_node("net", "mtu", &mut buf), Ok(4));
    assert_eq!(&buf[..4], b"9000");
    assert_eq!(fs.write_node("net", "mac", b"bb"), Err(Errno::EPERM));
    assert_eq!(fs.write_node("net", "none", b"bb"), Err(Errno::ENOENT));
    assert_eq!(fs.read_node("usb", "mtu", &mut buf), Err(Errno::ENOENT));
    assert_eq!(fs.delete_dir("net"), Ok(()));
    assert_eq!(fs.delete_dir("net"), Err(Errno::ENOENT));
}

#[test]
fn configfs_delete_node_shifts() {
    let mut d = ConfigDir::new();
    d.set_name("d");
    d.add_node(node("a", "1", true)).unwrap();
    d.add_node(node("b", "2", true)).unwrap();
    d.add_node(node("c", "3", true)).unwrap();
    assert_eq!(d.delete_node("a"), Ok(()));
    assert_eq!(d.node_count, 2);
    assert_eq!(d.nodes[0].get_name(), "b");
    assert_eq!(d.delete_node("a"), Err(Errno::ENOENT));
    assert!(d.find_node("c").is_some());
    d.find_node_mut("c").unwrap().set_value("33");
    assert_eq!(d.find_node("c").unwrap().get_value(), "33");
}

#[test]
fn configfs_mount_defaults() {
    let mut fs = ConfigFs::new();
    assert_eq!(mount_configfs(&mut fs), Ok(()));
    assert_eq!(fs.dir_count, 3);
    assert!(fs.find_dir("devices").is_some());
    assert!(fs.find_dir("modules").is_some());
    assert!(fs.find_dir("groups").is_some());
    assert_eq!(umount_configfs(&mut fs), Ok(()));
    assert_eq!(fs.dir_count, 0);
}
