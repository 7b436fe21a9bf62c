use lib::errno::Errno;
use lib::sysfs::{has_node, mount_sysfs, node_count, queenx_nodes, umount_sysfs, write_node_value};

#[test]
fn sysfs_node_list() {
    assert_eq!(node_count(), 6);
    assert!(has_node("version"));
    assert!(has_node("mem_free"));
    assert!(!has_node("cpu"));
    let nodes = queenx_nodes();
    assert_eq!(nodes[3].name, "uptime_secs");
    assert_eq!(nodes[0].perm, 0o444);
}

#[test]
fn sysfs_values() {
    let mut buf = [0u8; 32];
    assert_eq!(write_node_value("version", &mut buf), Ok(12));
    assert_eq!(&buf[..12], b"queenx-0.1.0");
    assert_eq!(write_node_value("boot_status", &mut buf), Ok(1));
    assert_eq!(buf[0], b'1');
    assert_eq!(write_node_value("cpu_count", &mut buf), Ok(20));
    assert_eq!(&buf[..20], b"10000000000000000000");
    assert_eq!(write_node_value("mem_total", &mut buf), Ok(20));
    assert_eq!(&buf[..9], b"268435456");
    assert_eq!(write_node_value("uptime_secs", &mut buf), Ok(20));
    assert_eq!(&buf[..20], b"00000000000000000000");
    assert_eq!(write_node_value("nope", &mut buf), Err(Errno::ENOENT));
    let mut small = [0u8; 4];
    assert_eq!(write_node_value("mem_free", &mut small), Err(Errno::EINVAL));
    let mut empty: [u8; 0] = [];
    assert_eq!(write_node_value("boot_status", &mut empty), Err(Errno::EINVAL));
}

#[test]
fn sysfs_mount() {
    assert_eq!(mount_sysfs(), Ok(()));
    assert_eq!(umount_sysfs(), Ok(()));
}
