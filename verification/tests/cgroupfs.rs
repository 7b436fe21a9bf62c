use lib::cgroupfs::{mount_cgroupfs, umount_cgroupfs, CgroupController, CgroupFs, CgroupNode, MAX_GROUPS};
use lib::errno::Errno;

#[test]
fn cgroup_controller_names_roundtrip() {
    for c in [CgroupController::Cpu, CgroupController::Memory, CgroupController::Io, CgroupController::Pids] {
        assert_eq!(CgroupController::from_name(c.name()), Some(c));
    }
    assert_eq!(CgroupController::from_name("blkio"), None);
}

#[test]
fn cgroup_node_name_truncated_to_32() {
    let mut n = CgroupNode::new();
    n.set_name("a-very-long-node-name-that-exceeds-thirty-two-bytes");
    assert_eq!(n.name_len, 32);
    assert_eq!(n.get_name(), "a-very-long-node-name-that-excee");
    n.set_value("42");
    assert_eq!(n.get_value(), "42");
}

#[test]
fn cgroup_create_read_write() {
    let mut fs = CgroupFs::new();
    assert_eq!(fs.create_group("web", CgroupController::Memory), Ok(()));
    assert_eq!(fs.create_group("web", CgroupController::Cpu), Err(Errno::EEXIST));
    let mut buf = [0u8; 16];
    assert_eq!(fs.read_node("web", "cgroup.controllers", &mut buf), Ok(6));
    assert_eq!(&buf[..6], b"memory");
    assert_eq!(fs.read_node("web", "cgroup.procs", &mut buf), Ok(0));
    assert_eq!(fs.write_node("web", "cgroup.procs", b"1 2 3"), Ok(()));
    assert_eq!(fs.read_node("web", "cgroup.procs", &mut buf), Ok(5));
    assert_eq!(&buf[..5], b"1 2 3");
    let mut small = [0u8; 2];
    assert_eq!(fs.read_node("web", "cgroup.procs", &mut small), Err(Errno::EINVAL));
    assert_eq!(fs.read_node("", "cgroup.procs", &mut buf), Err(Errno::ENOENT));
    assert_eq!(fs.read_node("db", "cgroup.procs", &mut buf), Err(Errno::ENOENT));
    assert_eq!(fs.read_node("web", "memory.max", &mut buf), Err(Errno::ENOENT));
    assert_eq!(fs.write_node("web", "cgroup.procs", &[0xff, 0xfe]), Err(Errno::EINVAL));
    assert_eq!(fs.write_node("web", "nope", b"1"), Err(Errno::ENOENT));
}

#[test]
fn cgroup_delete_shifts_groups() {
    let mut fs = CgroupFs::new();
    fs.create_group("a", CgroupController::Cpu).unwrap();
    fs.create_group("b", CgroupController::Io).unwrap();
    fs.create_group("c", CgroupController::Pids).unwrap();
    assert_eq!(fs.delete_group("b"), Ok(()));
    assert_eq!(fs.group_count, 2);
    assert_eq!(fs.groups[1].get_name(), "c");
    assert!(fs.find_group("b").is_none());
    assert_eq!(fs.delete_group("b"), Err(Errno::ENOENT));
    assert_eq!(fs.find_group("c").unwrap().controller, CgroupController::Pids);
}

#[test]
fn cgroup_table_full() {
    let mut fs = CgroupFs::new();
    for i in 0..MAX_GROUPS {
        let name = format!("g{}", i);
        assert_eq!(fs.create_group(&name, CgroupController::Cpu), Ok(()));
    }
    assert_eq!(fs.create_group("extra", CgroupController::Cpu), Err(Errno::ENOMEM));
}

#[test]
fn cgroup_mount_creates_system_once() {
    let mut fs = CgroupFs::new();
    assert_eq!(mount_cgroupfs(&mut fs), Ok(()));
    assert_eq!(fs.group_count, 1);
    assert_eq!(fs.groups[0].controller, CgroupController::Cpu);
    assert_eq!(fs.groups[0].get_name(), "system");
    assert_eq!(umount_cgroupfs(&mut fs), Ok(()));
    assert_eq!(fs.group_count, 0);
}

#[test]
fn cgroup_group_node_table_full() {
    let mut fs = CgroupFs::new();
    fs.create_group("x", CgroupController::Cpu).unwrap();
    let mut g = fs.groups[0];
    let mut n = CgroupNode::new();
    n.set_name("k");
    assert_eq!(g.add_node(n), Ok(()));
    assert_eq!(g.add_node(n), Ok(()));
    assert_eq!(g.add_node(n), Err(Errno::ENOMEM));
    assert_eq!(g.update_node("k", "v"), Ok(()));
    assert_eq!(g.find_node("k").unwrap().get_value(), "v");
    assert_eq!(g.update_node("missing", "v"), Err(Errno::ENOENT));
}

#[test]
fn cgroup_write_to_deleted_group_is_enoent() {
    let mut fs = CgroupFs::new();
    assert_eq!(fs.create_group("a", CgroupController::Cpu), Ok(()));
    assert_eq!(fs.delete_group("a"), Ok(()));
    assert!(fs.find_group("a").is_none());
    assert_eq!(fs.write_node("a", "cgroup.procs", b"1"), Err(Errno::ENOENT));
    let mut buf = [0u8; 8];
    assert_eq!(fs.read_node("a", "cgroup.procs", &mut buf), Err(Errno::ENOENT));
}

#[test]
fn cgroup_new_group_default_nodes() {
    let mut fs = CgroupFs::new();
    assert_eq!(fs.create_group("a", CgroupController::Pids), Ok(()));
    let g = fs.find_group("a").unwrap();
    assert_eq!(g.node_count, 2);
    let c = g.find_node("cgroup.controllers").unwrap();
    assert_eq!(c.get_value(), "pids");
    assert_eq!(c.name_len, 18);
    assert_eq!(c.value_len, 4);
    let p = g.find_node("cgroup.procs").unwrap();
    assert_eq!(p.get_value(), "");
    assert_eq!(p.name_len, 12);
    let mut buf = [0u8; 8];
    assert_eq!(fs.read_node("a", "cgroup.controllers", &mut buf), Ok(4));
    assert_eq!(&buf[..4], b"pids");
    let mut small = [0u8; 3];
    assert_eq!(fs.read_node("a", "cgroup.controllers", &mut small), Err(Errno::EINVAL));
}

#[test]
fn cgroup_mount_default_group_nodes() {
    let mut fs = CgroupFs::new();
    assert_eq!(mount_cgroupfs(&mut fs), Ok(()));
    assert_eq!(mount_cgroupfs(&mut fs), Ok(()));
    assert_eq!(fs.group_count, 1);
    let g = fs.find_group("system").unwrap();
    assert_eq!(g.controller, CgroupController::Cpu);
    assert_eq!(g.find_node("cgroup.controllers").unwrap().get_value(), "cpu");
    assert_eq!(g.find_node("cgroup.procs").unwrap().get_value(), "");
}
