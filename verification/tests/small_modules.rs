use lib::hvfs::dataset::{HvDataset, HvDsProps, HvDsState};
use lib::procfs::{ProcEntryKind};
use lib::ramfs::FileDescriptor;
use lib::tmpfs::{TmpFsData, TmpFsInode, TMPFS_DEFAULT_MAX_SIZE};
use lib::errno::Errno;
use lib::open_flags::{validate_flags, O_CREAT, O_DIRECTORY, O_RDONLY, O_RDWR, O_TRUNC, O_WRONLY};
use lib::path_rel::{is_strictly_under, pivot_root_plan};
use lib::ramfs::split_path;

#[test]
fn tmpfs_accounting() {
    let mut d = TmpFsData::new(100);
    assert_eq!(d.max_size(), 100);
    assert!(d.has_space(100));
    assert!(!d.has_space(101));
    d.add_used(60);
    assert_eq!(d.free_size(), 40);
    d.add_used(u64::MAX);
    assert_eq!(d.used_size(), u64::MAX);
    assert_eq!(d.free_size(), 0);
    d.sub_used(u64::MAX);
    assert_eq!(d.used_size(), 0);
    d.sub_used(5);
    assert_eq!(d.used_size(), 0);
    assert_eq!(TmpFsData::new_default().max_size(), TMPFS_DEFAULT_MAX_SIZE);
    let _ = TmpFsInode::new(3, 1);
}

#[test]
fn ramfs_descriptor_flags() {
    let fd = FileDescriptor::new(4, 0x1, 9);
    assert_eq!(fd.offset, 0);
    assert!(fd.is_read_only());
    assert!(!fd.is_writable());
    let rw = FileDescriptor::new(4, 0x5, 9);
    assert!(!rw.is_read_only());
    assert!(rw.is_writable());
    assert!(FileDescriptor::new(1, 0x2, 0).is_writable());
}

#[test]
fn procfs_kinds() {
    assert_eq!(ProcEntryKind::from_u8(1), Some(ProcEntryKind::Dir));
    assert_eq!(ProcEntryKind::from_u8(4), Some(ProcEntryKind::File));
    assert_eq!(ProcEntryKind::from_u8(0), None);
    assert_eq!(ProcEntryKind::from_u8(5), None);
}

#[test]
fn dataset_directory_ops() {
    let mut ds = HvDataset::new(1, "pool/home", 7);
    assert_eq!(ds.get_name(), "pool/home");
    assert_eq!(ds.state, HvDsState::Creating);
    assert!(!ds.is_writeable());
    assert_eq!(ds.create_file("a", 7), None);
    ds.init(7);
    assert!(ds.is_active());
    assert!(ds.is_writeable());
    let f = ds.create_file("a", 7).unwrap();
    assert_eq!(f, 3);
    let d = ds.create_dir("sub", 7).unwrap();
    assert_eq!(d, 4);
    assert_eq!(ds.lookup("a"), Some(3));
    assert!(ds.link("b", 3));
    let entries = ds.list_entries();
    assert_eq!(entries, vec![("a".to_string(), 3), ("sub".to_string(), 4), ("b".to_string(), 3)]);
    assert!(ds.unlink("a"));
    assert!(!ds.unlink("a"));
    assert_eq!(ds.lookup("a"), None);
    assert_eq!(ds.get_used(), 0);
    assert_eq!(ds.get_ref_count(), 1);
    assert_eq!(HvDsProps::default().record_size, 131072);
    assert_eq!(ds.props.owner_pwm, 7);
}

#[test]
fn dataset_name_is_cut_to_127() {
    let long = "x".repeat(200);
    let ds = HvDataset::new(2, &long, 0);
    assert_eq!(ds.get_name().len(), 127);
}

#[test]
fn open_flag_combinations() {
    assert!(validate_flags(O_RDONLY).is_ok());
    assert_eq!(validate_flags(-1), Err(Errno::EINVAL));
    assert_eq!(validate_flags(3), Err(Errno::EINVAL));
    assert_eq!(validate_flags(O_CREAT | O_RDONLY), Err(Errno::EINVAL));
    assert!(validate_flags(O_CREAT | O_WRONLY).is_ok());
    assert_eq!(validate_flags(O_TRUNC), Err(Errno::EINVAL));
    assert!(validate_flags(O_TRUNC | O_RDWR).is_ok());
    assert_eq!(validate_flags(O_DIRECTORY | O_CREAT | O_RDWR), Err(Errno::EINVAL));
    assert!(validate_flags(O_DIRECTORY).is_ok());
}

#[test]
fn strictly_under_paths() {
    assert!(is_strictly_under("/a", "/"));
    assert!(!is_strictly_under("/", "/"));
    assert!(!is_strictly_under("a", "/"));
    assert!(is_strictly_under("/a/b", "/a"));
    assert!(!is_strictly_under("/ab", "/a"));
    assert!(!is_strictly_under("/a", "/a"));
    assert!(!is_strictly_under("/b/c", "/a"));
}

#[test]
fn ramfs_split_path_cases() {
    assert_eq!(split_path("/a/b"), Some(("/a", "b")));
    assert_eq!(split_path("/a"), Some(("/", "a")));
    assert_eq!(split_path("a"), Some((".", "a")));
    assert_eq!(split_path("a/b/"), Some(("a", "b")));
    assert_eq!(split_path("//x//"), Some(("/", "x")));
    assert_eq!(split_path("/"), None);
    assert_eq!(split_path(""), None);
}

#[test]
fn pivot_root_checks() {
    assert_eq!(pivot_root_plan("/", "/old", "/"), Err(Errno::EBUSY));
    assert_eq!(pivot_root_plan("/new", "/new", "/"), Err(Errno::EINVAL));
    assert_eq!(pivot_root_plan("/new", "/other/old", "/"), Err(Errno::EINVAL));
    assert_eq!(pivot_root_plan("/new", "/new/old", "/"), Ok(()));
    assert_eq!(Errno::EBUSY.as_i32(), 16);
}
