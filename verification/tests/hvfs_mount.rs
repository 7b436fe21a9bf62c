use lib::hvfs::dataset::{HvDataset, HvDsState};
use lib::hvfs::metadata::serialize_dataset_metadata;
use lib::hvfs::mount::{init_begin, init_step, mount_decide, mount_restore, InitAction, InitEvent, MountDecision};

#[test]
fn hvfs_init_skips_when_up_and_runs_from_memory_without_drives() {
    let (_, a) = init_begin(true, vec![(0, 0)]);
    assert_eq!(a, InitAction::Skip);
    let (st, a) = init_begin(false, vec![]);
    assert_eq!(a, InitAction::MemoryMode);
    let (_, a) = init_step(st, InitEvent::Done);
    assert_eq!(a, InitAction::Finish);
}

#[test]
fn hvfs_init_tries_each_drive_then_restores_primary() {
    let (st, a) = init_begin(false, vec![(1, 2048), (2, 63)]);
    assert_eq!(a, InitAction::Mount(1, 2048));
    let (st, a) = init_step(st, InitEvent::Mounted(false));
    assert_eq!(a, InitAction::Mount(2, 63));
    let (st, a) = init_step(st, InitEvent::Mounted(true));
    assert_eq!(a, InitAction::RestorePrimary(1, 2048));
    let (_, a) = init_step(st, InitEvent::Done);
    assert_eq!(a, InitAction::Finish);
}

#[test]
fn hvfs_init_formats_first_and_adds_the_rest_when_none_mounts() {
    let (st, _) = init_begin(false, vec![(1, 0), (2, 0), (3, 0)]);
    let (st, _) = init_step(st, InitEvent::Mounted(false));
    let (st, _) = init_step(st, InitEvent::Mounted(false));
    let (st, a) = init_step(st, InitEvent::Mounted(false));
    assert_eq!(a, InitAction::Format(1, 0));
    let (st, a) = init_step(st, InitEvent::Done);
    assert_eq!(a, InitAction::AddVdev(2, 0));
    let (st, a) = init_step(st, InitEvent::Done);
    assert_eq!(a, InitAction::AddVdev(3, 0));
    let (st, a) = init_step(st, InitEvent::Done);
    assert_eq!(a, InitAction::RestorePrimary(1, 0));
    let (_, a) = init_step(st, InitEvent::Done);
    assert_eq!(a, InitAction::Finish);
    // A single drive that does not mount is formatted, then made current.
    let (st, _) = init_begin(false, vec![(4, 8)]);
    let (st, a) = init_step(st, InitEvent::Mounted(false));
    assert_eq!(a, InitAction::Format(4, 8));
    let (_, a) = init_step(st, InitEvent::Done);
    assert_eq!(a, InitAction::RestorePrimary(4, 8));
}

#[test]
fn hvfs_mount_decision() {
    assert_eq!(mount_decide(false, Some(3)), MountDecision::NoDrive);
    assert_eq!(mount_decide(true, None), MountDecision::NoUberblock);
    assert_eq!(mount_decide(true, Some(9)), MountDecision::Mount { txg: 9 });
}

#[test]
fn hvfs_mount_restore_from_image_or_fresh() {
    let mut src = HvDataset::new(0, "root", 0);
    src.init(0);
    let image = serialize_dataset_metadata(&src).unwrap();
    let mut ds = HvDataset::new(0, "root", 0);
    assert!(mount_restore(&mut ds, false, Some(&image)));
    assert_eq!(ds.objset.objects.len(), src.objset.objects.len());
    let mut ds = HvDataset::new(0, "root", 0);
    assert!(!mount_restore(&mut ds, true, Some(&image)));
    assert_eq!(ds.state, HvDsState::Active);
    assert_eq!(ds.objset.objects.len(), 2);
    let mut ds = HvDataset::new(0, "root", 0);
    assert!(!mount_restore(&mut ds, false, None));
    assert!(ds.mounted);
    let mut ds = HvDataset::new(0, "root", 0);
    assert!(!mount_restore(&mut ds, false, Some(&[1u8, 2, 3])));
    assert_eq!(ds.objset.objects.len(), 2);
}
