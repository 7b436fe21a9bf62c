use lib::nestfs::dmu::NestObjType;
use lib::nestfs::dmu_trait::{DmuManager, StandardDmu};

#[test]
fn test_dmu_uninitialized() {
    let dmu = StandardDmu::new();
    assert!(!dmu.is_initialized());
    assert_eq!(dmu.obj_count(), 0);
    assert_eq!(dmu.root_obj_id(), 2);
}

#[test]
fn test_dmu_init() {
    let mut dmu = StandardDmu::new();
    dmu.init(0x100);
    assert!(dmu.is_initialized());
    assert_eq!(dmu.obj_count(), 2);
    let root = dmu.get_root().unwrap();
    assert_eq!(root.obj_type, NestObjType::Dir);
    assert_eq!(root.obj_id, 2);
}

#[test]
fn test_dmu_alloc_types() {
    let mut dmu = StandardDmu::new();
    dmu.init(0x100);
    let f = dmu.alloc_obj(NestObjType::File, 0x100).unwrap();
    assert_eq!(f, 3);
    let mut dmu2 = StandardDmu::new();
    dmu2.init(0x100);
    let f2 = dmu2.alloc_obj(NestObjType::File, 0x100).unwrap();
    assert_eq!(f2, 3);
    let d2 = dmu2.alloc_obj(NestObjType::Dir, 0x100).unwrap();
    assert_eq!(d2, 4);
    let fobj = dmu2.get_obj(f2).unwrap();
    assert_eq!(fobj.obj_type, NestObjType::File);
    let dobj = dmu2.get_obj(d2).unwrap();
    assert_eq!(dobj.obj_type, NestObjType::Dir);
}

#[test]
fn test_dmu_get_obj() {
    let mut dmu = StandardDmu::new();
    dmu.init(0x100);
    assert!(dmu.get_obj(99).is_none());
    let root = dmu.get_obj(2).unwrap();
    assert_eq!(root.obj_id, 2);
}

#[test]
fn test_dmu_free_obj() {
    let mut dmu = StandardDmu::new();
    dmu.init(0x100);
    let f = dmu.alloc_obj(NestObjType::File, 0x100).unwrap();
    let obj = dmu.get_obj(f).unwrap();
    assert_eq!(obj.link_count, 1);
    assert_eq!(obj.used, true);
    assert!(dmu.free_obj(f));
    let obj2 = dmu.get_obj(f);
    assert!(obj2.is_none(), "link_count=0 后 used=false, get 返回 None");
}

#[test]
fn test_dmu_free_nonexistent() {
    let mut dmu = StandardDmu::new();
    dmu.init(0x100);
    assert!(!dmu.free_obj(99));
}

#[test]
fn test_dmu_update_obj() {
    let mut dmu = StandardDmu::new();
    dmu.init(0x100);
    let f = dmu.alloc_obj(NestObjType::File, 0x100).unwrap();
    let mut obj = dmu.get_obj(f).unwrap();
    obj.size = 4096;
    assert!(dmu.update_obj(&obj));
    let obj2 = dmu.get_obj(f).unwrap();
    assert_eq!(obj2.size, 4096);
}

#[test]
fn test_dmu_obj_count() {
    let mut dmu = StandardDmu::new();
    dmu.init(0x100);
    assert_eq!(dmu.obj_count(), 2);
    dmu.alloc_obj(NestObjType::File, 0x100);
    dmu.alloc_obj(NestObjType::Dir, 0x100);
    dmu.alloc_obj(NestObjType::File, 0x100);
    assert_eq!(dmu.obj_count(), 5);
    let f = dmu.alloc_obj(NestObjType::File, 0x100).unwrap();
    dmu.free_obj(f);
    assert_eq!(dmu.obj_count(), 5);
}

#[test]
fn test_dmu_trait_object() {
    let mut dmu: Box<dyn DmuManager> = Box::new(StandardDmu::new());
    dmu.init(0x100);
    assert!(dmu.is_initialized());
    let f = dmu.alloc_obj(NestObjType::File, 0x100).unwrap();
    assert!(dmu.get_obj(f).is_some());
}

#[test]
fn test_dmu_full_cycle() {
    let mut dmu = StandardDmu::new();
    dmu.init(0x100);
    let subdir = dmu.alloc_obj(NestObjType::Dir, 0x100).unwrap();
    let file = dmu.alloc_obj(NestObjType::File, 0x100).unwrap();
    let mut fobj = dmu.get_obj(file).unwrap();
    fobj.size = 8192;
    fobj.link_count = 2;
    dmu.update_obj(&fobj);
    let fobj2 = dmu.get_obj(file).unwrap();
    assert_eq!(fobj2.size, 8192);
    assert_eq!(fobj2.link_count, 2);
    dmu.free_obj(file);
    let fobj3 = dmu.get_obj(file).unwrap();
    assert_eq!(fobj3.link_count, 1);
    assert_eq!(fobj3.used, true);
    dmu.free_obj(file);
    assert!(dmu.get_obj(file).is_none());
    assert!(dmu.get_obj(subdir).is_some());
}

#[test]
fn dmu_update_of_unknown_object_fails() {
    let mut dmu = StandardDmu::new();
    dmu.init(1);
    let mut root = dmu.get_root().unwrap();
    root.obj_id = 77;
    assert!(!dmu.update_obj(&root));
    assert_eq!(dmu.next_obj_id(), 3);
}
