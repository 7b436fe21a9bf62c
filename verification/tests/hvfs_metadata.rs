use lib::hvfs::dataset::HvDataset;
use lib::hvfs::metadata::{deserialize_dataset_metadata, encode_metadata, serialize_dataset_metadata};
use lib::nestfs::dmu::NestObjType;

fn le32(b: &[u8], off: usize) -> u32 {
    u32::from_le_bytes([b[off], b[off + 1], b[off + 2], b[off + 3]])
}

fn le64(b: &[u8], off: usize) -> u64 {
    let mut a = [0u8; 8];
    a.copy_from_slice(&b[off..off + 8]);
    u64::from_le_bytes(a)
}

fn dataset_with_objects() -> HvDataset {
    let mut ds = HvDataset::new(1, "tank", 7);
    ds.objset.init(7);
    let a = ds.objset.alloc_obj(NestObjType::File, 7).unwrap();
    let mut o = ds.objset.get_obj(a).unwrap();
    o.size = 4096;
    o.mtime = 0x1122334455667788;
    o.pwm_perm = 0o600;
    o.sensitivity = 3;
    assert!(ds.objset.update_obj(&o));
    ds
}

#[test]
fn metadata_header_layout() {
    let ds = dataset_with_objects();
    let n = ds.objset.objects.iter().filter(|o| o.used).count();
    let b = serialize_dataset_metadata(&ds).unwrap();
    assert_eq!(&b[0..4], b"HVM1");
    assert_eq!(le32(&b, 4), 1);
    assert_eq!(le32(&b, 8) as usize, n);
    assert_eq!(le32(&b, 12), 0);
    assert_eq!(le64(&b, 16), ds.objset.next_obj_id);
    assert_eq!(le32(&b, 24) as usize, 32 + 222 * n);
    assert_eq!(b.len(), 32 + 222 * n);
    assert_eq!(&b[28..32], &[0, 0, 0, 0]);
}

#[test]
fn metadata_objects_roundtrip() {
    let ds = dataset_with_objects();
    let b = serialize_dataset_metadata(&ds).unwrap();
    let mut back = HvDataset::new(2, "other", 9);
    assert!(deserialize_dataset_metadata(&mut back, &b));
    let used: Vec<_> = ds.objset.objects.iter().filter(|o| o.used).copied().collect();
    assert_eq!(back.objset.objects.len(), used.len());
    assert_eq!(back.objset.next_obj_id, ds.objset.next_obj_id);
    for (x, o) in back.objset.objects.iter().zip(used.iter()) {
        assert_eq!(x.obj_id, o.obj_id);
        assert_eq!(x.obj_type, o.obj_type);
        assert_eq!(x.size, o.size);
        assert_eq!(x.mtime, o.mtime);
        assert_eq!(x.pwm_perm, o.pwm_perm);
        assert_eq!(x.sensitivity, o.sensitivity);
        assert_eq!(x.link_count, o.link_count);
        assert_eq!(x.owner_pwm, o.owner_pwm);
        assert_eq!(x.block_size, 8192);
        assert!(x.used);
        assert!(!x.dirty);
    }
    assert_eq!(back.dir_zap.len(), 0);
    assert_eq!(back.ds_id, 2);
}

#[test]
fn metadata_entry_reads_zero_id() {
    let mut ds = HvDataset::new(1, "tank", 7);
    ds.init(7);
    let id = ds.create_file("a", 7).unwrap();
    assert!(id >= 3);
    let b = serialize_dataset_metadata(&ds).unwrap();
    let n = le32(&b, 8) as usize;
    assert_eq!(le32(&b, 12), 1);
    let start = 32 + 202 * n;
    assert_eq!(&b[start..start + 3], &[1, 0, b'a']);
    assert_eq!(b.len(), 32 + 222 * n + 10 + 1);
    let mut back = HvDataset::new(2, "x", 0);
    assert!(deserialize_dataset_metadata(&mut back, &b));
    assert_eq!(back.lookup("a"), Some(0));
}

#[test]
fn metadata_rejects_bad_header() {
    let mut ds = HvDataset::new(2, "x", 0);
    ds.objset.init(0);
    let before = ds.objset.objects.len();
    assert!(!deserialize_dataset_metadata(&mut ds, &[0u8; 16]));
    let mut bad = vec![0u8; 32];
    bad[0..4].copy_from_slice(b"HVM2");
    assert!(!deserialize_dataset_metadata(&mut ds, &bad));
    let mut short = vec![0u8; 32];
    short[0..4].copy_from_slice(b"HVM1");
    short[8] = 1;
    assert!(!deserialize_dataset_metadata(&mut ds, &short));
    let mut many = vec![0u8; 32];
    many[0..4].copy_from_slice(b"HVM1");
    many[8..12].copy_from_slice(&65537u32.to_le_bytes());
    assert!(!deserialize_dataset_metadata(&mut ds, &many));
    assert_eq!(ds.objset.objects.len(), before);
}

#[test]
fn metadata_truncated_entry_fails_after_objects() {
    let mut buf = vec![0u8; 42];
    buf[0..4].copy_from_slice(b"HVM1");
    buf[12..16].copy_from_slice(&1u32.to_le_bytes());
    buf[16..24].copy_from_slice(&9u64.to_le_bytes());
    buf[32..34].copy_from_slice(&5u16.to_le_bytes());
    let mut ds = HvDataset::new(2, "x", 0);
    ds.objset.init(0);
    assert!(!deserialize_dataset_metadata(&mut ds, &buf));
    assert_eq!(ds.objset.objects.len(), 0);
    assert_eq!(ds.objset.next_obj_id, 9);
    assert_eq!(ds.dir_zap.len(), 0);
}

#[test]
fn metadata_invalid_utf8_name_marked() {
    let mut buf = vec![0u8; 32 + 2 + 2 + 8];
    buf[0..4].copy_from_slice(b"HVM1");
    buf[12..16].copy_from_slice(&1u32.to_le_bytes());
    buf[32..34].copy_from_slice(&2u16.to_le_bytes());
    buf[34] = 0xff;
    buf[35] = 0xfe;
    buf[36..44].copy_from_slice(&42u64.to_le_bytes());
    let mut ds = HvDataset::new(2, "x", 0);
    assert!(deserialize_dataset_metadata(&mut ds, &buf));
    assert_eq!(ds.lookup("?"), Some(42));
}

#[test]
fn metadata_encode_limits() {
    let objs = Vec::new();
    let names: Vec<String> = (0..65537).map(|_| String::new()).collect();
    assert!(encode_metadata(&objs, &names, 0).is_none());
    let names: Vec<String> = vec!["ab".to_string()];
    let b = encode_metadata(&objs, &names, 5).unwrap();
    assert_eq!(b.len(), 32 + 12);
    assert_eq!(&b[32..36], &[2, 0, b'a', b'b']);
}
