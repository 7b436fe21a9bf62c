use lib::exfat::dir::{entries_from_cluster_data, ExfatDirEntry, DIR_ENTRY_FILE, DIR_ENTRY_STREAM};

fn raw(kind: u8) -> [u8; 32] {
    let mut b = [0u8; 32];
    b[0] = kind;
    b
}

#[test]
fn exfat_file_entry_fields() {
    let mut b = raw(DIR_ENTRY_FILE);
    b[2] = 0x10;
    b[3] = 0x00;
    b[5..13].copy_from_slice(&1234u64.to_le_bytes());
    b[21..25].copy_from_slice(&77u32.to_le_bytes());
    let e = ExfatDirEntry::from_bytes(&b).unwrap();
    assert!(e.is_file());
    assert!(!e.is_stream());
    assert_eq!(e.file_attributes(), 0x10);
    assert_eq!(e.valid_length(), 1234);
    assert_eq!(e.stream_length(), 0);
    assert_eq!(e.first_cluster(), 77);
}

#[test]
fn exfat_stream_entry_fields() {
    let mut b = raw(DIR_ENTRY_STREAM);
    b[5..13].copy_from_slice(&99u64.to_le_bytes());
    b[21..25].copy_from_slice(&5u32.to_le_bytes());
    let e = ExfatDirEntry::from_bytes(&b).unwrap();
    assert!(e.is_stream());
    assert_eq!(e.stream_length(), 99);
    assert_eq!(e.valid_length(), 0);
    assert_eq!(e.file_attributes(), 0);
    assert_eq!(e.first_cluster(), 5);
}

#[test]
fn exfat_short_input() {
    assert!(ExfatDirEntry::from_bytes(&[0x85; 31]).is_none());
    let e = ExfatDirEntry::from_bytes(&raw(0)).unwrap();
    assert!(e.is_end());
    assert_eq!(e.first_cluster(), 0);
}

#[test]
fn exfat_cluster_stops_at_end() {
    let mut data = Vec::new();
    data.extend_from_slice(&raw(DIR_ENTRY_FILE));
    data.extend_from_slice(&raw(DIR_ENTRY_STREAM));
    data.extend_from_slice(&raw(0));
    data.extend_from_slice(&raw(DIR_ENTRY_FILE));
    let es = entries_from_cluster_data(&data);
    assert_eq!(es.len(), 2);
    assert!(es[1].is_stream());
}
