use lib::hvfs::zil_persist::{
    crc32_checksum, crc32_test_wrapper, serialize_record, try_deserialize_record, HvZilPersistError, HvZilRecord,
    HvZilRecordType, ZIL_RECORD_DISK_SIZE,
};
use lib::nestfs::zil::{NestZil, NestZilRecord};
use lib::nestfs::zil_persist::NestZilPersist;
use lib::nestfs::zil_persist_trait::{StandardZilPersist, ZilPersist};

#[test]
fn test_crc32_deterministic() {
    let data = b"Hello, ZIL!";
    let c1 = crc32_checksum(data);
    let c2 = crc32_checksum(data);
    assert_eq!(c1, c2);
    assert_ne!(c1, 0);
}

#[test]
fn test_serialize_roundtrip() {
    let rec = HvZilRecord {
        rec_type: HvZilRecordType::Write,
        txg: 42,
        obj_id: 100,
        parent_obj: 0,
        offset: 4096,
        size: 512,
        name: [0; 128],
        data_hash: [1, 2, 3, 4],
        seq: 1,
    };
    let mut buf = [0u8; ZIL_RECORD_DISK_SIZE];
    serialize_record(&rec, &mut buf);
    let deserialized = try_deserialize_record(&buf).expect("P0-I-15: roundtrip must succeed");
    assert_eq!(deserialized.txg, 42);
    assert_eq!(deserialized.obj_id, 100);
    assert_eq!(deserialized.offset, 4096);
    assert_eq!(deserialized.size, 512);
    assert_eq!(deserialized.seq, 1);
    assert_eq!(deserialized.data_hash, [1, 2, 3, 4]);
}

#[test]
fn test_deserialize_corrupted_data() {
    let rec = HvZilRecord {
        rec_type: HvZilRecordType::Create,
        txg: 1,
        obj_id: 0,
        parent_obj: 0,
        offset: 0,
        size: 0,
        name: [0; 128],
        data_hash: [0; 4],
        seq: 0,
    };
    let mut buf = [0u8; ZIL_RECORD_DISK_SIZE];
    serialize_record(&rec, &mut buf);
    buf[10] ^= 0xFF;
    let err = try_deserialize_record(&buf).expect_err("P0-I-15: corrupt must fail");
    assert!(matches!(err, HvZilPersistError::CrcMismatch { .. }));
}

#[test]
fn crc32_known_value() {
    assert_eq!(crc32_checksum(b"123456789"), 0xCBF43926);
    assert_eq!(crc32_checksum(b""), 0);
    assert_eq!(crc32_test_wrapper(b"123456789"), 0xCBF43926);
}

#[test]
fn test_zil_persist_empty_returns_none() {
    let records: Vec<NestZilRecord> = Vec::new();
    let result = StandardZilPersist::serialize_zil_to_block(&records, 1);
    assert!(result.is_none());
}

#[test]
fn test_zil_persist_roundtrip() {
    let mut zil = NestZil::new();
    zil.init();
    zil.add_record(NestZilRecord::new_write(1, 100, 0, 4096));
    zil.add_record(NestZilRecord::new_write(1, 200, 0, 4096));
    zil.add_record(NestZilRecord::new_create(1, 10, "file1"));
    let block = NestZilPersist::serialize_zil_to_block(&zil, 1);
    assert!(block.is_some());
    let block = block.unwrap();
    let records = StandardZilPersist::deserialize_zil_from_block(&block);
    assert_eq!(records.len(), 3);
}

#[test]
fn test_zil_persist_multi_txg() {
    let mut zil = NestZil::new();
    zil.init();
    zil.add_record(NestZilRecord::new_write(1, 100, 0, 4096));
    zil.add_record(NestZilRecord::new_write(2, 200, 0, 4096));
    zil.add_record(NestZilRecord::new_write(3, 300, 0, 4096));
    let block = NestZilPersist::serialize_zil_to_block(&zil, 3).unwrap();
    let records = StandardZilPersist::deserialize_zil_from_block(&block);
    assert_eq!(records.len(), 3);
}

#[test]
fn test_zil_persist_short_block() {
    let short = vec![0u8; 100];
    let records = StandardZilPersist::deserialize_zil_from_block(&short);
    assert_eq!(records.len(), 0);
}

#[test]
fn test_zil_persist_corrupted_data() {
    let mut block = vec![0u8; 8192];
    block[0..4].copy_from_slice(&0xDEADBEEFu32.to_le_bytes());
    let records = StandardZilPersist::deserialize_zil_from_block(&block);
    assert_eq!(records.len(), 0);
}

#[test]
fn test_zil_persist_mark_written() {
    let mut persist = StandardZilPersist::new();
    persist.mark_written();
    persist.mark_written();
    persist.mark_written();
}

#[test]
fn test_zil_persist_all_record_types() {
    let mut zil = NestZil::new();
    zil.init();
    zil.add_record(NestZilRecord::new_write(1, 100, 0, 4096));
    zil.add_record(NestZilRecord::new_create(1, 10, "f"));
    zil.add_record(NestZilRecord::new_remove(1, 10, "f"));
    zil.add_record(NestZilRecord::new_mkdir(1, 10, "d"));
    zil.add_record(NestZilRecord::new_setattr(1, 100));
    zil.add_record(NestZilRecord::new_link(1, 10, "l", 100));
    zil.add_record(NestZilRecord::new_rename(1, 10, "a", "b"));
    zil.add_record(NestZilRecord::new_symlink(1, 10, "s", "/t"));
    zil.add_record(NestZilRecord::new_dedup_ref(1, [0u64; 4], 100));
    zil.add_record(NestZilRecord::new_dedup_unref(1, [0u64; 4]));
    let block = NestZilPersist::serialize_zil_to_block(&zil, 1).unwrap();
    let records = StandardZilPersist::deserialize_zil_from_block(&block);
    assert_eq!(records.len(), 10);
}

fn mark_and_read<P: ZilPersist>(persist: &mut P) -> usize {
    persist.mark_written();
    P::deserialize_zil_from_block(&[]).len()
}

#[test]
fn test_zil_persist_trait_object() {
    let mut persist = StandardZilPersist::new();
    let n = mark_and_read(&mut persist);
    assert_eq!(n, 0);
}

#[test]
fn test_zil_persist_integration() {
    let mut zil = NestZil::new();
    zil.init();
    for i in 0..10 {
        zil.add_record(NestZilRecord::new_write(1, 100 + i, i * 4096, 4096));
    }
    let block = NestZilPersist::serialize_zil_to_block(&zil, 1).unwrap();
    assert_eq!(block.len(), 8192);
    let records = StandardZilPersist::deserialize_zil_from_block(&block);
    assert_eq!(records.len(), 10);
    for (i, r) in records.iter().enumerate() {
        assert_eq!(r.seq, (i + 1) as u64);
    }
}

#[test]
fn test_zil_persist_preserves_txg() {
    let mut zil = NestZil::new();
    zil.init();
    zil.add_record(NestZilRecord::new_write(42, 100, 0, 4096));
    let block = NestZilPersist::serialize_zil_to_block(&zil, 42).unwrap();
    let records = StandardZilPersist::deserialize_zil_from_block(&block);
    assert_eq!(records.len(), 1);
    assert_eq!(records[0].txg, 42);
}

#[test]
fn zil_persist_full_roundtrip_keeps_fields() {
    let mut zil = NestZil::new();
    zil.init();
    zil.add_record(NestZilRecord::new_rename(7, 3, "old", "new"));
    zil.add_record(NestZilRecord::new_write(7, 9, 512, 100));
    let block = NestZilPersist::serialize_zil_to_block(&zil, 7).unwrap();
    let records = NestZilPersist::deserialize_zil_from_block(&block);
    assert_eq!(records.len(), 2);
    assert_eq!(records[0].parent_obj, 3);
    assert_eq!(records[1].obj_id, 9);
    assert_eq!(records[1].offset, 512);
    assert_eq!(records[1].size, 100);
}

#[test]
fn zil_persist_flipped_payload_byte_rejects_block() {
    let mut zil = NestZil::new();
    zil.init();
    zil.add_record(NestZilRecord::new_write(1, 1, 0, 1));
    let mut block = NestZilPersist::serialize_zil_to_block(&zil, 1).unwrap();
    block[100] ^= 1;
    assert_eq!(NestZilPersist::deserialize_zil_from_block(&block).len(), 0);
}

#[test]
fn zil_block_with_one_changed_byte_is_refused() {
    let mut zil = NestZil::new();
    zil.init();
    zil.add_record(NestZilRecord::new_write(1, 100, 0, 4096));
    zil.add_record(NestZilRecord::new_create(1, 10, "file1"));
    let block = lib::hvfs::zil_persist::HvZilPersist::serialize_zil_to_block(&zil, 7).unwrap();
    assert_eq!(lib::hvfs::zil_persist::HvZilPersist::deserialize_zil_from_block(&block).len(), 2);
    for &i in &[0usize, 5, 33, 64, 300, 4000, 8183, 8184, 8187, 8188, 8191] {
        for &m in &[1u8, 0x80, 0xff] {
            let mut b = block.clone();
            b[i] ^= m;
            assert!(lib::hvfs::zil_persist::HvZilPersist::deserialize_zil_from_block(&b).is_empty());
        }
    }
}

#[test]
fn crc32_changes_with_any_single_byte() {
    let data = b"The quick brown fox".to_vec();
    let c = crc32_checksum(&data);
    for i in 0..data.len() {
        let mut d = data.clone();
        d[i] ^= 0x10;
        assert_ne!(crc32_checksum(&d), c);
    }
}

#[test]
fn zil_block_announcing_too_many_records_is_refused() {
    let mut zil = NestZil::new();
    zil.init();
    zil.add_record(NestZilRecord::new_write(1, 100, 0, 4096));
    let mut block = lib::hvfs::zil_persist::HvZilPersist::serialize_zil_to_block(&zil, 3).unwrap();
    block[24..26].copy_from_slice(&40u16.to_le_bytes());
    let mut hdr = block[..64].to_vec();
    hdr[32..36].copy_from_slice(&[0, 0, 0, 0]);
    let hc = crc32_checksum(&hdr);
    block[32..36].copy_from_slice(&hc.to_le_bytes());
    let bc = crc32_checksum(&block[..8184]);
    block[8188..8192].copy_from_slice(&bc.to_le_bytes());
    assert!(lib::hvfs::zil_persist::HvZilPersist::deserialize_zil_from_block(&block).is_empty());
}
