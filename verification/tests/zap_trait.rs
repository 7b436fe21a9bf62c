use lib::nestfs::zap::NestZapType;
use lib::nestfs::zap_trait::{StandardZap, ZapStore};

#[test]
fn test_zap_insert_lookup() {
    let mut zap = StandardZap::new();
    assert!(zap.insert("key1", b"value1"));
    assert_eq!(zap.lookup("key1"), Some(b"value1".to_vec()));
    assert_eq!(zap.lookup("nokey"), None);
}

#[test]
fn test_zap_u64() {
    let mut zap = StandardZap::new();
    assert!(zap.insert_u64("count", 42));
    assert_eq!(zap.lookup_u64("count"), Some(42));
    assert_eq!(zap.lookup("count"), Some(42u64.to_le_bytes().to_vec()));
}

#[test]
fn test_zap_update() {
    let mut zap = StandardZap::new();
    assert!(zap.insert("k", b"v1"));
    assert!(zap.insert("k", b"v2-longer"));
    assert_eq!(zap.lookup("k"), Some(b"v2-longer".to_vec()));
}

#[test]
fn test_zap_remove() {
    let mut zap = StandardZap::new();
    assert!(zap.insert("a", b"1"));
    assert!(zap.contains("a"));
    assert!(zap.remove("a"));
    assert!(!zap.contains("a"));
    assert!(!zap.remove("a"));
    assert!(!zap.remove("nokey"));
}

#[test]
fn test_zap_len_capacity() {
    let mut zap = StandardZap::new();
    assert_eq!(zap.len(), 0);
    assert_eq!(zap.capacity(), 256);
    zap.insert("a", b"1");
    zap.insert("b", b"2");
    assert_eq!(zap.len(), 2);
}

#[test]
fn test_zap_custom_capacity() {
    let zap = StandardZap::with_capacity(100);
    assert_eq!(zap.capacity(), 100);
}

#[test]
fn test_zap_capacity_limit() {
    let mut zap = StandardZap::with_capacity(2);
    assert!(zap.insert("a", b"1"));
    assert!(zap.insert("b", b"2"));
    assert!(!zap.insert("c", b"3"));
    assert_eq!(zap.len(), 2);
}

#[test]
fn test_zap_type_mapping() {
    let micro = StandardZap::with_capacity(32);
    assert_eq!(micro.zap_type(), NestZapType::Micro);
    let normal = StandardZap::with_capacity(128);
    assert_eq!(normal.zap_type(), NestZapType::Normal);
}

#[test]
fn test_zap_trait_object() {
    let mut zap: Box<dyn ZapStore> = Box::new(StandardZap::new());
    assert!(zap.insert("dyn", b"works"));
    assert_eq!(zap.lookup("dyn"), Some(b"works".to_vec()));
}

#[test]
fn test_zap_spa_simulation() {
    let mut zap = StandardZap::new();
    zap.insert_u64("pool_guid", 0x12345678);
    zap.insert_u64("txg", 42);
    zap.insert("pool_name", b"tank");
    zap.insert_u64("ashift", 9);
    assert_eq!(zap.lookup_u64("pool_guid"), Some(0x12345678));
    assert_eq!(zap.lookup_u64("txg"), Some(42));
    assert_eq!(zap.lookup("pool_name"), Some(b"tank".to_vec()));
    assert_eq!(zap.lookup_u64("ashift"), Some(9));
    assert_eq!(zap.len(), 4);
}

#[test]
fn zap_remove_then_insert_reuses_room() {
    let mut zap = StandardZap::with_capacity(1);
    assert!(zap.insert("a", b"1"));
    assert!(!zap.insert("b", b"2"));
    assert!(zap.remove("a"));
    assert!(zap.insert("b", b"2"));
    assert_eq!(zap.lookup("b"), Some(b"2".to_vec()));
    assert_eq!(zap.lookup("a"), None);
}

#[test]
fn zap_short_value_is_not_u64() {
    let mut zap = StandardZap::new();
    assert!(zap.insert("short", b"abc"));
    assert_eq!(zap.lookup_u64("short"), Some(0));
    assert!(zap.is_empty() == false);
}
