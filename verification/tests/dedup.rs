use lib::nestfs::bp::NestBlockPointer;
use lib::nestfs::dedup::{
    cas_aware_free, cas_insert, cas_is_known, cas_lookup, cas_ref_count, cas_ref_dec, cas_ref_inc, cas_stats,
    CasIndex,
};

fn bp(birth: u64) -> NestBlockPointer {
    let mut b = NestBlockPointer::null();
    b.birth_txg = birth;
    b
}

#[test]
fn cas_insert_lookup_refcount() {
    let mut cas = CasIndex::new();
    let h = [7u8; 32];
    assert!(cas_lookup(&mut cas, &h).is_none());
    cas_insert(&mut cas, h, bp(5));
    cas_insert(&mut cas, h, bp(6));
    assert_eq!(cas_lookup(&mut cas, &h).unwrap().birth_txg, 5);
    assert_eq!(cas_ref_count(&cas, &h), 2);
    assert_eq!(cas_ref_inc(&mut cas, &h), 3);
    assert_eq!(cas_ref_dec(&mut cas, &h), 2);
    assert!(cas_is_known(&cas, &h));
    assert_eq!(cas_stats(&cas), (2, 1, 2));
}

#[test]
fn cas_free_forgets_at_zero() {
    let mut cas = CasIndex::new();
    let h = [1u8; 32];
    cas_insert(&mut cas, h, bp(1));
    assert!(cas_aware_free(&mut cas, &h));
    assert!(!cas_is_known(&cas, &h));
    assert!(cas_lookup(&mut cas, &h).is_none());
    assert_eq!(cas_ref_dec(&mut cas, &h), 0);
    assert!(cas_aware_free(&mut cas, &h));
}

#[test]
fn cas_ref_inc_unknown_starts_at_one() {
    let mut cas = CasIndex::new();
    let h = [9u8; 32];
    assert_eq!(cas_ref_inc(&mut cas, &h), 1);
    assert!(cas.is_known(&h));
    assert!(cas.lookup(&h).is_none());
    cas.invalidate(&h);
    assert!(!cas.is_known(&h));
    assert_eq!(cas.ref_count(&h), 0);
}

#[test]
fn cas_distinct_hashes_are_independent() {
    let mut cas = CasIndex::new();
    let a = [1u8; 32];
    let mut b = [1u8; 32];
    b[31] = 2;
    cas.insert(a, bp(10));
    cas.insert(b, bp(20));
    assert_eq!(cas.ref_dec(&a), 0);
    assert_eq!(cas.lookup(&b).unwrap().birth_txg, 20);
    assert_eq!(cas.ref_count(&b), 1);
}
