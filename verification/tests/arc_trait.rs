use lib::nestfs::arc::{NestArcBufType, NestArcKey};
use lib::nestfs::arc_trait::{ArcCache, StandardArc};
use lib::hvfs::arc::{HvArc, HvArcBufType, HvArcKey};

#[test]
fn test_arc_uninitialized() {
    let arc = StandardArc::new();
    assert!(!arc.is_initialized());
    assert_eq!(arc.current_size(), 0);
    assert_eq!(arc.hit_count(), 0);
    assert_eq!(arc.miss_count(), 0);
}

#[test]
fn test_arc_init() {
    let mut arc = StandardArc::new();
    arc.init(100);
    assert!(arc.is_initialized());
    assert_eq!(arc.max_size(), 100);
}

#[test]
fn test_arc_init_zero_uses_default() {
    let mut arc = StandardArc::new();
    arc.init(0);
    assert!(arc.max_size() > 0);
}

#[test]
fn test_arc_lookup_miss() {
    let mut arc = StandardArc::new();
    arc.init(100);
    let key = NestArcKey::new(0, 0, 0);
    let hit = arc.lookup(&key);
    assert!(!hit);
    assert_eq!(arc.miss_count(), 1);
}

#[test]
fn test_arc_insert_lookup_hit() {
    let mut arc = StandardArc::new();
    arc.init(100);
    let key = NestArcKey::new(0, 0, 0);
    let data = vec![0xAA; 64];
    assert!(arc.insert(key, &data, NestArcBufType::Data));
    assert!(arc.lookup(&key));
}

#[test]
fn test_arc_buf_types() {
    let mut arc = StandardArc::new();
    arc.init(100);
    let k1 = NestArcKey::new(0, 0, 1);
    arc.insert(k1, &[1u8; 32], NestArcBufType::Data);
    let k2 = NestArcKey::new(0, 0, 2);
    arc.insert(k2, &[2u8; 32], NestArcBufType::Meta);
    assert!(arc.lookup(&k1));
    assert!(arc.lookup(&k2));
}

#[test]
fn test_arc_release() {
    let mut arc = StandardArc::new();
    arc.init(100);
    let k = NestArcKey::new(0, 0, 0);
    arc.insert(k, &[0u8; 32], NestArcBufType::Data);
    arc.release(&k);
}

#[test]
fn test_arc_mru_mfu() {
    let mut arc = StandardArc::new();
    arc.init(100);
    assert_eq!(arc.mru_size(), 0);
    assert_eq!(arc.mfu_size(), 0);
    let k = NestArcKey::new(0, 0, 0);
    arc.insert(k, &[0u8; 32], NestArcBufType::Data);
    let mru = arc.mru_size();
    let mfu = arc.mfu_size();
    assert!(mru + mfu <= arc.max_size());
}

#[test]
fn test_arc_capacity_eviction() {
    let mut arc = StandardArc::new();
    arc.init(3);
    for i in 0..5 {
        let k = NestArcKey::new(0, i, 0);
        arc.insert(k, &[0u8; 32], NestArcBufType::Data);
    }
    assert!(arc.evict_count() > 0, "容量 3 插 5 应有淘汰");
}

#[test]
fn test_arc_spa_simulation() {
    let mut arc = StandardArc::new();
    arc.init(10);
    let datasets: Vec<NestArcKey> = (0..5).map(|i| NestArcKey::new(0, i * 4096, 0)).collect();
    for (i, k) in datasets.iter().enumerate() {
        arc.insert(*k, &vec![i as u8; 64], NestArcBufType::Meta);
    }
    for (i, k) in datasets.iter().enumerate() {
        if arc.lookup(k) {
            let _ = i;
        }
    }
    assert!(arc.mru_size() + arc.mfu_size() <= arc.max_size());
}

#[test]
fn arc_trait_object_dispatch() {
    let mut arc: Box<dyn ArcCache> = Box::new(StandardArc::new());
    arc.init(50);
    assert!(arc.is_initialized());
    let k = NestArcKey::new(0, 0, 0);
    assert!(!arc.lookup(&k));
    assert!(arc.insert(k, &[0u8; 16], NestArcBufType::Data));
}

#[test]
fn arc_hit_promotes_to_mfu() {
    let mut arc = StandardArc::new();
    arc.init(4);
    let k = NestArcKey::new(1, 8, 2);
    assert!(arc.insert(k, &[7u8; 8], NestArcBufType::Data));
    assert_eq!(arc.mru_size(), 1);
    assert_eq!(arc.mfu_size(), 0);
    assert!(arc.lookup(&k));
    assert_eq!(arc.mru_size(), 0);
    assert_eq!(arc.mfu_size(), 1);
    assert_eq!(arc.hit_count(), 1);
}

#[test]
fn arc_evicted_key_is_a_miss_and_moves_target() {
    let mut cache = HvArc::new();
    cache.init(2);
    assert_eq!(cache.p, 1);
    let a = HvArcKey::new(0, 0, 0);
    let b = HvArcKey::new(0, 1, 0);
    let c = HvArcKey::new(0, 2, 0);
    cache.insert(a, &[1u8; 4], HvArcBufType::Data);
    cache.insert(b, &[2u8; 4], HvArcBufType::Data);
    cache.insert(c, &[3u8; 4], HvArcBufType::Data);
    assert_eq!(cache.evict_count(), 1);
    assert_eq!(cache.ghost_mru.len(), 1);
    assert!(cache.lookup(&a).is_none());
    assert_eq!(cache.ghost_mru.len(), 0);
    assert_eq!(cache.p, 1);
    assert!(cache.lookup(&b).is_some());
    assert!(cache.lookup(&c).is_some());
}

#[test]
fn arc_insert_copies_data_and_replaces() {
    let mut cache = HvArc::new();
    cache.init(8);
    let k = HvArcKey::new(3, 4096, 9);
    let i = cache.insert(k, &[1, 2, 3], HvArcBufType::Metadata).unwrap();
    let buf = cache.buffers[i].as_ref().unwrap();
    assert_eq!(buf.data, vec![1, 2, 3]);
    assert_eq!(buf.ref_count, 2);
    assert_eq!(cache.current_size(), 3);
    cache.insert(k, &[9, 9], HvArcBufType::Metadata);
    let j = cache.lookup(&k).unwrap();
    assert_eq!(cache.buffers[j].as_ref().unwrap().data, vec![9, 9]);
    assert_eq!(cache.current_size(), 2);
    assert_eq!(cache.lookup_slice(&k, 1), Some(&[9u8][..]));
    assert_eq!(cache.lookup_slice(&k, 3), None);
}

#[test]
fn arc_release_and_dirty() {
    let mut cache = HvArc::new();
    cache.init(8);
    let k = HvArcKey::new(0, 0, 1);
    let i = cache.insert(k, &[0u8; 4], HvArcBufType::Data).unwrap();
    cache.release(&k);
    cache.release(&k);
    cache.release(&k);
    assert_eq!(cache.buffers[i].as_ref().unwrap().ref_count, 0);
    assert_eq!(cache.flush_dirty(), 0);
    cache.mark_dirty(&k);
    assert_eq!(cache.flush_dirty(), 1);
}

#[test]
fn arc_key_hash_is_fnv() {
    let k = HvArcKey::new(0, 0, 0);
    let mut h: u64 = 14695981039346656037;
    for _ in 0..3 {
        h = h.wrapping_mul(1099511628211);
    }
    assert_eq!(k.hash(), h);
}

#[test]
fn arc_evicts_from_mfu_when_mru_within_target() {
    let mut cache = HvArc::new();
    cache.init(2);
    let a = HvArcKey::new(0, 0, 0);
    let b = HvArcKey::new(0, 1, 0);
    let c = HvArcKey::new(0, 2, 0);
    cache.insert(a, &[1u8; 4], HvArcBufType::Data);
    assert!(cache.lookup(&a).is_some());
    assert_eq!(cache.mfu.len(), 1);
    cache.insert(b, &[2u8; 4], HvArcBufType::Data);
    cache.insert(c, &[3u8; 4], HvArcBufType::Data);
    assert_eq!(cache.evict_count(), 1);
    assert!(cache.lookup(&a).is_none());
    assert!(cache.lookup(&b).is_some());
    assert!(cache.lookup(&c).is_some());
}

#[test]
fn arc_insert_counters_track_bytes_and_evictions() {
    let mut arc = StandardArc::new();
    arc.init(3);
    for i in 0..5 {
        let k = NestArcKey::new(0, i, 0);
        assert!(arc.insert(k, &[0u8; 32], NestArcBufType::Data));
    }
    assert_eq!(arc.evict_count(), 2);
    assert_eq!(arc.current_size(), 96);
    assert_eq!(arc.mru_size() + arc.mfu_size(), 3);
    // Re-inserting a cached key replaces its bytes and evicts nothing.
    assert!(arc.insert(NestArcKey::new(0, 4, 0), &[1u8; 8], NestArcBufType::Meta));
    assert_eq!(arc.evict_count(), 2);
    assert_eq!(arc.current_size(), 72);
    assert!(arc.lookup(&NestArcKey::new(0, 3, 0)));
    assert_eq!(arc.current_size(), 72);
    assert_eq!(arc.evict_count(), 2);
}

#[test]
fn hv_arc_second_insert_keeps_first_bytes() {
    let mut a = HvArc::new();
    a.init(10);
    let k1 = HvArcKey::new(0, 1, 0);
    let k2 = HvArcKey::new(0, 2, 0);
    assert!(a.insert(k1, &[7u8; 4], HvArcBufType::Data).is_some());
    assert!(a.insert(k2, &[9u8; 4], HvArcBufType::Data).is_some());
    assert_eq!(a.lookup_slice(&k1, 4), Some(&[7u8; 4][..]));
    assert_eq!(a.lookup_slice(&k2, 4), Some(&[9u8; 4][..]));
    assert_eq!(a.lookup_slice(&k1, 4), Some(&[7u8; 4][..]));
}
