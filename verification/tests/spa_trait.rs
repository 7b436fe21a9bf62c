use lib::nestfs::spa_trait::{SpaManager, StandardSpa};
use lib::nestfs::vdev::NestVdevConfig;

#[test]
fn test_spa_uninitialized() {
    let spa = StandardSpa::new();
    assert!(!spa.is_initialized());
    assert_eq!(spa.vdev_count(), 0);
    assert_eq!(spa.current_txg(), 0);
}

#[test]
fn test_spa_init() {
    let mut spa = StandardSpa::new();
    spa.init("tank");
    assert!(spa.is_initialized());
    assert_eq!(spa.current_txg(), 1);
    assert_ne!(spa.guid(), 0);
}

#[test]
fn test_spa_advance_txg() {
    let mut spa = StandardSpa::new();
    spa.init("tank");
    let t1 = spa.advance_txg();
    let t2 = spa.advance_txg();
    let t3 = spa.advance_txg();
    assert!(t2 > t1);
    assert!(t3 > t2);
    assert_eq!(spa.current_txg(), t3);
}

#[test]
fn test_spa_add_vdev() {
    let mut spa = StandardSpa::new();
    spa.init("tank");
    let cfg = NestVdevConfig {
        vdev_id: 0,
        asize: 32 * 1024 * 1024,
        ..Default::default()
    };
    assert!(spa.add_vdev(cfg));
    assert_eq!(spa.vdev_count(), 1);
}

#[test]
fn test_spa_vdev_count() {
    let mut spa = StandardSpa::new();
    spa.init("tank");
    for i in 0..3 {
        let cfg = NestVdevConfig {
            vdev_id: i,
            asize: 1024 * 1024,
            ..Default::default()
        };
        assert!(spa.add_vdev(cfg));
    }
    assert_eq!(spa.vdev_count(), 3);
}

#[test]
fn test_spa_get_stats_initial() {
    let mut spa = StandardSpa::new();
    spa.init("tank");
    let stats = spa.get_stats();
    assert_eq!(stats.0, 0);
    assert_eq!(stats.1, 0);
    assert_eq!(stats.2, 0);
    assert_eq!(stats.3, 0);
}

#[test]
fn test_spa_disk_formatted() {
    let mut spa = StandardSpa::new();
    spa.init("tank");
    let _ = spa.is_disk_present();
    let _ = spa.is_formatted();
}

#[test]
fn test_spa_guid_unique() {
    let mut spa1 = StandardSpa::new();
    let spa2 = StandardSpa::new();
    spa1.init("tank1");
    assert_ne!(spa1.guid(), 0);
    let _ = spa2;
}

#[test]
fn test_spa_trait_object() {
    let mut spa: Box<dyn SpaManager> = Box::new(StandardSpa::new());
    spa.init("tank");
    assert!(spa.is_initialized());
    assert_eq!(spa.vdev_count(), 0);
}

#[test]
fn test_spa_full_cycle() {
    let mut spa = StandardSpa::new();
    assert!(!spa.is_initialized());
    spa.init("tank");
    assert!(spa.is_initialized());
    let cfg = NestVdevConfig {
        vdev_id: 0,
        asize: 16 * 1024 * 1024,
        ..Default::default()
    };
    spa.add_vdev(cfg);
    assert_eq!(spa.vdev_count(), 1);
    let _ = spa.advance_txg();
    let _ = spa.advance_txg();
    assert!(spa.current_txg() > 1);
    let _ = spa.get_stats();
}

#[test]
fn spa_vdev_limit_is_eight() {
    let mut spa = StandardSpa::new();
    spa.init("tank");
    for i in 0..8 {
        assert!(spa.add_vdev(NestVdevConfig { vdev_id: i, ..Default::default() }));
    }
    assert!(!spa.add_vdev(NestVdevConfig { vdev_id: 9, ..Default::default() }));
    assert_eq!(spa.vdev_count(), 8);
}

#[test]
fn spa_uberblock_after_sync() {
    let mut spa = StandardSpa::new();
    spa.init("tank");
    spa.advance_txg();
    spa.sync_uberblock();
    let ub = spa.read_uberblock().unwrap();
    assert_eq!(ub.txg, 2);
}
