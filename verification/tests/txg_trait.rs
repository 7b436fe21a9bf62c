use lib::nestfs::bp::NestBlockPointer;
use lib::nestfs::txg::{NestIo, NestIoType, NestTxgState};
use lib::nestfs::txg_trait::{StandardTxg, TxgManager};

#[test]
fn test_txg_init() {
    let mut txg = StandardTxg::new();
    txg.init(1);
    assert_eq!(txg.current_txg(), 1);
}

#[test]
fn test_txg_initial_states() {
    let mut txg = StandardTxg::new();
    txg.init(100);
    assert_eq!(txg.open_txg_id(), 100);
    assert_eq!(txg.syncing_txg_id(), 102);
    assert_eq!(txg.open_txg_state(), NestTxgState::Open);
    assert_eq!(txg.is_sync_in_progress(), false);
    assert_eq!(txg.total_syncs(), 0);
}

#[test]
fn test_txg_transition() {
    let mut txg = StandardTxg::new();
    txg.init(1);
    let old = txg.current_txg();
    let new = txg.transition();
    assert!(new > old, "transition 应增加 txg_id");
    assert_eq!(txg.total_syncs(), 1);
    assert!(txg.is_sync_in_progress() || !txg.is_sync_in_progress());
    let new2 = txg.transition();
    assert!(new2 > new);
    assert_eq!(txg.total_syncs(), 2);
}

#[test]
fn test_txg_add_dirty() {
    let mut txg = StandardTxg::new();
    txg.init(1);
    for i in 0..3 {
        txg.add_dirty_to_open(NestBlockPointer::null());
        let _ = i;
    }
    assert_eq!(txg.total_dirty(), 3);
}

#[test]
fn test_txg_add_free() {
    let mut txg = StandardTxg::new();
    txg.init(1);
    txg.add_free_to_open(NestBlockPointer::null());
    assert_eq!(txg.total_dirty(), 0);
}

#[test]
fn test_txg_add_io() {
    let mut txg = StandardTxg::new();
    txg.init(1);
    let io = NestIo {
        bp: NestBlockPointer::null(),
        offset: 0,
        size: 4096,
        io_type: NestIoType::Write,
        priority: 0,
        ready: false,
    };
    txg.add_io_to_open(io);
}

#[test]
fn test_txg_trait_object() {
    let mut txg: Box<dyn TxgManager> = Box::new(StandardTxg::new());
    txg.init(10);
    assert_eq!(txg.current_txg(), 10);
    txg.add_dirty_to_open(NestBlockPointer::null());
    assert_eq!(txg.total_dirty(), 1);
}

#[test]
fn test_txg_full_cycle() {
    let mut txg = StandardTxg::new();
    txg.init(1);
    let initial = txg.current_txg();
    for _ in 0..5 {
        txg.add_dirty_to_open(NestBlockPointer::null());
    }
    assert_eq!(txg.total_dirty(), 5);
    let _ = txg.transition();
    let new_dirty = txg.total_dirty();
    txg.add_dirty_to_open(NestBlockPointer::null());
    assert_eq!(new_dirty + 1, txg.total_dirty());
    for _ in 0..3 {
        txg.transition();
    }
    assert!(txg.total_syncs() >= 4);
    assert!(txg.current_txg() > initial);
}
