use lib::nestfs::metaslab::{NestMetaslab, NestMsState, HV_MS_BLOCK_SIZE};

#[test]
fn metaslab_first_fit_and_free() {
    let mut m = NestMetaslab::new(1, 0, 1 << 20, 16 * HV_MS_BLOCK_SIZE);
    assert_eq!(m.max_block, 16);
    assert_eq!(m.allocate(1), Some(1 << 20));
    assert_eq!(m.allocate(HV_MS_BLOCK_SIZE + 1), Some((1 << 20) + HV_MS_BLOCK_SIZE));
    assert_eq!(m.allocated, 3 * HV_MS_BLOCK_SIZE);
    assert_eq!(m.free_space, 13 * HV_MS_BLOCK_SIZE);
    m.free(1 << 20, 1);
    assert_eq!(m.allocate(HV_MS_BLOCK_SIZE), Some(1 << 20));
    assert_eq!(m.allocate(HV_MS_BLOCK_SIZE * 14), None);
    assert_eq!(m.allocate(HV_MS_BLOCK_SIZE * 13), Some((1 << 20) + 3 * HV_MS_BLOCK_SIZE));
    assert_eq!(m.allocate(1), None);
    assert_eq!(m.free_space, 0);
    m.sync();
    assert_eq!(m.state, NestMsState::Full);
    assert!(!m.is_available());
}

#[test]
fn metaslab_rejects_bad_sizes() {
    let mut m = NestMetaslab::new(1, 0, 0, 4 * HV_MS_BLOCK_SIZE);
    assert_eq!(m.allocate(0), None);
    assert_eq!(m.allocate(5 * HV_MS_BLOCK_SIZE), None);
    assert_eq!(m.fragmentation(), 100);
    assert_eq!(m.allocate(2 * HV_MS_BLOCK_SIZE), Some(0));
    assert_eq!(m.fragmentation(), 50);
    assert_eq!(m.weight, 4 * HV_MS_BLOCK_SIZE);
    assert!(m.is_available());
}

#[test]
fn metaslab_gap_is_skipped_when_too_small() {
    let mut m = NestMetaslab::new(1, 0, 0, 8 * HV_MS_BLOCK_SIZE);
    for _ in 0..8 {
        m.allocate(HV_MS_BLOCK_SIZE).unwrap();
    }
    m.free(HV_MS_BLOCK_SIZE, HV_MS_BLOCK_SIZE);
    m.free(4 * HV_MS_BLOCK_SIZE, 2 * HV_MS_BLOCK_SIZE);
    assert_eq!(m.allocate(2 * HV_MS_BLOCK_SIZE), Some(4 * HV_MS_BLOCK_SIZE));
    assert_eq!(m.allocate(HV_MS_BLOCK_SIZE), Some(HV_MS_BLOCK_SIZE));
}

#[test]
fn metaslab_free_undoes_allocate() {
    let mut m = NestMetaslab::new(2, 0, 4096, 8 * HV_MS_BLOCK_SIZE);
    assert_eq!(m.allocate(HV_MS_BLOCK_SIZE), Some(4096));
    let before = m.free_space;
    let off = m.allocate(3 * HV_MS_BLOCK_SIZE).unwrap();
    assert_eq!(off, 4096 + HV_MS_BLOCK_SIZE);
    m.free(off, 3 * HV_MS_BLOCK_SIZE);
    assert_eq!(m.free_space, before);
    assert_eq!(m.allocate(3 * HV_MS_BLOCK_SIZE), Some(off));
}
