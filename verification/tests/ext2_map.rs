use lib::ext2_map::{block_path, indirect_entry, map_first, map_next, MapStep};

#[test]
fn ext2_paths_by_level() {
    let p = block_path(5, 1024);
    assert_eq!((p.slot, p.indices.clone()), (5, vec![]));
    let p = block_path(12, 1024);
    assert_eq!((p.slot, p.indices.clone()), (12, vec![0]));
    let p = block_path(12 + 255, 1024);
    assert_eq!((p.slot, p.indices.clone()), (12, vec![255]));
    let p = block_path(12 + 256 + 300, 1024);
    assert_eq!((p.slot, p.indices.clone()), (13, vec![1, 44]));
    let p = block_path(12 + 256 + 65536 + 65536 + 257, 1024);
    assert_eq!((p.slot, p.indices.clone()), (14, vec![1, 1, 1]));
}

#[test]
fn ext2_pointer_entries() {
    let data = [1u8, 0, 0, 0, 2, 0, 0, 0, 9];
    assert_eq!(indirect_entry(&data, 0), 1);
    assert_eq!(indirect_entry(&data, 1), 2);
    assert_eq!(indirect_entry(&data, 2), 0);
    assert_eq!(indirect_entry(&data, u32::MAX), 0);
}

#[test]
fn ext2_map_steps() {
    let mut i_block = [0u32; 15];
    i_block[3] = 77;
    i_block[13] = 500;
    let direct = block_path(3, 1024);
    assert_eq!(map_first(&i_block, &direct), MapStep::Done(77));
    let single = block_path(20, 1024);
    assert_eq!(map_first(&i_block, &single), MapStep::Done(0));
    let double = block_path(12 + 256 + 257, 1024);
    assert_eq!(map_first(&i_block, &double), MapStep::Read(500));
    let mut l1 = vec![0u8; 1024];
    l1[4..8].copy_from_slice(&600u32.to_le_bytes());
    assert_eq!(map_next(&double, 0, &l1), MapStep::Read(600));
    let mut l2 = vec![0u8; 1024];
    l2[4..8].copy_from_slice(&4242u32.to_le_bytes());
    assert_eq!(map_next(&double, 1, &l2), MapStep::Done(4242));
    assert_eq!(map_next(&double, 0, &vec![0u8; 1024]), MapStep::Done(0));
}
