use lib::ext2_dir::{dir_entry_bytes, dir_insert, dir_scan_block, DirInsert};
use lib::ext2_map::{alloc_path, alloc_step, set_indirect_entry, AllocStep};

#[test]
fn ext2_dir_entry_layout() {
    let e = dir_entry_bytes(5, "ab", 1);
    assert_eq!(e, vec![5, 0, 0, 0, 12, 0, 2, 1, b'a', b'b', 0, 0]);
    let e = dir_entry_bytes(7, "abcd", 2);
    assert_eq!(e.len(), 12);
    assert_eq!(&e[8..12], b"abcd");
    let long = "x".repeat(300);
    let e = dir_entry_bytes(9, &long, 1);
    assert_eq!(e.len(), 264);
    assert_eq!(e[6], 255);
    assert_eq!(u16::from_le_bytes([e[4], e[5]]), 264);
}

fn entry(ino: u32, rec_len: u16) -> Vec<u8> {
    let mut v = ino.to_le_bytes().to_vec();
    v.extend_from_slice(&rec_len.to_le_bytes());
    v.extend_from_slice(&[0, 0]);
    v
}

#[test]
fn ext2_dir_scan_stops_at_free_entry_or_end() {
    let mut b = vec![0u8; 64];
    b[..8].copy_from_slice(&entry(2, 12));
    b[12..20].copy_from_slice(&entry(3, 52));
    assert_eq!(dir_scan_block(&b, 64), Some(64));
    b[12..20].copy_from_slice(&entry(0, 52));
    assert_eq!(dir_scan_block(&b, 64), Some(12));
    assert_eq!(dir_scan_block(&[0u8; 64], 64), Some(0));
    assert_eq!(dir_scan_block(&[1u8; 4], 64), Some(0));
    let mut z = vec![0u8; 64];
    z[..8].copy_from_slice(&entry(7, 0));
    assert_eq!(dir_scan_block(&z, 64), None);
}

#[test]
fn ext2_dir_insert_in_block_or_fresh() {
    let block = vec![9u8; 16];
    let e = vec![1u8; 8];
    match dir_insert(&block, 4, &e, 16) {
        DirInsert::InBlock(d) => {
            assert_eq!(&d[..4], &[9, 9, 9, 9]);
            assert_eq!(&d[4..12], &e[..]);
            assert_eq!(&d[12..], &[9, 9, 9, 9]);
        }
        DirInsert::FreshBlock(_) => panic!("expected in block"),
    }
    match dir_insert(&block, 12, &e, 16) {
        DirInsert::FreshBlock(d) => {
            assert_eq!(d.len(), 16);
            assert_eq!(&d[..8], &e[..]);
            assert_eq!(&d[8..], &[0u8; 8]);
        }
        DirInsert::InBlock(_) => panic!("expected fresh block"),
    }
}

#[test]
fn ext2_alloc_path_and_entries() {
    let p = alloc_path(12, 1024).unwrap();
    assert_eq!(p.slot, 12);
    assert_eq!(p.indices, vec![0]);
    let p = alloc_path(12 + 256 + 300, 1024).unwrap();
    assert_eq!(p.slot, 13);
    assert_eq!(p.indices, vec![1, 44]);
    assert!(alloc_path(12 + 256 + 65536, 1024).is_none());
    let data = vec![0u8; 8];
    assert_eq!(alloc_step(&data, 1), AllocStep::Allocate);
    assert_eq!(alloc_step(&data, 2), AllocStep::OutOfRange);
    let d = set_indirect_entry(&data, 1, 0x0102_0304);
    assert_eq!(d, vec![0, 0, 0, 0, 4, 3, 2, 1]);
    assert_eq!(alloc_step(&d, 1), AllocStep::Use(0x0102_0304));
    assert_eq!(alloc_step(&d, 0), AllocStep::Allocate);
}

use lib::errno::Errno;
use lib::ext2_dir::{dir_begin, dir_commit, dir_next, require_directory, DirAction, DirEvent};
use lib::ext2_map::{fill_begin, fill_next, map_first, map_next, block_path, FillAction, FillEvent, MapStep};

fn entry_at(v: &[u8], off: usize) -> u32 {
    u32::from_le_bytes([v[off], v[off + 1], v[off + 2], v[off + 3]])
}

#[test]
fn ext2_fill_single_indirect_allocates_root_and_block() {
    let mut i_block = [0u32; 15];
    let (w, a) = fill_begin(&i_block, 12, 16);
    assert!(matches!(a, FillAction::Allocate));
    let (w, a) = fill_next(w, FillEvent::Allocated(100));
    assert!(matches!(a, FillAction::ZeroRoot { slot: 12, block: 100 }));
    i_block[12] = 100;
    let (w, a) = fill_next(w, FillEvent::Saved);
    assert!(matches!(a, FillAction::Read(100)));
    let (w, a) = fill_next(w, FillEvent::Read(vec![0u8; 16]));
    assert!(matches!(a, FillAction::Allocate));
    let (w, a) = fill_next(w, FillEvent::Allocated(101));
    let saved = match a {
        FillAction::Save(100, d) => d,
        other => panic!("unexpected {other:?}"),
    };
    assert_eq!(entry_at(&saved, 0), 101);
    let (_, a) = fill_next(w, FillEvent::Saved);
    assert!(matches!(a, FillAction::Done(101)));
    // Mapping the block again over the saved pointer block gives it back.
    let path = block_path(12, 16);
    assert_eq!(map_first(&i_block, &path), MapStep::Read(100));
    assert_eq!(map_next(&path, 0, &saved), MapStep::Done(101));
}

#[test]
fn ext2_fill_double_indirect_and_existing_entries() {
    let mut i_block = [0u32; 15];
    i_block[13] = 200;
    // bpi 4: logical 21 is double-indirect entry (1, 1).
    let (w, a) = fill_begin(&i_block, 21, 16);
    assert!(matches!(a, FillAction::Read(200)));
    let (w, a) = fill_next(w, FillEvent::Read(vec![0u8; 16]));
    assert!(matches!(a, FillAction::Allocate));
    let (w, a) = fill_next(w, FillEvent::Allocated(201));
    assert!(matches!(a, FillAction::Zero(201)));
    let (w, a) = fill_next(w, FillEvent::Saved);
    let l1 = match a {
        FillAction::Save(200, d) => d,
        other => panic!("unexpected {other:?}"),
    };
    assert_eq!(entry_at(&l1, 4), 201);
    let (w, a) = fill_next(w, FillEvent::Saved);
    assert!(matches!(a, FillAction::Read(201)));
    let (w, a) = fill_next(w, FillEvent::Read(vec![0u8; 16]));
    assert!(matches!(a, FillAction::Allocate));
    let (w, a) = fill_next(w, FillEvent::Allocated(202));
    let l2 = match a {
        FillAction::Save(201, d) => d,
        other => panic!("unexpected {other:?}"),
    };
    assert_eq!(entry_at(&l2, 4), 202);
    let (_, a) = fill_next(w, FillEvent::Saved);
    assert!(matches!(a, FillAction::Done(202)));
    let path = block_path(21, 16);
    assert_eq!(map_first(&i_block, &path), MapStep::Read(200));
    assert_eq!(map_next(&path, 0, &l1), MapStep::Read(201));
    assert_eq!(map_next(&path, 1, &l2), MapStep::Done(202));
    // An existing entry is followed without allocating.
    let (w, a) = fill_begin(&i_block, 21, 16);
    assert!(matches!(a, FillAction::Read(200)));
    let (w, a) = fill_next(w, FillEvent::Read(l1.clone()));
    assert!(matches!(a, FillAction::Read(201)));
    let (_, a) = fill_next(w, FillEvent::Read(l2.clone()));
    assert!(matches!(a, FillAction::Done(202)));
}

#[test]
fn ext2_fill_refusals() {
    let mut i_block = [0u32; 15];
    i_block[12] = 7;
    let (w, a) = fill_begin(&i_block, 13, 16);
    assert!(matches!(a, FillAction::Read(7)));
    let (_, a) = fill_next(w, FillEvent::Read(vec![0u8; 4]));
    assert!(matches!(a, FillAction::InvalidArgument));
    let (_, a) = fill_begin(&i_block, 12 + 4 + 16, 16);
    assert!(matches!(a, FillAction::NotSupported));
    let (_, a) = fill_begin(&i_block, 12, 2);
    assert!(matches!(a, FillAction::NotSupported));
    i_block[13] = 9;
    let (w, _) = fill_begin(&i_block, 21, 16);
    let (_, a) = fill_next(w, FillEvent::Read(vec![0u8; 4]));
    assert!(matches!(a, FillAction::OutOfRange));
}

fn dir_block(entries: &[(u32, u16)], size: usize) -> Vec<u8> {
    let mut b = vec![0u8; size];
    let mut off = 0;
    for &(ino, rl) in entries {
        b[off..off + 8].copy_from_slice(&entry(ino, rl));
        off += rl as usize;
    }
    b
}

#[test]
fn ext2_dir_walk_places_entry_at_free_spot() {
    let mut slots = [0u32; 15];
    slots[0] = 10;
    let e = dir_entry_bytes(5, "ab", 1);
    let (w, a) = dir_begin(slots, e.clone(), 64);
    assert!(matches!(a, DirAction::Read(10)));
    let block = dir_block(&[(2, 12), (0, 52)], 64);
    let (w, a) = dir_next(w, DirEvent::Read(block.clone()));
    assert!(matches!(a, DirAction::Read(10)));
    let (w, a) = dir_next(w, DirEvent::Read(block.clone()));
    let saved = match a {
        DirAction::Save(10, d) => d,
        other => panic!("unexpected {other:?}"),
    };
    assert_eq!(&saved[12..24], &e[..]);
    assert_eq!(&saved[..12], &block[..12]);
    let (w, a) = dir_next(w, DirEvent::Saved);
    assert!(matches!(a, DirAction::Done));
    assert_eq!(w.slots, slots);
    assert_eq!(dir_commit(100, e.len()), 112);
}

#[test]
fn ext2_dir_walk_full_block_and_empty_directory() {
    // A full block: the entry does not fit at the offset kept, so a fresh
    // block goes into the next slot.
    let mut slots = [0u32; 15];
    slots[0] = 10;
    let e = dir_entry_bytes(5, "ab", 1);
    let (w, _) = dir_begin(slots, e.clone(), 16);
    let block = dir_block(&[(2, 16)], 16);
    let (w, a) = dir_next(w, DirEvent::Read(block.clone()));
    assert!(matches!(a, DirAction::Read(10)));
    let (w, a) = dir_next(w, DirEvent::Read(block.clone()));
    // The offset kept is 0, where the 12-byte entry fits in 16 bytes.
    assert!(matches!(a, DirAction::Save(10, _)));
    let _ = w;
    let (w, _) = dir_begin(slots, dir_entry_bytes(5, "abcdefghijkl", 1), 16);
    let (w, _) = dir_next(w, DirEvent::Read(block.clone()));
    let (w, a) = dir_next(w, DirEvent::Read(block.clone()));
    assert!(matches!(a, DirAction::OutOfRange));
    let _ = w;
    // No block at all: a first one is allocated in slot 0.
    let (w, a) = dir_begin([0u32; 15], e.clone(), 64);
    assert!(matches!(a, DirAction::Allocate));
    let (w, a) = dir_next(w, DirEvent::Allocated(50));
    assert!(matches!(a, DirAction::Read(50)));
    assert_eq!(w.slots[0], 50);
    let (w, a) = dir_next(w, DirEvent::Read(vec![0u8; 64]));
    let saved = match a {
        DirAction::Save(50, d) => d,
        other => panic!("unexpected {other:?}"),
    };
    assert_eq!(&saved[..12], &e[..]);
    let (_, a) = dir_next(w, DirEvent::Saved);
    assert!(matches!(a, DirAction::Done));
}

#[test]
fn ext2_dir_walk_fresh_block_and_stuck() {
    let mut slots = [0u32; 15];
    slots[0] = 10;
    let e = dir_entry_bytes(5, "ab", 1);
    // Scan stops at offset 56 (an entry of inode 0), where 12 bytes do not fit.
    let block = dir_block(&[(2, 56), (0, 8)], 64);
    let (w, _) = dir_begin(slots, e.clone(), 64);
    let (w, _) = dir_next(w, DirEvent::Read(block.clone()));
    let (w, a) = dir_next(w, DirEvent::Read(block.clone()));
    assert!(matches!(a, DirAction::Allocate));
    let (w, a) = dir_next(w, DirEvent::Allocated(51));
    let fresh = match a {
        DirAction::Save(51, d) => d,
        other => panic!("unexpected {other:?}"),
    };
    assert_eq!(fresh.len(), 64);
    assert_eq!(&fresh[..12], &e[..]);
    assert_eq!(w.slots[1], 51);
    let stuck = dir_block(&[(7, 0)], 64);
    let (w, _) = dir_begin(slots, e, 64);
    let (_, a) = dir_next(w, DirEvent::Read(stuck));
    assert!(matches!(a, DirAction::Stuck));
    assert_eq!(require_directory(1), Ok(()));
    assert_eq!(require_directory(2), Err(Errno::ENOTDIR));
}
