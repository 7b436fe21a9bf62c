use lib::nestfs::zil::NestZilRecord;
use lib::nestfs::zil_trait::{StandardZil, ZilLog};

#[test]
fn test_zil_init() {
    let mut zil = StandardZil::new();
    assert!(zil.is_enabled());
    zil.init();
    assert_eq!(zil.current_seq(), 0);
    assert_eq!(zil.committed_seq(), 0);
}

#[test]
fn test_zil_add_record() {
    let mut zil = StandardZil::new();
    zil.init();
    let rec = NestZilRecord::new_write(1, 100, 0, 4096);
    zil.add_record(rec);
    assert_eq!(zil.current_seq(), 1);
    assert_eq!(zil.pending_count(), 1);
}

#[test]
fn test_zil_seq_increment() {
    let mut zil = StandardZil::new();
    zil.init();
    for _ in 0..5 {
        zil.add_record(NestZilRecord::new_write(1, 100, 0, 4096));
    }
    assert_eq!(zil.current_seq(), 5);
    assert_eq!(zil.pending_count(), 5);
}

#[test]
fn test_zil_commit() {
    let mut zil = StandardZil::new();
    zil.init();
    zil.add_record(NestZilRecord::new_write(1, 100, 0, 4096));
    zil.add_record(NestZilRecord::new_write(2, 100, 0, 4096));
    zil.add_record(NestZilRecord::new_write(3, 100, 0, 4096));
    zil.commit(2);
    assert_eq!(zil.pending_count(), 1);
    assert_eq!(zil.committed_seq(), 2);
}

#[test]
fn test_zil_has_uncommitted() {
    let mut zil = StandardZil::new();
    zil.init();
    assert!(!zil.has_uncommitted(), "初始无未提交");
    zil.add_record(NestZilRecord::new_write(1, 100, 0, 4096));
    assert!(zil.has_uncommitted());
    zil.commit(1);
    assert!(!zil.has_uncommitted());
}

#[test]
fn test_zil_enabled() {
    let mut zil = StandardZil::new();
    zil.init();
    assert!(zil.is_enabled());
    zil.set_enabled(false);
    assert!(!zil.is_enabled());
    let old_seq = zil.current_seq();
    zil.add_record(NestZilRecord::new_write(1, 100, 0, 4096));
    assert_eq!(zil.current_seq(), old_seq, "disable 时不应分配 seq");
    assert_eq!(zil.pending_count(), 0);
    zil.set_enabled(true);
    zil.add_record(NestZilRecord::new_write(1, 100, 0, 4096));
    assert_eq!(zil.current_seq(), old_seq + 1);
}

#[test]
fn test_zil_sync() {
    let mut zil = StandardZil::new();
    zil.init();
    zil.add_record(NestZilRecord::new_write(1, 100, 0, 4096));
    zil.sync(1);
    assert!(!zil.has_uncommitted());
    assert_eq!(zil.pending_count(), 0);
}

#[test]
fn test_zil_replay() {
    let mut zil = StandardZil::new();
    zil.init();
    zil.add_record(NestZilRecord::new_write(1, 100, 0, 4096));
    zil.add_record(NestZilRecord::new_write(1, 200, 0, 4096));
    zil.add_record(NestZilRecord::new_write(1, 300, 0, 4096));
    let replayed = zil.replay();
    assert_eq!(replayed.len(), 3);
    for i in 1..replayed.len() {
        assert!(replayed[i].seq > replayed[i - 1].seq);
    }
}

#[test]
fn test_zil_record_types() {
    let mut zil = StandardZil::new();
    zil.init();
    zil.add_record(NestZilRecord::new_write(1, 100, 0, 4096));
    zil.add_record(NestZilRecord::new_create(1, 10, "file1"));
    zil.add_record(NestZilRecord::new_remove(1, 10, "file1"));
    zil.add_record(NestZilRecord::new_mkdir(1, 10, "subdir"));
    zil.add_record(NestZilRecord::new_setattr(1, 100));
    zil.add_record(NestZilRecord::new_link(1, 10, "link1", 100));
    zil.add_record(NestZilRecord::new_rename(1, 10, "old", "new"));
    zil.add_record(NestZilRecord::new_symlink(1, 10, "lnk", "/target"));
    assert_eq!(zil.pending_count(), 8);
    let replayed = zil.replay();
    assert_eq!(replayed.len(), 8);
}

#[test]
fn test_zil_trait_object() {
    let mut zil: Box<dyn ZilLog> = Box::new(StandardZil::new());
    zil.init();
    zil.add_record(NestZilRecord::new_write(1, 100, 0, 4096));
    assert_eq!(zil.current_seq(), 1);
    assert!(zil.has_uncommitted());
}

#[test]
fn test_zil_full_cycle() {
    let mut zil = StandardZil::new();
    zil.init();
    zil.add_record(NestZilRecord::new_write(1, 100, 0, 4096));
    zil.add_record(NestZilRecord::new_write(1, 200, 0, 4096));
    zil.add_record(NestZilRecord::new_create(1, 10, "file"));
    assert_eq!(zil.pending_count(), 3);
    zil.sync(1);
    assert_eq!(zil.pending_count(), 0);
    assert!(!zil.has_uncommitted());
    zil.add_record(NestZilRecord::new_write(2, 200, 4096, 4096));
    assert_eq!(zil.current_seq(), 4);
    zil.commit(2);
    assert_eq!(zil.pending_count(), 0);
}

#[test]
fn test_zil_replay_across_commits() {
    let mut zil = StandardZil::new();
    zil.init();
    zil.add_record(NestZilRecord::new_write(1, 100, 0, 4096));
    zil.add_record(NestZilRecord::new_write(2, 100, 0, 4096));
    zil.add_record(NestZilRecord::new_write(3, 100, 0, 4096));
    zil.commit(2);
    let replayed = zil.replay();
    assert_eq!(replayed.len(), 1);
    assert_eq!(replayed[0].seq, 3);
    zil.commit(3);
    let replayed2 = zil.replay();
    assert_eq!(replayed2.len(), 0);
}

#[test]
fn zil_record_name_is_kept() {
    let r = NestZilRecord::new_create(5, 7, "abc");
    assert_eq!(&r.name[..4], b"abc\0");
    assert_eq!(r.parent_obj, 7);
    assert_eq!(r.txg, 5);
}
