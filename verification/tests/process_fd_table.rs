use lib::errno::Errno;
use lib::process_fd_table::ProcessFdTable;

#[test]
fn fd_alloc_starts_at_three() {
    let mut t: ProcessFdTable<u32> = ProcessFdTable::new(8);
    assert_eq!(t.alloc_fd(100, false), Some(3));
    assert_eq!(t.alloc_fd(101, true), Some(4));
    assert_eq!(t.get_fd(3), Some(100));
    assert!(t.get_cloexec(4));
    assert!(!t.get_cloexec(3));
    assert_eq!(t.used_count(), 2);
    assert_eq!(t.close_fd(3), Some(100));
    assert_eq!(t.close_fd(3), None);
    assert_eq!(t.alloc_fd(102, false), Some(3));
    assert_eq!(t.max_fds(), 8);
    assert_eq!(t.get_fd(99), None);
}

#[test]
fn fd_alloc_at_and_dup() {
    let mut t: ProcessFdTable<u32> = ProcessFdTable::new_default();
    assert_eq!(t.alloc_fd_at(0, 7, false), Ok(0));
    assert_eq!(t.alloc_fd_at(300, 7, false), Err(Errno::EBADF));
    assert_eq!(t.dup_fd(0), Some(3));
    assert_eq!(t.get_fd(3), Some(7));
    assert_eq!(t.dup_fd(9), None);
    assert_eq!(t.dup2_fd(0, 10), Ok(10));
    assert_eq!(t.get_fd(10), Some(7));
    assert_eq!(t.dup2_fd(10, 10), Ok(10));
    assert_eq!(t.dup2_fd(11, 11), Err(Errno::EBADF));
    assert_eq!(t.dup2_fd(12, 1), Err(Errno::EBADF));
    assert_eq!(t.dup2_fd(0, 999), Err(Errno::EBADF));
}

#[test]
fn fd_cloexec_sweeps() {
    let mut t: ProcessFdTable<u32> = ProcessFdTable::new(6);
    t.alloc_fd(1, true);
    t.alloc_fd(2, false);
    t.alloc_fd(3, true);
    t.close_cloexec_fds();
    assert_eq!(t.used_count(), 1);
    assert_eq!(t.get_fd(4), Some(2));
    t.clear_non_cloexec();
    assert_eq!(t.used_count(), 0);
}

#[test]
fn fd_table_full() {
    let mut t: ProcessFdTable<u32> = ProcessFdTable::new(4);
    assert_eq!(t.alloc_fd(1, false), Some(3));
    assert_eq!(t.alloc_fd(1, false), None);
}
