use lib::vfs_poll_policy::{
    current_vfs_poll_policy, register_default_vfs_poll_policy, StandardVfsPollPolicy, VfsFileType,
    VfsPollContext, VfsPollPolicy, VfsPollPolicyRef, VfsPollRegistry, EPOLLERR, EPOLLHUP, EPOLLIN,
    EPOLLOUT,
};

#[test]
fn test_vfs_poll_file_type_mapping() {
    let policy = StandardVfsPollPolicy;
    assert_eq!(policy.events_for_file_type(VfsFileType::File), EPOLLIN | EPOLLOUT);
    assert_eq!(policy.events_for_file_type(VfsFileType::Dir), EPOLLIN);
    assert_eq!(policy.events_for_file_type(VfsFileType::Dev), EPOLLHUP);
    assert_eq!(policy.events_for_file_type(VfsFileType::Symlink), EPOLLIN | EPOLLHUP);
}

#[test]
fn test_vfs_poll_invalid_fd() {
    let policy = StandardVfsPollPolicy;
    assert_eq!(policy.events_for_invalid_fd(), EPOLLERR | EPOLLHUP);
}

#[test]
fn test_vfs_poll_ctx_dispatch() {
    let registry = VfsPollRegistry::new();
    let policy = current_vfs_poll_policy(&registry);
    match policy {
        VfsPollPolicyRef::Fallback => {}
        VfsPollPolicyRef::Registered(ref p) => {
            let ctx = VfsPollContext { valid: true, file_type: VfsFileType::File };
            let ev = policy.events_for(ctx);
            assert_eq!(ev, EPOLLIN | EPOLLOUT);
            let _ = p;
        }
    }
}

#[test]
fn test_vfs_poll_fallback_equivalence() {
    let policy = StandardVfsPollPolicy;
    for ft in [VfsFileType::File, VfsFileType::Dir, VfsFileType::Dev, VfsFileType::Symlink] {
        let policy_result = policy.events_for_file_type(ft);
        assert_ne!(policy_result, 0, "{:?} 应有非零事件", ft);
    }
}

#[test]
fn test_vfs_poll_register_idempotent() {
    let _ = register_default_vfs_poll_policy;
}

#[test]
fn test_vfs_poll_integration() {
    let policy = StandardVfsPollPolicy;
    let ctx_valid_file = VfsPollContext { valid: true, file_type: VfsFileType::File };
    let ctx_valid_dir = VfsPollContext { valid: true, file_type: VfsFileType::Dir };
    let ctx_valid_dev = VfsPollContext { valid: true, file_type: VfsFileType::Dev };
    let ctx_invalid = VfsPollContext { valid: false, file_type: VfsFileType::File };
    assert_eq!(policy.events_for_file_type(ctx_valid_file.file_type), EPOLLIN | EPOLLOUT);
    assert_eq!(policy.events_for_file_type(ctx_valid_dir.file_type), EPOLLIN);
    assert_eq!(policy.events_for_file_type(ctx_valid_dev.file_type), EPOLLHUP);
    assert_eq!(policy.events_for_invalid_fd(), EPOLLERR | EPOLLHUP);
    let _ = ctx_invalid;
}

#[test]
fn vfs_poll_registration_happens_once() {
    let mut registry = VfsPollRegistry::new();
    assert!(matches!(current_vfs_poll_policy(&registry), VfsPollPolicyRef::Fallback));
    assert_eq!(register_default_vfs_poll_policy(&mut registry), Ok(()));
    assert_eq!(register_default_vfs_poll_policy(&mut registry), Err(()));
    let p = current_vfs_poll_policy(&registry);
    assert!(matches!(p, VfsPollPolicyRef::Registered(_)));
    assert_eq!(p.events_for(VfsPollContext { valid: false, file_type: VfsFileType::Dir }), EPOLLERR | EPOLLHUP);
    assert_eq!(p.events_for(VfsPollContext { valid: true, file_type: VfsFileType::Symlink }), EPOLLIN | EPOLLHUP);
}
