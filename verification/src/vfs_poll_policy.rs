//! Poll readiness policy: which epoll events a file of each type reports,
//! and the registration of the standard policy.
use vstd::prelude::*;

verus! {

/// Readable.
pub const EPOLLIN: u32 = 0x001;

/// Writable.
pub const EPOLLOUT: u32 = 0x004;

/// Error.
pub const EPOLLERR: u32 = 0x008;

/// Hang-up.
pub const EPOLLHUP: u32 = 0x010;

/// The type of a file behind a descriptor.
#[derive(Debug, Clone, Copy, PartialEq, Eq, Structural)]
pub enum VfsFileType {
    File,
    Dir,
    Dev,
    Symlink,
}

/// The events the standard policy reports for a file type.
pub open spec fn standard_events(ft: VfsFileType) -> u32 {
    match ft {
        VfsFileType::File => EPOLLIN | EPOLLOUT,
        VfsFileType::Dir => EPOLLIN,
        VfsFileType::Dev => EPOLLHUP,
        VfsFileType::Symlink => EPOLLIN | EPOLLHUP,
    }
}

/// A readiness policy.
pub trait VfsPollPolicy {
    /// Events of a valid descriptor of type `file_type`.
    fn events_for_file_type(&self, file_type: VfsFileType) -> u32;

    /// Events of an invalid descriptor.
    fn events_for_invalid_fd(&self) -> u32;
}

/// The standard policy: files are always readable and writable,
/// directories readable, devices hung up, symbolic links readable then hung
/// up; an invalid descriptor reports an error and a hang-up.
pub struct StandardVfsPollPolicy;

impl VfsPollPolicy for StandardVfsPollPolicy {
    fn events_for_file_type(&self, file_type: VfsFileType) -> (r: u32)
        ensures
            r == standard_events(file_type),
    {
        match file_type {
            VfsFileType::File => EPOLLIN | EPOLLOUT,
            VfsFileType::Dir => EPOLLIN,
            VfsFileType::Dev => EPOLLHUP,
            VfsFileType::Symlink => EPOLLIN | EPOLLHUP,
        }
    }

    fn events_for_invalid_fd(&self) -> (r: u32)
        ensures
            r == EPOLLERR | EPOLLHUP,
    {
        EPOLLERR | EPOLLHUP
    }
}

/// What is known of a descriptor being polled.
#[derive(Debug, Clone, Copy)]
pub struct VfsPollContext {
    pub valid: bool,
    pub file_type: VfsFileType,
}

/// The events reported for a polled descriptor.
pub open spec fn context_events(ctx: VfsPollContext) -> u32 {
    if ctx.valid { standard_events(ctx.file_type) } else { EPOLLERR | EPOLLHUP }
}

/// The policy in force: the registered one, or the built-in fallback that
/// behaves the same.
pub enum VfsPollPolicyRef {
    Fallback,
    Registered(StandardVfsPollPolicy),
}

impl VfsPollPolicyRef {
    /// The events reported for `ctx`.
    pub fn events_for(&self, ctx: VfsPollContext) -> (r: u32)
        ensures
            r == context_events(ctx),
    {
        let p = StandardVfsPollPolicy;
        let policy = match self {
            VfsPollPolicyRef::Fallback => &p,
            VfsPollPolicyRef::Registered(q) => q,
        };
        if ctx.valid {
            policy.events_for_file_type(ctx.file_type)
        } else {
            policy.events_for_invalid_fd()
        }
    }
}

/// Whether a policy has been registered.
pub struct VfsPollRegistry {
    pub registered: bool,
}

impl VfsPollRegistry {
    /// Nothing registered.
    pub fn new() -> (r: Self)
        ensures
            !r.registered,
    {
        VfsPollRegistry { registered: false }
    }
}

/// The policy in force in `registry`.
pub fn current_vfs_poll_policy(registry: &VfsPollRegistry) -> (r: VfsPollPolicyRef)
    ensures
        registry.registered <==> r is Registered,
{
    if registry.registered {
        VfsPollPolicyRef::Registered(StandardVfsPollPolicy)
    } else {
        VfsPollPolicyRef::Fallback
    }
}

/// Registers the standard policy; fails when one is registered already.
pub fn register_default_vfs_poll_policy(registry: &mut VfsPollRegistry) -> (r: Result<(), ()>)
    ensures
        r is Ok <==> !old(registry).registered,
        final(registry).registered,
{
    if registry.registered {
        Err(())
    } else {
        registry.registered = true;
        Ok(())
    }
}

} // verus!
