//! Process file system entries.
use vstd::prelude::*;

verus! {

/// What a directory entry of the process file system is.
#[derive(Debug, Clone, Copy, PartialEq, Eq, Structural)]
pub enum ProcEntryKind {
    Dir,
    Current,
    Process,
    File,
}

/// The wire code of a kind.
pub open spec fn kind_code(k: ProcEntryKind) -> u8 {
    match k {
        ProcEntryKind::Dir => 1,
        ProcEntryKind::Current => 2,
        ProcEntryKind::Process => 3,
        ProcEntryKind::File => 4,
    }
}

impl ProcEntryKind {
    /// The kind with wire code `value` (1 to 4).
    pub fn from_u8(value: u8) -> (r: Option<Self>)
        ensures
            r matches Some(k) ==> kind_code(k) == value,
            r is None <==> (value < 1 || value > 4),
    {
        match value {
            1 => Some(ProcEntryKind::Dir),
            2 => Some(ProcEntryKind::Current),
            3 => Some(ProcEntryKind::Process),
            4 => Some(ProcEntryKind::File),
            _ => None,
        }
    }
}

/// A directory entry: its name, process id and kind.
#[derive(Debug, Clone)]
pub struct ProcEntry {
    pub name: String,
    pub pid: u32,
    pub kind: ProcEntryKind,
}

} // verus!
