//! exFAT directory entries: 32-byte records whose first byte is the type.
use crate::bytes_util::slice_range;
use crate::nestfs::bp::{le_u16_at, le_u32_at, le_u64_at, read_le_u16, read_le_u32, read_le_u64};
use vstd::prelude::*;

verus! {

/// End of directory.
pub const DIR_ENTRY_END: u8 = 0x00;

/// Deleted entry.
pub const DIR_ENTRY_DELETED: u8 = 0xE5;

/// File entry.
pub const DIR_ENTRY_FILE: u8 = 0x85;

/// Stream extension entry.
pub const DIR_ENTRY_STREAM: u8 = 0xC0;

/// Volume label entry.
pub const DIR_ENTRY_VOLUME: u8 = 0x81;

/// Allocation bitmap entry.
pub const DIR_ENTRY_ALLOC: u8 = 0xA0;

/// Size of an entry.
pub const DIR_ENTRY_SIZE: usize = 32;

/// A directory entry: its type byte and the 31 bytes after it.
#[derive(Debug, Clone, Copy)]
pub struct ExfatDirEntry {
    pub entry_type: u8,
    pub data: [u8; 31],
}

impl ExfatDirEntry {
    /// The entry held by the first 32 bytes of `data`; `None` when there
    /// are fewer.
    pub fn from_bytes(data: &[u8]) -> (r: Option<Self>)
        ensures
            data@.len() < 32 ==> r is None,
            data@.len() >= 32 ==> (r matches Some(e) && e.entry_type == data@[0]
                && e.data@ == data@.subrange(1, 32)),
    {
        if data.len() < 32 {
            return None;
        }
        let mut entry = ExfatDirEntry { entry_type: data[0], data: [0u8; 31] };
        let mut i: usize = 0;
        while i < 31
            invariant
                data@.len() >= 32,
                0 <= i <= 31,
                entry.entry_type == data@[0],
                forall|k: int| 0 <= k < i ==> entry.data@[k] == data@[k + 1],
            decreases 31 - i,
        {
            entry.data[i] = data[i + 1];
            i += 1;
        }
        assert(entry.data@ =~= data@.subrange(1, 32));
        Some(entry)
    }

    /// Whether this is a file entry.
    pub fn is_file(&self) -> (r: bool)
        ensures
            r == (self.entry_type == DIR_ENTRY_FILE),
    {
        self.entry_type == DIR_ENTRY_FILE
    }

    /// Whether this is a stream extension entry.
    pub fn is_stream(&self) -> (r: bool)
        ensures
            r == (self.entry_type == DIR_ENTRY_STREAM),
    {
        self.entry_type == DIR_ENTRY_STREAM
    }

    /// Whether this entry ends the directory.
    pub fn is_end(&self) -> (r: bool)
        ensures
            r == (self.entry_type == DIR_ENTRY_END),
    {
        self.entry_type == DIR_ENTRY_END
    }

    /// The attribute bits of a file entry (0 for other entries).
    pub fn file_attributes(&self) -> (r: u16)
        ensures
            r == (if self.entry_type == DIR_ENTRY_FILE { le_u16_at(self.data@, 1) } else { 0 }),
    {
        if self.is_file() {
            read_le_u16(self.data.as_slice(), 1)
        } else {
            0
        }
    }

    /// The first cluster of a file or stream entry (0 for other entries).
    pub fn first_cluster(&self) -> (r: u32)
        ensures
            r == (if self.entry_type == DIR_ENTRY_FILE || self.entry_type == DIR_ENTRY_STREAM {
                le_u32_at(self.data@, 20)
            } else {
                0
            }),
    {
        if self.is_file() || self.is_stream() {
            read_le_u32(self.data.as_slice(), 20)
        } else {
            0
        }
    }

    /// The data length of a stream entry (0 for other entries).
    pub fn stream_length(&self) -> (r: u64)
        ensures
            r == (if self.entry_type == DIR_ENTRY_STREAM { le_u64_at(self.data@, 4) } else { 0 }),
    {
        if self.is_stream() {
            read_le_u64(self.data.as_slice(), 4)
        } else {
            0
        }
    }

    /// The valid length of a file entry (0 for other entries).
    pub fn valid_length(&self) -> (r: u64)
        ensures
            r == (if self.entry_type == DIR_ENTRY_FILE { le_u64_at(self.data@, 4) } else { 0 }),
    {
        if self.is_file() {
            read_le_u64(self.data.as_slice(), 4)
        } else {
            0
        }
    }
}

/// The entries of one cluster's bytes, in order, up to the first end entry.
pub open spec fn cluster_entries(data: Seq<u8>) -> Seq<u8>
    decreases data.len(),
{
    if data.len() < 32 || data[0] == DIR_ENTRY_END {
        Seq::empty()
    } else {
        seq![data[0]] + cluster_entries(data.skip(32))
    }
}

/// The entries stored in a cluster's bytes: each 32-byte record in turn,
/// stopping before the first end entry or when fewer than 32 bytes remain.
/// (Their type bytes are `cluster_entries(data)`.)
pub fn entries_from_cluster_data(data: &[u8]) -> (r: Vec<ExfatDirEntry>)
    ensures
        r@.len() == cluster_entries(data@).len(),
        forall|i: int| 0 <= i < r@.len() ==> (#[trigger] r@[i]).entry_type == data@[32 * i]
            && r@[i].data@ == data@.subrange(32 * i + 1, 32 * i + 32),
{
    let mut entries: Vec<ExfatDirEntry> = Vec::new();
    let mut offset: usize = 0;
    let mut done = false;
    assert(data@.skip(0) =~= data@);
    while !done && data.len() - offset >= 32
        invariant
            offset == 32 * entries@.len(),
            offset <= data@.len(),
            done ==> cluster_entries(data@.skip(offset as int)).len() == 0,
            cluster_entries(data@).len() == entries@.len() + cluster_entries(data@.skip(offset as int)).len(),
            forall|i: int| 0 <= i < entries@.len() ==> (#[trigger] entries@[i]).entry_type == data@[32 * i]
                && entries@[i].data@ == data@.subrange(32 * i + 1, 32 * i + 32),
        decreases data@.len() - offset, if done { 0int } else { 1int },
    {
        let rest = slice_range(data, offset, data.len());
        let ghost tail = data@.skip(offset as int);
        assert(rest@ =~= tail);
        match ExfatDirEntry::from_bytes(rest) {
            Some(entry) => {
                if entry.is_end() {
                    done = true;
                } else {
                    proof {
                        assert(tail.skip(32) =~= data@.skip(offset + 32));
                        assert(entry.data@ =~= data@.subrange(offset + 1, offset + 32));
                    }
                    entries.push(entry);
                    offset += 32;
                }
            },
            None => {
                offset += 32;
            },
        }
    }
    entries
}

} // verus!
