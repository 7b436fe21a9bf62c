//! SPA: the storage pool: its name and GUID, virtual devices, txg counter,
//! statistics and uberblock.
use crate::bytes_util::copy_prefix;
use crate::nestfs::vdev::NestVdevConfig;
use crate::nestfs::zap::{fnv1a, NestZapEntry};
use vstd::prelude::*;
use vstd::string::StringSliceAdditionalSpecFns;

verus! {

pub const HV_SPA_MAX_VDEVS: usize = 8;

pub const HV_SPA_MAX_NAME: usize = 64;

pub const HV_UBERBLOCK_MAGIC: u64 = 0x00bab10c;

/// The pool's root record.
#[derive(Debug, Clone, Copy)]
pub struct NestUberblock {
    pub magic: u64,
    pub version: u64,
    pub txg: u64,
    pub guid_sum: u64,
    pub timestamp: u64,
}

/// Pool configuration.
pub struct NestSpaConfig {
    pub name: Vec<u8>,
    pub guid: u64,
    pub max_vdevs: usize,
}

/// Pool operation counters.
#[derive(Debug, Clone, Copy)]
pub struct NestSpaStats {
    pub alloc: u64,
    pub free: u64,
    pub read: u64,
    pub write: u64,
    pub total_txg: u64,
}

/// A storage pool.
pub struct NestSpa {
    pub config: NestSpaConfig,
    pub vdevs: Vec<NestVdevConfig>,
    pub txg: u64,
    pub stats: NestSpaStats,
    pub initialized: bool,
    pub disk_present: bool,
    pub formatted: bool,
    pub uberblock: Option<NestUberblock>,
}

/// GUID a pool named `name` receives: the FNV-1a hash of the name with the
/// lowest bit set, so that it is never zero.
pub open spec fn pool_guid(name: Seq<u8>) -> u64 {
    fnv1a(name) | 1u64
}

/// All counters zero.
pub open spec fn stats_zero(s: NestSpaStats) -> bool {
    s.alloc == 0 && s.free == 0 && s.read == 0 && s.write == 0 && s.total_txg == 0
}

impl NestSpa {
    /// An uninitialized pool without devices.
    pub fn new() -> (s: Self)
        ensures
            !s.initialized,
            s.vdevs@.len() == 0,
            s.txg == 0,
            s.config.guid == 0,
            s.config.max_vdevs == HV_SPA_MAX_VDEVS,
            stats_zero(s.stats),
            !s.disk_present,
            !s.formatted,
            s.uberblock is None,
    {
        NestSpa {
            config: NestSpaConfig { name: Vec::new(), guid: 0, max_vdevs: HV_SPA_MAX_VDEVS },
            vdevs: Vec::new(),
            txg: 0,
            stats: NestSpaStats { alloc: 0, free: 0, read: 0, write: 0, total_txg: 0 },
            initialized: false,
            disk_present: false,
            formatted: false,
            uberblock: None,
        }
    }

    /// Names the pool (at most 64 bytes kept), derives its GUID, sets the txg
    /// to 1 and the counters to 0.
    pub fn init(&mut self, name: &str)
        ensures
            final(self).initialized,
            final(self).config.name@ == crate::bytes_util::truncate(name.spec_bytes(), HV_SPA_MAX_NAME as int),
            final(self).config.guid == pool_guid(name.spec_bytes()),
            final(self).config.max_vdevs == old(self).config.max_vdevs,
            final(self).txg == 1,
            stats_zero(final(self).stats),
            final(self).vdevs@ == old(self).vdevs@,
            final(self).disk_present == old(self).disk_present,
            final(self).formatted == old(self).formatted,
            final(self).uberblock == old(self).uberblock,
    {
        self.config.name = copy_prefix(name.as_bytes(), HV_SPA_MAX_NAME);
        self.config.guid = NestZapEntry::hash_name(name) | 1;
        self.txg = 1;
        self.stats = NestSpaStats { alloc: 0, free: 0, read: 0, write: 0, total_txg: 0 };
        self.initialized = true;
    }

    /// Adds a device; `false` (and no change) once `max_vdevs` devices are present.
    pub fn add_vdev(&mut self, config: NestVdevConfig) -> (ok: bool)
        ensures
            ok == (old(self).vdevs@.len() < old(self).config.max_vdevs),
            ok ==> final(self).vdevs@ == old(self).vdevs@.push(config),
            !ok ==> final(self).vdevs@ == old(self).vdevs@,
            final(self).txg == old(self).txg,
            final(self).initialized == old(self).initialized,
            final(self).config.guid == old(self).config.guid,
            final(self).config.max_vdevs == old(self).config.max_vdevs,
    {
        if self.vdevs.len() >= self.config.max_vdevs {
            return false;
        }
        self.vdevs.push(config);
        true
    }

    /// Whether `init` ran.
    pub fn is_initialized(&self) -> (r: bool)
        ensures
            r == self.initialized,
    {
        self.initialized
    }

    /// Whether a backing disk is attached.
    pub fn is_disk_present(&self) -> (r: bool)
        ensures
            r == self.disk_present,
    {
        self.disk_present
    }

    /// Whether the backing disk carries a pool.
    pub fn is_formatted(&self) -> (r: bool)
        ensures
            r == self.formatted,
    {
        self.formatted
    }

    /// The current txg.
    pub fn current_txg(&self) -> (r: u64)
        ensures
            r == self.txg,
    {
        self.txg
    }

    /// Moves to the next txg and returns it; counts the step.
    pub fn advance_txg(&mut self) -> (r: u64)
        ensures
            r == old(self).txg.wrapping_add(1),
            final(self).txg == r,
            final(self).stats == (NestSpaStats { total_txg: old(self).stats.total_txg.wrapping_add(1), ..old(self).stats }),
            final(self).vdevs@ == old(self).vdevs@,
            final(self).initialized == old(self).initialized,
            final(self).config.guid == old(self).config.guid,
    {
        self.txg = self.txg.wrapping_add(1);
        self.stats.total_txg = self.stats.total_txg.wrapping_add(1);
        self.txg
    }

    /// Counters: allocations, frees, reads, writes, txgs.
    pub fn get_stats(&self) -> (r: (u64, u64, u64, u64, u64))
        ensures
            r == (self.stats.alloc, self.stats.free, self.stats.read, self.stats.write, self.stats.total_txg),
    {
        (self.stats.alloc, self.stats.free, self.stats.read, self.stats.write, self.stats.total_txg)
    }

    /// Records an uberblock for the current txg.
    pub fn sync_uberblock(&mut self)
        ensures
            final(self).uberblock == Some(NestUberblock {
                magic: HV_UBERBLOCK_MAGIC,
                version: 1,
                txg: old(self).txg,
                guid_sum: old(self).config.guid,
                timestamp: 0,
            }),
            final(self).txg == old(self).txg,
            final(self).vdevs@ == old(self).vdevs@,
            final(self).initialized == old(self).initialized,
            final(self).config.guid == old(self).config.guid,
    {
        self.uberblock = Some(NestUberblock {
            magic: HV_UBERBLOCK_MAGIC,
            version: 1,
            txg: self.txg,
            guid_sum: self.config.guid,
            timestamp: 0,
        });
    }

    /// The last uberblock recorded.
    pub fn read_uberblock(&self) -> (r: Option<NestUberblock>)
        ensures
            r == self.uberblock,
    {
        self.uberblock
    }
}

/// A pool's GUID is never zero.
pub proof fn lemma_pool_guid_nonzero(name: Seq<u8>)
    ensures
        pool_guid(name) != 0,
{
    let h = fnv1a(name);
    assert((h | 1u64) != 0) by (bit_vector);
}

} // verus!
