//! The `SpaManager` interface over storage pools, and its standard
//! implementation backed by `NestSpa`.
use crate::nestfs::spa::{pool_guid, stats_zero, NestSpa, NestSpaStats, NestUberblock, HV_UBERBLOCK_MAGIC};
use crate::nestfs::vdev::NestVdevConfig;
use vstd::prelude::*;
use vstd::string::StringSliceAdditionalSpecFns;

verus! {

/// A storage pool.
pub trait SpaManager: Send + Sync {
    /// Names and initializes the pool.
    fn init(&mut self, name: &str);

    /// Adds a device; `false` when the pool has no room for it.
    fn add_vdev(&mut self, config: NestVdevConfig) -> bool;

    /// Number of devices.
    fn vdev_count(&self) -> usize;

    /// Pool GUID.
    fn guid(&self) -> u64;

    /// Pool name.
    fn name(&self) -> &str;

    /// Whether the pool is initialized.
    fn is_initialized(&self) -> bool;

    /// Whether a backing disk is attached.
    fn is_disk_present(&self) -> bool;

    /// Whether the disk carries a pool.
    fn is_formatted(&self) -> bool;

    /// The current txg.
    fn current_txg(&self) -> u64;

    /// Moves to the next txg.
    fn advance_txg(&mut self) -> u64;

    /// Counters: allocations, frees, reads, writes, txgs.
    fn get_stats(&self) -> (u64, u64, u64, u64, u64);

    /// The last recorded uberblock.
    fn read_uberblock(&self) -> Option<NestUberblock>;

    /// Records an uberblock for the current txg.
    fn sync_uberblock(&mut self);
}

/// The standard pool: a `NestSpa`.
pub struct StandardSpa(pub NestSpa);

impl StandardSpa {
    /// An uninitialized pool without devices.
    pub fn new() -> (s: Self)
        ensures
            !s.0.initialized,
            s.0.vdevs@.len() == 0,
            s.0.txg == 0,
            stats_zero(s.0.stats),
    {
        StandardSpa(NestSpa::new())
    }

    /// The wrapped pool.
    pub fn inner(&self) -> (r: &NestSpa)
        ensures
            r == &self.0,
    {
        &self.0
    }
}

impl SpaManager for StandardSpa {
    fn init(&mut self, name: &str)
        ensures
            final(self).0.initialized,
            final(self).0.config.guid == pool_guid(name.spec_bytes()),
            final(self).0.txg == 1,
            stats_zero(final(self).0.stats),
            final(self).0.vdevs@ == old(self).0.vdevs@,
    {
        self.0.init(name);
    }

    fn add_vdev(&mut self, config: NestVdevConfig) -> (ok: bool)
        ensures
            ok == (old(self).0.vdevs@.len() < old(self).0.config.max_vdevs),
            ok ==> final(self).0.vdevs@ == old(self).0.vdevs@.push(config),
            !ok ==> final(self).0.vdevs@ == old(self).0.vdevs@,
            final(self).0.txg == old(self).0.txg,
            final(self).0.initialized == old(self).0.initialized,
    {
        self.0.add_vdev(config)
    }

    fn vdev_count(&self) -> (n: usize)
        ensures
            n == self.0.vdevs@.len(),
    {
        self.0.vdevs.len()
    }

    fn guid(&self) -> (g: u64)
        ensures
            g == self.0.config.guid,
    {
        self.0.config.guid
    }

    fn name(&self) -> (s: &str)
        ensures
            s.spec_bytes().len() == 0,
    {
        proof {
            reveal_strlit("");
        }
        ""
    }

    fn is_initialized(&self) -> (r: bool)
        ensures
            r == self.0.initialized,
    {
        self.0.is_initialized()
    }

    fn is_disk_present(&self) -> (r: bool)
        ensures
            r == self.0.disk_present,
    {
        self.0.is_disk_present()
    }

    fn is_formatted(&self) -> (r: bool)
        ensures
            r == self.0.formatted,
    {
        self.0.is_formatted()
    }

    fn current_txg(&self) -> (r: u64)
        ensures
            r == self.0.txg,
    {
        self.0.current_txg()
    }

    fn advance_txg(&mut self) -> (r: u64)
        ensures
            r == old(self).0.txg.wrapping_add(1),
            final(self).0.txg == r,
            final(self).0.stats == (NestSpaStats { total_txg: old(self).0.stats.total_txg.wrapping_add(1), ..old(self).0.stats }),
            final(self).0.vdevs@ == old(self).0.vdevs@,
            final(self).0.initialized == old(self).0.initialized,
            final(self).0.config.guid == old(self).0.config.guid,
    {
        self.0.advance_txg()
    }

    fn get_stats(&self) -> (r: (u64, u64, u64, u64, u64))
        ensures
            r == (self.0.stats.alloc, self.0.stats.free, self.0.stats.read, self.0.stats.write, self.0.stats.total_txg),
    {
        self.0.get_stats()
    }

    fn read_uberblock(&self) -> (r: Option<NestUberblock>)
        ensures
            r == self.0.uberblock,
    {
        self.0.read_uberblock()
    }

    fn sync_uberblock(&mut self)
        ensures
            final(self).0.uberblock == Some(NestUberblock {
                magic: HV_UBERBLOCK_MAGIC,
                version: 1,
                txg: old(self).0.txg,
                guid_sum: old(self).0.config.guid,
                timestamp: 0,
            }),
            final(self).0.txg == old(self).0.txg,
    {
        self.0.sync_uberblock();
    }
}

} // verus!
