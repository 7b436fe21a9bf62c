//! Virtual device configuration.
use vstd::prelude::*;

verus! {

/// Configuration of one virtual device of a pool.
#[derive(Debug, Clone, Copy)]
pub struct NestVdevConfig {
    pub vdev_id: u16,
    pub guid: u64,
    pub asize: u64,
    pub ashift: u8,
    pub offset: u64,
}

/// Every field zero.
pub open spec fn vdev_config_is_zero(c: NestVdevConfig) -> bool {
    c.vdev_id == 0 && c.guid == 0 && c.asize == 0 && c.ashift == 0 && c.offset == 0
}

impl Default for NestVdevConfig {
    fn default() -> (c: Self)
        ensures
            vdev_config_is_zero(c),
    {
        NestVdevConfig { vdev_id: 0, guid: 0, asize: 0, ashift: 0, offset: 0 }
    }
}

} // verus!
