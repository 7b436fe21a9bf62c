pub mod zap;
pub mod zap_trait;
pub mod bp;
pub mod zil;
pub mod zil_trait;
pub mod zil_persist;
pub mod zil_persist_trait;
pub mod dmu;
pub mod dmu_trait;
pub mod txg;
pub mod txg_trait;
pub mod vdev;
pub mod spa;
pub mod spa_trait;
pub mod arc;
pub mod arc_trait;
pub mod metaslab;
pub mod dedup;
pub mod compress;
pub mod checksum;
