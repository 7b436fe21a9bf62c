pub mod zil_persist;
pub mod arc;
pub mod dataset;
pub mod file_write;
pub mod front;
pub mod mount;
pub mod metadata;
