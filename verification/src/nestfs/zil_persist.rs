//! Intent-log persistence for NestFS: the block format of `hvfs::zil_persist`.
use vstd::prelude::*;

verus! {

pub type NestZilPersist = crate::hvfs::zil_persist::HvZilPersist;

} // verus!
