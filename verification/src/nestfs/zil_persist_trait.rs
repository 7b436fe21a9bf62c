//! The `ZilPersist` interface over intent-log persistence, and its standard
//! implementation.
use crate::hvfs::zil_persist::{block_image, block_readable, decode_overruns, decoded_records};
use crate::nestfs::zil::{sort_by_seq, NestZil, NestZilRecord};
use crate::nestfs::zil_persist::NestZilPersist;
use vstd::prelude::*;

verus! {

/// Writing intent-log records to a block and reading them back.
pub trait ZilPersist: Send + Sync {
    /// The block holding `zil_records` at `txg`; `None` when there is none.
    fn serialize_zil_to_block(zil_records: &[NestZilRecord], txg: u64) -> Option<Vec<u8>>;

    /// The records held by a block; empty when it does not check out.
    fn deserialize_zil_from_block(block: &[u8]) -> Vec<NestZilRecord>
        requires
            !decode_overruns(block@),
    ;

    /// Notes that a block has been written.
    fn mark_written(&mut self);
}

/// The standard persistence: `NestZilPersist`.
pub struct StandardZilPersist(pub NestZilPersist);

impl StandardZilPersist {
    /// Nothing written yet.
    pub fn new() -> (p: Self)
        ensures
            !p.0.zil_blocks_written,
    {
        StandardZilPersist(NestZilPersist::new())
    }

    /// The wrapped persistence state.
    pub fn inner(&self) -> (r: &NestZilPersist)
        ensures
            *r == self.0,
    {
        &self.0
    }
}

impl ZilPersist for StandardZilPersist {
    fn serialize_zil_to_block(zil_records: &[NestZilRecord], txg: u64) -> (r: Option<Vec<u8>>)
        ensures
            r is None <==> zil_records@.len() == 0,
            r matches Some(b) ==> b@ == block_image(zil_records@, txg),
    {
        let mut temp = NestZil::new();
        temp.init();
        temp.records = vstd::slice::slice_to_vec(zil_records);
        NestZilPersist::serialize_zil_to_block(&temp, txg)
    }

    fn deserialize_zil_from_block(block: &[u8]) -> (r: Vec<NestZilRecord>)
        ensures
            !block_readable(block@) ==> r@.len() == 0,
            block_readable(block@) ==> exists|d: Seq<NestZilRecord>|
                decoded_records(block@, d) && r@ == sort_by_seq(d),
    {
        NestZilPersist::deserialize_zil_from_block(block)
    }

    fn mark_written(&mut self)
        ensures
            final(self).0.zil_blocks_written,
    {
        self.0.mark_written();
    }
}

} // verus!
