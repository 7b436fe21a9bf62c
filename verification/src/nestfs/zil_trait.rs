//! The `ZilLog` interface over intent logs, and its standard implementation
//! backed by `NestZil`.
use crate::nestfs::bp::NestBlockPointer;
use crate::nestfs::zil::{
    kept_after_commit, max_committed_seq, sort_by_seq, zil_after_add, NestZil, NestZilRecord,
};
use vstd::prelude::*;

verus! {

/// An intent log.
pub trait ZilLog: Send + Sync {
    /// Resets the log.
    fn init(&mut self);

    /// Whether records are being accepted.
    fn is_enabled(&self) -> bool;

    /// Enables or disables the log.
    fn set_enabled(&mut self, enabled: bool);

    /// Appends a record with the next sequence number.
    fn add_record(&mut self, record: NestZilRecord);

    /// The last sequence number handed out.
    fn current_seq(&self) -> u64;

    /// The largest committed sequence number.
    fn committed_seq(&self) -> u64;

    /// Whether records were added after the last commit.
    fn has_uncommitted(&self) -> bool;

    /// Number of pending records.
    fn pending_count(&self) -> usize;

    /// Drops the records of a txg and of every earlier one.
    fn commit(&mut self, txg: u64);

    /// Commits a txg unless a sync is under way.
    fn sync(&mut self, txg: u64);

    /// Whether a sync is under way.
    fn is_syncing(&self) -> bool;

    /// The pending records ordered by sequence number.
    fn replay(&self) -> Vec<NestZilRecord>;

    /// Block pointer of the on-disk log.
    fn log_bp(&self) -> NestBlockPointer;
}

/// The standard intent log: a `NestZil`.
pub struct StandardZil(pub NestZil);

impl StandardZil {
    /// An empty, enabled log.
    pub fn new() -> (z: Self)
        ensures
            z.0.records@ == Seq::<NestZilRecord>::empty(),
            z.0.committed_seq == 0,
            z.0.current_seq == 0,
            z.0.enabled,
            !z.0.syncing,
            !z.0.replaying,
    {
        StandardZil(NestZil::new())
    }

    /// The wrapped log.
    pub fn inner(&self) -> (r: &NestZil)
        ensures
            *r == self.0,
    {
        &self.0
    }
}

impl ZilLog for StandardZil {
    fn init(&mut self)
        ensures
            final(self).0.records@ == Seq::<NestZilRecord>::empty(),
            final(self).0.committed_seq == 0,
            final(self).0.current_seq == 0,
            final(self).0.enabled,
            final(self).0.syncing == old(self).0.syncing,
            final(self).0.replaying == old(self).0.replaying,
    {
        self.0.init();
    }

    fn is_enabled(&self) -> (r: bool)
        ensures
            r == self.0.enabled,
    {
        self.0.enabled
    }

    fn set_enabled(&mut self, enabled: bool)
        ensures
            final(self).0 == (NestZil { enabled, ..old(self).0 }),
    {
        self.0.enabled = enabled;
    }

    fn add_record(&mut self, record: NestZilRecord)
        ensures
            zil_after_add(old(self).0, final(self).0, record),
            final(self).0.committed_seq == old(self).0.committed_seq,
            final(self).0.enabled == old(self).0.enabled,
            final(self).0.syncing == old(self).0.syncing,
            final(self).0.replaying == old(self).0.replaying,
    {
        self.0.add_record(record);
    }

    fn current_seq(&self) -> (r: u64)
        ensures
            r == self.0.current_seq,
    {
        self.0.current_seq
    }

    fn committed_seq(&self) -> (r: u64)
        ensures
            r == self.0.committed_seq,
    {
        self.0.committed_seq
    }

    fn has_uncommitted(&self) -> (r: bool)
        ensures
            r == (self.0.current_seq > self.0.committed_seq),
    {
        self.0.has_uncommitted()
    }

    fn pending_count(&self) -> (n: usize)
        ensures
            n == self.0.records@.len(),
    {
        self.0.pending_count()
    }

    fn commit(&mut self, txg: u64)
        ensures
            final(self).0.records@ == kept_after_commit(old(self).0.records@, txg),
            final(self).0.committed_seq == max_committed_seq(old(self).0.records@, txg),
            final(self).0.current_seq == old(self).0.current_seq,
            final(self).0.enabled == old(self).0.enabled,
            final(self).0.syncing == old(self).0.syncing,
            final(self).0.replaying == old(self).0.replaying,
    {
        self.0.commit(txg);
    }

    fn sync(&mut self, txg: u64)
        ensures
            old(self).0.syncing ==> final(self).0 == old(self).0,
            !old(self).0.syncing ==> {
                &&& final(self).0.records@ == kept_after_commit(old(self).0.records@, txg)
                &&& final(self).0.committed_seq == max_committed_seq(old(self).0.records@, txg)
                &&& final(self).0.current_seq == old(self).0.current_seq
                &&& final(self).0.enabled == old(self).0.enabled
                &&& !final(self).0.syncing
                &&& final(self).0.replaying == old(self).0.replaying
            },
    {
        self.0.sync(txg);
    }

    fn is_syncing(&self) -> (r: bool)
        ensures
            r == self.0.syncing,
    {
        self.0.syncing
    }

    fn replay(&self) -> (r: Vec<NestZilRecord>)
        ensures
            self.0.replaying ==> r@ == Seq::<NestZilRecord>::empty(),
            !self.0.replaying ==> r@ == sort_by_seq(self.0.records@),
    {
        self.0.replay()
    }

    fn log_bp(&self) -> (r: NestBlockPointer)
        ensures
            r == self.0.log_bp,
    {
        self.0.log_bp
    }
}

} // verus!
