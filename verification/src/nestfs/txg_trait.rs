//! The `TxgManager` interface over transaction-group pipelines, and its
//! standard implementation backed by `NestTxgGroup`.
use crate::nestfs::bp::NestBlockPointer;
use crate::nestfs::txg::{group_started, NestIo, NestTxgGroup, NestTxgState};
use vstd::prelude::*;

verus! {

/// A transaction-group pipeline.
pub trait TxgManager: Send + Sync {
    /// Restarts the pipeline at a txg.
    fn init(&mut self, start_txg: u64);

    /// Advances the pipeline; returns the new current txg.
    fn transition(&mut self) -> u64;

    /// The current txg.
    fn current_txg(&self) -> u64;

    /// Number of the open group.
    fn open_txg_id(&self) -> u64;

    /// Number of the syncing group.
    fn syncing_txg_id(&self) -> u64;

    /// State of the open group.
    fn open_txg_state(&self) -> NestTxgState;

    /// Whether a sync is under way.
    fn is_sync_in_progress(&self) -> bool;

    /// Number of completed syncs.
    fn total_syncs(&self) -> u64;

    /// Number of dirty blocks recorded.
    fn total_dirty(&self) -> u64;

    /// Records a dirty block.
    fn add_dirty_to_open(&mut self, bp: NestBlockPointer);

    /// Records a freed block.
    fn add_free_to_open(&mut self, bp: NestBlockPointer);

    /// Queues an I/O.
    fn add_io_to_open(&mut self, io: NestIo);
}

/// The standard pipeline: a `NestTxgGroup`.
pub struct StandardTxg(pub NestTxgGroup);

impl StandardTxg {
    /// The pipeline started at txg 0.
    pub fn new() -> (t: Self)
        ensures
            group_started(t.0, 0),
    {
        StandardTxg(NestTxgGroup::new())
    }

    /// The wrapped pipeline.
    pub fn inner(&self) -> (r: &NestTxgGroup)
        ensures
            *r == self.0,
    {
        &self.0
    }
}

impl TxgManager for StandardTxg {
    fn init(&mut self, start_txg: u64)
        ensures
            group_started(final(self).0, start_txg),
    {
        self.0.init(start_txg);
    }

    fn transition(&mut self) -> (r: u64)
        ensures
            r == old(self).0.next_txg,
            final(self).0.current == old(self).0.next_txg,
            final(self).0.next_txg == old(self).0.next_txg.wrapping_add(1),
            final(self).0.open.txg_id == old(self).0.next_txg,
            final(self).0.open.state == NestTxgState::Open,
            final(self).0.open.dirty@.len() == 0,
            final(self).0.quiescing.txg_id == old(self).0.open.txg_id,
            final(self).0.syncing.txg_id == old(self).0.quiescing.txg_id,
            final(self).0.total_syncs == old(self).0.total_syncs.wrapping_add(1),
            final(self).0.total_dirty == old(self).0.total_dirty,
            !final(self).0.sync_in_progress,
    {
        self.0.transition()
    }

    fn current_txg(&self) -> (r: u64)
        ensures
            r == self.0.current,
    {
        self.0.current_txg()
    }

    fn open_txg_id(&self) -> (r: u64)
        ensures
            r == self.0.open.txg_id,
    {
        match self.0.get_open_txg() {
            Some(t) => t.txg_id,
            None => 0,
        }
    }

    fn syncing_txg_id(&self) -> (r: u64)
        ensures
            r == self.0.syncing.txg_id,
    {
        match self.0.get_syncing_txg() {
            Some(t) => t.txg_id,
            None => 0,
        }
    }

    fn open_txg_state(&self) -> (r: NestTxgState)
        ensures
            r == self.0.open.state,
    {
        match self.0.get_open_txg() {
            Some(t) => t.state,
            None => NestTxgState::Committed,
        }
    }

    fn is_sync_in_progress(&self) -> (r: bool)
        ensures
            r == self.0.sync_in_progress,
    {
        self.0.sync_in_progress
    }

    fn total_syncs(&self) -> (r: u64)
        ensures
            r == self.0.total_syncs,
    {
        self.0.total_syncs
    }

    fn total_dirty(&self) -> (r: u64)
        ensures
            r == self.0.total_dirty,
    {
        self.0.total_dirty
    }

    fn add_dirty_to_open(&mut self, bp: NestBlockPointer)
        ensures
            final(self).0.open.dirty@ == old(self).0.open.dirty@.push(bp),
            final(self).0.total_dirty == old(self).0.total_dirty.wrapping_add(1),
            final(self).0.total_syncs == old(self).0.total_syncs,
            final(self).0.current == old(self).0.current,
    {
        self.0.add_dirty_to_open(bp);
    }

    fn add_free_to_open(&mut self, bp: NestBlockPointer)
        ensures
            final(self).0.open.frees@ == old(self).0.open.frees@.push(bp),
            final(self).0.total_dirty == old(self).0.total_dirty,
            final(self).0.total_syncs == old(self).0.total_syncs,
            final(self).0.current == old(self).0.current,
    {
        self.0.add_free_to_open(bp);
    }

    fn add_io_to_open(&mut self, io: NestIo)
        ensures
            final(self).0.open.ios@ == old(self).0.open.ios@.push(io),
            final(self).0.total_dirty == old(self).0.total_dirty,
            final(self).0.total_syncs == old(self).0.total_syncs,
            final(self).0.current == old(self).0.current,
    {
        self.0.add_io_to_open(io);
    }
}

} // verus!
