//! Transaction groups: the open / quiescing / syncing pipeline.
//!
//! Three groups are in flight. Dirty and freed blocks and I/O are collected in
//! the open group. A transition completes the syncing group, moves the
//! quiescing group to syncing and the open group to quiescing, and opens a new
//! group numbered after every group seen so far.
use crate::nestfs::bp::NestBlockPointer;
use vstd::prelude::*;

verus! {

/// States of a transaction group.
#[derive(Debug, Clone, Copy, PartialEq, Eq, Structural)]
pub enum NestTxgState {
    Open,
    Quiescing,
    Syncing,
    Committed,
}

/// Kinds of queued I/O.
#[derive(Debug, Clone, Copy, PartialEq, Eq, Structural)]
pub enum NestIoType {
    Read,
    Write,
    Free,
}

/// One queued I/O.
#[derive(Debug, Clone, Copy)]
pub struct NestIo {
    pub bp: NestBlockPointer,
    pub offset: u64,
    pub size: u32,
    pub io_type: NestIoType,
    pub priority: u8,
    pub ready: bool,
}

/// One transaction group.
pub struct NestTxg {
    pub txg_id: u64,
    pub state: NestTxgState,
    pub dirty: Vec<NestBlockPointer>,
    pub frees: Vec<NestBlockPointer>,
    pub ios: Vec<NestIo>,
}

/// `t` is an empty group `id` in state `s`.
pub open spec fn txg_is_empty(t: NestTxg, id: u64, s: NestTxgState) -> bool {
    &&& t.txg_id == id
    &&& t.state == s
    &&& t.dirty@.len() == 0
    &&& t.frees@.len() == 0
    &&& t.ios@.len() == 0
}

impl NestTxg {
    /// An empty group.
    pub fn new(txg_id: u64, state: NestTxgState) -> (t: Self)
        ensures
            txg_is_empty(t, txg_id, state),
    {
        NestTxg { txg_id, state, dirty: Vec::new(), frees: Vec::new(), ios: Vec::new() }
    }
}

/// The pipeline of transaction groups.
pub struct NestTxgGroup {
    pub open: NestTxg,
    pub quiescing: NestTxg,
    pub syncing: NestTxg,
    pub current: u64,
    pub next_txg: u64,
    pub sync_in_progress: bool,
    pub total_syncs: u64,
    pub total_dirty: u64,
}

/// `g` is the pipeline freshly started at `start`.
pub open spec fn group_started(g: NestTxgGroup, start: u64) -> bool {
    &&& txg_is_empty(g.open, start, NestTxgState::Open)
    &&& txg_is_empty(g.quiescing, start.wrapping_add(1), NestTxgState::Quiescing)
    &&& txg_is_empty(g.syncing, start.wrapping_add(2), NestTxgState::Syncing)
    &&& g.current == start
    &&& g.next_txg == start.wrapping_add(3)
    &&& !g.sync_in_progress
    &&& g.total_syncs == 0
    &&& g.total_dirty == 0
}

impl NestTxgGroup {
    /// The pipeline started at txg 0.
    pub fn new() -> (g: Self)
        ensures
            group_started(g, 0),
    {
        NestTxgGroup {
            open: NestTxg::new(0, NestTxgState::Open),
            quiescing: NestTxg::new(1, NestTxgState::Quiescing),
            syncing: NestTxg::new(2, NestTxgState::Syncing),
            current: 0,
            next_txg: 3,
            sync_in_progress: false,
            total_syncs: 0,
            total_dirty: 0,
        }
    }

    /// Restarts the pipeline: open `start`, quiescing `start + 1`, syncing
    /// `start + 2`, counters zero.
    pub fn init(&mut self, start_txg: u64)
        ensures
            group_started(*final(self), start_txg),
    {
        self.open = NestTxg::new(start_txg, NestTxgState::Open);
        self.quiescing = NestTxg::new(start_txg.wrapping_add(1), NestTxgState::Quiescing);
        self.syncing = NestTxg::new(start_txg.wrapping_add(2), NestTxgState::Syncing);
        self.current = start_txg;
        self.next_txg = start_txg.wrapping_add(3);
        self.sync_in_progress = false;
        self.total_syncs = 0;
        self.total_dirty = 0;
    }

    /// Completes the syncing group, advances the other two and opens group
    /// `next_txg`, which becomes the current txg and is returned.
    pub fn transition(&mut self) -> (r: u64)
        ensures
            r == old(self).next_txg,
            final(self).current == old(self).next_txg,
            final(self).next_txg == old(self).next_txg.wrapping_add(1),
            txg_is_empty(final(self).open, old(self).next_txg, NestTxgState::Open),
            final(self).quiescing.txg_id == old(self).open.txg_id,
            final(self).quiescing.state == NestTxgState::Quiescing,
            final(self).quiescing.dirty@ == old(self).open.dirty@,
            final(self).quiescing.frees@ == old(self).open.frees@,
            final(self).quiescing.ios@ == old(self).open.ios@,
            final(self).syncing.txg_id == old(self).quiescing.txg_id,
            final(self).syncing.state == NestTxgState::Syncing,
            final(self).syncing.dirty@ == old(self).quiescing.dirty@,
            final(self).syncing.frees@ == old(self).quiescing.frees@,
            final(self).syncing.ios@ == old(self).quiescing.ios@,
            final(self).total_syncs == old(self).total_syncs.wrapping_add(1),
            final(self).total_dirty == old(self).total_dirty,
            !final(self).sync_in_progress,
    {
        self.sync_in_progress = true;
        let id = self.next_txg;
        let mut fresh = NestTxg::new(id, NestTxgState::Open);
        core::mem::swap(&mut self.open, &mut fresh);
        fresh.state = NestTxgState::Quiescing;
        core::mem::swap(&mut self.quiescing, &mut fresh);
        fresh.state = NestTxgState::Syncing;
        core::mem::swap(&mut self.syncing, &mut fresh);
        self.total_syncs = self.total_syncs.wrapping_add(1);
        self.current = id;
        self.next_txg = id.wrapping_add(1);
        self.sync_in_progress = false;
        id
    }

    /// The current txg.
    pub fn current_txg(&self) -> (r: u64)
        ensures
            r == self.current,
    {
        self.current
    }

    /// The open group.
    pub fn get_open_txg(&self) -> (r: Option<&NestTxg>)
        ensures
            r matches Some(t) && *t == self.open,
            r is Some,
    {
        Some(&self.open)
    }

    /// The syncing group.
    pub fn get_syncing_txg(&self) -> (r: Option<&NestTxg>)
        ensures
            r matches Some(t) && *t == self.syncing,
            r is Some,
    {
        Some(&self.syncing)
    }

    /// Records a dirty block in the open group.
    pub fn add_dirty_to_open(&mut self, bp: NestBlockPointer)
        ensures
            final(self).open.dirty@ == old(self).open.dirty@.push(bp),
            final(self).open.frees@ == old(self).open.frees@,
            final(self).open.ios@ == old(self).open.ios@,
            final(self).open.txg_id == old(self).open.txg_id,
            final(self).open.state == old(self).open.state,
            final(self).total_dirty == old(self).total_dirty.wrapping_add(1),
            final(self).total_syncs == old(self).total_syncs,
            final(self).current == old(self).current,
            final(self).next_txg == old(self).next_txg,
    {
        self.open.dirty.push(bp);
        self.total_dirty = self.total_dirty.wrapping_add(1);
    }

    /// Records a freed block in the open group.
    pub fn add_free_to_open(&mut self, bp: NestBlockPointer)
        ensures
            final(self).open.frees@ == old(self).open.frees@.push(bp),
            final(self).open.dirty@ == old(self).open.dirty@,
            final(self).open.ios@ == old(self).open.ios@,
            final(self).open.txg_id == old(self).open.txg_id,
            final(self).open.state == old(self).open.state,
            final(self).total_dirty == old(self).total_dirty,
            final(self).total_syncs == old(self).total_syncs,
            final(self).current == old(self).current,
            final(self).next_txg == old(self).next_txg,
    {
        self.open.frees.push(bp);
    }

    /// Queues an I/O in the open group.
    pub fn add_io_to_open(&mut self, io: NestIo)
        ensures
            final(self).open.ios@ == old(self).open.ios@.push(io),
            final(self).open.dirty@ == old(self).open.dirty@,
            final(self).open.frees@ == old(self).open.frees@,
            final(self).open.txg_id == old(self).open.txg_id,
            final(self).open.state == old(self).open.state,
            final(self).total_dirty == old(self).total_dirty,
            final(self).total_syncs == old(self).total_syncs,
            final(self).current == old(self).current,
            final(self).next_txg == old(self).next_txg,
    {
        self.open.ios.push(io);
    }
}

} // verus!
