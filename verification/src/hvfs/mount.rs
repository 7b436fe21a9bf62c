//! The decisions of bringing HvFS up: which drives are mounted, formatted
//! or added to the pool and in what order, whether a drive mounts, and
//! whether the root dataset is restored from its recorded image. Scanning,
//! reading and writing drives is the caller's part: the step functions say
//! what to do next and take back what came of it.
use crate::hvfs::dataset::{HvDataset, HvDsState};
use crate::hvfs::metadata::{deserialize_dataset_metadata, inserted_all, meta_header_ok, obj_decoded_at, parse_entries};
use crate::nestfs::bp::{le_u32_at, le_u64_at};
use vstd::prelude::*;

verus! {

/// A discovered drive: its number and the first sector of its partition.
pub type HvDrive = (u8, u32);

/// What bringing HvFS up does next.
#[derive(Debug, Clone, Copy, PartialEq, Eq, Structural)]
pub enum InitAction {
    /// HvFS is already up: nothing is done, the data stays.
    Skip,
    /// No drive: run from memory with the default device, then finish.
    MemoryMode,
    /// Make this drive current and try to mount it; report whether it mounted.
    Mount(u8, u32),
    /// Format this drive as a new pool.
    Format(u8, u32),
    /// Add this drive to the pool as a device.
    AddVdev(u8, u32),
    /// Make this, the first drive, current again.
    RestorePrimary(u8, u32),
    /// Set up the datasets and mark HvFS up.
    Finish,
    /// Nothing more to do.
    Idle,
}

/// What the caller reports back.
#[derive(Debug, Clone, Copy, PartialEq, Eq, Structural)]
pub enum InitEvent {
    /// Whether the drive tried mounted.
    Mounted(bool),
    /// The action is done.
    Done,
}

/// Where bringing HvFS up stands.
#[derive(Debug, Clone, Copy, PartialEq, Eq, Structural)]
pub enum InitPhase {
    Mounting,
    Formatting,
    Adding,
    Restoring,
    Memory,
    Finished,
}

/// The drives found, the one being handled, whether any mounted, and the
/// phase.
#[derive(Debug, Clone)]
pub struct InitState {
    pub drives: Vec<HvDrive>,
    pub index: usize,
    pub mounted_any: bool,
    pub phase: InitPhase,
}

impl InitState {
    /// The drive being handled is one of those found.
    pub open spec fn wf(&self) -> bool {
        match self.phase {
            InitPhase::Mounting => self.index < self.drives@.len(),
            InitPhase::Adding => self.index < self.drives@.len(),
            InitPhase::Formatting => self.drives@.len() > 0,
            InitPhase::Restoring => self.drives@.len() > 0,
            _ => true,
        }
    }

    /// The report the state waits for.
    pub open spec fn expects(&self, ev: InitEvent) -> bool {
        match self.phase {
            InitPhase::Mounting => ev is Mounted,
            InitPhase::Finished => false,
            _ => ev is Done,
        }
    }
}

/// The action for drive `d`.
pub open spec fn mount_of(d: HvDrive) -> InitAction {
    InitAction::Mount(d.0, d.1)
}

/// The step once every drive was tried: the first drive made current again
/// when one mounted, else the first drive formatted.
pub open spec fn after_mounts(drives: Seq<HvDrive>, mounted_any: bool, ns: InitState, a: InitAction) -> bool {
    if mounted_any {
        a == InitAction::RestorePrimary(drives[0].0, drives[0].1) && ns.phase == InitPhase::Restoring
    } else {
        a == InitAction::Format(drives[0].0, drives[0].1) && ns.phase == InitPhase::Formatting
    }
}

/// The step after drive `i` was handled while adding devices: the next
/// drive added, or the first drive made current again after the last.
pub open spec fn add_from(drives: Seq<HvDrive>, i: int, ns: InitState, a: InitAction) -> bool {
    if i < drives.len() {
        a == InitAction::AddVdev(drives[i].0, drives[i].1) && ns.phase == InitPhase::Adding && ns.index == i
    } else {
        a == InitAction::RestorePrimary(drives[0].0, drives[0].1) && ns.phase == InitPhase::Restoring
    }
}

/// Starts bringing HvFS up with the drives found: skipped when already up,
/// memory mode without drives, else the first drive is tried.
pub fn init_begin(initialized: bool, drives: Vec<HvDrive>) -> (r: (InitState, InitAction))
    ensures
        r.0.wf(),
        r.0.drives@ == drives@,
        initialized ==> r.1 == InitAction::Skip && r.0.phase == InitPhase::Finished,
        !initialized && drives@.len() == 0 ==> r.1 == InitAction::MemoryMode && r.0.phase == InitPhase::Memory,
        !initialized && drives@.len() > 0 ==> r.1 == mount_of(drives@[0]) && r.0.phase == InitPhase::Mounting
            && r.0.index == 0 && !r.0.mounted_any,
{
    if initialized {
        return (InitState { drives, index: 0, mounted_any: false, phase: InitPhase::Finished }, InitAction::Skip);
    }
    if drives.len() == 0 {
        return (InitState { drives, index: 0, mounted_any: false, phase: InitPhase::Memory }, InitAction::MemoryMode);
    }
    let (d, p) = drives[0];
    (InitState { drives, index: 0, mounted_any: false, phase: InitPhase::Mounting }, InitAction::Mount(d, p))
}

/// Whether `st` waits for `ev`.
pub fn init_expects(st: &InitState, ev: InitEvent) -> (r: bool)
    ensures
        r == st.expects(ev),
{
    match (st.phase, ev) {
        (InitPhase::Mounting, InitEvent::Mounted(_)) => true,
        (InitPhase::Mounting, _) => false,
        (InitPhase::Finished, _) => false,
        (_, InitEvent::Done) => true,
        _ => false,
    }
}

/// The next step on report `ev`: every drive is tried in turn; if none
/// mounted the first is formatted and the others are added as devices;
/// with drives, the first is made current again at the end; then HvFS is
/// finished.
pub fn init_step(st: InitState, ev: InitEvent) -> (r: (InitState, InitAction))
    requires
        st.wf(),
        st.expects(ev),
    ensures
        r.0.wf(),
        r.0.drives@ == st.drives@,
        (st.phase == InitPhase::Mounting && ev matches InitEvent::Mounted(ok)) ==> ({
            let any = st.mounted_any || ev->Mounted_0;
            &&& r.0.mounted_any == any
            &&& st.index + 1 < st.drives@.len() ==> r.1 == mount_of(st.drives@[st.index + 1])
                && r.0.phase == InitPhase::Mounting && r.0.index == st.index + 1
            &&& st.index + 1 >= st.drives@.len() ==> after_mounts(st.drives@, any, r.0, r.1)
        }),
        st.phase == InitPhase::Formatting ==> add_from(st.drives@, 1, r.0, r.1),
        st.phase == InitPhase::Adding ==> add_from(st.drives@, st.index + 1, r.0, r.1),
        st.phase == InitPhase::Restoring || st.phase == InitPhase::Memory
            ==> r.1 == InitAction::Finish && r.0.phase == InitPhase::Finished,
{
    let ghost s0 = st;
    let InitState { drives, index, mounted_any, phase } = st;
    proof {
        assert(s0.phase == phase && s0.index == index && s0.drives == drives);
    }
    let n = drives.len();
    match phase {
        InitPhase::Mounting => {
            let ok = match ev {
                InitEvent::Mounted(b) => b,
                InitEvent::Done => false,
            };
            let any = mounted_any || ok;
            if index + 1 < drives.len() {
                let (d, p) = drives[index + 1];
                (InitState { drives, index: index + 1, mounted_any: any, phase: InitPhase::Mounting }, InitAction::Mount(d, p))
            } else if any {
                let (d, p) = drives[0];
                (InitState { drives, index, mounted_any: any, phase: InitPhase::Restoring }, InitAction::RestorePrimary(d, p))
            } else {
                let (d, p) = drives[0];
                (InitState { drives, index, mounted_any: any, phase: InitPhase::Formatting }, InitAction::Format(d, p))
            }
        },
        InitPhase::Formatting => add_next(drives, 1, mounted_any),
        InitPhase::Adding => add_next(drives, index + 1, mounted_any),
        InitPhase::Restoring | InitPhase::Memory => {
            (InitState { drives, index, mounted_any, phase: InitPhase::Finished }, InitAction::Finish)
        },
        InitPhase::Finished => (InitState { drives, index, mounted_any, phase: InitPhase::Finished }, InitAction::Idle),
    }
}

/// The step that adds drive `i` as a device, or makes the first drive
/// current again after the last.
fn add_next(drives: Vec<HvDrive>, i: usize, mounted_any: bool) -> (r: (InitState, InitAction))
    requires
        drives@.len() > 0,
        i <= drives@.len(),
    ensures
        r.0.wf(),
        r.0.drives@ == drives@,
        add_from(drives@, i as int, r.0, r.1),
{
    if i < drives.len() {
        let (d, p) = drives[i];
        (InitState { drives, index: i, mounted_any, phase: InitPhase::Adding }, InitAction::AddVdev(d, p))
    } else {
        let (d, p) = drives[0];
        (InitState { drives, index: i, mounted_any, phase: InitPhase::Restoring }, InitAction::RestorePrimary(d, p))
    }
}

/// Whether a drive mounts.
#[derive(Debug, Clone, Copy, PartialEq, Eq, Structural)]
pub enum MountDecision {
    /// The drive is not present.
    NoDrive,
    /// The drive holds no valid uberblock.
    NoUberblock,
    /// Mount it, with the pool at the uberblock's transaction group.
    Mount { txg: u64 },
}

/// Whether a drive mounts, given whether it is present and the transaction
/// group of the valid uberblock read from it, if any.
pub fn mount_decide(present: bool, uberblock_txg: Option<u64>) -> (r: MountDecision)
    ensures
        !present ==> r == MountDecision::NoDrive,
        present && uberblock_txg is None ==> r == MountDecision::NoUberblock,
        present && uberblock_txg is Some ==> r == (MountDecision::Mount { txg: uberblock_txg->0 }),
{
    if !present {
        return MountDecision::NoDrive;
    }
    match uberblock_txg {
        None => MountDecision::NoUberblock,
        Some(txg) => MountDecision::Mount { txg },
    }
}

/// The root dataset once the recorded image `image` was read from the root
/// block pointer (`None` when the pointer is null or the read failed): when
/// the image restores completely it is what `deserialize_dataset_metadata`
/// makes of the dataset; otherwise the dataset is initialized afresh.
pub open spec fn restores(image: Option<Seq<u8>>) -> bool {
    image is Some && meta_header_ok(image->0) && parse_entries(image->0, 32 + 202 * le_u32_at(image->0, 8) as int,
        le_u32_at(image->0, 12) as nat).1
}

/// Restores the root dataset `ds` at mount from the image recorded under
/// the root block pointer; a null pointer, a failed read (`image` is
/// `None`) or an image that does not restore completely leaves a freshly
/// initialized dataset. Returns whether the image restored it.
pub fn mount_restore(ds: &mut HvDataset, root_bp_null: bool, image: Option<&[u8]>) -> (restored: bool)
    ensures
        restored == (!root_bp_null && restores(match image { Some(b) => Some(b@), None => None })),
        restored ==> ({
            let b = image->0@;
            let n = le_u32_at(b, 8) as int;
            &&& final(ds).objset.objects@.len() == n
            &&& forall|i: int| 0 <= i < n ==> obj_decoded_at(#[trigger] final(ds).objset.objects@[i], b, 32 + 202 * i)
            &&& final(ds).objset.next_obj_id == le_u64_at(b, 16)
            &&& final(ds).dir_zap@ == inserted_all(old(ds).dir_zap.capacity as int,
                parse_entries(b, 32 + 202 * n, le_u32_at(b, 12) as nat).0)
            &&& final(ds).state == old(ds).state
        }),
        !restored ==> final(ds).state == HvDsState::Active && final(ds).mounted && final(ds).objset.initialized
            && final(ds).objset.objects@.len() == 2,
{
    if root_bp_null {
        ds.init(0);
        return false;
    }
    match image {
        Some(b) => {
            if deserialize_dataset_metadata(ds, b) {
                true
            } else {
                ds.init(0);
                false
            }
        },
        None => {
            ds.init(0);
            false
        },
    }
}

} // verus!
