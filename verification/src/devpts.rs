//! The pseudo-terminal file system: a fixed table of pty devices, each free
//! or allocated, named `pts/<n>` when allocated.
use crate::bytes_util::{decimal, decimal_digits, lemma_decimal_len, pow10};
use crate::errno::Errno;
use crate::seq_search::{count_where, lemma_count_where_update};
use vstd::prelude::*;

verus! {

/// Capacity of the device table.
pub const MAX_PTY_DEVICES: usize = 256;

/// Longest stored device name, in bytes.
pub const MAX_NAME_LEN: usize = 16;

/// Whether a device slot is in use.
#[derive(Debug, Clone, Copy, PartialEq, Eq, Structural)]
pub enum PtyState {
    Free,
    Allocated,
}

/// A pty device slot.
#[derive(Debug, Clone, Copy)]
pub struct PtyDevice {
    pub id: u32,
    pub state: PtyState,
    pub name: [u8; MAX_NAME_LEN],
    pub name_len: u8,
}

impl PtyDevice {
    /// A free slot with the given id and an empty name.
    pub fn new(id: u32) -> (d: Self)
        ensures
            d.id == id,
            d.state == PtyState::Free,
            d.name_len == 0,
            d.name@ == Seq::new(MAX_NAME_LEN as nat, |i: int| 0u8),
    {
        let d = PtyDevice { id, state: PtyState::Free, name: [0u8; MAX_NAME_LEN], name_len: 0 };
        assert(d.name@ =~= Seq::new(MAX_NAME_LEN as nat, |i: int| 0u8));
        d
    }
}

/// The name of device `i`: `pts/` and its number.
pub open spec fn pty_name(i: nat) -> Seq<u8> {
    seq![112u8, 116u8, 115u8, 47u8] + decimal(i)
}

/// A device is allocated.
pub open spec fn is_allocated() -> spec_fn(PtyDevice) -> bool {
    |d: PtyDevice| d.state == PtyState::Allocated
}

/// Allocated devices in a table.
pub open spec fn allocated_count(ds: Seq<PtyDevice>) -> nat {
    count_where(ds, is_allocated())
}

/// The device table, with the number of allocated devices.
pub struct PtyTable {
    devices: [PtyDevice; MAX_PTY_DEVICES],
    count: u32,
}

impl View for PtyTable {
    type V = Seq<PtyDevice>;

    closed spec fn view(&self) -> Seq<PtyDevice> {
        self.devices@
    }
}

impl PtyTable {
    #[verifier::type_invariant]
    spec fn inv(self) -> bool {
        &&& self.count == allocated_count(self.devices@)
        &&& forall|i: int| 0 <= i < MAX_PTY_DEVICES ==> (#[trigger] self.devices@[i]).name_len as int <= MAX_NAME_LEN
    }

    /// The number of allocated devices as counted.
    pub closed spec fn counted(&self) -> nat {
        self.count as nat
    }

    /// A table of free slots (each with id 0).
    pub fn new() -> (t: Self)
        ensures
            t@.len() == MAX_PTY_DEVICES,
            forall|i: int| 0 <= i < MAX_PTY_DEVICES ==> (#[trigger] t@[i]).state == PtyState::Free
                && t@[i].id == 0 && t@[i].name_len == 0,
            t.counted() == 0,
    {
        let d = PtyDevice::new(0);
        let devices = [d; MAX_PTY_DEVICES];
        proof {
            lemma_none_allocated(devices@);
        }
        PtyTable { devices, count: 0 }
    }

    /// Allocates the first free slot, giving it the slot number as id and
    /// naming it `pts/<slot>`, and returns the slot; `ENOMEM` when every slot
    /// is taken.
    pub fn allocate(&mut self) -> (r: Result<u32, Errno>)
        ensures
            final(self)@.len() == MAX_PTY_DEVICES,
            r is Err ==> r == Err::<u32, Errno>(Errno::ENOMEM) && final(self)@ == old(self)@
                && forall|i: int| 0 <= i < MAX_PTY_DEVICES ==> (#[trigger] old(self)@[i]).state == PtyState::Allocated,
            r matches Ok(id) ==> {
                let i = id as int;
                let od = old(self)@[i];
                let nd = final(self)@[i];
                &&& 0 <= i < MAX_PTY_DEVICES
                &&& od.state == PtyState::Free
                &&& forall|j: int| 0 <= j < i ==> (#[trigger] old(self)@[j]).state == PtyState::Allocated
                &&& nd.state == PtyState::Allocated
                &&& nd.id == id
                &&& nd.name_len as int == pty_name(i as nat).len()
                &&& nd.name@ == pty_name(i as nat) + od.name@.skip(pty_name(i as nat).len() as int)
                &&& forall|j: int| 0 <= j < MAX_PTY_DEVICES && j != i ==> final(self)@[j] == old(self)@[j]
                &&& final(self).counted() == old(self).counted() + 1
            },
    {
        proof {
            use_type_invariant(&*self);
        }
        let mut i: usize = 0;
        while i < MAX_PTY_DEVICES
            invariant
                0 <= i <= MAX_PTY_DEVICES,
                self.devices == old(self).devices,
                self.count == old(self).count,
                self.count == allocated_count(self.devices@),
                forall|j: int| 0 <= j < MAX_PTY_DEVICES ==> (#[trigger] self.devices@[j]).name_len as int <= MAX_NAME_LEN,
                forall|j: int| 0 <= j < i ==> (#[trigger] self.devices@[j]).state == PtyState::Allocated,
            decreases MAX_PTY_DEVICES - i,
        {
            if self.devices[i].state == PtyState::Free {
                let ghost old_devices = self.devices@;
                let mut d = self.devices[i];
                d.state = PtyState::Allocated;
                d.id = i as u32;
                d.name[0] = 112;
                d.name[1] = 116;
                d.name[2] = 115;
                d.name[3] = 47;
                let digits = decimal_digits(i as u64);
                proof {
                    assert(pow10(3) == 1000) by {
                        reveal_with_fuel(pow10, 4);
                    }
                    lemma_decimal_len(i as nat, 3);
                }
                let mut k: usize = 0;
                while k < digits.len()
                    invariant
                        digits@ == decimal(i as nat),
                        digits@.len() <= 3,
                        d.state == PtyState::Allocated,
                        d.id == i,
                        old_devices[i as int].name@.len() == MAX_NAME_LEN,
                        0 <= k <= digits@.len(),
                        d.name@.len() == MAX_NAME_LEN,
                        d.name@.take(4) == seq![112u8, 116u8, 115u8, 47u8],
                        forall|m: int| 0 <= m < k ==> d.name@[4 + m] == digits@[m],
                        forall|m: int| 4 + k <= m < MAX_NAME_LEN ==> d.name@[m] == old_devices[i as int].name@[m],
                    decreases digits@.len() - k,
                {
                    d.name[4 + k] = digits[k];
                    k += 1;
                }
                d.name_len = (4 + k) as u8;
                proof {
                    assert(d.name@ =~= pty_name(i as nat) + old_devices[i as int].name@.skip(pty_name(i as nat).len() as int));
                    assert(is_allocated()(d));
                    assert(!is_allocated()(old_devices[i as int]));
                    lemma_count_where_update(old_devices, i as int, d, is_allocated());
                    assert(allocated_count(old_devices.update(i as int, d)) == allocated_count(old_devices) + 1);
                    crate::seq_search::lemma_count_where_le(old_devices, is_allocated());
                }
                let c = self.count + 1;
                let mut devices = self.devices;
                devices[i] = d;
                proof {
                    assert(devices@ == old_devices.update(i as int, d));
                }
                *self = PtyTable { devices, count: c };
                return Ok(i as u32);
            }
            i += 1;
        }
        Err(Errno::ENOMEM)
    }

    /// Frees device `id`; `EINVAL` when `id` is out of range or free.
    pub fn free(&mut self, id: u32) -> (r: Result<(), Errno>)
        ensures
            final(self)@.len() == MAX_PTY_DEVICES,
            (id as int) >= MAX_PTY_DEVICES || old(self)@[id as int].state == PtyState::Free
                ==> r == Err::<(), Errno>(Errno::EINVAL) && final(self)@ == old(self)@
                && final(self).counted() == old(self).counted(),
            (id as int) < MAX_PTY_DEVICES && old(self)@[id as int].state == PtyState::Allocated ==> {
                &&& r is Ok
                &&& final(self)@ == old(self)@.update(id as int, PtyDevice { state: PtyState::Free, ..old(self)@[id as int] })
                &&& final(self).counted() == old(self).counted() - 1
            },
    {
        proof {
            use_type_invariant(&*self);
        }
        if (id as usize) >= MAX_PTY_DEVICES {
            return Err(Errno::EINVAL);
        }
        let i = id as usize;
        if self.devices[i].state == PtyState::Free {
            return Err(Errno::EINVAL);
        }
        let ghost old_devices = self.devices@;
        let mut d = self.devices[i];
        d.state = PtyState::Free;
        proof {
            assert(!is_allocated()(d));
            assert(is_allocated()(old_devices[i as int]));
            lemma_count_where_update(old_devices, i as int, d, is_allocated());
        }
        let c = self.count - 1;
        let mut devices = self.devices;
        devices[i] = d;
        proof {
            assert(devices@ == old_devices.update(i as int, d));
        }
        *self = PtyTable { devices, count: c };
        Ok(())
    }

    /// Device `id` when it is allocated.
    pub fn get(&self, id: u32) -> (r: Option<&PtyDevice>)
        ensures
            self@.len() == MAX_PTY_DEVICES,
            r is Some <==> (id as int) < MAX_PTY_DEVICES && self@[id as int].state != PtyState::Free,
            r matches Some(d) ==> *d == self@[id as int],
    {
        if (id as usize) >= MAX_PTY_DEVICES {
            return None;
        }
        if self.devices[id as usize].state == PtyState::Free {
            return None;
        }
        Some(&self.devices[id as usize])
    }

    /// Whether device `id` is allocated.
    pub fn slot_exists(&self, id: u32) -> (r: bool)
        ensures
            self@.len() == MAX_PTY_DEVICES,
            r == ((id as int) < MAX_PTY_DEVICES && self@[id as int].state != PtyState::Free),
    {
        (id as usize) < MAX_PTY_DEVICES && self.devices[id as usize].state != PtyState::Free
    }

    /// Number of allocated devices.
    pub fn count(&self) -> (r: u32)
        ensures
            self@.len() == MAX_PTY_DEVICES,
            r == self.counted(),
            r == allocated_count(self@),
    {
        proof {
            use_type_invariant(self);
        }
        self.count
    }
}

/// Every table has exactly `MAX_PTY_DEVICES` slots.
pub proof fn lemma_table_len(t: PtyTable)
    ensures
        t@.len() == MAX_PTY_DEVICES,
{
}

/// Freeing an allocated slot leaves one allocated device fewer, and
/// allocating a free one leaves one more: the count kept by the table stays
/// the number of allocated slots across both.
pub proof fn law_count_tracks_allocation(ds: Seq<PtyDevice>, i: int, d: PtyDevice)
    requires
        0 <= i < ds.len(),
    ensures
        ds[i].state == PtyState::Allocated && d.state == PtyState::Free
            ==> allocated_count(ds.update(i, d)) + 1 == allocated_count(ds),
        ds[i].state == PtyState::Free && d.state == PtyState::Allocated
            ==> allocated_count(ds.update(i, d)) == allocated_count(ds) + 1,
{
    lemma_count_where_update(ds, i, d, is_allocated());
}

/// A table with no allocated slot counts none.
proof fn lemma_none_allocated(ds: Seq<PtyDevice>)
    requires
        forall|i: int| 0 <= i < ds.len() ==> (#[trigger] ds[i]).state == PtyState::Free,
    ensures
        allocated_count(ds) == 0,
    decreases ds.len(),
{
    if ds.len() > 0 {
        lemma_none_allocated(ds.drop_last());
    }
}

/// Allocates a device of `table` (see `PtyTable::allocate`).
pub fn alloc_pty(table: &mut PtyTable) -> (r: Result<u32, Errno>)
    ensures
        r is Err ==> final(table)@ == old(table)@
            && forall|i: int| 0 <= i < MAX_PTY_DEVICES ==> (#[trigger] old(table)@[i]).state == PtyState::Allocated,
        r matches Ok(id) ==> {
            let i = id as int;
            &&& 0 <= i < MAX_PTY_DEVICES
            &&& old(table)@[i].state == PtyState::Free
            &&& forall|j: int| 0 <= j < i ==> (#[trigger] old(table)@[j]).state == PtyState::Allocated
            &&& final(table)@[i].state == PtyState::Allocated
            &&& final(table)@[i].id == id
            &&& final(table)@[i].name@.take(final(table)@[i].name_len as int) == pty_name(i as nat)
            &&& forall|j: int| 0 <= j < MAX_PTY_DEVICES && j != i ==> final(table)@[j] == old(table)@[j]
        },
{
    let r = table.allocate();
    proof {
        if r is Ok {
            let i = r.unwrap() as int;
            let nd = table@[i];
            assert(nd.name@.take(nd.name_len as int) =~= pty_name(i as nat));
        }
    }
    r
}

/// Frees device `id` of `table` (see `PtyTable::free`).
pub fn free_pty(table: &mut PtyTable, id: u32) -> (r: Result<(), Errno>)
    ensures
        (id as int) >= MAX_PTY_DEVICES || old(table)@[id as int].state == PtyState::Free
            ==> r == Err::<(), Errno>(Errno::EINVAL) && final(table)@ == old(table)@,
        (id as int) < MAX_PTY_DEVICES && old(table)@[id as int].state == PtyState::Allocated ==> r is Ok
            && final(table)@ == old(table)@.update(id as int, PtyDevice { state: PtyState::Free, ..old(table)@[id as int] }),
{
    table.free(id)
}

/// A copy of device `id` of `table` when it is allocated.
pub fn get_pty(table: &PtyTable, id: u32) -> (r: Option<PtyDevice>)
    ensures
        r is Some <==> (id as int) < MAX_PTY_DEVICES && table@[id as int].state != PtyState::Free,
        r matches Some(d) ==> d == table@[id as int],
{
    match table.get(id) {
        Some(d) => Some(*d),
        None => None,
    }
}

/// Whether device `id` of `table` is allocated.
pub fn pty_exists(table: &PtyTable, id: u32) -> (r: bool)
    ensures
        r == ((id as int) < MAX_PTY_DEVICES && table@[id as int].state != PtyState::Free),
{
    table.slot_exists(id)
}

/// Number of allocated devices of `table`.
pub fn pty_count(table: &PtyTable) -> (r: u32)
    ensures
        r == allocated_count(table@),
{
    table.count()
}

/// Mounts the file system: every slot free, with its own number as id.
pub fn mount_devpts(table: &mut PtyTable) -> (r: Result<(), Errno>)
    ensures
        r is Ok,
        final(table)@.len() == MAX_PTY_DEVICES,
        forall|i: int| 0 <= i < MAX_PTY_DEVICES ==> (#[trigger] final(table)@[i]).state == PtyState::Free
            && final(table)@[i].id == i && final(table)@[i].name_len == 0,
        final(table).counted() == 0,
{
    let d0 = PtyDevice::new(0);
    let mut devices = [d0; MAX_PTY_DEVICES];
    let mut i: usize = 0;
    while i < MAX_PTY_DEVICES
        invariant
            0 <= i <= MAX_PTY_DEVICES,
            devices@.len() == MAX_PTY_DEVICES,
            forall|j: int| 0 <= j < MAX_PTY_DEVICES ==> (#[trigger] devices@[j]).state == PtyState::Free
                && devices@[j].name_len == 0,
            forall|j: int| 0 <= j < i ==> (#[trigger] devices@[j]).id == j,
        decreases MAX_PTY_DEVICES - i,
    {
        devices[i] = PtyDevice::new(i as u32);
        i += 1;
    }
    proof {
        lemma_none_allocated(devices@);
    }
    *table = PtyTable { devices, count: 0 };
    Ok(())
}

/// Unmounts the file system: the same reset as mounting.
pub fn umount_devpts(table: &mut PtyTable) -> (r: Result<(), Errno>)
    ensures
        r is Ok,
        final(table)@.len() == MAX_PTY_DEVICES,
        forall|i: int| 0 <= i < MAX_PTY_DEVICES ==> (#[trigger] final(table)@[i]).state == PtyState::Free
            && final(table)@[i].id == i && final(table)@[i].name_len == 0,
        final(table).counted() == 0,
{
    mount_devpts(table)
}

} // verus!
