//! A process's descriptor table: numbered slots, each empty or holding an
//! open file and its close-on-exec flag.
use crate::errno::Errno;
use crate::seq_search::count_where;
use vstd::prelude::*;

verus! {

/// An occupied descriptor slot.
#[derive(Debug, Clone, Copy)]
pub struct FdEntry<F> {
    pub open_file: F,
    pub cloexec: bool,
}

/// `i` is the first empty slot at or after 3.
pub open spec fn first_free<F>(s: Seq<Option<FdEntry<F>>>, i: int) -> bool {
    &&& 3 <= i < s.len()
    &&& s[i] is None
    &&& forall|j: int| 3 <= j < i ==> (#[trigger] s[j]) is Some
}

/// No slot at or after 3 is empty.
pub open spec fn none_free<F>(s: Seq<Option<FdEntry<F>>>) -> bool {
    forall|j: int| 3 <= j < s.len() ==> (#[trigger] s[j]) is Some
}

/// The slots with the close-on-exec flag equal to `flag` emptied.
pub open spec fn drop_where<F>(s: Seq<Option<FdEntry<F>>>, flag: bool) -> Seq<Option<FdEntry<F>>> {
    Seq::new(s.len(), |i: int| if s[i] is Some && s[i].unwrap().cloexec == flag { None } else { s[i] })
}

/// The descriptor table.
pub struct ProcessFdTable<F> {
    entries: Vec<Option<FdEntry<F>>>,
    max_fds: usize,
}

impl<F> ProcessFdTable<F> {
    /// The number of slots the table was made with.
    pub closed spec fn limit(&self) -> nat {
        self.max_fds as nat
    }

    /// The slots.
    pub closed spec fn slots(&self) -> Seq<Option<FdEntry<F>>> {
        self.entries@
    }
}

impl<F: Copy> ProcessFdTable<F> {
    /// A table of `max_fds` empty slots.
    pub fn new(max_fds: usize) -> (t: Self)
        ensures
            t.slots().len() == max_fds,
            t.limit() == max_fds,
            forall|i: int| 0 <= i < max_fds ==> (#[trigger] t.slots()[i]) is None,
    {
        let mut entries: Vec<Option<FdEntry<F>>> = Vec::new();
        let mut i: usize = 0;
        while i < max_fds
            invariant
                0 <= i <= max_fds,
                entries@.len() == i,
                forall|k: int| 0 <= k < i ==> (#[trigger] entries@[k]) is None,
            decreases max_fds - i,
        {
            entries.push(None);
            i += 1;
        }
        ProcessFdTable { entries, max_fds }
    }

    /// A table of 256 empty slots.
    pub fn new_default() -> (t: Self)
        ensures
            t.slots().len() == 256,
            t.limit() == 256,
            forall|i: int| 0 <= i < 256 ==> (#[trigger] t.slots()[i]) is None,
    {
        Self::new(256)
    }

    /// Puts `open_file` in the lowest empty slot from 3 on and returns its
    /// number; `None` when there is none.
    pub fn alloc_fd(&mut self, open_file: F, cloexec: bool) -> (r: Option<u32>)
        ensures
            final(self).limit() == old(self).limit(),
            none_free(old(self).slots()) ==> r is None && final(self).slots() == old(self).slots(),
            forall|i: int| first_free(old(self).slots(), i) ==> r == Some(i as u32)
                && final(self).slots() == old(self).slots().update(i, Some(FdEntry { open_file, cloexec })),
    {
        let mut fd: usize = 3;
        while fd < self.entries.len()
            invariant
                3 <= fd,
                self.entries@ == old(self).entries@,
                self.max_fds == old(self).max_fds,
                forall|j: int| 3 <= j < fd && j < self.entries@.len() ==> (#[trigger] self.entries@[j]) is Some,
            decreases self.entries@.len() - fd,
        {
            if self.entries[fd].is_none() {
                let ghost s = self.entries@;
                self.entries.set(fd, Some(FdEntry { open_file, cloexec }));
                proof {
                    assert forall|i: int| first_free(s, i) implies i == fd as int by {
                        if i < fd {
                            assert(s[i] is Some);
                        }
                        if i > fd {
                            assert(s[fd as int] is None);
                        }
                    }
                }
                return Some(fd as u32);
            }
            fd += 1;
        }
        None
    }

    /// Puts `open_file` in slot `fd`, replacing what was there; `EBADF`
    /// when there is no such slot.
    pub fn alloc_fd_at(&mut self, fd: u32, open_file: F, cloexec: bool) -> (r: Result<u32, Errno>)
        ensures
            final(self).limit() == old(self).limit(),
            (fd as int) >= old(self).slots().len() ==> r == Err::<u32, Errno>(Errno::EBADF)
                && final(self).slots() == old(self).slots(),
            (fd as int) < old(self).slots().len() ==> r == Ok::<u32, Errno>(fd)
                && final(self).slots() == old(self).slots().update(fd as int, Some(FdEntry { open_file, cloexec })),
    {
        let i = fd as usize;
        if i >= self.entries.len() {
            return Err(Errno::EBADF);
        }
        self.entries.set(i, Some(FdEntry { open_file, cloexec }));
        Ok(fd)
    }

    /// The open file in slot `fd`.
    pub fn get_fd(&self, fd: u32) -> (r: Option<F>)
        ensures
            (fd as int) >= self.slots().len() ==> r is None,
            (fd as int) < self.slots().len() ==> r == (match self.slots()[fd as int] {
                Some(e) => Some(e.open_file),
                None => None::<F>,
            }),
    {
        let i = fd as usize;
        if i < self.entries.len() {
            match &self.entries[i] {
                Some(e) => Some(e.open_file),
                None => None,
            }
        } else {
            None
        }
    }

    /// The close-on-exec flag of slot `fd` (false when empty or missing).
    pub fn get_cloexec(&self, fd: u32) -> (r: bool)
        ensures
            r == ((fd as int) < self.slots().len() && self.slots()[fd as int] is Some
                && self.slots()[fd as int].unwrap().cloexec),
    {
        let i = fd as usize;
        if i < self.entries.len() {
            match &self.entries[i] {
                Some(e) => e.cloexec,
                None => false,
            }
        } else {
            false
        }
    }

    /// Empties slot `fd` and returns the open file it held.
    pub fn close_fd(&mut self, fd: u32) -> (r: Option<F>)
        ensures
            final(self).limit() == old(self).limit(),
            (fd as int) >= old(self).slots().len() ==> r is None && final(self).slots() == old(self).slots(),
            (fd as int) < old(self).slots().len() ==> {
                &&& r == (match old(self).slots()[fd as int] {
                    Some(e) => Some(e.open_file),
                    None => None::<F>,
                })
                &&& final(self).slots() == old(self).slots().update(fd as int, None)
            },
    {
        let i = fd as usize;
        if i < self.entries.len() {
            let mut slot: Option<FdEntry<F>> = None;
            self.entries.set_and_swap(i, &mut slot);
            proof {
                assert(self.entries@ =~= old(self).entries@.update(i as int, None));
            }
            match slot {
                Some(e) => Some(e.open_file),
                None => None,
            }
        } else {
            None
        }
    }

    /// Puts the open file of slot `old_fd`, with its flag, in the lowest
    /// empty slot from 3 on; `None` when `old_fd` is empty or missing or
    /// there is no empty slot.
    pub fn dup_fd(&mut self, old_fd: u32) -> (r: Option<u32>)
        ensures
            final(self).limit() == old(self).limit(),
            (old_fd as int) >= old(self).slots().len() || old(self).slots()[old_fd as int] is None
                ==> r is None && final(self).slots() == old(self).slots(),
            (old_fd as int) < old(self).slots().len() && old(self).slots()[old_fd as int] is Some ==> {
                let e = old(self).slots()[old_fd as int].unwrap();
                &&& none_free(old(self).slots()) ==> r is None && final(self).slots() == old(self).slots()
                &&& forall|i: int| first_free(old(self).slots(), i) ==> r == Some(i as u32)
                    && final(self).slots() == old(self).slots().update(i, Some(e))
            },
    {
        let open_file = match self.get_fd(old_fd) {
            Some(f) => f,
            None => {
                return None;
            },
        };
        let cloexec = self.get_cloexec(old_fd);
        self.alloc_fd(open_file, cloexec)
    }

    /// Makes slot `new_fd` hold what slot `old_fd` holds; `EBADF` when
    /// `old_fd` is empty or missing, or `new_fd` is missing. With equal
    /// numbers, only checks that the slot is occupied.
    pub fn dup2_fd(&mut self, old_fd: u32, new_fd: u32) -> (r: Result<u32, Errno>)
        ensures
            final(self).limit() == old(self).limit(),
            old_fd == new_fd ==> final(self).slots() == old(self).slots() && (r == if (new_fd as int) < old(self).slots().len()
                && old(self).slots()[new_fd as int] is Some { Ok::<u32, Errno>(new_fd) } else { Err(Errno::EBADF) }),
            old_fd != new_fd ==> {
                &&& (old_fd as int) >= old(self).slots().len() || old(self).slots()[old_fd as int] is None
                    || (new_fd as int) >= old(self).slots().len()
                    ==> r == Err::<u32, Errno>(Errno::EBADF) && final(self).slots() == old(self).slots()
                &&& (old_fd as int) < old(self).slots().len() && old(self).slots()[old_fd as int] is Some
                    && (new_fd as int) < old(self).slots().len()
                    ==> r == Ok::<u32, Errno>(new_fd)
                    && final(self).slots() == old(self).slots().update(new_fd as int, old(self).slots()[old_fd as int])
            },
    {
        if old_fd == new_fd {
            if (new_fd as usize) < self.entries.len() && self.entries[new_fd as usize].is_some() {
                return Ok(new_fd);
            }
            return Err(Errno::EBADF);
        }
        let open_file = match self.get_fd(old_fd) {
            Some(f) => f,
            None => {
                return Err(Errno::EBADF);
            },
        };
        let cloexec = self.get_cloexec(old_fd);
        self.alloc_fd_at(new_fd, open_file, cloexec)
    }

    /// Empties the slots whose close-on-exec flag is set.
    pub fn close_cloexec_fds(&mut self)
        ensures
            final(self).limit() == old(self).limit(),
            final(self).slots() == drop_where(old(self).slots(), true),
    {
        self.drop_flagged(true);
    }

    /// Empties the slots whose close-on-exec flag is clear.
    pub fn clear_non_cloexec(&mut self)
        ensures
            final(self).limit() == old(self).limit(),
            final(self).slots() == drop_where(old(self).slots(), false),
    {
        self.drop_flagged(false);
    }

    /// Empties the slots whose close-on-exec flag equals `flag`.
    fn drop_flagged(&mut self, flag: bool)
        ensures
            final(self).limit() == old(self).limit(),
            final(self).slots() == drop_where(old(self).slots(), flag),
    {
        let mut i: usize = 0;
        while i < self.entries.len()
            invariant
                0 <= i <= self.entries@.len(),
                self.entries@.len() == old(self).entries@.len(),
                self.max_fds == old(self).max_fds,
                forall|k: int| 0 <= k < i ==> self.entries@[k] == drop_where(old(self).entries@, flag)[k],
                forall|k: int| i <= k < self.entries@.len() ==> self.entries@[k] == old(self).entries@[k],
            decreases self.entries@.len() - i,
        {
            let hit = match &self.entries[i] {
                Some(e) => e.cloexec == flag,
                None => false,
            };
            if hit {
                self.entries.set(i, None);
            }
            i += 1;
        }
        proof {
            assert(self.entries@ =~= drop_where(old(self).entries@, flag));
        }
    }

    /// Number of occupied slots (as a `u32`).
    pub fn used_count(&self) -> (r: u32)
        ensures
            r == count_where(self.slots(), |o: Option<FdEntry<F>>| o is Some) as u32,
    {
        let mut n: usize = 0;
        let mut i: usize = 0;
        while i < self.entries.len()
            invariant
                0 <= i <= self.entries@.len(),
                n == count_where(self.entries@.take(i as int), |o: Option<FdEntry<F>>| o is Some),
                n <= i,
            decreases self.entries@.len() - i,
        {
            proof {
                assert(self.entries@.take(i as int + 1).drop_last() =~= self.entries@.take(i as int));
                assert(self.entries@.take(i as int + 1).last() == self.entries@[i as int]);
            }
            if self.entries[i].is_some() {
                n += 1;
            }
            i += 1;
        }
        proof {
            assert(self.entries@.take(i as int) =~= self.entries@);
        }
        n as u32
    }

    /// Number of slots.
    pub fn max_fds(&self) -> (r: usize)
        ensures
            r == self.limit(),
    {
        self.max_fds
    }
}

} // verus!
