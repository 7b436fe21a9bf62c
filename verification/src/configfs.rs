//! The configuration file system: directories of named, optionally
//! writable, key/value nodes.
use crate::bytes_util::{
    bytes_eq, copy_into_slice, min_int, overwrite, slice_prefix, store_prefix, truncate,
    utf8_checked, utf8_or_empty, utf8_or_empty_spec,
};
use crate::errno::Errno;
use vstd::prelude::*;
use vstd::string::StringSliceAdditionalSpecFns;
use vstd::utf8::valid_utf8;

verus! {

/// Capacity of the directory table.
pub const MAX_DIRS: usize = 32;

/// Longest stored name, in bytes.
pub const MAX_NAME_LEN: usize = 32;

/// Longest stored value, in bytes.
pub const MAX_VALUE_LEN: usize = 128;

/// Nodes per directory.
pub const MAX_NODES: usize = 16;

/// A node: a name, a value and whether it may be written.
#[derive(Debug, Clone, Copy)]
pub struct ConfigNode {
    pub name: [u8; MAX_NAME_LEN],
    pub name_len: u8,
    pub value: [u8; MAX_VALUE_LEN],
    pub value_len: u8,
    pub writable: bool,
}

impl ConfigNode {
    /// Lengths within the arrays.
    pub open spec fn wf(&self) -> bool {
        &&& self.name_len as int <= MAX_NAME_LEN
        &&& self.value_len as int <= MAX_VALUE_LEN
    }

    /// The name as read back (empty when the stored bytes are not UTF-8).
    pub open spec fn name_view(&self) -> Seq<u8> {
        utf8_or_empty_spec(self.name@.take(self.name_len as int))
    }

    /// The value as read back (empty when the stored bytes are not UTF-8).
    pub open spec fn value_view(&self) -> Seq<u8> {
        utf8_or_empty_spec(self.value@.take(self.value_len as int))
    }

    /// An empty, writable node.
    pub fn new() -> (n: Self)
        ensures
            n.wf(),
            n.name_len == 0,
            n.value_len == 0,
            n.writable,
            n.name@ == Seq::new(MAX_NAME_LEN as nat, |i: int| 0u8),
            n.value@ == Seq::new(MAX_VALUE_LEN as nat, |i: int| 0u8),
    {
        let n = ConfigNode {
            name: [0u8; MAX_NAME_LEN],
            name_len: 0,
            value: [0u8; MAX_VALUE_LEN],
            value_len: 0,
            writable: true,
        };
        assert(n.name@ =~= Seq::new(MAX_NAME_LEN as nat, |i: int| 0u8));
        assert(n.value@ =~= Seq::new(MAX_VALUE_LEN as nat, |i: int| 0u8));
        n
    }

    /// Stores the first `MAX_NAME_LEN` bytes of `name`.
    pub fn set_name(&mut self, name: &str)
        ensures
            final(self).name@ == overwrite(old(self).name@, 0, truncate(name.spec_bytes(), MAX_NAME_LEN as int)),
            final(self).name_len as int == min_int(name.spec_bytes().len() as int, MAX_NAME_LEN as int),
            final(self).value@ == old(self).value@,
            final(self).value_len == old(self).value_len,
            final(self).writable == old(self).writable,
    {
        let n = store_prefix(&mut self.name, name.as_bytes());
        self.name_len = n as u8;
    }

    /// The stored name.
    pub fn get_name(&self) -> (r: &str)
        requires
            self.wf(),
        ensures
            r.spec_bytes() == self.name_view(),
    {
        utf8_or_empty(slice_prefix(self.name.as_slice(), self.name_len as usize))
    }

    /// Stores the first `MAX_VALUE_LEN` bytes of `value`.
    pub fn set_value(&mut self, value: &str)
        ensures
            final(self).value@ == overwrite(old(self).value@, 0, truncate(value.spec_bytes(), MAX_VALUE_LEN as int)),
            final(self).value_len as int == min_int(value.spec_bytes().len() as int, MAX_VALUE_LEN as int),
            final(self).name@ == old(self).name@,
            final(self).name_len == old(self).name_len,
            final(self).writable == old(self).writable,
    {
        let n = store_prefix(&mut self.value, value.as_bytes());
        self.value_len = n as u8;
    }

    /// The stored value.
    pub fn get_value(&self) -> (r: &str)
        requires
            self.wf(),
        ensures
            r.spec_bytes() == self.value_view(),
    {
        utf8_or_empty(slice_prefix(self.value.as_slice(), self.value_len as usize))
    }

    /// Copies the value to the front of `buf` and returns its length;
    /// `EINVAL` when `buf` is shorter.
    pub fn read(&self, buf: &mut [u8]) -> (r: Result<usize, Errno>)
        requires
            self.wf(),
        ensures
            old(buf)@.len() < self.value_view().len() ==> r == Err::<usize, Errno>(Errno::EINVAL)
                && final(buf)@ == old(buf)@,
            old(buf)@.len() >= self.value_view().len() ==> r == Ok::<usize, Errno>(self.value_view().len() as usize)
                && final(buf)@ == self.value_view() + old(buf)@.skip(self.value_view().len() as int),
    {
        let value = self.get_value().as_bytes();
        if buf.len() < value.len() {
            return Err(Errno::EINVAL);
        }
        copy_into_slice(buf, value);
        Ok(value.len())
    }

    /// Sets the value to `data`; `EPERM` when the node is read-only,
    /// `EINVAL` when `data` is not UTF-8.
    pub fn write(&mut self, data: &[u8]) -> (r: Result<(), Errno>)
        ensures
            !old(self).writable ==> r == Err::<(), Errno>(Errno::EPERM) && *final(self) == *old(self),
            old(self).writable && !valid_utf8(data@) ==> r == Err::<(), Errno>(Errno::EINVAL) && *final(self) == *old(self),
            old(self).writable && valid_utf8(data@) ==> {
                &&& r is Ok
                &&& final(self).value@ == overwrite(old(self).value@, 0, truncate(data@, MAX_VALUE_LEN as int))
                &&& final(self).value_len as int == min_int(data@.len() as int, MAX_VALUE_LEN as int)
                &&& final(self).name == old(self).name && final(self).name_len == old(self).name_len
                &&& final(self).writable
            },
    {
        if !self.writable {
            return Err(Errno::EPERM);
        }
        let value = match utf8_checked(data) {
            Some(v) => v,
            None => {
                return Err(Errno::EINVAL);
            },
        };
        self.set_value(value);
        Ok(())
    }
}

/// `n` is the node named `name`.
pub open spec fn node_named(n: ConfigNode, name: Seq<u8>) -> bool {
    n.name_view() == name
}

/// `i` is the first of the first `count` nodes named `name`.
pub open spec fn first_node(nodes: Seq<ConfigNode>, count: int, name: Seq<u8>, i: int) -> bool {
    &&& 0 <= i < count
    &&& node_named(nodes[i], name)
    &&& forall|j: int| 0 <= j < i ==> !node_named(#[trigger] nodes[j], name)
}

/// None of the first `count` nodes is named `name`.
pub open spec fn no_node(nodes: Seq<ConfigNode>, count: int, name: Seq<u8>) -> bool {
    forall|j: int| 0 <= j < count ==> !node_named(#[trigger] nodes[j], name)
}

/// A directory: a name and up to `MAX_NODES` nodes.
#[derive(Debug, Clone, Copy)]
pub struct ConfigDir {
    pub name: [u8; MAX_NAME_LEN],
    pub name_len: u8,
    pub nodes: [ConfigNode; MAX_NODES],
    pub node_count: u8,
}

impl ConfigDir {
    /// Lengths and counts within the arrays.
    pub open spec fn wf(&self) -> bool {
        &&& self.name_len as int <= MAX_NAME_LEN
        &&& self.node_count as int <= MAX_NODES
        &&& forall|i: int| 0 <= i < MAX_NODES ==> (#[trigger] self.nodes@[i]).wf()
    }

    /// The name as read back (empty when the stored bytes are not UTF-8).
    pub open spec fn name_view(&self) -> Seq<u8> {
        utf8_or_empty_spec(self.name@.take(self.name_len as int))
    }

    /// An empty directory.
    pub fn new() -> (d: Self)
        ensures
            d.wf(),
            d.name_len == 0,
            d.node_count == 0,
            d.name@ == Seq::new(MAX_NAME_LEN as nat, |i: int| 0u8),
    {
        let n = ConfigNode::new();
        let d = ConfigDir { name: [0u8; MAX_NAME_LEN], name_len: 0, nodes: [n; MAX_NODES], node_count: 0 };
        assert(d.name@ =~= Seq::new(MAX_NAME_LEN as nat, |i: int| 0u8));
        d
    }

    /// Stores the first `MAX_NAME_LEN` bytes of `name`.
    pub fn set_name(&mut self, name: &str)
        ensures
            final(self).name@ == overwrite(old(self).name@, 0, truncate(name.spec_bytes(), MAX_NAME_LEN as int)),
            final(self).name_len as int == min_int(name.spec_bytes().len() as int, MAX_NAME_LEN as int),
            final(self).nodes == old(self).nodes,
            final(self).node_count == old(self).node_count,
    {
        let n = store_prefix(&mut self.name, name.as_bytes());
        self.name_len = n as u8;
    }

    /// The stored name.
    pub fn get_name(&self) -> (r: &str)
        requires
            self.wf(),
        ensures
            r.spec_bytes() == self.name_view(),
    {
        utf8_or_empty(slice_prefix(self.name.as_slice(), self.name_len as usize))
    }

    /// Appends a node; `ENOMEM` when all node slots are taken.
    pub fn add_node(&mut self, node: ConfigNode) -> (r: Result<(), Errno>)
        requires
            old(self).wf(),
            node.wf(),
        ensures
            final(self).wf(),
            old(self).node_count as int >= MAX_NODES ==> r == Err::<(), Errno>(Errno::ENOMEM) && *final(self) == *old(self),
            (old(self).node_count as int) < MAX_NODES ==> {
                &&& r is Ok
                &&& final(self).node_count == old(self).node_count + 1
                &&& final(self).nodes@ == old(self).nodes@.update(old(self).node_count as int, node)
                &&& final(self).name == old(self).name
                &&& final(self).name_len == old(self).name_len
            },
    {
        if self.node_count as usize >= MAX_NODES {
            return Err(Errno::ENOMEM);
        }
        self.nodes[self.node_count as usize] = node;
        self.node_count = self.node_count + 1;
        Ok(())
    }

    /// Position of the first node named `name`.
    fn node_index(&self, name: &str) -> (r: Option<usize>)
        requires
            self.wf(),
        ensures
            r matches Some(i) ==> first_node(self.nodes@, self.node_count as int, name.spec_bytes(), i as int),
            r is None ==> no_node(self.nodes@, self.node_count as int, name.spec_bytes()),
    {
        let count = self.node_count as usize;
        let mut i: usize = 0;
        while i < count
            invariant
                self.wf(),
                count == self.node_count,
                0 <= i <= count,
                no_node(self.nodes@, i as int, name.spec_bytes()),
            decreases count - i,
        {
            let n = self.nodes[i];
            if bytes_eq(n.get_name().as_bytes(), name.as_bytes()) {
                return Some(i);
            }
            i += 1;
        }
        None
    }

    /// The first node named `name`.
    pub fn find_node(&self, name: &str) -> (r: Option<&ConfigNode>)
        requires
            self.wf(),
        ensures
            r matches Some(n) ==> exists|i: int| first_node(self.nodes@, self.node_count as int, name.spec_bytes(), i)
                && *n == self.nodes@[i],
            r is None ==> no_node(self.nodes@, self.node_count as int, name.spec_bytes()),
    {
        match self.node_index(name) {
            Some(i) => Some(&self.nodes[i]),
            None => None,
        }
    }

    /// The first node named `name`, to change in place.
    pub fn find_node_mut(&mut self, name: &str) -> (r: Option<&mut ConfigNode>)
        requires
            old(self).wf(),
        ensures
            r is None ==> no_node(old(self).nodes@, old(self).node_count as int, name.spec_bytes())
                && *final(self) == *old(self),
            r matches Some(n) ==> exists|i: int| first_node(old(self).nodes@, old(self).node_count as int, name.spec_bytes(), i)
                && *n == old(self).nodes@[i]
                && final(self).nodes@ == old(self).nodes@.update(i, *final(n))
                && final(self).name == old(self).name && final(self).name_len == old(self).name_len
                && final(self).node_count == old(self).node_count,
    {
        match self.node_index(name) {
            Some(i) => Some(&mut self.nodes[i]),
            None => None,
        }
    }

    /// Deletes the first node named `name`, moving the later nodes down one
    /// place; `ENOENT` when there is none.
    pub fn delete_node(&mut self, name: &str) -> (r: Result<(), Errno>)
        requires
            old(self).wf(),
        ensures
            final(self).wf(),
            final(self).name == old(self).name && final(self).name_len == old(self).name_len,
            no_node(old(self).nodes@, old(self).node_count as int, name.spec_bytes())
                ==> r == Err::<(), Errno>(Errno::ENOENT) && *final(self) == *old(self),
            forall|i: int| first_node(old(self).nodes@, old(self).node_count as int, name.spec_bytes(), i) ==> {
                let c = old(self).node_count as int;
                &&& r is Ok
                &&& final(self).node_count == c - 1
                &&& forall|j: int| 0 <= j < i ==> final(self).nodes@[j] == old(self).nodes@[j]
                &&& forall|j: int| i <= j < c - 1 ==> final(self).nodes@[j] == old(self).nodes@[j + 1]
                &&& forall|j: int| c - 1 <= j < MAX_NODES ==> final(self).nodes@[j] == old(self).nodes@[j]
            },
    {
        let count = self.node_count as usize;
        match self.node_index(name) {
            Some(i) => {
                let ghost old_nodes = self.nodes@;
                let mut j: usize = i;
                while j + 1 < count
                    invariant
                        count == old(self).node_count,
                        count <= MAX_NODES,
                        i <= j < count,
                        self.node_count == old(self).node_count,
                        self.name == old(self).name,
                        self.name_len == old(self).name_len,
                        self.nodes@.len() == MAX_NODES,
                        old_nodes == old(self).nodes@,
                        forall|k: int| 0 <= k < MAX_NODES ==> (#[trigger] old_nodes[k]).wf(),
                        forall|k: int| 0 <= k < i ==> self.nodes@[k] == old_nodes[k],
                        forall|k: int| i <= k < j ==> self.nodes@[k] == old_nodes[k + 1],
                        forall|k: int| j <= k < MAX_NODES ==> self.nodes@[k] == old_nodes[k],
                    decreases count - j,
                {
                    self.nodes[j] = self.nodes[j + 1];
                    j += 1;
                }
                self.node_count = self.node_count - 1;
                proof {
                    assert forall|k: int| first_node(old_nodes, count as int, name.spec_bytes(), k) implies k == i as int by {
                        if k < i {
                            assert(!node_named(old_nodes[k], name.spec_bytes()));
                        }
                        if k > i {
                            assert(!node_named(old_nodes[i as int], name.spec_bytes()));
                        }
                    }
                    assert forall|k: int| 0 <= k < MAX_NODES implies (#[trigger] self.nodes@[k]).wf() by {
                        if i <= k < j {
                            assert(old_nodes[k + 1].wf());
                        } else {
                            assert(old_nodes[k].wf());
                        }
                    }
                }
                Ok(())
            },
            None => Err(Errno::ENOENT),
        }
    }
}

/// The file system: a table of directories, of which the first
/// `dir_count` are live.
pub struct ConfigFs {
    pub dirs: [ConfigDir; MAX_DIRS],
    pub dir_count: u32,
}

/// `d` is the directory named `name`.
pub open spec fn dir_named(d: ConfigDir, name: Seq<u8>) -> bool {
    d.name_view() == name
}

/// `i` is the first of the first `count` directories named `name`.
pub open spec fn first_dir(ds: Seq<ConfigDir>, count: int, name: Seq<u8>, i: int) -> bool {
    &&& 0 <= i < count
    &&& dir_named(ds[i], name)
    &&& forall|j: int| 0 <= j < i ==> !dir_named(#[trigger] ds[j], name)
}

/// None of the first `count` directories is named `name`.
pub open spec fn no_dir(ds: Seq<ConfigDir>, count: int, name: Seq<u8>) -> bool {
    forall|j: int| 0 <= j < count ==> !dir_named(#[trigger] ds[j], name)
}

impl ConfigFs {
    /// Count within the table; every directory well formed.
    pub open spec fn wf(&self) -> bool {
        &&& self.dir_count as int <= MAX_DIRS
        &&& forall|i: int| 0 <= i < MAX_DIRS ==> (#[trigger] self.dirs@[i]).wf()
    }

    /// An empty file system.
    pub fn new() -> (fs: Self)
        ensures
            fs.wf(),
            fs.dir_count == 0,
            forall|i: int| 0 <= i < MAX_DIRS ==> (#[trigger] fs.dirs@[i]).name_len == 0 && fs.dirs@[i].node_count == 0,
    {
        let d = ConfigDir::new();
        ConfigFs { dirs: [d; MAX_DIRS], dir_count: 0 }
    }

    /// Position of the first live directory named `name`.
    fn dir_index(&self, name: &str) -> (r: Option<usize>)
        requires
            self.wf(),
        ensures
            r matches Some(i) ==> first_dir(self.dirs@, self.dir_count as int, name.spec_bytes(), i as int),
            r is None ==> no_dir(self.dirs@, self.dir_count as int, name.spec_bytes()),
    {
        let count = self.dir_count as usize;
        let mut i: usize = 0;
        while i < count
            invariant
                self.wf(),
                count == self.dir_count,
                0 <= i <= count,
                no_dir(self.dirs@, i as int, name.spec_bytes()),
            decreases count - i,
        {
            let d = self.dirs[i];
            if bytes_eq(d.get_name().as_bytes(), name.as_bytes()) {
                return Some(i);
            }
            i += 1;
        }
        None
    }

    /// Creates a directory named `name` in the next table slot (its nodes
    /// are what the slot held). `ENOMEM` when the table is full, `EEXIST`
    /// when a live directory has that name.
    pub fn create_dir(&mut self, name: &str) -> (r: Result<(), Errno>)
        requires
            old(self).wf(),
        ensures
            final(self).wf(),
            old(self).dir_count as int >= MAX_DIRS ==> r == Err::<(), Errno>(Errno::ENOMEM)
                && final(self).dirs == old(self).dirs && final(self).dir_count == old(self).dir_count,
            (old(self).dir_count as int) < MAX_DIRS && !no_dir(old(self).dirs@, old(self).dir_count as int, name.spec_bytes())
                ==> r == Err::<(), Errno>(Errno::EEXIST)
                && final(self).dirs == old(self).dirs && final(self).dir_count == old(self).dir_count,
            (old(self).dir_count as int) < MAX_DIRS && no_dir(old(self).dirs@, old(self).dir_count as int, name.spec_bytes()) ==> {
                let k = old(self).dir_count as int;
                let od = old(self).dirs@[k];
                let d = final(self).dirs@[k];
                &&& r is Ok
                &&& final(self).dir_count == old(self).dir_count + 1
                &&& forall|j: int| 0 <= j < MAX_DIRS && j != k ==> final(self).dirs@[j] == old(self).dirs@[j]
                &&& d.name@ == overwrite(od.name@, 0, truncate(name.spec_bytes(), MAX_NAME_LEN as int))
                &&& d.name_len as int == min_int(name.spec_bytes().len() as int, MAX_NAME_LEN as int)
                &&& d.nodes == od.nodes && d.node_count == od.node_count
            },
    {
        if self.dir_count as usize >= MAX_DIRS {
            return Err(Errno::ENOMEM);
        }
        match self.dir_index(name) {
            Some(_) => {
                return Err(Errno::EEXIST);
            },
            None => {},
        }
        let idx = self.dir_count as usize;
        let mut d = self.dirs[idx];
        d.set_name(name);
        self.dirs[idx] = d;
        self.dir_count = self.dir_count + 1;
        Ok(())
    }

    /// Deletes the first live directory named `name`, moving the later live
    /// directories down one place; `ENOENT` when there is none.
    pub fn delete_dir(&mut self, name: &str) -> (r: Result<(), Errno>)
        requires
            old(self).wf(),
        ensures
            final(self).wf(),
            no_dir(old(self).dirs@, old(self).dir_count as int, name.spec_bytes())
                ==> r == Err::<(), Errno>(Errno::ENOENT)
                && final(self).dirs == old(self).dirs && final(self).dir_count == old(self).dir_count,
            forall|i: int| first_dir(old(self).dirs@, old(self).dir_count as int, name.spec_bytes(), i) ==> {
                let c = old(self).dir_count as int;
                &&& r is Ok
                &&& final(self).dir_count == c - 1
                &&& forall|j: int| 0 <= j < i ==> final(self).dirs@[j] == old(self).dirs@[j]
                &&& forall|j: int| i <= j < c - 1 ==> final(self).dirs@[j] == old(self).dirs@[j + 1]
                &&& forall|j: int| c - 1 <= j < MAX_DIRS ==> final(self).dirs@[j] == old(self).dirs@[j]
            },
    {
        let count = self.dir_count as usize;
        match self.dir_index(name) {
            Some(i) => {
                let ghost old_dirs = self.dirs@;
                let mut j: usize = i;
                while j + 1 < count
                    invariant
                        count == old(self).dir_count,
                        count <= MAX_DIRS,
                        i <= j < count,
                        self.dir_count == old(self).dir_count,
                        self.dirs@.len() == MAX_DIRS,
                        old_dirs == old(self).dirs@,
                        forall|k: int| 0 <= k < MAX_DIRS ==> (#[trigger] old_dirs[k]).wf(),
                        forall|k: int| 0 <= k < i ==> self.dirs@[k] == old_dirs[k],
                        forall|k: int| i <= k < j ==> self.dirs@[k] == old_dirs[k + 1],
                        forall|k: int| j <= k < MAX_DIRS ==> self.dirs@[k] == old_dirs[k],
                    decreases count - j,
                {
                    self.dirs[j] = self.dirs[j + 1];
                    j += 1;
                }
                self.dir_count = self.dir_count - 1;
                proof {
                    assert forall|k: int| first_dir(old_dirs, count as int, name.spec_bytes(), k) implies k == i as int by {
                        if k < i {
                            assert(!dir_named(old_dirs[k], name.spec_bytes()));
                        }
                        if k > i {
                            assert(!dir_named(old_dirs[i as int], name.spec_bytes()));
                        }
                    }
                    assert forall|k: int| 0 <= k < MAX_DIRS implies (#[trigger] self.dirs@[k]).wf() by {
                        if i <= k < j {
                            assert(old_dirs[k + 1].wf());
                        } else {
                            assert(old_dirs[k].wf());
                        }
                    }
                }
                Ok(())
            },
            None => Err(Errno::ENOENT),
        }
    }

    /// The first live directory named `name`.
    pub fn find_dir(&self, name: &str) -> (r: Option<&ConfigDir>)
        requires
            self.wf(),
        ensures
            r matches Some(d) ==> exists|i: int| first_dir(self.dirs@, self.dir_count as int, name.spec_bytes(), i)
                && *d == self.dirs@[i],
            r is None ==> no_dir(self.dirs@, self.dir_count as int, name.spec_bytes()),
    {
        match self.dir_index(name) {
            Some(i) => Some(&self.dirs[i]),
            None => None,
        }
    }

    /// The first live directory named `name`, to change in place.
    pub fn find_dir_mut(&mut self, name: &str) -> (r: Option<&mut ConfigDir>)
        requires
            old(self).wf(),
        ensures
            r is None ==> no_dir(old(self).dirs@, old(self).dir_count as int, name.spec_bytes())
                && final(self).dirs == old(self).dirs && final(self).dir_count == old(self).dir_count,
            r matches Some(d) ==> exists|i: int| first_dir(old(self).dirs@, old(self).dir_count as int, name.spec_bytes(), i)
                && *d == old(self).dirs@[i]
                && final(self).dirs@ == old(self).dirs@.update(i, *final(d))
                && final(self).dir_count == old(self).dir_count,
    {
        match self.dir_index(name) {
            Some(i) => Some(&mut self.dirs[i]),
            None => None,
        }
    }

    /// Reads node `node` of live directory `dir` into `buf` (see
    /// `ConfigNode::read`); `ENOENT` when either is missing.
    pub fn read_node(&self, dir: &str, node: &str, buf: &mut [u8]) -> (r: Result<usize, Errno>)
        requires
            self.wf(),
        ensures
            no_dir(self.dirs@, self.dir_count as int, dir.spec_bytes()) ==> r == Err::<usize, Errno>(Errno::ENOENT),
            forall|i: int| first_dir(self.dirs@, self.dir_count as int, dir.spec_bytes(), i) ==> {
                let d = self.dirs@[i];
                &&& no_node(d.nodes@, d.node_count as int, node.spec_bytes()) ==> r == Err::<usize, Errno>(Errno::ENOENT)
                &&& forall|k: int| first_node(d.nodes@, d.node_count as int, node.spec_bytes(), k) ==> {
                    let v = d.nodes@[k].value_view();
                    &&& old(buf)@.len() < v.len() ==> r == Err::<usize, Errno>(Errno::EINVAL)
                    &&& old(buf)@.len() >= v.len() ==> r == Ok::<usize, Errno>(v.len() as usize)
                        && final(buf)@ == v + old(buf)@.skip(v.len() as int)
                }
            },
            r is Err ==> final(buf)@ == old(buf)@,
    {
        let di = match self.dir_index(dir) {
            Some(i) => i,
            None => {
                return Err(Errno::ENOENT);
            },
        };
        proof {
            assert forall|i: int| first_dir(self.dirs@, self.dir_count as int, dir.spec_bytes(), i) implies i == di as int by {
                if i < di {
                    assert(!dir_named(self.dirs@[i], dir.spec_bytes()));
                }
                if i > di {
                    assert(!dir_named(self.dirs@[di as int], dir.spec_bytes()));
                }
            }
        }
        let d = &self.dirs[di];
        let ni = match d.node_index(node) {
            Some(k) => k,
            None => {
                return Err(Errno::ENOENT);
            },
        };
        proof {
            assert forall|k: int| first_node(d.nodes@, d.node_count as int, node.spec_bytes(), k) implies k == ni as int by {
                if k < ni {
                    assert(!node_named(d.nodes@[k], node.spec_bytes()));
                }
                if k > ni {
                    assert(!node_named(d.nodes@[ni as int], node.spec_bytes()));
                }
            }
        }
        d.nodes[ni].read(buf)
    }

    /// Writes `data` to node `node` of live directory `dir` (see
    /// `ConfigNode::write`); `ENOENT` when either is missing.
    pub fn write_node(&mut self, dir: &str, node: &str, data: &[u8]) -> (r: Result<(), Errno>)
        requires
            old(self).wf(),
        ensures
            final(self).wf(),
            final(self).dir_count == old(self).dir_count,
            r is Err ==> final(self).dirs@ == old(self).dirs@,
            no_dir(old(self).dirs@, old(self).dir_count as int, dir.spec_bytes()) ==> r == Err::<(), Errno>(Errno::ENOENT),
            forall|i: int| first_dir(old(self).dirs@, old(self).dir_count as int, dir.spec_bytes(), i) ==> {
                let od = old(self).dirs@[i];
                let nd = final(self).dirs@[i];
                &&& no_node(od.nodes@, od.node_count as int, node.spec_bytes()) ==> r == Err::<(), Errno>(Errno::ENOENT)
                &&& forall|j: int| 0 <= j < MAX_DIRS && j != i ==> final(self).dirs@[j] == old(self).dirs@[j]
                &&& forall|k: int| first_node(od.nodes@, od.node_count as int, node.spec_bytes(), k) ==> {
                    let on = od.nodes@[k];
                    let nn = nd.nodes@[k];
                    &&& !on.writable ==> r == Err::<(), Errno>(Errno::EPERM)
                    &&& on.writable && !valid_utf8(data@) ==> r == Err::<(), Errno>(Errno::EINVAL)
                    &&& on.writable && valid_utf8(data@) ==> {
                        &&& r is Ok
                        &&& nn.value@ == overwrite(on.value@, 0, truncate(data@, MAX_VALUE_LEN as int))
                        &&& nn.value_len as int == min_int(data@.len() as int, MAX_VALUE_LEN as int)
                        &&& nn.name == on.name && nn.name_len == on.name_len && nn.writable
                        &&& forall|m: int| 0 <= m < MAX_NODES && m != k ==> nd.nodes@[m] == od.nodes@[m]
                        &&& nd.name == od.name && nd.name_len == od.name_len && nd.node_count == od.node_count
                    }
                }
            },
    {
        let di = match self.dir_index(dir) {
            Some(i) => i,
            None => {
                return Err(Errno::ENOENT);
            },
        };
        proof {
            assert forall|i: int| first_dir(old(self).dirs@, old(self).dir_count as int, dir.spec_bytes(), i) implies i == di as int by {
                if i < di {
                    assert(!dir_named(old(self).dirs@[i], dir.spec_bytes()));
                }
                if i > di {
                    assert(!dir_named(old(self).dirs@[di as int], dir.spec_bytes()));
                }
            }
        }
        let mut d = self.dirs[di];
        let ni = match d.node_index(node) {
            Some(k) => k,
            None => {
                return Err(Errno::ENOENT);
            },
        };
        proof {
            assert forall|k: int| first_node(d.nodes@, d.node_count as int, node.spec_bytes(), k) implies k == ni as int by {
                if k < ni {
                    assert(!node_named(d.nodes@[k], node.spec_bytes()));
                }
                if k > ni {
                    assert(!node_named(d.nodes@[ni as int], node.spec_bytes()));
                }
            }
        }
        let mut n = d.nodes[ni];
        let r = n.write(data);
        d.nodes[ni] = n;
        self.dirs[di] = d;
        proof {
            if r is Err {
                assert(n == old(self).dirs@[di as int].nodes@[ni as int]);
                assert(d.nodes@ =~= old(self).dirs@[di as int].nodes@);
                assert(d.nodes =~= old(self).dirs@[di as int].nodes);
                assert(d == old(self).dirs@[di as int]);
                assert(self.dirs@ =~= old(self).dirs@);
            }
            assert forall|k: int| 0 <= k < MAX_DIRS implies (#[trigger] self.dirs@[k]).wf() by {
                if k != di {
                    assert(old(self).dirs@[k].wf());
                } else {
                    assert forall|m: int| 0 <= m < MAX_NODES implies (#[trigger] d.nodes@[m]).wf() by {
                        if m != ni {
                            assert(old(self).dirs@[di as int].nodes@[m].wf());
                        }
                    }
                }
            }
        }
        r
    }
}

/// A name of at most `MAX_NAME_LEN` bytes reads back as it was stored.
proof fn lemma_dir_name_roundtrip(old_name: Seq<u8>, name: Seq<u8>)
    requires
        old_name.len() == MAX_NAME_LEN,
        name.len() <= MAX_NAME_LEN,
        valid_utf8(name),
    ensures
        utf8_or_empty_spec(overwrite(old_name, 0, truncate(name, MAX_NAME_LEN as int)).take(name.len() as int)) == name,
{
    assert(overwrite(old_name, 0, truncate(name, MAX_NAME_LEN as int)).take(name.len() as int) =~= name);
}

/// Creates directory `name` unless it exists or the table is full.
fn ensure_dir(fs: &mut ConfigFs, name: &str)
    requires
        old(fs).wf(),
        name.spec_bytes().len() <= MAX_NAME_LEN,
    ensures
        final(fs).wf(),
        old(fs).dir_count <= final(fs).dir_count <= old(fs).dir_count + 1,
        forall|j: int| 0 <= j < old(fs).dir_count ==> final(fs).dirs@[j] == old(fs).dirs@[j],
        (old(fs).dir_count as int) < MAX_DIRS || !no_dir(old(fs).dirs@, old(fs).dir_count as int, name.spec_bytes())
            ==> !no_dir(final(fs).dirs@, final(fs).dir_count as int, name.spec_bytes()),
{
    let ghost start = *fs;
    let _ = fs.create_dir(name);
    proof {
        let k = start.dir_count as int;
        let nb = name.spec_bytes();
        if (start.dir_count as int) < MAX_DIRS && no_dir(start.dirs@, k, nb) {
            vstd::utf8::encode_utf8_valid_utf8(name@);
            lemma_dir_name_roundtrip(start.dirs@[k].name@, nb);
            assert(dir_named(fs.dirs@[k], nb));
        } else if !no_dir(start.dirs@, k, nb) {
            let j = choose|j: int| 0 <= j < k && dir_named(#[trigger] start.dirs@[j], nb);
            assert(dir_named(fs.dirs@[j], nb));
        }
    }
}

/// Mounts the file system: creates the default directories `devices`,
/// `modules` and `groups` where they are missing and there is room.
pub fn mount_configfs(fs: &mut ConfigFs) -> (r: Result<(), Errno>)
    requires
        old(fs).wf(),
    ensures
        final(fs).wf(),
        r is Ok,
        old(fs).dir_count <= final(fs).dir_count <= old(fs).dir_count + 3,
        forall|j: int| 0 <= j < old(fs).dir_count ==> final(fs).dirs@[j] == old(fs).dirs@[j],
        old(fs).dir_count + 3 <= MAX_DIRS ==> {
            &&& !no_dir(final(fs).dirs@, final(fs).dir_count as int, "devices".spec_bytes())
            &&& !no_dir(final(fs).dirs@, final(fs).dir_count as int, "modules".spec_bytes())
            &&& !no_dir(final(fs).dirs@, final(fs).dir_count as int, "groups".spec_bytes())
        },
{
    proof {
        reveal_strlit("devices");
        reveal_strlit("modules");
        reveal_strlit("groups");
        vstd::string::is_ascii_spec_bytes("devices");
        vstd::string::is_ascii_spec_bytes("modules");
        vstd::string::is_ascii_spec_bytes("groups");
    }
    let ghost s0 = *fs;
    ensure_dir(fs, "devices");
    let ghost s1 = *fs;
    ensure_dir(fs, "modules");
    let ghost s2 = *fs;
    ensure_dir(fs, "groups");
    proof {
        let d = "devices".spec_bytes();
        let m = "modules".spec_bytes();
        if s0.dir_count + 3 <= MAX_DIRS {
            let j1 = choose|j: int| 0 <= j < s1.dir_count && dir_named(#[trigger] s1.dirs@[j], d);
            assert(dir_named(s2.dirs@[j1], d));
            assert(dir_named(fs.dirs@[j1], d));
            let j2 = choose|j: int| 0 <= j < s2.dir_count && dir_named(#[trigger] s2.dirs@[j], m);
            assert(dir_named(fs.dirs@[j2], m));
        }
    }
    Ok(())
}

/// Unmounts the file system: forgets every directory.
pub fn umount_configfs(fs: &mut ConfigFs) -> (r: Result<(), Errno>)
    requires
        old(fs).wf(),
    ensures
        final(fs).wf(),
        r is Ok,
        final(fs).dir_count == 0,
        final(fs).dirs == old(fs).dirs,
{
    fs.dir_count = 0;
    Ok(())
}

} // verus!
