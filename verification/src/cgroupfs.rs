//! The control-group file system: named groups, each tied to a resource
//! controller and holding a few named key/value nodes.
use crate::bytes_util::{
    bytes_eq, copy_into_slice, min_int, overwrite, store_prefix, truncate, utf8_checked,
    utf8_or_empty, utf8_or_empty_spec,
};
use crate::errno::Errno;
use vstd::prelude::*;
use vstd::utf8::valid_utf8;
use vstd::string::StringSliceAdditionalSpecFns;

verus! {

/// Number of controllers.
pub const MAX_CONTROLLERS: usize = 4;

/// Capacity of the group table.
pub const MAX_GROUPS: usize = 32;

/// Longest stored name, in bytes.
pub const MAX_NAME_LEN: usize = 32;

/// Longest stored value, in bytes.
pub const MAX_VALUE_LEN: usize = 64;

/// Nodes per group.
pub const MAX_NODES: usize = 4;

/// A resource controller.
#[derive(Debug, Clone, Copy, PartialEq, Eq, Structural)]
pub enum CgroupController {
    Cpu,
    Memory,
    Io,
    Pids,
}

/// The name of a controller.
pub open spec fn controller_name(c: CgroupController) -> Seq<u8> {
    match c {
        CgroupController::Cpu => "cpu".spec_bytes(),
        CgroupController::Memory => "memory".spec_bytes(),
        CgroupController::Io => "io".spec_bytes(),
        CgroupController::Pids => "pids".spec_bytes(),
    }
}

impl CgroupController {
    /// The controller with this name.
    pub fn from_name(name: &str) -> (r: Option<Self>)
        ensures
            r matches Some(c) ==> controller_name(c) == name.spec_bytes(),
            r is None ==> forall|c: CgroupController| controller_name(c) != name.spec_bytes(),
    {
        let b = name.as_bytes();
        if bytes_eq(b, "cpu".as_bytes()) {
            Some(CgroupController::Cpu)
        } else if bytes_eq(b, "memory".as_bytes()) {
            Some(CgroupController::Memory)
        } else if bytes_eq(b, "io".as_bytes()) {
            Some(CgroupController::Io)
        } else if bytes_eq(b, "pids".as_bytes()) {
            Some(CgroupController::Pids)
        } else {
            proof {
                assert forall|c: CgroupController| controller_name(c) != name.spec_bytes() by {
                    match c {
                        CgroupController::Cpu => {},
                        CgroupController::Memory => {},
                        CgroupController::Io => {},
                        CgroupController::Pids => {},
                    }
                }
            }
            None
        }
    }

    /// The controller's name.
    pub fn name(&self) -> (r: &'static str)
        ensures
            r.spec_bytes() == controller_name(*self),
    {
        match self {
            CgroupController::Cpu => "cpu",
            CgroupController::Memory => "memory",
            CgroupController::Io => "io",
            CgroupController::Pids => "pids",
        }
    }
}

/// A node: a name and a value, each a byte array with a length.
#[derive(Debug, Clone, Copy)]
pub struct CgroupNode {
    pub name: [u8; MAX_NAME_LEN],
    pub name_len: u8,
    pub value: [u8; MAX_VALUE_LEN],
    pub value_len: u8,
}

impl CgroupNode {
    /// Lengths within the arrays.
    pub open spec fn wf(&self) -> bool {
        &&& self.name_len as int <= MAX_NAME_LEN
        &&& self.value_len as int <= MAX_VALUE_LEN
    }

    /// The name as read back (empty when the stored bytes are not UTF-8).
    pub open spec fn name_view(&self) -> Seq<u8> {
        utf8_or_empty_spec(self.name@.take(self.name_len as int))
    }

    /// The value as read back (empty when the stored bytes are not UTF-8).
    pub open spec fn value_view(&self) -> Seq<u8> {
        utf8_or_empty_spec(self.value@.take(self.value_len as int))
    }

    /// An empty node.
    pub fn new() -> (n: Self)
        ensures
            n.wf(),
            n.name_len == 0,
            n.value_len == 0,
            n.name@ == Seq::new(MAX_NAME_LEN as nat, |i: int| 0u8),
            n.value@ == Seq::new(MAX_VALUE_LEN as nat, |i: int| 0u8),
    {
        let n = CgroupNode { name: [0u8; MAX_NAME_LEN], name_len: 0, value: [0u8; MAX_VALUE_LEN], value_len: 0 };
        assert(n.name@ =~= Seq::new(MAX_NAME_LEN as nat, |i: int| 0u8));
        assert(n.value@ =~= Seq::new(MAX_VALUE_LEN as nat, |i: int| 0u8));
        n
    }

    /// Stores the first `MAX_NAME_LEN` bytes of `name`.
    pub fn set_name(&mut self, name: &str)
        ensures
            final(self).name@ == overwrite(old(self).name@, 0, truncate(name.spec_bytes(), MAX_NAME_LEN as int)),
            final(self).name_len as int == min_int(name.spec_bytes().len() as int, MAX_NAME_LEN as int),
            final(self).value@ == old(self).value@,
            final(self).value_len == old(self).value_len,
    {
        let n = store_prefix(&mut self.name, name.as_bytes());
        self.name_len = n as u8;
    }

    /// The stored name.
    pub fn get_name(&self) -> (r: &str)
        requires
            self.wf(),
        ensures
            r.spec_bytes() == self.name_view(),
    {
        let b = crate::bytes_util::slice_prefix(self.name.as_slice(), self.name_len as usize);
        utf8_or_empty(b)
    }

    /// Stores the first `MAX_VALUE_LEN` bytes of `value`.
    pub fn set_value(&mut self, value: &str)
        ensures
            final(self).value@ == overwrite(old(self).value@, 0, truncate(value.spec_bytes(), MAX_VALUE_LEN as int)),
            final(self).value_len as int == min_int(value.spec_bytes().len() as int, MAX_VALUE_LEN as int),
            final(self).name@ == old(self).name@,
            final(self).name_len == old(self).name_len,
    {
        let n = store_prefix(&mut self.value, value.as_bytes());
        self.value_len = n as u8;
    }

    /// The stored value.
    pub fn get_value(&self) -> (r: &str)
        requires
            self.wf(),
        ensures
            r.spec_bytes() == self.value_view(),
    {
        let b = crate::bytes_util::slice_prefix(self.value.as_slice(), self.value_len as usize);
        utf8_or_empty(b)
    }
}

/// A group: a name, its controller and up to `MAX_NODES` nodes.
#[derive(Debug, Clone, Copy)]
pub struct CgroupGroup {
    pub name: [u8; MAX_NAME_LEN],
    pub name_len: u8,
    pub controller: CgroupController,
    pub nodes: [CgroupNode; MAX_NODES],
    pub node_count: u8,
}

/// `n` is the node named `name`.
pub open spec fn node_named(n: CgroupNode, name: Seq<u8>) -> bool {
    n.name_view() == name
}

/// `i` is the first of the first `count` nodes named `name`.
pub open spec fn first_node(nodes: Seq<CgroupNode>, count: int, name: Seq<u8>, i: int) -> bool {
    &&& 0 <= i < count
    &&& node_named(nodes[i], name)
    &&& forall|j: int| 0 <= j < i ==> !node_named(#[trigger] nodes[j], name)
}

/// None of the first `count` nodes is named `name`.
pub open spec fn no_node(nodes: Seq<CgroupNode>, count: int, name: Seq<u8>) -> bool {
    forall|j: int| 0 <= j < count ==> !node_named(#[trigger] nodes[j], name)
}

/// `n` holds exactly `name` and `value`, each followed by zero bytes.
pub open spec fn fresh_node(n: CgroupNode, name: Seq<u8>, value: Seq<u8>) -> bool {
    &&& n.name@ == name + Seq::new((MAX_NAME_LEN - name.len()) as nat, |i: int| 0u8)
    &&& n.name_len as int == name.len()
    &&& n.value@ == value + Seq::new((MAX_VALUE_LEN - value.len()) as nat, |i: int| 0u8)
    &&& n.value_len as int == value.len()
    &&& n.name_view() == name
    &&& n.value_view() == value
}

/// `g` holds just the two nodes a new group of `controller` starts with:
/// `cgroup.controllers`, valued with the controller's name, and an empty
/// `cgroup.procs`.
pub open spec fn default_nodes(g: CgroupGroup, controller: CgroupController) -> bool {
    &&& g.node_count == 2
    &&& fresh_node(g.nodes@[0], "cgroup.controllers".spec_bytes(), controller_name(controller))
    &&& fresh_node(g.nodes@[1], "cgroup.procs".spec_bytes(), Seq::empty())
}

/// A controller's name is at most six bytes long.
proof fn lemma_controller_name_len(c: CgroupController)
    ensures
        controller_name(c).len() <= 6,
{
    match c {
        CgroupController::Cpu => {
            reveal_strlit("cpu");
            vstd::string::is_ascii_spec_bytes("cpu");
        },
        CgroupController::Memory => {
            reveal_strlit("memory");
            vstd::string::is_ascii_spec_bytes("memory");
        },
        CgroupController::Io => {
            reveal_strlit("io");
            vstd::string::is_ascii_spec_bytes("io");
        },
        CgroupController::Pids => {
            reveal_strlit("pids");
            vstd::string::is_ascii_spec_bytes("pids");
        },
    }
}

/// A new node holding `name` and `value`.
fn fresh_node_of(name: &str, value: &str) -> (n: CgroupNode)
    requires
        name.spec_bytes().len() <= MAX_NAME_LEN,
        value.spec_bytes().len() <= MAX_VALUE_LEN,
    ensures
        n.wf(),
        fresh_node(n, name.spec_bytes(), value.spec_bytes()),
{
    let mut n = CgroupNode::new();
    n.set_name(name);
    n.set_value(value);
    proof {
        vstd::utf8::encode_utf8_valid_utf8(name@);
        vstd::utf8::encode_utf8_valid_utf8(value@);
        let nb = name.spec_bytes();
        let vb = value.spec_bytes();
        assert(n.name@ =~= nb + Seq::new((MAX_NAME_LEN - nb.len()) as nat, |i: int| 0u8));
        assert(n.value@ =~= vb + Seq::new((MAX_VALUE_LEN - vb.len()) as nat, |i: int| 0u8));
        assert(n.name@.take(n.name_len as int) =~= nb);
        assert(n.value@.take(n.value_len as int) =~= vb);
    }
    n
}

impl CgroupGroup {
    /// Lengths and counts within the arrays.
    pub open spec fn wf(&self) -> bool {
        &&& self.name_len as int <= MAX_NAME_LEN
        &&& self.node_count as int <= MAX_NODES
        &&& forall|i: int| 0 <= i < MAX_NODES ==> (#[trigger] self.nodes@[i]).wf()
    }

    /// The name as read back (empty when the stored bytes are not UTF-8).
    pub open spec fn name_view(&self) -> Seq<u8> {
        utf8_or_empty_spec(self.name@.take(self.name_len as int))
    }

    /// An empty group of `controller`.
    pub fn new(controller: CgroupController) -> (g: Self)
        ensures
            g.wf(),
            g.name_len == 0,
            g.node_count == 0,
            g.controller == controller,
            g.name@ == Seq::new(MAX_NAME_LEN as nat, |i: int| 0u8),
    {
        let n = CgroupNode::new();
        let g = CgroupGroup {
            name: [0u8; MAX_NAME_LEN],
            name_len: 0,
            controller,
            nodes: [n; MAX_NODES],
            node_count: 0,
        };
        assert(g.name@ =~= Seq::new(MAX_NAME_LEN as nat, |i: int| 0u8));
        g
    }

    /// Stores the first `MAX_NAME_LEN` bytes of `name`.
    pub fn set_name(&mut self, name: &str)
        ensures
            final(self).name@ == overwrite(old(self).name@, 0, truncate(name.spec_bytes(), MAX_NAME_LEN as int)),
            final(self).name_len as int == min_int(name.spec_bytes().len() as int, MAX_NAME_LEN as int),
            final(self).controller == old(self).controller,
            final(self).nodes == old(self).nodes,
            final(self).node_count == old(self).node_count,
    {
        let n = store_prefix(&mut self.name, name.as_bytes());
        self.name_len = n as u8;
    }

    /// The stored name.
    pub fn get_name(&self) -> (r: &str)
        requires
            self.wf(),
        ensures
            r.spec_bytes() == self.name_view(),
    {
        let b = crate::bytes_util::slice_prefix(self.name.as_slice(), self.name_len as usize);
        utf8_or_empty(b)
    }

    /// Appends a node; `ENOMEM` when all node slots are taken.
    pub fn add_node(&mut self, node: CgroupNode) -> (r: Result<(), Errno>)
        requires
            old(self).wf(),
            node.wf(),
        ensures
            final(self).wf(),
            old(self).node_count as int >= MAX_NODES ==> r == Err::<(), Errno>(Errno::ENOMEM) && *final(self) == *old(self),
            (old(self).node_count as int) < MAX_NODES ==> {
                &&& r is Ok
                &&& final(self).node_count == old(self).node_count + 1
                &&& final(self).nodes@ == old(self).nodes@.update(old(self).node_count as int, node)
                &&& final(self).name == old(self).name
                &&& final(self).name_len == old(self).name_len
                &&& final(self).controller == old(self).controller
            },
    {
        if self.node_count as usize >= MAX_NODES {
            return Err(Errno::ENOMEM);
        }
        self.nodes[self.node_count as usize] = node;
        self.node_count = self.node_count + 1;
        Ok(())
    }

    /// Position of the first node named `name`.
    fn node_index(&self, name: &str) -> (r: Option<usize>)
        requires
            self.wf(),
        ensures
            r matches Some(i) ==> first_node(self.nodes@, self.node_count as int, name.spec_bytes(), i as int),
            r is None ==> no_node(self.nodes@, self.node_count as int, name.spec_bytes()),
    {
        let count = self.node_count as usize;
        let mut i: usize = 0;
        while i < count
            invariant
                self.wf(),
                count == self.node_count,
                0 <= i <= count,
                no_node(self.nodes@, i as int, name.spec_bytes()),
            decreases count - i,
        {
            let n = self.nodes[i];
            if bytes_eq(n.get_name().as_bytes(), name.as_bytes()) {
                return Some(i);
            }
            i += 1;
        }
        None
    }

    /// The first node named `name`.
    pub fn find_node(&self, name: &str) -> (r: Option<&CgroupNode>)
        requires
            self.wf(),
        ensures
            r matches Some(n) ==> exists|i: int| first_node(self.nodes@, self.node_count as int, name.spec_bytes(), i)
                && *n == self.nodes@[i],
            r is None ==> no_node(self.nodes@, self.node_count as int, name.spec_bytes()),
    {
        match self.node_index(name) {
            Some(i) => Some(&self.nodes[i]),
            None => None,
        }
    }

    /// Sets the value of the first node named `name`; `ENOENT` when there
    /// is none.
    pub fn update_node(&mut self, name: &str, value: &str) -> (r: Result<(), Errno>)
        requires
            old(self).wf(),
        ensures
            final(self).wf(),
            no_node(old(self).nodes@, old(self).node_count as int, name.spec_bytes())
                ==> r == Err::<(), Errno>(Errno::ENOENT) && *final(self) == *old(self),
            r is Err ==> *final(self) == *old(self),
            forall|i: int| first_node(old(self).nodes@, old(self).node_count as int, name.spec_bytes(), i) ==> {
                let on = old(self).nodes@[i];
                let nn = final(self).nodes@[i];
                &&& r is Ok
                &&& nn.name == on.name && nn.name_len == on.name_len
                &&& nn.value@ == overwrite(on.value@, 0, truncate(value.spec_bytes(), MAX_VALUE_LEN as int))
                &&& nn.value_len as int == min_int(value.spec_bytes().len() as int, MAX_VALUE_LEN as int)
                &&& forall|j: int| 0 <= j < MAX_NODES && j != i ==> final(self).nodes@[j] == old(self).nodes@[j]
                &&& final(self).name == old(self).name && final(self).name_len == old(self).name_len
                &&& final(self).node_count == old(self).node_count
                &&& final(self).controller == old(self).controller
            },
    {
        match self.node_index(name) {
            Some(i) => {
                let mut n = self.nodes[i];
                n.set_value(value);
                self.nodes[i] = n;
                proof {
                    assert forall|k: int| first_node(old(self).nodes@, old(self).node_count as int, name.spec_bytes(), k)
                        implies k == i as int by {
                        if k < i {
                            assert(!node_named(old(self).nodes@[k], name.spec_bytes()));
                        }
                        if k > i {
                            assert(!node_named(old(self).nodes@[i as int], name.spec_bytes()));
                        }
                    }
                }
                Ok(())
            },
            None => Err(Errno::ENOENT),
        }
    }
}

/// The file system: a table of groups, of which the first `group_count`
/// are live.
pub struct CgroupFs {
    pub groups: [CgroupGroup; MAX_GROUPS],
    pub group_count: u32,
}

/// `g` is the group named `name`.
pub open spec fn group_named(g: CgroupGroup, name: Seq<u8>) -> bool {
    g.name_view() == name
}

/// `i` is the first of the first `count` groups named `name`.
pub open spec fn first_group(gs: Seq<CgroupGroup>, count: int, name: Seq<u8>, i: int) -> bool {
    &&& 0 <= i < count
    &&& group_named(gs[i], name)
    &&& forall|j: int| 0 <= j < i ==> !group_named(#[trigger] gs[j], name)
}

/// None of the first `count` groups is named `name`.
pub open spec fn no_group(gs: Seq<CgroupGroup>, count: int, name: Seq<u8>) -> bool {
    forall|j: int| 0 <= j < count ==> !group_named(#[trigger] gs[j], name)
}

impl CgroupFs {
    /// Count within the table; every group well formed.
    pub open spec fn wf(&self) -> bool {
        &&& self.group_count as int <= MAX_GROUPS
        &&& forall|i: int| 0 <= i < MAX_GROUPS ==> (#[trigger] self.groups@[i]).wf()
    }

    /// An empty file system.
    pub fn new() -> (fs: Self)
        ensures
            fs.wf(),
            fs.group_count == 0,
            forall|i: int| 0 <= i < MAX_GROUPS ==> (#[trigger] fs.groups@[i]).name_len == 0
                && fs.groups@[i].node_count == 0 && fs.groups@[i].controller == CgroupController::Cpu,
    {
        let g = CgroupGroup::new(CgroupController::Cpu);
        CgroupFs { groups: [g; MAX_GROUPS], group_count: 0 }
    }

    /// Position of the first group named `name` among the first `limit`.
    fn group_index(&self, name: &str, limit: usize) -> (r: Option<usize>)
        requires
            self.wf(),
            limit <= MAX_GROUPS,
        ensures
            r matches Some(i) ==> first_group(self.groups@, limit as int, name.spec_bytes(), i as int),
            r is None ==> no_group(self.groups@, limit as int, name.spec_bytes()),
    {
        let mut i: usize = 0;
        while i < limit
            invariant
                self.wf(),
                limit <= MAX_GROUPS,
                0 <= i <= limit,
                no_group(self.groups@, i as int, name.spec_bytes()),
            decreases limit - i,
        {
            let g = self.groups[i];
            if bytes_eq(g.get_name().as_bytes(), name.as_bytes()) {
                return Some(i);
            }
            i += 1;
        }
        None
    }

    /// Creates a group named `name` for `controller`, with the nodes
    /// `cgroup.controllers` (valued with the controller's name) and
    /// `cgroup.procs` (empty). `ENOMEM` when the table is full, `EEXIST`
    /// when a live group has that name.
    pub fn create_group(&mut self, name: &str, controller: CgroupController) -> (r: Result<(), Errno>)
        requires
            old(self).wf(),
        ensures
            final(self).wf(),
            old(self).group_count as int >= MAX_GROUPS ==> r == Err::<(), Errno>(Errno::ENOMEM)
                && final(self).groups == old(self).groups && final(self).group_count == old(self).group_count,
            (old(self).group_count as int) < MAX_GROUPS
                && !no_group(old(self).groups@, old(self).group_count as int, name.spec_bytes())
                ==> r == Err::<(), Errno>(Errno::EEXIST)
                && final(self).groups == old(self).groups && final(self).group_count == old(self).group_count,
            (old(self).group_count as int) < MAX_GROUPS
                && no_group(old(self).groups@, old(self).group_count as int, name.spec_bytes()) ==> {
                let k = old(self).group_count as int;
                let og = old(self).groups@[k];
                let g = final(self).groups@[k];
                &&& r is Ok
                &&& final(self).group_count == old(self).group_count + 1
                &&& forall|j: int| 0 <= j < MAX_GROUPS && j != k ==> final(self).groups@[j] == old(self).groups@[j]
                &&& g.name@ == overwrite(og.name@, 0, truncate(name.spec_bytes(), MAX_NAME_LEN as int))
                &&& g.name_len as int == min_int(name.spec_bytes().len() as int, MAX_NAME_LEN as int)
                &&& g.controller == controller
                &&& default_nodes(g, controller)
                &&& g.nodes@[2] == og.nodes@[2] && g.nodes@[3] == og.nodes@[3]
            },
    {
        if self.group_count as usize >= MAX_GROUPS {
            return Err(Errno::ENOMEM);
        }
        let count = self.group_count as usize;
        match self.group_index(name, count) {
            Some(_) => {
                return Err(Errno::EEXIST);
            },
            None => {},
        }
        let mut g = self.groups[count];
        g.set_name(name);
        g.controller = controller;
        g.node_count = 0;
        proof {
            reveal_strlit("cgroup.controllers");
            vstd::string::is_ascii_spec_bytes("cgroup.controllers");
            reveal_strlit("cgroup.procs");
            vstd::string::is_ascii_spec_bytes("cgroup.procs");
            reveal_strlit("");
            lemma_controller_name_len(controller);
        }
        let n0 = fresh_node_of("cgroup.controllers", controller.name());
        let _ = g.add_node(n0);
        let n1 = fresh_node_of("cgroup.procs", "");
        let _ = g.add_node(n1);
        self.groups[count] = g;
        self.group_count = self.group_count + 1;
        Ok(())
    }

    /// Deletes the first live group named `name`, moving the later live
    /// groups down one place; `ENOENT` when there is none.
    pub fn delete_group(&mut self, name: &str) -> (r: Result<(), Errno>)
        requires
            old(self).wf(),
        ensures
            final(self).wf(),
            no_group(old(self).groups@, old(self).group_count as int, name.spec_bytes())
                ==> r == Err::<(), Errno>(Errno::ENOENT)
                && final(self).groups == old(self).groups && final(self).group_count == old(self).group_count,
            forall|i: int| first_group(old(self).groups@, old(self).group_count as int, name.spec_bytes(), i) ==> {
                let c = old(self).group_count as int;
                &&& r is Ok
                &&& final(self).group_count == c - 1
                &&& forall|j: int| 0 <= j < i ==> final(self).groups@[j] == old(self).groups@[j]
                &&& forall|j: int| i <= j < c - 1 ==> final(self).groups@[j] == old(self).groups@[j + 1]
                &&& forall|j: int| c - 1 <= j < MAX_GROUPS ==> final(self).groups@[j] == old(self).groups@[j]
            },
    {
        let count = self.group_count as usize;
        match self.group_index(name, count) {
            Some(i) => {
                let ghost old_groups = self.groups@;
                let mut j: usize = i;
                while j + 1 < count
                    invariant
                        count == old(self).group_count,
                        count <= MAX_GROUPS,
                        i <= j < count,
                        self.group_count == old(self).group_count,
                        self.groups@.len() == MAX_GROUPS,
                        old_groups == old(self).groups@,
                        forall|k: int| 0 <= k < MAX_GROUPS ==> (#[trigger] old_groups[k]).wf(),
                        forall|k: int| 0 <= k < i ==> self.groups@[k] == old_groups[k],
                        forall|k: int| i <= k < j ==> self.groups@[k] == old_groups[k + 1],
                        forall|k: int| j <= k < MAX_GROUPS ==> self.groups@[k] == old_groups[k],
                    decreases count - j,
                {
                    self.groups[j] = self.groups[j + 1];
                    j += 1;
                }
                self.group_count = self.group_count - 1;
                proof {
                    assert forall|k: int| first_group(old_groups, count as int, name.spec_bytes(), k) implies k == i as int by {
                        if k < i {
                            assert(!group_named(old_groups[k], name.spec_bytes()));
                        }
                        if k > i {
                            assert(!group_named(old_groups[i as int], name.spec_bytes()));
                        }
                    }
                    assert forall|k: int| 0 <= k < MAX_GROUPS implies (#[trigger] self.groups@[k]).wf() by {
                        if i <= k < j {
                            assert(old_groups[k + 1].wf());
                        } else {
                            assert(old_groups[k].wf());
                        }
                    }
                }
                Ok(())
            },
            None => Err(Errno::ENOENT),
        }
    }

    /// The first live group named `name`.
    pub fn find_group(&self, name: &str) -> (r: Option<&CgroupGroup>)
        requires
            self.wf(),
        ensures
            r matches Some(g) ==> exists|i: int| first_group(self.groups@, self.group_count as int, name.spec_bytes(), i)
                && *g == self.groups@[i],
            r is None ==> no_group(self.groups@, self.group_count as int, name.spec_bytes()),
    {
        match self.group_index(name, self.group_count as usize) {
            Some(i) => Some(&self.groups[i]),
            None => None,
        }
    }

    /// Copies the value of node `node` of live group `group` to the front of
    /// `buf` and returns its length. `ENOENT` when `group` is empty or names
    /// no live group, or the group has no such node; `EINVAL` when `buf` is
    /// shorter than the value.
    pub fn read_node(&self, group: &str, node: &str, buf: &mut [u8]) -> (r: Result<usize, Errno>)
        requires
            self.wf(),
        ensures
            group.spec_bytes().len() == 0 ==> r == Err::<usize, Errno>(Errno::ENOENT),
            no_group(self.groups@, self.group_count as int, group.spec_bytes()) ==> r == Err::<usize, Errno>(Errno::ENOENT),
            forall|i: int| group.spec_bytes().len() > 0 && first_group(self.groups@, self.group_count as int, group.spec_bytes(), i) ==> {
                let g = self.groups@[i];
                &&& no_node(g.nodes@, g.node_count as int, node.spec_bytes()) ==> r == Err::<usize, Errno>(Errno::ENOENT)
                &&& forall|k: int| first_node(g.nodes@, g.node_count as int, node.spec_bytes(), k) ==> {
                    let v = g.nodes@[k].value_view();
                    &&& old(buf)@.len() < v.len() ==> r == Err::<usize, Errno>(Errno::EINVAL)
                    &&& old(buf)@.len() >= v.len() ==> r == Ok::<usize, Errno>(v.len() as usize)
                        && final(buf)@ == v + old(buf)@.skip(v.len() as int)
                }
            },
            r is Err ==> final(buf)@ == old(buf)@,
    {
        if group.as_bytes().len() == 0 {
            return Err(Errno::ENOENT);
        }
        let gi = match self.group_index(group, self.group_count as usize) {
            Some(i) => i,
            None => {
                return Err(Errno::ENOENT);
            },
        };
        let g = &self.groups[gi];
        let ni = match g.node_index(node) {
            Some(k) => k,
            None => {
                proof {
                    assert forall|i: int| group.spec_bytes().len() > 0 && first_group(self.groups@, self.group_count as int, group.spec_bytes(), i)
                        implies i == gi as int by {
                        if i < gi {
                            assert(!group_named(self.groups@[i], group.spec_bytes()));
                        }
                        if i > gi {
                            assert(!group_named(self.groups@[gi as int], group.spec_bytes()));
                        }
                    }
                }
                return Err(Errno::ENOENT);
            },
        };
        let value = g.nodes[ni].get_value().as_bytes();
        proof {
            assert forall|i: int| group.spec_bytes().len() > 0 && first_group(self.groups@, self.group_count as int, group.spec_bytes(), i)
                implies i == gi as int by {
                if i < gi {
                    assert(!group_named(self.groups@[i], group.spec_bytes()));
                }
                if i > gi {
                    assert(!group_named(self.groups@[gi as int], group.spec_bytes()));
                }
            }
            assert forall|k: int| first_node(g.nodes@, g.node_count as int, node.spec_bytes(), k) implies k == ni as int by {
                if k < ni {
                    assert(!node_named(g.nodes@[k], node.spec_bytes()));
                }
                if k > ni {
                    assert(!node_named(g.nodes@[ni as int], node.spec_bytes()));
                }
            }
        }
        if buf.len() < value.len() {
            return Err(Errno::EINVAL);
        }
        copy_into_slice(buf, value);
        Ok(value.len())
    }

    /// Sets the value of node `node` of live group `group` to `data`.
    /// `ENOENT` when `group` is empty or names no live group, `EINVAL` when
    /// `data` is not UTF-8, `ENOENT` when the group has no such node.
    pub fn write_node(&mut self, group: &str, node: &str, data: &[u8]) -> (r: Result<(), Errno>)
        requires
            old(self).wf(),
        ensures
            final(self).wf(),
            final(self).group_count == old(self).group_count,
            r is Err ==> final(self).groups@ == old(self).groups@,
            group.spec_bytes().len() == 0 ==> r == Err::<(), Errno>(Errno::ENOENT),
            no_group(old(self).groups@, old(self).group_count as int, group.spec_bytes()) ==> r == Err::<(), Errno>(Errno::ENOENT),
            forall|i: int| group.spec_bytes().len() > 0 && first_group(old(self).groups@, old(self).group_count as int, group.spec_bytes(), i) ==> {
                let og = old(self).groups@[i];
                let ng = final(self).groups@[i];
                &&& !valid_utf8(data@) ==> r == Err::<(), Errno>(Errno::EINVAL)
                &&& valid_utf8(data@) && no_node(og.nodes@, og.node_count as int, node.spec_bytes())
                    ==> r == Err::<(), Errno>(Errno::ENOENT)
                &&& forall|j: int| 0 <= j < MAX_GROUPS && j != i ==> final(self).groups@[j] == old(self).groups@[j]
                &&& forall|k: int| valid_utf8(data@) && first_node(og.nodes@, og.node_count as int, node.spec_bytes(), k) ==> {
                    &&& r is Ok
                    &&& ng.nodes@[k].value@ == overwrite(og.nodes@[k].value@, 0, truncate(data@, MAX_VALUE_LEN as int))
                    &&& ng.nodes@[k].value_len as int == min_int(data@.len() as int, MAX_VALUE_LEN as int)
                    &&& ng.nodes@[k].name == og.nodes@[k].name && ng.nodes@[k].name_len == og.nodes@[k].name_len
                    &&& forall|m: int| 0 <= m < MAX_NODES && m != k ==> ng.nodes@[m] == og.nodes@[m]
                    &&& ng.name == og.name && ng.name_len == og.name_len && ng.node_count == og.node_count
                }
            },
    {
        if group.as_bytes().len() == 0 {
            return Err(Errno::ENOENT);
        }
        let gi = match self.group_index(group, self.group_count as usize) {
            Some(i) => i,
            None => {
                return Err(Errno::ENOENT);
            },
        };
        proof {
            assert forall|i: int| group.spec_bytes().len() > 0 && first_group(old(self).groups@, old(self).group_count as int, group.spec_bytes(), i)
                implies i == gi as int by {
                if i < gi {
                    assert(!group_named(old(self).groups@[i], group.spec_bytes()));
                }
                if i > gi {
                    assert(!group_named(old(self).groups@[gi as int], group.spec_bytes()));
                }
            }
        }
        let value = match utf8_checked(data) {
            Some(v) => v,
            None => {
                return Err(Errno::EINVAL);
            },
        };
        let mut g = self.groups[gi];
        let r = g.update_node(node, value);
        self.groups[gi] = g;
        proof {
            if r is Err {
                assert(self.groups@ =~= old(self).groups@);
            }
            assert forall|k: int| 0 <= k < MAX_GROUPS implies (#[trigger] self.groups@[k]).wf() by {
                if k != gi {
                    assert(old(self).groups@[k].wf());
                }
            }
        }
        r
    }
}

/// A name that fits reads back as it was set.
pub proof fn lemma_name_roundtrip(old_name: Seq<u8>, name: Seq<u8>, cap: int)
    requires
        old_name.len() == cap,
        name.len() <= cap,
        valid_utf8(name),
    ensures
        utf8_or_empty_spec(overwrite(old_name, 0, truncate(name, cap)).take(name.len() as int)) == name,
{
    assert(overwrite(old_name, 0, truncate(name, cap)).take(name.len() as int) =~= name);
}

/// Mounts the file system: creates the default group `system` for each
/// controller in turn (only the first succeeds, the name being taken).
pub fn mount_cgroupfs(fs: &mut CgroupFs) -> (r: Result<(), Errno>)
    requires
        old(fs).wf(),
    ensures
        final(fs).wf(),
        r is Ok,
        ({
            let added = (old(fs).group_count as int) < MAX_GROUPS
                && no_group(old(fs).groups@, old(fs).group_count as int, "system".spec_bytes());
            &&& final(fs).group_count == old(fs).group_count + (if added { 1int } else { 0int })
            &&& added ==> final(fs).groups@[old(fs).group_count as int].controller == CgroupController::Cpu
                && group_named(final(fs).groups@[old(fs).group_count as int], "system".spec_bytes())
                && default_nodes(final(fs).groups@[old(fs).group_count as int], CgroupController::Cpu)
            &&& !added ==> final(fs).groups == old(fs).groups
        }),
{
    let ghost start = *fs;
    let _ = fs.create_group("system", CgroupController::Cpu);
    proof {
        let k = start.group_count as int;
        let sys = "system".spec_bytes();
        if (start.group_count as int) < MAX_GROUPS && no_group(start.groups@, k, sys) {
            reveal_strlit("system");
            vstd::string::is_ascii_spec_bytes("system");
            vstd::utf8::encode_utf8_valid_utf8("system"@);
            assert(sys.len() == 6);
            lemma_name_roundtrip(start.groups@[k].name@, sys, MAX_NAME_LEN as int);
            assert(group_named(fs.groups@[k], sys));
            assert(!no_group(fs.groups@, fs.group_count as int, sys));
        }
    }
    let _ = fs.create_group("system", CgroupController::Memory);
    let _ = fs.create_group("system", CgroupController::Io);
    let _ = fs.create_group("system", CgroupController::Pids);
    Ok(())
}

/// Unmounts the file system: forgets every group.
pub fn umount_cgroupfs(fs: &mut CgroupFs) -> (r: Result<(), Errno>)
    requires
        old(fs).wf(),
    ensures
        final(fs).wf(),
        r is Ok,
        final(fs).group_count == 0,
        final(fs).groups == old(fs).groups,
{
    fs.group_count = 0;
    Ok(())
}

} // verus!
