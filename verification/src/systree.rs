//! The system tree: a table of named nodes, each with a parent and up to
//! `MAX_ATTRS` named attributes served by handlers the caller registers.
use crate::bytes_util::{
    bytes_eq, copy_into_slice, find_nul, format_spec, format_u64, min_int, overwrite, slice_prefix,
    slice_range, store_prefix, truncate, until_nul, utf8_checked, utf8_or_empty, utf8_or_empty_spec,
};
use crate::errno::Errno;
use vstd::prelude::*;
use vstd::string::StringSliceAdditionalSpecFns;
use vstd::utf8::valid_utf8;

verus! {

/// Capacity of a tree table.
pub const MAX_TREES: usize = 8;

/// Capacity of the node table.
pub const MAX_NODES: usize = 256;

/// Attributes per node.
pub const MAX_ATTRS: usize = 16;

/// Longest stored name, in bytes.
pub const MAX_NAME_LEN: usize = 32;

/// Longest attribute value, in bytes.
pub const MAX_VALUE_LEN: usize = 128;

/// An attribute: its name, permission bits and the numbers of its read and
/// write handlers (registered by the caller).
#[derive(Debug, Clone, Copy)]
pub struct SystreeAttr {
    pub name: [u8; MAX_NAME_LEN],
    pub name_len: u8,
    pub perm: u16,
    pub read_fn: Option<u32>,
    pub write_fn: Option<u32>,
}

impl SystreeAttr {
    /// Name length within the array.
    pub open spec fn wf(&self) -> bool {
        self.name_len as int <= MAX_NAME_LEN
    }

    /// The name as read back (empty when the stored bytes are not UTF-8).
    pub open spec fn name_view(&self) -> Seq<u8> {
        utf8_or_empty_spec(self.name@.take(self.name_len as int))
    }

    /// An unnamed attribute, mode 0644, without handlers.
    pub fn new() -> (a: Self)
        ensures
            a.wf(),
            a.name_len == 0,
            a.perm == 0o644,
            a.read_fn is None && a.write_fn is None,
    {
        SystreeAttr { name: [0u8; MAX_NAME_LEN], name_len: 0, perm: 0o644, read_fn: None, write_fn: None }
    }

    /// Stores the first `MAX_NAME_LEN` bytes of `name`.
    pub fn set_name(&mut self, name: &str)
        ensures
            final(self).name@ == overwrite(old(self).name@, 0, truncate(name.spec_bytes(), MAX_NAME_LEN as int)),
            final(self).name_len as int == min_int(name.spec_bytes().len() as int, MAX_NAME_LEN as int),
            final(self).perm == old(self).perm,
            final(self).read_fn == old(self).read_fn && final(self).write_fn == old(self).write_fn,
    {
        let n = store_prefix(&mut self.name, name.as_bytes());
        self.name_len = n as u8;
    }

    /// The stored name.
    pub fn get_name(&self) -> (r: &str)
        requires
            self.wf(),
        ensures
            r.spec_bytes() == self.name_view(),
    {
        utf8_or_empty(slice_prefix(self.name.as_slice(), self.name_len as usize))
    }
}

/// `a` is the attribute named `name`.
pub open spec fn attr_named(a: SystreeAttr, name: Seq<u8>) -> bool {
    a.name_view() == name
}

/// `i` is the first of the first `count` attributes named `name`.
pub open spec fn first_attr(attrs: Seq<SystreeAttr>, count: int, name: Seq<u8>, i: int) -> bool {
    &&& 0 <= i < count
    &&& attr_named(attrs[i], name)
    &&& forall|j: int| 0 <= j < i ==> !attr_named(#[trigger] attrs[j], name)
}

/// None of the first `count` attributes is named `name`.
pub open spec fn no_attr(attrs: Seq<SystreeAttr>, count: int, name: Seq<u8>) -> bool {
    forall|j: int| 0 <= j < count ==> !attr_named(#[trigger] attrs[j], name)
}

/// A node: its id, its parent's id, its name and its attributes.
#[derive(Debug, Clone, Copy)]
pub struct SystreeNode {
    pub id: u32,
    pub parent_id: u32,
    pub name: [u8; MAX_NAME_LEN],
    pub name_len: u8,
    pub attrs: [SystreeAttr; MAX_ATTRS],
    pub attr_count: u8,
}

impl SystreeNode {
    /// Lengths and counts within the arrays.
    pub open spec fn wf(&self) -> bool {
        &&& self.name_len as int <= MAX_NAME_LEN
        &&& self.attr_count as int <= MAX_ATTRS
        &&& forall|i: int| 0 <= i < MAX_ATTRS ==> (#[trigger] self.attrs@[i]).wf()
    }

    /// The name as read back (empty when the stored bytes are not UTF-8).
    pub open spec fn name_view(&self) -> Seq<u8> {
        utf8_or_empty_spec(self.name@.take(self.name_len as int))
    }

    /// An unnamed node without attributes.
    pub fn new(id: u32, parent_id: u32) -> (n: Self)
        ensures
            n.wf(),
            n.id == id && n.parent_id == parent_id,
            n.name_len == 0 && n.attr_count == 0,
            n.name@ == Seq::new(MAX_NAME_LEN as nat, |i: int| 0u8),
    {
        let a = SystreeAttr::new();
        let n = SystreeNode {
            id,
            parent_id,
            name: [0u8; MAX_NAME_LEN],
            name_len: 0,
            attrs: [a; MAX_ATTRS],
            attr_count: 0,
        };
        assert(n.name@ =~= Seq::new(MAX_NAME_LEN as nat, |i: int| 0u8));
        n
    }

    /// Stores the first `MAX_NAME_LEN` bytes of `name`.
    pub fn set_name(&mut self, name: &str)
        ensures
            final(self).name@ == overwrite(old(self).name@, 0, truncate(name.spec_bytes(), MAX_NAME_LEN as int)),
            final(self).name_len as int == min_int(name.spec_bytes().len() as int, MAX_NAME_LEN as int),
            final(self).id == old(self).id && final(self).parent_id == old(self).parent_id,
            final(self).attrs == old(self).attrs && final(self).attr_count == old(self).attr_count,
    {
        let n = store_prefix(&mut self.name, name.as_bytes());
        self.name_len = n as u8;
    }

    /// The stored name.
    pub fn get_name(&self) -> (r: &str)
        requires
            self.wf(),
        ensures
            r.spec_bytes() == self.name_view(),
    {
        utf8_or_empty(slice_prefix(self.name.as_slice(), self.name_len as usize))
    }

    /// Appends an attribute; `ENOMEM` when all attribute slots are taken.
    pub fn add_attr(&mut self, attr: SystreeAttr) -> (r: Result<(), Errno>)
        requires
            old(self).wf(),
            attr.wf(),
        ensures
            final(self).wf(),
            old(self).attr_count as int >= MAX_ATTRS ==> r == Err::<(), Errno>(Errno::ENOMEM) && *final(self) == *old(self),
            (old(self).attr_count as int) < MAX_ATTRS ==> {
                &&& r is Ok
                &&& final(self).attr_count == old(self).attr_count + 1
                &&& final(self).attrs@ == old(self).attrs@.update(old(self).attr_count as int, attr)
                &&& final(self).id == old(self).id && final(self).parent_id == old(self).parent_id
                &&& final(self).name == old(self).name && final(self).name_len == old(self).name_len
            },
    {
        if self.attr_count as usize >= MAX_ATTRS {
            return Err(Errno::ENOMEM);
        }
        self.attrs[self.attr_count as usize] = attr;
        self.attr_count = self.attr_count + 1;
        Ok(())
    }

    /// Position of the first attribute named `name`.
    fn attr_index(&self, name: &str) -> (r: Option<usize>)
        requires
            self.wf(),
        ensures
            r matches Some(i) ==> first_attr(self.attrs@, self.attr_count as int, name.spec_bytes(), i as int),
            r is None ==> no_attr(self.attrs@, self.attr_count as int, name.spec_bytes()),
    {
        let count = self.attr_count as usize;
        let mut i: usize = 0;
        while i < count
            invariant
                self.wf(),
                count == self.attr_count,
                0 <= i <= count,
                no_attr(self.attrs@, i as int, name.spec_bytes()),
            decreases count - i,
        {
            let a = self.attrs[i];
            if bytes_eq(a.get_name().as_bytes(), name.as_bytes()) {
                return Some(i);
            }
            i += 1;
        }
        None
    }

    /// The first attribute named `name`.
    pub fn find_attr(&self, name: &str) -> (r: Option<&SystreeAttr>)
        requires
            self.wf(),
        ensures
            r matches Some(a) ==> exists|i: int| first_attr(self.attrs@, self.attr_count as int, name.spec_bytes(), i)
                && *a == self.attrs@[i],
            r is None ==> no_attr(self.attrs@, self.attr_count as int, name.spec_bytes()),
    {
        match self.attr_index(name) {
            Some(i) => Some(&self.attrs[i]),
            None => None,
        }
    }

    /// The first attribute named `name`, to change in place.
    pub fn find_attr_mut(&mut self, name: &str) -> (r: Option<&mut SystreeAttr>)
        requires
            old(self).wf(),
        ensures
            r is None ==> no_attr(old(self).attrs@, old(self).attr_count as int, name.spec_bytes())
                && *final(self) == *old(self),
            r matches Some(a) ==> exists|i: int| first_attr(old(self).attrs@, old(self).attr_count as int, name.spec_bytes(), i)
                && *a == old(self).attrs@[i]
                && final(self).attrs@ == old(self).attrs@.update(i, *final(a))
                && final(self).id == old(self).id && final(self).parent_id == old(self).parent_id
                && final(self).name == old(self).name && final(self).name_len == old(self).name_len
                && final(self).attr_count == old(self).attr_count,
    {
        match self.attr_index(name) {
            Some(i) => Some(&mut self.attrs[i]),
            None => None,
        }
    }

    /// Deletes the first attribute named `name`, moving the later ones down
    /// one place; `ENOENT` when there is none.
    pub fn delete_attr(&mut self, name: &str) -> (r: Result<(), Errno>)
        requires
            old(self).wf(),
        ensures
            final(self).wf(),
            final(self).id == old(self).id && final(self).parent_id == old(self).parent_id,
            final(self).name == old(self).name && final(self).name_len == old(self).name_len,
            no_attr(old(self).attrs@, old(self).attr_count as int, name.spec_bytes())
                ==> r == Err::<(), Errno>(Errno::ENOENT) && *final(self) == *old(self),
            forall|i: int| first_attr(old(self).attrs@, old(self).attr_count as int, name.spec_bytes(), i) ==> {
                let c = old(self).attr_count as int;
                &&& r is Ok
                &&& final(self).attr_count == c - 1
                &&& forall|j: int| 0 <= j < i ==> final(self).attrs@[j] == old(self).attrs@[j]
                &&& forall|j: int| i <= j < c - 1 ==> final(self).attrs@[j] == old(self).attrs@[j + 1]
                &&& forall|j: int| c - 1 <= j < MAX_ATTRS ==> final(self).attrs@[j] == old(self).attrs@[j]
            },
    {
        let count = self.attr_count as usize;
        match self.attr_index(name) {
            Some(i) => {
                let ghost old_attrs = self.attrs@;
                let mut j: usize = i;
                while j + 1 < count
                    invariant
                        count == old(self).attr_count,
                        count <= MAX_ATTRS,
                        i <= j < count,
                        self.attr_count == old(self).attr_count,
                        self.id == old(self).id && self.parent_id == old(self).parent_id,
                        self.name == old(self).name && self.name_len == old(self).name_len,
                        self.attrs@.len() == MAX_ATTRS,
                        old_attrs == old(self).attrs@,
                        forall|k: int| 0 <= k < MAX_ATTRS ==> (#[trigger] old_attrs[k]).wf(),
                        forall|k: int| 0 <= k < i ==> self.attrs@[k] == old_attrs[k],
                        forall|k: int| i <= k < j ==> self.attrs@[k] == old_attrs[k + 1],
                        forall|k: int| j <= k < MAX_ATTRS ==> self.attrs@[k] == old_attrs[k],
                    decreases count - j,
                {
                    self.attrs[j] = self.attrs[j + 1];
                    j += 1;
                }
                self.attr_count = self.attr_count - 1;
                proof {
                    assert forall|k: int| first_attr(old_attrs, count as int, name.spec_bytes(), k) implies k == i as int by {
                        if k < i {
                            assert(!attr_named(old_attrs[k], name.spec_bytes()));
                        }
                        if k > i {
                            assert(!attr_named(old_attrs[i as int], name.spec_bytes()));
                        }
                    }
                    assert forall|k: int| 0 <= k < MAX_ATTRS implies (#[trigger] self.attrs@[k]).wf() by {
                        if i <= k < j {
                            assert(old_attrs[k + 1].wf());
                        } else {
                            assert(old_attrs[k].wf());
                        }
                    }
                }
                Ok(())
            },
            None => Err(Errno::ENOENT),
        }
    }
}

/// The tree: a node table of which the first `node_count` are live, and
/// the next id to hand out.
pub struct Systree {
    pub nodes: [SystreeNode; MAX_NODES],
    pub node_count: u32,
    pub next_id: u32,
}

/// `i` is the first of the first `count` nodes with id `id`.
pub open spec fn first_with_id(ns: Seq<SystreeNode>, count: int, id: u32, i: int) -> bool {
    &&& 0 <= i < count
    &&& ns[i].id == id
    &&& forall|j: int| 0 <= j < i ==> (#[trigger] ns[j]).id != id
}

/// None of the first `count` nodes has id `id`.
pub open spec fn no_id(ns: Seq<SystreeNode>, count: int, id: u32) -> bool {
    forall|j: int| 0 <= j < count ==> (#[trigger] ns[j]).id != id
}

/// `n` is a child of `parent` named `name`.
pub open spec fn child_named(n: SystreeNode, parent: u32, name: Seq<u8>) -> bool {
    n.parent_id == parent && n.name_view() == name
}

/// `i` is the first of the first `count` nodes that is a child of `parent`
/// named `name`.
pub open spec fn first_child(ns: Seq<SystreeNode>, count: int, parent: u32, name: Seq<u8>, i: int) -> bool {
    &&& 0 <= i < count
    &&& child_named(ns[i], parent, name)
    &&& forall|j: int| 0 <= j < i ==> !child_named(#[trigger] ns[j], parent, name)
}

/// None of the first `count` nodes is a child of `parent` named `name`.
pub open spec fn no_child(ns: Seq<SystreeNode>, count: int, parent: u32, name: Seq<u8>) -> bool {
    forall|j: int| 0 <= j < count ==> !child_named(#[trigger] ns[j], parent, name)
}

impl Systree {
    /// Count within the table; every node well formed.
    pub open spec fn wf(&self) -> bool {
        &&& self.node_count as int <= MAX_NODES
        &&& forall|i: int| 0 <= i < MAX_NODES ==> (#[trigger] self.nodes@[i]).wf()
    }

    /// An empty tree whose next id is 1.
    pub fn new() -> (t: Self)
        ensures
            t.wf(),
            t.node_count == 0,
            t.next_id == 1,
            forall|i: int| 0 <= i < MAX_NODES ==> (#[trigger] t.nodes@[i]).id == 0
                && t.nodes@[i].parent_id == 0 && t.nodes@[i].name_len == 0 && t.nodes@[i].attr_count == 0,
    {
        let n = SystreeNode::new(0, 0);
        Systree { nodes: [n; MAX_NODES], node_count: 0, next_id: 1 }
    }

    /// Resets the tree to the root node `/` (id 0, its own parent).
    pub fn init(&mut self)
        requires
            old(self).wf(),
        ensures
            final(self).wf(),
            final(self).node_count == 1,
            final(self).next_id == 1,
            final(self).nodes@[0].id == 0 && final(self).nodes@[0].parent_id == 0,
            final(self).nodes@[0].attr_count == 0,
            final(self).nodes@[0].name@ == overwrite(Seq::new(MAX_NAME_LEN as nat, |i: int| 0u8), 0,
                truncate("/".spec_bytes(), MAX_NAME_LEN as int)),
            final(self).nodes@[0].name_len as int == min_int("/".spec_bytes().len() as int, MAX_NAME_LEN as int),
            forall|i: int| 1 <= i < MAX_NODES ==> final(self).nodes@[i] == old(self).nodes@[i],
    {
        let mut root = SystreeNode::new(0, 0);
        root.set_name("/");
        self.nodes[0] = root;
        self.node_count = 1;
        self.next_id = 1;
        proof {
            assert forall|k: int| 0 <= k < MAX_NODES implies (#[trigger] self.nodes@[k]).wf() by {
                if k != 0 {
                    assert(old(self).nodes@[k].wf());
                }
            }
        }
    }

    /// Position of the first live node with id `id`.
    fn node_index(&self, id: u32) -> (r: Option<usize>)
        requires
            self.wf(),
        ensures
            r matches Some(i) ==> first_with_id(self.nodes@, self.node_count as int, id, i as int),
            r is None ==> no_id(self.nodes@, self.node_count as int, id),
    {
        let count = self.node_count as usize;
        let mut i: usize = 0;
        while i < count
            invariant
                self.wf(),
                count == self.node_count,
                0 <= i <= count,
                no_id(self.nodes@, i as int, id),
            decreases count - i,
        {
            if self.nodes[i].id == id {
                return Some(i);
            }
            i += 1;
        }
        None
    }

    /// Adds a node named `name` under `parent_id` with the next id, which
    /// it returns. `ENOENT` when no live node has id `parent_id`, `ENOMEM`
    /// when the table is full.
    pub fn create_node(&mut self, parent_id: u32, name: &str) -> (r: Result<u32, Errno>)
        requires
            old(self).wf(),
            old(self).next_id < u32::MAX,
        ensures
            final(self).wf(),
            no_id(old(self).nodes@, old(self).node_count as int, parent_id) ==> r == Err::<u32, Errno>(Errno::ENOENT)
                && *final(self) == *old(self),
            !no_id(old(self).nodes@, old(self).node_count as int, parent_id) && old(self).node_count as int >= MAX_NODES
                ==> r == Err::<u32, Errno>(Errno::ENOMEM) && *final(self) == *old(self),
            !no_id(old(self).nodes@, old(self).node_count as int, parent_id) && (old(self).node_count as int) < MAX_NODES ==> {
                let k = old(self).node_count as int;
                let n = final(self).nodes@[k];
                &&& r == Ok::<u32, Errno>(old(self).next_id)
                &&& final(self).next_id == old(self).next_id + 1
                &&& final(self).node_count == old(self).node_count + 1
                &&& n.id == old(self).next_id && n.parent_id == parent_id && n.attr_count == 0
                &&& n.name@ == overwrite(Seq::new(MAX_NAME_LEN as nat, |i: int| 0u8), 0,
                    truncate(name.spec_bytes(), MAX_NAME_LEN as int))
                &&& n.name_len as int == min_int(name.spec_bytes().len() as int, MAX_NAME_LEN as int)
                &&& forall|j: int| 0 <= j < MAX_NODES && j != k ==> final(self).nodes@[j] == old(self).nodes@[j]
            },
    {
        if self.node_index(parent_id).is_none() {
            return Err(Errno::ENOENT);
        }
        if self.node_count as usize >= MAX_NODES {
            return Err(Errno::ENOMEM);
        }
        let id = self.next_id;
        self.next_id = self.next_id + 1;
        let idx = self.node_count as usize;
        let mut n = SystreeNode::new(id, parent_id);
        n.set_name(name);
        self.nodes[idx] = n;
        self.node_count = self.node_count + 1;
        proof {
            assert forall|k: int| 0 <= k < MAX_NODES implies (#[trigger] self.nodes@[k]).wf() by {
                if k != idx {
                    assert(old(self).nodes@[k].wf());
                }
            }
        }
        Ok(id)
    }

    /// Deletes the first live node with id `id`, moving later live nodes
    /// down one place. `EINVAL` for the root id 0, `ENOTEMPTY` when a live
    /// node has it as parent, `ENOENT` when no live node has it.
    pub fn delete_node(&mut self, id: u32) -> (r: Result<(), Errno>)
        requires
            old(self).wf(),
        ensures
            final(self).wf(),
            final(self).next_id == old(self).next_id,
            r is Err ==> *final(self) == *old(self),
            r is Ok ==> final(self).node_count == old(self).node_count - 1,
            id == 0 ==> r == Err::<(), Errno>(Errno::EINVAL) && *final(self) == *old(self),
            id != 0 && (exists|j: int| 0 <= j < old(self).node_count && (#[trigger] old(self).nodes@[j]).parent_id == id)
                ==> r == Err::<(), Errno>(Errno::ENOTEMPTY) && *final(self) == *old(self),
            id != 0 && (forall|j: int| 0 <= j < old(self).node_count ==> (#[trigger] old(self).nodes@[j]).parent_id != id)
                && no_id(old(self).nodes@, old(self).node_count as int, id)
                ==> r == Err::<(), Errno>(Errno::ENOENT) && *final(self) == *old(self),
            forall|i: int| id != 0
                && (forall|j: int| 0 <= j < old(self).node_count ==> (#[trigger] old(self).nodes@[j]).parent_id != id)
                && first_with_id(old(self).nodes@, old(self).node_count as int, id, i) ==> {
                let c = old(self).node_count as int;
                &&& r is Ok
                &&& final(self).node_count == c - 1
                &&& forall|j: int| 0 <= j < i ==> final(self).nodes@[j] == old(self).nodes@[j]
                &&& forall|j: int| i <= j < c - 1 ==> final(self).nodes@[j] == old(self).nodes@[j + 1]
                &&& forall|j: int| c - 1 <= j < MAX_NODES ==> final(self).nodes@[j] == old(self).nodes@[j]
            },
    {
        if id == 0 {
            return Err(Errno::EINVAL);
        }
        let count = self.node_count as usize;
        let mut p: usize = 0;
        while p < count
            invariant
                self.wf(),
                count == self.node_count,
                id != 0,
                0 <= p <= count,
                forall|j: int| 0 <= j < p ==> (#[trigger] self.nodes@[j]).parent_id != id,
            decreases count - p,
        {
            if self.nodes[p].parent_id == id {
                return Err(Errno::ENOTEMPTY);
            }
            p += 1;
        }
        match self.node_index(id) {
            Some(i) => {
                let ghost old_nodes = self.nodes@;
                let mut j: usize = i;
                while j + 1 < count
                    invariant
                        count == old(self).node_count,
                        count <= MAX_NODES,
                        i <= j < count,
                        self.node_count == old(self).node_count,
                        self.next_id == old(self).next_id,
                        self.nodes@.len() == MAX_NODES,
                        old_nodes == old(self).nodes@,
                        forall|k: int| 0 <= k < MAX_NODES ==> (#[trigger] old_nodes[k]).wf(),
                        forall|k: int| 0 <= k < i ==> self.nodes@[k] == old_nodes[k],
                        forall|k: int| i <= k < j ==> self.nodes@[k] == old_nodes[k + 1],
                        forall|k: int| j <= k < MAX_NODES ==> self.nodes@[k] == old_nodes[k],
                    decreases count - j,
                {
                    self.nodes[j] = self.nodes[j + 1];
                    j += 1;
                }
                self.node_count = self.node_count - 1;
                proof {
                    assert forall|k: int| first_with_id(old_nodes, count as int, id, k) implies k == i as int by {
                        if k < i {
                            assert(old_nodes[k].id != id);
                        }
                        if k > i {
                            assert(old_nodes[i as int].id != id);
                        }
                    }
                    assert forall|k: int| 0 <= k < MAX_NODES implies (#[trigger] self.nodes@[k]).wf() by {
                        if i <= k < j {
                            assert(old_nodes[k + 1].wf());
                        } else {
                            assert(old_nodes[k].wf());
                        }
                    }
                }
                Ok(())
            },
            None => Err(Errno::ENOENT),
        }
    }

    /// The first live node with id `id`.
    pub fn find_node(&self, id: u32) -> (r: Option<&SystreeNode>)
        requires
            self.wf(),
        ensures
            r matches Some(n) ==> exists|i: int| first_with_id(self.nodes@, self.node_count as int, id, i)
                && *n == self.nodes@[i],
            r is None ==> no_id(self.nodes@, self.node_count as int, id),
    {
        match self.node_index(id) {
            Some(i) => Some(&self.nodes[i]),
            None => None,
        }
    }

    /// The first live node with id `id`, to change in place.
    pub fn find_node_mut(&mut self, id: u32) -> (r: Option<&mut SystreeNode>)
        requires
            old(self).wf(),
        ensures
            r is None ==> no_id(old(self).nodes@, old(self).node_count as int, id) && *final(self) == *old(self),
            r matches Some(n) ==> exists|i: int| first_with_id(old(self).nodes@, old(self).node_count as int, id, i)
                && *n == old(self).nodes@[i]
                && final(self).nodes@ == old(self).nodes@.update(i, *final(n))
                && final(self).node_count == old(self).node_count && final(self).next_id == old(self).next_id,
    {
        match self.node_index(id) {
            Some(i) => Some(&mut self.nodes[i]),
            None => None,
        }
    }

    /// Position of the first live child of `parent_id` named `name`.
    fn child_index(&self, parent_id: u32, name: &str) -> (r: Option<usize>)
        requires
            self.wf(),
        ensures
            r matches Some(i) ==> first_child(self.nodes@, self.node_count as int, parent_id, name.spec_bytes(), i as int),
            r is None ==> no_child(self.nodes@, self.node_count as int, parent_id, name.spec_bytes()),
    {
        let count = self.node_count as usize;
        let mut i: usize = 0;
        while i < count
            invariant
                self.wf(),
                count == self.node_count,
                0 <= i <= count,
                no_child(self.nodes@, i as int, parent_id, name.spec_bytes()),
            decreases count - i,
        {
            let n = self.nodes[i];
            if n.parent_id == parent_id && bytes_eq(n.get_name().as_bytes(), name.as_bytes()) {
                return Some(i);
            }
            i += 1;
        }
        None
    }

    /// The first live child of `parent_id` named `name`.
    pub fn find_node_by_name(&self, parent_id: u32, name: &str) -> (r: Option<&SystreeNode>)
        requires
            self.wf(),
        ensures
            r matches Some(n) ==> exists|i: int| first_child(self.nodes@, self.node_count as int, parent_id, name.spec_bytes(), i)
                && *n == self.nodes@[i],
            r is None ==> no_child(self.nodes@, self.node_count as int, parent_id, name.spec_bytes()),
    {
        match self.child_index(parent_id, name) {
            Some(i) => Some(&self.nodes[i]),
            None => None,
        }
    }

    /// Writes `name\n` for each live child of `parent_id`, in table order,
    /// to the front of `buf`, stopping before the first that does not fit;
    /// returns the bytes written.
    pub fn list_children(&self, parent_id: u64, buf: &mut [u8]) -> (r: Result<usize, Errno>)
        requires
            self.wf(),
        ensures
            ({
                let l = listing(self.nodes@.take(self.node_count as int), parent_id, old(buf)@.len() as int);
                &&& r == Ok::<usize, Errno>(l.len() as usize)
                &&& final(buf)@ == l + old(buf)@.skip(l.len() as int)
            }),
    {
        let ghost ns = self.nodes@.take(self.node_count as int);
        let ghost cap = buf@.len() as int;
        let ghost target = listing(ns, parent_id, cap);
        let count = self.node_count as usize;
        let mut offset: usize = 0;
        let mut i: usize = 0;
        let mut done = false;
        let ghost mut out: Seq<u8> = Seq::empty();
        assert(ns.skip(0) =~= ns);
        while !done && i < count
            invariant
                self.wf(),
                count == self.node_count,
                ns == self.nodes@.take(count as int),
                cap == old(buf)@.len(),
                buf@.len() == cap,
                0 <= i <= count,
                offset == out.len(),
                offset <= cap,
                buf@ == out + old(buf)@.skip(offset as int),
                target == listing(ns, parent_id, cap),
                done ==> target == out,
                !done ==> target == out + listing(ns.skip(i as int), parent_id, cap - offset),
            decreases count - i, if done { 0int } else { 1int },
        {
            let n = self.nodes[i];
            proof {
                assert(ns.skip(i as int)[0] == n);
                assert(ns.skip(i as int).skip(1) =~= ns.skip(i as int + 1));
            }
            if n.parent_id as u64 == parent_id {
                let name = n.get_name().as_bytes();
                if name.len() + 1 > buf.len() - offset {
                    done = true;
                } else {
                    let ghost before = buf@;
                    crate::bytes_util::write_slice_at(buf, offset, name);
                    buf[offset + name.len()] = 10u8;
                    proof {
                        let e = n.name_view().push(10u8);
                        assert(buf@ =~= (out + e) + old(buf)@.skip(offset + e.len()));
                        out = out + e;
                        assert(listing(ns.skip(i as int), parent_id, cap - (offset as int))
                            == e + listing(ns.skip(i as int + 1), parent_id, cap - (offset as int) - e.len()));
                    }
                    offset = offset + name.len() + 1;
                    i += 1;
                }
            } else {
                i += 1;
            }
        }
        proof {
            if !done {
                assert(ns.skip(i as int).len() == 0);
            }
        }
        Ok(offset)
    }

    /// The node that `path` leads to from the root slot: each `/`-separated
    /// component names a live child of the node reached so far; `None` when
    /// a component is not UTF-8 or names no child.
    pub fn resolve_path(&self, path: &str) -> (r: Option<&SystreeNode>)
        requires
            self.wf(),
        ensures
            r matches Some(n) ==> resolve_from(self.nodes@, self.node_count as int, self.nodes@[0], path.spec_bytes(), 0)
                == Some(*n),
            r is None ==> resolve_from(self.nodes@, self.node_count as int, self.nodes@[0], path.spec_bytes(), 0) is None,
    {
        let bytes = path.as_bytes();
        let ghost p = bytes@;
        let ghost ns = self.nodes@;
        let ghost count = self.node_count as int;
        let ghost goal = resolve_from(ns, count, ns[0], p, 0);
        if bytes.len() == 0 {
            return Some(&self.nodes[0]);
        }
        let mut cur: usize = 0;
        let mut start: usize = 0;
        while start < bytes.len()
            invariant
                self.wf(),
                p == bytes@,
                p == path.spec_bytes(),
                ns == self.nodes@,
                count == self.node_count,
                cur < MAX_NODES,
                start <= bytes@.len(),
                goal == resolve_from(ns, count, ns[0], p, 0),
                goal == resolve_from(ns, count, ns[cur as int], p, start as int),
            ensures
                cur < MAX_NODES,
                goal == Some(ns[cur as int]),
            decreases bytes@.len() - start,
        {
            let ghost s0 = start as int;
            while start < bytes.len() && bytes[start] == 47u8
                invariant
                    p == bytes@,
                    s0 <= start <= bytes@.len(),
                    skip_slashes(p, s0) == skip_slashes(p, start as int),
                decreases bytes@.len() - start,
            {
                start += 1;
            }
            if start >= bytes.len() {
                proof {
                    assert(skip_slashes(p, s0) == start as int);
                }
                break;
            }
            let mut end = start;
            while end < bytes.len() && bytes[end] != 47u8
                invariant
                    p == bytes@,
                    start <= end <= bytes@.len(),
                    start < bytes@.len(),
                    p[start as int] != 47u8,
                    comp_end(p, start as int + 1) == comp_end(p, end as int) || end == start,
                decreases bytes@.len() - end,
            {
                end += 1;
            }
            proof {
                assert(skip_slashes(p, s0) == start as int);
                assert(end > start);
                assert(comp_end(p, end as int) == end as int);
                assert(comp_end(p, start as int + 1) == end as int);
            }
            let part_bytes = slice_range(bytes, start, end);
            let part = match utf8_checked(part_bytes) {
                Some(t) => t,
                None => {
                    proof {
                        assert(!valid_utf8(p.subrange(start as int, end as int)));
                        assert(resolve_from(ns, count, ns[cur as int], p, s0) is None);
                    }
                    return None;
                },
            };
            let next = match self.child_index(self.nodes[cur].id, part) {
                Some(k) => k,
                None => {
                    proof {
                        let part_s = p.subrange(start as int, end as int);
                        assert(part.spec_bytes() == part_s);
                        assert(!exists|i: int| first_child(ns, count, ns[cur as int].id, part_s, i));
                        assert(resolve_from(ns, count, ns[cur as int], p, s0) is None);
                    }
                    return None;
                },
            };
            proof {
                assert(part.spec_bytes() == p.subrange(start as int, end as int));
                assert(first_child(ns, count, ns[cur as int].id, p.subrange(start as int, end as int), next as int));
                lemma_first_child_unique(ns, count, ns[cur as int].id, p.subrange(start as int, end as int), next as int);
            }
            cur = next;
            start = end;
        }
        Some(&self.nodes[cur])
    }
}

/// The newline-terminated names of the children of `parent` among `ns`, in
/// order, as many whole ones as fit in `room` bytes.
pub open spec fn listing(ns: Seq<SystreeNode>, parent: u64, room: int) -> Seq<u8>
    decreases ns.len(),
{
    if ns.len() == 0 {
        Seq::empty()
    } else if ns[0].parent_id as u64 == parent {
        let e = ns[0].name_view().push(10u8);
        if e.len() > room {
            Seq::empty()
        } else {
            e + listing(ns.skip(1), parent, room - e.len())
        }
    } else {
        listing(ns.skip(1), parent, room)
    }
}

/// The first position at or after `from` that does not hold a `/`.
pub open spec fn skip_slashes(p: Seq<u8>, from: int) -> int
    decreases p.len() - from,
{
    if from < 0 || from >= p.len() || p[from] != 47u8 { from } else { skip_slashes(p, from + 1) }
}

/// The first position at or after `from` that holds a `/` (or the end).
pub open spec fn comp_end(p: Seq<u8>, from: int) -> int
    decreases p.len() - from,
{
    if from < 0 || from >= p.len() || p[from] == 47u8 { from } else { comp_end(p, from + 1) }
}

/// Bounds of the component scans.
pub proof fn lemma_scan_bounds(p: Seq<u8>, from: int)
    requires
        0 <= from <= p.len(),
    ensures
        from <= skip_slashes(p, from) <= p.len(),
        from <= comp_end(p, from) <= p.len(),
    decreases p.len() - from,
{
    if from < p.len() {
        lemma_scan_bounds(p, from + 1);
    }
}

/// Where the remaining components of `p` from position `start` lead from
/// node `cur`.
pub open spec fn resolve_from(ns: Seq<SystreeNode>, count: int, cur: SystreeNode, p: Seq<u8>, start: int) -> Option<SystreeNode>
    decreases p.len() - start,
{
    if start < 0 || start > p.len() {
        None
    } else {
        let s = skip_slashes(p, start);
        if s >= p.len() || s < start {
            Some(cur)
        } else {
            let e = comp_end(p, s + 1);
            let part = p.subrange(s, e);
            if e <= start || e > p.len() {
                None
            } else if !valid_utf8(part) {
                None
            } else if exists|i: int| first_child(ns, count, cur.id, part, i) {
                let i = choose|i: int| first_child(ns, count, cur.id, part, i);
                resolve_from(ns, count, ns[i], p, e)
            } else {
                None
            }
        }
    }
}

/// The first matching child is unique.
pub proof fn lemma_first_child_unique(ns: Seq<SystreeNode>, count: int, parent: u32, name: Seq<u8>, i: int)
    requires
        first_child(ns, count, parent, name, i),
    ensures
        exists|k: int| first_child(ns, count, parent, name, k),
        (choose|k: int| first_child(ns, count, parent, name, k)) == i,
{
    let k = choose|k: int| first_child(ns, count, parent, name, k);
    if k < i {
        assert(!child_named(ns[k], parent, name));
    }
    if k > i {
        assert(!child_named(ns[i], parent, name));
    }
}

/// Writes the text of `value` (its twenty-byte rendering up to the first
/// zero byte) to the front of `buf` and returns its length; `EINVAL` when
/// `buf` is shorter.
pub fn read_int_attr(value: u64, buf: &mut [u8]) -> (r: Result<usize, Errno>)
    ensures
        ({
            let t = until_nul(format_spec(value));
            &&& old(buf)@.len() < t.len() ==> r == Err::<usize, Errno>(Errno::EINVAL) && final(buf)@ == old(buf)@
            &&& old(buf)@.len() >= t.len() ==> r == Ok::<usize, Errno>(t.len() as usize)
                && final(buf)@ == t + old(buf)@.skip(t.len() as int)
        }),
{
    let s = format_u64(value);
    let len = find_nul(s.as_slice());
    if buf.len() < len {
        return Err(Errno::EINVAL);
    }
    copy_into_slice(buf, slice_prefix(s.as_slice(), len));
    Ok(len)
}

/// The value of a decimal digit string.
pub open spec fn digits_value(d: Seq<u8>) -> int
    decreases d.len(),
{
    if d.len() == 0 {
        0
    } else {
        digits_value(d.drop_last()) * 10 + (d.last() - 48)
    }
}

/// Every byte of `d` is an ASCII digit.
pub open spec fn all_digits(d: Seq<u8>) -> bool {
    forall|i: int| 0 <= i < d.len() ==> 48 <= #[trigger] d[i] <= 57
}

/// `s` without a leading `+`.
pub open spec fn unsigned_part(s: Seq<u8>) -> Seq<u8> {
    if s.len() > 0 && s[0] == 43u8 { s.skip(1) } else { s }
}

/// What parsing `s` as a `u64` gives: an optional `+` and then one or more
/// ASCII digits whose value fits.
pub open spec fn parse_u64_spec(s: Seq<u8>) -> Option<u64> {
    let d = unsigned_part(s);
    if d.len() > 0 && all_digits(d) && digits_value(d) <= u64::MAX {
        Some(digits_value(d) as u64)
    } else {
        None
    }
}

/// A character of the Unicode White_Space property: tab to carriage
/// return, space, next line, no-break space, ogham space mark, the spaces
/// U+2000 to U+200A, line and paragraph separators, narrow no-break space,
/// medium mathematical space and ideographic space.
pub open spec fn is_white_space(c: char) -> bool {
    let u = c as u32;
    ||| 9 <= u <= 13
    ||| u == 32 || u == 0x85 || u == 0xA0 || u == 0x1680
    ||| 0x2000 <= u <= 0x200A
    ||| u == 0x2028 || u == 0x2029 || u == 0x202F || u == 0x205F || u == 0x3000
}

/// Number of white-space characters at the front of `s`.
pub open spec fn leading_white(s: Seq<char>) -> nat
    decreases s.len(),
{
    if s.len() > 0 && is_white_space(s[0]) { 1 + leading_white(s.skip(1)) } else { 0 }
}

/// Number of white-space characters at the back of `s`.
pub open spec fn trailing_white(s: Seq<char>) -> nat
    decreases s.len(),
{
    if s.len() > 0 && is_white_space(s.last()) { 1 + trailing_white(s.drop_last()) } else { 0 }
}

/// `s` without its leading and trailing white space.
pub open spec fn trim_chars(s: Seq<char>) -> Seq<char> {
    let t = s.skip(leading_white(s) as int);
    t.take(t.len() - trailing_white(t))
}

/// The bytes of UTF-8 text `b` once trimmed.
pub open spec fn trimmed_bytes(b: Seq<u8>) -> Seq<u8> {
    vstd::utf8::encode_utf8(trim_chars(vstd::utf8::decode_utf8(b)))
}

/// Trims white space from both ends of `s`.
///
/// Calls `str::trim`, which its documentation says removes leading and
/// trailing white space as the Unicode White_Space property defines it.
#[verifier::external_body]
fn trim_str(s: &str) -> (r: &str)
    ensures
        r@ == trim_chars(s@),
{
    s.trim()
}

/// A digit prefix's value never exceeds that of the whole digit string.
proof fn lemma_digits_value_mono(d: Seq<u8>, k: int)
    requires
        0 <= k <= d.len(),
        all_digits(d),
    ensures
        digits_value(d.take(k)) <= digits_value(d),
        digits_value(d) >= 0,
    decreases d.len(),
{
    if d.len() > 0 {
        lemma_digits_value_mono(d.drop_last(), if k < d.len() { k } else { d.len() - 1 });
        if k < d.len() {
            assert(d.drop_last().take(k) =~= d.take(k));
        } else {
            assert(d.take(k) =~= d);
        }
    }
}

/// Parses `s` as a `u64`: an optional `+` and then one or more ASCII
/// digits whose value fits.
pub fn parse_u64(s: &str) -> (r: Option<u64>)
    ensures
        r == parse_u64_spec(s.spec_bytes()),
{
    let b = s.as_bytes();
    let ghost sb = b@;
    let start: usize = if b.len() > 0 && b[0] == 43u8 { 1 } else { 0 };
    let ghost d = unsigned_part(sb);
    proof {
        assert(d =~= sb.skip(start as int));
        assert(sb == s.spec_bytes());
    }
    if start >= b.len() {
        return None;
    }
    let mut v: u64 = 0;
    let mut i: usize = start;
    while i < b.len()
        invariant
            start <= i <= b@.len(),
            b@ == sb,
            sb == s.spec_bytes(),
            d == unsigned_part(sb),
            d =~= sb.skip(start as int),
            forall|k: int| 0 <= k < i - start ==> 48 <= #[trigger] d[k] <= 57,
            v == digits_value(d.take(i - start)),
        decreases b@.len() - i,
    {
        let c = b[i];
        proof {
            assert(d.take(i - start + 1).drop_last() =~= d.take(i - start));
            assert(d[i - start] == c);
        }
        if c < 48u8 || c > 57u8 {
            proof {
                let j = i - start;
                assert(0 <= j < d.len());
                assert(!(48 <= d[j] <= 57));
                assert(!all_digits(d));
                assert(parse_u64_spec(sb) is None);
            }
            return None;
        }
        let dig = (c - 48u8) as u64;
        if v > (u64::MAX - dig) / 10 {
            proof {
                assert(v * 10 + dig > u64::MAX) by (nonlinear_arith)
                    requires
                        v > (u64::MAX - dig) / 10,
                        dig <= 9,
                ;
                let j = i - start;
                assert(d.take(j + 1).last() == c);
                assert(digits_value(d.take(j + 1)) == v * 10 + dig);
                if all_digits(d) {
                    lemma_digits_value_mono(d, j + 1);
                }
                assert(parse_u64_spec(sb) is None);
            }
            return None;
        }
        assert(v * 10 + dig <= u64::MAX) by (nonlinear_arith)
            requires
                v <= (u64::MAX - dig) / 10,
                dig <= 9,
        ;
        v = v * 10 + dig;
        i += 1;
    }
    proof {
        assert(d.take(d.len() as int) =~= d);
    }
    Some(v)
}

/// The integer written to an attribute: `data` as UTF-8, trimmed, parsed
/// as a `u64`; `EINVAL` when it is not UTF-8 or does not parse.
pub fn write_int_attr(data: &[u8]) -> (r: Result<u64, Errno>)
    ensures
        !valid_utf8(data@) ==> r == Err::<u64, Errno>(Errno::EINVAL),
        valid_utf8(data@) ==> r == (match parse_u64_spec(trimmed_bytes(data@)) {
            Some(v) => Ok::<u64, Errno>(v),
            None => Err(Errno::EINVAL),
        }),
{
    let s = match utf8_checked(data) {
        Some(t) => t,
        None => {
            return Err(Errno::EINVAL);
        },
    };
    let t = trim_str(s);
    proof {
        vstd::utf8::encode_utf8_decode_utf8(s@);
    }
    match parse_u64(t) {
        Some(v) => Ok(v),
        None => Err(Errno::EINVAL),
    }
}

/// Mounts the tree: resets it to the root node.
pub fn mount_systree(tree: &mut Systree) -> (r: Result<(), Errno>)
    requires
        old(tree).wf(),
    ensures
        final(tree).wf(),
        r is Ok,
        final(tree).node_count == 1 && final(tree).next_id == 1,
        final(tree).nodes@[0].id == 0 && final(tree).nodes@[0].parent_id == 0,
        forall|i: int| 1 <= i < MAX_NODES ==> final(tree).nodes@[i] == old(tree).nodes@[i],
{
    tree.init();
    Ok(())
}

/// Unmounts the tree: forgets every node and restarts the ids at 1.
pub fn umount_systree(tree: &mut Systree) -> (r: Result<(), Errno>)
    requires
        old(tree).wf(),
    ensures
        final(tree).wf(),
        r is Ok,
        final(tree).node_count == 0 && final(tree).next_id == 1,
        final(tree).nodes == old(tree).nodes,
{
    tree.node_count = 0;
    tree.next_id = 1;
    Ok(())
}

/// Adds a node to `tree` (see `Systree::create_node`).
pub fn create_node(tree: &mut Systree, parent_id: u32, name: &str) -> (r: Result<u32, Errno>)
    requires
        old(tree).wf(),
        old(tree).next_id < u32::MAX,
    ensures
        final(tree).wf(),
        no_id(old(tree).nodes@, old(tree).node_count as int, parent_id) ==> r == Err::<u32, Errno>(Errno::ENOENT),
        !no_id(old(tree).nodes@, old(tree).node_count as int, parent_id) && old(tree).node_count as int >= MAX_NODES
            ==> r == Err::<u32, Errno>(Errno::ENOMEM),
        !no_id(old(tree).nodes@, old(tree).node_count as int, parent_id) && (old(tree).node_count as int) < MAX_NODES
            ==> r == Ok::<u32, Errno>(old(tree).next_id) && final(tree).node_count == old(tree).node_count + 1
            && final(tree).nodes@[old(tree).node_count as int].parent_id == parent_id,
        r is Err ==> *final(tree) == *old(tree),
{
    tree.create_node(parent_id, name)
}

/// Deletes a node of `tree` (see `Systree::delete_node`).
pub fn delete_node(tree: &mut Systree, id: u32) -> (r: Result<(), Errno>)
    requires
        old(tree).wf(),
    ensures
        final(tree).wf(),
        id == 0 ==> r == Err::<(), Errno>(Errno::EINVAL),
        id != 0 && (exists|j: int| 0 <= j < old(tree).node_count && (#[trigger] old(tree).nodes@[j]).parent_id == id)
            ==> r == Err::<(), Errno>(Errno::ENOTEMPTY),
        id != 0 && (forall|j: int| 0 <= j < old(tree).node_count ==> (#[trigger] old(tree).nodes@[j]).parent_id != id)
            && no_id(old(tree).nodes@, old(tree).node_count as int, id) ==> r == Err::<(), Errno>(Errno::ENOENT),
        r is Err ==> *final(tree) == *old(tree),
        r is Ok ==> final(tree).node_count == old(tree).node_count - 1,
{
    tree.delete_node(id)
}

/// A copy of the first live node of `tree` with id `id`.
pub fn find_node(tree: &Systree, id: u32) -> (r: Option<SystreeNode>)
    requires
        tree.wf(),
    ensures
        r matches Some(n) ==> exists|i: int| first_with_id(tree.nodes@, tree.node_count as int, id, i) && n == tree.nodes@[i],
        r is None ==> no_id(tree.nodes@, tree.node_count as int, id),
{
    match tree.find_node(id) {
        Some(n) => Some(*n),
        None => None,
    }
}

/// A copy of the node `path` leads to in `tree` (see
/// `Systree::resolve_path`).
pub fn resolve_path(tree: &Systree, path: &str) -> (r: Option<SystreeNode>)
    requires
        tree.wf(),
    ensures
        r == resolve_from(tree.nodes@, tree.node_count as int, tree.nodes@[0], path.spec_bytes(), 0),
{
    match tree.resolve_path(path) {
        Some(n) => Some(*n),
        None => None,
    }
}

/// The handler serving attribute `name` of the first node with id `id`:
/// its write handler when `write`, else its read handler; `ENOENT` when the
/// node or the attribute is missing, `EIO` when the handler is not set.
pub open spec fn attr_handler(ns: Seq<SystreeNode>, count: int, id: u32, name: Seq<u8>, write: bool) -> Result<u32, Errno> {
    if no_id(ns, count, id) {
        Err(Errno::ENOENT)
    } else {
        let n = ns[choose|i: int| first_with_id(ns, count, id, i)];
        if no_attr(n.attrs@, n.attr_count as int, name) {
            Err(Errno::ENOENT)
        } else {
            let a = n.attrs@[choose|j: int| first_attr(n.attrs@, n.attr_count as int, name, j)];
            match (if write { a.write_fn } else { a.read_fn }) {
                Some(h) => Ok(h),
                None => Err(Errno::EIO),
            }
        }
    }
}

/// What answering a request takes once the tree has been consulted.
#[derive(Debug, Clone, Copy, PartialEq, Eq, Structural)]
pub enum SystreeReply {
    /// The answer: a byte count.
    Done(usize),
    /// The answer: an error.
    Failed(Errno),
    /// Call read handler `h` with the reply buffer.
    Read(u32),
    /// Call write handler `h` with the request data, then answer 0.
    Write(u32),
}

proof fn lemma_first_with_id_unique(ns: Seq<SystreeNode>, count: int, id: u32, i: int, k: int)
    requires
        first_with_id(ns, count, id, i),
        first_with_id(ns, count, id, k),
    ensures
        i == k,
{
    if i < k {
        assert(ns[i].id != id);
    } else if k < i {
        assert(ns[k].id != id);
    }
}

proof fn lemma_first_attr_unique(attrs: Seq<SystreeAttr>, count: int, name: Seq<u8>, i: int, k: int)
    requires
        first_attr(attrs, count, name, i),
        first_attr(attrs, count, name, k),
    ensures
        i == k,
{
    if i < k {
        assert(!attr_named(attrs[i], name));
    } else if k < i {
        assert(!attr_named(attrs[k], name));
    }
}

impl Systree {
    /// The handler serving attribute `attr_name` of node `node_id`
    /// (`write` chooses the write handler).
    fn attr_handler_of(&self, node_id: u32, attr_name: &str, write: bool) -> (r: Result<u32, Errno>)
        requires
            self.wf(),
        ensures
            r == attr_handler(self.nodes@, self.node_count as int, node_id, attr_name.spec_bytes(), write),
    {
        match self.node_index(node_id) {
            None => Err(Errno::ENOENT),
            Some(i) => {
                proof {
                    let c = choose|k: int| first_with_id(self.nodes@, self.node_count as int, node_id, k);
                    lemma_first_with_id_unique(self.nodes@, self.node_count as int, node_id, i as int, c);
                }
                let n = &self.nodes[i];
                match n.attr_index(attr_name) {
                    None => Err(Errno::ENOENT),
                    Some(j) => {
                        proof {
                            let c = choose|k: int| first_attr(n.attrs@, n.attr_count as int, attr_name.spec_bytes(), k);
                            lemma_first_attr_unique(n.attrs@, n.attr_count as int, attr_name.spec_bytes(), j as int, c);
                        }
                        let h = if write { n.attrs[j].write_fn } else { n.attrs[j].read_fn };
                        match h {
                            Some(x) => Ok(x),
                            None => Err(Errno::EIO),
                        }
                    },
                }
            },
        }
    }

    /// The read handler to call for attribute `attr_name` of node `node_id`:
    /// `ENOENT` when the node or attribute is missing, `EIO` without a read
    /// handler.
    pub fn read_attr(&self, node_id: u32, attr_name: &str) -> (r: Result<u32, Errno>)
        requires
            self.wf(),
        ensures
            r == attr_handler(self.nodes@, self.node_count as int, node_id, attr_name.spec_bytes(), false),
    {
        self.attr_handler_of(node_id, attr_name, false)
    }

    /// The write handler to call for attribute `attr_name` of node
    /// `node_id`: `ENOENT` when the node or attribute is missing, `EIO`
    /// without a write handler.
    pub fn write_attr(&self, node_id: u32, attr_name: &str) -> (r: Result<u32, Errno>)
        requires
            self.wf(),
        ensures
            r == attr_handler(self.nodes@, self.node_count as int, node_id, attr_name.spec_bytes(), true),
    {
        self.attr_handler_of(node_id, attr_name, true)
    }
}

/// Answers a request on `tree`: 1 looks up the child of `node_id` named by
/// `data` and writes its id (4 bytes, little-endian) to `buf`; 27 lists the
/// children of `node_id` into `buf`; 19 and 20 name the read or write
/// handler of the attribute named by `data`; other opcodes give `ENOSYS`.
/// Names that are not UTF-8 give `EINVAL`, as does a lookup reply buffer
/// shorter than 4 bytes; `node_id` is taken modulo 2^32 for nodes.
pub fn handle_request(tree: &Systree, opcode: u32, node_id: u64, data: &[u8], buf: &mut [u8]) -> (r: SystreeReply)
    requires
        tree.wf(),
    ensures
        opcode != 27 && !(opcode == 1 && valid_utf8(data@) && !no_child(tree.nodes@, tree.node_count as int,
            node_id as u32, data@) && old(buf)@.len() >= 4) ==> final(buf)@ == old(buf)@,
        opcode == 1 ==> {
            if !valid_utf8(data@) {
                r == SystreeReply::Failed(Errno::EINVAL)
            } else if no_child(tree.nodes@, tree.node_count as int, node_id as u32, data@) {
                r == SystreeReply::Failed(Errno::ENOENT)
            } else if old(buf)@.len() < 4 {
                r == SystreeReply::Failed(Errno::EINVAL)
            } else {
                &&& r == SystreeReply::Done(4)
                &&& exists|i: int| first_child(tree.nodes@, tree.node_count as int, node_id as u32, data@, i)
                    && final(buf)@ == vstd::bytes::spec_u32_to_le_bytes(tree.nodes@[i].id) + old(buf)@.skip(4)
            }
        },
        opcode == 27 ==> ({
            let l = listing(tree.nodes@.take(tree.node_count as int), node_id, old(buf)@.len() as int);
            &&& r == SystreeReply::Done(l.len() as usize)
            &&& final(buf)@ == l + old(buf)@.skip(l.len() as int)
        }),
        opcode == 19 || opcode == 20 ==> {
            if !valid_utf8(data@) {
                r == SystreeReply::Failed(Errno::EINVAL)
            } else {
                match attr_handler(tree.nodes@, tree.node_count as int, node_id as u32, data@, opcode == 20) {
                    Ok(h) => r == if opcode == 20 { SystreeReply::Write(h) } else { SystreeReply::Read(h) },
                    Err(e) => r == SystreeReply::Failed(e),
                }
            }
        },
        opcode != 1 && opcode != 27 && opcode != 19 && opcode != 20 ==> r == SystreeReply::Failed(Errno::ENOSYS),
{
    if opcode == 27 {
        return match tree.list_children(node_id, buf) {
            Ok(n) => SystreeReply::Done(n),
            Err(e) => SystreeReply::Failed(e),
        };
    }
    if opcode != 1 && opcode != 19 && opcode != 20 {
        return SystreeReply::Failed(Errno::ENOSYS);
    }
    let name = match utf8_checked(data) {
        Some(t) => t,
        None => {
            return SystreeReply::Failed(Errno::EINVAL);
        },
    };
    let id32 = (node_id % 0x1_0000_0000) as u32;
    assert(id32 == node_id as u32) by (bit_vector)
        requires
            id32 == (node_id % 0x1_0000_0000) as u32,
    ;
    if opcode == 1 {
        match tree.find_node_by_name(id32, name) {
            Some(n) => {
                if buf.len() < 4 {
                    return SystreeReply::Failed(Errno::EINVAL);
                }
                let b = vstd::bytes::u32_to_le_bytes(n.id);
                let ghost before = buf@;
                crate::bytes_util::write_slice_at(buf, 0, b.as_slice());
                proof {
                    assert(buf@ =~= b@ + before.skip(4));
                }
                SystreeReply::Done(4)
            },
            None => SystreeReply::Failed(Errno::ENOENT),
        }
    } else if opcode == 19 {
        match tree.read_attr(id32, name) {
            Ok(h) => SystreeReply::Read(h),
            Err(e) => SystreeReply::Failed(e),
        }
    } else {
        match tree.write_attr(id32, name) {
            Ok(h) => SystreeReply::Write(h),
            Err(e) => SystreeReply::Failed(e),
        }
    }
}

} // verus!
