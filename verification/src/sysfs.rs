//! The system file system: a fixed list of read-only nodes whose values are
//! rendered as text.
use crate::bytes_util::{bytes_eq, copy_into_slice, format_spec, format_u64};
use crate::errno::Errno;
use vstd::prelude::*;
use vstd::string::StringSliceAdditionalSpecFns;

verus! {

/// The value of a node.
#[derive(Debug, Clone, Copy, PartialEq, Eq)]
pub enum SysfsValue {
    Integer(u64),
    String(&'static str),
    Bool(bool),
}

/// A node: its name and permission bits.
#[derive(Debug, Clone, Copy)]
pub struct SysfsNode {
    pub name: &'static str,
    pub perm: u16,
}

impl SysfsNode {
    /// A read-only node.
    pub fn new(name: &'static str) -> (n: Self)
        ensures
            n.name == name,
            n.perm == 0o444,
    {
        SysfsNode { name, perm: 0o444 }
    }
}

/// Names of the nodes, in order.
pub open spec fn node_names() -> Seq<Seq<u8>> {
    seq![
        "cpu_count".spec_bytes(),
        "mem_total".spec_bytes(),
        "mem_free".spec_bytes(),
        "uptime_secs".spec_bytes(),
        "version".spec_bytes(),
        "boot_status".spec_bytes(),
    ]
}

/// The nodes of the file system.
pub fn queenx_nodes() -> (r: Vec<SysfsNode>)
    ensures
        r@.len() == node_names().len(),
        forall|i: int| 0 <= i < r@.len() ==> (#[trigger] r@[i]).name.spec_bytes() == node_names()[i]
            && r@[i].perm == 0o444,
{
    let mut v: Vec<SysfsNode> = Vec::new();
    v.push(SysfsNode::new("cpu_count"));
    v.push(SysfsNode::new("mem_total"));
    v.push(SysfsNode::new("mem_free"));
    v.push(SysfsNode::new("uptime_secs"));
    v.push(SysfsNode::new("version"));
    v.push(SysfsNode::new("boot_status"));
    v
}

/// Number of nodes.
pub fn node_count() -> (r: usize)
    ensures
        r == node_names().len(),
{
    queenx_nodes().len()
}

/// Whether a node is named `name`.
pub fn has_node(name: &str) -> (r: bool)
    ensures
        r == node_names().contains(name.spec_bytes()),
{
    let nodes = queenx_nodes();
    let mut i: usize = 0;
    while i < nodes.len()
        invariant
            nodes@.len() == node_names().len(),
            forall|k: int| 0 <= k < nodes@.len() ==> (#[trigger] nodes@[k]).name.spec_bytes() == node_names()[k],
            0 <= i <= nodes@.len(),
            forall|k: int| 0 <= k < i ==> node_names()[k] != name.spec_bytes(),
        decreases nodes@.len() - i,
    {
        if bytes_eq(nodes[i].name.as_bytes(), name.as_bytes()) {
            proof {
                assert(node_names()[i as int] == name.spec_bytes());
            }
            return true;
        }
        i += 1;
    }
    false
}

/// The value of the node named `name`, if any.
pub open spec fn node_value(name: Seq<u8>) -> Option<SysfsValue> {
    if name == "cpu_count".spec_bytes() {
        Some(SysfsValue::Integer(1))
    } else if name == "mem_total".spec_bytes() {
        Some(SysfsValue::Integer(0x10000000))
    } else if name == "mem_free".spec_bytes() {
        Some(SysfsValue::Integer(0x08000000))
    } else if name == "uptime_secs".spec_bytes() {
        Some(SysfsValue::Integer(0))
    } else if name == "version".spec_bytes() {
        Some(SysfsValue::String("queenx-0.1.0"))
    } else if name == "boot_status".spec_bytes() {
        Some(SysfsValue::Bool(true))
    } else {
        None
    }
}

/// The text of a value.
pub open spec fn value_text(v: SysfsValue) -> Seq<u8> {
    match v {
        SysfsValue::Integer(n) => format_spec(n),
        SysfsValue::String(s) => s.spec_bytes(),
        SysfsValue::Bool(b) => seq![if b { 49u8 } else { 48u8 }],
    }
}

/// Writes the text of node `name` to the front of `buf` and returns its
/// length; `ENOENT` for an unknown node, `EINVAL` when `buf` is shorter
/// than the text.
pub fn write_node_value(name: &str, buf: &mut [u8]) -> (r: Result<usize, Errno>)
    ensures
        node_value(name.spec_bytes()) is None ==> r == Err::<usize, Errno>(Errno::ENOENT) && final(buf)@ == old(buf)@,
        node_value(name.spec_bytes()) matches Some(v) ==> {
            let t = value_text(v);
            &&& old(buf)@.len() < t.len() ==> r == Err::<usize, Errno>(Errno::EINVAL) && final(buf)@ == old(buf)@
            &&& old(buf)@.len() >= t.len() ==> r == Ok::<usize, Errno>(t.len() as usize)
                && final(buf)@ == t + old(buf)@.skip(t.len() as int)
        },
{
    let b = name.as_bytes();
    let val = if bytes_eq(b, "cpu_count".as_bytes()) {
        SysfsValue::Integer(1)
    } else if bytes_eq(b, "mem_total".as_bytes()) {
        SysfsValue::Integer(0x10000000)
    } else if bytes_eq(b, "mem_free".as_bytes()) {
        SysfsValue::Integer(0x08000000)
    } else if bytes_eq(b, "uptime_secs".as_bytes()) {
        SysfsValue::Integer(0)
    } else if bytes_eq(b, "version".as_bytes()) {
        SysfsValue::String("queenx-0.1.0")
    } else if bytes_eq(b, "boot_status".as_bytes()) {
        SysfsValue::Bool(true)
    } else {
        return Err(Errno::ENOENT);
    };
    match val {
        SysfsValue::Integer(n) => {
            let s = format_u64(n);
            if buf.len() < s.len() {
                return Err(Errno::EINVAL);
            }
            copy_into_slice(buf, s.as_slice());
            Ok(s.len())
        },
        SysfsValue::String(s) => {
            let bytes = s.as_bytes();
            if buf.len() < bytes.len() {
                return Err(Errno::EINVAL);
            }
            copy_into_slice(buf, bytes);
            Ok(bytes.len())
        },
        SysfsValue::Bool(v) => {
            let c: u8 = if v { 49 } else { 48 };
            if buf.len() == 0 {
                return Err(Errno::EINVAL);
            }
            buf[0] = c;
            proof {
                assert(buf@ =~= seq![c] + old(buf)@.skip(1));
            }
            Ok(1)
        },
    }
}

/// Mounts the file system; `EINVAL` if it had no nodes.
pub fn mount_sysfs() -> (r: Result<(), Errno>)
    ensures
        r is Ok,
{
    if queenx_nodes().len() == 0 {
        return Err(Errno::EINVAL);
    }
    Ok(())
}

/// Unmounts the file system.
pub fn umount_sysfs() -> (r: Result<(), Errno>)
    ensures
        r is Ok,
{
    Ok(())
}

} // verus!
