//! DMU: the object set of a dataset.
//!
//! Objects are numbered; object 1 is the meta ZAP and object 2 the root
//! directory, user objects are numbered from 3 on. An object stays in the set
//! after it is freed, marked unused.
use crate::nestfs::bp::{bp_is_null_value, NestBlockPointer};
use crate::seq_search::{
    count_where, first_pos, has_some, is_first, lemma_count_where_push,
    lemma_first_unique,
};
use vstd::prelude::*;

verus! {

pub const HV_DMU_OBJ_META: u64 = 1;

pub const HV_DMU_OBJ_ROOT: u64 = 2;

/// Largest number of objects an object set holds.
pub const HV_DMU_MAX_OBJECTS: usize = 65536;

/// Default block size of an object.
pub const HV_DMU_BLOCK_SIZE: u32 = 8192;

/// Kinds of objects.
#[derive(Debug, Clone, Copy, PartialEq, Eq, Structural)]
pub enum NestObjType {
    Unused,
    Dir,
    File,
    Symlink,
    Zap,
}

/// The on-disk code of an object kind.
pub open spec fn obj_type_code(t: NestObjType) -> u8 {
    match t {
        NestObjType::Unused => 0,
        NestObjType::Dir => 1,
        NestObjType::File => 2,
        NestObjType::Symlink => 3,
        NestObjType::Zap => 4,
    }
}

/// The object kind of an on-disk code; unknown codes read as `Unused`.
pub open spec fn obj_type_from_code(v: u8) -> NestObjType {
    if v == 1 {
        NestObjType::Dir
    } else if v == 2 {
        NestObjType::File
    } else if v == 3 {
        NestObjType::Symlink
    } else if v == 4 {
        NestObjType::Zap
    } else {
        NestObjType::Unused
    }
}

impl NestObjType {
    /// The on-disk code.
    pub fn to_u8(self) -> (v: u8)
        ensures
            v == obj_type_code(self),
    {
        match self {
            NestObjType::Unused => 0,
            NestObjType::Dir => 1,
            NestObjType::File => 2,
            NestObjType::Symlink => 3,
            NestObjType::Zap => 4,
        }
    }

    /// The kind of an on-disk code (`Unused` for unknown codes).
    pub fn from_u8(v: u8) -> (t: Self)
        ensures
            t == obj_type_from_code(v),
    {
        if v == 1 {
            NestObjType::Dir
        } else if v == 2 {
            NestObjType::File
        } else if v == 3 {
            NestObjType::Symlink
        } else if v == 4 {
            NestObjType::Zap
        } else {
            NestObjType::Unused
        }
    }
}

/// Reading back the code of a kind gives the kind.
pub proof fn lemma_obj_type_code_roundtrip(t: NestObjType)
    ensures
        obj_type_from_code(obj_type_code(t)) == t,
{
}

/// One object of an object set.
#[derive(Debug, Clone, Copy)]
pub struct NestDmuObject {
    pub obj_id: u64,
    pub obj_type: NestObjType,
    pub block_size: u32,
    pub nblocks: u64,
    pub size: u64,
    pub bp: NestBlockPointer,
    pub atime: u64,
    pub mtime: u64,
    pub ctime: u64,
    pub owner_pwm: u64,
    pub group_pwm: u64,
    pub sensitivity: u8,
    pub pwm_perm: u16,
    pub link_count: u32,
    pub flags: u32,
    pub birth_txg: u64,
    pub data_hash: [u64; 4],
    pub fill: u64,
    pub dirty: bool,
    pub used: bool,
}

/// Default permission bits of a new object of kind `t`.
pub open spec fn default_perm(t: NestObjType) -> u16 {
    if t == NestObjType::Dir { 0o755 } else { 0o644 }
}

/// `o` is a fresh object `id` of kind `t` owned by `owner`: one link, in use,
/// empty, every other field zero.
pub open spec fn is_fresh_object(o: NestDmuObject, id: u64, t: NestObjType, owner: u64) -> bool {
    &&& o.obj_id == id
    &&& o.obj_type == t
    &&& o.block_size == HV_DMU_BLOCK_SIZE
    &&& o.nblocks == 0
    &&& o.size == 0
    &&& bp_is_null_value(o.bp)
    &&& o.atime == 0
    &&& o.mtime == 0
    &&& o.ctime == 0
    &&& o.owner_pwm == owner
    &&& o.group_pwm == owner
    &&& o.sensitivity == 0
    &&& o.pwm_perm == default_perm(t)
    &&& o.link_count == 1
    &&& o.flags == 0
    &&& o.birth_txg == 0
    &&& o.data_hash@ == seq![0u64, 0u64, 0u64, 0u64]
    &&& o.fill == 0
    &&& !o.dirty
    &&& o.used
}

impl NestDmuObject {
    /// A fresh object.
    pub fn new(obj_id: u64, obj_type: NestObjType, owner_pwm: u64) -> (o: Self)
        ensures
            is_fresh_object(o, obj_id, obj_type, owner_pwm),
    {
        let perm: u16 = if obj_type == NestObjType::Dir { 0o755 } else { 0o644 };
        let o = NestDmuObject {
            obj_id,
            obj_type,
            block_size: HV_DMU_BLOCK_SIZE,
            nblocks: 0,
            size: 0,
            bp: NestBlockPointer::null(),
            atime: 0,
            mtime: 0,
            ctime: 0,
            owner_pwm,
            group_pwm: owner_pwm,
            sensitivity: 0,
            pwm_perm: perm,
            link_count: 1,
            flags: 0,
            birth_txg: 0,
            data_hash: [0u64; 4],
            fill: 0,
            dirty: false,
            used: true,
        };
        assert(o.data_hash@ =~= seq![0u64, 0u64, 0u64, 0u64]);
        o
    }

    /// Whether the object is a directory.
    pub fn is_dir(&self) -> (r: bool)
        ensures
            r == (self.obj_type == NestObjType::Dir),
    {
        self.obj_type == NestObjType::Dir
    }
}

/// The object `id` is present and in use.
pub open spec fn live(id: u64) -> spec_fn(NestDmuObject) -> bool {
    |o: NestDmuObject| o.used && o.obj_id == id
}

/// Objects in use.
pub open spec fn is_used() -> spec_fn(NestDmuObject) -> bool {
    |o: NestDmuObject| o.used
}

/// Position of the first live object `id` of `s`.
pub open spec fn first_pos_live(s: Seq<NestDmuObject>, id: u64) -> int {
    first_pos(s, live(id))
}

/// The live object `id` of `s`, if any.
pub open spec fn objset_get(s: Seq<NestDmuObject>, id: u64) -> Option<NestDmuObject> {
    if has_some(s, live(id)) { Some(s[first_pos(s, live(id))]) } else { None }
}

/// The object after dropping one link: unused once no link is left.
pub open spec fn unlinked(o: NestDmuObject) -> NestDmuObject {
    let lc = if o.link_count == 0 { 0u32 } else { (o.link_count - 1) as u32 };
    NestDmuObject { link_count: lc, used: lc != 0, ..o }
}

/// An object set.
pub struct NestObjSet {
    pub objects: Vec<NestDmuObject>,
    pub root_obj: u64,
    pub next_obj_id: u64,
    pub initialized: bool,
}

impl NestObjSet {
    /// An empty, uninitialized object set.
    pub fn new() -> (s: Self)
        ensures
            s.objects@ == Seq::<NestDmuObject>::empty(),
            s.root_obj == HV_DMU_OBJ_ROOT,
            s.next_obj_id == HV_DMU_OBJ_ROOT + 1,
            !s.initialized,
    {
        NestObjSet { objects: Vec::new(), root_obj: HV_DMU_OBJ_ROOT, next_obj_id: HV_DMU_OBJ_ROOT + 1, initialized: false }
    }

    /// Creates the meta ZAP and the root directory, owned by `owner_pwm`.
    pub fn init(&mut self, owner_pwm: u64)
        ensures
            final(self).objects@.len() == 2,
            is_fresh_object(final(self).objects@[0], HV_DMU_OBJ_META, NestObjType::Zap, owner_pwm),
            is_fresh_object(final(self).objects@[1], HV_DMU_OBJ_ROOT, NestObjType::Dir, owner_pwm),
            final(self).initialized,
            final(self).root_obj == old(self).root_obj,
            final(self).next_obj_id == old(self).next_obj_id,
    {
        let mut objs: Vec<NestDmuObject> = Vec::new();
        objs.push(NestDmuObject::new(HV_DMU_OBJ_META, NestObjType::Zap, owner_pwm));
        objs.push(NestDmuObject::new(HV_DMU_OBJ_ROOT, NestObjType::Dir, owner_pwm));
        self.objects = objs;
        self.initialized = true;
    }

    fn find_live(&self, id: u64) -> (r: Option<usize>)
        ensures
            r is None <==> !has_some(self.objects@, live(id)),
            r matches Some(i) ==> i == first_pos(self.objects@, live(id)) && i < self.objects@.len(),
    {
        let mut i: usize = 0;
        while i < self.objects.len()
            invariant
                0 <= i <= self.objects@.len(),
                forall|j: int| 0 <= j < i ==> !live(id)(#[trigger] self.objects@[j]),
            decreases self.objects@.len() - i,
        {
            if self.objects[i].used && self.objects[i].obj_id == id {
                proof {
                    lemma_first_unique(self.objects@, live(id), i as int);
                }
                return Some(i);
            }
            i += 1;
        }
        None
    }

    /// Allocates object `next_obj_id` of kind `obj_type`. `None` for kind
    /// `None`, when the set is full, or when the numbering is exhausted.
    pub fn alloc_obj(&mut self, obj_type: NestObjType, owner_pwm: u64) -> (r: Option<u64>)
        ensures
            (obj_type == NestObjType::Unused || old(self).objects@.len() >= HV_DMU_MAX_OBJECTS
                || old(self).next_obj_id == u64::MAX) ==> r is None && *final(self) == *old(self),
            !(obj_type == NestObjType::Unused || old(self).objects@.len() >= HV_DMU_MAX_OBJECTS
                || old(self).next_obj_id == u64::MAX) ==> {
                &&& r == Some(old(self).next_obj_id)
                &&& final(self).next_obj_id == old(self).next_obj_id + 1
                &&& final(self).objects@.len() == old(self).objects@.len() + 1
                &&& final(self).objects@.take(old(self).objects@.len() as int) == old(self).objects@
                &&& is_fresh_object(final(self).objects@.last(), old(self).next_obj_id, obj_type, owner_pwm)
                &&& final(self).root_obj == old(self).root_obj
                &&& final(self).initialized == old(self).initialized
            },
    {
        if obj_type == NestObjType::Unused || self.objects.len() >= HV_DMU_MAX_OBJECTS || self.next_obj_id == u64::MAX {
            return None;
        }
        let id = self.next_obj_id;
        self.next_obj_id = id + 1;
        self.objects.push(NestDmuObject::new(id, obj_type, owner_pwm));
        assert(self.objects@.take(old(self).objects@.len() as int) =~= old(self).objects@);
        Some(id)
    }

    /// Drops one link of live object `obj_id`; it becomes unused when no link
    /// is left. `false` when there is no such object.
    pub fn free_obj(&mut self, obj_id: u64) -> (r: bool)
        ensures
            r == has_some(old(self).objects@, live(obj_id)),
            r ==> final(self).objects@ == old(self).objects@.update(
                first_pos(old(self).objects@, live(obj_id)),
                unlinked(old(self).objects@[first_pos(old(self).objects@, live(obj_id))])),
            !r ==> final(self).objects@ == old(self).objects@,
            final(self).root_obj == old(self).root_obj,
            final(self).next_obj_id == old(self).next_obj_id,
            final(self).initialized == old(self).initialized,
    {
        match self.find_live(obj_id) {
            Some(i) => {
                let mut o = self.objects[i];
                o.link_count = if o.link_count == 0 { 0 } else { o.link_count - 1 };
                o.used = o.link_count != 0;
                self.objects.set(i, o);
                true
            },
            None => false,
        }
    }

    /// A copy of live object `obj_id`.
    pub fn get_obj(&self, obj_id: u64) -> (r: Option<NestDmuObject>)
        ensures
            r == objset_get(self.objects@, obj_id),
    {
        match self.find_live(obj_id) {
            Some(i) => Some(self.objects[i]),
            None => None,
        }
    }

    /// Replaces live object `obj.obj_id` by `obj`; `false` when there is none.
    pub fn update_obj(&mut self, obj: &NestDmuObject) -> (r: bool)
        ensures
            r == has_some(old(self).objects@, live(obj.obj_id)),
            r ==> final(self).objects@ == old(self).objects@.update(first_pos(old(self).objects@, live(obj.obj_id)), *obj),
            !r ==> final(self).objects@ == old(self).objects@,
            final(self).root_obj == old(self).root_obj,
            final(self).next_obj_id == old(self).next_obj_id,
            final(self).initialized == old(self).initialized,
    {
        match self.find_live(obj.obj_id) {
            Some(i) => {
                self.objects.set(i, *obj);
                true
            },
            None => false,
        }
    }

    /// The root directory object.
    pub fn get_root(&self) -> (r: Option<NestDmuObject>)
        ensures
            r == objset_get(self.objects@, self.root_obj),
    {
        self.get_obj(self.root_obj)
    }

    /// Number of objects in use.
    pub fn obj_count(&self) -> (n: u64)
        ensures
            n == count_where(self.objects@, is_used()),
    {
        let len = self.objects.len();
        let mut n: u64 = 0;
        let mut i: usize = 0;
        while i < len
            invariant
                0 <= i <= self.objects@.len(),
                n == count_where(self.objects@.take(i as int), is_used()),
                n <= i,
                self.objects@.len() == len,
            decreases self.objects@.len() - i,
        {
            proof {
                lemma_count_where_push(self.objects@.take(i as int), self.objects@[i as int], is_used());
                assert(self.objects@.take(i + 1) =~= self.objects@.take(i as int).push(self.objects@[i as int]));
            }
            if self.objects[i].used {
                n += 1;
            }
            i += 1;
        }
        assert(self.objects@.take(self.objects@.len() as int) =~= self.objects@);
        n
    }
}

/// An object just allocated is readable, as the fresh object it was created as.
pub proof fn lemma_alloc_then_get(s: Seq<NestDmuObject>, o: NestDmuObject)
    requires
        forall|i: int| 0 <= i < s.len() ==> #[trigger] s[i].obj_id != o.obj_id,
        o.used,
    ensures
        objset_get(s.push(o), o.obj_id) == Some(o),
{
    let t = s.push(o);
    assert forall|j: int| 0 <= j < s.len() implies !live(o.obj_id)(#[trigger] t[j]) by {
        assert(t[j] == s[j]);
    }
    assert(is_first(t, live(o.obj_id), s.len() as int));
    lemma_first_unique(t, live(o.obj_id), s.len() as int);
}

/// Freeing an object with a single link makes it unreadable, provided it was
/// the only live object with that number.
pub proof fn lemma_free_last_link(s: Seq<NestDmuObject>, id: u64)
    requires
        has_some(s, live(id)),
        s[first_pos(s, live(id))].link_count == 1,
        forall|i: int, j: int| 0 <= i < s.len() && 0 <= j < s.len() && live(id)(s[i]) && live(id)(s[j]) ==> i == j,
    ensures
        objset_get(s.update(first_pos(s, live(id)), unlinked(s[first_pos(s, live(id))])), id) is None,
{
    crate::seq_search::lemma_first_exists(s, live(id));
    let k = first_pos(s, live(id));
    let t = s.update(k, unlinked(s[k]));
    if has_some(t, live(id)) {
        let m = choose|m: int| 0 <= m < t.len() && live(id)(#[trigger] t[m]);
        assert(t[m] == s[m]);
    }
}

} // verus!
