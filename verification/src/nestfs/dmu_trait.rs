//! The `DmuManager` interface over object sets, and its standard
//! implementation backed by `NestObjSet`.
use crate::nestfs::dmu::{
    first_pos_live, is_fresh_object, is_used, live, objset_get, unlinked, NestDmuObject, NestObjSet,
    NestObjType, HV_DMU_MAX_OBJECTS, HV_DMU_OBJ_META, HV_DMU_OBJ_ROOT,
};
use crate::seq_search::{count_where, has_some};
use vstd::prelude::*;

verus! {

/// An object set.
pub trait DmuManager: Send + Sync {
    /// Creates the root directory and the meta ZAP.
    fn init(&mut self, owner_pwm: u64);

    /// Whether `init` ran.
    fn is_initialized(&self) -> bool;

    /// Allocates an object; `None` when it cannot.
    fn alloc_obj(&mut self, obj_type: NestObjType, owner_pwm: u64) -> Option<u64>;

    /// Drops a link of an object; `false` when there is no such object.
    fn free_obj(&mut self, obj_id: u64) -> bool;

    /// A copy of a live object.
    fn get_obj(&self, obj_id: u64) -> Option<NestDmuObject>;

    /// Replaces a live object; `false` when there is none.
    fn update_obj(&mut self, obj: &NestDmuObject) -> bool;

    /// Number of the root directory.
    fn root_obj_id(&self) -> u64;

    /// The root directory.
    fn get_root(&self) -> Option<NestDmuObject>;

    /// Number of live objects.
    fn obj_count(&self) -> u64;

    /// Number the next allocation receives.
    fn next_obj_id(&self) -> u64;
}

/// The standard object set: a `NestObjSet`.
pub struct StandardDmu(pub NestObjSet);

impl StandardDmu {
    /// An empty, uninitialized object set.
    pub fn new() -> (d: Self)
        ensures
            d.0.objects@ == Seq::<NestDmuObject>::empty(),
            d.0.root_obj == HV_DMU_OBJ_ROOT,
            d.0.next_obj_id == HV_DMU_OBJ_ROOT + 1,
            !d.0.initialized,
    {
        StandardDmu(NestObjSet::new())
    }

    /// The wrapped object set.
    pub fn inner(&self) -> (r: &NestObjSet)
        ensures
            *r == self.0,
    {
        &self.0
    }
}

impl DmuManager for StandardDmu {
    fn init(&mut self, owner_pwm: u64)
        ensures
            final(self).0.objects@.len() == 2,
            is_fresh_object(final(self).0.objects@[0], HV_DMU_OBJ_META, NestObjType::Zap, owner_pwm),
            is_fresh_object(final(self).0.objects@[1], HV_DMU_OBJ_ROOT, NestObjType::Dir, owner_pwm),
            final(self).0.initialized,
            final(self).0.root_obj == old(self).0.root_obj,
            final(self).0.next_obj_id == old(self).0.next_obj_id,
    {
        self.0.init(owner_pwm);
    }

    fn is_initialized(&self) -> (r: bool)
        ensures
            r == self.0.initialized,
    {
        self.0.initialized
    }

    fn alloc_obj(&mut self, obj_type: NestObjType, owner_pwm: u64) -> (r: Option<u64>)
        ensures
            (obj_type == NestObjType::Unused || old(self).0.objects@.len() >= HV_DMU_MAX_OBJECTS
                || old(self).0.next_obj_id == u64::MAX) ==> r is None && final(self).0 == old(self).0,
            !(obj_type == NestObjType::Unused || old(self).0.objects@.len() >= HV_DMU_MAX_OBJECTS
                || old(self).0.next_obj_id == u64::MAX) ==> {
                &&& r == Some(old(self).0.next_obj_id)
                &&& final(self).0.next_obj_id == old(self).0.next_obj_id + 1
                &&& final(self).0.objects@.len() == old(self).0.objects@.len() + 1
                &&& final(self).0.objects@.take(old(self).0.objects@.len() as int) == old(self).0.objects@
                &&& is_fresh_object(final(self).0.objects@.last(), old(self).0.next_obj_id, obj_type, owner_pwm)
                &&& final(self).0.root_obj == old(self).0.root_obj
                &&& final(self).0.initialized == old(self).0.initialized
            },
    {
        self.0.alloc_obj(obj_type, owner_pwm)
    }

    fn free_obj(&mut self, obj_id: u64) -> (r: bool)
        ensures
            r == has_some(old(self).0.objects@, live(obj_id)),
            r ==> final(self).0.objects@ == old(self).0.objects@.update(
                first_pos_live(old(self).0.objects@, obj_id),
                unlinked(old(self).0.objects@[first_pos_live(old(self).0.objects@, obj_id)])),
            !r ==> final(self).0.objects@ == old(self).0.objects@,
            final(self).0.root_obj == old(self).0.root_obj,
            final(self).0.next_obj_id == old(self).0.next_obj_id,
            final(self).0.initialized == old(self).0.initialized,
    {
        self.0.free_obj(obj_id)
    }

    fn get_obj(&self, obj_id: u64) -> (r: Option<NestDmuObject>)
        ensures
            r == objset_get(self.0.objects@, obj_id),
    {
        self.0.get_obj(obj_id)
    }

    fn update_obj(&mut self, obj: &NestDmuObject) -> (r: bool)
        ensures
            r == has_some(old(self).0.objects@, live(obj.obj_id)),
            r ==> final(self).0.objects@ == old(self).0.objects@.update(first_pos_live(old(self).0.objects@, obj.obj_id), *obj),
            !r ==> final(self).0.objects@ == old(self).0.objects@,
            final(self).0.root_obj == old(self).0.root_obj,
            final(self).0.next_obj_id == old(self).0.next_obj_id,
            final(self).0.initialized == old(self).0.initialized,
    {
        self.0.update_obj(obj)
    }

    fn root_obj_id(&self) -> (r: u64)
        ensures
            r == self.0.root_obj,
    {
        self.0.root_obj
    }

    fn get_root(&self) -> (r: Option<NestDmuObject>)
        ensures
            r == objset_get(self.0.objects@, self.0.root_obj),
    {
        self.0.get_root()
    }

    fn obj_count(&self) -> (n: u64)
        ensures
            n == count_where(self.0.objects@, is_used()),
    {
        self.0.obj_count()
    }

    fn next_obj_id(&self) -> (r: u64)
        ensures
            r == self.0.next_obj_id,
    {
        self.0.next_obj_id
    }
}

} // verus!
