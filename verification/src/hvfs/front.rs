//! The name operations of HvFS on its root dataset: making directories,
//! looking objects up with a permission check, unlinking, renaming,
//! changing permission bits and owners, and moving a descriptor's offset.
//! Names are paths with their leading slashes removed. What the caller
//! supplies: whether HvFS is up, the caller's privilege level and whether
//! it holds the capability asked for, the current transaction group and
//! time; it frees the block an unlinked object held.
use crate::hvfs::dataset::{HvDataset, HvDsState};
use crate::hvfs::file_write::{alloc_fd, first_free, permission_spec, HvfsFd, HVFS_MAX_FDS};
use crate::nestfs::bp::NestBlockPointer;
use crate::nestfs::dmu::{live, objset_get, NestDmuObject, NestObjType, HV_DMU_MAX_OBJECTS};
use crate::nestfs::zap::{entry_value_u64, first_match, has_match, zap_insert_spec, zap_remove_spec};
use crate::nestfs::zil::{name_area, pair_area, plain_record, zil_after_add, NestZil, NestZilRecord, NestZilRecordType};
use crate::seq_search::{first_pos, has_some};
use vstd::string::StringSliceAdditionalSpecFns;
use vstd::utf8::encode_utf8;
use vstd::prelude::*;
use vstd::bytes::spec_u64_to_le_bytes;

verus! {

/// Why a name operation failed.
#[derive(Debug, Clone, Copy, PartialEq, Eq, Structural)]
pub enum HvfsError {
    NotInitialized,
    FileNotFound,
    PermissionDenied,
    Io,
    AlreadyExists,
    InvalidArgument,
    NoSpace,
    IsDirectory,
}

/// `s` without its leading `/` characters.
pub open spec fn strip_slashes(s: Seq<char>) -> Seq<char>
    decreases s.len(),
{
    if s.len() > 0 && s[0] == '/' { strip_slashes(s.skip(1)) } else { s }
}

/// The name a path stands for in the root dataset.
///
/// Calls `str::trim_start_matches('/')`, which its documentation says
/// removes every leading match of the pattern.
#[verifier::external_body]
fn strip_root(path: &str) -> (r: &str)
    ensures
        r@ == strip_slashes(path@),
{
    path.trim_start_matches('/')
}

/// The object id the dataset's directory maps `name` to.
pub open spec fn entry_of(ds: HvDataset, name: Seq<u8>) -> Option<u64> {
    if has_match(ds.dir_zap@, name) {
        Some(entry_value_u64(ds.dir_zap@[first_match(ds.dir_zap@, name)]))
    } else {
        None
    }
}

/// The live object `name` leads to.
pub open spec fn object_of(ds: HvDataset, name: Seq<u8>) -> Option<NestDmuObject> {
    match entry_of(ds, name) {
        Some(id) => objset_get(ds.objset.objects@, id),
        None => None,
    }
}

/// The name a path stands for, as bytes.
pub open spec fn root_name(path: &str) -> Seq<u8> {
    encode_utf8(strip_slashes(path@))
}

/// `z` is the log `old` with one record of kind `t` for `name` added.
pub open spec fn logged(old: NestZil, z: NestZil, t: NestZilRecordType, txg: u64, area: Seq<u8>) -> bool {
    exists|rec: NestZilRecord| #![trigger zil_after_add(old, z, rec)]
        zil_after_add(old, z, rec) && plain_record(rec, t, txg, 0, 0, 0, 0) && rec.name@ == area
}

/// The dataset can take a new object: writeable, active, room left and an
/// id to give.
pub open spec fn can_create(ds: HvDataset) -> bool {
    &&& ds.writeable && ds.state == HvDsState::Active
    &&& !(ds.objset.objects@.len() >= HV_DMU_MAX_OBJECTS || ds.objset.next_obj_id == u64::MAX)
}

/// `mkdir(path)`: a directory object entered under the path's name, logged;
/// `Io` when the dataset cannot take it.
pub fn hvfs_mkdir(initialized: bool, ds: &mut HvDataset, zil: &mut NestZil, path: &str, pwm: u64, txg: u64)
    -> (r: Result<u64, HvfsError>)
    ensures
        !initialized ==> r == Err::<u64, HvfsError>(HvfsError::NotInitialized) && *final(ds) == *old(ds)
            && *final(zil) == *old(zil),
        initialized && !can_create(*old(ds)) ==> r == Err::<u64, HvfsError>(HvfsError::Io)
            && *final(ds) == *old(ds) && *final(zil) == *old(zil),
        initialized && can_create(*old(ds)) ==> {
            &&& r == Ok::<u64, HvfsError>(old(ds).objset.next_obj_id)
            &&& final(ds).objset.objects@.last().obj_type == NestObjType::Dir
            &&& final(ds).dir_zap@ == zap_insert_spec(old(ds).dir_zap@, old(ds).dir_zap.capacity as int,
                root_name(path), spec_u64_to_le_bytes(old(ds).objset.next_obj_id)).0
            &&& logged(*old(zil), *final(zil), NestZilRecordType::Mkdir, txg, name_area(root_name(path), 127))
        },
{
    if !initialized {
        return Err(HvfsError::NotInitialized);
    }
    let name = strip_root(path);
    match ds.create_dir(name, pwm) {
        None => Err(HvfsError::Io),
        Some(id) => {
            let rec = NestZilRecord::new_mkdir(txg, 0, name);
            zil.add_record(rec);
            Ok(id)
        },
    }
}

/// `stat(path)`: the object the path's name leads to, when the caller may
/// read it (see `permission_spec`; `has_cap` is whether it holds the read
/// capability).
pub fn hvfs_stat(initialized: bool, ds: &HvDataset, path: &str, pwm: u64, level: u8, has_cap: bool)
    -> (r: Option<NestDmuObject>)
    ensures
        r == (if initialized && object_of(*ds, root_name(path)) is Some
            && permission_spec(pwm, level, object_of(*ds, root_name(path))->0.owner_pwm, has_cap) {
            object_of(*ds, root_name(path))
        } else {
            None
        }),
{
    if !initialized {
        return None;
    }
    let name = strip_root(path);
    let id = match ds.lookup(name) {
        Some(id) => id,
        None => {
            return None;
        },
    };
    let obj = match ds.objset.get_obj(id) {
        Some(o) => o,
        None => {
            return None;
        },
    };
    if !crate::hvfs::file_write::permission_granted(pwm, level, obj.owner_pwm, has_cap) {
        return None;
    }
    Some(obj)
}

/// `unlink(path)`: the name removed and its object's link dropped, logged;
/// the result is the block the object held, for the caller to free (`None`
/// when its pointer is null). `FileNotFound` without such a name or live
/// object, `PermissionDenied` when the caller may not write it (`has_cap`:
/// the write capability), `Io` when the dataset is not writeable.
pub fn hvfs_unlink(initialized: bool, ds: &mut HvDataset, zil: &mut NestZil, path: &str, pwm: u64, level: u8,
    has_cap: bool, txg: u64) -> (r: Result<Option<NestBlockPointer>, HvfsError>)
    ensures
        r is Err ==> *final(zil) == *old(zil),
        r is Err && r != Err::<Option<NestBlockPointer>, HvfsError>(HvfsError::Io) ==> *final(ds) == *old(ds),
        ({
            let nm = root_name(path);
            let o = object_of(*old(ds), nm);
            &&& !initialized ==> r == Err::<Option<NestBlockPointer>, HvfsError>(HvfsError::NotInitialized)
            &&& initialized && o is None ==> r == Err::<Option<NestBlockPointer>, HvfsError>(HvfsError::FileNotFound)
            &&& initialized && o is Some && !permission_spec(pwm, level, o->0.owner_pwm, has_cap)
                ==> r == Err::<Option<NestBlockPointer>, HvfsError>(HvfsError::PermissionDenied)
            &&& initialized && o is Some && permission_spec(pwm, level, o->0.owner_pwm, has_cap)
                && !(old(ds).writeable && old(ds).state == HvDsState::Active)
                ==> r == Err::<Option<NestBlockPointer>, HvfsError>(HvfsError::Io) && *final(ds) == *old(ds)
            &&& initialized && o is Some && permission_spec(pwm, level, o->0.owner_pwm, has_cap)
                && old(ds).writeable && old(ds).state == HvDsState::Active ==> {
                &&& final(ds).dir_zap@ == zap_remove_spec(old(ds).dir_zap@, nm).0
                &&& r == Ok::<Option<NestBlockPointer>, HvfsError>(
                    if o->0.bp.dva[0].vdev_id == 0 && o->0.bp.dva[0].offset == 0 && o->0.bp.dva[0].asize == 0
                        && o->0.bp.dva[1].vdev_id == 0 && o->0.bp.dva[1].offset == 0 && o->0.bp.dva[1].asize == 0 {
                        None
                    } else {
                        Some(o->0.bp)
                    })
                &&& logged(*old(zil), *final(zil), NestZilRecordType::Remove, txg, name_area(nm, 127))
            }
        }),
{
    if !initialized {
        return Err(HvfsError::NotInitialized);
    }
    let name = strip_root(path);
    let id = match ds.lookup(name) {
        Some(id) => id,
        None => {
            return Err(HvfsError::FileNotFound);
        },
    };
    let obj = match ds.objset.get_obj(id) {
        Some(o) => o,
        None => {
            return Err(HvfsError::FileNotFound);
        },
    };
    if !crate::hvfs::file_write::permission_granted(pwm, level, obj.owner_pwm, has_cap) {
        return Err(HvfsError::PermissionDenied);
    }
    if !ds.unlink(name) {
        return Err(HvfsError::Io);
    }
    let rec = NestZilRecord::new_remove(txg, 0, name);
    zil.add_record(rec);
    if obj.bp.is_null() {
        Ok(None)
    } else {
        Ok(Some(obj.bp))
    }
}

/// `rename(old, new)`: the old name removed and the new one entered for
/// the same object, logged. `FileNotFound` without such a name or live
/// object, `PermissionDenied` when the caller may not write it,
/// `AlreadyExists` when the new name is taken.
pub fn hvfs_rename(initialized: bool, ds: &mut HvDataset, zil: &mut NestZil, old_path: &str, new_path: &str, pwm: u64,
    level: u8, has_cap: bool, txg: u64) -> (r: Result<(), HvfsError>)
    ensures
        r is Err ==> *final(zil) == *old(zil) && *final(ds) == *old(ds),
        ({
            let on = root_name(old_path);
            let nn = root_name(new_path);
            let o = object_of(*old(ds), on);
            &&& !initialized ==> r == Err::<(), HvfsError>(HvfsError::NotInitialized)
            &&& initialized && o is None ==> r == Err::<(), HvfsError>(HvfsError::FileNotFound)
            &&& initialized && o is Some && !permission_spec(pwm, level, o->0.owner_pwm, has_cap)
                ==> r == Err::<(), HvfsError>(HvfsError::PermissionDenied)
            &&& initialized && o is Some && permission_spec(pwm, level, o->0.owner_pwm, has_cap)
                && entry_of(*old(ds), nn) is Some ==> r == Err::<(), HvfsError>(HvfsError::AlreadyExists)
            &&& initialized && o is Some && permission_spec(pwm, level, o->0.owner_pwm, has_cap)
                && entry_of(*old(ds), nn) is None ==> {
                let id = entry_of(*old(ds), on)->0;
                let removed = zap_remove_spec(old(ds).dir_zap@, on).0;
                &&& r is Ok
                &&& final(ds).dir_zap@ == zap_insert_spec(removed, old(ds).dir_zap.capacity as int, nn,
                    spec_u64_to_le_bytes(id)).0
                &&& final(ds).objset == old(ds).objset
                &&& exists|rec: NestZilRecord| #![trigger zil_after_add(*old(zil), *final(zil), rec)]
                    zil_after_add(*old(zil), *final(zil), rec)
                    && plain_record(rec, NestZilRecordType::Rename, txg, 0, 0, 0, 0) && rec.name@ == pair_area(on, nn)
            }
        }),
{
    if !initialized {
        return Err(HvfsError::NotInitialized);
    }
    let on = strip_root(old_path);
    let nn = strip_root(new_path);
    let id = match ds.lookup(on) {
        Some(id) => id,
        None => {
            return Err(HvfsError::FileNotFound);
        },
    };
    let obj = match ds.objset.get_obj(id) {
        Some(o) => o,
        None => {
            return Err(HvfsError::FileNotFound);
        },
    };
    if !crate::hvfs::file_write::permission_granted(pwm, level, obj.owner_pwm, has_cap) {
        return Err(HvfsError::PermissionDenied);
    }
    if ds.lookup(nn).is_some() {
        return Err(HvfsError::AlreadyExists);
    }
    let _ = ds.dir_zap.remove(on);
    let _ = ds.dir_zap.insert_u64(nn, id);
    let rec = NestZilRecord::new_rename(txg, 0, on, nn);
    zil.add_record(rec);
    Ok(())
}

/// The objects after live object `o.obj_id` is replaced by `o`.
pub open spec fn objects_with(s: Seq<NestDmuObject>, o: NestDmuObject) -> Seq<NestDmuObject> {
    s.update(first_pos(s, live(o.obj_id)), o)
}

/// `chmod(path, mode)`: the object's permission bits set to `mode`, its
/// change time to `now`, marked dirty. `FileNotFound` without such a name
/// or live object; `PermissionDenied` when the caller neither owns it nor
/// has privilege level 0.
pub fn hvfs_chmod(initialized: bool, ds: &mut HvDataset, path: &str, mode: u16, pwm: u64, level: u8, now: u64)
    -> (r: Result<(), HvfsError>)
    ensures
        r is Err ==> *final(ds) == *old(ds),
        ({
            let o = object_of(*old(ds), root_name(path));
            &&& !initialized ==> r == Err::<(), HvfsError>(HvfsError::NotInitialized)
            &&& initialized && o is None ==> r == Err::<(), HvfsError>(HvfsError::FileNotFound)
            &&& initialized && o is Some && o->0.owner_pwm != pwm && level != 0
                ==> r == Err::<(), HvfsError>(HvfsError::PermissionDenied)
            &&& initialized && o is Some && !(o->0.owner_pwm != pwm && level != 0) ==> {
                &&& r is Ok
                &&& final(ds).objset.objects@ == objects_with(old(ds).objset.objects@,
                    NestDmuObject { pwm_perm: mode, ctime: now, dirty: true, ..o->0 })
                &&& *final(ds) == (HvDataset { objset: final(ds).objset, ..*old(ds) })
            }
        }),
{
    if !initialized {
        return Err(HvfsError::NotInitialized);
    }
    let name = strip_root(path);
    let id = match ds.lookup(name) {
        Some(id) => id,
        None => {
            return Err(HvfsError::FileNotFound);
        },
    };
    let obj = match ds.objset.get_obj(id) {
        Some(o) => o,
        None => {
            return Err(HvfsError::FileNotFound);
        },
    };
    if obj.owner_pwm != pwm && level != 0 {
        return Err(HvfsError::PermissionDenied);
    }
    let o2 = NestDmuObject { pwm_perm: mode, ctime: now, dirty: true, ..obj };
    proof {
        crate::seq_search::lemma_first_exists(ds.objset.objects@, live(id));
        assert(live(id)(obj));
        assert(o2.obj_id == id);
    }
    if ds.objset.update_obj(&o2) {
        Ok(())
    } else {
        Err(HvfsError::Io)
    }
}

/// `chown(path, owner, group)`: refused with `PermissionDenied` unless the
/// caller has privilege level 0; then the object's owner is set, its group
/// too when `group_pwm` is not 0, its change time to `now`, marked dirty.
pub fn hvfs_chown_ext(initialized: bool, ds: &mut HvDataset, path: &str, owner_pwm: u64, group_pwm: u64, level: u8, now: u64)
    -> (r: Result<(), HvfsError>)
    ensures
        r is Err ==> *final(ds) == *old(ds),
        ({
            let o = object_of(*old(ds), root_name(path));
            &&& !initialized ==> r == Err::<(), HvfsError>(HvfsError::NotInitialized)
            &&& initialized && level != 0 ==> r == Err::<(), HvfsError>(HvfsError::PermissionDenied)
            &&& initialized && level == 0 && o is None ==> r == Err::<(), HvfsError>(HvfsError::FileNotFound)
            &&& initialized && level == 0 && o is Some ==> {
                &&& r is Ok
                &&& final(ds).objset.objects@ == objects_with(old(ds).objset.objects@, NestDmuObject {
                    owner_pwm: owner_pwm,
                    group_pwm: if group_pwm != 0 { group_pwm } else { o->0.group_pwm },
                    ctime: now,
                    dirty: true,
                    ..o->0
                })
                &&& *final(ds) == (HvDataset { objset: final(ds).objset, ..*old(ds) })
            }
        }),
{
    if !initialized {
        return Err(HvfsError::NotInitialized);
    }
    let name = strip_root(path);
    if level != 0 {
        return Err(HvfsError::PermissionDenied);
    }
    let id = match ds.lookup(name) {
        Some(id) => id,
        None => {
            return Err(HvfsError::FileNotFound);
        },
    };
    let obj = match ds.objset.get_obj(id) {
        Some(o) => o,
        None => {
            return Err(HvfsError::FileNotFound);
        },
    };
    let g = if group_pwm != 0 { group_pwm } else { obj.group_pwm };
    let o2 = NestDmuObject { owner_pwm, group_pwm: g, ctime: now, dirty: true, ..obj };
    proof {
        crate::seq_search::lemma_first_exists(ds.objset.objects@, live(id));
        assert(live(id)(obj));
        assert(o2.obj_id == id);
    }
    if ds.objset.update_obj(&o2) {
        Ok(())
    } else {
        Err(HvfsError::Io)
    }
}

/// The offset a seek asks for: from the start (0), from the current offset
/// (1) or from the end (2), computed as a signed sum and taken as unsigned.
pub open spec fn seek_target(cur: u64, size: u64, offset: i64, whence: u32) -> u64 {
    if whence == 0 {
        offset as u64
    } else if whence == 1 {
        ((cur as i64) + offset) as u64
    } else {
        ((size as i64) + offset) as u64
    }
}

/// `seek(fd, offset, whence)`: the descriptor's new offset. `InvalidArgument`
/// for a descriptor out of range or not in use, or an unknown `whence`;
/// `FileNotFound` when its object is gone.
pub fn hvfs_seek(fds: &mut [HvfsFd; HVFS_MAX_FDS], ds: &HvDataset, fd: u32, offset: i64, whence: u32)
    -> (r: Result<u64, HvfsError>)
    requires
        (fd as int) < HVFS_MAX_FDS && old(fds)@[fd as int].used ==> {
            let d = old(fds)@[fd as int];
            let o = objset_get(ds.objset.objects@, d.obj_id);
            &&& whence == 1 ==> i64::MIN <= (d.offset as i64) + offset <= i64::MAX
            &&& whence == 2 && o is Some ==> i64::MIN <= (o->0.size as i64) + offset <= i64::MAX
        },
    ensures
        r is Err ==> final(fds)@ == old(fds)@,
        fd as int >= HVFS_MAX_FDS || !old(fds)@[fd as int].used ==> r == Err::<u64, HvfsError>(HvfsError::InvalidArgument),
        (fd as int) < HVFS_MAX_FDS && old(fds)@[fd as int].used ==> {
            let d = old(fds)@[fd as int];
            let o = objset_get(ds.objset.objects@, d.obj_id);
            &&& o is None ==> r == Err::<u64, HvfsError>(HvfsError::FileNotFound)
            &&& o is Some && whence > 2 ==> r == Err::<u64, HvfsError>(HvfsError::InvalidArgument)
            &&& o is Some && whence <= 2 ==> {
                let t = seek_target(d.offset, o->0.size, offset, whence);
                &&& r == Ok::<u64, HvfsError>(t)
                &&& final(fds)@ == old(fds)@.update(fd as int, HvfsFd { offset: t, ..d })
            }
        },
{
    let idx = fd as usize;
    if idx >= HVFS_MAX_FDS || !fds[idx].used {
        return Err(HvfsError::InvalidArgument);
    }
    let d = fds[idx];
    let obj = match ds.objset.get_obj(d.obj_id) {
        Some(o) => o,
        None => {
            return Err(HvfsError::FileNotFound);
        },
    };
    let t: u64 = if whence == 0 {
        offset as u64
    } else if whence == 1 {
        ((d.offset as i64) + offset) as u64
    } else if whence == 2 {
        ((obj.size as i64) + offset) as u64
    } else {
        return Err(HvfsError::InvalidArgument);
    };
    fds[idx] = HvfsFd { offset: t, ..d };
    Ok(t)
}

/// Flag asking `open` to create a missing file.
pub const HVFS_O_CREAT: u32 = 0x0100;

/// Flag asking `open` to start at the end of the file.
pub const HVFS_O_APPEND: u32 = 0x0400;

/// `open(path, flags)`: the descriptor slot opened on the object the path's
/// name leads to, created as a file first when missing and `flags` holds
/// `HVFS_O_CREAT`; the offset starts at the object's end with
/// `HVFS_O_APPEND`, else at 0; the open is logged. `FileNotFound` when
/// there is no object (or it could not be created), `PermissionDenied` when
/// the caller may not read it (`has_cap`: the read capability), `NoSpace`
/// when every descriptor is in use. The descriptor numbering `next_fd`
/// moves on as `alloc_fd` says.
pub fn hvfs_open(initialized: bool, ds: &mut HvDataset, fds: &mut [HvfsFd; HVFS_MAX_FDS], next_fd: u32,
    zil: &mut NestZil, path: &str, flags: u32, pwm: u64, level: u8, has_cap: bool, root_ds_id: u64)
    -> (r: (Result<usize, HvfsError>, u32))
    ensures
        r.0 is Err ==> final(fds)@ == old(fds)@ && *final(zil) == *old(zil) && r.1 == next_fd,
        !initialized ==> r.0 == Err::<usize, HvfsError>(HvfsError::NotInitialized) && *final(ds) == *old(ds),
        initialized ==> ({
            let nm = root_name(path);
            let creates = entry_of(*old(ds), nm) is None && flags & HVFS_O_CREAT != 0 && can_create(*old(ds));
            let id = if entry_of(*old(ds), nm) is Some { entry_of(*old(ds), nm)->0 } else { old(ds).objset.next_obj_id };
            let o = objset_get(final(ds).objset.objects@, id);
            &&& !creates ==> *final(ds) == *old(ds)
            &&& creates ==> final(ds).objset.objects@.last().obj_type == NestObjType::File
                && final(ds).dir_zap@ == zap_insert_spec(old(ds).dir_zap@, old(ds).dir_zap.capacity as int,
                    nm, spec_u64_to_le_bytes(old(ds).objset.next_obj_id)).0
            &&& (entry_of(*old(ds), nm) is Some || creates) && o is None
                ==> r.0 == Err::<usize, HvfsError>(HvfsError::FileNotFound)
            &&& !(entry_of(*old(ds), nm) is Some || creates) ==> r.0 == Err::<usize, HvfsError>(HvfsError::FileNotFound)
            &&& o is Some && (entry_of(*old(ds), nm) is Some || creates) ==> {
                let obj = o->0;
                &&& !permission_spec(pwm, level, obj.owner_pwm, has_cap)
                    ==> r.0 == Err::<usize, HvfsError>(HvfsError::PermissionDenied)
                &&& permission_spec(pwm, level, obj.owner_pwm, has_cap)
                    && (forall|j: int| 0 <= j < HVFS_MAX_FDS ==> (#[trigger] old(fds)@[j]).used)
                    ==> r.0 == Err::<usize, HvfsError>(HvfsError::NoSpace)
                &&& r.0 matches Ok(i) ==> {
                    &&& permission_spec(pwm, level, obj.owner_pwm, has_cap)
                    &&& first_free(old(fds)@, i as int)
                    &&& r.1 == next_fd.wrapping_add(1)
                    &&& final(fds)@ == old(fds)@.update(i as int, HvfsFd {
                        fd: next_fd,
                        used: true,
                        obj_id: obj.obj_id,
                        ds_id: root_ds_id,
                        offset: if flags & HVFS_O_APPEND != 0 { obj.size } else { 0 },
                        flags: flags,
                        pwm: pwm,
                    })
                    &&& logged(*old(zil), *final(zil), NestZilRecordType::Create, 0, name_area(nm, 127))
                }
                &&& permission_spec(pwm, level, obj.owner_pwm, has_cap)
                    && !(forall|j: int| 0 <= j < HVFS_MAX_FDS ==> (#[trigger] old(fds)@[j]).used) ==> r.0 is Ok
            }
        }),
{
    if !initialized {
        return (Err(HvfsError::NotInitialized), next_fd);
    }
    let name = strip_root(path);
    let found = ds.lookup(name);
    let id = match found {
        Some(id) => id,
        None => {
            if flags & HVFS_O_CREAT != 0 {
                match ds.create_file(name, pwm) {
                    Some(id) => id,
                    None => {
                        return (Err(HvfsError::FileNotFound), next_fd);
                    },
                }
            } else {
                return (Err(HvfsError::FileNotFound), next_fd);
            }
        },
    };
    let obj = match ds.objset.get_obj(id) {
        Some(o) => o,
        None => {
            return (Err(HvfsError::FileNotFound), next_fd);
        },
    };
    if !crate::hvfs::file_write::permission_granted(pwm, level, obj.owner_pwm, has_cap) {
        return (Err(HvfsError::PermissionDenied), next_fd);
    }
    let (slot, nf) = alloc_fd(fds, next_fd);
    let i = match slot {
        Some(i) => i,
        None => {
            return (Err(HvfsError::NoSpace), next_fd);
        },
    };
    let mut d = fds[i];
    d.obj_id = id;
    d.ds_id = root_ds_id;
    d.offset = if flags & HVFS_O_APPEND != 0 { obj.size } else { 0 };
    d.flags = flags;
    d.pwm = pwm;
    proof {
        crate::seq_search::lemma_first_exists(ds.objset.objects@, live(id));
    }
    fds[i] = d;
    let rec = NestZilRecord::new_create(0, 0, name);
    zil.add_record(rec);
    (Ok(i), nf)
}

/// `link(old, new)`: the object the old name leads to gains a link (and is
/// marked dirty) and is entered under the new name, logged. `FileNotFound`
/// without such a name or live object, `IsDirectory` for a directory,
/// `PermissionDenied` when the caller may not write it, `AlreadyExists`
/// when the new name is taken, `Io` when the dataset is not writeable (the
/// link count has then already grown).
pub fn hvfs_link(initialized: bool, ds: &mut HvDataset, zil: &mut NestZil, old_path: &str, new_path: &str, pwm: u64,
    level: u8, has_cap: bool, txg: u64) -> (r: Result<(), HvfsError>)
    requires
        object_of(*old(ds), root_name(old_path)) is Some ==> object_of(*old(ds), root_name(old_path))->0.link_count < u32::MAX,
    ensures
        r is Err ==> *final(zil) == *old(zil),
        ({
            let on = root_name(old_path);
            let nn = root_name(new_path);
            let o = object_of(*old(ds), on);
            let pass = initialized && o is Some && o->0.obj_type != NestObjType::Dir
                && permission_spec(pwm, level, o->0.owner_pwm, has_cap) && entry_of(*old(ds), nn) is None;
            let linked = NestDmuObject { link_count: (o->0.link_count + 1) as u32, dirty: true, ..o->0 };
            &&& !initialized ==> r == Err::<(), HvfsError>(HvfsError::NotInitialized)
            &&& initialized && o is None ==> r == Err::<(), HvfsError>(HvfsError::FileNotFound)
            &&& initialized && o is Some && o->0.obj_type == NestObjType::Dir
                ==> r == Err::<(), HvfsError>(HvfsError::IsDirectory)
            &&& initialized && o is Some && o->0.obj_type != NestObjType::Dir
                && !permission_spec(pwm, level, o->0.owner_pwm, has_cap)
                ==> r == Err::<(), HvfsError>(HvfsError::PermissionDenied)
            &&& initialized && o is Some && o->0.obj_type != NestObjType::Dir
                && permission_spec(pwm, level, o->0.owner_pwm, has_cap) && entry_of(*old(ds), nn) is Some
                ==> r == Err::<(), HvfsError>(HvfsError::AlreadyExists)
            &&& !pass ==> *final(ds) == *old(ds)
            &&& pass ==> final(ds).objset.objects@ == objects_with(old(ds).objset.objects@, linked)
            &&& pass && !(old(ds).writeable && old(ds).state == HvDsState::Active)
                ==> r == Err::<(), HvfsError>(HvfsError::Io) && final(ds).dir_zap == old(ds).dir_zap
            &&& pass && old(ds).writeable && old(ds).state == HvDsState::Active ==> {
                &&& r is Ok
                &&& final(ds).dir_zap@ == zap_insert_spec(old(ds).dir_zap@, old(ds).dir_zap.capacity as int, nn,
                    spec_u64_to_le_bytes(o->0.obj_id)).0
                &&& exists|rec: NestZilRecord| #![trigger zil_after_add(*old(zil), *final(zil), rec)]
                    zil_after_add(*old(zil), *final(zil), rec)
                    && plain_record(rec, NestZilRecordType::Link, txg, o->0.obj_id, 0, 0, 0)
                    && rec.name@ == name_area(nn, 127)
            }
        }),
{
    if !initialized {
        return Err(HvfsError::NotInitialized);
    }
    let on = strip_root(old_path);
    let nn = strip_root(new_path);
    let id = match ds.lookup(on) {
        Some(id) => id,
        None => {
            return Err(HvfsError::FileNotFound);
        },
    };
    let obj = match ds.objset.get_obj(id) {
        Some(o) => o,
        None => {
            return Err(HvfsError::FileNotFound);
        },
    };
    if obj.obj_type == NestObjType::Dir {
        return Err(HvfsError::IsDirectory);
    }
    if !crate::hvfs::file_write::permission_granted(pwm, level, obj.owner_pwm, has_cap) {
        return Err(HvfsError::PermissionDenied);
    }
    if ds.lookup(nn).is_some() {
        return Err(HvfsError::AlreadyExists);
    }
    let o2 = NestDmuObject { link_count: obj.link_count + 1, dirty: true, ..obj };
    proof {
        crate::seq_search::lemma_first_exists(ds.objset.objects@, live(id));
        assert(live(id)(obj));
    }
    let _ = ds.objset.update_obj(&o2);
    if !ds.link(nn, id) {
        return Err(HvfsError::Io);
    }
    let rec = NestZilRecord::new_link(txg, 0, nn, id);
    zil.add_record(rec);
    Ok(())
}

} // verus!
