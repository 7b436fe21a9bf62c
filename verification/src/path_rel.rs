//! Relations between absolute paths.
use crate::errno::Errno;
use vstd::prelude::*;
use vstd::string::StringSliceAdditionalSpecFns;

verus! {

/// `child` lies strictly below `parent`: below the root means any path
/// longer than `/` that starts with `/`; otherwise `parent` followed by a
/// `/` must start `child`.
pub open spec fn strictly_under(child: Seq<u8>, parent: Seq<u8>) -> bool {
    if parent == seq![47u8] {
        child.len() > 1 && child[0] == 47u8
    } else {
        child.len() > parent.len() && child.take(parent.len() as int) == parent && child[parent.len() as int]
            == 47u8
    }
}

/// Whether `child` lies strictly below `parent` (a path is not below itself).
pub fn is_strictly_under(child: &str, parent: &str) -> (r: bool)
    ensures
        r == strictly_under(child.spec_bytes(), parent.spec_bytes()),
{
    let c = child.as_bytes();
    let p = parent.as_bytes();
    if p.len() == 1 && p[0] == 47u8 {
        assert(p@ =~= seq![47u8]);
        return c.len() > 1 && c[0] == 47u8;
    }
    assert(p@ != seq![47u8]);
    if c.len() <= p.len() {
        return false;
    }
    let mut i: usize = 0;
    while i < p.len()
        invariant
            c@ == child.spec_bytes(),
            p@ == parent.spec_bytes(),
            p@ != seq![47u8],
            p@.len() < c@.len(),
            0 <= i <= p@.len(),
            forall|j: int| 0 <= j < i ==> c@[j] == p@[j],
        decreases p@.len() - i,
    {
        if c[i] != p[i] {
            assert(c@.take(p@.len() as int)[i as int] != p@[i as int]);
            assert(c@.take(p@.len() as int) != p@);
            return false;
        }
        i += 1;
    }
    assert(c@.take(p@.len() as int) =~= p@);
    c[p.len()] == 47u8
}

/// Checks a root switch between real paths: `EBUSY` when the new root is
/// the current root, `EINVAL` when the place for the old root does not lie
/// strictly below the new root.
pub fn pivot_root_plan(new_root_real: &str, put_old_real: &str, current_root: &str) -> (r: Result<(), Errno>)
    ensures
        r == (if new_root_real.spec_bytes() == current_root.spec_bytes() {
            Err(Errno::EBUSY)
        } else if !strictly_under(put_old_real.spec_bytes(), new_root_real.spec_bytes()) {
            Err(Errno::EINVAL)
        } else {
            Ok(())
        }),
{
    if crate::bytes_util::bytes_eq(new_root_real.as_bytes(), current_root.as_bytes()) {
        return Err(Errno::EBUSY);
    }
    if !is_strictly_under(put_old_real, new_root_real) {
        return Err(Errno::EINVAL);
    }
    Ok(())
}

} // verus!
