//! First-match search over sequences, used by the table-like stores.
use vstd::prelude::*;

verus! {

/// `i` is the first position of `s` whose element satisfies `p`.
pub open spec fn is_first<T>(s: Seq<T>, p: spec_fn(T) -> bool, i: int) -> bool {
    &&& 0 <= i < s.len()
    &&& p(s[i])
    &&& forall|j: int| 0 <= j < i ==> !p(#[trigger] s[j])
}

/// Some element of `s` satisfies `p`.
pub open spec fn has_some<T>(s: Seq<T>, p: spec_fn(T) -> bool) -> bool {
    exists|i: int| 0 <= i < s.len() && p(#[trigger] s[i])
}

/// The first position whose element satisfies `p` (meaningful under `has_some`).
pub open spec fn first_pos<T>(s: Seq<T>, p: spec_fn(T) -> bool) -> int {
    choose|i: int| is_first(s, p, i)
}

/// The first position is unique.
pub proof fn lemma_first_unique<T>(s: Seq<T>, p: spec_fn(T) -> bool, i: int)
    requires
        is_first(s, p, i),
    ensures
        has_some(s, p),
        first_pos(s, p) == i,
{
    assert(p(s[i]));
    let k = first_pos(s, p);
    assert(is_first(s, p, k));
    if k < i {
        assert(!p(s[k]));
    }
    if i < k {
        assert(!p(s[i]));
    }
}

/// When some element satisfies `p`, `first_pos` is the first such position.
pub proof fn lemma_first_exists<T>(s: Seq<T>, p: spec_fn(T) -> bool)
    requires
        has_some(s, p),
    ensures
        is_first(s, p, first_pos(s, p)),
    decreases s.len(),
{
    let q = s.drop_last();
    if has_some(q, p) {
        lemma_first_exists(q, p);
        let i = first_pos(q, p);
        assert(q[i] == s[i]);
        assert forall|j: int| 0 <= j < i implies !p(#[trigger] s[j]) by {
            assert(q[j] == s[j]);
        }
        assert(is_first(s, p, i));
        lemma_first_unique(s, p, i);
    } else {
        let i = s.len() - 1;
        let k = choose|k: int| 0 <= k < s.len() && p(#[trigger] s[k]);
        if k < i {
            assert(q[k] == s[k]);
        }
        assert forall|j: int| 0 <= j < i implies !p(#[trigger] s[j]) by {
            assert(q[j] == s[j]);
            if p(s[j]) {
                assert(has_some(q, p));
            }
        }
        assert(is_first(s, p, i));
        lemma_first_unique(s, p, i);
    }
}

/// The first position of `x` in `s` (meaningful when `s` contains `x`).
pub open spec fn first_index<T>(s: Seq<T>, x: T) -> int {
    choose|i: int| 0 <= i < s.len() && s[i] == x && forall|j: int| 0 <= j < i ==> s[j] != x
}

/// A position of `x` with no `x` before it is the first position of `x`.
pub proof fn lemma_first_index<T>(s: Seq<T>, x: T, i: int)
    requires
        0 <= i < s.len(),
        s[i] == x,
        forall|j: int| 0 <= j < i ==> s[j] != x,
    ensures
        first_index(s, x) == i,
{
    let k = first_index(s, x);
    assert(0 <= k < s.len() && s[k] == x && forall|j: int| 0 <= j < k ==> s[j] != x);
    if k < i {
        assert(s[k] != x);
    }
    if i < k {
        assert(s[i] != x);
    }
}

/// Number of elements of `s` that satisfy `p`.
pub open spec fn count_where<T>(s: Seq<T>, p: spec_fn(T) -> bool) -> nat
    decreases s.len(),
{
    if s.len() == 0 {
        0
    } else {
        count_where(s.drop_last(), p) + if p(s.last()) { 1nat } else { 0nat }
    }
}

/// Counting is bounded by the length.
pub proof fn lemma_count_where_le<T>(s: Seq<T>, p: spec_fn(T) -> bool)
    ensures
        count_where(s, p) <= s.len(),
    decreases s.len(),
{
    if s.len() > 0 {
        lemma_count_where_le(s.drop_last(), p);
    }
}

/// Counting after appending one element.
pub proof fn lemma_count_where_push<T>(s: Seq<T>, x: T, p: spec_fn(T) -> bool)
    ensures
        count_where(s.push(x), p) == count_where(s, p) + if p(x) { 1nat } else { 0nat },
{
    assert(s.push(x).drop_last() =~= s);
}

/// Counting after replacing one element.
pub proof fn lemma_count_where_update<T>(s: Seq<T>, i: int, x: T, p: spec_fn(T) -> bool)
    requires
        0 <= i < s.len(),
    ensures
        count_where(s.update(i, x), p) + (if p(s[i]) { 1nat } else { 0nat })
            == count_where(s, p) + (if p(x) { 1nat } else { 0nat }),
    decreases s.len(),
{
    let t = s.update(i, x);
    if i == s.len() - 1 {
        assert(t.drop_last() =~= s.drop_last());
    } else {
        assert(t.drop_last() =~= s.drop_last().update(i, x));
        lemma_count_where_update(s.drop_last(), i, x, p);
    }
}

} // verus!
