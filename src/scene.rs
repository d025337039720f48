//! The closest hit among the spheres of a scene.
//!
//! Members are tried in storage order with the upper bound narrowed to the
//! best distance found so far, so a later member can only win by being
//! strictly closer. The outcome is the hit with the smallest distance, the
//! first such member on a tie, whatever the order of the others.
use vstd::prelude::*;
use crate::order::{float_lt, rank};
use crate::sphere::{Roots, root_hit, nearest_root, lemma_root_hit_narrowed};

verus! {

/// Member `i`'s hit distance within `(t_min, t_max)`; `None` where its ray
/// misses the sphere.
pub open spec fn member_hit(members: Seq<Option<Roots>>, i: int, t_min: u32, t_max: u32) -> Option<u32> {
    match members[i] {
        Some(roots) => root_hit(roots, t_min, t_max),
        None => None,
    }
}

/// Every member's roots are in order.
pub open spec fn members_wf(members: Seq<Option<Roots>>) -> bool {
    forall|i: int| 0 <= i < members.len() ==> (#[trigger] members[i] matches Some(r) ==> r.wf())
}

/// `found` is the closest hit: `None` exactly when no member is hit, else a
/// member's index and distance such that no member is hit closer, and every
/// member before it is hit strictly farther or not at all.
pub open spec fn is_closest(
    members: Seq<Option<Roots>>,
    t_min: u32,
    t_max: u32,
    found: Option<(usize, u32)>,
) -> bool {
    match found {
        None => forall|i: int| 0 <= i < members.len() ==> #[trigger] member_hit(members, i, t_min, t_max) is None,
        Some((k, t)) => {
            &&& k < members.len()
            &&& member_hit(members, k as int, t_min, t_max) == Some(t)
            &&& forall|i: int| 0 <= i < members.len() ==>
                (#[trigger] member_hit(members, i, t_min, t_max) matches Some(u) ==> !float_lt(u, t))
            &&& forall|i: int| 0 <= i < k ==>
                (#[trigger] member_hit(members, i, t_min, t_max) matches Some(u) ==> float_lt(t, u))
        },
    }
}

/// Scene hit test over the members' roots (`None` for a member whose
/// quadratic has no real root).
pub fn closest_hit(members: &Vec<Option<Roots>>, t_min: u32, t_max: u32) -> (r: Option<(usize, u32)>)
    requires
        members_wf(members@),
    ensures
        is_closest(members@, t_min, t_max, r),
{
    let mut bound: u32 = t_max;
    let mut best: Option<(usize, u32)> = None;
    let mut i: usize = 0;
    while i < members.len()
        invariant
            i <= members.len(),
            members_wf(members@),
            best is None ==> bound == t_max,
            best is None ==> forall|j: int| 0 <= j < i ==> #[trigger] member_hit(members@, j, t_min, t_max) is None,
            best matches Some((k, t)) ==> {
                &&& k < i
                &&& bound == t
                &&& float_lt(t, t_max)
                &&& member_hit(members@, k as int, t_min, t_max) == Some(t)
                &&& forall|j: int| 0 <= j < i ==>
                    (#[trigger] member_hit(members@, j, t_min, t_max) matches Some(u) ==> !float_lt(u, t))
                &&& forall|j: int| 0 <= j < k ==>
                    (#[trigger] member_hit(members@, j, t_min, t_max) matches Some(u) ==> float_lt(t, u))
            },
        decreases members.len() - i,
    {
        if let Some(roots) = &members[i] {
            proof {
                assert(members@[i as int] matches Some(r) ==> r.wf());
                lemma_root_hit_narrowed(*roots, t_min, t_max, bound);
            }
            if let Some(t) = nearest_root(roots, t_min, bound) {
                bound = t;
                best = Some((i, t));
            }
        }
        i += 1;
    }
    best
}

/// The closest hit does not depend on the order in which the scene holds its
/// members: two orderings of the same members give hits at the same distance,
/// or both give none.
pub proof fn lemma_closest_hit_order_free(
    a: Seq<Option<Roots>>,
    b: Seq<Option<Roots>>,
    t_min: u32,
    t_max: u32,
    found_a: Option<(usize, u32)>,
    found_b: Option<(usize, u32)>,
)
    requires
        a.to_multiset() == b.to_multiset(),
        is_closest(a, t_min, t_max, found_a),
        is_closest(b, t_min, t_max, found_b),
    ensures
        found_a is None <==> found_b is None,
        found_a matches Some((_, ta)) ==> found_b matches Some((_, tb)) && rank(ta) == rank(tb),
{
    a.to_multiset_ensures();
    b.to_multiset_ensures();
    if let Some((ka, ta)) = found_a {
        let jb = lemma_member_in_other(a, b, ka as int);
        assert(member_hit(b, jb, t_min, t_max) == Some(ta));
    }
    if let Some((kb, tb)) = found_b {
        let ja = lemma_member_in_other(b, a, kb as int);
        assert(member_hit(a, ja, t_min, t_max) == Some(tb));
    }
}

/// A member of one ordering stands at some index of the other.
proof fn lemma_member_in_other(a: Seq<Option<Roots>>, b: Seq<Option<Roots>>, k: int) -> (j: int)
    requires
        a.to_multiset() == b.to_multiset(),
        0 <= k < a.len(),
    ensures
        0 <= j < b.len(),
        b[j] == a[k],
{
    a.to_multiset_ensures();
    b.to_multiset_ensures();
    let x = a[k];
    assert(a.contains(x));
    assert(a.to_multiset().count(x) > 0);
    assert(b.to_multiset().count(x) > 0);
    assert(b.contains(x));
    choose|j: int| 0 <= j < b.len() && b[j] == x
}

} // verus!
