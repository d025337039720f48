//! Which intersection of a ray with a sphere counts as a hit.
//!
//! Solving `|O + tD - C|^2 = r^2` gives up to two distances along the ray. The
//! caller computes them; here the nearer one inside the open interval
//! `(t_min, t_max)` is chosen, so that a hit exactly on a bound is ignored and a
//! surface at `t` close to zero does not hit itself.
use vstd::prelude::*;
use crate::order::{float_lt, less_than, ZERO};

verus! {

/// The two solutions of a ray-sphere quadratic, nearer first.
#[derive(Clone, Copy, Debug, PartialEq, Eq)]
pub struct Roots {
    pub near: u32,
    pub far: u32,
}

/// `t` lies strictly between the bounds.
pub open spec fn inside(t: u32, t_min: u32, t_max: u32) -> bool {
    float_lt(t_min, t) && float_lt(t, t_max)
}

/// The nearer root when it lies inside the interval, else the farther one
/// when it does, else none.
pub open spec fn root_hit(roots: Roots, t_min: u32, t_max: u32) -> Option<u32> {
    if inside(roots.near, t_min, t_max) {
        Some(roots.near)
    } else if inside(roots.far, t_min, t_max) {
        Some(roots.far)
    } else {
        None
    }
}

impl Roots {
    /// The roots are in order: the farther one is not below the nearer one.
    pub open spec fn wf(self) -> bool {
        !float_lt(self.far, self.near)
    }

    /// Orders two solutions of the quadratic.
    pub fn new(a: u32, b: u32) -> (r: Roots)
        ensures
            r.wf(),
            (r.near == a && r.far == b) || (r.near == b && r.far == a),
            !float_lt(b, a) ==> r.near == a,
    {
        if less_than(b, a) {
            Roots { near: b, far: a }
        } else {
            Roots { near: a, far: b }
        }
    }
}

/// The quadratic has two distinct real roots: its discriminant is above zero.
/// A zero or NaN discriminant gives no hit.
pub fn crosses(discriminant: u32) -> (r: bool)
    ensures
        r == float_lt(ZERO, discriminant),
{
    less_than(ZERO, discriminant)
}

/// The hit distance along the ray, if any, for a sphere with these roots.
pub fn nearest_root(roots: &Roots, t_min: u32, t_max: u32) -> (r: Option<u32>)
    ensures
        r == root_hit(*roots, t_min, t_max),
        r matches Some(t) ==> inside(t, t_min, t_max),
        !inside(roots.near, t_min, t_max) && !inside(roots.far, t_min, t_max) ==> r is None,
{
    if less_than(t_min, roots.near) && less_than(roots.near, t_max) {
        Some(roots.near)
    } else if less_than(t_min, roots.far) && less_than(roots.far, t_max) {
        Some(roots.far)
    } else {
        None
    }
}

/// Narrowing the upper bound keeps a hit that is still below it and loses
/// any other: no root is found that the wider interval did not give.
pub proof fn lemma_root_hit_narrowed(roots: Roots, t_min: u32, t_max: u32, bound: u32)
    requires
        roots.wf(),
        bound == t_max || float_lt(bound, t_max),
    ensures
        root_hit(roots, t_min, bound) == (match root_hit(roots, t_min, t_max) {
            Some(t) => if float_lt(t, bound) { Some(t) } else { None },
            None => None,
        }),
{
}

} // verus!
