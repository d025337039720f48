//! The decision a surface takes when a ray strikes it.
//!
//! Directions, attenuations and probabilities are computed by the caller;
//! what is decided here, from the signs and comparisons that matter, is
//! whether the ray scatters and in which way.
use vstd::prelude::*;
use crate::order::{float_lt, less_than, is_nan, ZERO, ONE};

verus! {

/// What a surface does with an incoming ray.
#[derive(Clone, Copy, Debug, PartialEq, Eq)]
pub enum Scatter {
    /// Diffuse bounce about the normal.
    Diffuse,
    /// Mirror reflection about the normal.
    Reflect,
    /// Refraction through the interface.
    Refract,
    /// The ray is absorbed and contributes black.
    Absorb,
}

/// The facts, as bit patterns of single-precision values, that a surface
/// needs to decide.
#[derive(Clone, Copy, Debug, PartialEq, Eq)]
pub enum Interaction {
    /// A Lambertian surface needs nothing.
    Diffuse,
    /// A metal: the dot product of the fuzzed reflection with the normal.
    Mirror { outward_dot: u32 },
    /// A dielectric: `eta_ratio * sin_theta`, a uniform draw in `[0, 1)`, and
    /// the Schlick reflectance at this angle.
    Interface { bend: u32, draw: u32, reflectance: u32 },
}

/// The scattering law of each kind of surface.
pub open spec fn scatter_of(i: Interaction) -> Scatter {
    match i {
        Interaction::Diffuse => Scatter::Diffuse,
        Interaction::Mirror { outward_dot } => if float_lt(ZERO, outward_dot) {
            Scatter::Reflect
        } else {
            Scatter::Absorb
        },
        Interaction::Interface { bend, draw, reflectance } => if float_lt(ONE, bend) {
            Scatter::Reflect
        } else if float_lt(draw, reflectance) {
            Scatter::Reflect
        } else {
            Scatter::Refract
        },
    }
}

/// Decides how a surface scatters: a Lambertian surface always scatters, a
/// dielectric never absorbs and reflects whenever refraction is impossible,
/// and a metal absorbs exactly when its reflection points into the surface.
pub fn scatter(i: &Interaction) -> (r: Scatter)
    ensures
        r == scatter_of(*i),
        (*i is Diffuse) ==> r == Scatter::Diffuse,
        (*i is Interface) ==> r != Scatter::Absorb,
        *i matches Interaction::Interface { bend, .. } && float_lt(ONE, bend) ==> r == Scatter::Reflect,
        *i matches Interaction::Mirror { outward_dot } ==> (r == Scatter::Absorb <==> !float_lt(ZERO, outward_dot)),
{
    match i {
        Interaction::Diffuse => Scatter::Diffuse,
        Interaction::Mirror { outward_dot } => {
            if less_than(ZERO, *outward_dot) {
                Scatter::Reflect
            } else {
                Scatter::Absorb
            }
        },
        Interaction::Interface { bend, draw, reflectance } => {
            if less_than(ONE, *bend) {
                Scatter::Reflect
            } else if less_than(*draw, *reflectance) {
                Scatter::Reflect
            } else {
                Scatter::Refract
            }
        },
    }
}

/// Flips the sign bit: exact negation of a single-precision value.
pub open spec fn negated(b: u32) -> u32 {
    b ^ 0x8000_0000u32
}

/// The ray meets the front of the surface: the ray direction and the outward
/// normal point against each other.
pub fn faces_front(outward_dot: u32) -> (r: bool)
    ensures
        r == float_lt(outward_dot, ZERO),
{
    less_than(outward_dot, ZERO)
}

/// The normal stored with a hit is the outward one on the front face and its
/// negation on the back face. Negating a vector negates its dot product with
/// the direction exactly, so that dot product is never above zero: the stored
/// normal opposes the incoming ray.
pub proof fn lemma_oriented_normal_opposes_ray(outward_dot: u32)
    requires
        !is_nan(outward_dot),
    ensures
        !float_lt(ZERO, if float_lt(outward_dot, ZERO) { outward_dot } else { negated(outward_dot) }),
{
    let n = negated(outward_dot);
    assert(n & 0x7fff_ffffu32 == outward_dot & 0x7fff_ffffu32) by (bit_vector)
        requires n == outward_dot ^ 0x8000_0000u32;
    assert((n & 0x8000_0000u32 != 0) == (outward_dot & 0x8000_0000u32 == 0)) by (bit_vector)
        requires n == outward_dot ^ 0x8000_0000u32;
    assert(ZERO & 0x7fff_ffffu32 == 0 && ZERO & 0x8000_0000u32 == 0) by (bit_vector);
}

} // verus!
