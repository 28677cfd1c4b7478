//! The shared tolerance and the canonical origin point.

use vstd::prelude::*;

use crate::fixed::{Fx, fabs, fsub};
use crate::linalg::tuple::Tuple;

verus! {

/// The comparison tolerance 0.001, in raw units.
pub const EPSILON_RAW: i64 = 4294967;

/// Two raw values are equal up to the shared tolerance.
pub open spec fn feq(a: int, b: int) -> bool {
    fabs(fsub(a, b)) < EPSILON_RAW as int
}

pub fn epsilon() -> (r: Fx)
    ensures
        r.raw == EPSILON_RAW,
{
    Fx { raw: EPSILON_RAW }
}

/// Tolerant scalar comparison.
pub fn equal(a: Fx, b: Fx) -> (r: bool)
    ensures
        r == feq(a.v(), b.v()),
{
    a.minus(b).abs().lt(epsilon())
}

/// The point at the origin.
pub fn origin_point() -> (r: Tuple)
    ensures
        r.x.raw == 0,
        r.y.raw == 0,
        r.z.raw == 0,
        r.w.raw == crate::fixed::SCALE,
{
    Tuple {
        x: Fx::zero(),
        y: Fx::zero(),
        z: Fx::zero(),
        w: Fx::one(),
    }
}

} // verus!
