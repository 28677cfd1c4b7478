//! Rays: an origin point, a direction vector, and the reflection
//! formula.

use vstd::prelude::*;

use crate::fixed::{Fx, SCALE, fmul};
use crate::linalg::matrix::{Matrix, mat_tuple};
use crate::linalg::tuple::{Tuple, tadd, tsub, tscale, tdot};

verus! {

#[derive(Clone, Copy, Debug)]
pub struct Ray {
    pub origin: Tuple,
    pub direction: Tuple,
}

/// Where a ray stands after parameter `t`: origin plus the scaled
/// direction.
pub open spec fn ray_position(origin: (int, int, int, int), direction: (int, int, int, int), t: int) -> (
    int,
    int,
    int,
    int,
) {
    tadd(origin, tscale(direction, t))
}

/// The reflection of `d` about the normal `n`:
/// `d - n * 2 * (d . n)`.
pub open spec fn spec_reflect(d: (int, int, int, int), n: (int, int, int, int)) -> (
    int,
    int,
    int,
    int,
) {
    tsub(d, tscale(tscale(n, 2 * (SCALE as int)), tdot(d, n)))
}

/// The ray a spec-level origin and direction stand for.
pub open spec fn ray_of(o: (int, int, int, int), d: (int, int, int, int)) -> Ray {
    Ray { origin: crate::linalg::tuple::tup_of(o), direction: crate::linalg::tuple::tup_of(d) }
}

impl Ray {
    pub fn new(ox: Fx, oy: Fx, oz: Fx, dx: Fx, dy: Fx, dz: Fx) -> (r: Ray)
        ensures
            r.origin.m() == (ox.v(), oy.v(), oz.v(), SCALE as int),
            r.direction.m() == (dx.v(), dy.v(), dz.v(), 0int),
    {
        Ray { origin: Tuple::point(ox, oy, oz), direction: Tuple::vector(dx, dy, dz) }
    }

    /// The point at parameter `t` along the ray.
    pub fn position(&self, t: Fx) -> (p: Tuple)
        ensures
            p.m() == ray_position(self.origin.m(), self.direction.m(), t.v()),
    {
        self.origin.add(&self.direction.multiply(t))
    }

    /// The ray carried through an affine transform.
    pub fn transform(&self, m: &Matrix) -> (r: Ray)
        requires
            m.wf(),
            m.cols == 4,
            m.rows <= 4,
        ensures
            r.origin.m() == mat_tuple(m.m(), self.origin.m(), m.rows as int),
            r.direction.m() == mat_tuple(m.m(), self.direction.m(), m.rows as int),
    {
        Ray {
            origin: m.multiply_tuple(&self.origin),
            direction: m.multiply_tuple(&self.direction),
        }
    }
}

/// Reflect a vector about a surface normal.
pub fn reflect(ray: &Tuple, normal: &Tuple) -> (r: Tuple)
    ensures
        r.m() == spec_reflect(ray.m(), normal.m()),
{
    ray.subtract(&normal.multiply(Fx::from_int(2)).multiply(ray.dot(normal)))
}

} // verus!
