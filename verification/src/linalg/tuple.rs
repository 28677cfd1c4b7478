//! Homogeneous 4-tuples: points (`w == 1`) and vectors (`w == 0`).

use vstd::prelude::*;

use crate::fixed::{Fx, SCALE, fadd, fsub, fneg, fmul, fdiv, fsqrt};
use crate::linalg::matrix::Matrix;
use crate::utils::{feq, equal};

verus! {

#[derive(Clone, Copy, Debug)]
pub struct Tuple {
    pub x: Fx,
    pub y: Fx,
    pub z: Fx,
    pub w: Fx,
}

pub open spec fn tadd(a: (int, int, int, int), b: (int, int, int, int)) -> (int, int, int, int) {
    (fadd(a.0, b.0), fadd(a.1, b.1), fadd(a.2, b.2), fadd(a.3, b.3))
}

pub open spec fn tsub(a: (int, int, int, int), b: (int, int, int, int)) -> (int, int, int, int) {
    (fsub(a.0, b.0), fsub(a.1, b.1), fsub(a.2, b.2), fsub(a.3, b.3))
}

pub open spec fn tneg(a: (int, int, int, int)) -> (int, int, int, int) {
    (fneg(a.0), fneg(a.1), fneg(a.2), fneg(a.3))
}

pub open spec fn tscale(a: (int, int, int, int), n: int) -> (int, int, int, int) {
    (fmul(a.0, n), fmul(a.1, n), fmul(a.2, n), fmul(a.3, n))
}

pub open spec fn tdivide(a: (int, int, int, int), n: int) -> (int, int, int, int) {
    (fdiv(a.0, n), fdiv(a.1, n), fdiv(a.2, n), fdiv(a.3, n))
}

pub open spec fn tdot(a: (int, int, int, int), b: (int, int, int, int)) -> int {
    fadd(fadd(fadd(fmul(a.0, b.0), fmul(a.1, b.1)), fmul(a.2, b.2)), fmul(a.3, b.3))
}

pub open spec fn tcross(a: (int, int, int, int), b: (int, int, int, int)) -> (int, int, int, int) {
    (
        fsub(fmul(a.1, b.2), fmul(a.2, b.1)),
        fsub(fmul(a.2, b.0), fmul(a.0, b.2)),
        fsub(fmul(a.0, b.1), fmul(a.1, b.0)),
        0,
    )
}

/// The magnitude: square root of the self dot product.
pub open spec fn tmag(a: (int, int, int, int)) -> int {
    fsqrt(tdot(a, a))
}

/// Tuples are equal when every component agrees up to the shared
/// tolerance.
pub open spec fn teq(a: (int, int, int, int), b: (int, int, int, int)) -> bool {
    feq(a.0, b.0) && feq(a.1, b.1) && feq(a.2, b.2) && feq(a.3, b.3)
}

/// The tuple value a spec-level component quadruple stands for.
pub open spec fn tup_of(m: (int, int, int, int)) -> Tuple {
    Tuple { x: Fx { raw: m.0 as i64 }, y: Fx { raw: m.1 as i64 }, z: Fx { raw: m.2 as i64 }, w: Fx { raw: m.3 as i64 } }
}

/// Reading a tuple's components and rebuilding it gives the tuple
/// back.
pub broadcast proof fn lemma_tup_roundtrip(t: Tuple)
    ensures
        #[trigger] tup_of(t.m()) == t,
{
}

/// A tuple's dot product with itself is never negative.
pub proof fn lemma_tdot_self_nonneg(a: (int, int, int, int))
    ensures
        tdot(a, a) >= 0,
{
    crate::fixed::lemma_fsquare_nonneg(a.0);
    crate::fixed::lemma_fsquare_nonneg(a.1);
    crate::fixed::lemma_fsquare_nonneg(a.2);
    crate::fixed::lemma_fsquare_nonneg(a.3);
}

impl Tuple {
    /// The components, as mathematical integers, for specifications.
    pub open spec fn m(self) -> (int, int, int, int) {
        (self.x.raw as int, self.y.raw as int, self.z.raw as int, self.w.raw as int)
    }

    pub fn new(x: Fx, y: Fx, z: Fx, w: Fx) -> (t: Tuple)
        ensures
            t.m() == (x.v(), y.v(), z.v(), w.v()),
    {
        Tuple { x, y, z, w }
    }

    /// A point: homogeneous component 1.
    pub fn point(x: Fx, y: Fx, z: Fx) -> (t: Tuple)
        ensures
            t.m() == (x.v(), y.v(), z.v(), SCALE as int),
    {
        Tuple { x, y, z, w: Fx::one() }
    }

    pub fn point_from_vec(xyz: &Vec<Fx>) -> (t: Tuple)
        requires
            xyz@.len() >= 3,
        ensures
            t.m() == (xyz@[0].v(), xyz@[1].v(), xyz@[2].v(), SCALE as int),
    {
        Tuple::new(xyz[0], xyz[1], xyz[2], Fx::one())
    }

    /// A vector: homogeneous component 0.
    pub fn vector(x: Fx, y: Fx, z: Fx) -> (t: Tuple)
        ensures
            t.m() == (x.v(), y.v(), z.v(), 0int),
    {
        Tuple { x, y, z, w: Fx::zero() }
    }

    pub fn vector_from_vec(xyz: &Vec<Fx>) -> (t: Tuple)
        requires
            xyz@.len() >= 3,
        ensures
            t.m() == (xyz@[0].v(), xyz@[1].v(), xyz@[2].v(), 0int),
    {
        Tuple::new(xyz[0], xyz[1], xyz[2], Fx::zero())
    }

    pub fn add(&self, other: &Tuple) -> (t: Tuple)
        ensures
            t.m() == tadd(self.m(), other.m()),
    {
        Tuple {
            x: self.x.plus(other.x),
            y: self.y.plus(other.y),
            z: self.z.plus(other.z),
            w: self.w.plus(other.w),
        }
    }

    pub fn subtract(&self, other: &Tuple) -> (t: Tuple)
        ensures
            t.m() == tsub(self.m(), other.m()),
    {
        Tuple {
            x: self.x.minus(other.x),
            y: self.y.minus(other.y),
            z: self.z.minus(other.z),
            w: self.w.minus(other.w),
        }
    }

    pub fn negate(&self) -> (t: Tuple)
        ensures
            t.m() == tneg(self.m()),
    {
        Tuple { x: self.x.neg(), y: self.y.neg(), z: self.z.neg(), w: self.w.neg() }
    }

    pub fn multiply(&self, n: Fx) -> (t: Tuple)
        ensures
            t.m() == tscale(self.m(), n.v()),
    {
        Tuple {
            x: self.x.times(n),
            y: self.y.times(n),
            z: self.z.times(n),
            w: self.w.times(n),
        }
    }

    pub fn divide(&self, n: Fx) -> (t: Tuple)
        ensures
            t.m() == tdivide(self.m(), n.v()),
    {
        Tuple {
            x: self.x.over(n),
            y: self.y.over(n),
            z: self.z.over(n),
            w: self.w.over(n),
        }
    }

    pub fn dot(&self, other: &Tuple) -> (r: Fx)
        ensures
            r.raw as int == tdot(self.m(), other.m()),
    {
        self.x.times(other.x).plus(self.y.times(other.y)).plus(self.z.times(other.z)).plus(
            self.w.times(other.w),
        )
    }

    pub fn magnitude(&self) -> (r: Fx)
        ensures
            r.raw as int == tmag(self.m()),
    {
        let d = self.dot(self);
        proof {
            lemma_tdot_self_nonneg(self.m());
        }
        d.sqrt()
    }

    /// Scale to magnitude one; a zero tuple is left all zero (the
    /// division contract maps division by zero to zero).
    pub fn normalize(&self) -> (t: Tuple)
        ensures
            t.m() == tdivide(self.m(), tmag(self.m())),
    {
        self.divide(self.magnitude())
    }

    pub fn cross(&self, other: &Tuple) -> (t: Tuple)
        ensures
            t.m() == tcross(self.m(), other.m()),
    {
        Tuple::vector(
            self.y.times(other.z).minus(self.z.times(other.y)),
            self.z.times(other.x).minus(self.x.times(other.z)),
            self.x.times(other.y).minus(self.y.times(other.x)),
        )
    }

    pub fn translate(&self, x: Fx, y: Fx, z: Fx) -> (t: Tuple)
        ensures
            t.m() == crate::linalg::matrix::mat_tuple(
                crate::linalg::matrix::spec_translation(x.v(), y.v(), z.v()),
                self.m(),
                4,
            ),
    {
        let m = Matrix::translation(x, y, z);
        m.multiply_tuple(self)
    }

    pub fn scale(&self, x: Fx, y: Fx, z: Fx) -> (t: Tuple)
        ensures
            t.m() == crate::linalg::matrix::mat_tuple(
                crate::linalg::matrix::spec_scaling(x.v(), y.v(), z.v()),
                self.m(),
                4,
            ),
    {
        let m = Matrix::scaling(x, y, z);
        m.multiply_tuple(self)
    }

    pub fn rotate_x(&self, deg: Fx) -> (t: Tuple)
        ensures
            t.m() == crate::linalg::matrix::mat_tuple(
                crate::linalg::matrix::spec_rotation_x(deg.v()),
                self.m(),
                4,
            ),
    {
        let m = Matrix::rotation_x(deg);
        m.multiply_tuple(self)
    }

    pub fn rotate_y(&self, deg: Fx) -> (t: Tuple)
        ensures
            t.m() == crate::linalg::matrix::mat_tuple(
                crate::linalg::matrix::spec_rotation_y(deg.v()),
                self.m(),
                4,
            ),
    {
        let m = Matrix::rotation_y(deg);
        m.multiply_tuple(self)
    }

    pub fn rotate_z(&self, deg: Fx) -> (t: Tuple)
        ensures
            t.m() == crate::linalg::matrix::mat_tuple(
                crate::linalg::matrix::spec_rotation_z(deg.v()),
                self.m(),
                4,
            ),
    {
        let m = Matrix::rotation_z(deg);
        m.multiply_tuple(self)
    }

    pub fn shear(&self, xy: Fx, xz: Fx, yx: Fx, yz: Fx, zx: Fx, zy: Fx) -> (t: Tuple)
        ensures
            t.m() == crate::linalg::matrix::mat_tuple(
                crate::linalg::matrix::spec_shearing(
                    xy.v(),
                    xz.v(),
                    yx.v(),
                    yz.v(),
                    zx.v(),
                    zy.v(),
                ),
                self.m(),
                4,
            ),
    {
        let m = Matrix::shearing(xy, xz, yx, yz, zx, zy);
        m.multiply_tuple(self)
    }
}

impl PartialEq for Tuple {
    fn eq(&self, other: &Tuple) -> (r: bool) {
        equal(self.x, other.x) && equal(self.y, other.y) && equal(self.z, other.z) && equal(
            self.w,
            other.w,
        )
    }
}

impl vstd::std_specs::cmp::PartialEqSpecImpl for Tuple {
    open spec fn obeys_eq_spec() -> bool {
        true
    }

    open spec fn eq_spec(&self, other: &Tuple) -> bool {
        teq(self.m(), other.m())
    }
}

} // verus!
