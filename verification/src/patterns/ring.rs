//! Concentric rings: alternate the two colors with the whole part of
//! the radial distance in the pattern-space x-z plane.

use vstd::prelude::*;

use crate::color::Color;
use crate::fixed::{
    Fx, fadd, fpow, fsqrt, ftrunc, ffloor, iabs, even_abs, lemma_fsquare_nonneg, lemma_fmul_one,
    fmul, SCALE,
};
use crate::linalg::matrix::{Matrix, mat4_wf, spec_inv4, spec_det, lemma_invert_gives_inv4};
use crate::linalg::tuple::Tuple;
use crate::patterns::pattern::convert_pos;
use crate::shapes::shape::Shape;
use crate::utils::feq;

verus! {

#[derive(Clone, Debug)]
pub struct RingPattern {
    pub a: Color,
    pub b: Color,
    pub transformation: Matrix,
    pub inv_transformation: Matrix,
}

/// The ring color: the first color on even rings of the radial
/// distance, the second on odd ones.
pub open spec fn ring_color(pt: RingPattern, object: Shape, p: (int, int, int, int)) -> (
    int,
    int,
    int,
) {
    let pp = convert_pos(pt.inv_transformation.m(), object.inv_m(), p);
    let n = ffloor(fsqrt(fadd(fpow(pp.0, 2), fpow(pp.2, 2))));
    if iabs(ftrunc(n)) % 2 == 0 {
        pt.a.m()
    } else {
        pt.b.m()
    }
}

/// A sum of two scaled squares is a legal square-root operand.
proof fn lemma_square_sum_nonneg(x: int, z: int)
    requires
        i64::MIN <= x <= i64::MAX,
        i64::MIN <= z <= i64::MAX,
    ensures
        fadd(fpow(x, 2), fpow(z, 2)) >= 0,
{
    reveal_with_fuel(fpow, 3);
    lemma_fmul_one(x);
    lemma_fmul_one(z);
    lemma_fsquare_nonneg(x);
    lemma_fsquare_nonneg(z);
}

impl RingPattern {
    pub fn new(a: Color, b: Color, transformation: Matrix) -> (r: RingPattern)
        requires
            mat4_wf(transformation),
            !feq(spec_det(transformation.m(), 4), 0),
        ensures
            r.a == a,
            r.b == b,
            r.transformation == transformation,
            mat4_wf(r.inv_transformation),
            r.inv_transformation.m() == spec_inv4(transformation.m()),
    {
        let inv = transformation.invert();
        proof {
            lemma_invert_gives_inv4(transformation, inv);
        }
        RingPattern { a, b, inv_transformation: inv, transformation }
    }

    pub fn color_at(&self, object: &Shape, p: &Tuple) -> (c: Color)
        requires
            mat4_wf(self.inv_transformation),
            object.wf(),
        ensures
            c.m() == ring_color(*self, *object, p.m()),
    {
        let object_pos = object.get_inverse_transformation().multiply_tuple(p);
        let pattern_pos = self.inv_transformation.multiply_tuple(&object_pos);
        let s = pattern_pos.x.powi(2).plus(pattern_pos.z.powi(2));
        proof {
            lemma_square_sum_nonneg(pattern_pos.x.v(), pattern_pos.z.v());
        }
        let n = s.sqrt().floor();
        if even_abs(n.trunc_int()) {
            self.a
        } else {
            self.b
        }
    }
}

} // verus!
