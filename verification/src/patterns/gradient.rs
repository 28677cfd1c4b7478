//! A linear blend of the two colors over the fractional part of
//! pattern-space x.

use vstd::prelude::*;

use crate::color::{Color, cadd, cscale, csub};
use crate::fixed::{Fx, fsub, ffloor};
use crate::linalg::matrix::{Matrix, mat4_wf, spec_inv4, spec_det, lemma_invert_gives_inv4};
use crate::linalg::tuple::Tuple;
use crate::patterns::pattern::convert_pos;
use crate::shapes::shape::Shape;
use crate::utils::feq;

verus! {

#[derive(Clone, Debug)]
pub struct GradientPattern {
    pub a: Color,
    pub b: Color,
    pub transformation: Matrix,
    pub inv_transformation: Matrix,
}

/// The gradient color: the first color plus the color difference
/// scaled by the fractional part of pattern-space x.
pub open spec fn gradient_color(pt: GradientPattern, object: Shape, p: (int, int, int, int)) -> (
    int,
    int,
    int,
) {
    let pp = convert_pos(pt.inv_transformation.m(), object.inv_m(), p);
    cadd(pt.a.m(), cscale(csub(pt.b.m(), pt.a.m()), fsub(pp.0, ffloor(pp.0))))
}

impl GradientPattern {
    pub fn new(a: Color, b: Color, transformation: Matrix) -> (r: GradientPattern)
        requires
            mat4_wf(transformation),
            !feq(spec_det(transformation.m(), 4), 0),
        ensures
            r.a == a,
            r.b == b,
            r.transformation == transformation,
            mat4_wf(r.inv_transformation),
            r.inv_transformation.m() == spec_inv4(transformation.m()),
    {
        let inv = transformation.invert();
        proof {
            lemma_invert_gives_inv4(transformation, inv);
        }
        GradientPattern { a, b, inv_transformation: inv, transformation }
    }

    pub fn color_at(&self, object: &Shape, p: &Tuple) -> (c: Color)
        requires
            mat4_wf(self.inv_transformation),
            object.wf(),
        ensures
            c.m() == gradient_color(*self, *object, p.m()),
    {
        let object_pos = object.get_inverse_transformation().multiply_tuple(p);
        let pattern_pos = self.inv_transformation.multiply_tuple(&object_pos);
        let frac = pattern_pos.x.minus(pattern_pos.x.floor());
        self.a.add(&self.b.subtract(&self.a).multiply(frac))
    }
}

} // verus!
