//! Stripes: alternate the two colors with the whole part of the
//! pattern-space x coordinate.

use vstd::prelude::*;

use crate::color::Color;
use crate::fixed::{Fx, ftrunc, iabs, even_abs};
use crate::linalg::matrix::{Matrix, mat4_wf, spec_inv4, spec_det, lemma_invert_gives_inv4};
use crate::linalg::tuple::Tuple;
use crate::patterns::pattern::convert_pos;
use crate::shapes::shape::Shape;
use crate::utils::feq;

verus! {

#[derive(Clone, Debug)]
pub struct StripePattern {
    pub a: Color,
    pub b: Color,
    pub transformation: Matrix,
    pub inv_transformation: Matrix,
}

/// The stripe color at a world point: the first color on even bands
/// of pattern-space x, the second on odd ones.
pub open spec fn stripe_color(pt: StripePattern, object: Shape, p: (int, int, int, int)) -> (
    int,
    int,
    int,
) {
    let pp = convert_pos(pt.inv_transformation.m(), object.inv_m(), p);
    if iabs(ftrunc(pp.0)) % 2 == 0 {
        pt.a.m()
    } else {
        pt.b.m()
    }
}

impl StripePattern {
    pub fn new(a: Color, b: Color, transformation: Matrix) -> (r: StripePattern)
        requires
            mat4_wf(transformation),
            !feq(spec_det(transformation.m(), 4), 0),
        ensures
            r.a == a,
            r.b == b,
            r.transformation == transformation,
            mat4_wf(r.inv_transformation),
            r.inv_transformation.m() == spec_inv4(transformation.m()),
    {
        let inv = transformation.invert();
        proof {
            lemma_invert_gives_inv4(transformation, inv);
        }
        StripePattern { a, b, inv_transformation: inv, transformation }
    }

    pub fn color_at(&self, object: &Shape, p: &Tuple) -> (c: Color)
        requires
            mat4_wf(self.inv_transformation),
            object.wf(),
        ensures
            c.m() == stripe_color(*self, *object, p.m()),
    {
        let object_pos = object.get_inverse_transformation().multiply_tuple(p);
        let pattern_pos = self.inv_transformation.multiply_tuple(&object_pos);
        if even_abs(pattern_pos.x.trunc_int()) {
            self.a
        } else {
            self.b
        }
    }
}

} // verus!
