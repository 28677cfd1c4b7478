//! A diagnostic pattern: the pattern-space coordinates themselves,
//! read as a color.

use vstd::prelude::*;

use crate::color::{Color, fclamp01};
use crate::linalg::matrix::{Matrix, mat4_wf, spec_inv4, spec_det, lemma_invert_gives_inv4};
use crate::linalg::tuple::Tuple;
use crate::patterns::pattern::convert_pos;
use crate::shapes::shape::Shape;
use crate::utils::feq;

verus! {

#[derive(Clone, Debug)]
pub struct TestPattern {
    pub transformation: Matrix,
    pub inv_transformation: Matrix,
}

/// The diagnostic color: the clamped pattern-space coordinates.
pub open spec fn test_color(pt: TestPattern, object: Shape, p: (int, int, int, int)) -> (
    int,
    int,
    int,
) {
    let px = convert_pos(pt.inv_transformation.m(), object.inv_m(), p);
    (fclamp01(px.0), fclamp01(px.1), fclamp01(px.2))
}

impl TestPattern {
    pub fn new(transformation: Matrix) -> (r: TestPattern)
        requires
            mat4_wf(transformation),
            !feq(spec_det(transformation.m(), 4), 0),
        ensures
            r.transformation == transformation,
            mat4_wf(r.inv_transformation),
            r.inv_transformation.m() == spec_inv4(transformation.m()),
    {
        let inv = transformation.invert();
        proof {
            lemma_invert_gives_inv4(transformation, inv);
        }
        TestPattern { inv_transformation: inv, transformation }
    }

    pub fn color_at(&self, object: &Shape, p: &Tuple) -> (c: Color)
        requires
            mat4_wf(self.inv_transformation),
            object.wf(),
        ensures
            c.m() == test_color(*self, *object, p.m()),
    {
        let object_pos = object.get_inverse_transformation().multiply_tuple(p);
        let px = self.inv_transformation.multiply_tuple(&object_pos);
        Color::new(px.x, px.y, px.z)
    }
}

} // verus!
