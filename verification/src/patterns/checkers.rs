//! A checkerboard over the shape's surface coordinates: alternate the
//! two colors with the parity of the summed half-unit cells.

use vstd::prelude::*;

use crate::color::Color;
use crate::fixed::{Fx, fadd, fmul, ffloor, fround, iabs, even_abs, SCALE};
use crate::linalg::matrix::{Matrix, mat4_wf, spec_inv4, spec_det, lemma_invert_gives_inv4};
use crate::linalg::tuple::Tuple;
use crate::patterns::pattern::convert_pos;
use crate::shapes::shape::Shape;
use crate::utils::feq;

verus! {

#[derive(Clone, Debug)]
pub struct CheckersPattern {
    pub a: Color,
    pub b: Color,
    pub transformation: Matrix,
    pub inv_transformation: Matrix,
}

/// The checker color at a world point, through the shape's surface
/// coordinates.
pub open spec fn checkers_color(pt: CheckersPattern, object: Shape, p: (int, int, int, int)) -> (
    int,
    int,
    int,
) {
    let px = convert_pos(pt.inv_transformation.m(), object.inv_m(), p);
    let uv = object.uv_of(px);
    let n = fadd(
        fadd(ffloor(fmul(2 * (SCALE as int), uv.0)), ffloor(fmul(2 * (SCALE as int), uv.1))),
        ffloor(fmul(2 * (SCALE as int), uv.2)),
    );
    if iabs(fround(n)) % 2 == 0 {
        pt.a.m()
    } else {
        pt.b.m()
    }
}

impl CheckersPattern {
    pub fn new(a: Color, b: Color, transformation: Matrix) -> (r: CheckersPattern)
        requires
            mat4_wf(transformation),
            !feq(spec_det(transformation.m(), 4), 0),
        ensures
            r.a == a,
            r.b == b,
            r.transformation == transformation,
            mat4_wf(r.inv_transformation),
            r.inv_transformation.m() == spec_inv4(transformation.m()),
    {
        let inv = transformation.invert();
        proof {
            lemma_invert_gives_inv4(transformation, inv);
        }
        CheckersPattern { a, b, inv_transformation: inv, transformation }
    }

    #[verifier::rlimit(100)]
    pub fn color_at(&self, object: &Shape, p: &Tuple) -> (c: Color)
        requires
            mat4_wf(self.inv_transformation),
            object.wf(),
        ensures
            c.m() == checkers_color(*self, *object, p.m()),
    {
        let object_pos = object.get_inverse_transformation().multiply_tuple(p);
        let px = self.inv_transformation.multiply_tuple(&object_pos);
        let pattern_pos = object.uv_coordinates(&px);
        let two = Fx::from_int(2);
        let n = two.times(pattern_pos.x).floor().plus(two.times(pattern_pos.y).floor()).plus(
            two.times(pattern_pos.z).floor(),
        );
        if even_abs(n.round_int()) {
            self.a
        } else {
            self.b
        }
    }
}

} // verus!
