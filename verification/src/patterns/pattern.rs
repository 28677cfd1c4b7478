//! The pattern interface: a closed sum over the procedural patterns,
//! with the shared world-to-pattern coordinate conversion.

use vstd::prelude::*;

use crate::color::Color;
use crate::linalg::matrix::{Matrix, mat_tuple, mat4_wf};
use crate::linalg::tuple::Tuple;
use crate::patterns::checkers::CheckersPattern;
use crate::patterns::gradient::GradientPattern;
use crate::patterns::ring::RingPattern;
use crate::patterns::stripe::StripePattern;
use crate::patterns::test::TestPattern;
use crate::shapes::shape::Shape;

verus! {

#[derive(Clone, Debug)]
pub enum Pattern {
    Stripe(StripePattern),
    Gradient(GradientPattern),
    Ring(RingPattern),
    Checkers(CheckersPattern),
    Test(TestPattern),
}

/// A world-space point taken to pattern space: through the shape's
/// inverse transform, then the pattern's.
pub open spec fn convert_pos(
    pattern_inv: Seq<Seq<int>>,
    shape_inv: Seq<Seq<int>>,
    p: (int, int, int, int),
) -> (int, int, int, int) {
    mat_tuple(pattern_inv, mat_tuple(shape_inv, p, 4), 4)
}

impl Pattern {
    /// Both matrices have the four-by-four shape the lookup needs.
    pub open spec fn wf(self) -> bool {
        match self {
            Pattern::Stripe(p) => mat4_wf(p.transformation) && mat4_wf(p.inv_transformation),
            Pattern::Gradient(p) => mat4_wf(p.transformation) && mat4_wf(p.inv_transformation),
            Pattern::Ring(p) => mat4_wf(p.transformation) && mat4_wf(p.inv_transformation),
            Pattern::Checkers(p) => mat4_wf(p.transformation) && mat4_wf(p.inv_transformation),
            Pattern::Test(p) => mat4_wf(p.transformation) && mat4_wf(p.inv_transformation),
        }
    }

    /// The pattern's inverse transform, as a grid of raw entries.
    pub open spec fn inv_m(self) -> Seq<Seq<int>> {
        match self {
            Pattern::Stripe(p) => p.inv_transformation.m(),
            Pattern::Gradient(p) => p.inv_transformation.m(),
            Pattern::Ring(p) => p.inv_transformation.m(),
            Pattern::Checkers(p) => p.inv_transformation.m(),
            Pattern::Test(p) => p.inv_transformation.m(),
        }
    }

    /// The color this pattern yields for a shape at a world point.
    pub open spec fn color_spec(self, object: Shape, p: (int, int, int, int)) -> (int, int, int) {
        match self {
            Pattern::Stripe(pt) => crate::patterns::stripe::stripe_color(pt, object, p),
            Pattern::Gradient(pt) => crate::patterns::gradient::gradient_color(pt, object, p),
            Pattern::Ring(pt) => crate::patterns::ring::ring_color(pt, object, p),
            Pattern::Checkers(pt) => crate::patterns::checkers::checkers_color(pt, object, p),
            Pattern::Test(pt) => crate::patterns::test::test_color(pt, object, p),
        }
    }

    pub fn color_at(&self, object: &Shape, p: &Tuple) -> (c: Color)
        requires
            self.wf(),
            object.wf(),
        ensures
            c.m() == self.color_spec(*object, p.m()),
    {
        match self {
            Pattern::Stripe(pt) => pt.color_at(object, p),
            Pattern::Gradient(pt) => pt.color_at(object, p),
            Pattern::Ring(pt) => pt.color_at(object, p),
            Pattern::Checkers(pt) => pt.color_at(object, p),
            Pattern::Test(pt) => pt.color_at(object, p),
        }
    }

    pub fn get_transformation(&self) -> (r: &Matrix)
        ensures
            *r == match *self {
                Pattern::Stripe(p) => p.transformation,
                Pattern::Gradient(p) => p.transformation,
                Pattern::Ring(p) => p.transformation,
                Pattern::Checkers(p) => p.transformation,
                Pattern::Test(p) => p.transformation,
            },
    {
        match self {
            Pattern::Stripe(p) => &p.transformation,
            Pattern::Gradient(p) => &p.transformation,
            Pattern::Ring(p) => &p.transformation,
            Pattern::Checkers(p) => &p.transformation,
            Pattern::Test(p) => &p.transformation,
        }
    }

    pub fn get_inverse_transformation(&self) -> (r: &Matrix)
        ensures
            *r == match *self {
                Pattern::Stripe(p) => p.inv_transformation,
                Pattern::Gradient(p) => p.inv_transformation,
                Pattern::Ring(p) => p.inv_transformation,
                Pattern::Checkers(p) => p.inv_transformation,
                Pattern::Test(p) => p.inv_transformation,
            },
    {
        match self {
            Pattern::Stripe(p) => &p.inv_transformation,
            Pattern::Gradient(p) => &p.inv_transformation,
            Pattern::Ring(p) => &p.inv_transformation,
            Pattern::Checkers(p) => &p.inv_transformation,
            Pattern::Test(p) => &p.inv_transformation,
        }
    }

    /// Take a world point to pattern space.
    pub fn convert_position(&self, object: &Shape, p: &Tuple) -> (t: Tuple)
        requires
            self.wf(),
            object.wf(),
        ensures
            t.m() == convert_pos(self.inv_m(), object.inv_m(), p.m()),
    {
        let object_pos = object.get_inverse_transformation().multiply_tuple(p);
        self.get_inverse_transformation().multiply_tuple(&object_pos)
    }
}

} // verus!
