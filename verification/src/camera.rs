//! The camera: the view transform, the per-pixel ray generator, and
//! the derived viewport numbers.

use vstd::prelude::*;

use crate::fixed::{Fx, SCALE, fsub, fneg, fmul, fdiv, fadd};
use crate::linalg::matrix::{
    Matrix, mat_tuple, mat_mul4, mat4_wf, cell_acc, spec_translation, spec_inv4, spec_identity4,
    spec_det, lemma_invert_gives_inv4, lemma_identity_gives_identity4, lemma_m_shape,
};
use crate::linalg::tuple::{Tuple, tsub, tcross, tdivide, tmag, tup_of};
use crate::ray::Ray;
use crate::trig::spec_tan;
use crate::utils::feq;

verus! {

broadcast use crate::linalg::tuple::lemma_tup_roundtrip, crate::linalg::grid::lemma_grid_len, crate::linalg::grid::lemma_grid_row_len, crate::linalg::grid::lemma_grid_entry;

/// The world-to-view transform built from an eye point, a target and
/// an up hint: the orientation rows times the eye translation.
pub open spec fn spec_view_transform(
    from: (int, int, int, int),
    to: (int, int, int, int),
    up: (int, int, int, int),
) -> Seq<Seq<int>> {
    let fwd0 = tsub(to, from);
    let forward = tdivide(fwd0, tmag(fwd0));
    let upn = tdivide(up, tmag(up));
    let left = tcross(forward, upn);
    let true_up = tcross(left, forward);
    let orientation = seq![
        seq![left.0, left.1, left.2, 0int],
        seq![true_up.0, true_up.1, true_up.2, 0int],
        seq![fneg(forward.0), fneg(forward.1), fneg(forward.2), 0int],
        seq![0int, 0int, 0int, SCALE as int],
    ];
    mat_mul4(orientation, spec_translation(fneg(from.0), fneg(from.1), fneg(from.2)))
}

/// The derived viewport numbers: half width, half height and pixel
/// size for a field of view and a pixel grid.
pub open spec fn spec_camera_dims(hsize: int, vsize: int, fov: int) -> (int, int, int) {
    let half_view = spec_tan(fdiv(fov, 2 * (SCALE as int)));
    let aspect = fdiv(hsize * (SCALE as int), vsize * (SCALE as int));
    let hw = if aspect >= SCALE as int {
        half_view
    } else {
        fmul(half_view, aspect)
    };
    let hh = if aspect >= SCALE as int {
        fdiv(half_view, aspect)
    } else {
        half_view
    };
    let ps = fdiv(fmul(hw, 2 * (SCALE as int)), hsize * (SCALE as int));
    (hw, hh, ps)
}

pub struct Camera {
    pub hsize: i64,
    pub vsize: i64,
    pub field_of_view: Fx,
    pub transformation: Matrix,
    pub inv_transformation: Matrix,
    pub half_width: Fx,
    pub half_height: Fx,
    pub pixel_size: Fx,
    pub origin: Tuple,
}

/// The ray through the middle of a pixel, in world space.
pub open spec fn spec_ray_for_pixel(c: Camera, x: int, y: int) -> Ray {
    let x_offset = fmul(fadd(x * (SCALE as int), 2147483648), c.pixel_size.v());
    let y_offset = fmul(fadd(y * (SCALE as int), 2147483648), c.pixel_size.v());
    let world_x = fsub(c.half_width.v(), x_offset);
    let world_y = fsub(c.half_height.v(), y_offset);
    let w = (world_x, world_y, fneg(SCALE as int), SCALE as int);
    let pixel = mat_tuple(c.inv_transformation.m(), w, 4);
    let dir0 = tsub(pixel, c.origin.m());
    let direction = tdivide(dir0, tmag(dir0));
    Ray { origin: c.origin, direction: tup_of(direction) }
}

/// The world-to-view transform from an eye point, a target and an up
/// hint.
pub fn view_transform(from: &Tuple, to: &Tuple, up: &Tuple) -> (r: Matrix)
    ensures
        mat4_wf(r),
        r.m() == spec_view_transform(from.m(), to.m(), up.m()),
{
    let forward = to.subtract(from).normalize();
    let upn = up.normalize();
    let left = forward.cross(&upn);
    let true_up = left.cross(&forward);

    let mut values: Vec<Vec<Fx>> = Vec::new();
    values.push(row4v(left.x, left.y, left.z, Fx::zero()));
    values.push(row4v(true_up.x, true_up.y, true_up.z, Fx::zero()));
    values.push(row4v(forward.x.neg(), forward.y.neg(), forward.z.neg(), Fx::zero()));
    values.push(row4v(Fx::zero(), Fx::zero(), Fx::zero(), Fx::one()));
    let result = Matrix::from_values(&values);
    proof {
        let fwd0 = tsub(to.m(), from.m());
        let fm = tdivide(fwd0, tmag(fwd0));
        let um = tdivide(up.m(), tmag(up.m()));
        let lm = tcross(fm, um);
        let tm = tcross(lm, fm);
        assert(result.m() =~~= seq![
            seq![lm.0, lm.1, lm.2, 0int],
            seq![tm.0, tm.1, tm.2, 0int],
            seq![fneg(fm.0), fneg(fm.1), fneg(fm.2), 0int],
            seq![0int, 0int, 0int, SCALE as int],
        ]);
    }
    let translation = Matrix::translation(from.x.neg(), from.y.neg(), from.z.neg());
    let product = result.multiply_matrix(&translation);
    proof {
        lemma_m_shape(product);
        assert forall|i: int, j: int| 0 <= i < 4 && 0 <= j < 4 implies product.m()[i][j]
            == spec_view_transform(from.m(), to.m(), up.m())[i][j] by {
            assert(product.at(i, j) == cell_acc(result.m(), translation.m(), i, j, 4));
        }
        assert(product.m() =~~= spec_view_transform(from.m(), to.m(), up.m()));
    }
    product
}

/// A row of four scalars for the orientation grid.
fn row4v(a: Fx, b: Fx, c: Fx, d: Fx) -> (r: Vec<Fx>)
    ensures
        r@.len() == 4,
        r@[0] == a,
        r@[1] == b,
        r@[2] == c,
        r@[3] == d,
{
    let mut r: Vec<Fx> = Vec::new();
    r.push(a);
    r.push(b);
    r.push(c);
    r.push(d);
    r
}

impl Camera {
    /// Both cached matrices have the four-by-four shape.
    pub open spec fn wf(self) -> bool {
        mat4_wf(self.transformation) && mat4_wf(self.inv_transformation)
    }

    /// Build a camera from a pixel grid, a field of view and the
    /// viewing frame. A view transform the tolerance calls singular
    /// falls back to the identity as its inverse, so construction is
    /// total.
    pub fn new(hsize: i64, vsize: i64, field_of_view: Fx, from: &Tuple, to: &Tuple, up: &Tuple) -> (c:
        Camera)
        requires
            0 < hsize <= 2147483647,
            0 < vsize <= 2147483647,
        ensures
            c.wf(),
            c.hsize == hsize,
            c.vsize == vsize,
            c.field_of_view == field_of_view,
            (c.half_width.v(), c.half_height.v(), c.pixel_size.v()) == spec_camera_dims(
                hsize as int,
                vsize as int,
                field_of_view.v(),
            ),
            c.transformation.m() == spec_view_transform(from.m(), to.m(), up.m()),
            c.inv_transformation.m() == if !feq(
                spec_det(spec_view_transform(from.m(), to.m(), up.m()), 4),
                0,
            ) {
                spec_inv4(spec_view_transform(from.m(), to.m(), up.m()))
            } else {
                spec_identity4()
            },
            c.origin.m() == mat_tuple(
                c.inv_transformation.m(),
                (0int, 0int, 0int, SCALE as int),
                4,
            ),
    {
        let half_view = field_of_view.over(Fx::from_int(2)).tan();
        let aspect = Fx::from_int(hsize).over(Fx::from_int(vsize));

        let mut half_width = half_view.times(aspect);
        let mut half_height = half_view;
        if aspect.ge(Fx::one()) {
            half_width = half_view;
            half_height = half_view.over(aspect);
        }

        let transformation = view_transform(from, to, up);
        let inv_transformation: Matrix = if transformation.is_invertible() {
            let inv = transformation.invert();
            proof {
                lemma_invert_gives_inv4(transformation, inv);
            }
            inv
        } else {
            let ident = Matrix::identity(4);
            proof {
                lemma_identity_gives_identity4(ident);
            }
            ident
        };
        let origin = inv_transformation.multiply_tuple(&crate::utils::origin_point());

        let pixel_size = half_width.times(Fx::from_int(2)).over(Fx::from_int(hsize));

        Camera {
            hsize,
            vsize,
            field_of_view,
            inv_transformation,
            transformation,
            half_width,
            half_height,
            pixel_size,
            origin,
        }
    }

    /// The ray through the middle of pixel `(x, y)`.
    pub fn ray_for_pixel(&self, x: i64, y: i64) -> (r: Ray)
        requires
            self.wf(),
            -2147483647 <= x <= 2147483647,
            -2147483647 <= y <= 2147483647,
        ensures
            r == spec_ray_for_pixel(*self, x as int, y as int),
    {
        let half = Fx::from_ratio(1, 2);
        let x_offset = Fx::from_int(x).plus(half).times(self.pixel_size);
        let y_offset = Fx::from_int(y).plus(half).times(self.pixel_size);

        let world_x = self.half_width.minus(x_offset);
        let world_y = self.half_height.minus(y_offset);

        let w = Tuple::point(world_x, world_y, Fx::from_int(-1));
        let pixel = self.inv_transformation.multiply_tuple(&w);
        let direction = pixel.subtract(&self.origin).normalize();

        Ray { origin: self.origin, direction }
    }
}

} // verus!
