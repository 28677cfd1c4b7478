//! The axis-aligned unit cube, met by the per-axis slab test.

use vstd::prelude::*;

use crate::color::Color;
use crate::fixed::{Fx, SCALE, fsub, fdiv, fabs, iabs};
use crate::linalg::matrix::{
    Matrix, mat_tuple, mat4_wf, spec_inv4, spec_identity4, spec_det, lemma_invert_gives_inv4,
    lemma_identity_gives_identity4,
};
use crate::linalg::tuple::{Tuple, tdivide, tmag};
use crate::material::Material;
use crate::ray::Ray;
use crate::shapes::shape::fresh_id;
use crate::utils::{feq, EPSILON_RAW, epsilon, equal};
use crate::world::{Intersection, fresh_hit};

verus! {

#[derive(Clone, Debug)]
pub struct Cube {
    pub id: u128,
    pub transformation: Matrix,
    pub inv_transformation: Matrix,
    pub material: Material,
}

/// The slab parameters along one axis, ordered; a direction below the
/// tolerance turns each bound into a saturated stand-in for the
/// signed infinity its numerator calls for.
pub open spec fn spec_check_axis(origin: int, direction: int) -> (int, int) {
    let tmin_num = fsub(-(SCALE as int), origin);
    let tmax_num = fsub(SCALE as int, origin);
    let raw = if fabs(direction) > EPSILON_RAW as int {
        (fdiv(tmin_num, direction), fdiv(tmax_num, direction))
    } else {
        (
            if tmin_num > 0 {
                i64::MAX as int
            } else {
                i64::MIN as int
            },
            if tmax_num < 0 {
                i64::MIN as int
            } else {
                i64::MAX as int
            },
        )
    };
    if raw.0 > raw.1 {
        (raw.1, raw.0)
    } else {
        raw
    }
}

pub open spec fn imax(a: int, b: int) -> int {
    if a >= b {
        a
    } else {
        b
    }
}

pub open spec fn imin(a: int, b: int) -> int {
    if a <= b {
        a
    } else {
        b
    }
}

/// The records a cube contributes: the overall slab entry and exit,
/// when they meet.
pub open spec fn cube_hits(s: Cube, ray: Ray, idx: usize) -> Seq<Intersection> {
    let o = mat_tuple(s.inv_transformation.m(), ray.origin.m(), 4);
    let d = mat_tuple(s.inv_transformation.m(), ray.direction.m(), 4);
    let xt = spec_check_axis(o.0, d.0);
    let yt = spec_check_axis(o.1, d.1);
    let zt = spec_check_axis(o.2, d.2);
    let tmin = imax(imax(xt.0, yt.0), zt.0);
    let tmax = imin(imin(xt.1, yt.1), zt.1);
    if tmin <= tmax {
        seq![fresh_hit(Fx { raw: tmin as i64 }, idx), fresh_hit(Fx { raw: tmax as i64 }, idx)]
    } else {
        Seq::empty()
    }
}

/// The world normal on a cube: the axis of the largest object-space
/// component, ties resolved toward x then y.
pub open spec fn cube_normal(s: Cube, p: (int, int, int, int)) -> (int, int, int, int) {
    let op = mat_tuple(s.inv_transformation.m(), p, 4);
    let maxc = imax(imax(fabs(op.0), fabs(op.1)), fabs(op.2));
    if crate::utils::feq(maxc, fabs(op.0)) {
        let v = (op.0, 0int, 0int, 0int);
        tdivide(v, tmag(v))
    } else if crate::utils::feq(maxc, fabs(op.1)) {
        let v = (0int, op.1, 0int, 0int);
        tdivide(v, tmag(v))
    } else {
        let v = (0int, 0int, op.2, 0int);
        tdivide(v, tmag(v))
    }
}

/// The cube has no surface mapping: the object point passes through.
pub open spec fn cube_uv(p: (int, int, int, int)) -> (int, int, int, int) {
    (p.0, p.1, p.2, SCALE as int)
}

impl Cube {
    pub open spec fn wf(self) -> bool {
        mat4_wf(self.transformation) && mat4_wf(self.inv_transformation)
    }

    pub fn new(transformation: Matrix, material: Material) -> (s: Cube)
        requires
            mat4_wf(transformation),
            !feq(spec_det(transformation.m(), 4), 0),
        ensures
            s.wf(),
            s.transformation == transformation,
            s.inv_transformation.m() == spec_inv4(transformation.m()),
            s.material == material,
    {
        let inv = transformation.invert();
        proof {
            lemma_invert_gives_inv4(transformation, inv);
        }
        Cube { id: fresh_id(), inv_transformation: inv, transformation, material }
    }

    /// The untransformed cube with a flat blue, inert material.
    pub fn default() -> (s: Cube)
        ensures
            s.wf(),
            s.transformation.m() == spec_identity4(),
            s.inv_transformation.m() == spec_identity4(),
            s.material.color == Some(
                Color { r: Fx { raw: 0 }, g: Fx { raw: 0 }, b: Fx { raw: SCALE } },
            ),
            s.material.pattern is None,
            s.material.ambient.raw == 0,
            s.material.diffuse.raw == 0,
            s.material.specular.raw == 0,
            s.material.shininess.raw == 0,
            s.material.reflective.raw == 0,
            s.material.transparency.raw == 0,
            s.material.refractive_index.raw == SCALE,
    {
        let ident = Matrix::identity(4);
        let ident2 = Matrix::identity(4);
        proof {
            lemma_identity_gives_identity4(ident);
            lemma_identity_gives_identity4(ident2);
        }
        Cube {
            id: fresh_id(),
            transformation: ident,
            inv_transformation: ident2,
            material: Material::new(
                Some(Color::new(Fx::zero(), Fx::zero(), Fx::one())),
                None,
                Fx::zero(),
                Fx::zero(),
                Fx::zero(),
                Fx::zero(),
                Fx::zero(),
                Fx::zero(),
                Fx::one(),
            ),
        }
    }

    /// The slab parameters along one axis, ordered.
    pub fn check_axis(&self, origin: Fx, direction: Fx) -> (r: (Fx, Fx))
        ensures
            (r.0.raw as int, r.1.raw as int) == spec_check_axis(origin.v(), direction.v()),
    {
        let tmin_num = Fx::from_int(-1).minus(origin);
        let tmax_num = Fx::one().minus(origin);

        let (tmin, tmax): (Fx, Fx) = if direction.abs().gt(epsilon()) {
            (tmin_num.over(direction), tmax_num.over(direction))
        } else {
            (
                if tmin_num.raw > 0 {
                    Fx { raw: i64::MAX }
                } else {
                    Fx { raw: i64::MIN }
                },
                if tmax_num.raw < 0 {
                    Fx { raw: i64::MIN }
                } else {
                    Fx { raw: i64::MAX }
                },
            )
        };

        if tmin.gt(tmax) {
            (tmax, tmin)
        } else {
            (tmin, tmax)
        }
    }

    pub fn normal_at(&self, p: &Tuple) -> (n: Tuple)
        requires
            self.wf(),
        ensures
            n.m() == cube_normal(*self, p.m()),
    {
        let op = self.inv_transformation.multiply_tuple(p);

        let maxc = op.x.abs().fmax(op.y.abs()).fmax(op.z.abs());

        if equal(maxc, op.x.abs()) {
            Tuple::vector(op.x, Fx::zero(), Fx::zero()).normalize()
        } else if equal(maxc, op.y.abs()) {
            Tuple::vector(Fx::zero(), op.y, Fx::zero()).normalize()
        } else {
            Tuple::vector(Fx::zero(), Fx::zero(), op.z).normalize()
        }
    }

    pub fn intersect(&self, r: &Ray, idx: usize) -> (result: Vec<Intersection>)
        requires
            self.wf(),
        ensures
            result@ == cube_hits(*self, *r, idx),
    {
        let mut result: Vec<Intersection> = Vec::new();

        let ray = r.transform(&self.inv_transformation);

        let (xtmin, xtmax) = self.check_axis(ray.origin.x, ray.direction.x);
        let (ytmin, ytmax) = self.check_axis(ray.origin.y, ray.direction.y);
        let (ztmin, ztmax) = self.check_axis(ray.origin.z, ray.direction.z);

        let tmin = xtmin.fmax(ytmin).fmax(ztmin);
        let tmax = xtmax.fmin(ytmax).fmin(ztmax);

        if tmin.le(tmax) {
            result.push(Intersection::new(tmin, idx));
            result.push(Intersection::new(tmax, idx));
        }
        proof {
            assert(result@ =~= cube_hits(*self, *r, idx));
        }

        result
    }

    /// The cube has no surface mapping yet: the point passes through.
    pub fn uv_coordinates(&self, p: &Tuple) -> (uv: Tuple)
        ensures
            uv.m() == cube_uv(p.m()),
    {
        Tuple::point(p.x, p.y, p.z)
    }

    pub fn get_id(&self) -> (r: u128)
        ensures
            r == self.id,
    {
        self.id
    }

    pub fn set_transformation(&mut self, t: Matrix)
        requires
            mat4_wf(t),
            !feq(spec_det(t.m(), 4), 0),
        ensures
            final(self).transformation == t,
            final(self).inv_transformation.m() == spec_inv4(t.m()),
            mat4_wf(final(self).inv_transformation),
            final(self).material == old(self).material,
            final(self).id == old(self).id,
    {
        let inv = t.invert();
        proof {
            lemma_invert_gives_inv4(t, inv);
        }
        self.inv_transformation = inv;
        self.transformation = t;
    }

    pub fn get_transformation(&self) -> (r: &Matrix)
        ensures
            *r == self.transformation,
    {
        &self.transformation
    }

    pub fn get_inverse_transformation(&self) -> (r: &Matrix)
        ensures
            *r == self.inv_transformation,
    {
        &self.inv_transformation
    }

    pub fn set_material(&mut self, mat: Material)
        ensures
            *final(self) == (Cube { material: mat, ..*old(self) }),
    {
        self.material = mat;
    }

    pub fn get_material(&self) -> (r: &Material)
        ensures
            *r == self.material,
    {
        &self.material
    }
}

} // verus!
