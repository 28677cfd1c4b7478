//! The infinite plane at y = 0, carried to world space by its
//! transform.

use vstd::prelude::*;

use crate::color::Color;
use crate::fixed::{Fx, SCALE, fsub, fneg, fdiv, ffloor, iabs};
use crate::linalg::matrix::{
    Matrix, mat_tuple, mat4_wf, spec_inv4, spec_identity4, spec_det, lemma_invert_gives_inv4,
    lemma_identity_gives_identity4,
};
use crate::linalg::tuple::{Tuple, tdivide, tmag};
use crate::material::Material;
use crate::ray::Ray;
use crate::utils::{feq, EPSILON_RAW};
use crate::shapes::shape::fresh_id;
use crate::world::{Intersection, fresh_hit};

verus! {

#[derive(Clone, Debug)]
pub struct Plane {
    pub id: u128,
    pub transformation: Matrix,
    pub inv_transformation: Matrix,
    pub material: Material,
}

/// The records a plane contributes: one root where the transformed
/// ray is not parallel to it, none otherwise.
pub open spec fn plane_hits(s: Plane, ray: Ray, idx: usize) -> Seq<Intersection> {
    let o = mat_tuple(s.inv_transformation.m(), ray.origin.m(), 4);
    let d = mat_tuple(s.inv_transformation.m(), ray.direction.m(), 4);
    if iabs(d.1) > EPSILON_RAW as int {
        seq![fresh_hit(Fx { raw: fdiv(fneg(o.1), d.1) as i64 }, idx)]
    } else {
        Seq::empty()
    }
}

/// The world normal on a plane: the transformed unit y vector,
/// renormalized.
pub open spec fn plane_normal(s: Plane) -> (int, int, int, int) {
    let wn = mat_tuple(s.inv_transformation.m(), (0int, SCALE as int, 0int, 0int), 4);
    tdivide(wn, tmag(wn))
}

/// The planar surface coordinates: fractional parts of x and z.
pub open spec fn plane_uv(p: (int, int, int, int)) -> (int, int, int, int) {
    (fsub(p.0, ffloor(p.0)), fsub(p.2, ffloor(p.2)), 0int, SCALE as int)
}

impl Plane {
    pub open spec fn wf(self) -> bool {
        mat4_wf(self.transformation) && mat4_wf(self.inv_transformation)
    }

    pub fn new(transformation: Matrix, material: Material) -> (s: Plane)
        requires
            mat4_wf(transformation),
            !feq(spec_det(transformation.m(), 4), 0),
        ensures
            s.wf(),
            s.transformation == transformation,
            s.inv_transformation.m() == spec_inv4(transformation.m()),
            s.material == material,
    {
        let inv = transformation.invert();
        proof {
            lemma_invert_gives_inv4(transformation, inv);
        }
        Plane { id: fresh_id(), inv_transformation: inv, transformation, material }
    }

    /// The untransformed plane with a flat blue, inert material.
    pub fn default() -> (s: Plane)
        ensures
            s.wf(),
            s.transformation.m() == spec_identity4(),
            s.inv_transformation.m() == spec_identity4(),
            s.material.color == Some(
                Color { r: Fx { raw: 0 }, g: Fx { raw: 0 }, b: Fx { raw: SCALE } },
            ),
            s.material.pattern is None,
            s.material.ambient.raw == 0,
            s.material.diffuse.raw == 0,
            s.material.specular.raw == 0,
            s.material.shininess.raw == 0,
            s.material.reflective.raw == 0,
            s.material.transparency.raw == 0,
            s.material.refractive_index.raw == SCALE,
    {
        let ident = Matrix::identity(4);
        let ident2 = Matrix::identity(4);
        proof {
            lemma_identity_gives_identity4(ident);
            lemma_identity_gives_identity4(ident2);
        }
        Plane {
            id: fresh_id(),
            transformation: ident,
            inv_transformation: ident2,
            material: Material::new(
                Some(Color::new(Fx::zero(), Fx::zero(), Fx::one())),
                None,
                Fx::zero(),
                Fx::zero(),
                Fx::zero(),
                Fx::zero(),
                Fx::zero(),
                Fx::zero(),
                Fx::one(),
            ),
        }
    }

    pub fn normal_at(&self, _p: &Tuple) -> (n: Tuple)
        requires
            self.wf(),
        ensures
            n.m() == plane_normal(*self),
    {
        let p = Tuple::vector(Fx::zero(), Fx::one(), Fx::zero());
        self.inv_transformation.multiply_tuple(&p).normalize()
    }

    pub fn intersect(&self, r: &Ray, idx: usize) -> (result: Vec<Intersection>)
        requires
            self.wf(),
        ensures
            result@ == plane_hits(*self, *r, idx),
    {
        let mut result: Vec<Intersection> = Vec::new();

        let ray = r.transform(&self.inv_transformation);
        if ray.direction.y.abs().gt(crate::utils::epsilon()) {
            let t = ray.origin.y.neg().over(ray.direction.y);
            result.push(Intersection::new(t, idx));
        }
        proof {
            assert(result@ =~= plane_hits(*self, *r, idx));
        }

        result
    }

    pub fn uv_coordinates(&self, p: &Tuple) -> (uv: Tuple)
        ensures
            uv.m() == plane_uv(p.m()),
    {
        let u = p.x.minus(p.x.floor());
        let v = p.z.minus(p.z.floor());
        Tuple::point(u, v, Fx::zero())
    }

    pub fn get_id(&self) -> (r: u128)
        ensures
            r == self.id,
    {
        self.id
    }

    pub fn set_transformation(&mut self, t: Matrix)
        requires
            mat4_wf(t),
            !feq(spec_det(t.m(), 4), 0),
        ensures
            final(self).transformation == t,
            final(self).inv_transformation.m() == spec_inv4(t.m()),
            mat4_wf(final(self).inv_transformation),
            final(self).material == old(self).material,
            final(self).id == old(self).id,
    {
        let inv = t.invert();
        proof {
            lemma_invert_gives_inv4(t, inv);
        }
        self.inv_transformation = inv;
        self.transformation = t;
    }

    pub fn get_transformation(&self) -> (r: &Matrix)
        ensures
            *r == self.transformation,
    {
        &self.transformation
    }

    pub fn get_inverse_transformation(&self) -> (r: &Matrix)
        ensures
            *r == self.inv_transformation,
    {
        &self.inv_transformation
    }

    pub fn set_material(&mut self, mat: Material)
        ensures
            *final(self) == (Plane { material: mat, ..*old(self) }),
    {
        self.material = mat;
    }

    pub fn get_material(&self) -> (r: &Material)
        ensures
            *r == self.material,
    {
        &self.material
    }
}

} // verus!
