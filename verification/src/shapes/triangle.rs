//! A triangle from three vertices, met by the Moeller-Trumbore
//! barycentric test on cached transformed edges.

use vstd::prelude::*;

use crate::fixed::{Fx, SCALE, fadd, fsub, fmul, fdiv, fabs};
use crate::linalg::matrix::{
    Matrix, mat_tuple, mat4_wf, spec_inv4, spec_det, lemma_invert_gives_inv4,
};
use crate::linalg::tuple::{Tuple, tsub, tdot, tcross, tdivide, tmag};
use crate::material::Material;
use crate::ray::Ray;
use crate::shapes::shape::fresh_id;
use crate::utils::{feq, EPSILON_RAW};
use crate::world::{Intersection, fresh_hit};

verus! {

#[derive(Clone, Debug)]
pub struct Triangle {
    pub id: u128,
    pub original_p1: Tuple,
    pub original_p2: Tuple,
    pub original_p3: Tuple,
    pub p1: Tuple,
    pub p2: Tuple,
    pub p3: Tuple,
    pub e1: Tuple,
    pub e2: Tuple,
    pub normal: Tuple,
    pub transformation: Matrix,
    pub inv_transformation: Matrix,
    pub material: Material,
}

/// The record a triangle contributes: one parameter when the ray
/// passes the determinant and both barycentric bounds.
pub open spec fn triangle_hits(s: Triangle, ray: Ray, idx: usize) -> Seq<Intersection> {
    let d = ray.direction.m();
    let o = ray.origin.m();
    let dir_cross_e2 = tcross(d, s.e2.m());
    let det = tdot(s.e1.m(), dir_cross_e2);
    if fabs(det) < EPSILON_RAW as int {
        Seq::empty()
    } else {
        let f = fdiv(SCALE as int, det);
        let p1_to_origin = tsub(o, s.p1.m());
        let u = fmul(f, tdot(p1_to_origin, dir_cross_e2));
        if u < 0 || u > SCALE as int {
            Seq::empty()
        } else {
            let origin_cross_e1 = tcross(p1_to_origin, s.e1.m());
            let v = fmul(f, tdot(d, origin_cross_e1));
            if v < 0 || fadd(u, v) > SCALE as int {
                Seq::empty()
            } else {
                seq![
                    fresh_hit(Fx { raw: fmul(f, tdot(s.e2.m(), origin_cross_e1)) as i64 }, idx),
                ]
            }
        }
    }
}

/// The cached vertex data a triangle derives from its transform: the
/// transformed vertices, the two edges, and the flat normal.
pub open spec fn triangle_derived_ok(s: Triangle) -> bool {
    &&& s.p1.m() == mat_tuple(s.transformation.m(), s.original_p1.m(), 4)
    &&& s.p2.m() == mat_tuple(s.transformation.m(), s.original_p2.m(), 4)
    &&& s.p3.m() == mat_tuple(s.transformation.m(), s.original_p3.m(), 4)
    &&& s.e1.m() == tsub(s.p2.m(), s.p1.m())
    &&& s.e2.m() == tsub(s.p3.m(), s.p1.m())
    &&& s.normal.m() == (tdivide(tcross(s.p2.m(), s.p1.m()), tmag(tcross(s.p2.m(), s.p1.m()))))
}

impl Triangle {
    pub open spec fn wf(self) -> bool {
        mat4_wf(self.transformation) && mat4_wf(self.inv_transformation)
    }

    pub fn new(p1: Tuple, p2: Tuple, p3: Tuple, transformation: Matrix, material: Material) -> (s:
        Triangle)
        requires
            mat4_wf(transformation),
            !feq(spec_det(transformation.m(), 4), 0),
        ensures
            s.wf(),
            s.transformation == transformation,
            s.inv_transformation.m() == spec_inv4(transformation.m()),
            s.material == material,
            s.original_p1 == p1,
            s.original_p2 == p2,
            s.original_p3 == p3,
            triangle_derived_ok(s),
    {
        let inv = transformation.invert();
        proof {
            lemma_invert_gives_inv4(transformation, inv);
        }
        let mut result = Triangle {
            id: fresh_id(),
            original_p1: p1,
            original_p2: p2,
            original_p3: p3,
            p1,
            p2,
            p3,
            e1: p1,
            e2: p1,
            normal: p1,
            inv_transformation: inv,
            transformation,
            material,
        };
        result.update();
        result
    }

    /// Recompute the cached vertices, edges and normal from the
    /// current transform.
    pub fn update(&mut self)
        requires
            mat4_wf(old(self).transformation),
        ensures
            final(self).id == old(self).id,
            final(self).original_p1 == old(self).original_p1,
            final(self).original_p2 == old(self).original_p2,
            final(self).original_p3 == old(self).original_p3,
            final(self).transformation == old(self).transformation,
            final(self).inv_transformation == old(self).inv_transformation,
            final(self).material == old(self).material,
            triangle_derived_ok(*final(self)),
    {
        self.p1 = self.transformation.multiply_tuple(&self.original_p1);
        self.p2 = self.transformation.multiply_tuple(&self.original_p2);
        self.p3 = self.transformation.multiply_tuple(&self.original_p3);

        self.e1 = self.p2.subtract(&self.p1);
        self.e2 = self.p3.subtract(&self.p1);
        self.normal = self.p2.cross(&self.p1).normalize();
    }

    /// The flat normal, the same at every point.
    pub fn normal_at(&self, _p: &Tuple) -> (n: Tuple)
        ensures
            n == self.normal,
    {
        self.normal.clone()
    }

    pub fn intersect(&self, r: &Ray, idx: usize) -> (result: Vec<Intersection>)
        ensures
            result@ == triangle_hits(*self, *r, idx),
    {
        let mut result: Vec<Intersection> = Vec::new();

        let dir_cross_e2 = r.direction.cross(&self.e2);
        let det = self.e1.dot(&dir_cross_e2);
        if det.abs().lt(crate::utils::epsilon()) {
            proof {
                assert(result@ =~= triangle_hits(*self, *r, idx));
            }
            return result;
        }

        let f = Fx::one().over(det);
        let p1_to_origin = r.origin.subtract(&self.p1);
        let u = f.times(p1_to_origin.dot(&dir_cross_e2));
        if u.lt(Fx::zero()) || u.gt(Fx::one()) {
            proof {
                assert(result@ =~= triangle_hits(*self, *r, idx));
            }
            return result;
        }

        let origin_cross_e1 = p1_to_origin.cross(&self.e1);
        let v = f.times(r.direction.dot(&origin_cross_e1));
        if v.lt(Fx::zero()) || u.plus(v).gt(Fx::one()) {
            proof {
                assert(result@ =~= triangle_hits(*self, *r, idx));
            }
            return result;
        }

        let t = f.times(self.e2.dot(&origin_cross_e1));
        result.push(Intersection::new(t, idx));
        proof {
            assert(result@ =~= triangle_hits(*self, *r, idx));
        }

        result
    }

    /// The triangle has no surface mapping: the point passes through.
    pub fn uv_coordinates(&self, p: &Tuple) -> (uv: Tuple)
        ensures
            uv.m() == (p.m().0, p.m().1, p.m().2, SCALE as int),
    {
        Tuple::point(p.x, p.y, p.z)
    }

    pub fn get_id(&self) -> (r: u128)
        ensures
            r == self.id,
    {
        self.id
    }

    pub fn set_transformation(&mut self, t: Matrix)
        requires
            mat4_wf(t),
            !feq(spec_det(t.m(), 4), 0),
        ensures
            final(self).transformation == t,
            final(self).inv_transformation.m() == spec_inv4(t.m()),
            mat4_wf(final(self).inv_transformation),
            final(self).material == old(self).material,
            final(self).id == old(self).id,
            final(self).original_p1 == old(self).original_p1,
            final(self).original_p2 == old(self).original_p2,
            final(self).original_p3 == old(self).original_p3,
            triangle_derived_ok(*final(self)),
    {
        let inv = t.invert();
        proof {
            lemma_invert_gives_inv4(t, inv);
        }
        self.inv_transformation = inv;
        self.transformation = t;
        self.update();
    }

    pub fn get_transformation(&self) -> (r: &Matrix)
        ensures
            *r == self.transformation,
    {
        &self.transformation
    }

    pub fn get_inverse_transformation(&self) -> (r: &Matrix)
        ensures
            *r == self.inv_transformation,
    {
        &self.inv_transformation
    }

    pub fn set_material(&mut self, mat: Material)
        ensures
            *final(self) == (Triangle { material: mat, ..*old(self) }),
    {
        self.material = mat;
    }

    pub fn get_material(&self) -> (r: &Material)
        ensures
            *r == self.material,
    {
        &self.material
    }
}

} // verus!
