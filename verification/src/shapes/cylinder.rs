//! The unit-radius cylinder about the y axis, bounded in y and
//! optionally capped.

use vstd::prelude::*;

use crate::fixed::{Fx, SCALE, fadd, fsub, fneg, fmul, fdiv, fsqrt, fabs, ffloor};
use crate::linalg::matrix::{
    Matrix, mat_tuple, mat4_wf, spec_inv4, spec_identity4, spec_det, lemma_invert_gives_inv4,
    lemma_identity_gives_identity4,
};
use crate::linalg::tuple::{Tuple, tdivide, tmag};
use crate::material::Material;
use crate::ray::Ray;
use crate::shapes::shape::fresh_id;
use crate::trig::{PI_RAW, pi, spec_atan2};
use crate::utils::{feq, EPSILON_RAW, epsilon};
use crate::world::{Intersection, fresh_hit};

verus! {

#[derive(Clone, Debug)]
pub struct Cylinder {
    pub id: u128,
    pub transformation: Matrix,
    pub inv_transformation: Matrix,
    pub material: Material,
    pub min_y: Fx,
    pub max_y: Fx,
    pub closed: bool,
}

/// Whether the point at parameter `t` of a ray lies within the unit
/// disk of a cap.
pub open spec fn spec_check_cap(o: (int, int, int, int), d: (int, int, int, int), t: int) -> bool {
    let x = fadd(o.0, fmul(t, d.0));
    let z = fadd(o.2, fmul(t, d.2));
    fadd(fmul(x, x), fmul(z, z)) <= SCALE as int
}

/// The records the two end caps contribute for an object-space ray.
pub open spec fn cap_hits(s: Cylinder, o: (int, int, int, int), d: (int, int, int, int), idx: usize) -> Seq<
    Intersection,
> {
    if s.closed && fabs(d.1) > EPSILON_RAW as int {
        let t1 = fdiv(fsub(s.min_y.v(), o.1), d.1);
        let t2 = fdiv(fsub(s.max_y.v(), o.1), d.1);
        (if spec_check_cap(o, d, t1) {
            seq![fresh_hit(Fx { raw: t1 as i64 }, idx)]
        } else {
            Seq::empty()
        }) + (if spec_check_cap(o, d, t2) {
            seq![fresh_hit(Fx { raw: t2 as i64 }, idx)]
        } else {
            Seq::empty()
        })
    } else {
        Seq::empty()
    }
}

/// The records the cylinder body contributes: quadratic roots in x-z,
/// kept only within the y bounds.
pub open spec fn body_hits(s: Cylinder, o: (int, int, int, int), d: (int, int, int, int), idx: usize) -> Seq<
    Intersection,
> {
    let a = fadd(fmul(d.0, d.0), fmul(d.2, d.2));
    if fabs(a) > EPSILON_RAW as int {
        let b = fadd(fmul(fmul(2 * (SCALE as int), o.0), d.0), fmul(fmul(2 * (SCALE as int), o.2), d.2));
        let c = fsub(fadd(fmul(o.0, o.0), fmul(o.2, o.2)), SCALE as int);
        let disc = fsub(fmul(b, b), fmul(fmul(4 * (SCALE as int), a), c));
        if disc >= 0 {
            let t1 = fdiv(fsub(fneg(b), fsqrt(disc)), fmul(2 * (SCALE as int), a));
            let y1 = fadd(o.1, fmul(t1, d.1));
            let t2 = fdiv(fadd(fneg(b), fsqrt(disc)), fmul(2 * (SCALE as int), a));
            let y2 = fadd(o.1, fmul(t2, d.1));
            (if s.min_y.v() <= y1 <= s.max_y.v() {
                seq![fresh_hit(Fx { raw: t1 as i64 }, idx)]
            } else {
                Seq::empty()
            }) + (if s.min_y.v() <= y2 <= s.max_y.v() {
                seq![fresh_hit(Fx { raw: t2 as i64 }, idx)]
            } else {
                Seq::empty()
            })
        } else {
            Seq::empty()
        }
    } else {
        Seq::empty()
    }
}

/// All records a cylinder contributes: body roots, then cap roots.
pub open spec fn cylinder_hits(s: Cylinder, ray: Ray, idx: usize) -> Seq<Intersection> {
    let o = mat_tuple(s.inv_transformation.m(), ray.origin.m(), 4);
    let d = mat_tuple(s.inv_transformation.m(), ray.direction.m(), 4);
    body_hits(s, o, d, idx) + cap_hits(s, o, d, idx)
}

/// The world normal on a cylinder: radial, except on a cap.
pub open spec fn cylinder_normal(s: Cylinder, p: (int, int, int, int)) -> (int, int, int, int) {
    let op = mat_tuple(s.inv_transformation.m(), p, 4);
    let dist = fadd(fmul(op.0, op.0), fmul(op.2, op.2));
    let side = (op.0, 0int, op.2, 0int);
    let v = if dist < SCALE as int && op.1 <= fadd(s.min_y.v(), EPSILON_RAW as int) {
        mat_tuple(s.inv_transformation.m(), (0int, -(SCALE as int), 0int, 0int), 4)
    } else if dist < SCALE as int && op.1 >= fsub(s.max_y.v(), EPSILON_RAW as int) {
        mat_tuple(s.inv_transformation.m(), (0int, SCALE as int, 0int, 0int), 4)
    } else {
        side
    };
    tdivide(v, tmag(v))
}

/// The cylindrical surface coordinates at an object point.
pub open spec fn cylinder_uv(p: (int, int, int, int)) -> (int, int, int, int) {
    let theta = spec_atan2(p.0, p.2);
    let raw_u = fdiv(theta, fmul(2 * (SCALE as int), PI_RAW as int));
    let u = fsub(SCALE as int, fadd(raw_u, 2147483648));
    let v = fsub(p.1, ffloor(p.1));
    (u, v, 0int, SCALE as int)
}

impl Cylinder {
    pub open spec fn wf(self) -> bool {
        mat4_wf(self.transformation) && mat4_wf(self.inv_transformation)
    }

    pub fn new(transformation: Matrix, material: Material, min_y: Fx, max_y: Fx, closed: bool) -> (s:
        Cylinder)
        requires
            mat4_wf(transformation),
            !feq(spec_det(transformation.m(), 4), 0),
        ensures
            s.wf(),
            s.transformation == transformation,
            s.inv_transformation.m() == spec_inv4(transformation.m()),
            s.material == material,
            s.min_y == min_y,
            s.max_y == max_y,
            s.closed == closed,
    {
        let inv = transformation.invert();
        proof {
            lemma_invert_gives_inv4(transformation, inv);
        }
        Cylinder {
            id: fresh_id(),
            inv_transformation: inv,
            transformation,
            material,
            min_y,
            max_y,
            closed,
        }
    }

    /// The untransformed open cylinder over [0, 1] with the default
    /// material.
    pub fn default() -> (s: Cylinder)
        ensures
            s.wf(),
            s.transformation.m() == spec_identity4(),
            s.inv_transformation.m() == spec_identity4(),
            s.material == crate::material::default_material(),
            s.min_y.raw == 0,
            s.max_y.raw == SCALE,
            !s.closed,
    {
        let ident = Matrix::identity(4);
        let ident2 = Matrix::identity(4);
        proof {
            lemma_identity_gives_identity4(ident);
            lemma_identity_gives_identity4(ident2);
        }
        Cylinder {
            id: fresh_id(),
            inv_transformation: ident2,
            transformation: ident,
            material: Material::default(),
            min_y: Fx::zero(),
            max_y: Fx::one(),
            closed: false,
        }
    }

    /// Whether the ray's point at `t` falls within a cap's unit disk.
    pub fn check_cap(&self, r: &Ray, t: Fx) -> (b: bool)
        ensures
            b == spec_check_cap(r.origin.m(), r.direction.m(), t.v()),
    {
        let x = r.origin.x.plus(t.times(r.direction.x));
        let z = r.origin.z.plus(t.times(r.direction.z));
        x.times(x).plus(z.times(z)).le(Fx::one())
    }

    /// The cap records for an object-space ray.
    pub fn intersect_caps(&self, r: &Ray, idx: usize) -> (result: Vec<Intersection>)
        ensures
            result@ == cap_hits(*self, r.origin.m(), r.direction.m(), idx),
    {
        let mut result: Vec<Intersection> = Vec::new();
        if self.closed && r.direction.y.abs().gt(epsilon()) {
            let t1 = self.min_y.minus(r.origin.y).over(r.direction.y);
            if self.check_cap(r, t1) {
                result.push(Intersection::new(t1, idx));
            }

            let t2 = self.max_y.minus(r.origin.y).over(r.direction.y);
            if self.check_cap(r, t2) {
                result.push(Intersection::new(t2, idx));
            }
        }
        proof {
            assert(result@ =~= cap_hits(*self, r.origin.m(), r.direction.m(), idx));
        }
        result
    }

    pub fn normal_at(&self, p: &Tuple) -> (n: Tuple)
        requires
            self.wf(),
        ensures
            n.m() == cylinder_normal(*self, p.m()),
    {
        let op = self.inv_transformation.multiply_tuple(p);

        let dist = op.x.times(op.x).plus(op.z.times(op.z));

        let mut result = Tuple::vector(op.x, Fx::zero(), op.z);
        if dist.lt(Fx::one()) && op.y.ge(self.max_y.minus(epsilon())) {
            result = self.inv_transformation.multiply_tuple(
                &Tuple::vector(Fx::zero(), Fx::one(), Fx::zero()),
            );
        }
        if dist.lt(Fx::one()) && op.y.le(self.min_y.plus(epsilon())) {
            result = self.inv_transformation.multiply_tuple(
                &Tuple::vector(Fx::zero(), Fx::one().neg(), Fx::zero()),
            );
        }

        result.normalize()
    }

    pub fn intersect(&self, r: &Ray, idx: usize) -> (result: Vec<Intersection>)
        requires
            self.wf(),
        ensures
            result@ == cylinder_hits(*self, *r, idx),
    {
        let mut result: Vec<Intersection> = Vec::new();

        let ray = r.transform(&self.inv_transformation);
        let a = ray.direction.x.times(ray.direction.x).plus(
            ray.direction.z.times(ray.direction.z),
        );

        if a.abs().gt(epsilon()) {
            let b = Fx::from_int(2).times(ray.origin.x).times(ray.direction.x).plus(
                Fx::from_int(2).times(ray.origin.z).times(ray.direction.z),
            );
            let c = ray.origin.x.times(ray.origin.x).plus(ray.origin.z.times(ray.origin.z)).minus(
                Fx::one(),
            );
            let discriminant = b.times(b).minus(Fx::from_int(4).times(a).times(c));

            if discriminant.raw >= 0 {
                let root = discriminant.sqrt();
                let denom = Fx::from_int(2).times(a);

                let t1 = b.neg().minus(root).over(denom);
                let y1 = ray.origin.y.plus(t1.times(ray.direction.y));
                if self.min_y.le(y1) && y1.le(self.max_y) {
                    result.push(Intersection::new(t1, idx));
                }

                let t2 = b.neg().plus(root).over(denom);
                let y2 = ray.origin.y.plus(t2.times(ray.direction.y));
                if self.min_y.le(y2) && y2.le(self.max_y) {
                    result.push(Intersection::new(t2, idx));
                }
            }
        }
        proof {
            assert(result@ =~= body_hits(
                *self,
                ray.origin.m(),
                ray.direction.m(),
                idx,
            ));
        }

        let mut caps = self.intersect_caps(&ray, idx);
        result.append(&mut caps);
        proof {
            assert(result@ =~= cylinder_hits(*self, *r, idx));
        }

        result
    }

    pub fn uv_coordinates(&self, p: &Tuple) -> (uv: Tuple)
        ensures
            uv.m() == cylinder_uv(p.m()),
    {
        let theta = p.x.atan2(p.z);
        let raw_u = theta.over(Fx::from_int(2).times(pi()));
        let u = Fx::one().minus(raw_u.plus(Fx::from_ratio(1, 2)));
        let v = p.y.minus(p.y.floor());
        Tuple::point(u, v, Fx::zero())
    }

    pub fn get_id(&self) -> (r: u128)
        ensures
            r == self.id,
    {
        self.id
    }

    pub fn set_transformation(&mut self, t: Matrix)
        requires
            mat4_wf(t),
            !feq(spec_det(t.m(), 4), 0),
        ensures
            final(self).transformation == t,
            final(self).inv_transformation.m() == spec_inv4(t.m()),
            mat4_wf(final(self).inv_transformation),
            final(self).material == old(self).material,
            final(self).id == old(self).id,
            final(self).min_y == old(self).min_y,
            final(self).max_y == old(self).max_y,
            final(self).closed == old(self).closed,
    {
        let inv = t.invert();
        proof {
            lemma_invert_gives_inv4(t, inv);
        }
        self.inv_transformation = inv;
        self.transformation = t;
    }

    pub fn get_transformation(&self) -> (r: &Matrix)
        ensures
            *r == self.transformation,
    {
        &self.transformation
    }

    pub fn get_inverse_transformation(&self) -> (r: &Matrix)
        ensures
            *r == self.inv_transformation,
    {
        &self.inv_transformation
    }

    pub fn set_material(&mut self, mat: Material)
        ensures
            *final(self) == (Cylinder { material: mat, ..*old(self) }),
    {
        self.material = mat;
    }

    pub fn get_material(&self) -> (r: &Material)
        ensures
            *r == self.material,
    {
        &self.material
    }
}

} // verus!
