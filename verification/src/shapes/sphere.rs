//! The unit sphere at the origin, carried to world space by its
//! transform.

use vstd::prelude::*;

use crate::color::Color;
use crate::fixed::{Fx, SCALE, fadd, fsub, fneg, fmul, fdiv, fsqrt};
use crate::linalg::matrix::{
    Matrix, mat_tuple, mat4_wf, spec_inv4, spec_transpose4, spec_identity4, spec_det,
    lemma_invert_gives_inv4, lemma_transpose_gives_transpose4, lemma_identity_gives_identity4,
};
use crate::linalg::tuple::{Tuple, tsub, tdot, tdivide, tmag};
use crate::material::Material;
use crate::ray::Ray;
use crate::trig::{PI_RAW, pi, spec_atan2, spec_acos};
use crate::utils::feq;
use crate::shapes::shape::fresh_id;
use crate::world::{Intersection, fresh_hit};

verus! {

#[derive(Clone, Debug)]
pub struct Sphere {
    pub id: u128,
    pub transformation: Matrix,
    pub inv_transformation: Matrix,
    pub material: Material,
    pub inv_transformation_transposed: Matrix,
}

/// The two parameters where a ray meets the unit sphere, through the
/// inverse transform: the roots of the quadratic, smaller first, or
/// nothing when the discriminant is negative.
pub open spec fn sphere_ts(inv: Seq<Seq<int>>, ray: Ray) -> Option<(int, int)> {
    let o = mat_tuple(inv, ray.origin.m(), 4);
    let d = mat_tuple(inv, ray.direction.m(), 4);
    let shape_to_ray = tsub(o, (0int, 0int, 0int, SCALE as int));
    let a = tdot(d, d);
    let b = fmul(2 * (SCALE as int), tdot(d, shape_to_ray));
    let c = fsub(tdot(shape_to_ray, shape_to_ray), SCALE as int);
    let disc = fsub(fmul(b, b), fmul(fmul(4 * (SCALE as int), a), c));
    if disc >= 0 {
        Some(
            (
                fdiv(fsub(fneg(b), fsqrt(disc)), fmul(2 * (SCALE as int), a)),
                fdiv(fadd(fneg(b), fsqrt(disc)), fmul(2 * (SCALE as int), a)),
            ),
        )
    } else {
        None
    }
}

/// The records a sphere contributes for a ray: both roots, or none.
pub open spec fn sphere_hits(s: Sphere, ray: Ray, idx: usize) -> Seq<Intersection> {
    match sphere_ts(s.inv_transformation.m(), ray) {
        Some(ts) => seq![
            fresh_hit(Fx { raw: ts.0 as i64 }, idx),
            fresh_hit(Fx { raw: ts.1 as i64 }, idx),
        ],
        None => Seq::empty(),
    }
}

/// The world normal on a sphere: object normal carried out by the
/// transposed inverse, homogeneous part dropped, renormalized.
pub open spec fn sphere_normal(s: Sphere, p: (int, int, int, int)) -> (int, int, int, int) {
    let op = mat_tuple(s.inv_transformation.m(), p, 4);
    let on = tsub(op, (0int, 0int, 0int, SCALE as int));
    let wn = mat_tuple(s.inv_transformation_transposed.m(), on, 4);
    let wn0 = (wn.0, wn.1, wn.2, 0int);
    tdivide(wn0, tmag(wn0))
}

/// The spherical surface coordinates at an object point.
pub open spec fn sphere_uv(p: (int, int, int, int)) -> (int, int, int, int) {
    let theta = spec_atan2(p.0, p.2);
    let radius = tmag(p);
    let phi = spec_acos(fdiv(p.1, radius));
    let raw_u = fdiv(theta, fmul(2 * (SCALE as int), PI_RAW as int));
    let u = fsub(SCALE as int, fsub(raw_u, 2147483648));
    let v = fsub(SCALE as int, fdiv(phi, PI_RAW as int));
    (u, v, 0int, SCALE as int)
}

impl Sphere {
    /// All three cached matrices have the four-by-four shape.
    pub open spec fn wf(self) -> bool {
        mat4_wf(self.transformation) && mat4_wf(self.inv_transformation) && mat4_wf(
            self.inv_transformation_transposed,
        )
    }

    pub fn new(transformation: Matrix, material: Material) -> (s: Sphere)
        requires
            mat4_wf(transformation),
            !feq(spec_det(transformation.m(), 4), 0),
        ensures
            s.wf(),
            s.transformation == transformation,
            s.inv_transformation.m() == spec_inv4(transformation.m()),
            s.inv_transformation_transposed.m() == spec_transpose4(spec_inv4(transformation.m())),
            s.material == material,
    {
        let inv = transformation.invert();
        let invt = inv.transpose();
        proof {
            lemma_invert_gives_inv4(transformation, inv);
            lemma_transpose_gives_transpose4(inv, invt);
        }
        Sphere {
            id: fresh_id(),
            inv_transformation_transposed: invt,
            inv_transformation: inv,
            transformation,
            material,
        }
    }

    /// The untransformed sphere with the default material.
    pub fn default() -> (s: Sphere)
        ensures
            s.wf(),
            s.transformation.m() == spec_identity4(),
            s.inv_transformation.m() == spec_identity4(),
            s.inv_transformation_transposed.m() == spec_identity4(),
            s.material == crate::material::default_material(),
    {
        let ident = Matrix::identity(4);
        let ident2 = Matrix::identity(4);
        let identt = ident2.transpose();
        proof {
            lemma_identity_gives_identity4(ident);
            lemma_identity_gives_identity4(ident2);
            lemma_transpose_gives_transpose4(ident2, identt);
            assert(spec_transpose4(spec_identity4()) =~~= spec_identity4());
        }
        Sphere {
            id: fresh_id(),
            transformation: ident,
            inv_transformation: ident2,
            material: Material::default(),
            inv_transformation_transposed: identt,
        }
    }

    pub fn normal_at(&self, p: &Tuple) -> (n: Tuple)
        requires
            self.wf(),
        ensures
            n.m() == sphere_normal(*self, p.m()),
    {
        let op = self.inv_transformation.multiply_tuple(p);
        let on = op.subtract(&crate::utils::origin_point());
        let wn = self.inv_transformation_transposed.multiply_tuple(&on);
        let wn0 = Tuple { x: wn.x, y: wn.y, z: wn.z, w: Fx::zero() };
        wn0.normalize()
    }

    pub fn intersect(&self, r: &Ray, idx: usize) -> (result: Vec<Intersection>)
        requires
            self.wf(),
        ensures
            result@ == sphere_hits(*self, *r, idx),
    {
        let mut result: Vec<Intersection> = Vec::new();

        let ray = r.transform(&self.inv_transformation);
        let shape_to_ray = ray.origin.subtract(&crate::utils::origin_point());
        let a = ray.direction.dot(&ray.direction);
        let b = Fx::from_int(2).times(ray.direction.dot(&shape_to_ray));
        let c = shape_to_ray.dot(&shape_to_ray).minus(Fx::one());
        let discriminant = b.times(b).minus(Fx::from_int(4).times(a).times(c));

        if discriminant.raw >= 0 {
            let root = discriminant.sqrt();
            let denom = Fx::from_int(2).times(a);
            let t1 = b.neg().minus(root).over(denom);
            result.push(Intersection::new(t1, idx));

            let t2 = b.neg().plus(root).over(denom);
            result.push(Intersection::new(t2, idx));
            proof {
                assert(result@ =~= sphere_hits(*self, *r, idx));
            }
        } else {
            proof {
                assert(result@ =~= sphere_hits(*self, *r, idx));
            }
        }

        result
    }

    pub fn uv_coordinates(&self, p: &Tuple) -> (uv: Tuple)
        ensures
            uv.m() == sphere_uv(p.m()),
    {
        let theta = p.x.atan2(p.z);
        let radius = p.magnitude();
        let phi = p.y.over(radius).acos();

        let raw_u = theta.over(Fx::from_int(2).times(pi()));
        let u = Fx::one().minus(raw_u.minus(Fx::from_ratio(1, 2)));
        let v = Fx::one().minus(phi.over(pi()));

        Tuple::point(u, v, Fx::zero())
    }

    pub fn get_id(&self) -> (r: u128)
        ensures
            r == self.id,
    {
        self.id
    }

    /// Install a new transform, recomputing both cached inverses in
    /// the same step: a stale inverse or transposed inverse would
    /// silently corrupt every later intersection or normal.
    pub fn set_transformation(&mut self, t: Matrix)
        requires
            mat4_wf(t),
            !feq(spec_det(t.m(), 4), 0),
        ensures
            final(self).transformation == t,
            final(self).inv_transformation.m() == spec_inv4(t.m()),
            mat4_wf(final(self).inv_transformation),
            final(self).inv_transformation_transposed.m() == spec_transpose4(spec_inv4(t.m())),
            mat4_wf(final(self).inv_transformation_transposed),
            final(self).material == old(self).material,
            final(self).id == old(self).id,
    {
        let inv = t.invert();
        let invt = inv.transpose();
        proof {
            lemma_invert_gives_inv4(t, inv);
            lemma_transpose_gives_transpose4(inv, invt);
        }
        self.inv_transformation = inv;
        self.inv_transformation_transposed = invt;
        self.transformation = t;
    }

    pub fn get_transformation(&self) -> (r: &Matrix)
        ensures
            *r == self.transformation,
    {
        &self.transformation
    }

    pub fn get_inverse_transformation(&self) -> (r: &Matrix)
        ensures
            *r == self.inv_transformation,
    {
        &self.inv_transformation
    }

    pub fn set_material(&mut self, mat: Material)
        ensures
            *final(self) == (Sphere { material: mat, ..*old(self) }),
    {
        self.material = mat;
    }

    pub fn get_material(&self) -> (r: &Material)
        ensures
            *r == self.material,
    {
        &self.material
    }
}

/// The two spheres of the reference scene: a colored outer unit
/// sphere and a half-size default inner one.
pub fn get_default_spheres() -> (v: Vec<Sphere>)
    ensures
        v@.len() == 2,
        v@[0].wf(),
        v@[1].wf(),
        v@[0].transformation.m() == spec_identity4(),
        v@[1].transformation.m() == crate::linalg::matrix::spec_scaling(
            2147483648,
            2147483648,
            2147483648,
        ),
        v@[0].material.color == Some(
            Color { r: Fx { raw: 3435973836 }, g: Fx { raw: SCALE }, b: Fx { raw: 2576980377 } },
        ),
        v@[0].material.ambient.raw == 429496729,
        v@[0].material.diffuse.raw == 3006477107,
        v@[0].material.specular.raw == 858993459,
        v@[0].material.shininess.raw == 200 * (SCALE as int),
        v@[0].material.reflective.raw == 0,
        v@[0].material.transparency.raw == 0,
        v@[0].material.refractive_index.raw == SCALE,
        v@[1].material == crate::material::default_material(),
        v@[0].inv_transformation.m() == spec_inv4(spec_identity4()),
        v@[1].inv_transformation.m() == spec_inv4(
            crate::linalg::matrix::spec_scaling(2147483648, 2147483648, 2147483648),
        ),
{
    let ident = Matrix::identity(4);
    proof {
        lemma_identity_gives_identity4(ident);
        lemma_det4_identity();
    }
    let s1 = Sphere::new(
        ident,
        Material::new(
            Some(Color::new(Fx::from_ratio(8, 10), Fx::one(), Fx::from_ratio(6, 10))),
            None,
            Fx::from_ratio(1, 10),
            Fx::from_ratio(7, 10),
            Fx::from_ratio(2, 10),
            Fx::from_int(200),
            Fx::zero(),
            Fx::zero(),
            Fx::one(),
        ),
    );
    let half = Fx::from_ratio(1, 2);
    let scale_half = Matrix::scaling(half, half, half);
    proof {
        lemma_det4_half_scaling();
    }
    let s2 = Sphere::new(scale_half, Material::default());
    let mut v: Vec<Sphere> = Vec::new();
    v.push(s1);
    v.push(s2);
    v
}

/// A clear unit sphere: full transparency, refractive index 1.5.
pub fn get_glass_sphere() -> (s: Sphere)
    ensures
        s.wf(),
        s.transformation.m() == spec_identity4(),
        s.inv_transformation.m() == spec_identity4(),
        s.material.transparency.raw == SCALE,
        s.material.refractive_index.raw == 6442450944,
        s.material.color == Some(
            Color { r: Fx { raw: SCALE }, g: Fx { raw: SCALE }, b: Fx { raw: SCALE } },
        ),
        s.material.ambient.raw == 429496729,
        s.material.diffuse.raw == 3865470566,
        s.material.specular.raw == 3865470566,
        s.material.shininess.raw == 200 * (SCALE as int),
        s.material.reflective.raw == 0,
        s.material.pattern is None,
{
    let mut result = Sphere::default();
    result.material.transparency = Fx::one();
    result.material.refractive_index = Fx::from_ratio(3, 2);
    result
}

/// A diagonal four-by-four grid has the determinant of its diagonal
/// products, and it is nonzero for the transforms built here.
proof fn lemma_det4_diagonal(g: Seq<Seq<int>>, a: int, b: int, c: int)
    requires
        g == crate::linalg::matrix::spec_scaling(a, b, c),
        0 < a <= SCALE,
        0 < b <= SCALE,
        0 < c <= SCALE,
    ensures
        spec_det(g, 4) == fmul(a, fmul(b, c)),
{
    reveal_with_fuel(spec_det, 5);
    reveal_with_fuel(crate::linalg::matrix::det_acc, 6);
    let g3 = seq![seq![b, 0int, 0int], seq![0int, c, 0int], seq![0int, 0int, SCALE as int]];
    let g2 = seq![seq![c, 0int], seq![0int, SCALE as int]];
    assert(crate::linalg::matrix::spec_submatrix(g, 0, 0) =~~= g3);
    assert(crate::linalg::matrix::spec_submatrix(g3, 0, 0) =~~= g2);
    crate::fixed::lemma_fmul_one(c);
    assert(spec_det(g2, 2) == c);
    assert(fmul(fmul(SCALE as int, b), spec_det(g2, 2)) == fmul(b, c)) by {
        crate::fixed::lemma_fmul_one(b);
    }
    assert(fmul(fmul(SCALE as int, 0), spec_det(crate::linalg::matrix::spec_submatrix(g3, 0, 1), 2))
        == 0) by {
        crate::fixed::lemma_fmul_one(0);
        lemma_fmul_zero(spec_det(crate::linalg::matrix::spec_submatrix(g3, 0, 1), 2));
    }
    assert(fmul(fneg(SCALE as int), 0) == 0) by {
        crate::fixed::lemma_fmul_one(0);
    }
    assert(fmul(fmul(fneg(SCALE as int), 0), spec_det(
        crate::linalg::matrix::spec_submatrix(g3, 0, 1),
        2,
    )) == 0) by {
        lemma_fmul_zero(spec_det(crate::linalg::matrix::spec_submatrix(g3, 0, 1), 2));
    }
    assert(fmul(fmul(SCALE as int, 0), spec_det(crate::linalg::matrix::spec_submatrix(g3, 0, 2), 2))
        == 0) by {
        crate::fixed::lemma_fmul_one(0);
        lemma_fmul_zero(spec_det(crate::linalg::matrix::spec_submatrix(g3, 0, 2), 2));
    }
    assert(spec_det(g3, 3) == fmul(b, c));
    assert(fmul(fmul(SCALE as int, a), spec_det(g3, 3)) == fmul(a, fmul(b, c))) by {
        crate::fixed::lemma_fmul_one(a);
    }
    assert forall|k: int| 1 <= k < 4 implies fmul(
        fmul(
            if (k % 2) == 0 {
                SCALE as int
            } else {
                fneg(SCALE as int)
            },
            g[0][k],
        ),
        spec_det(crate::linalg::matrix::spec_submatrix(g, 0, k), 3),
    ) == 0 by {
        assert(g[0][k] == 0);
        crate::fixed::lemma_fmul_one(0);
        lemma_fmul_zero(spec_det(crate::linalg::matrix::spec_submatrix(g, 0, k), 3));
    }
    assert(spec_det(g, 4) == fmul(a, fmul(b, c)));
}

/// Multiplying the fixed-point zero by anything gives zero.
proof fn lemma_fmul_zero(x: int)
    ensures
        fmul(0, x) == 0,
        fmul(x, 0) == 0,
{
    assert(0 * x == 0) by (nonlinear_arith);
    assert(x * 0 == 0) by (nonlinear_arith);
}

/// The identity transform has a nonzero determinant.
proof fn lemma_det4_identity()
    ensures
        !feq(spec_det(spec_identity4(), 4), 0),
{
    assert(spec_identity4() =~~= crate::linalg::matrix::spec_scaling(
        SCALE as int,
        SCALE as int,
        SCALE as int,
    ));
    lemma_det4_diagonal(spec_identity4(), SCALE as int, SCALE as int, SCALE as int);
    crate::fixed::lemma_fmul_one(SCALE as int);
}

/// The uniform half scaling has a nonzero determinant.
proof fn lemma_det4_half_scaling()
    ensures
        !feq(
            spec_det(crate::linalg::matrix::spec_scaling(2147483648, 2147483648, 2147483648), 4),
            0,
        ),
{
    lemma_det4_diagonal(
        crate::linalg::matrix::spec_scaling(2147483648, 2147483648, 2147483648),
        2147483648,
        2147483648,
        2147483648,
    );
    assert(fmul(2147483648, 2147483648) == 1073741824);
    assert(fmul(2147483648, 1073741824) == 536870912);
}

} // verus!
