//! The closed shape interface: every primitive behind one sum type,
//! with the dispatching geometry queries.

use vstd::prelude::*;

use crate::linalg::matrix::{Matrix, mat4_wf, spec_det, spec_inv4};
use crate::linalg::tuple::Tuple;
use crate::material::Material;
use crate::ray::Ray;
use crate::shapes::cube::{Cube, cube_hits, cube_normal, cube_uv};
use crate::shapes::cylinder::{Cylinder, cylinder_hits, cylinder_normal, cylinder_uv};
use crate::shapes::plane::{Plane, plane_hits, plane_normal, plane_uv};
use crate::shapes::sphere::{Sphere, sphere_hits, sphere_normal, sphere_uv};
use crate::shapes::triangle::{Triangle, triangle_hits};
use crate::utils::feq;
use crate::world::Intersection;

verus! {

#[derive(Clone, Debug)]
pub enum Shape {
    Sphere(Sphere),
    Plane(Plane),
    Cube(Cube),
    Cylinder(Cylinder),
    Triangle(Triangle),
}

impl Shape {
    /// The variant's cached matrices have the shape the queries need.
    pub open spec fn wf(self) -> bool {
        match self {
            Shape::Sphere(s) => s.wf(),
            Shape::Plane(s) => s.wf(),
            Shape::Cube(s) => s.wf(),
            Shape::Cylinder(s) => s.wf(),
            Shape::Triangle(s) => s.wf(),
        }
    }

    /// The variant's inverse transform, as a grid of raw entries.
    pub open spec fn inv_m(self) -> Seq<Seq<int>> {
        match self {
            Shape::Sphere(s) => s.inv_transformation.m(),
            Shape::Plane(s) => s.inv_transformation.m(),
            Shape::Cube(s) => s.inv_transformation.m(),
            Shape::Cylinder(s) => s.inv_transformation.m(),
            Shape::Triangle(s) => s.inv_transformation.m(),
        }
    }

    /// The variant's material.
    pub open spec fn material_of(self) -> Material {
        match self {
            Shape::Sphere(s) => s.material,
            Shape::Plane(s) => s.material,
            Shape::Cube(s) => s.material,
            Shape::Cylinder(s) => s.material,
            Shape::Triangle(s) => s.material,
        }
    }

    /// The records this shape contributes for a ray, tagged with its
    /// own index in the scene.
    pub open spec fn hits_of(self, ray: Ray, idx: usize) -> Seq<Intersection> {
        match self {
            Shape::Sphere(s) => sphere_hits(s, ray, idx),
            Shape::Plane(s) => plane_hits(s, ray, idx),
            Shape::Cube(s) => cube_hits(s, ray, idx),
            Shape::Cylinder(s) => cylinder_hits(s, ray, idx),
            Shape::Triangle(s) => triangle_hits(s, ray, idx),
        }
    }

    /// The world normal this shape yields at a world point.
    pub open spec fn normal_of(self, p: (int, int, int, int)) -> (int, int, int, int) {
        match self {
            Shape::Sphere(s) => sphere_normal(s, p),
            Shape::Plane(s) => plane_normal(s),
            Shape::Cube(s) => cube_normal(s, p),
            Shape::Cylinder(s) => cylinder_normal(s, p),
            Shape::Triangle(s) => s.normal.m(),
        }
    }

    /// The surface coordinates this shape yields at an object point.
    pub open spec fn uv_of(self, p: (int, int, int, int)) -> (int, int, int, int) {
        match self {
            Shape::Sphere(_) => sphere_uv(p),
            Shape::Plane(_) => plane_uv(p),
            Shape::Cube(_) => cube_uv(p),
            Shape::Cylinder(_) => cylinder_uv(p),
            Shape::Triangle(_) => (p.0, p.1, p.2, crate::fixed::SCALE as int),
        }
    }

    pub fn normal_at(&self, p: &Tuple) -> (n: Tuple)
        requires
            self.wf(),
        ensures
            n.m() == self.normal_of(p.m()),
    {
        match self {
            Shape::Sphere(s) => s.normal_at(p),
            Shape::Plane(s) => s.normal_at(p),
            Shape::Cube(s) => s.normal_at(p),
            Shape::Cylinder(s) => s.normal_at(p),
            Shape::Triangle(s) => s.normal_at(p),
        }
    }

    pub fn intersect(&self, r: &Ray, idx: usize) -> (result: Vec<Intersection>)
        requires
            self.wf(),
        ensures
            result@ == self.hits_of(*r, idx),
    {
        match self {
            Shape::Sphere(s) => s.intersect(r, idx),
            Shape::Plane(s) => s.intersect(r, idx),
            Shape::Cube(s) => s.intersect(r, idx),
            Shape::Cylinder(s) => s.intersect(r, idx),
            Shape::Triangle(s) => s.intersect(r, idx),
        }
    }

    pub fn uv_coordinates(&self, p: &Tuple) -> (uv: Tuple)
        ensures
            uv.m() == self.uv_of(p.m()),
    {
        match self {
            Shape::Sphere(s) => s.uv_coordinates(p),
            Shape::Plane(s) => s.uv_coordinates(p),
            Shape::Cube(s) => s.uv_coordinates(p),
            Shape::Cylinder(s) => s.uv_coordinates(p),
            Shape::Triangle(s) => s.uv_coordinates(p),
        }
    }

    pub fn get_id(&self) -> (r: u128)
        ensures
            r == match *self {
                Shape::Sphere(s) => s.id,
                Shape::Plane(s) => s.id,
                Shape::Cube(s) => s.id,
                Shape::Cylinder(s) => s.id,
                Shape::Triangle(s) => s.id,
            },
    {
        match self {
            Shape::Sphere(s) => s.get_id(),
            Shape::Plane(s) => s.get_id(),
            Shape::Cube(s) => s.get_id(),
            Shape::Cylinder(s) => s.get_id(),
            Shape::Triangle(s) => s.get_id(),
        }
    }

    /// Install a new transform on the variant, recomputing every
    /// cached matrix derived from it.
    pub fn set_transformation(&mut self, t: Matrix)
        requires
            mat4_wf(t),
            !feq(spec_det(t.m(), 4), 0),
            old(self).wf(),
        ensures
            final(self).wf(),
            *final(self) is Sphere == *old(self) is Sphere,
            *final(self) is Plane == *old(self) is Plane,
            *final(self) is Cube == *old(self) is Cube,
            *final(self) is Cylinder == *old(self) is Cylinder,
            *final(self) is Triangle == *old(self) is Triangle,
            final(self).inv_m() == spec_inv4(t.m()),
            final(self).material_of() == old(self).material_of(),
            (match *final(self) {
                Shape::Sphere(s) => s.transformation == t && s.inv_transformation_transposed.m()
                    == crate::linalg::matrix::spec_transpose4(spec_inv4(t.m())),
                Shape::Plane(s) => s.transformation == t,
                Shape::Cube(s) => s.transformation == t,
                Shape::Cylinder(s) => s.transformation == t,
                Shape::Triangle(s) => s.transformation == t,
            }),
            (match (*old(self), *final(self)) {
                (Shape::Cylinder(before), Shape::Cylinder(after)) => after.min_y == before.min_y
                    && after.max_y == before.max_y && after.closed == before.closed,
                _ => true,
            }),
    {
        match self {
            Shape::Sphere(s) => s.set_transformation(t),
            Shape::Plane(s) => s.set_transformation(t),
            Shape::Cube(s) => s.set_transformation(t),
            Shape::Cylinder(s) => s.set_transformation(t),
            Shape::Triangle(s) => s.set_transformation(t),
        }
    }

    pub fn get_transformation(&self) -> (r: &Matrix)
        ensures
            *r == match *self {
                Shape::Sphere(s) => s.transformation,
                Shape::Plane(s) => s.transformation,
                Shape::Cube(s) => s.transformation,
                Shape::Cylinder(s) => s.transformation,
                Shape::Triangle(s) => s.transformation,
            },
    {
        match self {
            Shape::Sphere(s) => s.get_transformation(),
            Shape::Plane(s) => s.get_transformation(),
            Shape::Cube(s) => s.get_transformation(),
            Shape::Cylinder(s) => s.get_transformation(),
            Shape::Triangle(s) => s.get_transformation(),
        }
    }

    pub fn get_inverse_transformation(&self) -> (r: &Matrix)
        ensures
            *r == match *self {
                Shape::Sphere(s) => s.inv_transformation,
                Shape::Plane(s) => s.inv_transformation,
                Shape::Cube(s) => s.inv_transformation,
                Shape::Cylinder(s) => s.inv_transformation,
                Shape::Triangle(s) => s.inv_transformation,
            },
            (*r).m() == self.inv_m(),
    {
        match self {
            Shape::Sphere(s) => s.get_inverse_transformation(),
            Shape::Plane(s) => s.get_inverse_transformation(),
            Shape::Cube(s) => s.get_inverse_transformation(),
            Shape::Cylinder(s) => s.get_inverse_transformation(),
            Shape::Triangle(s) => s.get_inverse_transformation(),
        }
    }

    pub fn set_material(&mut self, mat: Material)
        ensures
            final(self).wf() == old(self).wf(),
            final(self).material_of() == mat,
            final(self).inv_m() == old(self).inv_m(),
            *final(self) is Sphere == *old(self) is Sphere,
            *final(self) is Plane == *old(self) is Plane,
            *final(self) is Cube == *old(self) is Cube,
            *final(self) is Cylinder == *old(self) is Cylinder,
            *final(self) is Triangle == *old(self) is Triangle,
            (match (*old(self), *final(self)) {
                (Shape::Cylinder(before), Shape::Cylinder(after)) => after.min_y == before.min_y
                    && after.max_y == before.max_y && after.closed == before.closed,
                _ => true,
            }),
    {
        match self {
            Shape::Sphere(s) => s.set_material(mat),
            Shape::Plane(s) => s.set_material(mat),
            Shape::Cube(s) => s.set_material(mat),
            Shape::Cylinder(s) => s.set_material(mat),
            Shape::Triangle(s) => s.set_material(mat),
        }
    }

    pub fn get_material(&self) -> (r: &Material)
        ensures
            *r == self.material_of(),
    {
        match self {
            Shape::Sphere(s) => s.get_material(),
            Shape::Plane(s) => s.get_material(),
            Shape::Cube(s) => s.get_material(),
            Shape::Cylinder(s) => s.get_material(),
            Shape::Triangle(s) => s.get_material(),
        }
    }
}

/// Relies on uuid::Uuid::new_v4: a fresh random identifier, read as
/// its 128-bit value.
#[verifier::external_body]
pub(crate) fn fresh_id() -> u128 {
    uuid::Uuid::new_v4().as_u128()
}

} // verus!
