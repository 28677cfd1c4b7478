use raytrace::fixed::Fx;
use raytrace::linalg::matrix::Matrix;
use raytrace::linalg::tuple::Tuple;
use raytrace::material::Material;
use raytrace::ray::{Ray, reflect};
use raytrace::shapes::shape::Shape;
use raytrace::shapes::sphere::Sphere;
use raytrace::shapes::triangle::Triangle;

fn fx(v: f64) -> Fx {
    Fx::from_raw((v * 4294967296.0) as i64)
}

#[test]
fn test_intersect() {
    let r = Ray::new(fx(0.0), fx(0.0), fx(-5.0), fx(0.0), fx(0.0), fx(1.0));
    let s = Shape::Sphere(Sphere::default());
    let x = s.intersect(&r, 0);
    assert_eq!(fx(4.0), x[0].t);
    assert_eq!(fx(6.0), x[1].t);

    let r = Ray::new(fx(0.0), fx(1.0), fx(-5.0), fx(0.0), fx(0.0), fx(1.0));
    let s = Shape::Sphere(Sphere::default());
    let x = s.intersect(&r, 0);
    assert_eq!(fx(5.0), x[0].t);
    assert_eq!(fx(5.0), x[1].t);

    let r = Ray::new(fx(0.0), fx(2.0), fx(-5.0), fx(0.0), fx(0.0), fx(1.0));
    let s = Shape::Sphere(Sphere::default());
    assert_eq!(0, s.intersect(&r, 0).len());

    let r = Ray::new(fx(0.0), fx(0.0), fx(0.0), fx(0.0), fx(0.0), fx(1.0));
    let s = Shape::Sphere(Sphere::default());
    let x = s.intersect(&r, 0);
    assert_eq!(fx(-1.0), x[0].t);
    assert_eq!(fx(1.0), x[1].t);

    let r = Ray::new(fx(0.0), fx(0.0), fx(5.0), fx(0.0), fx(0.0), fx(1.0));
    let s = Shape::Sphere(Sphere::default());
    let x = s.intersect(&r, 0);
    assert_eq!(fx(-6.0), x[0].t);
    assert_eq!(fx(-4.0), x[1].t);
}

#[test]
fn test_transformed_intersect() {
    let r = Ray::new(fx(0.0), fx(0.0), fx(-5.0), fx(0.0), fx(0.0), fx(1.0));
    let m = Matrix::scaling(fx(2.0), fx(2.0), fx(2.0));
    let s = Shape::Sphere(Sphere::new(m, Material::default()));
    let x = s.intersect(&r, 0);
    assert_eq!(fx(3.0), x[0].t);
    assert_eq!(fx(7.0), x[1].t);

    let r = Ray::new(fx(0.0), fx(0.0), fx(-5.0), fx(0.0), fx(0.0), fx(1.0));
    let m = Matrix::translation(fx(5.0), fx(0.0), fx(0.0));
    let s = Shape::Sphere(Sphere::new(m, Material::default()));
    let x = s.intersect(&r, 0);
    assert_eq!(0, x.len());
}

#[test]
fn test_sphere_normal_at() {
    let m = Matrix::translation(fx(0.0), fx(1.0), fx(0.0));
    let s = Shape::Sphere(Sphere::new(m, Material::default()));
    let p = Tuple::point(fx(0.0), fx(1.70711), fx(-0.70711));

    let expected = Tuple::vector(fx(0.0), fx(0.70711), fx(-0.70711));
    assert_eq!(s.normal_at(&p), expected);

    let m = Matrix::scaling(fx(1.0), fx(0.5), fx(1.0)).multiply_matrix(
        &Matrix::rotation_z(fx(144.0)),
    );
    let s = Shape::Sphere(Sphere::new(m, Material::default()));
    let half_sqrt2 = 2.0_f64.sqrt() / 2.0;
    let p = Tuple::point(fx(0.0), fx(half_sqrt2), fx(-half_sqrt2));

    let expected = Tuple::vector(fx(0.0), fx(0.97014), fx(-0.24254));
    assert_eq!(s.normal_at(&p), expected);
}

#[test]
fn test_reflect() {
    let a = Tuple::vector(fx(1.0), fx(-1.0), fx(0.0));
    let n = Tuple::vector(fx(0.0), fx(1.0), fx(0.0));
    let expected = Tuple::vector(fx(1.0), fx(1.0), fx(0.0));
    assert_eq!(expected, reflect(&a, &n));

    let half_sqrt2 = 2.0_f64.sqrt() / 2.0;
    let a = Tuple::vector(fx(0.0), fx(-1.0), fx(0.0));
    let n = Tuple::vector(fx(half_sqrt2), fx(half_sqrt2), fx(0.0));
    let expected = Tuple::vector(fx(1.0), fx(0.0), fx(0.0));
    assert_eq!(expected, reflect(&a, &n));
}

#[test]
fn triangle_test_default() {
    let t = Triangle::new(
        Tuple::point(fx(0.0), fx(1.0), fx(0.0)),
        Tuple::point(fx(-1.0), fx(0.0), fx(0.0)),
        Tuple::point(fx(1.0), fx(0.0), fx(0.0)),
        Matrix::identity(4),
        Material::default(),
    );

    let e1 = Tuple::vector(fx(-1.0), fx(-1.0), fx(0.0));
    let e2 = Tuple::vector(fx(1.0), fx(-1.0), fx(0.0));
    let normal = Tuple::vector(fx(0.0), fx(0.0), fx(-1.0));
    assert_eq!(t.e1, e1);
    assert_eq!(t.e2, e2);
    assert_eq!(t.normal, normal);
}

#[test]
fn test_ray_miss() {
    let t = Triangle::new(
        Tuple::point(fx(0.0), fx(1.0), fx(0.0)),
        Tuple::point(fx(-1.0), fx(0.0), fx(0.0)),
        Tuple::point(fx(1.0), fx(0.0), fx(0.0)),
        Matrix::identity(4),
        Material::default(),
    );
    let r = Ray {
        origin: Tuple::point(fx(0.0), fx(-1.0), fx(-2.0)),
        direction: Tuple::vector(fx(0.0), fx(1.0), fx(0.0)),
    };
    let ix = t.intersect(&r, 0);
    assert_eq!(ix.len(), 0);

    let r = Ray {
        origin: Tuple::point(fx(1.0), fx(1.0), fx(-2.0)),
        direction: Tuple::vector(fx(0.0), fx(0.0), fx(1.0)),
    };
    let ix = t.intersect(&r, 0);
    assert_eq!(ix.len(), 0);

    let r = Ray {
        origin: Tuple::point(fx(-1.0), fx(1.0), fx(-2.0)),
        direction: Tuple::vector(fx(0.0), fx(0.0), fx(1.0)),
    };
    let ix = t.intersect(&r, 0);
    assert_eq!(ix.len(), 0);

    let r = Ray {
        origin: Tuple::point(fx(1.0), fx(-1.0), fx(-2.0)),
        direction: Tuple::vector(fx(0.0), fx(0.0), fx(1.0)),
    };
    let ix = t.intersect(&r, 0);
    assert_eq!(ix.len(), 0);
}

#[test]
fn test_ray_hit() {
    let t = Triangle::new(
        Tuple::point(fx(0.0), fx(1.0), fx(0.0)),
        Tuple::point(fx(-1.0), fx(0.0), fx(0.0)),
        Tuple::point(fx(1.0), fx(0.0), fx(0.0)),
        Matrix::identity(4),
        Material::default(),
    );
    let r = Ray {
        origin: Tuple::point(fx(0.0), fx(0.5), fx(-2.0)),
        direction: Tuple::vector(fx(0.0), fx(0.0), fx(1.0)),
    };
    let ix = t.intersect(&r, 0);
    assert_eq!(ix.len(), 1);
    assert_eq!(ix[0].t, fx(2.0));
}

#[test]
fn test_cube_slab() {
    let c = Shape::Cube(raytrace::shapes::cube::Cube::default());
    let r = Ray::new(fx(5.0), fx(0.5), fx(0.0), fx(-1.0), fx(0.0), fx(0.0));
    let x = c.intersect(&r, 0);
    assert_eq!(x.len(), 2);
    assert_eq!(x[0].t, fx(4.0));
    assert_eq!(x[1].t, fx(6.0));

    let r = Ray::new(fx(2.0), fx(2.0), fx(0.0), fx(0.0), fx(-1.0), fx(0.0));
    let x = c.intersect(&r, 0);
    assert_eq!(x.len(), 0);
}

#[test]
fn test_cylinder_body_and_caps() {
    let mut cyl = raytrace::shapes::cylinder::Cylinder::default();
    cyl.min_y = fx(1.0);
    cyl.max_y = fx(2.0);
    let shape = Shape::Cylinder(cyl);
    let r = Ray::new(fx(0.0), fx(1.5), fx(-2.0), fx(0.0), fx(0.0), fx(1.0));
    let x = shape.intersect(&r, 0);
    assert_eq!(x.len(), 2);

    let mut capped = raytrace::shapes::cylinder::Cylinder::default();
    capped.min_y = fx(1.0);
    capped.max_y = fx(2.0);
    capped.closed = true;
    let shape = Shape::Cylinder(capped);
    let r = Ray::new(fx(0.0), fx(3.0), fx(0.0), fx(0.0), fx(-1.0), fx(0.0));
    let x = shape.intersect(&r, 0);
    assert_eq!(x.len(), 2);
}

#[test]
fn test_plane_parallel_ray_misses() {
    let p = Shape::Plane(raytrace::shapes::plane::Plane::default());
    let r = Ray::new(fx(0.0), fx(10.0), fx(0.0), fx(0.0), fx(0.0), fx(1.0));
    assert_eq!(p.intersect(&r, 0).len(), 0);

    let r = Ray::new(fx(0.0), fx(1.0), fx(0.0), fx(0.0), fx(-1.0), fx(0.0));
    let x = p.intersect(&r, 0);
    assert_eq!(x.len(), 1);
    assert_eq!(x[0].t, fx(1.0));
}

#[test]
fn test_set_transformation_refreshes_normal_cache() {
    // A non-uniform scale installed after construction: the normal
    // must come out of the freshly transposed inverse, not a stale
    // cache.
    let mut s = Shape::Sphere(Sphere::default());
    s.set_transformation(Matrix::scaling(fx(1.0), fx(0.5), fx(1.0)));

    let half_sqrt2 = 2.0_f64.sqrt() / 2.0;
    let p = Tuple::point(fx(half_sqrt2), fx(half_sqrt2 / 2.0), fx(0.0));
    let n = s.normal_at(&p);
    assert_eq!(n, Tuple::vector(fx(0.44721), fx(0.89443), fx(0.0)));
}
