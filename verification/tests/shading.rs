use raytrace::color::Color;
use raytrace::fixed::Fx;
use raytrace::light::PointLight;
use raytrace::linalg::matrix::Matrix;
use raytrace::linalg::tuple::Tuple;
use raytrace::material::Material;
use raytrace::patterns::pattern::Pattern;
use raytrace::patterns::test::TestPattern;
use raytrace::ray::Ray;
use raytrace::shapes::plane::Plane;
use raytrace::shapes::shape::Shape;
use raytrace::shapes::sphere::{Sphere, get_default_spheres, get_glass_sphere};
use raytrace::utils::{EPSILON_RAW, equal};
use raytrace::world::{
    World, Intersection, compute_intersection_data, compute_n1n2, hit, schlick,
};

fn fx(v: f64) -> Fx {
    Fx::from_raw((v * 4294967296.0) as i64)
}

fn color(r: f64, g: f64, b: f64) -> Color {
    Color::new(fx(r), fx(g), fx(b))
}

fn default_world() -> World {
    let mut w = World::default();
    let ds = get_default_spheres();
    w.objects = vec![
        Shape::Sphere(ds[0].clone()),
        Shape::Sphere(ds[1].clone()),
    ];
    w
}

#[test]
fn test_lighting() {
    let pos = Tuple::point(fx(0.0), fx(0.0), fx(0.0));
    let half_sqrt2 = 2.0_f64.sqrt() / 2.0;

    let eyev = Tuple::vector(fx(0.0), fx(0.0), fx(-1.0));
    let normv = Tuple::vector(fx(0.0), fx(0.0), fx(-1.0));
    let light = PointLight {
        intensity: Color::white(),
        position: Tuple::point(fx(0.0), fx(0.0), fx(-10.0)),
    };
    let s = Shape::Sphere(Sphere::default());
    let result = light.lighting(&s, &pos, false, &eyev, &normv);
    assert_eq!(result, color(1.9, 1.9, 1.9));

    let eyev = Tuple::vector(fx(0.0), fx(half_sqrt2), fx(-half_sqrt2));
    let normv = Tuple::vector(fx(0.0), fx(0.0), fx(-1.0));
    let light = PointLight {
        intensity: color(1.0, 1.0, 1.0),
        position: Tuple::point(fx(0.0), fx(0.0), fx(-10.0)),
    };
    let s = Shape::Sphere(Sphere::default());
    let result = light.lighting(&s, &pos, false, &eyev, &normv);
    assert_eq!(result, color(1.0, 1.0, 1.0));

    let eyev = Tuple::vector(fx(0.0), fx(0.0), fx(-1.0));
    let normv = Tuple::vector(fx(0.0), fx(0.0), fx(-1.0));
    let light = PointLight {
        intensity: color(1.0, 1.0, 1.0),
        position: Tuple::point(fx(0.0), fx(10.0), fx(-10.0)),
    };
    let s = Shape::Sphere(Sphere::default());
    let result = light.lighting(&s, &pos, false, &eyev, &normv);
    assert_eq!(result, color(0.7364, 0.7364, 0.7364));

    let eyev = Tuple::vector(fx(0.0), fx(-half_sqrt2), fx(-half_sqrt2));
    let normv = Tuple::vector(fx(0.0), fx(0.0), fx(-1.0));
    let light = PointLight {
        intensity: color(1.0, 1.0, 1.0),
        position: Tuple::point(fx(0.0), fx(10.0), fx(-10.0)),
    };
    let s = Shape::Sphere(Sphere::default());
    let result = light.lighting(&s, &pos, false, &eyev, &normv);
    assert_eq!(result, color(1.6364, 1.6364, 1.6364));

    let eyev = Tuple::vector(fx(0.0), fx(0.0), fx(-1.0));
    let normv = Tuple::vector(fx(0.0), fx(0.0), fx(-1.0));
    let light = PointLight {
        intensity: color(1.0, 1.0, 1.0),
        position: Tuple::point(fx(0.0), fx(0.0), fx(10.0)),
    };
    let s = Shape::Sphere(Sphere::default());
    let result = light.lighting(&s, &pos, false, &eyev, &normv);
    assert_eq!(result, color(0.1, 0.1, 0.1));
}

#[test]
fn world_test_default() {
    let w = default_world();

    let r = Ray {
        origin: Tuple::point(fx(0.0), fx(0.0), fx(-5.0)),
        direction: Tuple::vector(fx(0.0), fx(0.0), fx(1.0)),
    };
    let i = w.intersect(&r);

    assert_eq!(i[0].t, fx(4.0));
    assert_eq!(i[1].t, fx(4.5));
    assert_eq!(i[2].t, fx(5.5));
    assert_eq!(i[3].t, fx(6.0));
}

#[test]
fn test_intersection() {
    let w = default_world();

    let r = Ray {
        origin: Tuple::point(fx(0.0), fx(0.0), fx(-5.0)),
        direction: Tuple::vector(fx(0.0), fx(0.0), fx(1.0)),
    };
    let x = w.intersect(&r);
    assert_eq!(x[0].t, fx(4.0));
    assert_eq!(x[0].point, Tuple::point(fx(0.0), fx(0.0), fx(-1.0)));
    assert_eq!(x[0].eyev, Tuple::vector(fx(0.0), fx(0.0), fx(-1.0)));
    assert_eq!(x[0].normalv, Tuple::vector(fx(0.0), fx(0.0), fx(-1.0)));
    assert_eq!(x[0].inside, false);

    let r = Ray {
        origin: Tuple::point(fx(0.0), fx(0.0), fx(0.0)),
        direction: Tuple::vector(fx(0.0), fx(0.0), fx(1.0)),
    };
    let x = w.intersect(&r);
    assert_eq!(x[3].t, fx(1.0));
    assert_eq!(x[3].point, Tuple::point(fx(0.0), fx(0.0), fx(1.0)));
    assert_eq!(x[3].eyev, Tuple::vector(fx(0.0), fx(0.0), fx(-1.0)));
    assert_eq!(x[3].normalv, Tuple::vector(fx(0.0), fx(0.0), fx(-1.0)));
    assert_eq!(x[3].inside, true);
}

#[test]
fn test_color_at() {
    let w = default_world();

    let r = Ray {
        origin: Tuple::point(fx(0.0), fx(0.0), fx(-5.0)),
        direction: Tuple::vector(fx(0.0), fx(0.0), fx(1.0)),
    };
    let c = w.color_at(&r, 0);
    assert_eq!(c, color(0.38066, 0.47583, 0.2855));

    let mut w2 = default_world();
    w2.lights = vec![PointLight {
        position: Tuple::point(fx(0.0), fx(0.25), fx(0.0)),
        intensity: Color::white(),
    }];
    let r = Ray {
        origin: Tuple::point(fx(0.0), fx(0.0), fx(0.0)),
        direction: Tuple::vector(fx(0.0), fx(0.0), fx(1.0)),
    };
    let c = w2.color_at(&r, 0);
    assert_eq!(c, color(0.90498, 0.90498, 0.90498));

    let w3 = default_world();
    let r = Ray {
        origin: Tuple::point(fx(0.0), fx(0.0), fx(-5.0)),
        direction: Tuple::vector(fx(0.0), fx(1.0), fx(0.0)),
    };
    let c = w3.color_at(&r, 0);
    assert_eq!(c, Color::black());
}

#[test]
fn test_n1n2() {
    let a = Sphere::new(
        Matrix::scaling(fx(2.0), fx(2.0), fx(2.0)),
        Material::new(
            Some(Color::white()),
            None,
            fx(0.1),
            fx(0.9),
            fx(0.3),
            fx(5.0),
            fx(0.0),
            fx(1.0),
            fx(1.5),
        ),
    );

    let b = Sphere::new(
        Matrix::translation(fx(0.0), fx(0.0), fx(-0.25)),
        Material::new(
            Some(Color::white()),
            None,
            fx(0.1),
            fx(0.9),
            fx(0.3),
            fx(5.0),
            fx(0.0),
            fx(1.0),
            fx(2.0),
        ),
    );

    let c = Sphere::new(
        Matrix::translation(fx(0.0), fx(0.0), fx(0.25)),
        Material::new(
            Some(Color::white()),
            None,
            fx(0.1),
            fx(0.9),
            fx(0.3),
            fx(5.0),
            fx(0.0),
            fx(1.0),
            fx(2.5),
        ),
    );

    let light = PointLight {
        position: Tuple::point(fx(-0.0), fx(7.5), fx(-5.0)),
        intensity: Color::white(),
    };

    let world = World {
        objects: vec![Shape::Sphere(a), Shape::Sphere(b), Shape::Sphere(c)],
        lights: vec![light],
    };
    let ray = Ray {
        origin: Tuple::point(fx(0.0), fx(0.0), fx(-4.0)),
        direction: Tuple::vector(fx(0.0), fx(0.0), fx(1.0)),
    };

    let intersections = world.intersect(&ray);
    let expected_values = [
        (2.00, 1.0, 1.5),
        (2.75, 1.5, 2.0),
        (3.25, 2.0, 2.5),
        (4.75, 2.5, 2.5),
        (5.25, 2.5, 1.5),
        (6.00, 1.5, 1.0),
    ];
    assert_eq!(intersections.len(), expected_values.len());
    for (i, (t, n1, n2)) in expected_values.iter().enumerate() {
        assert!(equal(intersections[i].t, fx(*t)));
        assert!(equal(intersections[i].n1, fx(*n1)));
        assert!(equal(intersections[i].n2, fx(*n2)));
    }
}

#[test]
fn test_under_point() {
    let ray = Ray {
        origin: Tuple::point(fx(0.0), fx(0.0), fx(-5.0)),
        direction: Tuple::vector(fx(0.0), fx(0.0), fx(1.0)),
    };

    let sphere = Shape::Sphere(Sphere::new(
        Matrix::translation(fx(0.0), fx(0.0), fx(1.0)),
        Material::new(
            Some(Color::white()),
            None,
            fx(0.1),
            fx(0.9),
            fx(0.3),
            fx(5.0),
            fx(0.0),
            fx(1.0),
            fx(1.5),
        ),
    ));

    let objects = vec![sphere];
    let mut intersections = objects[0].intersect(&ray, 0);
    compute_intersection_data(&mut intersections, &ray, &objects);
    let int = intersections[0];
    assert_eq!(int.t, fx(5.0));
    assert!(int.under_point.z.raw > EPSILON_RAW / 2);
    assert!(int.point.z.raw < int.under_point.z.raw);
}

#[test]
fn test_refracted_color_opaque() {
    let world = default_world();

    let shape = &world.objects[0];
    let ray = Ray {
        origin: Tuple::point(fx(0.0), fx(0.0), fx(-5.0)),
        direction: Tuple::vector(fx(0.0), fx(0.0), fx(1.0)),
    };
    let intersections = shape.intersect(&ray, 0);
    for int in intersections.iter() {
        let c = world.refracted_color_at(int, 0);
        assert_eq!(c, Color::black());
    }
}

#[test]
fn test_refracted_color_max_depth() {
    let mut world = World::default();

    let s1 = Sphere::new(
        Matrix::identity(4),
        Material::new(
            Some(color(0.8, 1.0, 0.6)),
            None,
            fx(0.1),
            fx(0.7),
            fx(0.2),
            fx(200.0),
            fx(0.0),
            fx(1.0),
            fx(1.5),
        ),
    );
    let s2 = Sphere::new(Matrix::scaling(fx(0.5), fx(0.5), fx(0.5)), Material::default());
    world.objects = vec![Shape::Sphere(s1.clone()), Shape::Sphere(s2)];

    let ray = Ray {
        origin: Tuple::point(fx(0.0), fx(0.0), fx(-5.0)),
        direction: Tuple::vector(fx(0.0), fx(0.0), fx(1.0)),
    };
    let intersections = s1.intersect(&ray, 0);
    for int in intersections.iter() {
        let c = world.refracted_color_at(int, 10);
        assert_eq!(c, Color::black());
    }
}

#[test]
fn test_refracted_color_internal_reflection() {
    let mut world = World::default();

    let s1 = Sphere::new(
        Matrix::identity(4),
        Material::new(
            Some(color(0.8, 1.0, 0.6)),
            None,
            fx(0.1),
            fx(0.7),
            fx(0.2),
            fx(200.0),
            fx(0.0),
            fx(1.0),
            fx(1.5),
        ),
    );
    let s2 = Sphere::new(Matrix::scaling(fx(0.5), fx(0.5), fx(0.5)), Material::default());
    world.objects = vec![Shape::Sphere(s1), Shape::Sphere(s2)];

    let half_sqrt2 = 2.0_f64.sqrt() / 2.0;
    let ray = Ray {
        origin: Tuple::point(fx(0.0), fx(0.0), fx(half_sqrt2)),
        direction: Tuple::vector(fx(0.0), fx(1.0), fx(0.0)),
    };
    let intersections = world.intersect(&ray);
    let c = world.refracted_color_at(&intersections[1], 0);
    assert_eq!(c, Color::black());
}

#[test]
fn test_refracted_color_for_real() {
    let mut world = World::default();

    let pattern = TestPattern::new(Matrix::identity(4));
    let s1 = Sphere::new(
        Matrix::identity(4),
        Material::new(
            None,
            Some(Pattern::Test(pattern)),
            fx(1.0),
            fx(0.7),
            fx(0.2),
            fx(200.0),
            fx(0.0),
            fx(0.0),
            fx(1.0),
        ),
    );
    let s2 = Sphere::new(
        Matrix::scaling(fx(0.5), fx(0.5), fx(0.5)),
        Material::new(
            Some(Color::white()),
            None,
            fx(0.1),
            fx(0.9),
            fx(0.9),
            fx(200.0),
            fx(0.0),
            fx(1.0),
            fx(1.5),
        ),
    );

    world.objects = vec![Shape::Sphere(s1), Shape::Sphere(s2)];

    let ray = Ray {
        origin: Tuple::point(fx(0.0), fx(0.0), fx(0.1)),
        direction: Tuple::vector(fx(0.0), fx(1.0), fx(0.0)),
    };
    let intersections = world.intersect(&ray);

    let int = intersections[2];
    let c = world.refracted_color_at(&int, 0);
    assert_eq!(c, color(0.0, 0.99888, 0.04725));
}

#[test]
fn test_refractions() {
    let mut world = World::default();

    let s1 = Sphere::new(
        Matrix::identity(4),
        Material::new(
            Some(color(0.8, 1.0, 0.6)),
            None,
            fx(0.1),
            fx(0.7),
            fx(0.2),
            fx(200.0),
            fx(0.0),
            fx(0.0),
            fx(1.0),
        ),
    );
    let s2 = Sphere::new(Matrix::scaling(fx(0.5), fx(0.5), fx(0.5)), Material::default());

    let mut floor_material = Material::default();
    floor_material.transparency = fx(0.5);
    floor_material.refractive_index = fx(1.5);
    let floor = Plane::new(Matrix::translation(fx(0.0), fx(-1.0), fx(0.0)), floor_material);

    let mut ball_material = Material::default();
    ball_material.color = Some(color(1.0, 0.0, 0.0));
    ball_material.ambient = fx(0.5);
    let ball = Sphere::new(Matrix::translation(fx(0.0), fx(-3.5), fx(-0.5)), ball_material);

    world.objects = vec![
        Shape::Sphere(s1),
        Shape::Sphere(s2),
        Shape::Plane(floor),
        Shape::Sphere(ball),
    ];

    let half_sqrt2 = 2.0_f64.sqrt() / 2.0;
    let ray = Ray {
        origin: Tuple::point(fx(0.0), fx(0.0), fx(-3.0)),
        direction: Tuple::vector(fx(0.0), fx(-half_sqrt2), fx(half_sqrt2)),
    };
    let c = world.color_at(&ray, 0);
    assert_eq!(c, color(0.93642, 0.68642, 0.68642));
}

#[test]
fn test_schlick_internal_reflection() {
    let glas = Shape::Sphere(get_glass_sphere());
    let half_sqrt2 = 2.0_f64.sqrt() / 2.0;
    let ray = Ray {
        origin: Tuple::point(fx(0.0), fx(0.0), fx(half_sqrt2)),
        direction: Tuple::vector(fx(0.0), fx(1.0), fx(0.0)),
    };
    let objects = vec![glas];
    let mut intersections = objects[0].intersect(&ray, 0);
    compute_intersection_data(&mut intersections, &ray, &objects);
    compute_n1n2(&mut intersections, &objects);

    let reflectance = schlick(&intersections[1]);
    assert_eq!(reflectance, Fx::one());
}

#[test]
fn test_schlick_perpendicular() {
    let glas = Shape::Sphere(get_glass_sphere());
    let ray = Ray {
        origin: Tuple::point(fx(0.0), fx(0.0), fx(0.0)),
        direction: Tuple::vector(fx(0.0), fx(1.0), fx(0.0)),
    };
    let objects = vec![glas];
    let mut intersections = objects[0].intersect(&ray, 0);
    compute_n1n2(&mut intersections, &objects);
    let reflectance = schlick(&intersections[1]);
    assert!(equal(reflectance, fx(0.04)));
}

#[test]
fn test_schlick_small_angle() {
    let glas = Shape::Sphere(get_glass_sphere());
    let ray = Ray {
        origin: Tuple::point(fx(0.0), fx(0.99), fx(-2.0)),
        direction: Tuple::vector(fx(0.0), fx(0.0), fx(1.0)),
    };
    let objects = vec![glas];
    let mut intersections = objects[0].intersect(&ray, 0);
    compute_intersection_data(&mut intersections, &ray, &objects);
    compute_n1n2(&mut intersections, &objects);
    let reflectance = schlick(&intersections[0]);
    assert!(equal(reflectance, fx(0.48873)));
}

#[test]
fn test_schlick_both() {
    let half_sqrt2 = 2.0_f64.sqrt() / 2.0;
    let ray = Ray {
        origin: Tuple::point(fx(0.0), fx(0.0), fx(-3.0)),
        direction: Tuple::vector(fx(0.0), fx(-half_sqrt2), fx(half_sqrt2)),
    };

    let mut floor_material = Material::default();
    floor_material.reflective = fx(0.5);
    floor_material.transparency = fx(0.5);
    floor_material.refractive_index = fx(1.5);
    let floor = Plane::new(Matrix::translation(fx(0.0), fx(-1.0), fx(0.0)), floor_material);

    let mut ball_material = Material::default();
    ball_material.color = Some(color(1.0, 0.0, 0.0));
    ball_material.ambient = fx(0.5);
    let ball = Sphere::new(Matrix::translation(fx(0.0), fx(-3.5), fx(-0.5)), ball_material);

    let mut world = World::default();
    let ds = get_default_spheres();
    world.objects = vec![
        Shape::Sphere(ds[0].clone()),
        Shape::Sphere(ds[1].clone()),
        Shape::Plane(floor),
        Shape::Sphere(ball),
    ];

    let c = world.color_at(&ray, 0);
    let expected = color(0.93391, 0.69643, 0.69243);
    assert_eq!(c, expected);
}

#[test]
fn test_intersections_sorted() {
    let w = default_world();
    let r = Ray {
        origin: Tuple::point(fx(0.3), fx(0.2), fx(-5.0)),
        direction: Tuple::vector(fx(0.0), fx(0.0), fx(1.0)),
    };
    let x = w.intersect(&r);
    for i in 1..x.len() {
        assert!(x[i - 1].t.raw <= x[i].t.raw);
    }
}

#[test]
fn test_hit_skips_negative() {
    let records = vec![
        Intersection::new(fx(-3.0), 0),
        Intersection::new(fx(-1.0), 0),
        Intersection::new(fx(2.0), 1),
        Intersection::new(fx(7.0), 0),
    ];
    let h = hit(&records).unwrap();
    assert_eq!(h.t, fx(2.0));
    assert_eq!(h.object, 1);

    let all_behind = vec![Intersection::new(fx(-2.0), 0), Intersection::new(fx(-1.0), 0)];
    assert!(hit(&all_behind).is_none());

    let empty: Vec<Intersection> = vec![];
    assert!(hit(&empty).is_none());
}

#[test]
fn test_shadowed_point() {
    let w = default_world();
    let light = w.lights[0];
    // A point behind the outer sphere, away from the light.
    let shadowed = Tuple::point(fx(10.0), fx(-10.0), fx(10.0));
    assert!(w.is_shadowed(&shadowed, &light));
    // A point on the same side as the light.
    let open_point = Tuple::point(fx(-20.0), fx(20.0), fx(-20.0));
    assert!(!w.is_shadowed(&open_point, &light));
}
