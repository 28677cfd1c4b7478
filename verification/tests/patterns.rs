use raytrace::color::Color;
use raytrace::fixed::Fx;
use raytrace::linalg::matrix::Matrix;
use raytrace::linalg::tuple::Tuple;
use raytrace::patterns::checkers::CheckersPattern;
use raytrace::patterns::gradient::GradientPattern;
use raytrace::patterns::ring::RingPattern;
use raytrace::patterns::stripe::StripePattern;
use raytrace::shapes::plane::Plane;
use raytrace::shapes::shape::Shape;
use raytrace::shapes::sphere::Sphere;

fn fx(v: f64) -> Fx {
    Fx::from_raw((v * 4294967296.0) as i64)
}

fn white() -> Color {
    Color::white()
}

fn black() -> Color {
    Color::black()
}

#[test]
fn test_stripe_alternates_along_x() {
    let p = StripePattern::new(white(), black(), Matrix::identity(4));
    let s = Shape::Sphere(Sphere::default());
    assert_eq!(p.color_at(&s, &Tuple::point(fx(0.5), fx(0.0), fx(0.0))), white());
    assert_eq!(p.color_at(&s, &Tuple::point(fx(1.5), fx(0.0), fx(0.0))), black());
    assert_eq!(p.color_at(&s, &Tuple::point(fx(2.5), fx(0.0), fx(0.0))), white());
    assert_eq!(p.color_at(&s, &Tuple::point(fx(0.5), fx(9.0), fx(-7.0))), white());
}

#[test]
fn test_gradient_blends_along_x() {
    let p = GradientPattern::new(black(), white(), Matrix::identity(4));
    let s = Shape::Sphere(Sphere::default());
    let c = p.color_at(&s, &Tuple::point(fx(0.25), fx(0.0), fx(0.0)));
    assert_eq!(c, Color::new(fx(0.25), fx(0.25), fx(0.25)));
    let c = p.color_at(&s, &Tuple::point(fx(0.5), fx(0.0), fx(0.0)));
    assert_eq!(c, Color::new(fx(0.5), fx(0.5), fx(0.5)));
}

#[test]
fn test_ring_alternates_radially() {
    let p = RingPattern::new(white(), black(), Matrix::identity(4));
    let s = Shape::Sphere(Sphere::default());
    assert_eq!(p.color_at(&s, &Tuple::point(fx(0.0), fx(0.0), fx(0.0))), white());
    assert_eq!(p.color_at(&s, &Tuple::point(fx(1.0), fx(0.0), fx(0.0))), black());
    assert_eq!(p.color_at(&s, &Tuple::point(fx(0.0), fx(0.0), fx(1.0))), black());
}

#[test]
fn test_checkers_tiles_the_plane() {
    let p = CheckersPattern::new(white(), black(), Matrix::identity(4));
    let s = Shape::Plane(Plane::default());
    assert_eq!(p.color_at(&s, &Tuple::point(fx(0.1), fx(0.0), fx(0.1))), white());
    assert_eq!(p.color_at(&s, &Tuple::point(fx(0.6), fx(0.0), fx(0.1))), black());
    assert_eq!(p.color_at(&s, &Tuple::point(fx(0.6), fx(0.0), fx(0.6))), white());
}

#[test]
fn test_pattern_transform_scales_stripes() {
    let p = StripePattern::new(white(), black(), Matrix::scaling(fx(2.0), fx(2.0), fx(2.0)));
    let s = Shape::Sphere(Sphere::default());
    assert_eq!(p.color_at(&s, &Tuple::point(fx(1.5), fx(0.0), fx(0.0))), white());
    assert_eq!(p.color_at(&s, &Tuple::point(fx(2.5), fx(0.0), fx(0.0))), black());
}

#[test]
fn test_default_spheres_materials() {
    let ds = raytrace::shapes::sphere::get_default_spheres();
    assert_eq!(ds.len(), 2);
    let m = ds[0].get_material();
    assert_eq!(m.color, Some(Color::new(fx(0.8), fx(1.0), fx(0.6))));
    assert_eq!(m.diffuse, fx(0.7));
    assert_eq!(m.specular, fx(0.2));
}
