use raytrace::camera::{Camera, view_transform};
use raytrace::fixed::Fx;
use raytrace::linalg::matrix::Matrix;
use raytrace::linalg::tuple::Tuple;
use raytrace::scene::{
    Scene, SceneCamera, SceneLight, SceneObject, SceneTransformation, make_camera,
    make_transformation, make_world,
};
use raytrace::utils::equal;

fn fx(v: f64) -> Fx {
    Fx::from_raw((v * 4294967296.0) as i64)
}

#[test]
fn test_pixel_size() {
    let cam = Camera::new(
        200,
        125,
        fx(std::f64::consts::PI / 2.0),
        &Tuple::point(fx(0.0), fx(0.0), fx(0.0)),
        &Tuple::point(fx(0.0), fx(0.0), fx(0.0)),
        &Tuple::point(fx(0.0), fx(0.0), fx(0.0)),
    );
    assert_eq!(true, equal(cam.pixel_size, fx(0.01)));

    let cam = Camera::new(
        125,
        200,
        fx(std::f64::consts::PI / 2.0),
        &Tuple::point(fx(0.0), fx(0.0), fx(0.0)),
        &Tuple::point(fx(0.0), fx(0.0), fx(0.0)),
        &Tuple::point(fx(0.0), fx(0.0), fx(0.0)),
    );
    assert_eq!(true, equal(cam.pixel_size, fx(0.01)));
}

#[test]
fn test_view_transform() {
    let from = Tuple::vector(fx(1.0), fx(3.0), fx(2.0));
    let to = Tuple::vector(fx(4.0), fx(-2.0), fx(8.0));
    let up = Tuple::vector(fx(1.0), fx(1.0), fx(0.0));
    let m = view_transform(&from, &to, &up);

    let expected = Matrix::from_values(&vec![
        vec![fx(-0.50709), fx(0.50709), fx(0.67612), fx(-2.36643)],
        vec![fx(0.76771), fx(0.60609), fx(0.12121), fx(-2.82842)],
        vec![fx(-0.35857), fx(0.59761), fx(-0.71714), fx(0.00000)],
        vec![fx(0.00000), fx(0.00000), fx(0.00000), fx(1.00000)],
    ]);
    assert_eq!(m, expected);
}

fn small_scene() -> Scene {
    Scene {
        camera: SceneCamera {
            width: 8,
            height: 8,
            field_of_view: fx(std::f64::consts::PI / 2.0),
            from: vec![fx(0.0), fx(0.0), fx(-3.0)],
            to: vec![fx(0.0), fx(0.0), fx(0.0)],
            up: vec![fx(0.0), fx(1.0), fx(0.0)],
        },
        lights: vec![SceneLight {
            position: vec![fx(-10.0), fx(10.0), fx(-10.0)],
            intensity: vec![fx(1.0), fx(1.0), fx(1.0)],
        }],
        patterns: None,
        materials: None,
        transformations: None,
        objects: Some(vec![(
            String::from("ball"),
            SceneObject {
                shape: String::from("sphere"),
                min_y: None,
                max_y: None,
                closed: None,
                material: None,
                color: Some(vec![fx(1.0), fx(0.2), fx(0.2)]),
                pattern: None,
                ambient: None,
                diffuse: None,
                specular: None,
                reflective: None,
                shininess: None,
                transparency: None,
                refractive_index: None,
                transformations: None,
            },
        )]),
    }
}

#[test]
fn test_make_world_and_render_pixel() {
    let scene = small_scene();
    let camera = make_camera(&scene).unwrap();
    let world = make_world(&scene).unwrap();
    assert_eq!(world.objects.len(), 1);
    assert_eq!(world.lights.len(), 1);

    // The middle of the image looks straight at the lit sphere.
    let ray = camera.ray_for_pixel(4, 4);
    let c = world.color_at(&ray, 0);
    assert!(c.r.raw > 0);

    // The corner ray misses it.
    let ray = camera.ray_for_pixel(0, 0);
    let c = world.color_at(&ray, 0);
    assert_eq!(c, raytrace::color::Color::black());
}

#[test]
fn test_make_transformation_rejects_unknown() {
    let steps = vec![SceneTransformation {
        defined_transformation: None,
        transformation: Some(String::from("spin")),
        parameters: Some(vec![fx(1.0)]),
    }];
    let map: Vec<(String, Matrix)> = Vec::new();
    assert!(make_transformation(&steps, &map).is_none());

    let named = vec![SceneTransformation {
        defined_transformation: Some(String::from("missing")),
        transformation: None,
        parameters: None,
    }];
    assert!(make_transformation(&named, &map).is_none());

    let good = vec![SceneTransformation {
        defined_transformation: None,
        transformation: Some(String::from("translate")),
        parameters: Some(vec![fx(1.0), fx(2.0), fx(3.0)]),
    }];
    assert!(make_transformation(&good, &map).is_some());
}

#[test]
fn test_make_world_rejects_unknown_material() {
    let mut scene = small_scene();
    if let Some(objects) = &mut scene.objects {
        objects[0].1.material = Some(String::from("velvet"));
    }
    assert!(make_world(&scene).is_none());
}

#[test]
fn test_make_camera_rejects_short_frame() {
    let mut scene = small_scene();
    scene.camera.from = vec![fx(0.0)];
    assert!(make_camera(&scene).is_none());
}

#[test]
fn test_make_camera_rejects_degenerate_frame() {
    // Eye and target coincide: the view transform is singular and the
    // description is malformed.
    let mut scene = small_scene();
    scene.camera.to = vec![fx(0.0), fx(0.0), fx(-3.0)];
    assert!(make_camera(&scene).is_none());
}
