//! Scene descriptions as plain data, and their elaboration into a
//! camera and a world.
//!
//! A description names transforms, patterns and materials by string
//! keys; elaboration resolves the names and builds well-formed
//! shapes. An entry that cannot be resolved, or a transform the
//! tolerance calls singular, makes the whole elaboration yield
//! nothing, where the caller reports the bad scene.

use vstd::prelude::*;

use crate::camera::{Camera, spec_view_transform, spec_camera_dims};
use crate::color::{Color, fclamp01};
use crate::fixed::{Fx, SCALE};
use crate::light::PointLight;
use crate::linalg::matrix::{
    Matrix, mat4_wf, mat_mul4, mat_tuple, spec_det, spec_inv4, spec_identity4, spec_translation,
    spec_scaling, spec_rotation_x, spec_rotation_y, spec_rotation_z, spec_shearing,
    lemma_mul_gives_mat_mul4, lemma_identity_gives_identity4,
};
use crate::linalg::tuple::Tuple;
use crate::material::Material;
use crate::patterns::checkers::CheckersPattern;
use crate::patterns::gradient::GradientPattern;
use crate::patterns::pattern::Pattern;
use crate::patterns::ring::RingPattern;
use crate::patterns::stripe::StripePattern;
use crate::shapes::cube::Cube;
use crate::shapes::cylinder::Cylinder;
use crate::shapes::plane::Plane;
use crate::shapes::shape::Shape;
use crate::shapes::sphere::Sphere;
use crate::utils::feq;
use crate::world::World;
use vstd::string::StrSliceExecFns;

verus! {

broadcast use crate::linalg::grid::lemma_grid_len, crate::linalg::grid::lemma_grid_row_len, crate::linalg::grid::lemma_grid_entry;

#[derive(Clone, Debug)]
pub struct SceneCamera {
    pub width: i64,
    pub height: i64,
    pub field_of_view: Fx,
    pub from: Vec<Fx>,
    pub to: Vec<Fx>,
    pub up: Vec<Fx>,
}

#[derive(Clone, Debug)]
pub struct SceneLight {
    pub position: Vec<Fx>,
    pub intensity: Vec<Fx>,
}

#[derive(Debug)]
pub struct ScenePattern {
    pub pattern: String,
    pub a: Option<Vec<Fx>>,
    pub b: Option<Vec<Fx>>,
    pub transformations: Option<Vec<SceneTransformation>>,
}

#[derive(Debug)]
pub struct SceneMaterial {
    pub color: Option<Vec<Fx>>,
    pub pattern: Option<String>,
    pub ambient: Option<Fx>,
    pub diffuse: Option<Fx>,
    pub specular: Option<Fx>,
    pub shininess: Option<Fx>,
    pub reflective: Option<Fx>,
    pub transparency: Option<Fx>,
    pub refractive_index: Option<Fx>,
}

#[derive(Debug)]
pub struct SceneTransformation {
    pub defined_transformation: Option<String>,
    pub transformation: Option<String>,
    pub parameters: Option<Vec<Fx>>,
}

#[derive(Debug)]
pub struct SceneObject {
    pub shape: String,
    pub min_y: Option<Fx>,
    pub max_y: Option<Fx>,
    pub closed: Option<bool>,
    pub material: Option<String>,
    pub color: Option<Vec<Fx>>,
    pub pattern: Option<String>,
    pub ambient: Option<Fx>,
    pub diffuse: Option<Fx>,
    pub specular: Option<Fx>,
    pub reflective: Option<Fx>,
    pub shininess: Option<Fx>,
    pub transparency: Option<Fx>,
    pub refractive_index: Option<Fx>,
    pub transformations: Option<Vec<SceneTransformation>>,
}

#[derive(Debug)]
pub struct Scene {
    pub camera: SceneCamera,
    pub lights: Vec<SceneLight>,
    pub patterns: Option<Vec<(String, ScenePattern)>>,
    pub materials: Option<Vec<(String, SceneMaterial)>>,
    pub transformations: Option<Vec<(String, Vec<SceneTransformation>)>>,
    pub objects: Option<Vec<(String, SceneObject)>>,
}

/// Character-wise string comparison.
fn str_eq(a: &str, b: &str) -> (r: bool)
    ensures
        r == (a@ == b@),
{
    let la = a.unicode_len();
    let lb = b.unicode_len();
    if la != lb {
        return false;
    }
    let mut i: usize = 0;
    while i < la
        invariant
            i <= la,
            la as nat == a@.len(),
            lb as nat == b@.len(),
            la == lb,
            forall|j: int| 0 <= j < i ==> a@[j] == b@[j],
        decreases la - i,
    {
        if a.get_char(i) != b.get_char(i) {
            return false;
        }
        i = i + 1;
    }
    proof {
        assert(a@ =~= b@);
    }
    true
}

/// The first entry of a named map carrying a given name, if any.
pub open spec fn lookup<T>(map: Seq<(Seq<char>, T)>, key: Seq<char>) -> Option<T>
    decreases map.len(),
{
    if map.len() == 0 {
        None
    } else if map[0].0 == key {
        Some(map[0].1)
    } else {
        lookup(map.drop_first(), key)
    }
}

proof fn lemma_lookup_skip<T>(map: Seq<(Seq<char>, T)>, key: Seq<char>, i: int)
    requires
        0 <= i <= map.len(),
        forall|j: int| 0 <= j < i ==> (#[trigger] map[j]).0 != key,
    ensures
        lookup(map, key) == lookup(map.skip(i), key),
    decreases i,
{
    if i == 0 {
        assert(map.skip(0) =~= map);
    } else {
        assert(map.drop_first() =~= map.skip(1));
        lemma_lookup_skip(map.skip(1), key, i - 1);
        assert(map.skip(1).skip(i - 1) =~= map.skip(i));
    }
}

/// The named transforms, read as names and grids.
pub open spec fn grid_map_view(map: Seq<(String, Matrix)>) -> Seq<(Seq<char>, Seq<Seq<int>>)> {
    Seq::new(map.len(), |i: int| (map[i].0@, map[i].1.m()))
}

/// Whether one described step resolves: a defined name that is
/// present, or a known kind with enough parameters.
pub open spec fn step_ok(step: SceneTransformation, gm: Seq<(Seq<char>, Seq<Seq<int>>)>) -> bool {
    match step.defined_transformation {
        Some(key) => lookup(gm, key@) is Some,
        None => match step.transformation {
            Some(kind) => match step.parameters {
                Some(p) => if kind@ == "translate"@ {
                    p@.len() >= 3
                } else if kind@ == "scale"@ {
                    p@.len() >= 3
                } else if kind@ == "rotate-x"@ {
                    p@.len() >= 1
                } else if kind@ == "rotate-y"@ {
                    p@.len() >= 1
                } else if kind@ == "rotate-z"@ {
                    p@.len() >= 1
                } else if kind@ == "shear"@ {
                    p@.len() >= 6
                } else {
                    false
                },
                None => false,
            },
            None => false,
        },
    }
}

/// The grid one described step stands for.
pub open spec fn step_grid(step: SceneTransformation, gm: Seq<(Seq<char>, Seq<Seq<int>>)>) -> Seq<
    Seq<int>,
> {
    match step.defined_transformation {
        Some(key) => match lookup(gm, key@) {
            Some(g) => g,
            None => spec_identity4(),
        },
        None => match step.transformation {
            Some(kind) => match step.parameters {
                Some(p) => if kind@ == "translate"@ {
                    spec_translation(p@[0].v(), p@[1].v(), p@[2].v())
                } else if kind@ == "scale"@ {
                    spec_scaling(p@[0].v(), p@[1].v(), p@[2].v())
                } else if kind@ == "rotate-x"@ {
                    spec_rotation_x(p@[0].v())
                } else if kind@ == "rotate-y"@ {
                    spec_rotation_y(p@[0].v())
                } else if kind@ == "rotate-z"@ {
                    spec_rotation_z(p@[0].v())
                } else if kind@ == "shear"@ {
                    spec_shearing(p@[0].v(), p@[1].v(), p@[2].v(), p@[3].v(), p@[4].v(), p@[5].v())
                } else {
                    spec_identity4()
                },
                None => spec_identity4(),
            },
            None => spec_identity4(),
        },
    }
}

/// Every described step resolves.
pub open spec fn steps_ok(steps: Seq<SceneTransformation>, gm: Seq<(Seq<char>, Seq<Seq<int>>)>) -> bool {
    forall|k: int| 0 <= k < steps.len() ==> step_ok(#[trigger] steps[k], gm)
}

/// The left-to-right product of the first `k` described steps.
pub open spec fn steps_grid(
    steps: Seq<SceneTransformation>,
    gm: Seq<(Seq<char>, Seq<Seq<int>>)>,
    k: int,
) -> Seq<Seq<int>>
    decreases k,
{
    if k <= 0 {
        spec_identity4()
    } else {
        mat_mul4(steps_grid(steps, gm, k - 1), step_grid(steps[k - 1], gm))
    }
}

/// Copy a matrix field by field.
fn clone_matrix(m: &Matrix) -> (r: Matrix)
    ensures
        r.rows == m.rows,
        r.cols == m.cols,
        r.data@.len() == m.data@.len(),
        forall|p: int| 0 <= p < m.data@.len() ==> (#[trigger] r.data@[p])@ == m.data@[p]@,
        m.wf() ==> r.wf(),
        r.m() == m.m(),

{
    let mut data: Vec<Vec<Fx>> = Vec::new();
    let mut i: usize = 0;
    while i < m.data.len()
        invariant
            i <= m.data@.len(),
            data@.len() == i,
            forall|p: int| 0 <= p < i ==> (#[trigger] data@[p])@ == m.data@[p]@,
        decreases m.data@.len() - i,
    {
        let src = &m.data[i];
        let mut row: Vec<Fx> = Vec::new();
        let mut j: usize = 0;
        while j < src.len()
            invariant
                j <= src@.len(),
                row@.len() == j,
                forall|q: int| 0 <= q < j ==> row@[q] == src@[q],
            decreases src@.len() - j,
        {
            row.push(src[j]);
            j = j + 1;
        }
        proof {
            assert(row@ =~= m.data@[i as int]@);
        }
        data.push(row);
        i = i + 1;
    }
    proof {
        if m.wf() {
            assert forall|p: int| 0 <= p < data@.len() implies (#[trigger] data@[p])@.len()
                == m.cols by {
                assert(data@[p]@ == m.data@[p]@);
                assert(m.data@[p]@.len() == m.cols);
            }
        }
        assert forall|p: int, q: int|
            0 <= p < data@.len() && 0 <= q < data@[p]@.len() implies #[trigger] crate::linalg::grid::grid(
            data@,
        )[p][q] == crate::linalg::grid::grid(m.data@)[p][q] by {
            assert(data@[p]@ == m.data@[p]@);
        }
        assert forall|p: int| 0 <= p < data@.len() implies (#[trigger] crate::linalg::grid::grid(
            data@,
        )[p]).len() == crate::linalg::grid::grid(m.data@)[p].len() by {
            assert(data@[p]@ == m.data@[p]@);
        }
        assert(crate::linalg::grid::grid(data@) =~~= crate::linalg::grid::grid(m.data@));
    }
    Matrix { rows: m.rows, cols: m.cols, data }
}

/// A pattern read as plain data: a variant tag, its two colors, and
/// its inverse transform grid.
pub open spec fn pattern_model(p: Pattern) -> (int, (int, int, int), (int, int, int), Seq<Seq<int>>) {
    match p {
        Pattern::Stripe(s) => (0int, s.a.m(), s.b.m(), s.inv_transformation.m()),
        Pattern::Gradient(s) => (1int, s.a.m(), s.b.m(), s.inv_transformation.m()),
        Pattern::Ring(s) => (2int, s.a.m(), s.b.m(), s.inv_transformation.m()),
        Pattern::Checkers(s) => (3int, s.a.m(), s.b.m(), s.inv_transformation.m()),
        Pattern::Test(s) => (4int, (0int, 0int, 0int), (0int, 0int, 0int), s.inv_transformation.m()),
    }
}

/// A material read as plain data: its color, its pattern's model, and
/// the seven scalars.
pub open spec fn material_model(m: Material) -> (
    Option<Color>,
    Option<(int, (int, int, int), (int, int, int), Seq<Seq<int>>)>,
    Fx,
    Fx,
    Fx,
    Fx,
    Fx,
    Fx,
    Fx,
) {
    (
        m.color,
        match m.pattern {
            Some(p) => Some(pattern_model(p)),
            None => None,
        },
        m.ambient,
        m.diffuse,
        m.specular,
        m.shininess,
        m.reflective,
        m.transparency,
        m.refractive_index,
    )
}

/// The first three entries of a described color triple, clamped.
pub open spec fn clamp3(v: Seq<Fx>) -> (int, int, int) {
    (fclamp01(v[0].v()), fclamp01(v[1].v()), fclamp01(v[2].v()))
}

/// The color value a clamped triple stands for.
pub open spec fn color_val(c: (int, int, int)) -> Color {
    Color { r: Fx { raw: c.0 as i64 }, g: Fx { raw: c.1 as i64 }, b: Fx { raw: c.2 as i64 } }
}

/// The variant tag a described pattern kind names, in the order the
/// kinds are tried; an unknown kind maps outside the tags.
pub open spec fn pattern_kind(name: Seq<char>) -> int {
    if name == "checkers"@ {
        3int
    } else if name == "ring"@ {
        2int
    } else if name == "stripe"@ {
        0int
    } else if name == "gradient"@ {
        1int
    } else {
        5int
    }
}

/// The steps a described pattern names, or none.
pub open spec fn pattern_steps(pat: ScenePattern) -> Seq<SceneTransformation> {
    match pat.transformations {
        Some(ts) => ts@,
        None => Seq::empty(),
    }
}

/// Whether a described pattern resolves: steps present and resolving
/// to an invertible transform, both colors present, a known kind.
pub open spec fn pattern_desc_ok(pat: ScenePattern, gm: Seq<(Seq<char>, Seq<Seq<int>>)>) -> bool {
    &&& pat.transformations is Some
    &&& steps_ok(pattern_steps(pat), gm)
    &&& !feq(spec_det(steps_grid(pattern_steps(pat), gm, pattern_steps(pat).len() as int), 4), 0)
    &&& (match pat.a {
        Some(a) => a@.len() >= 3,
        None => false,
    })
    &&& (match pat.b {
        Some(b) => b@.len() >= 3,
        None => false,
    })
    &&& pattern_kind(pat.pattern@) != 5
}

/// The model of the pattern a description builds.
pub open spec fn pattern_desc_model(pat: ScenePattern, gm: Seq<(Seq<char>, Seq<Seq<int>>)>) -> (
    int,
    (int, int, int),
    (int, int, int),
    Seq<Seq<int>>,
) {
    (
        pattern_kind(pat.pattern@),
        clamp3(
            match pat.a {
                Some(a) => a@,
                None => Seq::empty(),
            },
        ),
        clamp3(
            match pat.b {
                Some(b) => b@,
                None => Seq::empty(),
            },
        ),
        spec_inv4(steps_grid(pattern_steps(pat), gm, pattern_steps(pat).len() as int)),
    )
}

/// Copy a pattern, variant by variant.
fn clone_pattern(p: &Pattern) -> (r: Pattern)
    ensures
        p.wf() ==> r.wf(),
        pattern_model(r) == pattern_model(*p),
{
    match p {
        Pattern::Stripe(s) => Pattern::Stripe(
            StripePattern {
                a: s.a,
                b: s.b,
                transformation: clone_matrix(&s.transformation),
                inv_transformation: clone_matrix(&s.inv_transformation),
            },
        ),
        Pattern::Gradient(s) => Pattern::Gradient(
            GradientPattern {
                a: s.a,
                b: s.b,
                transformation: clone_matrix(&s.transformation),
                inv_transformation: clone_matrix(&s.inv_transformation),
            },
        ),
        Pattern::Ring(s) => Pattern::Ring(
            RingPattern {
                a: s.a,
                b: s.b,
                transformation: clone_matrix(&s.transformation),
                inv_transformation: clone_matrix(&s.inv_transformation),
            },
        ),
        Pattern::Checkers(s) => Pattern::Checkers(
            CheckersPattern {
                a: s.a,
                b: s.b,
                transformation: clone_matrix(&s.transformation),
                inv_transformation: clone_matrix(&s.inv_transformation),
            },
        ),
        Pattern::Test(s) => Pattern::Test(
            crate::patterns::test::TestPattern {
                transformation: clone_matrix(&s.transformation),
                inv_transformation: clone_matrix(&s.inv_transformation),
            },
        ),
    }
}

/// Copy a material, cloning its pattern if one is present.
fn clone_material(m: &Material) -> (r: Material)
    ensures
        m.wf() ==> r.wf(),
        material_model(r) == material_model(*m),
{
    let pattern: Option<Pattern> = match &m.pattern {
        Some(p) => Some(clone_pattern(p)),
        None => None,
    };
    Material {
        color: m.color,
        pattern,
        ambient: m.ambient,
        diffuse: m.diffuse,
        specular: m.specular,
        shininess: m.shininess,
        reflective: m.reflective,
        transparency: m.transparency,
        refractive_index: m.refractive_index,
    }
}

/// The frame points a camera description names.
pub open spec fn desc_frame_point(v: Seq<Fx>) -> (int, int, int, int) {
    (v[0].v(), v[1].v(), v[2].v(), SCALE as int)
}

/// Whether a camera description resolves: full frame vectors, a pixel
/// grid in range, and a view transform the tolerance calls
/// invertible.
pub open spec fn camera_desc_ok(d: SceneCamera) -> bool {
    &&& d.from@.len() >= 3
    &&& d.to@.len() >= 3
    &&& d.up@.len() >= 3
    &&& 0 < d.width <= 2147483647
    &&& 0 < d.height <= 2147483647
    &&& !feq(
        spec_det(
            spec_view_transform(
                desc_frame_point(d.from@),
                desc_frame_point(d.to@),
                desc_frame_point(d.up@),
            ),
            4,
        ),
        0,
    )
}

/// The camera a description builds: the described grid and field of
/// view, the view transform of the described frame, its inverse, and
/// the derived viewport numbers.
pub open spec fn camera_built_ok(c: Camera, d: SceneCamera) -> bool {
    let vt = spec_view_transform(
        desc_frame_point(d.from@),
        desc_frame_point(d.to@),
        desc_frame_point(d.up@),
    );
    &&& c.hsize == d.width
    &&& c.vsize == d.height
    &&& c.field_of_view == d.field_of_view
    &&& (c.half_width.v(), c.half_height.v(), c.pixel_size.v()) == spec_camera_dims(
        d.width as int,
        d.height as int,
        d.field_of_view.v(),
    )
    &&& c.transformation.m() == vt
    &&& c.inv_transformation.m() == spec_inv4(vt)
    &&& c.origin.m() == mat_tuple(spec_inv4(vt), (0int, 0int, 0int, SCALE as int), 4)
}

/// The camera a description asks for: exactly when the description
/// resolves; a frame whose view transform the tolerance calls
/// singular is rejected as malformed scene data.
pub fn make_camera(scene: &Scene) -> (r: Option<Camera>)
    ensures
        r is Some <==> camera_desc_ok(scene.camera),
        (match r {
            Some(c) => c.wf() && camera_built_ok(c, scene.camera),
            None => true,
        }),
{
    if scene.camera.from.len() < 3 || scene.camera.to.len() < 3 || scene.camera.up.len() < 3 {
        return None;
    }
    if scene.camera.width <= 0 || scene.camera.width > 2147483647 || scene.camera.height <= 0
        || scene.camera.height > 2147483647 {
        return None;
    }
    let from = Tuple::point(scene.camera.from[0], scene.camera.from[1], scene.camera.from[2]);
    let to = Tuple::point(scene.camera.to[0], scene.camera.to[1], scene.camera.to[2]);
    let up = Tuple::point(scene.camera.up[0], scene.camera.up[1], scene.camera.up[2]);
    let vt = crate::camera::view_transform(&from, &to, &up);
    if !vt.is_invertible() {
        return None;
    }
    Some(
        Camera::new(
            scene.camera.width,
            scene.camera.height,
            scene.camera.field_of_view,
            &from,
            &to,
            &up,
        ),
    )
}

/// Look up a named transform: the first entry with the given name.
fn find_transformation<'a>(map: &'a Vec<(String, Matrix)>, key: &String) -> (r: Option<&'a Matrix>)
    requires
        forall|i: int| 0 <= i < map@.len() ==> mat4_wf((#[trigger] map@[i]).1),
    ensures
        match r {
            Some(m) => mat4_wf(*m) && lookup(grid_map_view(map@), key@) == Some(m.m()),
            None => lookup(grid_map_view(map@), key@) is None,
        },
{
    let ghost gm = grid_map_view(map@);
    let mut i: usize = 0;
    while i < map.len()
        invariant
            i <= map@.len(),
            gm == grid_map_view(map@),
            forall|p: int| 0 <= p < map@.len() ==> mat4_wf((#[trigger] map@[p]).1),
            forall|j: int| 0 <= j < i ==> (#[trigger] gm[j]).0 != key@,
        decreases map@.len() - i,
    {
        if str_eq(map[i].0.as_str(), key.as_str()) {
            proof {
                lemma_lookup_skip(gm, key@, i as int);
                assert(gm.skip(i as int)[0] == gm[i as int]);
            }
            return Some(&map[i].1);
        }
        i = i + 1;
    }
    proof {
        lemma_lookup_skip(gm, key@, i as int);
        assert(gm.skip(i as int).len() == 0);
    }
    None
}

/// The composite transform a list of steps describes: exactly when
/// every step resolves, the left-to-right product of the step
/// matrices; nothing otherwise.
pub fn make_transformation(
    transformations: &Vec<SceneTransformation>,
    map: &Vec<(String, Matrix)>,
) -> (r: Option<Matrix>)
    requires
        forall|i: int| 0 <= i < map@.len() ==> mat4_wf((#[trigger] map@[i]).1),
    ensures
        r is Some <==> steps_ok(transformations@, grid_map_view(map@)),
        (match r {
            Some(m) => mat4_wf(m) && m.m() == steps_grid(
                transformations@,
                grid_map_view(map@),
                transformations@.len() as int,
            ),
            None => true,
        }),
{
    let ghost gm = grid_map_view(map@);
    let mut result = Matrix::identity(4);
    proof {
        lemma_identity_gives_identity4(result);
    }

    let mut i: usize = 0;
    while i < transformations.len()
        invariant
            i <= transformations@.len(),
            gm == grid_map_view(map@),
            mat4_wf(result),
            result.m() == steps_grid(transformations@, gm, i as int),
            forall|k: int| 0 <= k < i ==> step_ok(#[trigger] transformations@[k], gm),
            forall|p: int| 0 <= p < map@.len() ==> mat4_wf((#[trigger] map@[p]).1),
        decreases transformations@.len() - i,
    {
        let cur = &transformations[i];
        let next: Matrix = match &cur.defined_transformation {
            Some(key) => {
                match find_transformation(map, key) {
                    Some(m) => clone_matrix(m),
                    None => {
                        proof {
                            assert(!step_ok(transformations@[i as int], gm));
                        }
                        return None;
                    },
                }
            },
            None => {
                let kind = match &cur.transformation {
                    Some(k) => k,
                    None => {
                        proof {
                            assert(!step_ok(transformations@[i as int], gm));
                        }
                        return None;
                    },
                };
                let p = match &cur.parameters {
                    Some(p) => p,
                    None => {
                        proof {
                            assert(!step_ok(transformations@[i as int], gm));
                        }
                        return None;
                    },
                };
                if str_eq(kind.as_str(), "translate") {
                    if p.len() < 3 {
                        proof {
                            assert(!step_ok(transformations@[i as int], gm));
                        }
                        return None;
                    }
                    Matrix::translation(p[0], p[1], p[2])
                } else if str_eq(kind.as_str(), "scale") {
                    if p.len() < 3 {
                        proof {
                            assert(!step_ok(transformations@[i as int], gm));
                        }
                        return None;
                    }
                    Matrix::scaling(p[0], p[1], p[2])
                } else if str_eq(kind.as_str(), "rotate-x") {
                    if p.len() < 1 {
                        proof {
                            assert(!step_ok(transformations@[i as int], gm));
                        }
                        return None;
                    }
                    Matrix::rotation_x(p[0])
                } else if str_eq(kind.as_str(), "rotate-y") {
                    if p.len() < 1 {
                        proof {
                            assert(!step_ok(transformations@[i as int], gm));
                        }
                        return None;
                    }
                    Matrix::rotation_y(p[0])
                } else if str_eq(kind.as_str(), "rotate-z") {
                    if p.len() < 1 {
                        proof {
                            assert(!step_ok(transformations@[i as int], gm));
                        }
                        return None;
                    }
                    Matrix::rotation_z(p[0])
                } else if str_eq(kind.as_str(), "shear") {
                    if p.len() < 6 {
                        proof {
                            assert(!step_ok(transformations@[i as int], gm));
                        }
                        return None;
                    }
                    Matrix::shearing(p[0], p[1], p[2], p[3], p[4], p[5])
                } else {
                    proof {
                        assert(!step_ok(transformations@[i as int], gm));
                    }
                    return None;
                }
            },
        };
        proof {
            assert(step_ok(transformations@[i as int], gm));
            assert(next.m() == step_grid(transformations@[i as int], gm));
        }

        let ghost prev = result;
        result = result.multiply_matrix(&next);
        proof {
            lemma_mul_gives_mat_mul4(prev, next, result);
        }
        i = i + 1;
    }

    Some(result)
}

/// The pattern a description asks for: exactly when its colors are
/// present, its transform resolves and is invertible, and its kind is
/// known; the built pattern carries the clamped colors and the
/// inverted transform.
pub fn make_pattern(pat: &ScenePattern, map: &Vec<(String, Matrix)>) -> (r: Option<Pattern>)
    requires
        forall|i: int| 0 <= i < map@.len() ==> mat4_wf((#[trigger] map@[i]).1),
    ensures
        r is Some <==> pattern_desc_ok(*pat, grid_map_view(map@)),
        (match r {
            Some(p) => p.wf() && pattern_model(p) == pattern_desc_model(
                *pat,
                grid_map_view(map@),
            ),
            None => true,
        }),
{
    let steps = match &pat.transformations {
        Some(t) => t,
        None => {
            return None;
        },
    };
    let transformation = match make_transformation(steps, map) {
        Some(m) => m,
        None => {
            return None;
        },
    };
    if !transformation.is_invertible() {
        return None;
    }
    let a = match &pat.a {
        Some(a) => a,
        None => {
            return None;
        },
    };
    let b = match &pat.b {
        Some(b) => b,
        None => {
            return None;
        },
    };
    if a.len() < 3 || b.len() < 3 {
        return None;
    }
    let ca = Color::from_vec(a);
    let cb = Color::from_vec(b);
    if str_eq(pat.pattern.as_str(), "checkers") {
        Some(Pattern::Checkers(CheckersPattern::new(ca, cb, transformation)))
    } else if str_eq(pat.pattern.as_str(), "ring") {
        Some(Pattern::Ring(RingPattern::new(ca, cb, transformation)))
    } else if str_eq(pat.pattern.as_str(), "stripe") {
        Some(Pattern::Stripe(StripePattern::new(ca, cb, transformation)))
    } else if str_eq(pat.pattern.as_str(), "gradient") {
        Some(Pattern::Gradient(GradientPattern::new(ca, cb, transformation)))
    } else {
        None
    }
}

/// The named patterns, read as names and pattern models.
pub open spec fn pat_map_view(map: Seq<(String, Pattern)>) -> Seq<
    (Seq<char>, (int, (int, int, int), (int, int, int), Seq<Seq<int>>)),
> {
    Seq::new(map.len(), |i: int| (map[i].0@, pattern_model(map[i].1)))
}

/// The named materials, read as names and material models.
pub open spec fn mat_map_view(map: Seq<(String, Material)>) -> Seq<
    (
        Seq<char>,
        (
            Option<Color>,
            Option<(int, (int, int, int), (int, int, int), Seq<Seq<int>>)>,
            Fx,
            Fx,
            Fx,
            Fx,
            Fx,
            Fx,
            Fx,
        ),
    ),
> {
    Seq::new(map.len(), |i: int| (map[i].0@, material_model(map[i].1)))
}

/// Look up a named pattern: the first entry with the given name.
fn find_pattern<'a>(map: &'a Vec<(String, Pattern)>, key: &String) -> (r: Option<&'a Pattern>)
    requires
        forall|i: int| 0 <= i < map@.len() ==> (#[trigger] map@[i]).1.wf(),
    ensures
        match r {
            Some(p) => p.wf() && lookup(pat_map_view(map@), key@) == Some(pattern_model(*p)),
            None => lookup(pat_map_view(map@), key@) is None,
        },
{
    let ghost pm = pat_map_view(map@);
    let mut i: usize = 0;
    while i < map.len()
        invariant
            i <= map@.len(),
            pm == pat_map_view(map@),
            forall|p: int| 0 <= p < map@.len() ==> (#[trigger] map@[p]).1.wf(),
            forall|j: int| 0 <= j < i ==> (#[trigger] pm[j]).0 != key@,
        decreases map@.len() - i,
    {
        if str_eq(map[i].0.as_str(), key.as_str()) {
            proof {
                lemma_lookup_skip(pm, key@, i as int);
                assert(pm.skip(i as int)[0] == pm[i as int]);
            }
            return Some(&map[i].1);
        }
        i = i + 1;
    }
    proof {
        lemma_lookup_skip(pm, key@, i as int);
        assert(pm.skip(i as int).len() == 0);
    }
    None
}

/// Look up a named material: the first entry with the given name.
fn find_material<'a>(map: &'a Vec<(String, Material)>, key: &String) -> (r: Option<&'a Material>)
    requires
        forall|i: int| 0 <= i < map@.len() ==> (#[trigger] map@[i]).1.wf(),
    ensures
        match r {
            Some(m) => m.wf() && lookup(mat_map_view(map@), key@) == Some(material_model(*m)),
            None => lookup(mat_map_view(map@), key@) is None,
        },
{
    let ghost mm = mat_map_view(map@);
    let mut i: usize = 0;
    while i < map.len()
        invariant
            i <= map@.len(),
            mm == mat_map_view(map@),
            forall|p: int| 0 <= p < map@.len() ==> (#[trigger] map@[p]).1.wf(),
            forall|j: int| 0 <= j < i ==> (#[trigger] mm[j]).0 != key@,
        decreases map@.len() - i,
    {
        if str_eq(map[i].0.as_str(), key.as_str()) {
            proof {
                lemma_lookup_skip(mm, key@, i as int);
                assert(mm.skip(i as int)[0] == mm[i as int]);
            }
            return Some(&map[i].1);
        }
        i = i + 1;
    }
    proof {
        lemma_lookup_skip(mm, key@, i as int);
        assert(mm.skip(i as int).len() == 0);
    }
    None
}

/// A built light carries the described position as a point and the
/// described intensity as a clamped color.
pub open spec fn light_built_ok(built: PointLight, described: SceneLight) -> bool {
    &&& described.position@.len() >= 3
    &&& described.intensity@.len() >= 3
    &&& built.position.m() == (
        described.position@[0].v(),
        described.position@[1].v(),
        described.position@[2].v(),
        SCALE as int,
    )
    &&& built.intensity.m() == (
        fclamp01(described.intensity@[0].v()),
        fclamp01(described.intensity@[1].v()),
        fclamp01(described.intensity@[2].v()),
    )
}

/// Every described light carries full position and intensity triples.
pub open spec fn lights_ok(lights: Seq<SceneLight>) -> bool {
    forall|i: int|
        0 <= i < lights.len() ==> (#[trigger] lights[i]).position@.len() >= 3
            && lights[i].intensity@.len() >= 3
}

/// The scene's named transform steps, in description order.
pub open spec fn scene_named_transforms(s: Scene) -> Seq<(String, Vec<SceneTransformation>)> {
    match s.transformations {
        Some(n) => n@,
        None => Seq::empty(),
    }
}

pub open spec fn scene_named_patterns(s: Scene) -> Seq<(String, ScenePattern)> {
    match s.patterns {
        Some(n) => n@,
        None => Seq::empty(),
    }
}

pub open spec fn scene_named_materials(s: Scene) -> Seq<(String, SceneMaterial)> {
    match s.materials {
        Some(n) => n@,
        None => Seq::empty(),
    }
}

pub open spec fn scene_objects(s: Scene) -> Seq<(String, SceneObject)> {
    match s.objects {
        Some(n) => n@,
        None => Seq::empty(),
    }
}

/// The named-transform map after the first `k` entries, each resolved
/// against the entries before it.
pub open spec fn built_tmap(named: Seq<(String, Vec<SceneTransformation>)>, k: int) -> Seq<
    (Seq<char>, Seq<Seq<int>>),
>
    decreases k,
{
    if k <= 0 {
        Seq::empty()
    } else {
        let prev = built_tmap(named, k - 1);
        prev.push(
            (named[k - 1].0@, steps_grid(named[k - 1].1@, prev, named[k - 1].1@.len() as int)),
        )
    }
}

/// The first `k` named transforms all resolve, each against the map
/// built so far.
pub open spec fn tmap_ok(named: Seq<(String, Vec<SceneTransformation>)>, k: int) -> bool
    decreases k,
{
    if k <= 0 {
        true
    } else {
        tmap_ok(named, k - 1) && steps_ok(named[k - 1].1@, built_tmap(named, k - 1))
    }
}

proof fn lemma_tmap_ok_mono(named: Seq<(String, Vec<SceneTransformation>)>, j: int, k: int)
    requires
        j <= k,
        tmap_ok(named, k),
    ensures
        tmap_ok(named, j),
    decreases k,
{
    if j < k && k > 0 {
        lemma_tmap_ok_mono(named, j, k - 1);
    }
}

/// The scene's finished named-transform map.
pub open spec fn scene_tmap(s: Scene) -> Seq<(Seq<char>, Seq<Seq<int>>)> {
    built_tmap(scene_named_transforms(s), scene_named_transforms(s).len() as int)
}

/// The finished named-pattern map: every description's model, against
/// the finished transform map.
pub open spec fn built_pmap(
    named: Seq<(String, ScenePattern)>,
    gm: Seq<(Seq<char>, Seq<Seq<int>>)>,
) -> Seq<(Seq<char>, (int, (int, int, int), (int, int, int), Seq<Seq<int>>))> {
    Seq::new(named.len(), |k: int| (named[k].0@, pattern_desc_model(named[k].1, gm)))
}

pub open spec fn pmap_ok(
    named: Seq<(String, ScenePattern)>,
    gm: Seq<(Seq<char>, Seq<Seq<int>>)>,
) -> bool {
    forall|k: int| 0 <= k < named.len() ==> pattern_desc_ok((#[trigger] named[k]).1, gm)
}

pub open spec fn scene_pmap(s: Scene) -> Seq<
    (Seq<char>, (int, (int, int, int), (int, int, int), Seq<Seq<int>>)),
> {
    built_pmap(scene_named_patterns(s), scene_tmap(s))
}

/// The override if one is present, else the standing value, as a spec.
pub open spec fn spec_ov(o: Option<Fx>, d: Fx) -> Fx {
    match o {
        Some(x) => x,
        None => d,
    }
}

/// Whether a described material resolves: a full color triple, or a
/// named pattern that is present, or neither.
pub open spec fn mat_desc_ok(
    desc: SceneMaterial,
    pm: Seq<(Seq<char>, (int, (int, int, int), (int, int, int), Seq<Seq<int>>))>,
) -> bool {
    match desc.color {
        Some(v) => v@.len() >= 3,
        None => match desc.pattern {
            Some(key) => lookup(pm, key@) is Some,
            None => true,
        },
    }
}

/// The model of the material a description builds over the default.
pub open spec fn built_scene_material(
    desc: SceneMaterial,
    pm: Seq<(Seq<char>, (int, (int, int, int), (int, int, int), Seq<Seq<int>>))>,
) -> (
    Option<Color>,
    Option<(int, (int, int, int), (int, int, int), Seq<Seq<int>>)>,
    Fx,
    Fx,
    Fx,
    Fx,
    Fx,
    Fx,
    Fx,
) {
    let base = material_model(crate::material::default_material());
    (
        match desc.color {
            Some(v) => Some(color_val(clamp3(v@))),
            None => match desc.pattern {
                Some(_) => None,
                None => base.0,
            },
        },
        match desc.color {
            Some(_) => base.1,
            None => match desc.pattern {
                Some(key) => lookup(pm, key@),
                None => base.1,
            },
        },
        spec_ov(desc.ambient, base.2),
        spec_ov(desc.diffuse, base.3),
        spec_ov(desc.specular, base.4),
        spec_ov(desc.shininess, base.5),
        spec_ov(desc.reflective, base.6),
        spec_ov(desc.transparency, base.7),
        spec_ov(desc.refractive_index, base.8),
    )
}

pub open spec fn built_mmap(
    named: Seq<(String, SceneMaterial)>,
    pm: Seq<(Seq<char>, (int, (int, int, int), (int, int, int), Seq<Seq<int>>))>,
) -> Seq<
    (
        Seq<char>,
        (
            Option<Color>,
            Option<(int, (int, int, int), (int, int, int), Seq<Seq<int>>)>,
            Fx,
            Fx,
            Fx,
            Fx,
            Fx,
            Fx,
            Fx,
        ),
    ),
> {
    Seq::new(named.len(), |k: int| (named[k].0@, built_scene_material(named[k].1, pm)))
}

pub open spec fn mmap_ok(
    named: Seq<(String, SceneMaterial)>,
    pm: Seq<(Seq<char>, (int, (int, int, int), (int, int, int), Seq<Seq<int>>))>,
) -> bool {
    forall|k: int| 0 <= k < named.len() ==> mat_desc_ok((#[trigger] named[k]).1, pm)
}

pub open spec fn scene_mmap(s: Scene) -> Seq<
    (
        Seq<char>,
        (
            Option<Color>,
            Option<(int, (int, int, int), (int, int, int), Seq<Seq<int>>)>,
            Fx,
            Fx,
            Fx,
            Fx,
            Fx,
            Fx,
            Fx,
        ),
    ),
> {
    built_mmap(scene_named_materials(s), scene_pmap(s))
}

/// The steps a described object names, or none.
pub open spec fn obj_steps(desc: SceneObject) -> Seq<SceneTransformation> {
    match desc.transformations {
        Some(t) => t@,
        None => Seq::empty(),
    }
}

/// The variant tag a described shape kind names, in the order the
/// kinds are tried; an unknown kind maps outside the tags.
pub open spec fn shape_kind(name: Seq<char>) -> int {
    if name == "sphere"@ {
        0int
    } else if name == "plane"@ {
        1int
    } else if name == "cube"@ {
        2int
    } else if name == "cylinder"@ {
        3int
    } else {
        4int
    }
}

/// Whether a described object resolves: its material, color or
/// pattern names are present, its shape kind is known, and its
/// transform steps resolve to an invertible matrix.
pub open spec fn obj_desc_ok(
    desc: SceneObject,
    gm: Seq<(Seq<char>, Seq<Seq<int>>)>,
    pm: Seq<(Seq<char>, (int, (int, int, int), (int, int, int), Seq<Seq<int>>))>,
    mm: Seq<
        (
            Seq<char>,
            (
                Option<Color>,
                Option<(int, (int, int, int), (int, int, int), Seq<Seq<int>>)>,
                Fx,
                Fx,
                Fx,
                Fx,
                Fx,
                Fx,
                Fx,
            ),
        ),
    >,
) -> bool {
    &&& (match desc.material {
        Some(key) => lookup(mm, key@) is Some,
        None => true,
    })
    &&& (match desc.color {
        Some(v) => v@.len() >= 3,
        None => match desc.pattern {
            Some(key) => lookup(pm, key@) is Some,
            None => true,
        },
    })
    &&& shape_kind(desc.shape@) != 4
    &&& steps_ok(obj_steps(desc), gm)
    &&& !feq(spec_det(steps_grid(obj_steps(desc), gm, obj_steps(desc).len() as int), 4), 0)
}

/// The model of the material a described object ends up with: its
/// named material or the default, then the description's overrides; a
/// missing specular override falls back to the already-overridden
/// diffuse, as the elaboration has it.
pub open spec fn obj_material(
    desc: SceneObject,
    pm: Seq<(Seq<char>, (int, (int, int, int), (int, int, int), Seq<Seq<int>>))>,
    mm: Seq<
        (
            Seq<char>,
            (
                Option<Color>,
                Option<(int, (int, int, int), (int, int, int), Seq<Seq<int>>)>,
                Fx,
                Fx,
                Fx,
                Fx,
                Fx,
                Fx,
                Fx,
            ),
        ),
    >,
) -> (
    Option<Color>,
    Option<(int, (int, int, int), (int, int, int), Seq<Seq<int>>)>,
    Fx,
    Fx,
    Fx,
    Fx,
    Fx,
    Fx,
    Fx,
) {
    let base = match desc.material {
        Some(key) => match lookup(mm, key@) {
            Some(m) => m,
            None => material_model(crate::material::default_material()),
        },
        None => material_model(crate::material::default_material()),
    };
    let diffuse2 = spec_ov(desc.diffuse, base.3);
    (
        match desc.color {
            Some(v) => Some(color_val(clamp3(v@))),
            None => match desc.pattern {
                Some(_) => None,
                None => base.0,
            },
        },
        match desc.color {
            Some(_) => base.1,
            None => match desc.pattern {
                Some(key) => lookup(pm, key@),
                None => base.1,
            },
        },
        spec_ov(desc.ambient, base.2),
        diffuse2,
        spec_ov(desc.specular, diffuse2),
        spec_ov(desc.shininess, base.5),
        spec_ov(desc.reflective, base.6),
        spec_ov(desc.transparency, base.7),
        spec_ov(desc.refractive_index, base.8),
    )
}

/// A built object matches its description: the variant its shape kind
/// names (with the cylinder's bounds and cap flag), the overridden
/// material, and the inverse of the resolved transform.
pub open spec fn object_built_ok(
    built: Shape,
    desc: SceneObject,
    gm: Seq<(Seq<char>, Seq<Seq<int>>)>,
    pm: Seq<(Seq<char>, (int, (int, int, int), (int, int, int), Seq<Seq<int>>))>,
    mm: Seq<
        (
            Seq<char>,
            (
                Option<Color>,
                Option<(int, (int, int, int), (int, int, int), Seq<Seq<int>>)>,
                Fx,
                Fx,
                Fx,
                Fx,
                Fx,
                Fx,
                Fx,
            ),
        ),
    >,
) -> bool {
    &&& (match built {
        Shape::Sphere(_) => shape_kind(desc.shape@) == 0,
        Shape::Plane(_) => shape_kind(desc.shape@) == 1,
        Shape::Cube(_) => shape_kind(desc.shape@) == 2,
        Shape::Cylinder(c) => shape_kind(desc.shape@) == 3 && c.min_y == spec_ov(
            desc.min_y,
            Fx { raw: 0 },
        ) && c.max_y == spec_ov(desc.max_y, Fx { raw: SCALE }) && c.closed == (match desc.closed {
            Some(b) => b,
            None => false,
        }),
        Shape::Triangle(_) => false,
    })
    &&& material_model(built.material_of()) == obj_material(desc, pm, mm)
    &&& built.inv_m() == spec_inv4(steps_grid(obj_steps(desc), gm, obj_steps(desc).len() as int))
}

/// The whole scene description resolves: lights, named transforms,
/// patterns, materials, and every object.
pub open spec fn scene_desc_ok(s: Scene) -> bool {
    &&& lights_ok(s.lights@)
    &&& tmap_ok(scene_named_transforms(s), scene_named_transforms(s).len() as int)
    &&& pmap_ok(scene_named_patterns(s), scene_tmap(s))
    &&& mmap_ok(scene_named_materials(s), scene_pmap(s))
    &&& (forall|k: int|
        0 <= k < scene_objects(s).len() ==> obj_desc_ok(
            (#[trigger] scene_objects(s)[k]).1,
            scene_tmap(s),
            scene_pmap(s),
            scene_mmap(s),
        ))
}

/// The world a description asks for: exactly when the description
/// resolves, a world carrying the described lights and one object per
/// described object, each matching its description; nothing
/// otherwise.
pub fn make_world(scene: &Scene) -> (r: Option<World>)
    ensures
        r is Some <==> scene_desc_ok(*scene),
        (match r {
            Some(w) => {
                &&& w.wf()
                &&& w.lights@.len() == scene.lights@.len()
                &&& forall|i: int|
                    0 <= i < scene.lights@.len() ==> light_built_ok(
                        #[trigger] w.lights@[i],
                        scene.lights@[i],
                    )
                &&& w.objects@.len() == scene_objects(*scene).len()
                &&& forall|k: int|
                    0 <= k < scene_objects(*scene).len() ==> object_built_ok(
                        #[trigger] w.objects@[k],
                        scene_objects(*scene)[k].1,
                        scene_tmap(*scene),
                        scene_pmap(*scene),
                        scene_mmap(*scene),
                    )
            },
            None => true,
        }),
{
    let ghost named_t = scene_named_transforms(*scene);
    let ghost named_p = scene_named_patterns(*scene);
    let ghost named_m = scene_named_materials(*scene);
    let ghost named_o = scene_objects(*scene);

    let mut lights: Vec<PointLight> = Vec::new();
    let mut li: usize = 0;
    while li < scene.lights.len()
        invariant
            li <= scene.lights@.len(),
            lights@.len() == li,
            forall|i: int|
                0 <= i < li ==> light_built_ok(#[trigger] lights@[i], scene.lights@[i]),
        decreases scene.lights@.len() - li,
    {
        let l = &scene.lights[li];
        if l.position.len() < 3 || l.intensity.len() < 3 {
            proof {
                assert(!lights_ok(scene.lights@));
            }
            return None;
        }
        lights.push(
            PointLight {
                position: Tuple::point_from_vec(&l.position),
                intensity: Color::from_vec(&l.intensity),
            },
        );
        li = li + 1;
    }

    let mut transformations: Vec<(String, Matrix)> = Vec::new();
    match &scene.transformations {
        Some(named) => {
            let mut ti: usize = 0;
            while ti < named.len()
                invariant
                    ti <= named@.len(),
                    named_t == named@,
                    named_t == scene_named_transforms(*scene),
                    forall|p: int|
                        0 <= p < transformations@.len() ==> mat4_wf(
                            (#[trigger] transformations@[p]).1,
                        ),
                    grid_map_view(transformations@) == built_tmap(named_t, ti as int),
                    tmap_ok(named_t, ti as int),
                decreases named@.len() - ti,
            {
                let entry = &named[ti];
                let tmp = match make_transformation(&entry.1, &transformations) {
                    Some(m) => m,
                    None => {
                        proof {
                            assert(!tmap_ok(named_t, ti + 1));
                            if tmap_ok(named_t, named_t.len() as int) {
                                lemma_tmap_ok_mono(named_t, ti + 1, named_t.len() as int);
                            }
                        }
                        return None;
                    },
                };
                transformations.push((entry.0.as_str().to_owned(), tmp));
                proof {
                    assert(grid_map_view(transformations@) =~= built_tmap(named_t, ti + 1));
                }
                ti = ti + 1;
            }
        },
        None => {},
    }
    proof {
        assert(grid_map_view(transformations@) == scene_tmap(*scene)) by {
            if scene.transformations is None {
                assert(grid_map_view(transformations@) =~= built_tmap(named_t, 0));
            }
        }
        assert(tmap_ok(named_t, named_t.len() as int)) by {
            if scene.transformations is None {
            }
        }
    }
    let ghost gm = scene_tmap(*scene);

    let mut patterns: Vec<(String, Pattern)> = Vec::new();
    match &scene.patterns {
        Some(named) => {
            let mut pi: usize = 0;
            while pi < named.len()
                invariant
                    pi <= named@.len(),
                    named_p == named@,
                    named_p == scene_named_patterns(*scene),
                    gm == grid_map_view(transformations@),
                    gm == scene_tmap(*scene),
                    forall|p: int|
                        0 <= p < transformations@.len() ==> mat4_wf(
                            (#[trigger] transformations@[p]).1,
                        ),
                    patterns@.len() == pi,
                    forall|k: int| 0 <= k < pi ==> (#[trigger] patterns@[k]).1.wf(),
                    forall|k: int| 0 <= k < pi ==> (#[trigger] patterns@[k]).0@ == named_p[k].0@,
                    forall|k: int|
                        0 <= k < pi ==> pattern_model(#[trigger] patterns@[k].1)
                            == pattern_desc_model(named_p[k].1, gm),
                    forall|k: int| 0 <= k < pi ==> pattern_desc_ok((#[trigger] named_p[k]).1, gm),
                decreases named@.len() - pi,
            {
                let entry = &named[pi];
                let tmp = match make_pattern(&entry.1, &transformations) {
                    Some(p) => p,
                    None => {
                        proof {
                            assert(!pattern_desc_ok(named_p[pi as int].1, gm));
                        }
                        return None;
                    },
                };
                patterns.push((entry.0.as_str().to_owned(), tmp));
                pi = pi + 1;
            }
        },
        None => {},
    }
    proof {
        assert(pat_map_view(patterns@) =~= built_pmap(named_p, gm));
        assert(pmap_ok(named_p, gm));
    }
    let ghost pm = scene_pmap(*scene);

    let mut materials: Vec<(String, Material)> = Vec::new();
    match &scene.materials {
        Some(named) => {
            let mut mi: usize = 0;
            while mi < named.len()
                invariant
                    mi <= named@.len(),
                    named_m == named@,
                    named_m == scene_named_materials(*scene),
                    pm == pat_map_view(patterns@),
                    pm == scene_pmap(*scene),
                    forall|p: int| 0 <= p < patterns@.len() ==> (#[trigger] patterns@[p]).1.wf(),
                    materials@.len() == mi,
                    forall|k: int| 0 <= k < mi ==> (#[trigger] materials@[k]).1.wf(),
                    forall|k: int| 0 <= k < mi ==> (#[trigger] materials@[k]).0@ == named_m[k].0@,
                    forall|k: int|
                        0 <= k < mi ==> material_model(#[trigger] materials@[k].1)
                            == built_scene_material(named_m[k].1, pm),
                    forall|k: int| 0 <= k < mi ==> mat_desc_ok((#[trigger] named_m[k]).1, pm),
                decreases named@.len() - mi,
            {
                let entry = &named[mi];
                let material = &entry.1;
                let mut tmp = Material::default();

                match &material.color {
                    Some(v) => {
                        if v.len() < 3 {
                            proof {
                                assert(!mat_desc_ok(named_m[mi as int].1, pm));
                            }
                            return None;
                        }
                        tmp.color = Some(Color::from_vec(v));
                        proof {
                            assert(tmp.color == Some(color_val(clamp3(v@))));
                        }
                    },
                    None => {
                        match &material.pattern {
                            Some(v) => {
                                let found = match find_pattern(&patterns, v) {
                                    Some(p) => p,
                                    None => {
                                        proof {
                                            assert(!mat_desc_ok(named_m[mi as int].1, pm));
                                        }
                                        return None;
                                    },
                                };
                                tmp.color = None;
                                tmp.pattern = Some(clone_pattern(found));
                            },
                            None => {},
                        }
                    },
                }
                tmp.ambient = or_default(&material.ambient, tmp.ambient);
                tmp.diffuse = or_default(&material.diffuse, tmp.diffuse);
                tmp.specular = or_default(&material.specular, tmp.specular);
                tmp.shininess = or_default(&material.shininess, tmp.shininess);
                tmp.reflective = or_default(&material.reflective, tmp.reflective);
                tmp.transparency = or_default(&material.transparency, tmp.transparency);
                tmp.refractive_index = or_default(&material.refractive_index, tmp.refractive_index);
                proof {
                    assert(material_model(tmp) == built_scene_material(named_m[mi as int].1, pm));
                }

                materials.push((entry.0.as_str().to_owned(), tmp));
                mi = mi + 1;
            }
        },
        None => {},
    }
    proof {
        assert(mat_map_view(materials@) =~= built_mmap(named_m, pm));
        assert(mmap_ok(named_m, pm));
    }
    let ghost mm = scene_mmap(*scene);

    let mut objects: Vec<Shape> = Vec::new();
    match &scene.objects {
        Some(named) => {
            let mut oi: usize = 0;
            while oi < named.len()
                invariant
                    oi <= named@.len(),
                    named_o == named@,
                    named_o == scene_objects(*scene),
                    gm == grid_map_view(transformations@),
                    gm == scene_tmap(*scene),
                    pm == pat_map_view(patterns@),
                    pm == scene_pmap(*scene),
                    mm == mat_map_view(materials@),
                    mm == scene_mmap(*scene),
                    forall|p: int|
                        0 <= p < transformations@.len() ==> mat4_wf(
                            (#[trigger] transformations@[p]).1,
                        ),
                    forall|p: int| 0 <= p < patterns@.len() ==> (#[trigger] patterns@[p]).1.wf(),
                    forall|p: int| 0 <= p < materials@.len() ==> (#[trigger] materials@[p]).1.wf(),
                    objects@.len() == oi,
                    forall|p: int|
                        0 <= p < oi ==> (#[trigger] objects@[p]).wf() && objects@[
                            p
                        ].material_of().wf(),
                    forall|k: int|
                        0 <= k < oi ==> object_built_ok(
                            #[trigger] objects@[k],
                            named_o[k].1,
                            gm,
                            pm,
                            mm,
                        ),
                    forall|k: int|
                        0 <= k < oi ==> obj_desc_ok((#[trigger] named_o[k]).1, gm, pm, mm),
                decreases named@.len() - oi,
            {
                let entry = &named[oi];
                let value = &entry.1;

                let mut m: Material = match &value.material {
                    Some(key) => {
                        match find_material(&materials, key) {
                            Some(found) => clone_material(found),
                            None => {
                                proof {
                                    assert(!obj_desc_ok(named_o[oi as int].1, gm, pm, mm));
                                }
                                return None;
                            },
                        }
                    },
                    None => Material::default(),
                };
                match &value.color {
                    Some(v) => {
                        if v.len() < 3 {
                            proof {
                                assert(!obj_desc_ok(named_o[oi as int].1, gm, pm, mm));
                            }
                            return None;
                        }
                        m.color = Some(Color::from_vec(v));
                        proof {
                            assert(m.color == Some(color_val(clamp3(v@))));
                        }
                    },
                    None => {
                        match &value.pattern {
                            Some(v) => {
                                let found = match find_pattern(&patterns, v) {
                                    Some(p) => p,
                                    None => {
                                        proof {
                                            assert(!obj_desc_ok(named_o[oi as int].1, gm, pm, mm));
                                        }
                                        return None;
                                    },
                                };
                                m.color = None;
                                m.pattern = Some(clone_pattern(found));
                            },
                            None => {},
                        }
                    },
                }

                m.ambient = or_default(&value.ambient, m.ambient);
                m.diffuse = or_default(&value.diffuse, m.diffuse);
                // A missing specular override falls back to the
                // diffuse value that was just installed, not to the
                // base material's specular.
                m.specular = or_default(&value.specular, m.diffuse);
                m.shininess = or_default(&value.shininess, m.shininess);
                m.reflective = or_default(&value.reflective, m.reflective);
                m.transparency = or_default(&value.transparency, m.transparency);
                m.refractive_index = or_default(&value.refractive_index, m.refractive_index);
                proof {
                    assert(material_model(m) == obj_material(named_o[oi as int].1, pm, mm));
                }

                let mut object: Shape = if str_eq(value.shape.as_str(), "sphere") {
                    Shape::Sphere(Sphere::default())
                } else if str_eq(value.shape.as_str(), "plane") {
                    Shape::Plane(Plane::default())
                } else if str_eq(value.shape.as_str(), "cube") {
                    Shape::Cube(Cube::default())
                } else if str_eq(value.shape.as_str(), "cylinder") {
                    let mut c = Cylinder::default();
                    c.min_y = or_default(&value.min_y, c.min_y);
                    c.max_y = or_default(&value.max_y, c.max_y);
                    c.closed = match value.closed {
                        Some(b) => b,
                        None => c.closed,
                    };
                    Shape::Cylinder(c)
                } else {
                    proof {
                        assert(!obj_desc_ok(named_o[oi as int].1, gm, pm, mm));
                    }
                    return None;
                };

                object.set_material(m);
                let empty_steps: Vec<SceneTransformation> = Vec::new();
                let steps: &Vec<SceneTransformation> = match &value.transformations {
                    Some(t) => t,
                    None => &empty_steps,
                };
                proof {
                    assert(steps@ == obj_steps(named_o[oi as int].1));
                }
                let tmp = match make_transformation(steps, &transformations) {
                    Some(t) => t,
                    None => {
                        proof {
                            assert(!obj_desc_ok(named_o[oi as int].1, gm, pm, mm));
                        }
                        return None;
                    },
                };
                if !tmp.is_invertible() {
                    proof {
                        assert(!obj_desc_ok(named_o[oi as int].1, gm, pm, mm));
                    }
                    return None;
                }
                object.set_transformation(tmp);
                proof {
                    assert(object_built_ok(object, named_o[oi as int].1, gm, pm, mm));
                }

                objects.push(object);
                oi = oi + 1;
            }
        },
        None => {},
    }

    proof {
        assert forall|i: int| 0 <= i < scene.lights@.len() implies (#[trigger] scene.lights@[i]).position@.len()
            >= 3 && scene.lights@[i].intensity@.len() >= 3 by {
            assert(light_built_ok(lights@[i], scene.lights@[i]));
        }
        assert(lights_ok(scene.lights@));
        assert(tmap_ok(named_t, named_t.len() as int));
        assert(pmap_ok(named_p, gm));
        assert(mmap_ok(named_m, pm));
        assert(forall|k: int|
            0 <= k < named_o.len() ==> obj_desc_ok((#[trigger] named_o[k]).1, gm, pm, mm));
        assert(scene_desc_ok(*scene));
    }
    Some(World { objects, lights })
}

/// The override if one is present, else the standing value.
fn or_default(v: &Option<Fx>, d: Fx) -> (r: Fx)
    ensures
        r == match *v {
            Some(x) => x,
            None => d,
        },
{
    match v {
        Some(x) => *x,
        None => d,
    }
}

} // verus!
