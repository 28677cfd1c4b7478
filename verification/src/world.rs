//! The scene and its ray pipeline: collect every shape's
//! intersections, sort them, derive the shading geometry, assign the
//! refractive-index pairs, and run the recursive color computation.

use vstd::prelude::*;

use crate::color::{Color, cadd, cscale};
use crate::fixed::{Fx, SCALE, fadd, fsub, fneg, fmul, fdiv, fsqrt, fpow};
use crate::light::{PointLight, spec_lighting};
use crate::linalg::tuple::{Tuple, tadd, tsub, tneg, tscale, tdivide, tdot, tmag, tup_of};
use crate::ray::{Ray, ray_of, ray_position, spec_reflect, reflect};
use crate::shapes::shape::Shape;
use crate::utils::EPSILON_RAW;
use vstd::pervasive::VecAdditionalExecFns;
use vstd::seq_lib::group_to_multiset_ensures;

verus! {

broadcast use group_to_multiset_ensures, crate::linalg::tuple::lemma_tup_roundtrip;

/// The recursion ceiling for reflection and refraction.
pub const MAX_REC_DEPTH: u8 = 10;

/// One crossing of a ray and a shape: the parameter `t`, the index of
/// the shape in the scene, and the shading geometry derived later.
#[derive(Clone, Copy, Debug)]
pub struct Intersection {
    pub t: Fx,
    pub object: usize,
    pub point: Tuple,
    pub over_point: Tuple,
    pub under_point: Tuple,
    pub eyev: Tuple,
    pub normalv: Tuple,
    pub reflectv: Tuple,
    pub inside: bool,
    pub n1: Fx,
    pub n2: Fx,
}

/// The point at the origin, the placeholder in a fresh record.
pub open spec fn origin_t() -> Tuple {
    Tuple { x: Fx { raw: 0 }, y: Fx { raw: 0 }, z: Fx { raw: 0 }, w: Fx { raw: SCALE } }
}

/// A record fresh from a shape query: only `t` and the shape index
/// carry information.
pub open spec fn fresh_hit(t: Fx, object: usize) -> Intersection {
    Intersection {
        t,
        object,
        point: origin_t(),
        over_point: origin_t(),
        under_point: origin_t(),
        eyev: origin_t(),
        normalv: origin_t(),
        reflectv: origin_t(),
        inside: false,
        n1: Fx { raw: SCALE },
        n2: Fx { raw: SCALE },
    }
}

impl Intersection {
    pub fn new(t: Fx, object: usize) -> (i: Intersection)
        ensures
            i == fresh_hit(t, object),
    {
        let p = Tuple::point(Fx::zero(), Fx::zero(), Fx::zero());
        Intersection {
            t,
            object,
            point: p,
            over_point: p,
            under_point: p,
            eyev: p,
            normalv: p,
            reflectv: p,
            inside: false,
            n1: Fx::one(),
            n2: Fx::one(),
        }
    }
}

/// Non-decreasing parameters along the list.
pub open spec fn sorted_by_t(s: Seq<Intersection>) -> bool {
    forall|i: int, j: int| 0 <= i < j < s.len() ==> s[i].t.raw <= s[j].t.raw
}

/// Insert a record after every earlier record whose parameter is not
/// above it: the stable insertion step.
pub open spec fn insert_sorted(s: Seq<Intersection>, x: Intersection) -> Seq<Intersection>
    decreases s.len(),
{
    if s.len() == 0 || s.last().t.raw <= x.t.raw {
        s.push(x)
    } else {
        insert_sorted(s.drop_last(), x).push(s.last())
    }
}

/// Stable insertion sort by `t`, the order the pipeline works in.
pub open spec fn sort_spec(s: Seq<Intersection>) -> Seq<Intersection>
    decreases s.len(),
{
    if s.len() == 0 {
        Seq::empty()
    } else {
        insert_sorted(sort_spec(s.drop_last()), s.last())
    }
}

proof fn lemma_insert_sorted_props(s: Seq<Intersection>, x: Intersection)
    requires
        sorted_by_t(s),
    ensures
        sorted_by_t(insert_sorted(s, x)),
        insert_sorted(s, x).to_multiset() == s.to_multiset().insert(x),
        insert_sorted(s, x).len() == s.len() + 1,
        forall|k: int|
            0 <= k < insert_sorted(s, x).len() ==> insert_sorted(s, x)[k] == x || s.contains(
                #[trigger] insert_sorted(s, x)[k],
            ),
    decreases s.len(),
{
    if s.len() == 0 || s.last().t.raw <= x.t.raw {
        assert(insert_sorted(s, x) == s.push(x));
        assert forall|k: int| 0 <= k < s.push(x).len() implies s.push(x)[k] == x || s.contains(
            #[trigger] s.push(x)[k],
        ) by {
            if k < s.len() {
                assert(s.push(x)[k] == s[k]);
            }
        }
    } else {
        let dl = s.drop_last();
        assert(sorted_by_t(dl));
        lemma_insert_sorted_props(dl, x);
        let inner = insert_sorted(dl, x);
        let r = inner.push(s.last());
        assert(insert_sorted(s, x) == r);
        assert(s =~= dl.push(s.last()));
        assert forall|k: int| 0 <= k < r.len() implies r[k] == x || s.contains(
            #[trigger] r[k],
        ) by {
            if k < inner.len() {
                assert(r[k] == inner[k]);
                if inner[k] != x {
                    assert(dl.contains(inner[k]));
                    let j = choose|j: int| 0 <= j < dl.len() && dl[j] == inner[k];
                    assert(s[j] == inner[k]);
                }
            } else {
                assert(r[k] == s.last());
                assert(s[s.len() - 1] == s.last());
            }
        }
        assert forall|i: int, j: int| 0 <= i < j < r.len() implies r[i].t.raw <= r[j].t.raw by {
            if j < inner.len() {
            } else {
                assert(r[j] == s.last());
                assert(r[i] == inner[i]);
                if inner[i] == x {
                    assert(x.t.raw <= s.last().t.raw);
                } else {
                    assert(dl.contains(inner[i]));
                    let q = choose|q: int| 0 <= q < dl.len() && dl[q] == inner[i];
                    assert(s[q] == inner[i]);
                    assert(s[q].t.raw <= s.last().t.raw);
                }
            }
        }
        assert(r.to_multiset() =~= s.to_multiset().insert(x)) by {
            assert(inner.to_multiset() == dl.to_multiset().insert(x));
            assert(r.to_multiset() == inner.to_multiset().insert(s.last()));
            assert(s.to_multiset() == dl.to_multiset().insert(s.last()));
        }
    }
}

proof fn lemma_sort_spec_props(s: Seq<Intersection>)
    ensures
        sorted_by_t(sort_spec(s)),
        sort_spec(s).to_multiset() == s.to_multiset(),
        sort_spec(s).len() == s.len(),
    decreases s.len(),
{
    if s.len() == 0 {
    } else {
        let dl = s.drop_last();
        lemma_sort_spec_props(dl);
        lemma_insert_sorted_props(sort_spec(dl), s.last());
        assert(s =~= dl.push(s.last()));
        assert(s.to_multiset() == dl.to_multiset().insert(s.last()));
    }
}

/// Every element of the sorted list comes from the original list.
proof fn lemma_sort_spec_membership(s: Seq<Intersection>, k: int)
    requires
        0 <= k < sort_spec(s).len(),
    ensures
        s.contains(sort_spec(s)[k]),
{
    lemma_sort_spec_props(s);
    let x = sort_spec(s)[k];
    assert(sort_spec(s).contains(x));
    assert(sort_spec(s).to_multiset().count(x) > 0);
    assert(s.to_multiset().count(x) > 0);
}

/// Where the stable insertion lands: the first position from the left
/// whose suffix is strictly above the new record.
proof fn lemma_insert_sorted_at(s: Seq<Intersection>, x: Intersection, p: int)
    requires
        sorted_by_t(s),
        0 <= p <= s.len(),
        forall|j: int| p <= j < s.len() ==> s[j].t.raw > x.t.raw,
        p > 0 ==> s[p - 1].t.raw <= x.t.raw,
    ensures
        insert_sorted(s, x) == s.insert(p, x),
    decreases s.len(),
{
    if p == s.len() {
        assert(insert_sorted(s, x) == s.push(x));
        assert(s.insert(p, x) =~= s.push(x));
    } else {
        assert(s.last().t.raw > x.t.raw);
        let dl = s.drop_last();
        assert(sorted_by_t(dl));
        lemma_insert_sorted_at(dl, x, p);
        assert(insert_sorted(s, x) == insert_sorted(dl, x).push(s.last()));
        assert(s.insert(p, x) =~= dl.insert(p, x).push(s.last()));
    }
}

/// Sort a list of records by `t`, keeping the relative order of equal
/// parameters.
fn sort_intersections(v: &mut Vec<Intersection>)
    ensures
        final(v)@ == sort_spec(old(v)@),
        sorted_by_t(final(v)@),
{
    let mut out: Vec<Intersection> = Vec::new();
    let mut i: usize = 0;
    while i < v.len()
        invariant
            i <= v@.len(),
            out@ == sort_spec(v@.take(i as int)),
            sorted_by_t(out@),
        decreases v@.len() - i,
    {
        let x = v[i];
        let ghost prev = out@;
        let mut p: usize = out.len();
        while p > 0 && out[p - 1].t.raw > x.t.raw
            invariant
                p <= out@.len(),
                out@ == prev,
                forall|j: int| p <= j < out@.len() ==> out@[j].t.raw > x.t.raw,
            decreases p,
        {
            p = p - 1;
        }
        out.insert(p, x);
        proof {
            lemma_insert_sorted_at(prev, x, p as int);
            lemma_insert_sorted_props(prev, x);
            assert(v@.take(i + 1).drop_last() =~= v@.take(i as int));
            assert(v@.take(i + 1).last() == v@[i as int]);
            assert(out@ == insert_sorted(sort_spec(v@.take(i as int)), v@[i as int]));
        }
        i = i + 1;
    }
    proof {
        assert(v@.take(v@.len() as int) =~= v@);
    }
    *v = out;
}

/// The first record with a non-negative parameter, in list order.
pub open spec fn hit_spec(s: Seq<Intersection>) -> Option<Intersection>
    decreases s.len(),
{
    if s.len() == 0 {
        None
    } else if s[0].t.raw >= 0 {
        Some(s[0])
    } else {
        hit_spec(s.drop_first())
    }
}

proof fn lemma_hit_spec_skip(s: Seq<Intersection>, i: int)
    requires
        0 <= i <= s.len(),
        forall|j: int| 0 <= j < i ==> s[j].t.raw < 0,
    ensures
        hit_spec(s) == hit_spec(s.skip(i)),
    decreases i,
{
    if i == 0 {
        assert(s.skip(0) =~= s);
    } else {
        assert(s[0].t.raw < 0);
        assert(hit_spec(s) == hit_spec(s.drop_first()));
        assert(s.drop_first() =~= s.skip(1));
        lemma_hit_spec_skip(s.skip(1), i - 1);
        assert(s.skip(1).skip(i - 1) =~= s.skip(i));
    }
}

/// The first visible record of a sorted list: never one behind the
/// ray, and nothing when every parameter is negative.
pub fn hit(intersections: &Vec<Intersection>) -> (r: Option<Intersection>)
    ensures
        r == hit_spec(intersections@),
        match r {
            Some(x) => exists|k: int|
                0 <= k < intersections@.len() && intersections@[k] == x && x.t.raw >= 0 && (forall|
                    j: int,
                |
                    0 <= j < k ==> intersections@[j].t.raw < 0),
            None => forall|j: int| 0 <= j < intersections@.len() ==> intersections@[j].t.raw < 0,
        },
{
    let mut i: usize = 0;
    while i < intersections.len()
        invariant
            i <= intersections@.len(),
            forall|j: int| 0 <= j < i ==> intersections@[j].t.raw < 0,
        decreases intersections@.len() - i,
    {
        let ix = intersections[i];
        if ix.t.raw >= 0 {
            proof {
                lemma_hit_spec_skip(intersections@, i as int);
                assert(intersections@.skip(i as int)[0] == intersections@[i as int]);
            }
            return Some(ix);
        }
        i = i + 1;
    }
    proof {
        lemma_hit_spec_skip(intersections@, i as int);
        assert(intersections@.skip(i as int).len() == 0);
    }
    None
}

/// One record enriched with its shading geometry, a function of its
/// parameter, its shape, and the ray.
pub open spec fn enrich1(i: Intersection, ray: Ray, objects: Seq<Shape>) -> Intersection {
    let point = ray_position(ray.origin.m(), ray.direction.m(), i.t.v());
    let normal0 = objects[i.object as int].normal_of(point);
    let eyev = tneg(ray.direction.m());
    let inside = tdot(normal0, eyev) < 0;
    let normalv = if inside {
        tneg(normal0)
    } else {
        normal0
    };
    let over = tadd(point, tscale(normalv, EPSILON_RAW as int));
    let under = tsub(point, tscale(normalv, EPSILON_RAW as int));
    let reflectv = spec_reflect(ray.direction.m(), normalv);
    Intersection {
        t: i.t,
        object: i.object,
        point: tup_of(point),
        over_point: tup_of(over),
        under_point: tup_of(under),
        eyev: tup_of(eyev),
        normalv: tup_of(normalv),
        reflectv: tup_of(reflectv),
        inside,
        n1: i.n1,
        n2: i.n2,
    }
}

pub open spec fn enrich_all(s: Seq<Intersection>, ray: Ray, objects: Seq<Shape>) -> Seq<
    Intersection,
> {
    Seq::new(s.len(), |k: int| enrich1(s[k], ray, objects))
}

/// Fill in every record's shading geometry: hit point, eye and normal
/// vectors, the inside flag, the nudged points and the reflection
/// vector.
pub fn compute_intersection_data(result: &mut Vec<Intersection>, r: &Ray, objects: &Vec<Shape>)
    requires
        forall|k: int| 0 <= k < old(result)@.len() ==> (#[trigger] old(result)@[k]).object
            < objects@.len(),
        forall|k: int| 0 <= k < objects@.len() ==> (#[trigger] objects@[k]).wf(),
    ensures
        final(result)@ == enrich_all(old(result)@, *r, objects@),
{
    let mut i: usize = 0;
    while i < result.len()
        invariant
            i <= result@.len(),
            result@.len() == old(result)@.len(),
            forall|k: int| 0 <= k < old(result)@.len() ==> (#[trigger] old(result)@[k]).object
                < objects@.len(),
            forall|k: int| 0 <= k < objects@.len() ==> (#[trigger] objects@[k]).wf(),
            forall|k: int| i <= k < result@.len() ==> result@[k] == old(result)@[k],
            forall|k: int|
                0 <= k < i ==> result@[k] == enrich1(old(result)@[k], *r, objects@),
        decreases result@.len() - i,
    {
        let mut rec = result[i];
        let point = r.position(rec.t);
        let mut normalv = objects[rec.object].normal_at(&point);
        let eyev = r.direction.negate();
        let inside = normalv.dot(&eyev).lt(Fx::zero());
        if inside {
            normalv = normalv.negate();
        }
        let over_point = point.add(&normalv.multiply(crate::utils::epsilon()));
        let under_point = point.subtract(&normalv.multiply(crate::utils::epsilon()));
        let reflectv = reflect(&r.direction, &normalv);
        rec.point = point;
        rec.normalv = normalv;
        rec.eyev = eyev;
        rec.inside = inside;
        rec.over_point = over_point;
        rec.under_point = under_point;
        rec.reflectv = reflectv;
        result.set(i, rec);
        i = i + 1;
    }
    proof {
        assert(final(result)@ =~= enrich_all(old(result)@, *r, objects@));
    }
}

/// Toggle a shape's membership in the stack of volumes the ray is
/// inside: remove its first occurrence, or push it.
pub open spec fn toggle(c: Seq<usize>, o: usize) -> Seq<usize> {
    if c.contains(o) {
        c.remove_value(o)
    } else {
        c.push(o)
    }
}

/// The stack of containing volumes after the first `k` records.
pub open spec fn containers_after(s: Seq<Intersection>, k: int) -> Seq<usize>
    decreases k,
{
    if k <= 0 {
        Seq::empty()
    } else {
        toggle(containers_after(s, k - 1), s[k - 1].object)
    }
}

/// The refractive index of the topmost containing volume, or that of
/// the vacuum.
pub open spec fn refr_at(objects: Seq<Shape>, c: Seq<usize>) -> int {
    if c.len() == 0 {
        SCALE as int
    } else {
        objects[c.last() as int].material_of().refractive_index.v()
    }
}

/// One record with its refractive-index pair filled in.
pub open spec fn with_n(i: Intersection, n1: int, n2: int) -> Intersection {
    Intersection { n1: Fx { raw: n1 as i64 }, n2: Fx { raw: n2 as i64 }, ..i }
}

/// Every record given the indices of the medium it leaves and the
/// medium it enters, by the single stack walk.
pub open spec fn with_refraction(s: Seq<Intersection>, objects: Seq<Shape>) -> Seq<Intersection> {
    Seq::new(
        s.len(),
        |k: int|
            with_n(
                s[k],
                refr_at(objects, containers_after(s, k)),
                refr_at(objects, containers_after(s, k + 1)),
            ),
    )
}

/// Walk the sorted records once, maintaining the stack of entered
/// volumes, and write each record's `n1` and `n2`.
pub fn compute_n1n2(result: &mut Vec<Intersection>, objects: &Vec<Shape>)
    requires
        forall|k: int| 0 <= k < old(result)@.len() ==> (#[trigger] old(result)@[k]).object
            < objects@.len(),
    ensures
        final(result)@ == with_refraction(old(result)@, objects@),
{
    let mut containers: Vec<usize> = Vec::new();
    let mut i: usize = 0;
    while i < result.len()
        invariant
            i <= result@.len(),
            result@.len() == old(result)@.len(),
            forall|k: int| 0 <= k < old(result)@.len() ==> (#[trigger] old(result)@[k]).object
                < objects@.len(),
            containers@ == containers_after(old(result)@, i as int),
            forall|k: int| 0 <= k < containers@.len() ==> (#[trigger] containers@[k]) < objects@.len(),
            forall|k: int| i <= k < result@.len() ==> result@[k] == old(result)@[k],
            forall|k: int|
                0 <= k < i ==> result@[k] == with_n(
                    old(result)@[k],
                    refr_at(objects@, containers_after(old(result)@, k)),
                    refr_at(objects@, containers_after(old(result)@, k + 1)),
                ),
        decreases result@.len() - i,
    {
        let mut rec = result[i];
        let n1 = top_index(&containers, objects);
        let obj = rec.object;

        let mut found: bool = false;
        let mut pos: usize = 0;
        while pos < containers.len() && !found
            invariant
                pos <= containers@.len(),
                !found ==> forall|j: int| 0 <= j < pos ==> containers@[j] != obj,
                found ==> pos < containers@.len() && containers@[pos as int] == obj && (forall|
                    j: int,
                |
                    0 <= j < pos ==> containers@[j] != obj),
            decreases containers@.len() - pos, (if found { 0int } else { 1int }),
        {
            if containers[pos] == obj {
                found = true;
            } else {
                pos = pos + 1;
            }
        }
        let ghost before = containers@;
        if found {
            containers.remove(pos);
            proof {
                before.index_of_first_ensures(obj);
                assert(before.contains(obj));
                assert(before.index_of_first(obj) == Some(pos as int));
                assert(containers@ == toggle(before, obj));
            }
        } else {
            containers.push(obj);
            proof {
                assert(!before.contains(obj));
                assert(containers@ == toggle(before, obj));
            }
        }

        let n2 = top_index(&containers, objects);
        rec.n1 = n1;
        rec.n2 = n2;
        result.set(i, rec);
        proof {
            assert(old(result)@[i as int].object == obj);
            assert(containers@ == containers_after(old(result)@, i + 1));
        }
        i = i + 1;
    }
    proof {
        assert(final(result)@ =~= with_refraction(old(result)@, objects@));
    }
}

/// The refractive index at the top of the stack, or the vacuum's.
fn top_index(containers: &Vec<usize>, objects: &Vec<Shape>) -> (r: Fx)
    requires
        forall|k: int| 0 <= k < containers@.len() ==> (#[trigger] containers@[k]) < objects@.len(),
    ensures
        r.raw as int == refr_at(objects@, containers@),
{
    if containers.len() == 0 {
        Fx::one()
    } else {
        let top = containers[containers.len() - 1];
        objects[top].get_material().refractive_index
    }
}

/// All records every shape contributes for a ray, in scene order.
pub open spec fn concat_hits(objects: Seq<Shape>, ray: Ray, k: int) -> Seq<Intersection>
    decreases k,
{
    if k <= 0 {
        Seq::empty()
    } else {
        concat_hits(objects, ray, k - 1) + objects[k - 1].hits_of(ray, (k - 1) as usize)
    }
}

/// The full pipeline on a ray: collect, sort, enrich, and assign the
/// refractive-index pairs.
#[verifier::opaque]
pub open spec fn intersections_spec(objects: Seq<Shape>, ray: Ray) -> Seq<Intersection> {
    with_refraction(
        enrich_all(sort_spec(concat_hits(objects, ray, objects.len() as int)), ray, objects),
        objects,
    )
}

/// Every record a shape hands back carries that shape's own index.
#[verifier::rlimit(100)]
proof fn lemma_hits_object(s: Shape, ray: Ray, idx: usize)
    ensures
        forall|j: int|
            0 <= j < s.hits_of(ray, idx).len() ==> (#[trigger] s.hits_of(ray, idx)[j]).object
                == idx,
{
    let h = s.hits_of(ray, idx);
    assert forall|j: int| 0 <= j < h.len() implies (#[trigger] h[j]).object == idx by {
        match s {
            Shape::Sphere(sp) => {}
            Shape::Plane(sp) => {}
            Shape::Cube(sp) => {}
            Shape::Cylinder(sp) => {}
            Shape::Triangle(sp) => {}
        }
    }
}

/// Every collected record points at a shape of the scene.
proof fn lemma_concat_hits_bound(objects: Seq<Shape>, ray: Ray, k: int)
    requires
        k <= objects.len(),
        objects.len() <= usize::MAX,
    ensures
        forall|j: int|
            0 <= j < concat_hits(objects, ray, k).len() ==> (#[trigger] concat_hits(
                objects,
                ray,
                k,
            )[j]).object < objects.len(),
    decreases k,
{
    if k > 0 {
        lemma_concat_hits_bound(objects, ray, k - 1);
        lemma_hits_object(objects[k - 1], ray, (k - 1) as usize);
        let prev = concat_hits(objects, ray, k - 1);
        let hs = objects[k - 1].hits_of(ray, (k - 1) as usize);
        assert(concat_hits(objects, ray, k) == prev + hs);
        assert forall|j: int| 0 <= j < concat_hits(objects, ray, k).len() implies (
        #[trigger] concat_hits(objects, ray, k)[j]).object < objects.len() by {
            if j < prev.len() {
                assert((prev + hs)[j] == prev[j]);
            } else {
                assert((prev + hs)[j] == hs[j - prev.len()]);
            }
        }
    }
}

/// Every record of the finished pipeline points at a shape of the
/// scene.
proof fn lemma_intersections_bound(objects: Seq<Shape>, ray: Ray)
    requires
        objects.len() <= usize::MAX,
    ensures
        forall|k: int|
            0 <= k < intersections_spec(objects, ray).len() ==> (#[trigger] intersections_spec(
                objects,
                ray,
            )[k]).object < objects.len(),
        intersections_spec(objects, ray).len() == concat_hits(
            objects,
            ray,
            objects.len() as int,
        ).len(),
{
    reveal(intersections_spec);
    let base = concat_hits(objects, ray, objects.len() as int);
    lemma_concat_hits_bound(objects, ray, objects.len() as int);
    lemma_sort_spec_props(base);
    let sorted = sort_spec(base);
    let enriched = enrich_all(sorted, ray, objects);
    let full = with_refraction(enriched, objects);
    assert(intersections_spec(objects, ray) == full);
    assert forall|k: int| 0 <= k < full.len() implies (#[trigger] full[k]).object
        < objects.len() by {
        lemma_sort_spec_membership(base, k);
        let j = choose|j: int| 0 <= j < base.len() && base[j] == sorted[k];
        assert(enriched[k] == enrich1(sorted[k], ray, objects));
        assert(full[k] == with_n(
            enriched[k],
            refr_at(objects, containers_after(enriched, k)),
            refr_at(objects, containers_after(enriched, k + 1)),
        ));
    }
}

/// The pipeline leaves every record's parameter where the sort put
/// it, so the finished list is ordered.
proof fn lemma_intersections_sorted(objects: Seq<Shape>, ray: Ray)
    ensures
        sorted_by_t(intersections_spec(objects, ray)),
{
    reveal(intersections_spec);
    let base = concat_hits(objects, ray, objects.len() as int);
    lemma_sort_spec_props(base);
    let sorted = sort_spec(base);
    let enriched = enrich_all(sorted, ray, objects);
    let full = with_refraction(enriched, objects);
    assert forall|i: int, j: int| 0 <= i < j < full.len() implies full[i].t.raw
        <= full[j].t.raw by {
        assert(enriched[i] == enrich1(sorted[i], ray, objects));
        assert(enriched[j] == enrich1(sorted[j], ray, objects));
        assert(full[i] == with_n(
            enriched[i],
            refr_at(objects, containers_after(enriched, i)),
            refr_at(objects, containers_after(enriched, i + 1)),
        ));
        assert(full[j] == with_n(
            enriched[j],
            refr_at(objects, containers_after(enriched, j)),
            refr_at(objects, containers_after(enriched, j + 1)),
        ));
    }
    assert(intersections_spec(objects, ray) == full);
}

/// The whole scene: its shapes and its lights, immutable for a
/// render.
pub struct World {
    pub objects: Vec<Shape>,
    pub lights: Vec<PointLight>,
}

/// Whether a point is cut off from a light: the ray toward the light
/// meets something strictly closer than the light.
#[verifier::opaque]
pub open spec fn spec_is_shadowed(w: World, point: (int, int, int, int), light: PointLight) -> bool {
    let v = tsub(light.position.m(), point);
    let distance = tmag(v);
    let direction = tdivide(v, tmag(v));
    let ray = ray_of(point, direction);
    match hit_spec(intersections_spec(w.objects@, ray)) {
        Some(x) => x.t.raw < distance,
        None => false,
    }
}

/// The summed lighting of the first `k` lights at a hit.
pub open spec fn shade_acc(w: World, h: Intersection, k: int) -> (int, int, int)
    decreases k,
{
    if k <= 0 {
        (0int, 0int, 0int)
    } else {
        cadd(
            shade_acc(w, h, k - 1),
            spec_lighting(
                w.objects@[h.object as int],
                w.lights@[k - 1],
                h.point.m(),
                spec_is_shadowed(w, h.over_point.m(), w.lights@[k - 1]),
                h.eyev.m(),
                h.normalv.m(),
            ),
        )
    }
}

/// The local color at a hit: every light's contribution, shadows
/// tested from the nudged surface point.
#[verifier::opaque]
pub open spec fn spec_shade_hit(w: World, h: Intersection) -> (int, int, int) {
    shade_acc(w, h, w.lights@.len() as int)
}

/// The closing Schlick form on given media and cosine.
pub open spec fn schlick_tail(n1: int, n2: int, cos0: int) -> int {
    let r0 = fpow(fdiv(fsub(n1, n2), fadd(n1, n2)), 2);
    fadd(r0, fmul(fsub(SCALE as int, r0), fpow(fsub(SCALE as int, cos0), 5)))
}

/// The Schlick reflectance at a hit: one on total internal
/// reflection, else the closed-form approximation.
#[verifier::opaque]
pub open spec fn spec_schlick(h: Intersection) -> int {
    let cos0 = tdot(h.eyev.m(), h.normalv.m());
    if h.n1.raw > h.n2.raw {
        let n = fdiv(h.n1.v(), h.n2.v());
        let sin2_t = fmul(fmul(n, n), fsub(SCALE as int, fmul(cos0, cos0)));
        if sin2_t > SCALE as int {
            SCALE as int
        } else {
            schlick_tail(h.n1.v(), h.n2.v(), fsqrt(fsub(SCALE as int, sin2_t)))
        }
    } else {
        schlick_tail(h.n1.v(), h.n2.v(), cos0)
    }
}

/// The reflected contribution at a hit: a recursion along the
/// reflection vector, scaled by the reflective coefficient.
#[verifier::opaque]
pub open spec fn spec_reflected(w: World, h: Intersection, depth: int) -> (int, int, int)
    decreases 10 - depth, 0int,
{
    let reflective = w.objects@[h.object as int].material_of().reflective;
    if reflective.raw > 0 && depth < 10 {
        cscale(
            spec_color_at(w, ray_of(h.over_point.m(), h.reflectv.m()), depth + 1),
            reflective.v(),
        )
    } else {
        (0int, 0int, 0int)
    }
}

/// The refracted contribution at a hit: Snell's law in vector form,
/// black under total internal reflection, else a recursion from the
/// under point scaled by the transparency.
#[verifier::opaque]
pub open spec fn spec_refracted(w: World, h: Intersection, depth: int) -> (int, int, int)
    decreases 10 - depth, 0int,
{
    let transparency = w.objects@[h.object as int].material_of().transparency;
    if transparency.raw > 0 && depth < 10 {
        let n_ratio = fdiv(h.n1.v(), h.n2.v());
        let cos_i = tdot(h.eyev.m(), h.normalv.m());
        let sin2_t = fmul(fmul(n_ratio, n_ratio), fsub(SCALE as int, fmul(cos_i, cos_i)));
        if sin2_t < SCALE as int {
            let cos_t = fsqrt(fsub(SCALE as int, sin2_t));
            let direction = tsub(
                tscale(h.normalv.m(), fsub(fmul(n_ratio, cos_i), cos_t)),
                tscale(h.eyev.m(), n_ratio),
            );
            cscale(
                spec_color_at(w, ray_of(h.under_point.m(), direction), depth + 1),
                transparency.v(),
            )
        } else {
            (0int, 0int, 0int)
        }
    } else {
        (0int, 0int, 0int)
    }
}

/// The color a ray yields: the local color of the nearest hit plus
/// the reflected and refracted contributions, blended by the Schlick
/// reflectance when the surface is both reflective and transparent.
#[verifier::opaque]
pub open spec fn spec_color_at(w: World, ray: Ray, depth: int) -> (int, int, int)
    decreases 10 - depth, 1int,
{
    let ints = intersections_spec(w.objects@, ray);
    match hit_spec(ints) {
        Some(h) => {
            let local = spec_shade_hit(w, h);
            let refl = spec_reflected(w, h, depth);
            let refr = spec_refracted(w, h, depth);
            let mat = w.objects@[h.object as int].material_of();
            let added = if mat.reflective.raw > 0 && mat.transparency.raw > 0 {
                let reflectance = spec_schlick(h);
                cadd(cscale(refl, reflectance), cscale(refr, fsub(SCALE as int, reflectance)))
            } else {
                cadd(refl, refr)
            };
            cadd(local, added)
        },
        None => (0int, 0int, 0int),
    }
}

impl World {
    /// Every shape and every pattern in the scene has well-formed
    /// cached matrices.
    pub open spec fn wf(self) -> bool {
        forall|i: int|
            0 <= i < self.objects@.len() ==> (#[trigger] self.objects@[i]).wf()
                && self.objects@[i].material_of().wf()
    }

    /// An empty scene under one white light.
    pub fn default() -> (w: World)
        ensures
            w.wf(),
            w.objects@.len() == 0,
            w.lights@.len() == 1,
            w.lights@[0].position.m() == (
                -10 * (SCALE as int),
                10 * (SCALE as int),
                -10 * (SCALE as int),
                SCALE as int,
            ),
            w.lights@[0].intensity.m() == (SCALE as int, SCALE as int, SCALE as int),
    {
        let light = PointLight {
            position: Tuple::point(Fx::from_int(-10), Fx::from_int(10), Fx::from_int(-10)),
            intensity: Color::white(),
        };
        let mut lights: Vec<PointLight> = Vec::new();
        lights.push(light);
        World { objects: Vec::new(), lights }
    }

    /// Run the whole pipeline on a ray: collect every shape's records,
    /// sort them by `t`, enrich them, and assign the refractive-index
    /// pairs. The parameters come out in non-decreasing order.
    pub fn intersect(&self, ray: &Ray) -> (result: Vec<Intersection>)
        requires
            self.wf(),
        ensures
            result@ == intersections_spec(self.objects@, *ray),
            sorted_by_t(result@),
    {
        let mut result: Vec<Intersection> = Vec::new();
        let mut i: usize = 0;
        while i < self.objects.len()
            invariant
                i <= self.objects@.len(),
                self.wf(),
                result@ == concat_hits(self.objects@, *ray, i as int),
            decreases self.objects@.len() - i,
        {
            let obj = &self.objects[i];
            let mut intersections = obj.intersect(ray, i);
            result.append(&mut intersections);
            i = i + 1;
        }
        let ghost base = concat_hits(self.objects@, *ray, self.objects@.len() as int);
        proof {
            reveal(intersections_spec);
            lemma_concat_hits_bound(self.objects@, *ray, self.objects@.len() as int);
            lemma_sort_spec_props(base);
        }
        sort_intersections(&mut result);
        proof {
            assert forall|k: int| 0 <= k < result@.len() implies (#[trigger] result@[k]).object
                < self.objects@.len() by {
                lemma_sort_spec_membership(base, k);
                let j = choose|j: int| 0 <= j < base.len() && base[j] == sort_spec(base)[k];
            }
        }
        compute_intersection_data(&mut result, ray, &self.objects);
        let ghost enriched = enrich_all(sort_spec(base), *ray, self.objects@);
        proof {
            assert forall|k: int| 0 <= k < result@.len() implies (#[trigger] result@[k]).object
                < self.objects@.len() by {
                assert(result@[k] == enrich1(sort_spec(base)[k], *ray, self.objects@));
                lemma_sort_spec_membership(base, k);
                let j = choose|j: int| 0 <= j < base.len() && base[j] == sort_spec(base)[k];
            }
        }
        compute_n1n2(&mut result, &self.objects);
        proof {
            reveal(intersections_spec);
            assert(result@ == intersections_spec(self.objects@, *ray));
            lemma_intersections_sorted(self.objects@, *ray);
        }
        result
    }

    /// The local color at a hit: the sum of every light's Phong
    /// contribution, with the shadow test run per light.
    pub fn shade_hit(&self, rec: Intersection) -> (c: Color)
        requires
            self.wf(),
            rec.object < self.objects@.len(),
        ensures
            c.m() == spec_shade_hit(*self, rec),
    {
        proof {
            reveal(spec_shade_hit);
        }
        let mut result = Color::black();
        let mut i: usize = 0;
        while i < self.lights.len()
            invariant
                i <= self.lights@.len(),
                self.wf(),
                rec.object < self.objects@.len(),
                result.m() == shade_acc(*self, rec, i as int),
            decreases self.lights@.len() - i,
        {
            let light = &self.lights[i];
            let is_shadowed = self.is_shadowed(&rec.over_point, light);
            result = result.add(
                &light.lighting(
                    &self.objects[rec.object],
                    &rec.point,
                    is_shadowed,
                    &rec.eyev,
                    &rec.normalv,
                ),
            );
            i = i + 1;
        }
        result
    }

    /// The color a ray yields, up to the recursion ceiling.
    #[verifier::rlimit(100)]
    pub fn color_at(&self, ray: &Ray, rec_depth: u8) -> (c: Color)
        requires
            self.wf(),
        ensures
            c.m() == spec_color_at(*self, *ray, rec_depth as int),
        decreases 10 - rec_depth, 1int,
    {
        proof {
            reveal_with_fuel(spec_color_at, 2);
        }
        let intersections = self.intersect(ray);
        let h = hit(&intersections);
        proof {
            vstd::std_specs::vec::axiom_spec_len(&self.objects);
            lemma_intersections_bound(self.objects@, *ray);
        }

        let final_color = match &h {
            Some(found) => {
                let color = self.shade_hit(*found);
                let reflect_color = self.reflected_color_at(found, rec_depth);
                let refract_color = self.refracted_color_at(found, rec_depth);
                let mat = self.objects[found.object].get_material();
                let added_color = if mat.reflective.gt(Fx::zero()) && mat.transparency.gt(
                    Fx::zero(),
                ) {
                    let reflectance = schlick(found);
                    reflect_color.multiply(reflectance).add(
                        &refract_color.multiply(Fx::one().minus(reflectance)),
                    )
                } else {
                    reflect_color.add(&refract_color)
                };
                let out = color.add(&added_color);
                proof {
                    reveal_with_fuel(spec_color_at, 2);
                    reveal_with_fuel(spec_reflected, 2);
                    reveal_with_fuel(spec_refracted, 2);
                    assert(out.m() == spec_color_at(*self, *ray, rec_depth as int));
                }
                out
            },
            None => {
                let color = Color::black();
                let added_color = Color::black().add(&Color::black());
                let out = color.add(&added_color);
                proof {
                    reveal_with_fuel(spec_color_at, 2);
                    reveal_with_fuel(spec_reflected, 2);
                    reveal_with_fuel(spec_refracted, 2);
                    assert(out.m() == spec_color_at(*self, *ray, rec_depth as int));
                }
                out
            },
        };
        final_color
    }

    /// The reflected contribution at a hit.
    #[verifier::rlimit(100)]
    pub fn reflected_color_at(&self, hit: &Intersection, rec_depth: u8) -> (c: Color)
        requires
            self.wf(),
            hit.object < self.objects@.len(),
        ensures
            c.m() == spec_reflected(*self, *hit, rec_depth as int),
        decreases 10 - rec_depth, 0int,
    {
        proof {
            reveal_with_fuel(spec_reflected, 2);
        }
        let mut result = Color::black();
        let factor = self.objects[hit.object].get_material().reflective;
        if factor.gt(Fx::zero()) && rec_depth < MAX_REC_DEPTH {
            let reflect_ray = Ray { origin: hit.over_point, direction: hit.reflectv };
            proof {
                assert(reflect_ray == ray_of(hit.over_point.m(), hit.reflectv.m()));
            }
            result = self.color_at(&reflect_ray, rec_depth + 1).multiply(factor);
            proof {
                reveal_with_fuel(spec_reflected, 2);
                reveal_with_fuel(spec_color_at, 2);
                assert(result.m() == spec_reflected(*self, *hit, rec_depth as int));
            }
        } else {
            proof {
                reveal_with_fuel(spec_reflected, 2);
                reveal_with_fuel(spec_color_at, 2);
                assert(result.m() == spec_reflected(*self, *hit, rec_depth as int));
            }
        }
        result
    }

    /// The refracted contribution at a hit.
    #[verifier::rlimit(100)]
    pub fn refracted_color_at(&self, hit: &Intersection, rec_depth: u8) -> (c: Color)
        requires
            self.wf(),
            hit.object < self.objects@.len(),
        ensures
            c.m() == spec_refracted(*self, *hit, rec_depth as int),
        decreases 10 - rec_depth, 0int,
    {
        proof {
            reveal_with_fuel(spec_refracted, 2);
        }
        let mut result = Color::black();

        if self.objects[hit.object].get_material().transparency.gt(Fx::zero()) && rec_depth
            < MAX_REC_DEPTH {
            let n_ratio = hit.n1.over(hit.n2);
            let cos_i = hit.eyev.dot(&hit.normalv);
            let sin2_t = n_ratio.times(n_ratio).times(Fx::one().minus(cos_i.times(cos_i)));
            if sin2_t.lt(Fx::one()) {
                let cos_t = Fx::one().minus(sin2_t).sqrt();
                let direction = hit.normalv.multiply(n_ratio.times(cos_i).minus(cos_t)).subtract(
                    &hit.eyev.multiply(n_ratio),
                );
                let refract_ray = Ray { origin: hit.under_point, direction };
                proof {
                    assert(refract_ray == ray_of(hit.under_point.m(), direction.m()));
                }
                let factor = self.objects[hit.object].get_material().transparency;
                result = self.color_at(&refract_ray, rec_depth + 1).multiply(factor);
            }
            proof {
                reveal_with_fuel(spec_refracted, 2);
                reveal_with_fuel(spec_color_at, 2);
                assert(result.m() == spec_refracted(*self, *hit, rec_depth as int));
            }
        } else {
            proof {
                reveal_with_fuel(spec_refracted, 2);
                reveal_with_fuel(spec_color_at, 2);
                assert(result.m() == spec_refracted(*self, *hit, rec_depth as int));
            }
        }

        result
    }

    /// Whether a point is cut off from a light by some intervening
    /// object, whatever that object's own transparency.
    pub fn is_shadowed(&self, point: &Tuple, light: &PointLight) -> (r: bool)
        requires
            self.wf(),
        ensures
            r == spec_is_shadowed(*self, point.m(), *light),
    {
        proof {
            reveal(spec_is_shadowed);
        }
        let v = light.position.subtract(point);
        let distance = v.magnitude();
        let direction = v.normalize();

        let ray = Ray { origin: *point, direction };
        let intersections = self.intersect(&ray);
        let h = hit(&intersections);
        match h {
            Some(x) => x.t.lt(distance),
            None => false,
        }
    }
}

/// The Schlick reflectance at a hit: exactly one under total internal
/// reflection, else the closed-form approximation.
pub fn schlick(hit: &Intersection) -> (r: Fx)
    ensures
        r.raw as int == spec_schlick(*hit),
{
    proof {
        reveal(spec_schlick);
    }
    let mut cos0 = hit.eyev.dot(&hit.normalv);
    if hit.n1.gt(hit.n2) {
        let n = hit.n1.over(hit.n2);
        let sin2_t = n.times(n).times(Fx::one().minus(cos0.times(cos0)));
        if sin2_t.gt(Fx::one()) {
            return Fx::one();
        }
        cos0 = Fx::one().minus(sin2_t).sqrt();
    }

    let r0 = hit.n1.minus(hit.n2).over(hit.n1.plus(hit.n2)).powi(2);
    r0.plus(Fx::one().minus(r0).times(Fx::one().minus(cos0).powi(5)))
}

} // verus!
