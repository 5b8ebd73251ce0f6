//! The shading state derived from one hit: points, vectors, and the refractive
//! indices on either side of the surface.
use crate::fixed::SCALE;
use crate::material::Material;
use crate::ray::{Intersection, Ray};
use crate::shape::{normal_spec, Scene, Shape, ShapeKind};
use crate::tuple::{dot_spec, Tuple};
use vstd::prelude::*;

verus! {

/// How far off the surface the points used for secondary rays are moved.
pub const EPSILON: i64 = 100;

/// Everything shading needs about one hit.
#[derive(Clone, Copy, Debug, PartialEq, Eq, Structural)]
pub struct IntersectionState {
    pub t: i64,
    pub object: usize,
    pub point: Tuple,
    /// Just outside the surface; shadow rays start here.
    pub over_point: Tuple,
    /// Just inside the surface; refracted rays start here.
    pub under_point: Tuple,
    pub eyev: Tuple,
    pub normalv: Tuple,
    /// Whether the ray started inside the shape (the normal was then flipped).
    pub inside: bool,
    pub reflectv: Tuple,
    /// Refractive index of the medium the ray leaves.
    pub n1: i64,
    /// Refractive index of the medium the ray enters.
    pub n2: i64,
}

/// The material of shape `o`; a group, which has none, gets the default.
pub open spec fn material_of(shapes: Seq<Shape>, o: int) -> Material {
    if 0 <= o < shapes.len() {
        match shapes[o].kind {
            ShapeKind::Sphere(s) => s.material,
            ShapeKind::Group(_) => Material::default_spec(),
        }
    } else {
        Material::default_spec()
    }
}

/// Whether a coefficient is too small to matter: within `EPSILON` of zero.
pub open spec fn negligible(x: int) -> bool {
    -(EPSILON as int) < x < EPSILON as int
}

/// Computes `material_of(scene, o)`.
pub fn material_at(scene: &Scene, o: usize) -> (m: Material)
    ensures
        m == material_of(scene.view(), o as int),
{
    if o < scene.len() {
        match &scene.shape(o).kind {
            ShapeKind::Sphere(s) => s.material,
            ShapeKind::Group(_) => Material::new(),
        }
    } else {
        Material::new()
    }
}

/// The dot product of two fixed-point vectors computed without rounding,
/// in units of `SCALE * SCALE`; only its sign is used.
pub open spec fn facing(a: Tuple, b: Tuple) -> int {
    a.x * b.x + a.y * b.y + a.z * b.z
}

/// No coordinate is `i64::MIN`, so negating the vector is exact.
pub open spec fn no_extreme(v: Tuple) -> bool {
    v.x > i64::MIN && v.y > i64::MIN && v.z > i64::MIN
}

/// Whether `facing(a, b)` is negative, decided without rounding.
pub fn faces_away(a: &Tuple, b: &Tuple) -> (r: bool)
    ensures
        r == (facing(*a, *b) < 0),
{
    proof {
        lemma_product_bound(a.x as int, b.x as int);
        lemma_product_bound(a.y as int, b.y as int);
        lemma_product_bound(a.z as int, b.z as int);
    }
    // Each product is halved first so that the sum cannot overflow.
    let (h1, r1) = halve(a.x as i128 * b.x as i128);
    let (h2, r2) = halve(a.y as i128 * b.y as i128);
    let (h3, r3) = halve(a.z as i128 * b.z as i128);
    let h = h1 + h2 + h3;
    let rest = r1 + r2 + r3;
    if h <= -2 {
        true
    } else if h == -1 {
        rest < 2
    } else {
        false
    }
}

/// `p = 2 q + r` with `r` in `{0, 1}`.
fn halve(p: i128) -> (qr: (i128, i128))
    requires
        -0x4000_0000_0000_0000_0000_0000_0000_0000 <= p <= 0x4000_0000_0000_0000_0000_0000_0000_0000,
    ensures
        p == 2 * qr.0 + qr.1,
        0 <= qr.1 <= 1,
        -0x2000_0000_0000_0000_0000_0000_0000_0000 <= qr.0 <= 0x2000_0000_0000_0000_0000_0000_0000_0000,
{
    if p >= 0 {
        let q = p / 2;
        (q, p - 2 * q)
    } else {
        let q = -((-p + 1) / 2);
        assert(p == 2 * q + (p - 2 * q) && 0 <= p - 2 * q <= 1) by (nonlinear_arith)
            requires p < 0, q == -((-p + 1) / 2);
        (q, p - 2 * q)
    }
}

proof fn lemma_product_bound(a: int, b: int)
    requires
        i64::MIN <= a <= i64::MAX,
        i64::MIN <= b <= i64::MAX,
    ensures
        -0x4000_0000_0000_0000_0000_0000_0000_0000 <= a * b <= 0x4000_0000_0000_0000_0000_0000_0000_0000,
{
    let m: int = 0x8000_0000_0000_0000;
    assert(-(m * m) <= a * b <= m * m) by (nonlinear_arith)
        requires -m <= a <= m, -m <= b <= m;
    assert(m * m == 0x4000_0000_0000_0000_0000_0000_0000_0000) by (nonlinear_arith)
        requires m == 0x8000_0000_0000_0000int;
}

/// The index of the first element of `s` equal to `a`, or `s.len()`.
pub open spec fn first_index<A>(s: Seq<A>, a: A) -> int
    decreases s.len(),
{
    if s.len() == 0 {
        0
    } else if s[0] == a {
        0
    } else {
        1 + first_index(s.drop_first(), a)
    }
}

/// Entering a shape adds it to the list of containing shapes; leaving removes it.
pub open spec fn toggle(c: Seq<usize>, o: usize) -> Seq<usize> {
    let j = first_index(c, o);
    if j < c.len() {
        c.remove(j)
    } else {
        c.push(o)
    }
}

/// The shapes that contain a ray after it has passed the intersections `xs`, in the order entered.
pub open spec fn containers(xs: Seq<Intersection>) -> Seq<usize>
    decreases xs.len(),
{
    if xs.len() == 0 {
        Seq::empty()
    } else {
        toggle(containers(xs.drop_last()), xs.last().object)
    }
}

/// The refractive index of the innermost container, or that of empty space.
pub open spec fn medium(shapes: Seq<Shape>, c: Seq<usize>) -> int {
    if c.len() == 0 {
        SCALE as int
    } else {
        material_of(shapes, c.last() as int).refractive_index as int
    }
}

/// Refractive indices on the near and far side of `hit`, from the shapes the ray
/// is inside of along the sorted intersections `xs`.
pub open spec fn indices(shapes: Seq<Shape>, hit: Intersection, xs: Seq<Intersection>) -> (int, int) {
    let k = first_index(xs, hit);
    if k < xs.len() {
        (medium(shapes, containers(xs.take(k))), medium(shapes, containers(xs.take(k + 1))))
    } else {
        (SCALE as int, SCALE as int)
    }
}

/// The shading state of `hit` on `ray`, given all intersections `xs` sorted by parameter.
pub open spec fn state_spec(shapes: Seq<Shape>, ray: Ray, hit: Intersection, xs: Seq<Intersection>) -> IntersectionState {
    let point = ray.at(hit.t as int);
    let eyev = ray.direction.negated();
    let n0 = normal_spec(shapes, hit.object as int, point);
    let inside = facing(n0, eyev) < 0;
    let normalv = if inside { n0.negated() } else { n0 };
    let (n1, n2) = indices(shapes, hit, xs);
    IntersectionState {
        t: hit.t,
        object: hit.object,
        point,
        over_point: point.plus(normalv.times(EPSILON as int)),
        under_point: point.minus(normalv.times(EPSILON as int)),
        eyev,
        normalv,
        inside,
        reflectv: ray.direction.reflected(normalv),
        n1: n1 as i64,
        n2: n2 as i64,
    }
}

fn find_shape(s: &Vec<usize>, a: usize) -> (j: usize)
    ensures
        j == first_index(s@, a),
        j <= s@.len(),
{
    let mut j: usize = 0;
    assert(s@.subrange(0, s@.len() as int) =~= s@);
    while j < s.len() && s[j] != a
        invariant
            j <= s@.len(),
            first_index(s@, a) == j + first_index(s@.subrange(j as int, s@.len() as int), a),
        decreases s@.len() - j,
    {
        assert(s@.subrange(j as int, s@.len() as int).drop_first() =~= s@.subrange(j as int + 1, s@.len() as int));
        j = j + 1;
    }
    if j == s.len() {
        assert(s@.subrange(j as int, s@.len() as int).len() == 0);
    }
    j
}

fn find_intersection(s: &Vec<Intersection>, a: Intersection) -> (j: usize)
    ensures
        j == first_index(s@, a),
        j <= s@.len(),
{
    let mut j: usize = 0;
    assert(s@.subrange(0, s@.len() as int) =~= s@);
    while j < s.len() && s[j] != a
        invariant
            j <= s@.len(),
            first_index(s@, a) == j + first_index(s@.subrange(j as int, s@.len() as int), a),
        decreases s@.len() - j,
    {
        assert(s@.subrange(j as int, s@.len() as int).drop_first() =~= s@.subrange(j as int + 1, s@.len() as int));
        j = j + 1;
    }
    if j == s.len() {
        assert(s@.subrange(j as int, s@.len() as int).len() == 0);
    }
    j
}

fn medium_of(scene: &Scene, c: &Vec<usize>) -> (n: i64)
    ensures
        n == medium(scene.view(), c@),
{
    if c.len() == 0 {
        SCALE
    } else {
        let o = c[c.len() - 1];
        if o < scene.len() {
            match &scene.shape(o).kind {
                ShapeKind::Sphere(s) => s.material.refractive_index,
                ShapeKind::Group(_) => Material::new().refractive_index,
            }
        } else {
            Material::new().refractive_index
        }
    }
}

/// Computes `indices(scene, hit, xs)`.
pub fn refractive_indices(scene: &Scene, hit: &Intersection, xs: &Vec<Intersection>) -> (r: (i64, i64))
    ensures
        r.0 == indices(scene.view(), *hit, xs@).0,
        r.1 == indices(scene.view(), *hit, xs@).1,
{
    let k = find_intersection(xs, *hit);
    if k == xs.len() {
        return (SCALE, SCALE);
    }
    let mut c: Vec<usize> = Vec::new();
    let mut j: usize = 0;
    assert(xs@.take(0) =~= Seq::<Intersection>::empty());
    while j < k
        invariant
            k < xs@.len(),
            j <= k,
            c@ == containers(xs@.take(j as int)),
        decreases k - j,
    {
        assert(xs@.take(j as int + 1).drop_last() =~= xs@.take(j as int));
        toggle_in(&mut c, xs[j].object);
        j = j + 1;
    }
    let n1 = medium_of(scene, &c);
    assert(xs@.take(k as int + 1).drop_last() =~= xs@.take(k as int));
    toggle_in(&mut c, xs[k].object);
    let n2 = medium_of(scene, &c);
    (n1, n2)
}

fn toggle_in(c: &mut Vec<usize>, o: usize)
    ensures
        final(c)@ == toggle(old(c)@, o),
{
    let j = find_shape(c, o);
    if j < c.len() {
        c.remove(j);
    } else {
        c.push(o);
    }
}

impl Ray {
    /// The shading state of `hit`, a hit on a sphere, given all the ray's
    /// intersections `xs` sorted by parameter.
    pub fn intersection_state(&self, hit: &Intersection, xs: &Vec<Intersection>, scene: &Scene) -> (st: IntersectionState)
        requires
            hit.object < scene.view().len(),
            scene.view()[hit.object as int].kind is Sphere,
        ensures
            st == state_spec(scene.view(), *self, *hit, xs@),
            st.inside <==> facing(normal_spec(scene.view(), hit.object as int, st.point), st.eyev) < 0,
            no_extreme(normal_spec(scene.view(), hit.object as int, st.point)) ==> facing(st.normalv, st.eyev) >= 0,
    {
        let point = self.position(hit.t);
        let eyev = self.direction.neg();
        let n0 = scene.normal(hit.object, &point);
        let inside = faces_away(&n0, &eyev);
        let normalv = if inside { n0.neg() } else { n0 };
        proof {
            if inside && no_extreme(n0) {
                assert(normalv.x == -n0.x && normalv.y == -n0.y && normalv.z == -n0.z);
                assert(facing(normalv, eyev) == -facing(n0, eyev)) by (nonlinear_arith)
                    requires
                        normalv.x == -n0.x,
                        normalv.y == -n0.y,
                        normalv.z == -n0.z,
                        facing(normalv, eyev) == normalv.x * eyev.x + normalv.y * eyev.y + normalv.z * eyev.z,
                        facing(n0, eyev) == n0.x * eyev.x + n0.y * eyev.y + n0.z * eyev.z;
            }
        }
        let (n1, n2) = refractive_indices(scene, hit, xs);
        IntersectionState {
            t: hit.t,
            object: hit.object,
            point,
            over_point: point.add(&normalv.scale(EPSILON)),
            under_point: point.sub(&normalv.scale(EPSILON)),
            eyev,
            normalv,
            inside,
            reflectv: self.direction.reflect(&normalv),
            n1,
            n2,
        }
    }
}

} // verus!
