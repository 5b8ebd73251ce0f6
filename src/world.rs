//! The world: shapes, one light, and the recursive shading pipeline.
use crate::fixed;
use crate::fixed::{add_spec, div_spec, mul_spec, sqrt_spec, sub_spec, SCALE};
use crate::material::{pow, pow_spec, Material, PointLight};
use crate::matrix::Transform;
use crate::pattern::Pattern;
use crate::ray::{Intersection, Ray};
use crate::shape::{children_xs, find_nearest, lemma_nearest, nearest, shape_xs, world_to_object, Scene, Shape, ShapeKind, Sphere};
use crate::state::{material_at, material_of, negligible, state_spec, IntersectionState, EPSILON};
use crate::tuple::{dot_spec, Color, Tuple};
use vstd::prelude::*;

verus! {

/// A scene ready to render: its shapes, the shapes the rays are cast against
/// (`objects`, in the order they are tried), and the light.
#[derive(Debug)]
pub struct World {
    pub scene: Scene,
    pub objects: Vec<usize>,
    pub light_source: PointLight,
}

/// The intersections of `ray` with the shapes `objs`, in that order, each
/// shape's own intersections in the order the shape gives them.
pub open spec fn raw_xs(shapes: Seq<Shape>, objs: Seq<usize>, ray: Ray) -> Seq<Intersection>
    decreases objs.len(),
{
    if objs.len() == 0 {
        Seq::empty()
    } else {
        raw_xs(shapes, objs.drop_last(), ray) + shape_xs(shapes, objs.last() as int, ray)
    }
}

/// The intersections of `xs` at a non-negative parameter, in order.
pub open spec fn ahead(xs: Seq<Intersection>) -> Seq<Intersection>
    decreases xs.len(),
{
    if xs.len() == 0 {
        Seq::empty()
    } else if xs.last().t >= 0 {
        ahead(xs.drop_last()).push(xs.last())
    } else {
        ahead(xs.drop_last())
    }
}

/// The intersections ahead of the ray, shape by shape.
pub open spec fn world_xs(shapes: Seq<Shape>, objs: Seq<usize>, ray: Ray) -> Seq<Intersection>
    decreases objs.len(),
{
    if objs.len() == 0 {
        Seq::empty()
    } else {
        world_xs(shapes, objs.drop_last(), ray) + ahead(shape_xs(shapes, objs.last() as int, ray))
    }
}

/// Where `x` goes in `s`: before the first element with a larger parameter.
pub open spec fn slot(s: Seq<Intersection>, t: int) -> int
    decreases s.len(),
{
    if s.len() == 0 {
        0
    } else if s[0].t > t {
        0
    } else {
        1 + slot(s.drop_first(), t)
    }
}

/// `xs` sorted by parameter; of equal parameters, the earlier stays first.
pub open spec fn sorted_xs(xs: Seq<Intersection>) -> Seq<Intersection>
    decreases xs.len(),
{
    if xs.len() == 0 {
        Seq::empty()
    } else {
        let s = sorted_xs(xs.drop_last());
        s.insert(slot(s, xs.last().t as int), xs.last())
    }
}

pub open spec fn is_sorted(s: Seq<Intersection>) -> bool {
    forall|i: int, j: int| 0 <= i < j < s.len() ==> #[trigger] s[i].t <= #[trigger] s[j].t
}

proof fn lemma_slot(s: Seq<Intersection>, t: int)
    ensures
        0 <= slot(s, t) <= s.len(),
        forall|j: int| 0 <= j < slot(s, t) ==> #[trigger] s[j].t <= t,
        slot(s, t) < s.len() ==> s[slot(s, t)].t > t,
    decreases s.len(),
{
    if s.len() > 0 && s[0].t <= t {
        lemma_slot(s.drop_first(), t);
        assert forall|j: int| 0 <= j < slot(s, t) implies #[trigger] s[j].t <= t by {
            if j > 0 {
                assert(s[j] == s.drop_first()[j - 1]);
            }
        }
    }
}

/// Sorting keeps every intersection, each as often as it came, and orders
/// them by parameter.
pub proof fn lemma_sorted_xs(xs: Seq<Intersection>)
    ensures
        is_sorted(sorted_xs(xs)),
        sorted_xs(xs).to_multiset() == xs.to_multiset(),
    decreases xs.len(),
{
    broadcast use vstd::seq_lib::group_to_multiset_ensures;
    if xs.len() > 0 {
        let s = sorted_xs(xs.drop_last());
        let x = xs.last();
        lemma_sorted_xs(xs.drop_last());
        lemma_slot(s, x.t as int);
        let k = slot(s, x.t as int);
        let r = s.insert(k, x);
        assert forall|i: int, j: int| 0 <= i < j < r.len() implies #[trigger] r[i].t <= #[trigger] r[j].t by {
            if j < k {
                assert(r[i] == s[i] && r[j] == s[j]);
            } else if j == k {
                assert(r[i] == s[i]);
            } else if i < k {
                assert(r[i] == s[i] && r[j] == s[j - 1]);
                assert(s[k].t > x.t);
                assert(s[i].t <= x.t);
            } else if i == k {
                assert(r[j] == s[j - 1]);
                assert(s[k].t > x.t);
                if j - 1 > k {
                    assert(s[k].t <= s[j - 1].t);
                }
            } else {
                assert(r[i] == s[i - 1] && r[j] == s[j - 1]);
            }
        }
        assert(xs =~= xs.drop_last().push(x));
    }
}

/// Whether some intersection lies at a parameter in `[0, distance)`.
pub open spec fn obstructed(xs: Seq<Intersection>, distance: int) -> bool {
    exists|j: int| 0 <= j < xs.len() && 0 <= (#[trigger] xs[j]).t < distance
}

/// The Schlick approximation of the Fresnel reflectance at a hit, in fixed point.
pub open spec fn schlick_spec(st: IntersectionState) -> int {
    let cos = dot_spec(st.eyev, st.normalv);
    let n1 = st.n1 as int;
    let n2 = st.n2 as int;
    let n = div_spec(n1, n2);
    let sin2_t = mul_spec(mul_spec(n, n), sub_spec(SCALE as int, mul_spec(cos, cos)));
    if n1 > n2 && sin2_t > SCALE {
        SCALE as int
    } else {
        let c = if n1 > n2 { sqrt_spec(sub_spec(SCALE as int, sin2_t)) } else { cos };
        let q = div_spec(sub_spec(n1, n2), add_spec(n1, n2));
        let r0 = mul_spec(q, q);
        unit_interval(add_spec(r0, mul_spec(sub_spec(SCALE as int, r0), pow_spec(sub_spec(SCALE as int, c), 5))))
    }
}

/// `x` kept within `[0, SCALE]`, the fixed-point unit interval.
pub open spec fn unit_interval(x: int) -> int {
    if x < 0 {
        0
    } else if x > SCALE as int {
        SCALE as int
    } else {
        x
    }
}

/// Whether refraction at this hit is total internal reflection.
pub open spec fn total_internal(st: IntersectionState) -> bool {
    let n_ratio = div_spec(st.n1 as int, st.n2 as int);
    let cos_i = dot_spec(st.eyev, st.normalv);
    mul_spec(mul_spec(n_ratio, n_ratio), sub_spec(SCALE as int, mul_spec(cos_i, cos_i))) > SCALE
}

/// The direction of the refracted ray, by Snell's law.
pub open spec fn refracted_direction(st: IntersectionState) -> Tuple {
    let n_ratio = div_spec(st.n1 as int, st.n2 as int);
    let cos_i = dot_spec(st.eyev, st.normalv);
    let sin2_t = mul_spec(mul_spec(n_ratio, n_ratio), sub_spec(SCALE as int, mul_spec(cos_i, cos_i)));
    let cos_t = sqrt_spec(sub_spec(SCALE as int, sin2_t));
    st.normalv.times(sub_spec(mul_spec(n_ratio, cos_i), cos_t)).minus(st.eyev.times(n_ratio))
}

impl World {
    pub open spec fn shapes(&self) -> Seq<Shape> {
        self.scene.view()
    }

    /// The scene is well formed, every object names a shape, and every
    /// refractive index is positive.
    pub open spec fn wf(&self) -> bool {
        &&& self.scene.wf()
        &&& forall|k: int| 0 <= k < self.objects@.len() ==> (#[trigger] self.objects@[k]) < self.shapes().len()
        &&& forall|i: int| (#[trigger] material_of(self.shapes(), i)).refractive_index > 0
    }

    pub open spec fn xs_spec(&self, ray: Ray) -> Seq<Intersection> {
        world_xs(self.shapes(), self.objects@, ray)
    }

    pub open spec fn shadowed_spec(&self, p: Tuple) -> bool {
        let lightv = self.light_source.position.minus(p);
        obstructed(
            raw_xs(self.shapes(), self.objects@, Ray { origin: p, direction: lightv.unit() }),
            lightv.length(),
        )
    }

    pub open spec fn color_spec(&self, ray: Ray, depth: nat) -> Color
        decreases depth, 2int,
    {
        let xs = self.xs_spec(ray);
        match nearest(xs) {
            None => Color::black_spec(),
            Some(hit) => self.shade_spec(state_spec(self.shapes(), ray, hit, sorted_xs(xs)), depth),
        }
    }

    pub open spec fn shade_spec(&self, st: IntersectionState, depth: nat) -> Color
        decreases depth, 1int,
    {
        let m = material_of(self.shapes(), st.object as int);
        let pattern_color = m.pattern.color_spec(world_to_object(self.shapes(), st.object as int, st.point));
        let surface = m.lighting_spec(pattern_color, self.light_source, st.point, st.eyev, st.normalv, self.shadowed_spec(st.over_point));
        let reflected = self.reflected_spec(st, depth);
        let refracted = self.refracted_spec(st, depth);
        if m.reflective > 0 && m.transparency > 0 {
            let r = schlick_spec(st);
            surface.plus(reflected.times(r)).plus(refracted.times(sub_spec(SCALE as int, r)))
        } else {
            surface.plus(reflected).plus(refracted)
        }
    }

    pub open spec fn reflected_spec(&self, st: IntersectionState, depth: nat) -> Color
        decreases depth, 0int,
    {
        let m = material_of(self.shapes(), st.object as int);
        if depth == 0 || negligible(m.reflective as int) {
            Color::black_spec()
        } else {
            self.color_spec(Ray { origin: st.over_point, direction: st.reflectv }, (depth - 1) as nat).times(m.reflective as int)
        }
    }

    pub open spec fn refracted_spec(&self, st: IntersectionState, depth: nat) -> Color
        decreases depth, 0int,
    {
        let m = material_of(self.shapes(), st.object as int);
        if depth == 0 || negligible(m.transparency as int) || total_internal(st) {
            Color::black_spec()
        } else {
            let ray = Ray { origin: st.under_point, direction: refracted_direction(st) };
            self.color_spec(ray, (depth - 1) as nat).times(m.transparency as int)
        }
    }
}

/// The intersection names a sphere of the scene.
pub open spec fn on_sphere(shapes: Seq<Shape>, x: Intersection) -> bool {
    x.object < shapes.len() && shapes[x.object as int].kind is Sphere
}

pub open spec fn all_on_spheres(shapes: Seq<Shape>, xs: Seq<Intersection>) -> bool {
    forall|j: int| 0 <= j < xs.len() ==> on_sphere(shapes, #[trigger] xs[j])
}

proof fn lemma_shape_xs_on_spheres(shapes: Seq<Shape>, i: int, ray: Ray)
    requires
        shapes.len() <= usize::MAX,
    ensures
        all_on_spheres(shapes, shape_xs(shapes, i, ray)),
    decreases shapes.len() - i, 1int, 0nat,
{
    if 0 <= i < shapes.len() {
        let local = ray.into_local(shapes[i].transform);
        match shapes[i].kind {
            ShapeKind::Sphere(_) => {
                let xs = shape_xs(shapes, i, ray);
                assert forall|j: int| 0 <= j < xs.len() implies on_sphere(shapes, #[trigger] xs[j]) by {
                    assert(xs[j].object == i as usize);
                }
            },
            ShapeKind::Group(g) => {
                lemma_children_xs_on_spheres(shapes, i, g.children@, local);
            },
        }
    }
}

proof fn lemma_children_xs_on_spheres(shapes: Seq<Shape>, i: int, cs: Seq<usize>, ray: Ray)
    requires
        shapes.len() <= usize::MAX,
    ensures
        all_on_spheres(shapes, children_xs(shapes, i, cs, ray)),
    decreases shapes.len() - i, 0int, cs.len(),
{
    if cs.len() > 0 && 0 <= i < shapes.len() {
        let c = cs.last() as int;
        lemma_children_xs_on_spheres(shapes, i, cs.drop_last(), ray);
        if i < c < shapes.len() {
            lemma_shape_xs_on_spheres(shapes, c, ray);
            let a = children_xs(shapes, i, cs.drop_last(), ray);
            let b = shape_xs(shapes, c, ray);
            assert forall|j: int| 0 <= j < (a + b).len() implies on_sphere(shapes, #[trigger] (a + b)[j]) by {
                if j < a.len() {
                    assert((a + b)[j] == a[j]);
                } else {
                    assert((a + b)[j] == b[j - a.len()]);
                }
            }
        }
    }
}

proof fn lemma_ahead_on_spheres(shapes: Seq<Shape>, xs: Seq<Intersection>)
    requires
        all_on_spheres(shapes, xs),
    ensures
        all_on_spheres(shapes, ahead(xs)),
    decreases xs.len(),
{
    if xs.len() > 0 {
        assert(all_on_spheres(shapes, xs.drop_last())) by {
            assert forall|j: int| 0 <= j < xs.drop_last().len() implies on_sphere(shapes, #[trigger] xs.drop_last()[j]) by {
                assert(xs.drop_last()[j] == xs[j]);
            }
        }
        lemma_ahead_on_spheres(shapes, xs.drop_last());
        assert(on_sphere(shapes, xs[xs.len() - 1]));
    }
}

proof fn lemma_world_xs_on_spheres(shapes: Seq<Shape>, objs: Seq<usize>, ray: Ray)
    requires
        shapes.len() <= usize::MAX,
    ensures
        all_on_spheres(shapes, world_xs(shapes, objs, ray)),
    decreases objs.len(),
{
    if objs.len() > 0 {
        lemma_world_xs_on_spheres(shapes, objs.drop_last(), ray);
        lemma_shape_xs_on_spheres(shapes, objs.last() as int, ray);
        lemma_ahead_on_spheres(shapes, shape_xs(shapes, objs.last() as int, ray));
        let a = world_xs(shapes, objs.drop_last(), ray);
        let b = ahead(shape_xs(shapes, objs.last() as int, ray));
        assert forall|j: int| 0 <= j < (a + b).len() implies on_sphere(shapes, #[trigger] (a + b)[j]) by {
            if j < a.len() {
                assert((a + b)[j] == a[j]);
            } else {
                assert((a + b)[j] == b[j - a.len()]);
            }
        }
    }
}

proof fn lemma_nearest_on_sphere(shapes: Seq<Shape>, xs: Seq<Intersection>)
    requires
        all_on_spheres(shapes, xs),
    ensures
        nearest(xs) matches Some(h) ==> on_sphere(shapes, h),
    decreases xs.len(),
{
    if xs.len() > 0 {
        assert(all_on_spheres(shapes, xs.drop_last())) by {
            assert forall|j: int| 0 <= j < xs.drop_last().len() implies on_sphere(shapes, #[trigger] xs.drop_last()[j]) by {
                assert(xs.drop_last()[j] == xs[j]);
            }
        }
        lemma_nearest_on_sphere(shapes, xs.drop_last());
        assert(on_sphere(shapes, xs[xs.len() - 1]));
    }
}

proof fn lemma_raw_prefix(shapes: Seq<Shape>, objs: Seq<usize>, m: int, ray: Ray)
    requires
        0 <= m <= objs.len(),
    ensures
        raw_xs(shapes, objs.take(m), ray).len() <= raw_xs(shapes, objs, ray).len(),
        forall|j: int| 0 <= j < raw_xs(shapes, objs.take(m), ray).len()
            ==> #[trigger] raw_xs(shapes, objs.take(m), ray)[j] == raw_xs(shapes, objs, ray)[j],
    decreases objs.len(),
{
    if m == objs.len() {
        assert(objs.take(m) =~= objs);
    } else {
        assert(objs.drop_last().take(m) =~= objs.take(m));
        lemma_raw_prefix(shapes, objs.drop_last(), m, ray);
    }
}

/// Every intersection ahead of the ray has a non-negative parameter.
proof fn lemma_world_xs_ahead(shapes: Seq<Shape>, objs: Seq<usize>, ray: Ray)
    ensures
        forall|j: int| 0 <= j < world_xs(shapes, objs, ray).len() ==> #[trigger] world_xs(shapes, objs, ray)[j].t >= 0,
    decreases objs.len(),
{
    if objs.len() > 0 {
        lemma_world_xs_ahead(shapes, objs.drop_last(), ray);
        lemma_ahead_nonneg(shape_xs(shapes, objs.last() as int, ray));
        let a = world_xs(shapes, objs.drop_last(), ray);
        let b = ahead(shape_xs(shapes, objs.last() as int, ray));
        assert forall|j: int| 0 <= j < (a + b).len() implies #[trigger] (a + b)[j].t >= 0 by {
            if j < a.len() {
                assert((a + b)[j] == a[j]);
            } else {
                assert((a + b)[j] == b[j - a.len()]);
            }
        }
    }
}

proof fn lemma_ahead_nonneg(xs: Seq<Intersection>)
    ensures
        forall|j: int| 0 <= j < ahead(xs).len() ==> #[trigger] ahead(xs)[j].t >= 0,
    decreases xs.len(),
{
    if xs.len() > 0 {
        let a = ahead(xs.drop_last());
        lemma_ahead_nonneg(xs.drop_last());
        assert forall|j: int| 0 <= j < a.push(xs.last()).len() && j < a.len() implies #[trigger] a.push(xs.last())[j] == a[j] by {}
    }
}

fn insert_sorted(s: &mut Vec<Intersection>, x: Intersection)
    ensures
        final(s)@ == old(s)@.insert(slot(old(s)@, x.t as int), x),
{
    let mut j: usize = 0;
    assert(s@.subrange(0, s@.len() as int) =~= s@);
    while j < s.len() && s[j].t <= x.t
        invariant
            j <= s@.len(),
            slot(s@, x.t as int) == j + slot(s@.subrange(j as int, s@.len() as int), x.t as int),
        decreases s@.len() - j,
    {
        assert(s@.subrange(j as int, s@.len() as int).drop_first() =~= s@.subrange(j as int + 1, s@.len() as int));
        j = j + 1;
    }
    if j == s.len() {
        assert(s@.subrange(j as int, s@.len() as int).len() == 0);
    }
    s.insert(j, x);
}

impl World {
    /// The nearest intersection ahead of the ray (of equal ones, the first found,
    /// objects in order), and every intersection ahead of it sorted by parameter.
    pub fn intersections(&self, ray: &Ray) -> (r: (Option<Intersection>, Vec<Intersection>))
        requires
            self.wf(),
        ensures
            r.0 == nearest(self.xs_spec(*ray)),
            r.0 is None <==> self.xs_spec(*ray).len() == 0,
            r.0 matches Some(h) ==> self.xs_spec(*ray).contains(h)
                && forall|j: int| 0 <= j < self.xs_spec(*ray).len() ==> h.t <= #[trigger] self.xs_spec(*ray)[j].t,
            r.1@ == sorted_xs(self.xs_spec(*ray)),
            is_sorted(r.1@),
            r.1@.to_multiset() == self.xs_spec(*ray).to_multiset(),
    {
        let ghost shapes = self.shapes();
        let ghost objs = self.objects@;
        let mut all: Vec<Intersection> = Vec::new();
        let mut sorted: Vec<Intersection> = Vec::new();
        let mut k: usize = 0;
        while k < self.objects.len()
            invariant
                self.wf(),
                shapes == self.shapes(),
                objs == self.objects@,
                k <= objs.len(),
                all@ == world_xs(shapes, objs.take(k as int), *ray),
                sorted@ == sorted_xs(all@),
            decreases objs.len() - k,
        {
            let o = self.objects[k];
            let xs = self.scene.intersect(o, ray);
            let ghost before = all@;
            let mut j: usize = 0;
            while j < xs.len()
                invariant
                    j <= xs@.len(),
                    all@ == before + ahead(xs@.take(j as int)),
                    sorted@ == sorted_xs(all@),
                decreases xs@.len() - j,
            {
                let x = xs[j];
                assert(xs@.take(j as int + 1).drop_last() =~= xs@.take(j as int));
                if x.t >= 0 {
                    let ghost a = all@;
                    all.push(x);
                    assert(all@.drop_last() =~= a);
                    insert_sorted(&mut sorted, x);
                    assert(all@ =~= before + ahead(xs@.take(j as int + 1)));
                }
                j = j + 1;
            }
            assert(xs@.take(j as int) =~= xs@);
            assert(objs.take(k as int + 1).drop_last() =~= objs.take(k as int));
            k = k + 1;
        }
        assert(objs.take(k as int) =~= objs);
        proof {
            lemma_sorted_xs(all@);
            lemma_nearest(all@);
            lemma_world_xs_ahead(shapes, objs, *ray);
        }
        (find_nearest(&all), sorted)
    }

    /// Whether some intersection of the ray lies at a parameter in `[0, distance)`;
    /// stops at the first one found.
    pub fn is_ray_obstructed(&self, ray: &Ray, distance: i64) -> (b: bool)
        requires
            self.wf(),
        ensures
            b == obstructed(raw_xs(self.shapes(), self.objects@, *ray), distance as int),
    {
        let ghost shapes = self.shapes();
        let ghost objs = self.objects@;
        let ghost full = raw_xs(shapes, objs, *ray);
        let mut k: usize = 0;
        while k < self.objects.len()
            invariant
                self.wf(),
                shapes == self.shapes(),
                objs == self.objects@,
                full == raw_xs(shapes, objs, *ray),
                k <= objs.len(),
                !obstructed(raw_xs(shapes, objs.take(k as int), *ray), distance as int),
            decreases objs.len() - k,
        {
            let o = self.objects[k];
            let xs = self.scene.intersect(o, ray);
            let ghost before = raw_xs(shapes, objs.take(k as int), *ray);
            assert(objs.take(k as int + 1).drop_last() =~= objs.take(k as int));
            assert(raw_xs(shapes, objs.take(k as int + 1), *ray) == before + xs@);
            let mut j: usize = 0;
            while j < xs.len()
                invariant
                    j <= xs@.len(),
                    k < objs.len(),
                    shapes == self.shapes(),
                    objs == self.objects@,
                    full == raw_xs(shapes, objs, *ray),
                    raw_xs(shapes, objs.take(k as int + 1), *ray) == before + xs@,
                    forall|m: int| 0 <= m < j ==> !(0 <= (#[trigger] xs@[m]).t < distance),
                decreases xs@.len() - j,
            {
                let t = xs[j].t;
                if t >= 0 && t < distance {
                    proof {
                        let pre = raw_xs(shapes, objs.take(k as int + 1), *ray);
                        let w = before.len() + j;
                        assert(pre[w] == xs@[j as int]);
                        lemma_raw_prefix(shapes, objs, k as int + 1, *ray);
                        assert(full[w] == xs@[j as int]);
                        assert(0 <= full[w].t < distance as int);
                    }
                    return true;
                }
                j = j + 1;
            }
            proof {
                let pre = raw_xs(shapes, objs.take(k as int + 1), *ray);
                assert forall|m: int| 0 <= m < pre.len() implies !(0 <= (#[trigger] pre[m]).t < distance) by {
                    if m < before.len() {
                        assert(pre[m] == before[m]);
                    } else {
                        assert(pre[m] == xs@[m - before.len()]);
                    }
                }
            }
            k = k + 1;
        }
        assert(objs.take(k as int) =~= objs);
        false
    }
}

impl IntersectionState {
    /// The share of light that the surface reflects rather than refracts
    /// (Schlick's approximation), in fixed point.
    pub fn schlick(&self) -> (r: i64)
        requires
            self.n1 > 0,
            self.n2 > 0,
        ensures
            r == schlick_spec(*self),
            0 <= r <= SCALE,
    {
        let cos = self.eyev.dot(&self.normalv);
        let n1 = self.n1;
        let n2 = self.n2;
        let mut c = cos;
        if n1 > n2 {
            let n = fixed::div(n1, n2);
            let sin2_t = fixed::mul(fixed::mul(n, n), fixed::sub(SCALE, fixed::mul(cos, cos)));
            if sin2_t > SCALE {
                return SCALE;
            }
            c = fixed::sqrt(fixed::sub(SCALE, sin2_t));
        }
        let q = fixed::div(fixed::sub(n1, n2), fixed::add(n1, n2));
        let r0 = fixed::mul(q, q);
        let r = fixed::add(r0, fixed::mul(fixed::sub(SCALE, r0), pow(fixed::sub(SCALE, c), 5)));
        if r < 0 {
            0
        } else if r > SCALE {
            SCALE
        } else {
            r
        }
    }
}

impl World {
    /// Whether something lies between `point` and the light, closer than the light.
    pub fn is_shadowed(&self, point: &Tuple) -> (b: bool)
        requires
            self.wf(),
        ensures
            b == self.shadowed_spec(*point),
    {
        let lightv = self.light_source.position.sub(point);
        let distance = lightv.magnitude();
        let direction = lightv.normalize();
        self.is_ray_obstructed(&Ray { origin: *point, direction }, distance)
    }

    /// The color seen along `ray`: black where it hits nothing, otherwise the
    /// shaded color of the nearest hit, with up to `depth` further bounces.
    pub fn color_at(&self, ray: &Ray, depth: u8) -> (c: Color)
        requires
            self.wf(),
        ensures
            c == self.color_spec(*ray, depth as nat),
        decreases depth, 2int,
    {
        let (hit, xs) = self.intersections(ray);
        match hit {
            None => Color::black(),
            Some(h) => {
                proof {
                    lemma_world_xs_on_spheres(self.shapes(), self.objects@, *ray);
                    lemma_nearest_on_sphere(self.shapes(), self.xs_spec(*ray));
                }
                let st = ray.intersection_state(&h, &xs, &self.scene);
                self.shade_hit(&st, depth)
            },
        }
    }

    /// The color at a hit: direct light (ambient only when shadowed) plus the
    /// reflected and refracted colors, blended by Fresnel reflectance when the
    /// surface is both reflective and transparent.
    pub fn shade_hit(&self, st: &IntersectionState, depth: u8) -> (c: Color)
        requires
            self.wf(),
            st.object < self.shapes().len(),
            self.shapes()[st.object as int].kind is Sphere,
            st.n1 > 0,
            st.n2 > 0,
        ensures
            c == self.shade_spec(*st, depth as nat),
        decreases depth, 1int,
    {
        let m = self.scene.material(st.object);
        let object_point = self.scene.world_to_object(st.object, &st.point);
        let pattern_color = m.pattern.color_at(&object_point);
        let shadowed = self.is_shadowed(&st.over_point);
        let surface = m.lighting(&pattern_color, &self.light_source, &st.point, &st.eyev, &st.normalv, shadowed);
        let reflected = self.reflected_color(st, depth);
        let refracted = self.refracted_color(st, depth);
        if m.reflective > 0 && m.transparency > 0 {
            let r = st.schlick();
            surface.add(&reflected.scale(r)).add(&refracted.scale(fixed::sub(SCALE, r)))
        } else {
            surface.add(&reflected).add(&refracted)
        }
    }

    /// The color reflected at a hit: black at depth 0 or where the reflective
    /// coefficient is negligible, else the color seen along the reflected ray,
    /// scaled by reflectivity.
    pub fn reflected_color(&self, st: &IntersectionState, depth: u8) -> (c: Color)
        requires
            self.wf(),
        ensures
            c == self.reflected_spec(*st, depth as nat),
            depth == 0 ==> c == Color::black_spec(),
            negligible(material_of(self.shapes(), st.object as int).reflective as int) ==> c == Color::black_spec(),
        decreases depth, 0int,
    {
        let m = material_at(&self.scene, st.object);
        if depth == 0 || (-EPSILON < m.reflective && m.reflective < EPSILON) {
            return Color::black();
        }
        let ray = Ray { origin: st.over_point, direction: st.reflectv };
        self.color_at(&ray, depth - 1).scale(m.reflective)
    }

    /// The color refracted at a hit: black at depth 0, where the transparency
    /// is negligible, or under total internal reflection; else the color seen
    /// along the refracted ray, scaled by transparency.
    pub fn refracted_color(&self, st: &IntersectionState, depth: u8) -> (c: Color)
        requires
            self.wf(),
            depth > 0 ==> st.n2 != 0,
        ensures
            c == self.refracted_spec(*st, depth as nat),
            depth == 0 ==> c == Color::black_spec(),
            negligible(material_of(self.shapes(), st.object as int).transparency as int) ==> c == Color::black_spec(),
            total_internal(*st) ==> c == Color::black_spec(),
        decreases depth, 0int,
    {
        let m = material_at(&self.scene, st.object);
        if depth == 0 || (-EPSILON < m.transparency && m.transparency < EPSILON) {
            return Color::black();
        }
        let n_ratio = fixed::div(st.n1, st.n2);
        let cos_i = st.eyev.dot(&st.normalv);
        let sin2_t = fixed::mul(fixed::mul(n_ratio, n_ratio), fixed::sub(SCALE, fixed::mul(cos_i, cos_i)));
        if sin2_t > SCALE {
            return Color::black();
        }
        let cos_t = fixed::sqrt(fixed::sub(SCALE, sin2_t));
        let direction = st.normalv.scale(fixed::sub(fixed::mul(n_ratio, cos_i), cos_t)).sub(&st.eyev.scale(n_ratio));
        let ray = Ray { origin: st.under_point, direction };
        self.color_at(&ray, depth - 1).scale(m.transparency)
    }
}

impl World {
    pub open spec fn default_first_material() -> Material {
        Material {
            pattern: Pattern::Flat(Color { r: 800_000, g: SCALE, b: 600_000 }),
            diffuse: 700_000,
            specular: 200_000,
            ..Material::default_spec()
        }
    }

    /// Two concentric spheres, the outer of radius 1 and green-yellow, the inner
    /// of radius one half, lit in white from `(-10, 10, -10)`.
    pub fn default() -> (w: World)
        ensures
            w.wf(),
            w.shapes() == seq![
                Shape {
                    transform: Transform::identity_spec(),
                    parent: None,
                    kind: ShapeKind::Sphere(Sphere { material: World::default_first_material() }),
                },
                Shape {
                    transform: Transform::scaling_spec(500_000, 500_000, 500_000),
                    parent: None,
                    kind: ShapeKind::Sphere(Sphere { material: Material::default_spec() }),
                },
            ],
            w.objects@ == seq![0usize, 1usize],
            w.light_source == (PointLight {
                position: Tuple { x: -10_000_000i64, y: 10_000_000i64, z: -10_000_000i64 },
                intensity: Color { r: SCALE, g: SCALE, b: SCALE },
            }),
    {
        let mut scene = Scene::new();
        let first = Material {
            pattern: Pattern::Flat(Color::new(800_000, SCALE, 600_000)),
            diffuse: 700_000,
            specular: 200_000,
            ..Material::new()
        };
        let a = scene.add_sphere(Transform::identity(), first);
        let b = scene.add_sphere(Transform::scaling(500_000, 500_000, 500_000), Material::new());
        let w = World {
            scene,
            objects: vec![a, b],
            light_source: PointLight::new(Tuple::new(-10_000_000, 10_000_000, -10_000_000), Color::white()),
        };
        proof {
            assert(w.shapes() =~= seq![
                Shape {
                    transform: Transform::identity_spec(),
                    parent: None,
                    kind: ShapeKind::Sphere(Sphere { material: World::default_first_material() }),
                },
                Shape {
                    transform: Transform::scaling_spec(500_000, 500_000, 500_000),
                    parent: None,
                    kind: ShapeKind::Sphere(Sphere { material: Material::default_spec() }),
                },
            ]);
            assert(w.objects@ =~= seq![0usize, 1usize]);
            assert forall|i: int| (#[trigger] material_of(w.shapes(), i)).refractive_index > 0 by {}
        }
        w
    }

    /// Whether every sphere of `shapes` has a positive refractive index.
    pub open spec fn indices_positive(shapes: Seq<Shape>) -> bool {
        forall|i: int| 0 <= i < shapes.len() ==> ((#[trigger] shapes[i]).kind matches ShapeKind::Sphere(sp) ==> sp.material.refractive_index > 0)
    }

    /// A world over `scene` that casts rays against `objects` in order, lit by
    /// `light_source`; `None` when an object names no shape or a sphere has a
    /// refractive index that is not positive.
    pub fn new(scene: Scene, objects: Vec<usize>, light_source: PointLight) -> (r: Option<World>)
        requires
            scene.wf(),
        ensures
            r is Some <==> (forall|k: int| 0 <= k < objects@.len() ==> (#[trigger] objects@[k]) < scene.view().len())
                && World::indices_positive(scene.view()),
            r matches Some(w) ==> w.wf() && w.shapes() == scene.view() && w.objects@ == objects@ && w.light_source == light_source,
    {
        let mut k: usize = 0;
        while k < objects.len()
            invariant
                k <= objects@.len(),
                forall|m: int| 0 <= m < k ==> (#[trigger] objects@[m]) < scene.view().len(),
            decreases objects@.len() - k,
        {
            if objects[k] >= scene.len() {
                return None;
            }
            k = k + 1;
        }
        let mut i: usize = 0;
        while i < scene.len()
            invariant
                i <= scene.view().len(),
                forall|m: int| 0 <= m < i ==> ((#[trigger] scene.view()[m]).kind matches ShapeKind::Sphere(sp) ==> sp.material.refractive_index > 0),
            decreases scene.view().len() - i,
        {
            match &scene.shape(i).kind {
                ShapeKind::Sphere(sp) => {
                    if sp.material.refractive_index <= 0 {
                        return None;
                    }
                },
                ShapeKind::Group(_) => {},
            }
            i = i + 1;
        }
        let w = World { scene, objects, light_source };
        proof {
            assert forall|i: int| (#[trigger] material_of(w.shapes(), i)).refractive_index > 0 by {
                if 0 <= i < w.shapes().len() {
                    assert(w.shapes()[i] == scene.view()[i]);
                }
            }
        }
        Some(w)
    }
}

} // verus!
