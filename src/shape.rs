//! Shapes kept in an arena: each shape is named by its index, a group lists
//! the indices of its children, and a child names its parent.
use crate::fixed;
use crate::fixed::{add_spec, div_spec, mul_spec, sat, sqrt_spec, sub_spec, SCALE};
use crate::material::Material;
use crate::matrix::Transform;
use crate::ray::{Intersection, Ray};
use crate::tuple::{dot_spec, lemma_square_nonneg, Tuple};
use vstd::prelude::*;

verus! {

/// The unit sphere centred at the origin of its own space.
#[derive(Clone, Copy, Debug, PartialEq, Eq, Structural)]
pub struct Sphere {
    pub material: Material,
}

/// A shape with no surface of its own, made of its children.
#[derive(Debug)]
pub struct Group {
    pub children: Vec<usize>,
}

#[derive(Debug)]
pub enum ShapeKind {
    Sphere(Sphere),
    Group(Group),
}

/// A shape in a scene: its object-to-parent transform, its parent group if any, and what it is.
#[derive(Debug)]
pub struct Shape {
    pub transform: Transform,
    pub parent: Option<usize>,
    pub kind: ShapeKind,
}

/// The shapes of a scene; a shape's index is its identity.
#[derive(Debug)]
pub struct Scene {
    shapes: Vec<Shape>,
}

/// Why a child could not be attached to a group.
#[derive(Clone, Copy, Debug, PartialEq, Eq, Structural)]
pub enum SceneError {
    /// An index names no shape of the scene.
    NoSuchShape,
    /// The would-be parent is not a group.
    NotAGroup,
    /// The child already has a parent.
    AlreadyAttached,
    /// The child was not created after the group; children always come later,
    /// so that the hierarchy has no cycle.
    ChildNotAfterGroup,
}

pub open spec fn children_of(s: Shape) -> Seq<usize> {
    match s.kind {
        ShapeKind::Group(g) => g.children@,
        ShapeKind::Sphere(_) => Seq::empty(),
    }
}

pub open spec fn is_group(s: Shape) -> bool {
    s.kind is Group
}

/// The ray parameters at which a ray in sphere space meets the unit sphere:
/// the two roots of `a t^2 + b t + c`, smaller first, or none.
pub open spec fn sphere_roots(r: Ray) -> Seq<int> {
    let a = dot_spec(r.direction, r.direction);
    let half_b = dot_spec(r.direction, r.origin);
    let b = add_spec(half_b, half_b);
    let c = sub_spec(dot_spec(r.origin, r.origin), SCALE as int);
    let disc = sub_spec(mul_spec(b, b), mul_spec(mul_spec(a, c), 4 * SCALE as int));
    if a == 0 || disc < 0 {
        Seq::empty()
    } else {
        let root = sqrt_spec(disc);
        let two_a = add_spec(a, a);
        let neg_b = sat(-b);
        seq![div_spec(sub_spec(neg_b, root), two_a), div_spec(add_spec(neg_b, root), two_a)]
    }
}

pub open spec fn tag(ts: Seq<int>, i: int) -> Seq<Intersection> {
    ts.map(|k: int, t: int| Intersection { t: t as i64, object: i as usize })
}

/// Every intersection of a world-space `ray` with shape `i` and, for a group,
/// with its descendants, children in order.
pub open spec fn shape_xs(shapes: Seq<Shape>, i: int, ray: Ray) -> Seq<Intersection>
    decreases shapes.len() - i, 1int, 0nat,
{
    if 0 <= i < shapes.len() {
        let local = ray.into_local(shapes[i].transform);
        match shapes[i].kind {
            ShapeKind::Sphere(_) => tag(sphere_roots(local), i),
            ShapeKind::Group(g) => children_xs(shapes, i, g.children@, local),
        }
    } else {
        Seq::empty()
    }
}

/// The intersections of the children `cs` of group `i`, given the ray in the group's space.
pub open spec fn children_xs(shapes: Seq<Shape>, i: int, cs: Seq<usize>, ray: Ray) -> Seq<Intersection>
    decreases shapes.len() - i, 0int, cs.len(),
{
    if cs.len() == 0 || !(0 <= i < shapes.len()) {
        Seq::empty()
    } else {
        let c = cs.last() as int;
        let rest = children_xs(shapes, i, cs.drop_last(), ray);
        if i < c < shapes.len() {
            rest + shape_xs(shapes, c, ray)
        } else {
            rest
        }
    }
}

/// A world point in the space of shape `i`: each ancestor, root first, undoes its transform.
pub open spec fn world_to_object(shapes: Seq<Shape>, i: int, p: Tuple) -> Tuple
    decreases i,
{
    if 0 <= i < shapes.len() {
        let up = match shapes[i].parent {
            Some(q) => if (q as int) < i { world_to_object(shapes, q as int, p) } else { p },
            None => p,
        };
        shapes[i].transform.inverse.on_point(up)
    } else {
        p
    }
}

/// A normal in the space of shape `i` carried out to world space, renormalized at each level.
pub open spec fn normal_to_world(shapes: Seq<Shape>, i: int, n: Tuple) -> Tuple
    decreases i,
{
    if 0 <= i < shapes.len() {
        let m = shapes[i].transform.inverse.transposed().on_vector(n).unit();
        match shapes[i].parent {
            Some(q) => if (q as int) < i { normal_to_world(shapes, q as int, m) } else { m },
            None => m,
        }
    } else {
        n
    }
}

/// The world-space normal of sphere `i` at world point `p`.
pub open spec fn normal_spec(shapes: Seq<Shape>, i: int, p: Tuple) -> Tuple {
    normal_to_world(shapes, i, world_to_object(shapes, i, p))
}

impl Scene {
    pub closed spec fn view(&self) -> Seq<Shape> {
        self.shapes@
    }

    /// Parents come before their children and name them; children name their
    /// parent, come after it, and are listed once.
    pub open spec fn wf(&self) -> bool {
        let s = self.view();
        &&& s.len() <= usize::MAX
        &&& forall|i: int| 0 <= i < s.len() && (#[trigger] s[i]).parent is Some ==> {
            let p = s[i].parent->Some_0 as int;
            &&& p < i
            &&& is_group(s[p])
            &&& children_of(s[p]).contains(i as usize)
        }
        &&& forall|i: int| 0 <= i < s.len() ==> (#[trigger] children_of(s[i])).no_duplicates()
        &&& forall|i: int, j: int| 0 <= i < s.len() && 0 <= j < children_of(s[i]).len() ==> {
            let c = (#[trigger] children_of(s[i])[j]) as int;
            &&& i < c < s.len()
            &&& s[c].parent == Some(i as usize)
        }
    }

    /// An empty scene.
    pub fn new() -> (s: Scene)
        ensures
            s.view() == Seq::<Shape>::empty(),
            s.wf(),
    {
        Scene { shapes: Vec::new() }
    }

    pub fn len(&self) -> (n: usize)
        ensures
            n == self.view().len(),
    {
        self.shapes.len()
    }

    /// The shape with index `i`.
    pub fn shape(&self, i: usize) -> (s: &Shape)
        requires
            i < self.view().len(),
        ensures
            *s == self.view()[i as int],
    {
        &self.shapes[i]
    }

    fn push(&mut self, s: Shape) -> (id: usize)
        requires
            old(self).wf(),
            old(self).view().len() < usize::MAX,
            s.parent is None,
            children_of(s).len() == 0,
        ensures
            final(self).view() == old(self).view().push(s),
            id == old(self).view().len(),
            final(self).wf(),
    {
        let id = self.shapes.len();
        self.shapes.push(s);
        proof {
            let o = old(self).view();
            let n = self.view();
            assert forall|i: int| 0 <= i < n.len() && (#[trigger] n[i]).parent is Some implies {
                let p = n[i].parent->Some_0 as int;
                &&& p < i
                &&& is_group(n[p])
                &&& children_of(n[p]).contains(i as usize)
            } by {
                assert(i < o.len());
                assert(o[i] == n[i]);
            }
            assert forall|i: int, j: int| 0 <= i < n.len() && 0 <= j < children_of(n[i]).len() implies {
                let c = (#[trigger] children_of(n[i])[j]) as int;
                &&& i < c < n.len()
                &&& n[c].parent == Some(i as usize)
            } by {
                assert(i < o.len());
                assert(o[i] == n[i]);
                let c = children_of(o[i])[j] as int;
                assert(o[c] == n[c]);
            }
        }
        id
    }

    /// Adds a sphere with no parent; its index is returned.
    pub fn add_sphere(&mut self, transform: Transform, material: Material) -> (id: usize)
        requires
            old(self).wf(),
            old(self).view().len() < usize::MAX,
        ensures
            final(self).view() == old(self).view().push(Shape { transform, parent: None, kind: ShapeKind::Sphere(Sphere { material }) }),
            id == old(self).view().len(),
            final(self).wf(),
    {
        self.push(Shape { transform, parent: None, kind: ShapeKind::Sphere(Sphere { material }) })
    }

    /// Adds an empty group with no parent; its index is returned.
    pub fn add_group(&mut self, transform: Transform) -> (id: usize)
        requires
            old(self).wf(),
            old(self).view().len() < usize::MAX,
        ensures
            final(self).view().len() == old(self).view().len() + 1,
            final(self).view().take(old(self).view().len() as int) == old(self).view(),
            final(self).view().last().transform == transform,
            final(self).view().last().parent is None,
            is_group(final(self).view().last()),
            children_of(final(self).view().last()) == Seq::<usize>::empty(),
            id == old(self).view().len(),
            final(self).wf(),
    {
        let id = self.push(Shape { transform, parent: None, kind: ShapeKind::Group(Group { children: Vec::new() }) });
        proof {
            assert(self.view().take(old(self).view().len() as int) =~= old(self).view());
        }
        id
    }

    /// Makes `child` a child of `group`: the child's parent becomes the group and
    /// the child is appended once to the group's children. Fails, changing nothing,
    /// when an index is out of range, `group` is not a group, `child` already has
    /// a parent, or `child` does not come after `group`.
    pub fn add_child(&mut self, group: usize, child: usize) -> (r: Result<(), SceneError>)
        requires
            old(self).wf(),
        ensures
            final(self).wf(),
            ({
                let o = old(self).view();
                &&& (group >= o.len() || child >= o.len()) ==> r == Err::<(), SceneError>(SceneError::NoSuchShape)
                &&& (group < o.len() && child < o.len() && !is_group(o[group as int])) ==> r == Err::<(), SceneError>(SceneError::NotAGroup)
                &&& (group < o.len() && child < o.len() && is_group(o[group as int]) && o[child as int].parent is Some)
                    ==> r == Err::<(), SceneError>(SceneError::AlreadyAttached)
                &&& (group < o.len() && child < o.len() && is_group(o[group as int]) && o[child as int].parent is None && child <= group)
                    ==> r == Err::<(), SceneError>(SceneError::ChildNotAfterGroup)
                &&& (group < o.len() && child < o.len() && is_group(o[group as int]) && o[child as int].parent is None && group < child)
                    ==> r is Ok
            }),
            r is Err ==> final(self).view() == old(self).view(),
            r is Ok ==> {
                let o = old(self).view();
                let n = final(self).view();
                &&& n.len() == o.len()
                &&& n[child as int].parent == Some(group)
                &&& n[child as int].transform == o[child as int].transform
                &&& n[group as int].transform == o[group as int].transform
                &&& is_group(n[group as int])
                &&& children_of(n[group as int]) == children_of(o[group as int]).push(child)
                &&& forall|k: int| 0 <= k < n.len() && k != child && k != group ==> n[k] == o[k]
            },
    {
        if group >= self.shapes.len() || child >= self.shapes.len() {
            return Err(SceneError::NoSuchShape);
        }
        if !matches!(self.shapes[group].kind, ShapeKind::Group(_)) {
            return Err(SceneError::NotAGroup);
        }
        if self.shapes[child].parent.is_some() {
            return Err(SceneError::AlreadyAttached);
        }
        if child <= group {
            return Err(SceneError::ChildNotAfterGroup);
        }
        let ghost o = self.view();
        proof {
            // The child has no parent, so no group lists it yet.
            if children_of(o[group as int]).contains(child) {
                let j = children_of(o[group as int]).index_of(child);
                assert(o[child as int].parent == Some(group));
            }
        }
        self.shapes[child].parent = Some(group);
        match &mut self.shapes[group].kind {
            ShapeKind::Group(g) => {
                g.children.push(child);
            },
            ShapeKind::Sphere(_) => {},
        }
        proof {
            let n = self.view();
            assert(children_of(n[group as int]) == children_of(o[group as int]).push(child));
            assert forall|i: int| 0 <= i < n.len() && (#[trigger] n[i]).parent is Some implies {
                let p = n[i].parent->Some_0 as int;
                &&& p < i
                &&& is_group(n[p])
                &&& children_of(n[p]).contains(i as usize)
            } by {
                if i != child {
                    assert(n[i].parent == o[i].parent);
                    let p = n[i].parent->Some_0 as int;
                    if p == group {
                        let j = children_of(o[p]).index_of(i as usize);
                        assert(children_of(n[p])[j] == i as usize);
                    }
                } else {
                    assert(children_of(n[group as int]).last() == child);
                }
            }
            assert forall|i: int| 0 <= i < n.len() implies (#[trigger] children_of(n[i])).no_duplicates() by {
                if i != group {
                    assert(children_of(n[i]) == children_of(o[i]));
                }
            }
            assert forall|i: int, j: int| 0 <= i < n.len() && 0 <= j < children_of(n[i]).len() implies {
                let c = (#[trigger] children_of(n[i])[j]) as int;
                &&& i < c < n.len()
                &&& n[c].parent == Some(i as usize)
            } by {
                if i != group {
                    assert(children_of(n[i]) == children_of(o[i]));
                    let c = children_of(o[i])[j] as int;
                    assert(c != child);
                } else if j < children_of(o[i]).len() {
                    assert(children_of(n[i])[j] == children_of(o[i])[j]);
                }
            }
        }
        Ok(())
    }

    /// The parent group of shape `i`, if any.
    pub fn parent(&self, i: usize) -> (p: Option<usize>)
        requires
            i < self.view().len(),
        ensures
            p == self.view()[i as int].parent,
    {
        self.shapes[i].parent
    }

    /// The children of shape `i`, in the order they were attached; a sphere has none.
    pub fn children(&self, i: usize) -> (cs: &[usize])
        requires
            i < self.view().len(),
        ensures
            cs@ == children_of(self.view()[i as int]),
    {
        match &self.shapes[i].kind {
            ShapeKind::Group(g) => g.children.as_slice(),
            ShapeKind::Sphere(_) => &[],
        }
    }

    pub fn transform(&self, i: usize) -> (t: Transform)
        requires
            i < self.view().len(),
        ensures
            t == self.view()[i as int].transform,
    {
        self.shapes[i].transform
    }

    /// Replaces the transform of shape `i`; nothing else changes.
    pub fn set_transform(&mut self, i: usize, t: Transform)
        requires
            old(self).wf(),
            i < old(self).view().len(),
        ensures
            final(self).wf(),
            final(self).view().len() == old(self).view().len(),
            final(self).view()[i as int].transform == t,
            final(self).view()[i as int].parent == old(self).view()[i as int].parent,
            final(self).view()[i as int].kind == old(self).view()[i as int].kind,
            forall|k: int| 0 <= k < old(self).view().len() && k != i ==> final(self).view()[k] == old(self).view()[k],
    {
        let ghost o = self.view();
        self.shapes[i].transform = t;
        proof {
            let n = self.view();
            assert forall|k: int| 0 <= k < n.len() implies #[trigger] children_of(n[k]) == children_of(o[k]) && n[k].parent == o[k].parent && is_group(n[k]) == is_group(o[k]) by {}
        }
    }

    /// The material of sphere `i`; a group has none.
    pub fn material(&self, i: usize) -> (m: Material)
        requires
            i < self.view().len(),
            self.view()[i as int].kind is Sphere,
        ensures
            m == self.view()[i as int].kind->Sphere_0.material,
    {
        match &self.shapes[i].kind {
            ShapeKind::Sphere(sp) => sp.material,
            ShapeKind::Group(_) => Material::new(),
        }
    }

    /// Replaces the material of sphere `i`; nothing else changes.
    pub fn set_material(&mut self, i: usize, m: Material)
        requires
            old(self).wf(),
            i < old(self).view().len(),
            old(self).view()[i as int].kind is Sphere,
        ensures
            final(self).wf(),
            final(self).view() == old(self).view().update(i as int, Shape {
                transform: old(self).view()[i as int].transform,
                parent: old(self).view()[i as int].parent,
                kind: ShapeKind::Sphere(Sphere { material: m }),
            }),
    {
        let ghost o = self.view();
        self.shapes[i].kind = ShapeKind::Sphere(Sphere { material: m });
        proof {
            let n = self.view();
            assert(n =~= o.update(i as int, Shape { transform: o[i as int].transform, parent: o[i as int].parent, kind: ShapeKind::Sphere(Sphere { material: m }) }));
            assert forall|k: int| 0 <= k < n.len() implies #[trigger] children_of(n[k]) == children_of(o[k]) && n[k].parent == o[k].parent && is_group(n[k]) == is_group(o[k]) by {}
        }
    }

    /// The parameters at which a ray, already in the sphere's space, meets the unit sphere.
    pub fn sphere_intersections(local: &Ray) -> (ts: Vec<i64>)
        ensures
            ts@.map_values(|t: i64| t as int) == sphere_roots(*local),
    {
        let d = local.direction;
        let o = local.origin;
        let a = d.dot(&d);
        let half_b = d.dot(&o);
        let b = fixed::add(half_b, half_b);
        let c = fixed::sub(o.dot(&o), SCALE);
        let disc = fixed::sub(fixed::mul(b, b), fixed::mul(fixed::mul(a, c), 4 * SCALE));
        if a == 0 || disc < 0 {
            let v: Vec<i64> = Vec::new();
            assert(v@.map_values(|t: i64| t as int) =~= sphere_roots(*local));
            v
        } else {
            proof {
                lemma_square_nonneg(d.x as int);
                lemma_square_nonneg(d.y as int);
                lemma_square_nonneg(d.z as int);
            }
            let root = fixed::sqrt(disc);
            let two_a = fixed::add(a, a);
            let neg_b = fixed::neg(b);
            let v = vec![fixed::div(fixed::sub(neg_b, root), two_a), fixed::div(fixed::add(neg_b, root), two_a)];
            assert(v@.map_values(|t: i64| t as int) =~= sphere_roots(*local));
            v
        }
    }

    /// Every intersection of a world-space ray with shape `i`, or, for a group,
    /// with the shapes below it, each tagged with the shape it meets; in no
    /// particular order.
    pub fn intersect(&self, i: usize, ray: &Ray) -> (xs: Vec<Intersection>)
        requires
            i < self.view().len(),
        ensures
            xs@ == shape_xs(self.view(), i as int, *ray),
        decreases self.view().len() - i,
    {
        let local = ray.inverse_transform(&self.shapes[i].transform);
        match &self.shapes[i].kind {
            ShapeKind::Sphere(_) => {
                let ts = Self::sphere_intersections(&local);
                let mut xs: Vec<Intersection> = Vec::new();
                let mut k: usize = 0;
                while k < ts.len()
                    invariant
                        k <= ts@.len(),
                        xs@ == tag(ts@.map_values(|t: i64| t as int).take(k as int), i as int),
                    decreases ts@.len() - k,
                {
                    xs.push(Intersection { t: ts[k], object: i });
                    k = k + 1;
                    assert(tag(ts@.map_values(|t: i64| t as int).take(k as int), i as int) =~= xs@);
                }
                assert(ts@.map_values(|t: i64| t as int).take(k as int) =~= ts@.map_values(|t: i64| t as int));
                xs
            },
            ShapeKind::Group(g) => {
                let ghost shapes = self.view();
                let mut xs: Vec<Intersection> = Vec::new();
                let mut k: usize = 0;
                while k < g.children.len()
                    invariant
                        shapes == self.view(),
                        i < shapes.len(),
                        shapes[i as int].kind == ShapeKind::Group(*g),
                        k <= g.children@.len(),
                        xs@ == children_xs(shapes, i as int, g.children@.take(k as int), local),
                    decreases g.children@.len() - k,
                {
                    let c = g.children[k];
                    assert(g.children@.take(k as int + 1).drop_last() =~= g.children@.take(k as int));
                    if i < c && c < self.shapes.len() {
                        let mut sub = self.intersect(c, &local);
                        xs.append(&mut sub);
                    }
                    k = k + 1;
                }
                assert(g.children@.take(k as int) =~= g.children@);
                xs
            },
        }
    }

    /// A world point in the space of shape `i`, through every ancestor from the root down.
    pub fn world_to_object(&self, i: usize, p: &Tuple) -> (q: Tuple)
        requires
            i < self.view().len(),
        ensures
            q == world_to_object(self.view(), i as int, *p),
        decreases i,
    {
        let up = match self.shapes[i].parent {
            Some(parent) => if parent < i {
                self.world_to_object(parent, p)
            } else {
                *p
            },
            None => *p,
        };
        self.shapes[i].transform.inverse.apply_point(&up)
    }

    /// A normal in the space of shape `i` carried to world space through every ancestor.
    pub fn normal_to_world(&self, i: usize, n: &Tuple) -> (m: Tuple)
        requires
            i < self.view().len(),
        ensures
            m == normal_to_world(self.view(), i as int, *n),
        decreases i,
    {
        let here = self.shapes[i].transform.inverse.transpose().apply_vector(n).normalize();
        match self.shapes[i].parent {
            Some(parent) => if parent < i {
                self.normal_to_world(parent, &here)
            } else {
                here
            },
            None => here,
        }
    }

    /// The world-space surface normal of sphere `i` at world point `p`.
    pub fn normal(&self, i: usize, p: &Tuple) -> (n: Tuple)
        requires
            i < self.view().len(),
            self.view()[i as int].kind is Sphere,
        ensures
            n == normal_spec(self.view(), i as int, *p),
    {
        let local = self.world_to_object(i, p);
        self.normal_to_world(i, &local)
    }
}

/// The nearest intersection at a non-negative parameter; of equal ones, the first.
pub open spec fn nearest(xs: Seq<Intersection>) -> Option<Intersection>
    decreases xs.len(),
{
    if xs.len() == 0 {
        None
    } else {
        let prev = nearest(xs.drop_last());
        let x = xs.last();
        if x.t < 0 {
            prev
        } else {
            match prev {
                None => Some(x),
                Some(p) => if x.t < p.t { Some(x) } else { prev },
            }
        }
    }
}

/// The nearest intersection is one of `xs`, at a non-negative parameter no
/// larger than that of any other such intersection; there is none exactly when
/// every parameter is negative.
pub proof fn lemma_nearest(xs: Seq<Intersection>)
    ensures
        nearest(xs) is None <==> forall|j: int| 0 <= j < xs.len() ==> #[trigger] xs[j].t < 0,
        nearest(xs) matches Some(h) ==> {
            &&& xs.contains(h)
            &&& h.t >= 0
            &&& forall|j: int| 0 <= j < xs.len() && #[trigger] xs[j].t >= 0 ==> h.t <= xs[j].t
        },
    decreases xs.len(),
{
    if xs.len() > 0 {
        let d = xs.drop_last();
        let x = xs.last();
        let last = xs.len() - 1;
        lemma_nearest(d);
        assert(xs[last] == x);
        assert forall|j: int| 0 <= j < d.len() implies #[trigger] d[j] == xs[j] by {}
        match nearest(d) {
            Some(h) => {
                let w = choose|j: int| 0 <= j < d.len() && d[j] == h;
                assert(xs[w] == h);
                if x.t >= 0 && x.t < h.t {
                    assert forall|j: int| 0 <= j < xs.len() && #[trigger] xs[j].t >= 0 implies x.t <= xs[j].t by {
                        if j < last {
                            assert(d[j].t >= 0);
                        }
                    }
                } else {
                    assert forall|j: int| 0 <= j < xs.len() && #[trigger] xs[j].t >= 0 implies h.t <= xs[j].t by {
                        if j < last {
                            assert(d[j].t >= 0);
                        }
                    }
                }
            },
            None => {
                if x.t >= 0 {
                    assert forall|j: int| 0 <= j < xs.len() && #[trigger] xs[j].t >= 0 implies x.t <= xs[j].t by {
                        if j < last {
                            assert(d[j].t < 0);
                        }
                    }
                } else {
                    assert forall|j: int| 0 <= j < xs.len() implies #[trigger] xs[j].t < 0 by {
                        if j < last {
                            assert(d[j].t < 0);
                        }
                    }
                }
            },
        }
    }
}

/// Finds `nearest(xs)`.
pub fn find_nearest(xs: &Vec<Intersection>) -> (h: Option<Intersection>)
    ensures
        h == nearest(xs@),
{
    let mut h: Option<Intersection> = None;
    let mut k: usize = 0;
    while k < xs.len()
        invariant
            k <= xs@.len(),
            h == nearest(xs@.take(k as int)),
        decreases xs@.len() - k,
    {
        let x = xs[k];
        assert(xs@.take(k as int + 1).drop_last() =~= xs@.take(k as int));
        if x.t >= 0 {
            match h {
                None => {
                    h = Some(x);
                },
                Some(p) => {
                    if x.t < p.t {
                        h = Some(x);
                    }
                },
            }
        }
        k = k + 1;
    }
    assert(xs@.take(k as int) =~= xs@);
    h
}

impl Ray {
    /// The smallest non-negative parameter at which the ray meets shape `i`, if any.
    pub fn hit(&self, scene: &Scene, i: usize) -> (t: Option<i64>)
        requires
            i < scene.view().len(),
        ensures
            t == (match nearest(shape_xs(scene.view(), i as int, *self)) {
                Some(x) => Some(x.t),
                None => None::<i64>,
            }),
            t is None <==> forall|j: int| 0 <= j < shape_xs(scene.view(), i as int, *self).len()
                ==> #[trigger] shape_xs(scene.view(), i as int, *self)[j].t < 0,
            t matches Some(v) ==> v >= 0 && forall|j: int| 0 <= j < shape_xs(scene.view(), i as int, *self).len()
                && #[trigger] shape_xs(scene.view(), i as int, *self)[j].t >= 0 ==> v <= shape_xs(scene.view(), i as int, *self)[j].t,
    {
        let xs = scene.intersect(i, self);
        proof {
            lemma_nearest(xs@);
        }
        match find_nearest(&xs) {
            Some(x) => Some(x.t),
            None => None,
        }
    }
}

/// The shapes from the root of `i`'s hierarchy down to `i` itself.
pub open spec fn lineage(shapes: Seq<Shape>, i: int) -> Seq<int>
    decreases i,
{
    if 0 <= i < shapes.len() {
        match shapes[i].parent {
            Some(q) => if 0 <= (q as int) < i { lineage(shapes, q as int).push(i) } else { seq![i] },
            None => seq![i],
        }
    } else {
        seq![i]
    }
}

/// A point carried through the inverse transforms of `chain`, first to last.
pub open spec fn through(shapes: Seq<Shape>, chain: Seq<int>, p: Tuple) -> Tuple
    decreases chain.len(),
{
    if chain.len() == 0 {
        p
    } else {
        shapes[chain.last()].transform.inverse.on_point(through(shapes, chain.drop_last(), p))
    }
}

/// In a well-formed scene, a world point reaches the space of a shape nested in
/// groups by undoing every ancestor's transform, from the root down to the shape:
/// the lineage starts at a shape with no parent, each next entry is a child of
/// the one before, and it ends at the shape.
pub proof fn lemma_world_to_object_composes(scene: &Scene, i: int, p: Tuple)
    requires
        scene.wf(),
        0 <= i < scene.view().len(),
    ensures
        world_to_object(scene.view(), i, p) == through(scene.view(), lineage(scene.view(), i), p),
        lineage(scene.view(), i).last() == i,
        scene.view()[lineage(scene.view(), i)[0]].parent is None,
        forall|k: int| 0 < k < lineage(scene.view(), i).len() ==>
            scene.view()[#[trigger] lineage(scene.view(), i)[k]].parent == Some(lineage(scene.view(), i)[k - 1] as usize),
        forall|k: int| 0 <= k < lineage(scene.view(), i).len() ==>
            0 <= #[trigger] lineage(scene.view(), i)[k] < scene.view().len(),
    decreases i,
{
    let s = scene.view();
    let l = lineage(s, i);
    match s[i].parent {
        Some(q) => {
            let q = q as int;
            assert(q < i);
            lemma_world_to_object_composes(scene, q, p);
            let lq = lineage(s, q);
            assert(l == lq.push(i));
            assert(l.drop_last() =~= lq);
            assert(through(s, l, p) == s[i].transform.inverse.on_point(through(s, lq, p)));
            assert(l[0] == lq[0]);
            assert forall|k: int| 0 < k < l.len() implies s[#[trigger] l[k]].parent == Some(l[k - 1] as usize) by {
                if k < l.len() - 1 {
                    assert(l[k] == lq[k] && l[k - 1] == lq[k - 1]);
                } else {
                    assert(l[k - 1] == lq.last());
                }
            }
            assert forall|k: int| 0 <= k < l.len() implies 0 <= #[trigger] l[k] < s.len() by {
                if k < l.len() - 1 {
                    assert(l[k] == lq[k]);
                }
            }
        },
        None => {
            assert(l.drop_last() =~= Seq::<int>::empty());
            assert(through(s, l, p) == s[i].transform.inverse.on_point(through(s, l.drop_last(), p)));
        },
    }
}

} // verus!
