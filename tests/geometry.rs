use ray_tracer::fixed::{self, SCALE};
use ray_tracer::matrix::Transform;
use ray_tracer::pattern::{RingPattern, StripePattern};
use ray_tracer::ray::Ray;
use ray_tracer::shape::Scene;
use ray_tracer::material::Material;
use ray_tracer::tuple::{Color, Tuple};

const S: i64 = SCALE;

fn near(a: i64, b: i64) -> bool {
    (a - b).abs() <= 100
}

fn near_tuple(t: Tuple, x: i64, y: i64, z: i64) -> bool {
    near(t.x, x) && near(t.y, y) && near(t.z, z)
}

fn unit_sphere_scene() -> (Scene, usize) {
    let mut scene = Scene::new();
    let id = scene.add_sphere(Transform::identity(), Material::new());
    (scene, id)
}

#[test]
fn fixed_arithmetic_rounds_down() {
    assert_eq!(fixed::mul(3 * S, 2 * S), 6 * S);
    assert_eq!(fixed::mul(-1, S / 2), -1);
    assert_eq!(fixed::mul(1, S / 2), 0);
    assert_eq!(fixed::div(S, 3 * S), 333_333);
    assert_eq!(fixed::div(-S, 3 * S), -333_334);
    assert_eq!(fixed::div(S, -3 * S), -333_334);
    assert_eq!(fixed::sqrt(2 * S), 1_414_213);
    assert_eq!(fixed::sqrt(4 * S), 2 * S);
    assert_eq!(fixed::sqrt(0), 0);
    assert_eq!(fixed::floor(-S / 10), -1);
    assert_eq!(fixed::floor(1_900_000), 1);
}

#[test]
fn fixed_arithmetic_saturates() {
    assert_eq!(fixed::add(i64::MAX, 1), i64::MAX);
    assert_eq!(fixed::sub(i64::MIN, 1), i64::MIN);
    assert_eq!(fixed::neg(i64::MIN), i64::MAX);
    assert_eq!(fixed::mul(i64::MAX, 2 * S), i64::MAX);
    assert_eq!(fixed::from_int(3), 3 * S);
}

#[test]
fn vector_operations() {
    let v = Tuple::new(3 * S, 4 * S, 0);
    assert_eq!(v.magnitude(), 5 * S);
    assert_eq!(v.normalize(), Tuple::new(600_000, 800_000, 0));
    assert_eq!(Tuple::new(0, 0, 0).normalize(), Tuple::new(0, 0, 0));
    let a = Tuple::new(S, 2 * S, 3 * S);
    let b = Tuple::new(2 * S, 3 * S, 4 * S);
    assert_eq!(a.dot(&b), 20 * S);
    assert_eq!(a.cross(&b), Tuple::new(-S, 2 * S, -S));
    let r = Tuple::new(S, -S, 0).reflect(&Tuple::new(0, S, 0));
    assert_eq!(r, Tuple::new(S, S, 0));
}

#[test]
fn ray_position_at_zero_and_one() {
    let ray = Ray::new((2 * S, 3 * S, 4 * S), (S, 0, 0));
    assert_eq!(ray.position(0), ray.origin);
    assert_eq!(ray.position(S), Tuple::new(3 * S, 3 * S, 4 * S));
    assert_eq!(ray.position(-S), Tuple::new(S, 3 * S, 4 * S));
    assert_eq!(ray.position(2_500_000), Tuple::new(4_500_000, 3 * S, 4 * S));
}

#[test]
fn ray_translate_scale_and_inverse_transform() {
    let ray = Ray::new((S, 2 * S, 3 * S), (0, S, 0));
    let t = ray.translate(3 * S, 4 * S, 5 * S);
    assert_eq!(t.origin, Tuple::new(4 * S, 6 * S, 8 * S));
    assert_eq!(t.direction, Tuple::new(0, S, 0));
    let s = ray.scale(2 * S, 3 * S, 4 * S);
    assert_eq!(s.origin, Tuple::new(2 * S, 6 * S, 12 * S));
    assert_eq!(s.direction, Tuple::new(0, 3 * S, 0));
    let moved = ray.inverse_transform(&Transform::translation(3 * S, 4 * S, 5 * S));
    assert_eq!(moved.origin, Tuple::new(-2 * S, -2 * S, -2 * S));
    assert_eq!(moved.direction, Tuple::new(0, S, 0));
    let shrunk = ray.inverse_transform(&Transform::scaling(2 * S, 2 * S, 2 * S));
    assert_eq!(shrunk.origin, Tuple::new(500_000, S, 1_500_000));
    assert_eq!(shrunk.direction, Tuple::new(0, 500_000, 0));
}

#[test]
fn sphere_two_intersections() {
    let (scene, id) = unit_sphere_scene();
    let ray = Ray::new((0, 0, -5 * S), (0, 0, S));
    let ts: Vec<i64> = scene.intersect(id, &ray).iter().map(|x| x.t).collect();
    assert_eq!(ts, vec![4 * S, 6 * S]);
}

#[test]
fn sphere_tangent_double_intersection() {
    let (scene, id) = unit_sphere_scene();
    let ray = Ray::new((0, S, -5 * S), (0, 0, S));
    let ts: Vec<i64> = scene.intersect(id, &ray).iter().map(|x| x.t).collect();
    assert_eq!(ts, vec![5 * S, 5 * S]);
}

#[test]
fn sphere_ray_from_inside() {
    let (scene, id) = unit_sphere_scene();
    let ray = Ray::new((0, 0, 0), (0, 0, S));
    let ts: Vec<i64> = scene.intersect(id, &ray).iter().map(|x| x.t).collect();
    assert_eq!(ts, vec![-S, S]);
    assert_eq!(ray.hit(&scene, id), Some(S));
}

#[test]
fn sphere_missed_and_behind() {
    let (scene, id) = unit_sphere_scene();
    let miss = Ray::new((0, 2 * S, -5 * S), (0, 0, S));
    assert!(scene.intersect(id, &miss).is_empty());
    assert_eq!(miss.hit(&scene, id), None);
    let behind = Ray::new((0, 0, 5 * S), (0, 0, S));
    let ts: Vec<i64> = scene.intersect(id, &behind).iter().map(|x| x.t).collect();
    assert_eq!(ts, vec![-6 * S, -4 * S]);
    assert_eq!(behind.hit(&scene, id), None);
}

#[test]
fn transformed_sphere_intersections() {
    let mut scene = Scene::new();
    let big = scene.add_sphere(Transform::scaling(2 * S, 2 * S, 2 * S), Material::new());
    let moved = scene.add_sphere(Transform::translation(5 * S, 0, 0), Material::new());
    let ray = Ray::new((0, 0, -5 * S), (0, 0, S));
    let ts: Vec<i64> = scene.intersect(big, &ray).iter().map(|x| x.t).collect();
    assert_eq!(ts, vec![3 * S, 7 * S]);
    assert!(scene.intersect(moved, &ray).is_empty());
}

#[test]
fn sphere_normals() {
    let (scene, id) = unit_sphere_scene();
    assert_eq!(scene.normal(id, &Tuple::new(S, 0, 0)), Tuple::new(S, 0, 0));
    assert_eq!(scene.normal(id, &Tuple::new(0, 0, S)), Tuple::new(0, 0, S));
    let mut moved = Scene::new();
    let m = moved.add_sphere(Transform::translation(0, S, 0), Material::new());
    let n = moved.normal(m, &Tuple::new(0, 1_707_107, -707_107));
    assert!(near_tuple(n, 0, 707_107, -707_107));
}

#[test]
fn stripe_pattern_alternates_in_x() {
    let p = StripePattern::new();
    let white = Color::white();
    let black = Color::black();
    assert_eq!(p.color_at(&Tuple::new(0, 0, 0)), white);
    assert_eq!(p.color_at(&Tuple::new(900_000, 0, 0)), white);
    assert_eq!(p.color_at(&Tuple::new(S, 0, 0)), black);
    assert_eq!(p.color_at(&Tuple::new(-100_000, 0, 0)), black);
    assert_eq!(p.color_at(&Tuple::new(-S, 0, 0)), black);
    assert_eq!(p.color_at(&Tuple::new(-1_100_000, 0, 0)), white);
    assert_eq!(p.color_at(&Tuple::new(0, 2 * S, 5 * S)), white);
}

#[test]
fn ring_pattern_alternates_with_radius() {
    let p = RingPattern::new();
    assert_eq!(p.current_color_at(&Tuple::new(0, 0, 0)), Color::white());
    assert_eq!(p.current_color_at(&Tuple::new(S, 0, 0)), Color::black());
    assert_eq!(p.current_color_at(&Tuple::new(0, 0, S)), Color::black());
    assert_eq!(p.current_color_at(&Tuple::new(708_000, 0, 708_000)), Color::black());
}

#[test]
fn transformed_pattern_on_object_point() {
    let mut stripe = StripePattern::new();
    stripe.transform = Transform::scaling(2 * S, 2 * S, 2 * S);
    let p = ray_tracer::pattern::Pattern::Stripe(stripe);
    assert_eq!(p.color_at(&Tuple::new(1_500_000, 0, 0)), Color::white());
    assert_eq!(p.color_at(&Tuple::new(2_500_000, 0, 0)), Color::black());
}

#[test]
fn transform_composition() {
    let t = Transform::scaling(2 * S, 2 * S, 2 * S).followed_by(&Transform::translation(S, 0, 0));
    assert_eq!(t.matrix.apply_point(&Tuple::new(S, S, S)), Tuple::new(3 * S, 2 * S, 2 * S));
    assert_eq!(t.inverse.apply_point(&Tuple::new(3 * S, 2 * S, 2 * S)), Tuple::new(S, S, S));
    assert_eq!(t.matrix.apply_vector(&Tuple::new(S, S, S)), Tuple::new(2 * S, 2 * S, 2 * S));
    let r = Transform::rotation(0, S, 0);
    assert_eq!(r.matrix.apply_point(&Tuple::new(0, S, 0)), Tuple::new(0, 0, S));
    assert_eq!(r.inverse.apply_point(&Tuple::new(0, 0, S)), Tuple::new(0, S, 0));
}

#[test]
fn view_transform_looks_down_negative_z_by_default() {
    let t = Transform::view(&Tuple::new(0, 0, 0), &Tuple::new(0, 0, -S), &Tuple::new(0, S, 0));
    assert_eq!(t, Transform::identity());
    let moved = Transform::view(&Tuple::new(0, 0, 8 * S), &Tuple::new(0, 0, 0), &Tuple::new(0, S, 0));
    assert_eq!(moved.matrix.apply_point(&Tuple::new(0, 0, 0)), Tuple::new(0, 0, -8 * S));
}
