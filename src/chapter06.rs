//! A sample picture: one stretched, tilted sphere lit by a point light, cast
//! straight onto a wall of pixels with no camera.
use crate::fixed::SCALE;
use crate::material::{Material, PointLight};
use crate::matrix::Transform;
use crate::pattern::Pattern;
use crate::ray::{Intersection, Ray};
use crate::shape::{normal_spec, shape_xs, world_to_object, Scene};
use crate::state::material_of;
use crate::tuple::{Color, Tuple};
use vstd::prelude::*;

verus! {

/// Side of the wall, in pixels; the wall is centred on the z axis.
pub const WALL_SIZE: u16 = 100;

/// Sine of minus an eighth of a turn, in fixed point.
pub const SIN_MINUS_EIGHTH_TURN: i64 = -707_107;

/// Cosine of an eighth of a turn, in fixed point.
pub const COS_EIGHTH_TURN: i64 = 707_107;

/// The first intersection that the sphere gives for the ray, whatever its parameter.
pub fn hit(ray: &Ray, scene: &Scene, sphere: usize) -> (h: Option<Intersection>)
    requires
        sphere < scene.view().len(),
    ensures
        h == (if shape_xs(scene.view(), sphere as int, *ray).len() > 0 {
            Some(shape_xs(scene.view(), sphere as int, *ray)[0])
        } else {
            None::<Intersection>
        }),
{
    let xs = scene.intersect(sphere, ray);
    if xs.len() > 0 {
        Some(xs[0])
    } else {
        None
    }
}

pub open spec fn sphere_transform_spec() -> Transform {
    Transform::scaling_spec(6_250_000, 12_500_000, 12_500_000)
        .followed_by_spec(Transform::rotation_spec(2, SIN_MINUS_EIGHTH_TURN, COS_EIGHTH_TURN))
        .followed_by_spec(Transform::translation_spec(10_000_000, 0, 0))
}

/// The scene's single sphere, shape 0, magenta.
pub fn prepare_scene() -> (s: Scene)
    ensures
        s.wf(),
        s.view().len() == 1,
        s.view()[0].transform == sphere_transform_spec(),
        s.view()[0].parent is None,
        s.view()[0].kind is Sphere,
        material_of(s.view(), 0) == (Material { pattern: Pattern::Flat(Color { r: SCALE, g: 200_000, b: SCALE }), ..Material::default_spec() }),
{
    let mut scene = Scene::new();
    let t = Transform::scaling(6_250_000, 12_500_000, 12_500_000)
        .followed_by(&Transform::rotation(2, SIN_MINUS_EIGHTH_TURN, COS_EIGHTH_TURN))
        .followed_by(&Transform::translation(10_000_000, 0, 0));
    let m = Material { pattern: Pattern::Flat(Color::new(SCALE, 200_000, SCALE)), ..Material::new() };
    scene.add_sphere(t, m);
    scene
}

/// The scene's light: white, at `(-20, 30, -50)`.
pub fn prepare_light() -> (l: PointLight)
    ensures
        l == (PointLight { position: Tuple { x: -20_000_000i64, y: 30_000_000, z: -50_000_000i64 }, intensity: Color { r: SCALE, g: SCALE, b: SCALE } }),
{
    PointLight::new(Tuple::new(-20_000_000, 30_000_000, -50_000_000), Color::white())
}

/// The ray from the eye at `(0, 0, -50)` toward wall point `(x, y, 50)`.
pub open spec fn eye_ray_spec(x: int, y: int) -> Ray {
    Ray {
        origin: Tuple { x: 0, y: 0, z: -50_000_000i64 },
        direction: Tuple { x: (x * SCALE) as i64, y: (y * SCALE) as i64, z: 100_000_000 }.unit(),
    }
}

/// The color of wall point `(x, y)`: black where the eye ray misses sphere 0,
/// else the sphere's unshadowed Phong color at the first intersection.
pub open spec fn pixel_spec(scene: &Scene, light: PointLight, x: int, y: int) -> Color {
    let ray = eye_ray_spec(x, y);
    let xs = shape_xs(scene.view(), 0, ray);
    if xs.len() == 0 {
        Color::black_spec()
    } else {
        let p = ray.at(xs[0].t as int);
        let m = material_of(scene.view(), 0);
        let normal = normal_spec(scene.view(), 0, p);
        m.lighting_spec(m.pattern.color_spec(world_to_object(scene.view(), 0, p)), light, p, ray.direction.negated(), normal, false)
    }
}

pub fn pixel(scene: &Scene, light: &PointLight, x: i16, y: i16) -> (c: Color)
    requires
        scene.view().len() > 0,
        scene.view()[0].kind is Sphere,
    ensures
        c == pixel_spec(scene, *light, x as int, y as int),
{
    let ray = Ray {
        origin: Tuple::new(0, 0, -50_000_000),
        direction: Tuple::new(x as i64 * SCALE, y as i64 * SCALE, 100_000_000).normalize(),
    };
    match hit(&ray, scene, 0) {
        None => Color::black(),
        Some(h) => {
            let p = ray.position(h.t);
            let m = scene.material(0);
            let normal = scene.normal(0, &p);
            let pattern_color = m.pattern.color_at(&scene.world_to_object(0, &p));
            m.lighting(&pattern_color, light, &p, &ray.direction.neg(), &normal, false)
        },
    }
}

/// Row `row` of the wall (wall y coordinate `row - WALL_SIZE / 2`), left to right.
pub fn render_row(scene: &Scene, light: &PointLight, row: u16) -> (r: Vec<Color>)
    requires
        scene.view().len() > 0,
        scene.view()[0].kind is Sphere,
        row < WALL_SIZE,
    ensures
        r@.len() == WALL_SIZE,
        forall|k: int| 0 <= k < WALL_SIZE ==> #[trigger] r@[k] == pixel_spec(scene, *light, k - 50, row - 50),
{
    let y: i16 = row as i16 - 50;
    let mut r: Vec<Color> = Vec::new();
    let mut k: u16 = 0;
    while k < WALL_SIZE
        invariant
            scene.view().len() > 0,
            scene.view()[0].kind is Sphere,
            y == row - 50,
            k <= WALL_SIZE,
            r@.len() == k,
            forall|j: int| 0 <= j < k ==> #[trigger] r@[j] == pixel_spec(scene, *light, j - 50, row - 50),
        decreases WALL_SIZE - k,
    {
        r.push(pixel(scene, light, k as i16 - 50, y));
        k = k + 1;
    }
    r
}

} // verus!
