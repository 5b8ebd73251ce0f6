//! A sample scene: three spheres on a floor between two walls, the walls and
//! floor being flattened spheres.
use crate::camera::Camera;
use crate::fixed::SCALE;
use crate::material::{Material, PointLight};
use crate::matrix::Transform;
use crate::pattern::Pattern;
use crate::shape::{Scene, Shape, ShapeKind, Sphere};
use crate::tuple::{Color, Tuple};
use crate::world::World;
use vstd::prelude::*;

verus! {

/// Sine and cosine of an eighth of a turn, in fixed point.
pub const SIN_EIGHTH_TURN: i64 = 707_107;

/// Tangent of a twelfth of a turn (half the field of view), in fixed point.
pub const TAN_TWELFTH_TURN: i64 = 577_350;

pub open spec fn material_spec(c: Color, diffuse: i64, specular: i64) -> Material {
    Material { pattern: Pattern::Flat(c), diffuse, specular, ..Material::default_spec() }
}

/// A pale, matte material for the floor and the walls.
pub fn prepare_material() -> (m: Material)
    ensures
        m == material_spec(Color { r: SCALE, g: 900_000, b: 900_000 }, 900_000, 0),
{
    Material { pattern: Pattern::Flat(Color::new(SCALE, 900_000, 900_000)), specular: 0, ..Material::new() }
}

fn colored(c: Color) -> (m: Material)
    ensures
        m == material_spec(c, 700_000, 300_000),
{
    Material { pattern: Pattern::Flat(c), diffuse: 700_000, specular: 300_000, ..Material::new() }
}

/// The transform of a wall: a flattened sphere stood up, turned by the given
/// sine and cosine about the y axis, and pushed back.
pub open spec fn wall_spec(sin: i64, cos: i64) -> Transform {
    Transform::scaling_spec(10_000_000, 10_000, 10_000_000)
        .followed_by_spec(Transform::rotation_spec(0, SCALE, 0))
        .followed_by_spec(Transform::rotation_spec(1, sin, cos))
        .followed_by_spec(Transform::translation_spec(0, 0, 5_000_000))
}

fn wall(sin: i64, cos: i64) -> (t: Transform)
    requires
        Transform::is_sine_cosine(sin as int, cos as int),
    ensures
        t == wall_spec(sin, cos),
{
    Transform::scaling(10_000_000, 10_000, 10_000_000)
        .followed_by(&Transform::rotation(0, SCALE, 0))
        .followed_by(&Transform::rotation(1, sin, cos))
        .followed_by(&Transform::translation(0, 0, 5_000_000))
}

/// The transforms and materials of the scene's six spheres, in order: floor,
/// left wall, right wall, and the middle, right and left spheres.
pub open spec fn scene_spec() -> Seq<(Transform, Material)> {
    let pale = material_spec(Color { r: SCALE, g: 900_000, b: 900_000 }, 900_000, 0);
    seq![
        (Transform::scaling_spec(10_000_000, 10_000, 10_000_000), pale),
        (wall_spec(-707_107i64, SIN_EIGHTH_TURN), pale),
        (wall_spec(SIN_EIGHTH_TURN, SIN_EIGHTH_TURN), pale),
        (Transform::translation_spec(-500_000i64, SCALE, 500_000), material_spec(Color { r: 100_000, g: SCALE, b: 500_000 }, 700_000, 300_000)),
        (
            Transform::scaling_spec(500_000, 500_000, 500_000).followed_by_spec(Transform::translation_spec(1_500_000, 500_000, -500_000i64)),
            material_spec(Color { r: 500_000, g: SCALE, b: 100_000 }, 700_000, 300_000),
        ),
        (
            Transform::scaling_spec(330_000, 330_000, 330_000).followed_by_spec(Transform::translation_spec(-1_500_000i64, 330_000, -750_000i64)),
            material_spec(Color { r: SCALE, g: 800_000, b: 100_000 }, 700_000, 300_000),
        ),
    ]
}

/// The scene's world: its six spheres, each a root object tried in order, lit
/// in white from `(-10, 10, -10)`.
pub fn prepare_world() -> (w: World)
    ensures
        w.wf(),
        w.shapes().len() == 6,
        forall|k: int| 0 <= k < 6 ==> #[trigger] w.shapes()[k] == (Shape {
            transform: scene_spec()[k].0,
            parent: None,
            kind: ShapeKind::Sphere(Sphere { material: scene_spec()[k].1 }),
        }),
        w.objects@ == seq![0usize, 1, 2, 3, 4, 5],
        w.light_source == (PointLight {
            position: Tuple { x: -10_000_000i64, y: 10_000_000i64, z: -10_000_000i64 },
            intensity: Color { r: SCALE, g: SCALE, b: SCALE },
        }),
{
    let mut scene = Scene::new();
    let s = SIN_EIGHTH_TURN;
    scene.add_sphere(Transform::scaling(10_000_000, 10_000, 10_000_000), prepare_material());
    scene.add_sphere(wall(-s, s), prepare_material());
    scene.add_sphere(wall(s, s), prepare_material());
    scene.add_sphere(Transform::translation(-500_000i64, SCALE, 500_000), colored(Color::new(100_000, SCALE, 500_000)));
    scene.add_sphere(
        Transform::scaling(500_000, 500_000, 500_000).followed_by(&Transform::translation(1_500_000, 500_000, -500_000i64)),
        colored(Color::new(500_000, SCALE, 100_000)),
    );
    scene.add_sphere(
        Transform::scaling(330_000, 330_000, 330_000).followed_by(&Transform::translation(-1_500_000i64, 330_000, -750_000i64)),
        colored(Color::new(SCALE, 800_000, 100_000)),
    );
    let light = PointLight::new(Tuple::new(-10_000_000i64, 10_000_000, -10_000_000i64), Color::white());
    let objects: Vec<usize> = vec![0, 1, 2, 3, 4, 5];
    proof {
        assert forall|i: int| 0 <= i < scene.view().len() implies
            ((#[trigger] scene.view()[i]).kind matches ShapeKind::Sphere(sp) ==> sp.material.refractive_index > 0) by {}
    }
    let w = World::new(scene, objects, light);
    match w {
        Some(w) => {
            assert(w.objects@ =~= seq![0usize, 1, 2, 3, 4, 5]);
            w
        },
        // Not taken: every object names a shape and every refractive index is positive.
        None => World::default(),
    }
}

/// A 100 by 50 camera with a third of a half turn of view, looking from
/// `(0, 1.5, -5)` toward `(0, 1, 0)`.
pub fn prepare_camera() -> (c: Camera)
    ensures
        c == (Camera {
            transform: Transform::view_spec(
                Tuple { x: 0, y: 1_500_000, z: -5_000_000i64 },
                Tuple { x: 0, y: SCALE, z: 0 },
                Tuple { x: 0, y: SCALE, z: 0 },
            ),
            ..Camera::new_spec(100, 50, TAN_TWELFTH_TURN)
        }),
{
    let mut camera = Camera::new(100, 50, TAN_TWELFTH_TURN);
    camera.transform = Transform::view(&Tuple::new(0, 1_500_000, -5_000_000i64), &Tuple::new(0, SCALE, 0), &Tuple::new(0, SCALE, 0));
    camera
}

/// The scene, its camera, and the image the camera renders of it, top row first.
pub fn practice() -> (r: (World, Camera, Vec<Vec<Color>>))
    ensures
        r.0.wf(),
        r.0.shapes().len() == 6,
        forall|k: int| 0 <= k < 6 ==> #[trigger] r.0.shapes()[k] == (Shape {
            transform: scene_spec()[k].0,
            parent: None,
            kind: ShapeKind::Sphere(Sphere { material: scene_spec()[k].1 }),
        }),
        r.1.hsize == 100 && r.1.vsize == 50,
        r.2@.len() == 50,
        forall|py: int| 0 <= py < 50 ==> (#[trigger] r.2@[py])@ == r.1.image_spec(&r.0)[py],
{
    let world = prepare_world();
    let camera = prepare_camera();
    let image = camera.render(&world);
    (world, camera, image)
}

} // verus!
