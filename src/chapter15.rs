//! A sample scene around one loaded model, lit from below and in front.
use crate::camera::Camera;
use crate::chapter07::TAN_TWELFTH_TURN;
use crate::fixed::SCALE;
use crate::material::PointLight;
use crate::matrix::Transform;
use crate::shape::Scene;
use crate::tuple::{Color, Tuple};
use crate::world::World;
use vstd::prelude::*;

verus! {

/// Width of the image; its height is half of it.
pub const SCREEN_WIDTH: u16 = 100;

pub open spec fn light_spec() -> PointLight {
    PointLight {
        position: Tuple { x: 0, y: -50_000_000i64, z: -100_000_000i64 },
        intensity: Color { r: SCALE, g: SCALE, b: SCALE },
    }
}

/// The world of `scene` with the shape `model` (a model, most often a group) as
/// its one object; `None` when `model` names no shape or a sphere has a refractive
/// index that is not positive.
pub fn prepare_world(scene: Scene, model: usize) -> (r: Option<World>)
    requires
        scene.wf(),
    ensures
        r is Some <==> model < scene.view().len() && World::indices_positive(scene.view()),
        r matches Some(w) ==> w.wf() && w.shapes() == scene.view() && w.objects@ == seq![model] && w.light_source == light_spec(),
{
    let light_source = PointLight::new(Tuple::new(0, -50_000_000, -100_000_000), Color::white());
    let objects: Vec<usize> = vec![model];
    let r = World::new(scene, objects, light_source);
    proof {
        if model < scene.view().len() {
            assert(forall|k: int| 0 <= k < objects@.len() ==> (#[trigger] objects@[k]) < scene.view().len());
        } else {
            assert(objects@[0] >= scene.view().len());
        }
    }
    r
}

/// A `SCREEN_WIDTH` by half that camera with a third of a half turn of view,
/// looking from `(50, -50, -20)` toward `(-70, 30, -10)`.
pub fn prepare_camera() -> (c: Camera)
    ensures
        c == (Camera {
            transform: Transform::view_spec(
                Tuple { x: 50_000_000, y: -50_000_000i64, z: -20_000_000i64 },
                Tuple { x: -70_000_000i64, y: 30_000_000, z: -10_000_000i64 },
                Tuple { x: 0, y: SCALE, z: 0 },
            ),
            ..Camera::new_spec(SCREEN_WIDTH, SCREEN_WIDTH / 2, TAN_TWELFTH_TURN)
        }),
{
    let mut camera = Camera::new(SCREEN_WIDTH, SCREEN_WIDTH / 2, TAN_TWELFTH_TURN);
    camera.transform = Transform::view(
        &Tuple::new(50_000_000, -50_000_000, -20_000_000),
        &Tuple::new(-70_000_000, 30_000_000, -10_000_000),
        &Tuple::new(0, SCALE, 0),
    );
    camera
}

/// The world around `model`, its camera, and the rendered image, top row first;
/// `None` exactly when `prepare_world` gives none.
pub fn practice(scene: Scene, model: usize) -> (r: Option<(World, Camera, Vec<Vec<Color>>)>)
    requires
        scene.wf(),
    ensures
        r is Some <==> model < scene.view().len() && World::indices_positive(scene.view()),
        r matches Some(t) ==> {
            &&& t.0.wf()
            &&& t.0.shapes() == scene.view()
            &&& t.0.objects@ == seq![model]
            &&& t.2@.len() == t.1.vsize
            &&& forall|py: int| 0 <= py < t.1.vsize ==> (#[trigger] t.2@[py])@ == t.1.image_spec(&t.0)[py]
        },
{
    match prepare_world(scene, model) {
        Some(world) => {
            let camera = prepare_camera();
            let image = camera.render(&world);
            Some((world, camera, image))
        },
        None => None,
    }
}

} // verus!
