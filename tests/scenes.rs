use ray_tracer::chapter06;
use ray_tracer::chapter07;
use ray_tracer::chapter15;
use ray_tracer::fixed::SCALE;
use ray_tracer::material::Material;
use ray_tracer::matrix::Transform;
use ray_tracer::shape::{Scene, ShapeKind};
use ray_tracer::tuple::Color;

const S: i64 = SCALE;

#[test]
fn wall_picture_hits_only_where_the_sphere_is() {
    let scene = chapter06::prepare_scene();
    let light = chapter06::prepare_light();
    assert_eq!(chapter06::pixel(&scene, &light, -50, -50), Color::black());
    let centre = chapter06::pixel(&scene, &light, 10, 0);
    assert!(centre.r > 0 && centre.b > 0);
    assert!(centre.g < centre.r);
    let row = chapter06::render_row(&scene, &light, 50);
    assert_eq!(row.len(), 100);
    assert_eq!(row[60], centre);
}

#[test]
fn sample_world_has_six_lit_spheres() {
    let world = chapter07::prepare_world();
    assert_eq!(world.scene.len(), 6);
    assert_eq!(world.objects, vec![0, 1, 2, 3, 4, 5]);
    assert_eq!(world.scene.material(0), chapter07::prepare_material());
    assert_eq!(chapter07::prepare_material().specular, 0);
    let camera = chapter07::prepare_camera();
    assert_eq!((camera.hsize, camera.vsize), (100, 50));
    assert_eq!(camera.pixel_size, 11_547);
    let row = camera.render_row(&world, 25);
    assert_eq!(row.len(), 100);
    assert!(row.iter().any(|c| *c != Color::black()));
}

#[test]
fn model_world_needs_a_valid_model() {
    let mut scene = Scene::new();
    let g = scene.add_group(Transform::identity());
    let s = scene.add_sphere(Transform::identity(), Material::new());
    scene.add_child(g, s).unwrap();
    let world = chapter15::prepare_world(scene, g).unwrap();
    assert_eq!(world.objects, vec![g]);
    assert_eq!(world.light_source.position.y, -50 * S);
    let camera = chapter15::prepare_camera();
    assert_eq!((camera.hsize, camera.vsize), (100, 50));
    assert!(chapter15::prepare_world(Scene::new(), 0).is_none());
    assert!(chapter15::practice(Scene::new(), 3).is_none());
}

#[test]
fn setting_transform_and_material() {
    let mut scene = Scene::new();
    let s = scene.add_sphere(Transform::identity(), Material::new());
    let t = Transform::translation(S, 2 * S, 3 * S);
    scene.set_transform(s, t);
    assert_eq!(scene.transform(s), t);
    let m = Material { ambient: S, ..Material::new() };
    scene.set_material(s, m);
    assert_eq!(scene.material(s), m);
    assert!(matches!(scene.shape(s).kind, ShapeKind::Sphere(_)));
}
