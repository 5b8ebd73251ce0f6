use ray_tracer::camera::Camera;
use ray_tracer::fixed::SCALE;
use ray_tracer::material::{Material, PointLight};
use ray_tracer::matrix::Transform;
use ray_tracer::ray::{Intersection, Ray};
use ray_tracer::shape::{Scene, SceneError};
use ray_tracer::tuple::{Color, Tuple};
use ray_tracer::world::World;

const S: i64 = SCALE;

fn near(a: i64, b: i64, tolerance: i64) -> bool {
    (a - b).abs() <= tolerance
}

fn near_color(c: Color, r: i64, g: i64, b: i64) -> bool {
    near(c.r, r, 1000) && near(c.g, g, 1000) && near(c.b, b, 1000)
}

#[test]
fn default_world_four_intersections_nearest_first() {
    let w = World::default();
    let ray = Ray::new((0, 0, -5 * S), (0, 0, S));
    let (hit, xs) = w.intersections(&ray);
    let ts: Vec<i64> = xs.iter().map(|x| x.t).collect();
    assert_eq!(ts, vec![4 * S, 4_500_000, 5_500_000, 6 * S]);
    let objects: Vec<usize> = xs.iter().map(|x| x.object).collect();
    assert_eq!(objects, vec![0, 1, 1, 0]);
    assert_eq!(hit, Some(Intersection { t: 4 * S, object: 0 }));
}

#[test]
fn intersections_drop_those_behind_the_ray() {
    let w = World::default();
    let ray = Ray::new((0, 0, 0), (0, 0, S));
    let (hit, xs) = w.intersections(&ray);
    let ts: Vec<i64> = xs.iter().map(|x| x.t).collect();
    assert_eq!(ts, vec![500_000, S]);
    assert_eq!(hit, Some(Intersection { t: 500_000, object: 1 }));
    let away = Ray::new((0, 0, -5 * S), (0, 0, -S));
    let (none, empty) = w.intersections(&away);
    assert_eq!(none, None);
    assert!(empty.is_empty());
}

#[test]
fn shading_an_intersection() {
    let w = World::default();
    let ray = Ray::new((0, 0, -5 * S), (0, 0, S));
    let (hit, xs) = w.intersections(&ray);
    let st = ray.intersection_state(&hit.unwrap(), &xs, &w.scene);
    assert_eq!(st.point, Tuple::new(0, 0, -S));
    assert_eq!(st.eyev, Tuple::new(0, 0, -S));
    assert_eq!(st.normalv, Tuple::new(0, 0, -S));
    assert!(!st.inside);
    assert_eq!(st.over_point, Tuple::new(0, 0, -S - 100));
    assert_eq!(st.under_point, Tuple::new(0, 0, -S + 100));
    let c = w.shade_hit(&st, 5);
    assert!(near_color(c, 380_661, 475_826, 285_496));
}

#[test]
fn shading_from_inside() {
    let mut w = World::default();
    w.light_source = PointLight::new(Tuple::new(0, 250_000, 0), Color::white());
    let ray = Ray::new((0, 0, 0), (0, 0, S));
    let (hit, xs) = w.intersections(&ray);
    let st = ray.intersection_state(&hit.unwrap(), &xs, &w.scene);
    assert!(st.inside);
    assert_eq!(st.normalv, Tuple::new(0, 0, -S));
    let c = w.shade_hit(&st, 5);
    assert!(near_color(c, 904_984, 904_984, 904_984));
}

#[test]
fn color_at_miss_and_hit() {
    let w = World::default();
    let miss = Ray::new((0, 0, -5 * S), (0, S, 0));
    assert_eq!(w.color_at(&miss, 5), Color::black());
    let hit = Ray::new((0, 0, -5 * S), (0, 0, S));
    assert!(near_color(w.color_at(&hit, 5), 380_661, 475_826, 285_496));
}

#[test]
fn shadow_only_between_point_and_light() {
    let w = World::default();
    assert!(!w.is_shadowed(&Tuple::new(0, 10 * S, 0)));
    assert!(w.is_shadowed(&Tuple::new(10 * S, -10 * S, 10 * S)));
    assert!(!w.is_shadowed(&Tuple::new(-20 * S, 20 * S, -20 * S)));
    assert!(!w.is_shadowed(&Tuple::new(-2 * S, 2 * S, -2 * S)));
}

#[test]
fn obstruction_is_bounded_by_distance() {
    let w = World::default();
    let ray = Ray::new((0, 0, -5 * S), (0, 0, S));
    assert!(w.is_ray_obstructed(&ray, 5 * S));
    assert!(!w.is_ray_obstructed(&ray, 4 * S));
    assert!(!w.is_ray_obstructed(&ray, 0));
}

#[test]
fn shade_hit_in_shadow_is_ambient_only() {
    let mut scene = Scene::new();
    let a = scene.add_sphere(Transform::identity(), Material::new());
    let b = scene.add_sphere(Transform::translation(0, 0, 10 * S), Material::new());
    let light = PointLight::new(Tuple::new(0, 0, -10 * S), Color::white());
    let w = World::new(scene, vec![a, b], light).unwrap();
    let ray = Ray::new((0, 0, 5 * S), (0, 0, S));
    let (hit, xs) = w.intersections(&ray);
    assert_eq!(hit, Some(Intersection { t: 4 * S, object: 1 }));
    let st = ray.intersection_state(&hit.unwrap(), &xs, &w.scene);
    assert_eq!(w.shade_hit(&st, 5), Color::new(100_000, 100_000, 100_000));
}

#[test]
fn reflected_and_refracted_black_at_depth_zero() {
    let mut w = World::default();
    let mut m = w.scene.material(0);
    m.reflective = S;
    m.transparency = S;
    m.refractive_index = 1_500_000;
    w.scene.set_material(0, m);
    let ray = Ray::new((0, 0, -5 * S), (0, 0, S));
    let (hit, xs) = w.intersections(&ray);
    let st = ray.intersection_state(&hit.unwrap(), &xs, &w.scene);
    assert_eq!(w.reflected_color(&st, 0), Color::black());
    assert_eq!(w.refracted_color(&st, 0), Color::black());
}

#[test]
fn reflected_color_of_non_reflective_surface_is_black() {
    let w = World::default();
    let ray = Ray::new((0, 0, 0), (0, 0, S));
    let (hit, xs) = w.intersections(&ray);
    let st = ray.intersection_state(&hit.unwrap(), &xs, &w.scene);
    assert_eq!(w.reflected_color(&st, 5), Color::black());
    assert_eq!(w.refracted_color(&st, 5), Color::black());
}

#[test]
fn reflective_plane_like_sphere_reflects() {
    let mut w = World::default();
    let mut m = Material::new();
    m.reflective = 500_000;
    let floor = w.scene.add_sphere(Transform::scaling(100 * S, 10_000, 100 * S).followed_by(&Transform::translation(0, -S, 0)), m);
    w.objects.push(floor);
    let ray = Ray::new((0, 0, -3 * S), (0, -707_107, 707_107));
    let (hit, xs) = w.intersections(&ray);
    let hit = hit.unwrap();
    assert_eq!(hit.object, floor);
    let st = ray.intersection_state(&hit, &xs, &w.scene);
    let c = w.reflected_color(&st, 5);
    assert!(c.r > 0 && c.g > 0 && c.b > 0);
    assert!(c.r < 500_000 && c.g < 500_000 && c.b < 500_000);
}

#[test]
fn total_internal_reflection_gives_black() {
    let mut w = World::default();
    let mut m = w.scene.material(0);
    m.transparency = S;
    m.refractive_index = 1_500_000;
    w.scene.set_material(0, m);
    let ray = Ray::new((0, 0, 707_107), (0, S, 0));
    let xs = vec![Intersection { t: -707_107, object: 0 }, Intersection { t: 707_107, object: 0 }];
    let st = ray.intersection_state(&xs[1], &xs, &w.scene);
    assert_eq!(st.n1, 1_500_000);
    assert_eq!(st.n2, S);
    assert_eq!(w.refracted_color(&st, 5), Color::black());
    assert_eq!(st.schlick(), S);
}

#[test]
fn refractive_indices_along_nested_spheres() {
    let mut scene = Scene::new();
    let glass = |index: i64| Material { transparency: S, refractive_index: index, ..Material::new() };
    let a = scene.add_sphere(Transform::scaling(2 * S, 2 * S, 2 * S), glass(1_500_000));
    let b = scene.add_sphere(Transform::translation(0, 0, -250_000), glass(2_000_000));
    let c = scene.add_sphere(Transform::translation(0, 0, 250_000), glass(2_500_000));
    let w = World::new(scene, vec![a, b, c], PointLight::new(Tuple::new(-10 * S, 10 * S, -10 * S), Color::white())).unwrap();
    let ray = Ray::new((0, 0, -4 * S), (0, 0, S));
    let (_, xs) = w.intersections(&ray);
    let objects: Vec<usize> = xs.iter().map(|x| x.object).collect();
    assert_eq!(objects, vec![a, b, c, b, c, a]);
    let expected = [
        (S, 1_500_000),
        (1_500_000, 2_000_000),
        (2_000_000, 2_500_000),
        (2_500_000, 2_500_000),
        (2_500_000, 1_500_000),
        (1_500_000, S),
    ];
    for (k, x) in xs.iter().enumerate() {
        let st = ray.intersection_state(x, &xs, &w.scene);
        assert_eq!((st.n1, st.n2), expected[k]);
    }
}

#[test]
fn schlick_at_perpendicular_view() {
    let mut scene = Scene::new();
    let glass = Material { transparency: S, refractive_index: 1_500_000, ..Material::new() };
    let a = scene.add_sphere(Transform::identity(), glass);
    let w = World::new(scene, vec![a], PointLight::new(Tuple::new(-10 * S, 10 * S, -10 * S), Color::white())).unwrap();
    let ray = Ray::new((0, 0, 0), (0, S, 0));
    let xs = vec![Intersection { t: -S, object: 0 }, Intersection { t: S, object: 0 }];
    let st = ray.intersection_state(&xs[1], &xs, &w.scene);
    assert!(near(st.schlick(), 40_000, 100));
}

#[test]
fn world_new_rejects_bad_input() {
    let mut scene = Scene::new();
    let a = scene.add_sphere(Transform::identity(), Material::new());
    let light = PointLight::new(Tuple::new(0, 0, 0), Color::white());
    assert!(World::new(scene, vec![a, 7], light).is_none());
    let mut scene = Scene::new();
    let a = scene.add_sphere(Transform::identity(), Material { refractive_index: 0, ..Material::new() });
    assert!(World::new(scene, vec![a], light).is_none());
}

#[test]
fn lighting_with_eye_between_light_and_surface() {
    let m = Material::new();
    let light = PointLight::new(Tuple::new(0, 0, -10 * S), Color::white());
    let p = Tuple::new(0, 0, 0);
    let eye = Tuple::new(0, 0, -S);
    let normal = Tuple::new(0, 0, -S);
    let white = Color::white();
    assert_eq!(m.lighting(&white, &light, &p, &eye, &normal, false), Color::new(1_900_000, 1_900_000, 1_900_000));
    assert_eq!(m.lighting(&white, &light, &p, &eye, &normal, true), Color::new(100_000, 100_000, 100_000));
    let behind = PointLight::new(Tuple::new(0, 0, 10 * S), Color::white());
    assert_eq!(m.lighting(&white, &behind, &p, &eye, &normal, false), Color::new(100_000, 100_000, 100_000));
}

#[test]
fn group_attachment_sets_parent_and_appends_once() {
    let mut scene = Scene::new();
    let g = scene.add_group(Transform::identity());
    let c = scene.add_sphere(Transform::identity(), Material::new());
    let d = scene.add_sphere(Transform::identity(), Material::new());
    assert_eq!(scene.add_child(g, c), Ok(()));
    assert_eq!(scene.parent(c), Some(g));
    assert_eq!(scene.children(g), &[c][..]);
    assert_eq!(scene.add_child(g, c), Err(SceneError::AlreadyAttached));
    assert_eq!(scene.children(g), &[c][..]);
    assert_eq!(scene.add_child(g, d), Ok(()));
    assert_eq!(scene.children(g), &[c, d][..]);
    assert_eq!(scene.parent(g), None);
}

#[test]
fn group_attachment_errors() {
    let mut scene = Scene::new();
    let s = scene.add_sphere(Transform::identity(), Material::new());
    let g = scene.add_group(Transform::identity());
    let t = scene.add_sphere(Transform::identity(), Material::new());
    assert_eq!(scene.add_child(g, 99), Err(SceneError::NoSuchShape));
    assert_eq!(scene.add_child(s, t), Err(SceneError::NotAGroup));
    assert_eq!(scene.add_child(g, s), Err(SceneError::ChildNotAfterGroup));
    assert_eq!(scene.add_child(g, g), Err(SceneError::ChildNotAfterGroup));
    assert_eq!(scene.parent(s), None);
    assert!(scene.children(g).is_empty());
}

#[test]
fn nested_world_to_object_and_normal() {
    let mut scene = Scene::new();
    let g1 = scene.add_group(Transform::rotation(1, S, 0));
    let g2 = scene.add_group(Transform::scaling(2 * S, 2 * S, 2 * S));
    let s = scene.add_sphere(Transform::translation(5 * S, 0, 0), Material::new());
    scene.add_child(g1, g2).unwrap();
    scene.add_child(g2, s).unwrap();
    assert_eq!(scene.world_to_object(s, &Tuple::new(-2 * S, 0, -10 * S)), Tuple::new(0, 0, -S));
    let mut scene = Scene::new();
    let g1 = scene.add_group(Transform::rotation(1, S, 0));
    let g2 = scene.add_group(Transform::scaling(S, 2 * S, 3 * S));
    let s = scene.add_sphere(Transform::translation(5 * S, 0, 0), Material::new());
    scene.add_child(g1, g2).unwrap();
    scene.add_child(g2, s).unwrap();
    let n = scene.normal_to_world(s, &Tuple::new(577_350, 577_350, 577_350));
    assert!(near(n.x, 285_714, 1000) && near(n.y, 428_571, 1000) && near(n.z, -857_142, 1000));
}

#[test]
fn group_intersections_through_children() {
    let mut scene = Scene::new();
    let g = scene.add_group(Transform::identity());
    let s1 = scene.add_sphere(Transform::identity(), Material::new());
    let s2 = scene.add_sphere(Transform::translation(0, 0, -3 * S), Material::new());
    let s3 = scene.add_sphere(Transform::translation(5 * S, 0, 0), Material::new());
    scene.add_child(g, s1).unwrap();
    scene.add_child(g, s2).unwrap();
    scene.add_child(g, s3).unwrap();
    let w = World::new(scene, vec![g], PointLight::new(Tuple::new(-10 * S, 10 * S, -10 * S), Color::white())).unwrap();
    let ray = Ray::new((0, 0, -5 * S), (0, 0, S));
    let (hit, xs) = w.intersections(&ray);
    let objects: Vec<usize> = xs.iter().map(|x| x.object).collect();
    assert_eq!(objects, vec![s2, s2, s1, s1]);
    assert_eq!(hit, Some(Intersection { t: S, object: s2 }));
    assert!(w.scene.intersect(g, &Ray::new((0, 0, -5 * S), (0, S, 0))).is_empty());
}

#[test]
fn transformed_group_intersections() {
    let mut scene = Scene::new();
    let g = scene.add_group(Transform::scaling(2 * S, 2 * S, 2 * S));
    let s = scene.add_sphere(Transform::translation(5 * S, 0, 0), Material::new());
    scene.add_child(g, s).unwrap();
    let ray = Ray::new((10 * S, 0, -10 * S), (0, 0, S));
    let xs = scene.intersect(g, &ray);
    assert_eq!(xs.len(), 2);
    assert!(xs.iter().all(|x| x.object == s));
}

#[test]
fn camera_pixel_size() {
    assert_eq!(Camera::new(200, 125, S).pixel_size, 10_000);
    assert_eq!(Camera::new(125, 200, S).pixel_size, 10_000);
    let c = Camera::new(160, 120, S);
    assert_eq!(c.half_width, S);
    assert_eq!(c.half_height, 750_000);
}

#[test]
fn camera_rays_through_pixels() {
    let c = Camera::new(201, 101, S);
    let centre = c.ray_for_pixel(100, 50);
    assert_eq!(centre.origin, Tuple::new(0, 0, 0));
    assert!(near(centre.direction.x, 0, 100) && near(centre.direction.y, 0, 100) && near(centre.direction.z, -S, 100));
    let corner = c.ray_for_pixel(0, 0);
    assert!(near(corner.direction.x, 665_190, 1000) && near(corner.direction.y, 332_595, 1000) && near(corner.direction.z, -668_516, 1000));
}

#[test]
fn render_default_world_centre_pixel() {
    let w = World::default();
    let mut c = Camera::new(11, 11, S);
    c.transform = Transform::view(&Tuple::new(0, 0, -5 * S), &Tuple::new(0, 0, 0), &Tuple::new(0, S, 0));
    let image = c.render(&w);
    assert_eq!(image.len(), 11);
    assert!(image.iter().all(|row| row.len() == 11));
    assert!(near_color(image[5][5], 380_661, 475_826, 285_496));
}

#[test]
fn render_rows_match_whole_render() {
    let w = World::default();
    let mut c = Camera::new(9, 7, S);
    c.transform = Transform::view(&Tuple::new(0, 0, -5 * S), &Tuple::new(0, 0, 0), &Tuple::new(0, S, 0));
    let first = c.render(&w);
    let second = c.render(&w);
    assert_eq!(first, second);
    for y in (0..7u16).rev() {
        assert_eq!(c.render_row(&w, y), first[y as usize]);
    }
}

#[test]
fn rows_assembled_in_any_order() {
    let a = vec![Color::new(1, 1, 1)];
    let b = vec![Color::new(2, 2, 2)];
    let c = vec![Color::new(3, 3, 3)];
    let rows = vec![(2u16, c.clone()), (0u16, a.clone()), (1u16, b.clone())];
    assert_eq!(ray_tracer::camera::assemble_rows(3, rows), Some(vec![a.clone(), b.clone(), c.clone()]));
    assert_eq!(ray_tracer::camera::assemble_rows(3, vec![(0, a.clone()), (0, b.clone()), (1, c.clone())]), None);
    assert_eq!(ray_tracer::camera::assemble_rows(2, vec![(0, a.clone()), (2, b.clone())]), None);
    assert_eq!(ray_tracer::camera::assemble_rows(2, vec![(1, a.clone())]), None);
    assert_eq!(ray_tracer::camera::assemble_rows(0, vec![]), Some(vec![]));
}

#[test]
fn negligible_coefficients_give_black() {
    let mut w = World::default();
    let mut m = w.scene.material(0);
    m.reflective = 50;
    m.transparency = 50;
    w.scene.set_material(0, m);
    let ray = Ray::new((0, 0, -5 * S), (0, 0, S));
    let (hit, xs) = w.intersections(&ray);
    let st = ray.intersection_state(&hit.unwrap(), &xs, &w.scene);
    assert_eq!(w.reflected_color(&st, 5), Color::black());
    assert_eq!(w.refracted_color(&st, 5), Color::black());
}

#[test]
fn flipped_normal_faces_the_eye() {
    let w = World::default();
    let ray = Ray::new((0, 0, 0), (0, 0, S));
    let (hit, xs) = w.intersections(&ray);
    let st = ray.intersection_state(&hit.unwrap(), &xs, &w.scene);
    assert!(st.inside);
    let d = st.normalv.x as i128 * st.eyev.x as i128 + st.normalv.y as i128 * st.eyev.y as i128 + st.normalv.z as i128 * st.eyev.z as i128;
    assert!(d >= 0);
}
