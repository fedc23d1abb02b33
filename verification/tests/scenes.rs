use image::GenericImageView;
use raytracer::colour::Colour;
use raytracer::geometry::{Geometry, Intersectable, Material, Plane, Sphere, SurfaceType};
use raytracer::light::{DirectionalLight, Light, SphericalLight};
use raytracer::point::Point;
use raytracer::render::render;
use raytracer::scalar::Scalar;
use raytracer::shading::{diffuse_light, in_light, phong_lighting, recurse_ray, reflective_light};
use raytracer::vector::Vector;
use raytracer::world::{Camera, Intersection, Ray, Scene};

fn s(x: f64) -> Scalar {
    Scalar { raw: (x * 4294967296.0).round() as i64 }
}

fn v(x: f64, y: f64, z: f64) -> Vector {
    Vector { x: s(x), y: s(y), z: s(z) }
}

fn p(x: f64, y: f64, z: f64) -> Point {
    Point { x: s(x), y: s(y), z: s(z) }
}

fn c(r: f64, g: f64, b: f64) -> Colour {
    Colour { red: s(r), green: s(g), blue: s(b) }
}

fn raw(r: i64, g: i64, b: i64) -> Colour {
    Colour { red: Scalar { raw: r }, green: Scalar { raw: g }, blue: Scalar { raw: b } }
}

fn matt(colour: Colour, albedo: f64) -> Material {
    Material { colour, albedo: s(albedo), surface: SurfaceType::Diffuse, shininess: 0 }
}

fn mirror(colour: Colour, albedo: f64, reflectivity: f64, shininess: u16) -> Material {
    Material { colour, albedo: s(albedo), surface: SurfaceType::Reflective(s(reflectivity)), shininess }
}

fn sphere(center: Point, radius: f64, material: Material) -> Geometry {
    Geometry::Sphere(Sphere { center, radius: s(radius), material })
}

fn plane(origin: Point, normal: Vector, material: Material) -> Geometry {
    Geometry::Plane(Plane { origin, normal, material })
}

fn sun(direction: Vector, intensity: f64) -> Light {
    Light::Directional(DirectionalLight { direction, colour: c(1.0, 1.0, 1.0), intensity: s(intensity) })
}

fn scene(width: u32, height: u32, depth: u8, elements: Vec<Geometry>, lights: Vec<Light>) -> Scene {
    Scene {
        width,
        height,
        max_reflections: depth,
        camera: Camera { position: p(0.0, 0.0, 0.0) },
        elements,
        lights,
    }
}

fn shadow_scene() -> Scene {
    scene(
        3,
        3,
        3,
        vec![
            plane(p(0.0, -1.0, 0.0), v(0.0, -1.0, 0.0), matt(c(0.5, 0.5, 0.5), 0.5)),
            sphere(p(0.0, 1.0, -5.0), 1.0, matt(c(1.0, 0.0, 0.0), 1.0)),
        ],
        vec![sun(v(0.0, -1.0, 0.0), 2.0)],
    )
}

fn hall_scene() -> Scene {
    scene(
        5,
        4,
        3,
        vec![
            sphere(p(0.0, 0.0, -5.0), 1.0, mirror(c(0.2, 0.4, 0.8), 0.5, 0.5, 10)),
            plane(p(0.0, 0.0, -10.0), v(0.0, 0.0, -1.0), matt(c(0.9, 0.9, 0.1), 0.8)),
            plane(p(0.0, -1.0, 0.0), v(0.0, -1.0, 0.0), mirror(c(0.1, 0.9, 0.1), 0.6, 0.25, 4)),
        ],
        vec![
            Light::Spherical(SphericalLight {
                position: p(2.0, 4.0, -2.0),
                colour: c(1.0, 0.9, 0.8),
                intensity: s(2000.0),
            }),
            sun(v(-1.0, -2.0, -1.0), 3.0),
        ],
    )
}

#[test]
fn sphere_is_hit_head_on() {
    let ball = Sphere { center: p(0.0, 0.0, 0.0), radius: s(1.0), material: matt(c(1.0, 1.0, 1.0), 1.0) };
    let origin = p(0.0, 0.0, 5.0);
    let ray = Ray { origin: &origin, direction: v(0.0, 0.0, -1.0) };
    assert_eq!(ball.intersects(&ray), Some(s(4.0)));
    let at = ray.phit(s(4.0));
    assert_eq!(at, p(0.0, 0.0, 1.0));
    assert_eq!(ball.surface_normal(&at), v(0.0, 0.0, 1.0));
}

#[test]
fn sphere_behind_the_origin_is_missed() {
    let ball = Sphere { center: p(0.0, 0.0, 0.0), radius: s(1.0), material: matt(c(1.0, 1.0, 1.0), 1.0) };
    let origin = p(0.0, 0.0, 5.0);
    let away = Ray { origin: &origin, direction: v(0.0, 0.0, 1.0) };
    assert_eq!(ball.intersects(&away), None);
}

#[test]
fn sphere_beside_the_ray_is_missed() {
    let ball = Sphere { center: p(0.0, 0.0, 0.0), radius: s(1.0), material: matt(c(1.0, 1.0, 1.0), 1.0) };
    let origin = p(1.5, 0.0, 5.0);
    let past = Ray { origin: &origin, direction: v(0.0, 0.0, -1.0) };
    assert_eq!(ball.intersects(&past), None);
    let edge = p(1.0, 0.0, 5.0);
    let grazing = Ray { origin: &edge, direction: v(0.0, 0.0, -1.0) };
    assert_eq!(ball.intersects(&grazing), Some(s(5.0)));
}

#[test]
fn sphere_around_the_origin_gives_a_negative_distance() {
    let ball = Sphere { center: p(0.0, 0.0, -0.5), radius: s(1.0), material: matt(c(1.0, 1.0, 1.0), 1.0) };
    let origin = p(0.0, 0.0, 0.0);
    let ray = Ray { origin: &origin, direction: v(0.0, 0.0, -1.0) };
    assert_eq!(ball.intersects(&ray), Some(s(-0.5)));
}

#[test]
fn plane_is_hit_from_the_side_its_normal_points_away_from() {
    let origin = p(0.0, 5.0, 0.0);
    let ray = Ray { origin: &origin, direction: v(0.0, -1.0, 0.0) };
    let floor = Plane { origin: p(0.0, 0.0, 0.0), normal: v(0.0, -1.0, 0.0), material: matt(c(1.0, 1.0, 1.0), 1.0) };
    assert_eq!(floor.intersects(&ray), Some(s(5.0)));
    assert_eq!(floor.surface_normal(&ray.phit(s(5.0))), v(0.0, 1.0, 0.0));
    let facing = Plane { origin: p(0.0, 0.0, 0.0), normal: v(0.0, 1.0, 0.0), material: matt(c(1.0, 1.0, 1.0), 1.0) };
    assert_eq!(facing.intersects(&ray), None);
    assert_eq!(facing.surface_normal(&origin), v(0.0, -1.0, 0.0));
}

#[test]
fn plane_along_or_behind_the_ray_is_missed() {
    let floor = Plane { origin: p(0.0, 0.0, 0.0), normal: v(0.0, -1.0, 0.0), material: matt(c(1.0, 1.0, 1.0), 1.0) };
    let above = p(0.0, 5.0, 0.0);
    let level = Ray { origin: &above, direction: v(1.0, 0.0, 0.0) };
    assert_eq!(floor.intersects(&level), None);
    let nearly = Ray { origin: &above, direction: Vector { x: s(1.0), y: Scalar { raw: -4294 }, z: s(0.0) } };
    assert_eq!(floor.intersects(&nearly), None);
    let barely = Ray { origin: &above, direction: Vector { x: s(1.0), y: Scalar { raw: -4295 }, z: s(0.0) } };
    assert_eq!(barely.direction.y.raw, -4295);
    assert_eq!(floor.intersects(&barely), Some(Scalar { raw: 21474672961245112 }));
    let below = p(0.0, -5.0, 0.0);
    let down = Ray { origin: &below, direction: v(0.0, -1.0, 0.0) };
    assert_eq!(floor.intersects(&down), None);
    let on = p(3.0, 0.0, 3.0);
    let from_it = Ray { origin: &on, direction: v(0.0, -1.0, 0.0) };
    assert_eq!(floor.intersects(&from_it), Some(s(0.0)));
}

#[test]
fn geometry_hands_on_to_its_shape() {
    let origin = p(0.0, 0.0, 5.0);
    let ray = Ray { origin: &origin, direction: v(0.0, 0.0, -1.0) };
    let ball = sphere(p(0.0, 0.0, 0.0), 1.0, matt(c(1.0, 1.0, 1.0), 1.0));
    assert_eq!(ball.intersects(&ray), Some(s(4.0)));
    assert_eq!(ball.surface_normal(&p(0.0, 2.0, 0.0)), v(0.0, 1.0, 0.0));
    let wall = plane(p(0.0, 0.0, -2.0), v(0.0, 0.0, -1.0), matt(c(1.0, 1.0, 1.0), 1.0));
    assert_eq!(wall.intersects(&ray), Some(s(7.0)));
    assert_eq!(wall.surface_normal(&p(0.0, 2.0, 0.0)), v(0.0, 0.0, 1.0));
}

#[test]
fn geometry_shows_its_material() {
    let ball = sphere(p(0.0, 0.0, 0.0), 1.0, mirror(c(0.1, 0.2, 0.3), 0.4, 0.5, 6));
    assert_eq!(*ball.colour(), c(0.1, 0.2, 0.3));
    assert_eq!(ball.albedo(), s(0.4));
    assert_eq!(*ball.surface(), SurfaceType::Reflective(s(0.5)));
    assert_eq!(ball.shininess(), 6);
    let wall = plane(p(0.0, 0.0, 0.0), v(0.0, 0.0, 1.0), matt(c(0.9, 0.8, 0.7), 0.6));
    assert_eq!(*wall.colour(), c(0.9, 0.8, 0.7));
    assert_eq!(wall.albedo(), s(0.6));
    assert_eq!(*wall.surface(), SurfaceType::Diffuse);
    assert_eq!(wall.shininess(), 0);
}

#[test]
fn directional_light() {
    let light = Light::Directional(DirectionalLight {
        direction: v(0.0, -2.0, 0.0),
        colour: c(1.0, 0.5, 0.25),
        intensity: s(3.0),
    });
    let at = p(7.0, 8.0, 9.0);
    assert_eq!(light.direction(&at), v(0.0, 1.0, 0.0));
    assert_eq!(light.intensity(&at), s(3.0));
    assert_eq!(*light.colour(), c(1.0, 0.5, 0.25));
    assert_eq!(light.distance(&at).raw, i64::MAX);
}

#[test]
fn spherical_light() {
    let light = Light::Spherical(SphericalLight {
        position: p(0.0, 3.0, 0.0),
        colour: c(0.25, 0.5, 1.0),
        intensity: s(100.0),
    });
    let at = p(0.0, 1.0, 0.0);
    assert_eq!(light.direction(&at), v(0.0, 1.0, 0.0));
    assert_eq!(*light.colour(), c(0.25, 0.5, 1.0));
    assert_eq!(light.distance(&at), s(2.0));
    assert_eq!(light.distance(&p(4.0, 0.0, 0.0)), s(5.0));
    assert_eq!(light.intensity(&at).raw, 8544565945);
}

#[test]
fn spherical_light_thins_out_with_the_square_of_the_distance() {
    let light = Light::Spherical(SphericalLight {
        position: p(0.0, 0.0, 0.0),
        colour: c(1.0, 1.0, 1.0),
        intensity: s(100.0),
    });
    let one = light.intensity(&p(1.0, 0.0, 0.0));
    let two = light.intensity(&p(0.0, 2.0, 0.0));
    let four = light.intensity(&p(0.0, 0.0, -4.0));
    assert_eq!(one.raw, 34178263780);
    assert_eq!(two.raw, 8544565945);
    assert_eq!(four.raw, 2136141486);
    assert_eq!(one.raw / 4, two.raw);
    assert_eq!(two.raw / 4, four.raw);
    let exact = 100.0 / (4.0 * std::f64::consts::PI);
    assert!((one.raw as f64 / 4294967296.0 - exact).abs() < 1e-8);
}

#[test]
fn ray_reaches_the_point_at_a_distance() {
    let origin = p(1.0, 2.0, 3.0);
    let ray = Ray { origin: &origin, direction: v(0.0, 0.5, -1.0) };
    assert_eq!(ray.phit(s(0.0)), origin);
    assert_eq!(ray.phit(s(4.0)), p(1.0, 4.0, -1.0));
    assert_eq!(ray.phit(s(-2.0)), p(1.0, 1.0, 5.0));
}

#[test]
fn intersection_keeps_its_parts() {
    let ball = sphere(p(0.0, 0.0, 0.0), 1.0, matt(c(1.0, 1.0, 1.0), 1.0));
    let found = Intersection::new(s(2.5), &ball);
    assert_eq!(found.distance, s(2.5));
    assert_eq!(*found.object, ball);
}

#[test]
fn trace_finds_the_nearest() {
    let far = sphere(p(0.0, 0.0, -9.0), 1.0, matt(c(1.0, 0.0, 0.0), 1.0));
    let near = sphere(p(0.0, 0.0, -4.0), 1.0, matt(c(0.0, 1.0, 0.0), 1.0));
    let aside = sphere(p(5.0, 0.0, -2.0), 1.0, matt(c(0.0, 0.0, 1.0), 1.0));
    let wall = plane(p(0.0, 0.0, -20.0), v(0.0, 0.0, -1.0), matt(c(1.0, 1.0, 1.0), 1.0));
    let world = scene(1, 1, 1, vec![far, near, aside, wall], vec![]);
    let origin = p(0.0, 0.0, 0.0);
    let ray = Ray { origin: &origin, direction: v(0.0, 0.0, -1.0) };
    let found = world.trace(&ray).unwrap();
    assert_eq!(found.distance, s(3.0));
    assert_eq!(*found.object, near);
    let up = Ray { origin: &origin, direction: v(0.0, 1.0, 0.0) };
    assert!(world.trace(&up).is_none());
    let back = p(0.0, 0.0, -12.0);
    let behind = Ray { origin: &back, direction: v(0.0, 0.0, -1.0) };
    let at_wall = world.trace(&behind).unwrap();
    assert_eq!(at_wall.distance, s(8.0));
    assert_eq!(*at_wall.object, wall);
}

#[test]
fn trace_keeps_the_first_of_equally_near() {
    let first = sphere(p(0.0, 0.0, -4.0), 1.0, matt(c(1.0, 0.0, 0.0), 1.0));
    let second = sphere(p(0.0, 0.0, -4.0), 1.0, matt(c(0.0, 1.0, 0.0), 1.0));
    let world = scene(1, 1, 1, vec![first, second], vec![]);
    let origin = p(0.0, 0.0, 0.0);
    let ray = Ray { origin: &origin, direction: v(0.0, 0.0, -1.0) };
    let found = world.trace(&ray).unwrap();
    assert_eq!(found.distance, s(3.0));
    assert_eq!(*found.object, first);
}

#[test]
fn trace_of_an_empty_scene() {
    let world = scene(1, 1, 1, vec![], vec![]);
    let origin = p(0.0, 0.0, 0.0);
    let ray = Ray { origin: &origin, direction: v(0.0, 0.0, -1.0) };
    assert!(world.trace(&ray).is_none());
}

#[test]
fn primary_ray_through_the_middle() {
    let world = scene(3, 3, 1, vec![], vec![]);
    let ray = world.camera.create_prime(1, 1, &world);
    assert_eq!(*ray.origin, p(0.0, 0.0, 0.0));
    assert_eq!(ray.direction, v(0.0, 0.0, -1.0));
    let single = scene(1, 1, 1, vec![], vec![]);
    assert_eq!(single.camera.create_prime(0, 0, &single).direction, v(0.0, 0.0, -1.0));
}

#[test]
fn primary_rays_of_the_corners() {
    let world = scene(4, 2, 1, vec![], vec![]);
    let top_left = world.camera.create_prime(0, 0, &world).direction;
    assert_eq!((top_left.x.raw, top_left.y.raw, top_left.z.raw), (-2232387721, 744129240, -3592973812));
    let bottom_right = world.camera.create_prime(3, 1, &world).direction;
    assert_eq!(
        (bottom_right.x.raw, bottom_right.y.raw, bottom_right.z.raw),
        (2232387721, -744129240, -3592973812),
    );
    let fov = (22.5f64).to_radians().tan();
    let (sx, sy) = (-0.75 * 2.0 * fov, 0.5 * fov);
    let length = (sx * sx + sy * sy + 1.0).sqrt();
    assert!((top_left.x.raw as f64 / 4294967296.0 - sx / length).abs() < 1e-8);
    assert!((top_left.y.raw as f64 / 4294967296.0 - sy / length).abs() < 1e-8);
    assert!((top_left.z.raw as f64 / 4294967296.0 + 1.0 / length).abs() < 1e-8);
}

#[test]
fn primary_ray_starts_at_the_camera() {
    let mut world = scene(2, 2, 1, vec![], vec![]);
    world.camera = Camera { position: p(0.0, 0.0, 1.0) };
    let ray = world.camera.create_prime(0, 0, &world);
    assert_eq!(*ray.origin, p(0.0, 0.0, 1.0));
    let sensor = Vector { x: Scalar { raw: -889516851 }, y: Scalar { raw: 889516851 }, z: s(-2.0) };
    assert_eq!(ray.direction, sensor.normalise());
}

#[test]
fn no_bounce_left_means_no_light() {
    let world = hall_scene();
    let origin = p(0.0, 0.0, 0.0);
    for direction in [v(0.0, 0.0, -1.0), v(0.15, 0.1, -1.0).normalise(), v(0.0, -0.25, -1.0).normalise()] {
        let ray = Ray { origin: &origin, direction };
        assert_eq!(recurse_ray(&ray, &world, 0), Colour::black());
        assert_ne!(recurse_ray(&ray, &world, 1), Colour::black());
    }
}

#[test]
fn ray_into_the_void_brings_no_light() {
    let world = shadow_scene();
    let origin = p(0.0, 0.0, 0.0);
    let up = Ray { origin: &origin, direction: v(0.0, 1.0, 0.0) };
    assert_eq!(recurse_ray(&up, &world, 3), Colour::black());
}

#[test]
fn shadow_takes_the_diffuse_light_away() {
    let world = shadow_scene();
    let light = &world.lights[0];
    let open = p(3.0, -1.0, -5.0);
    let covered = p(0.0, -1.0, -5.0);
    let to_light = light.direction(&open);
    assert_eq!(to_light, v(0.0, 1.0, 0.0));
    assert!(in_light(&open, light, &world, &to_light));
    assert!(!in_light(&covered, light, &world, &to_light));
    let above_open = p(3.0, 3.0, -5.0);
    let lit = recurse_ray(&Ray { origin: &above_open, direction: v(0.0, -1.0, 0.0) }, &world, 3);
    assert_eq!(lit, raw(683565275, 683565275, 683565275));
    assert!(lit.red.raw > 0);
    let under_ball = p(0.0, -0.5, -5.0);
    let dark = recurse_ray(&Ray { origin: &under_ball, direction: v(0.0, -1.0, 0.0) }, &world, 3);
    assert_eq!(dark, Colour::black());
}

#[test]
fn surface_beyond_the_light_casts_no_shadow() {
    let lamp = Light::Spherical(SphericalLight {
        position: p(0.0, 2.0, 0.0),
        colour: c(1.0, 1.0, 1.0),
        intensity: s(10.0),
    });
    let beyond = sphere(p(0.0, 6.0, 0.0), 1.0, matt(c(1.0, 1.0, 1.0), 1.0));
    let between = sphere(p(0.0, 1.0, 0.0), 0.25, matt(c(1.0, 1.0, 1.0), 1.0));
    let at = p(0.0, 0.0, 0.0);
    let up = v(0.0, 1.0, 0.0);
    let open = scene(1, 1, 1, vec![beyond], vec![lamp]);
    assert!(in_light(&at, &lamp, &open, &up));
    let blocked = scene(1, 1, 1, vec![beyond, between], vec![lamp]);
    assert!(!in_light(&at, &lamp, &blocked, &up));
}

#[test]
fn diffuse_light_follows_its_formula() {
    let world = hall_scene();
    let floor = &world.elements[2];
    let lamp = &world.lights[0];
    let at = p(0.0, -1.0, -3.0);
    let normal = v(0.0, 1.0, 0.0);
    let to_lamp = lamp.direction(&at);
    assert_eq!((to_lamp.x.raw, to_lamp.y.raw, to_lamp.z.raw), (1568300314, 3920750786, 784150157));
    assert_eq!(lamp.intensity(&at).raw, 22785509186);
    assert_eq!(lamp.distance(&at).raw, 23524504717);
    assert_eq!(diffuse_light(&normal, &to_lamp, &at, lamp, floor), raw(397255110, 3217766390, 317804088));
    let grey = plane(p(0.0, -1.0, 0.0), v(0.0, -1.0, 0.0), matt(c(0.5, 0.5, 0.5), 0.5));
    let overhead = sun(v(0.0, -1.0, 0.0), 2.0);
    let straight = diffuse_light(&normal, &v(0.0, 1.0, 0.0), &at, &overhead, &grey);
    assert_eq!(straight, raw(683565275, 683565275, 683565275));
    let exact = 0.5 * 2.0 * 0.5 / std::f64::consts::PI;
    assert!((straight.red.raw as f64 / 4294967296.0 - exact).abs() < 1e-8);
}

#[test]
fn light_from_behind_the_surface_adds_nothing() {
    let grey = plane(p(0.0, -1.0, 0.0), v(0.0, -1.0, 0.0), matt(c(0.5, 0.5, 0.5), 0.5));
    let from_below = sun(v(0.0, 1.0, 0.0), 2.0);
    let at = p(0.0, -1.0, -3.0);
    let normal = v(0.0, 1.0, 0.0);
    assert_eq!(diffuse_light(&normal, &v(0.0, -1.0, 0.0), &at, &from_below, &grey), Colour::black());
    let level = diffuse_light(&normal, &v(1.0, 0.0, 0.0), &at, &from_below, &grey);
    assert_eq!(level, Colour::black());
}

#[test]
fn highlight_follows_its_formula() {
    let world = hall_scene();
    let floor = &world.elements[2];
    let lamp = &world.lights[0];
    let at = p(0.0, -1.0, -3.0);
    let origin = p(0.0, 0.0, 0.0);
    let normal = v(0.0, 1.0, 0.0);
    let to_lamp = lamp.direction(&at);
    let ray = Ray { origin: &origin, direction: v(0.0, -1.0, -3.0).normalise() };
    assert_eq!((ray.direction.y.raw, ray.direction.z.raw), (-1358187913, -4074563739));
    assert_eq!(phong_lighting(lamp, &to_lamp, &ray, &at, &normal, floor), raw(2025376, 2025376, 2025376));
    let away = Ray { origin: &origin, direction: v(0.0, 1.0, 3.0).normalise() };
    assert_eq!(phong_lighting(lamp, &to_lamp, &away, &at, &normal, floor), Colour::black());
}

#[test]
fn highlight_is_half_the_light_along_the_mirrored_direction() {
    let shiny = sphere(p(0.0, 0.0, 0.0), 1.0, mirror(c(1.0, 1.0, 1.0), 1.0, 1.0, 3));
    let overhead = sun(v(0.0, -1.0, 0.0), 2.0);
    let at = p(0.0, 1.0, 0.0);
    let origin = p(0.0, 5.0, 0.0);
    let ray = Ray { origin: &origin, direction: v(0.0, -1.0, 0.0) };
    let normal = v(0.0, 1.0, 0.0);
    let glint = phong_lighting(&overhead, &v(0.0, 1.0, 0.0), &ray, &at, &normal, &shiny);
    assert_eq!(glint, c(1.0, 1.0, 1.0));
}

#[test]
fn mirror_adds_the_light_of_the_mirrored_ray() {
    let world = hall_scene();
    let origin = p(0.0, 0.0, 0.0);
    let ray = Ray { origin: &origin, direction: v(0.15, 0.1, -1.0).normalise() };
    assert_eq!(
        (ray.direction.x.raw, ray.direction.y.raw, ray.direction.z.raw),
        (634024572, 422683049, -4226830486),
    );
    assert_eq!(recurse_ray(&ray, &world, 1), raw(1314526048, 2423934221, 4455295508));
    assert_eq!(recurse_ray(&ray, &world, 2), raw(3196318446, 4238103181, 4649356120));
    assert_eq!(recurse_ray(&ray, &world, 3), raw(3196318446, 4238103181, 4649356120));
    let at_floor = Ray { origin: &origin, direction: v(0.0, -0.25, -1.0).normalise() };
    assert_eq!(recurse_ray(&at_floor, &world, 3), raw(545260776, 4597445993, 476393888));
    let in_shadow = Ray { origin: &origin, direction: v(0.1, -0.2, -1.0).normalise() };
    assert_eq!(recurse_ray(&in_shadow, &world, 3), Colour::black());
}

#[test]
fn mirrored_ray_has_one_bounce_less() {
    let world = hall_scene();
    let origin = p(0.0, 0.0, 0.0);
    let ray = Ray { origin: &origin, direction: v(0.15, 0.1, -1.0).normalise() };
    let found = world.trace(&ray).unwrap();
    let at = ray.phit(found.distance);
    let normal = found.object.surface_normal(&at);
    assert_eq!(reflective_light(&normal, &ray.direction, &at, &world, 1), Colour::black());
    let mirrored = Ray { origin: &at, direction: Vector::reflect(&normal, &ray.direction) };
    let seen = reflective_light(&normal, &ray.direction, &at, &world, 2);
    assert_eq!(seen, recurse_ray(&mirrored, &world, 1));
    assert_ne!(seen, Colour::black());
}

#[test]
fn render_fills_every_pixel() {
    let world = hall_scene();
    let picture = render(&world);
    assert_eq!(picture.dimensions(), (5, 4));
    assert!(picture.as_rgb8().is_some());
    let expected: [[(u8, u8, u8); 5]; 4] = [
        [(196, 191, 68), (213, 207, 74), (229, 222, 79), (235, 228, 81), (228, 221, 79)],
        [(191, 187, 67), (206, 200, 71), (255, 255, 255), (223, 217, 77), (218, 212, 75)],
        [(147, 223, 81), (155, 231, 83), (255, 255, 255), (164, 240, 86), (161, 237, 86)],
        [(164, 255, 99), (175, 255, 104), (103, 255, 96), (190, 255, 112), (188, 255, 113)],
    ];
    for y in 0..4u32 {
        for x in 0..5u32 {
            let (r, g, b) = expected[y as usize][x as usize];
            assert_eq!(picture.get_pixel(x, y), image::Rgba([r, g, b, 255]), "{} {}", x, y);
            let ray = world.camera.create_prime(x, y, &world);
            assert_eq!(recurse_ray(&ray, &world, 3).to_display(), (r, g, b));
        }
    }
}

#[test]
fn render_of_an_empty_scene_is_black() {
    let world = scene(3, 2, 5, vec![], vec![sun(v(0.0, -1.0, 0.0), 1.0)]);
    let picture = render(&world);
    assert_eq!(picture.dimensions(), (3, 2));
    for (_, _, pixel) in picture.pixels() {
        assert_eq!(pixel, image::Rgba([0, 0, 0, 255]));
    }
}

#[test]
fn render_without_bounces_is_black() {
    let mut world = hall_scene();
    world.max_reflections = 0;
    let picture = render(&world);
    for (_, _, pixel) in picture.pixels() {
        assert_eq!(pixel, image::Rgba([0, 0, 0, 255]));
    }
}

#[test]
fn render_of_no_pixels() {
    let world = scene(0, 7, 1, vec![], vec![]);
    assert_eq!(render(&world).dimensions(), (0, 7));
}

#[test]
fn far_sphere_beside_the_ray_is_missed() {
    let ball = Sphere { center: p(0.0, 100.0, 46400.0), radius: s(50.0), material: matt(c(1.0, 1.0, 1.0), 1.0) };
    let origin = p(0.0, 0.0, 0.0);
    let ray = Ray { origin: &origin, direction: v(0.0, 0.0, 1.0) };
    assert_eq!(ball.intersects(&ray), None);
    let nearer = Sphere { center: p(0.0, 50.0, 46400.0), radius: s(50.0), material: matt(c(1.0, 1.0, 1.0), 1.0) };
    assert_eq!(nearer.intersects(&ray), Some(s(46400.0)));
    let ahead = Sphere { center: p(0.0, 0.0, 46400.0), radius: s(50.0), material: matt(c(1.0, 1.0, 1.0), 1.0) };
    assert_eq!(ahead.intersects(&ray), Some(s(46350.0)));
    let at = ray.phit(s(46350.0));
    assert_eq!(at.sub(ahead.center).magnitude(), s(50.0));
}

#[test]
fn sphere_is_hit_across_the_whole_range() {
    let ball = Sphere { center: p(1.0e9, 0.0, 0.0), radius: s(1000.0), material: matt(c(1.0, 1.0, 1.0), 1.0) };
    let origin = p(-1.0e9, 0.0, 0.0);
    let ray = Ray { origin: &origin, direction: v(1.0, 0.0, 0.0) };
    assert_eq!(ball.intersects(&ray), Some(s(2.0e9 - 1000.0)));
    let aside = Ray { origin: &origin, direction: v(0.0, 1.0, 0.0) };
    assert_eq!(ball.intersects(&aside), None);
    let off = p(-1.0e9, 1001.0, 0.0);
    let past = Ray { origin: &off, direction: v(1.0, 0.0, 0.0) };
    assert_eq!(ball.intersects(&past), None);
    let slanted = Sphere { center: p(30000.0, 40000.0, 0.0), radius: s(100.0), material: matt(c(1.0, 1.0, 1.0), 1.0) };
    let centre = p(0.0, 0.0, 0.0);
    let toward = Ray { origin: &centre, direction: v(3.0, 4.0, 0.0).normalise() };
    assert_eq!(slanted.intersects(&toward), Some(Scalar { raw: 214318893021128 }));
}

#[test]
fn sphere_beyond_the_range_is_infinitely_far() {
    let top = Scalar { raw: i64::MAX };
    let bottom = Scalar { raw: i64::MIN };
    let ball = Sphere {
        center: Point { x: top, y: s(0.0), z: s(0.0) },
        radius: s(1000.0),
        material: matt(c(1.0, 1.0, 1.0), 1.0),
    };
    let origin = Point { x: bottom, y: s(0.0), z: s(0.0) };
    let ray = Ray { origin: &origin, direction: v(1.0, 0.0, 0.0) };
    assert_eq!(ball.intersects(&ray), Some(top));
    let long = Ray { origin: &origin, direction: v(2.0, 0.0, 0.0) };
    assert_eq!(ball.intersects(&long), Some(top));
    let back = Ray { origin: &origin, direction: v(-1.0, 0.0, 0.0) };
    assert_eq!(ball.intersects(&back), None);
}

#[test]
fn far_plane_is_hit_at_its_distance() {
    let floor = Plane { origin: p(0.0, -1.0e6, 0.0), normal: v(0.0, -1.0, 0.0), material: matt(c(1.0, 1.0, 1.0), 1.0) };
    let above = p(0.0, 1.0e6, 0.0);
    let down = Ray { origin: &above, direction: v(0.0, -1.0, 0.0) };
    assert_eq!(floor.intersects(&down), Some(s(2.0e6)));
    let deep = Plane { origin: p(0.0, -1.0e9, 0.0), normal: v(0.0, -1.0, 0.0), material: matt(c(1.0, 1.0, 1.0), 1.0) };
    let high = p(0.0, 1.0e9, 0.0);
    let fall = Ray { origin: &high, direction: v(0.0, -1.0, 0.0) };
    assert_eq!(deep.intersects(&fall), Some(s(2.0e9)));
    let lowest = Plane {
        origin: Point { x: s(0.0), y: Scalar { raw: i64::MIN }, z: s(0.0) },
        normal: v(0.0, -1.0, 0.0),
        material: matt(c(1.0, 1.0, 1.0), 1.0),
    };
    let highest = Point { x: s(0.0), y: Scalar { raw: i64::MAX }, z: s(0.0) };
    let drop = Ray { origin: &highest, direction: v(0.0, -1.0, 0.0) };
    assert_eq!(lowest.intersects(&drop), Some(Scalar { raw: i64::MAX }));
}

#[test]
fn far_light_keeps_thinning_out() {
    let light = Light::Spherical(SphericalLight {
        position: p(0.0, 0.0, 0.0),
        colour: c(1.0, 1.0, 1.0),
        intensity: s(1000000.0),
    });
    let expected = [(10000.0, 3417826), (20000.0, 854456), (40000.0, 213614), (80000.0, 53403), (1000000.0, 341)];
    for (far, raw) in expected {
        let at = p(far, 0.0, 0.0);
        assert_eq!(light.distance(&at), s(far));
        assert_eq!(light.intensity(&at).raw, raw);
        let exact = 1000000.0 / (4.0 * std::f64::consts::PI * far * far);
        assert!((raw as f64 / 4294967296.0 - exact).abs() < 1e-9);
    }
    assert_eq!(light.intensity(&p(20000.0, 0.0, 0.0)).raw / 4, light.intensity(&p(40000.0, 0.0, 0.0)).raw);
    assert_eq!(light.intensity(&p(0.0, 0.0, 0.0)).raw, i64::MAX);
}

#[test]
fn light_is_as_far_as_the_range_allows() {
    let light = Light::Spherical(SphericalLight {
        position: p(1.0e9, 0.0, 0.0),
        colour: c(1.0, 1.0, 1.0),
        intensity: s(1.0),
    });
    assert_eq!(light.distance(&p(-1.0e9, 0.0, 0.0)), s(2.0e9));
    let edge = Light::Spherical(SphericalLight {
        position: Point { x: Scalar { raw: i64::MAX }, y: s(0.0), z: s(0.0) },
        colour: c(1.0, 1.0, 1.0),
        intensity: s(1.0),
    });
    let other = Point { x: Scalar { raw: i64::MIN }, y: s(0.0), z: s(0.0) };
    assert_eq!(edge.distance(&other).raw, i64::MAX);
    assert_eq!(edge.intensity(&other).raw, 0);
}

#[test]
fn primary_ray_looks_down_the_negative_axis() {
    let world = scene(640, 480, 1, vec![], vec![]);
    for (x, y) in [(0, 0), (639, 0), (0, 479), (639, 479), (320, 240), (17, 400)] {
        let ray = world.camera.create_prime(x, y, &world);
        assert!(ray.direction.z.raw < 0);
        let length = ray.direction.magnitude().raw;
        assert!((length - (1i64 << 32)).abs() <= 4);
    }
    let mut close = scene(3, 3, 1, vec![], vec![]);
    close.camera = Camera { position: Point { x: s(5.0), y: s(0.0), z: Scalar { raw: -(1i64 << 32) + 1 } } };
    let flat = close.camera.create_prime(1, 1, &close);
    assert_eq!(flat.direction.z.raw, 0);
    assert!(flat.direction.x.raw < 0);
}

#[test]
fn directions_are_right_across_the_whole_range() {
    let top = Scalar { raw: i64::MAX };
    let bottom = Scalar { raw: i64::MIN };
    let corner = Vector { x: bottom, y: bottom, z: bottom };
    let unit = corner.normalise();
    assert_eq!((unit.x.raw, unit.y.raw, unit.z.raw), (-2479700524, -2479700524, -2479700524));
    let skew = Vector { x: top, y: s(0.0), z: bottom }.normalise();
    assert_eq!((skew.x.raw, skew.y.raw, skew.z.raw), (3037000499, 0, -3037000499));
    let east = Point { x: top, y: s(0.0), z: s(0.0) };
    let west = Point { x: bottom, y: s(0.0), z: s(0.0) };
    assert_eq!(east.normal(&west), v(1.0, 0.0, 0.0));
    assert_eq!(west.normal(&east), v(-1.0, 0.0, 0.0));
    let light = Light::Spherical(SphericalLight {
        position: Point { x: top, y: s(1.0e9), z: s(0.0) },
        colour: c(1.0, 1.0, 1.0),
        intensity: s(1.0),
    });
    let at = Point { x: bottom, y: s(-1.0e9), z: s(0.0) };
    let to_light = light.direction(&at);
    assert_eq!((to_light.x.raw, to_light.y.raw, to_light.z.raw), (3893525693, 1813064186, 0));
    let ball = Sphere { center: west, radius: s(1.0e9), material: matt(c(1.0, 1.0, 1.0), 1.0) };
    assert_eq!(ball.surface_normal(&east), v(1.0, 0.0, 0.0));
}

#[test]
fn primary_rays_of_a_very_wide_picture() {
    let world = scene(3_000_000_000, 1, 1, vec![], vec![]);
    let middle = world.camera.create_prime(1_500_000_000, 0, &world).direction;
    assert_eq!(middle, v(0.0, 0.0, -1.0));
    let left = world.camera.create_prime(0, 0, &world).direction;
    assert_eq!((left.x.raw, left.y.raw, left.z.raw), (-4294967295, 0, -4));
    let right = world.camera.create_prime(2_999_999_999, 0, &world).direction;
    assert_eq!((right.x.raw, right.y.raw, right.z.raw), (4294967295, 0, -4));
}

#[test]
fn ray_point_clamps_only_the_point() {
    let origin = p(-2.0e9, 0.0, 1.0e9);
    let ray = Ray { origin: &origin, direction: v(3.0, 0.0, -1.5) };
    assert_eq!(ray.phit(s(1.0e9)), p(1.0e9, 0.0, -0.5e9));
    let far = ray.phit(s(2.0e9));
    assert_eq!(far.x.raw, i64::MAX);
    assert_eq!(far.z, p(0.0, 0.0, -2.0e9).z);
}
