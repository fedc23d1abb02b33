//! The light that comes back along a ray: for each light that reaches the
//! nearest surface, the diffuse share and, on a mirror, the light of the
//! mirrored ray and a highlight.
use crate::colour::Colour;
use crate::geometry::{Geometry, Intersectable, SurfaceType};
use crate::light::Light;
use crate::point::Point;
use crate::scalar::{Scalar, PI_RAW};
use crate::vector::Vector;
use crate::world::{Ray, Scene};
use vstd::prelude::*;

verus! {

/// The raw value of one half: the weight of the highlight.
pub const HALF_RAW: i64 = 2147483648;

/// No light.
pub open spec fn dark() -> Colour {
    Colour { red: Scalar { raw: 0 }, green: Scalar { raw: 0 }, blue: Scalar { raw: 0 } }
}

/// Whether `light` reaches `phit`: the ray from `phit` along `dir`, the
/// direction to the light, meets nothing, or meets its nearest surface beyond
/// the light.
#[verifier::opaque]
pub open spec fn lit(scene: Scene, phit: Point, light: Light, dir: Vector) -> bool {
    let shadow_ray = Ray { origin: &phit, direction: dir };
    match scene.nearest(shadow_ray) {
        None => true,
        Some(i) => scene.elements[i].hit(&shadow_ray).unwrap().raw > light.reach(phit).raw,
    }
}

/// The matt share: the colour of the surface times that of the light, times
/// the part of the normal along `dir` where that is positive, times the light
/// that arrives, times `albedo / pi`.
#[verifier::opaque]
pub open spec fn diffuse(normal: Vector, dir: Vector, phit: Point, light: Light, obj: Geometry) -> Colour {
    let arriving = light.strength(phit).product(obj.material().albedo.ratio(Scalar { raw: PI_RAW }));
    let facing = normal.inner(dir).greater(Scalar { raw: 0 });
    obj.material().colour.times(light.tint()).scaled(facing.product(arriving))
}

/// The highlight: the direction to the light mirrored about the normal, its
/// part along the ray raised to the shininess, times the light that arrives,
/// times one half, the same on every channel; nothing where that part is not
/// positive.
#[verifier::opaque]
pub open spec fn highlight(
    light: Light,
    dir: Vector,
    ray_direction: Vector,
    phit: Point,
    normal: Vector,
    obj: Geometry,
) -> Colour {
    let along = Vector::mirrored(normal, dir).inner(ray_direction);
    if along.raw > 0 {
        dark().lifted(
            light.strength(phit).product(along.power(obj.material().shininess as nat)).product(
                Scalar { raw: HALF_RAW },
            ),
        )
    } else {
        dark()
    }
}

/// The light that comes back along `ray` with `depth` bounces left: none with
/// no bounce left or where the ray meets nothing, else what the lights of the
/// scene add up to at the nearest surface.
pub open spec fn radiance(scene: Scene, ray: Ray, depth: nat) -> Colour
    decreases depth, 1nat, 0nat,
{
    if depth == 0 {
        dark()
    } else {
        match scene.nearest(ray) {
            None => dark(),
            Some(i) => light_sum(scene, ray, i, depth, scene.lights@.len()),
        }
    }
}

/// What the first `k` lights of the scene add up to where `ray` meets element
/// `i`, summed in their order. A light that reaches the point adds the matt
/// share and then, on a mirror, the light of the mirrored ray with one bounce
/// less, times the reflectivity, and the highlight.
pub open spec fn light_sum(scene: Scene, ray: Ray, i: int, depth: nat, k: nat) -> Colour
    decreases depth, 0nat, k,
{
    if k == 0 || depth == 0 {
        dark()
    } else {
        let before = light_sum(scene, ray, i, depth, (k - 1) as nat);
        let light = scene.lights[k - 1];
        let obj = scene.elements[i];
        let phit = ray.at(obj.hit(&ray).unwrap());
        let normal = obj.normal_at(&phit);
        let dir = light.toward(phit);
        if lit(scene, phit, light, dir) {
            let matt = before.plus(diffuse(normal, dir, phit, light, obj));
            match obj.material().surface {
                SurfaceType::Diffuse => matt,
                SurfaceType::Reflective(reflectivity) => {
                    let mirrored = Ray { origin: &phit, direction: Vector::mirrored(normal, ray.direction) };
                    matt.plus(radiance(scene, mirrored, (depth - 1) as nat).scaled(reflectivity)).plus(
                        highlight(light, dir, ray.direction, phit, normal, obj),
                    )
                },
            }
        } else {
            before
        }
    }
}

/// With no bounce left no light comes back, whatever the scene holds.
pub proof fn lemma_no_bounce_is_dark(scene: Scene, ray: Ray)
    ensures
        radiance(scene, ray, 0) == dark(),
{
}

/// A light that does not reach the point where `ray` meets element `i` adds
/// nothing to the sum: neither a matt share nor, on a mirror, anything else.
pub proof fn lemma_shadow_adds_nothing(scene: Scene, ray: Ray, i: int, depth: nat, k: nat)
    requires
        k > 0,
        ({
            let phit = ray.at(scene.elements[i].hit(&ray).unwrap());
            !lit(scene, phit, scene.lights[k - 1], scene.lights[k - 1].toward(phit))
        }),
    ensures
        light_sum(scene, ray, i, depth, k) == light_sum(scene, ray, i, depth, (k - 1) as nat),
{
}

/// Shades `ray` with `depth` bounces left.
pub fn recurse_ray(ray: &Ray, scene: &Scene, depth: u8) -> (r: Colour)
    ensures
        r == radiance(*scene, *ray, depth as nat),
        depth == 0 ==> r == dark(),
    decreases depth, 1nat,
{
    let mut colour: Colour = Colour::black();
    if depth == 0 {
        return colour;
    }
    match scene.trace(ray) {
        Some(intersection) => {
            let phit: Point = ray.phit(intersection.distance);
            let normal: Vector = intersection.object.surface_normal(&phit);
            let ghost i: int = scene.nearest(*ray).unwrap();
            let mut k: usize = 0;
            while k < scene.lights.len()
                invariant
                    k <= scene.lights.len(),
                    depth > 0,
                    scene.nearest(*ray) == Some(i),
                    *intersection.object == scene.elements[i],
                    Some(intersection.distance) == scene.elements[i].hit(ray),
                    phit == ray.at(intersection.distance),
                    normal == scene.elements[i].normal_at(&phit),
                    colour == light_sum(*scene, *ray, i, depth as nat, k as nat),
                decreases scene.lights.len() - k,
            {
                let light: &Light = &scene.lights[k];
                let direction_to_light: Vector = light.direction(&phit);
                if in_light(&phit, light, scene, &direction_to_light) {
                    let diffuse: Colour = diffuse_light(
                        &normal,
                        &direction_to_light,
                        &phit,
                        light,
                        intersection.object,
                    );
                    colour = colour.add(diffuse);
                    match intersection.object.surface() {
                        SurfaceType::Reflective(reflectivity) => {
                            let reflected_light: Colour = reflective_light(
                                &normal,
                                &ray.direction,
                                &phit,
                                scene,
                                depth,
                            );
                            colour = colour.add(reflected_light.scale(*reflectivity));
                            let specular_light: Colour = phong_lighting(
                                light,
                                &direction_to_light,
                                ray,
                                &phit,
                                &normal,
                                intersection.object,
                            );
                            colour = colour.add(specular_light);
                        },
                        SurfaceType::Diffuse => {},
                    }
                }
                k = k + 1;
            }
            colour
        },
        None => colour,
    }
}

/// Whether `light` reaches `phit`, tested with a shadow ray along `dir`.
pub fn in_light(phit: &Point, light: &Light, scene: &Scene, dir: &Vector) -> (r: bool)
    ensures
        r == lit(*scene, *phit, *light, *dir),
{
    reveal(lit);
    let shadow_ray: Ray = Ray { origin: phit, direction: *dir };
    match scene.trace(&shadow_ray) {
        None => true,
        Some(sh_intersect) => sh_intersect.distance.raw > light.distance(phit).raw,
    }
}

/// The matt share that `light` adds at `phit`.
pub fn diffuse_light(
    surface_normal: &Vector,
    direction_to_light: &Vector,
    phit: &Point,
    light: &Light,
    obj: &Geometry,
) -> (r: Colour)
    ensures
        r == diffuse(*surface_normal, *direction_to_light, *phit, *light, *obj),
{
    reveal(diffuse);
    let light_intensity: Scalar = light.intensity(phit).mul(obj.albedo().div(Scalar::pi()));
    let facing: Scalar = surface_normal.dot(direction_to_light).max(Scalar::zero());
    let light_power: Scalar = facing.mul(light_intensity);
    obj.colour().mul(*light.colour()).scale(light_power)
}

/// The light of the ray mirrored at `phit`, with one bounce less than
/// `reflections`.
pub fn reflective_light(
    surface_normal: &Vector,
    ray_direction: &Vector,
    phit: &Point,
    scene: &Scene,
    reflections: u8,
) -> (r: Colour)
    requires
        reflections > 0,
    ensures
        r == radiance(
            *scene,
            Ray { origin: phit, direction: Vector::mirrored(*surface_normal, *ray_direction) },
            (reflections - 1) as nat,
        ),
    decreases reflections, 0nat,
{
    let ray: Ray = Ray { origin: phit, direction: Vector::reflect(surface_normal, ray_direction) };
    recurse_ray(&ray, scene, reflections - 1)
}

/// The highlight that `light` adds at `phit` on a mirror, as seen along `ray`.
pub fn phong_lighting(
    light: &Light,
    direction_to_light: &Vector,
    ray: &Ray,
    phit: &Point,
    surface_normal: &Vector,
    obj: &Geometry,
) -> (r: Colour)
    ensures
        r == highlight(*light, *direction_to_light, ray.direction, *phit, *surface_normal, *obj),
{
    reveal(highlight);
    let mut colour: Colour = Colour::black();
    let reflected: Vector = Vector::reflect(surface_normal, direction_to_light);
    let dot: Scalar = reflected.dot(&ray.direction);
    if dot.raw > 0 {
        let pow: Scalar = dot.powi(obj.shininess());
        let specular: Scalar = light.intensity(phit).mul(pow).mul(Scalar { raw: HALF_RAW });
        colour = colour.add_scalar(specular);
    }
    colour
}

} // verus!
