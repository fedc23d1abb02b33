//! The scene, its camera, rays, and the search for the nearest surface along
//! a ray.
use crate::geometry::{Geometry, Intersectable};
use crate::light::Light;
use crate::point::Point;
use crate::scalar::{
    abs_int, clamp_wide, isqrt, lemma_isqrt_bounds, lemma_quot_rounds, quot, Scalar, ONE_RAW,
};
use crate::vector::Vector;
use crate::wide::{
    lemma_unit_of_has_length_one, raws, times, times_wide, unit_of, way, way_length, way_sq,
};
use vstd::prelude::*;

verus! {

/// The raw value of the tangent of half the field of view, which is 45
/// degrees: `sqrt(2) - 1`, rounded down.
pub const HALF_FOV_TANGENT_RAW: i64 = 1779033703;

/// `HALF_FOV_TANGENT_RAW` is `sqrt(2) - 1` rounded down: one more than it is
/// the largest number whose square does not exceed two.
pub proof fn lemma_half_fov_tangent()
    ensures
        (HALF_FOV_TANGENT_RAW + ONE_RAW) * (HALF_FOV_TANGENT_RAW + ONE_RAW) <= 2 * ONE_RAW * ONE_RAW,
        2 * ONE_RAW * ONE_RAW < (HALF_FOV_TANGENT_RAW + ONE_RAW + 1) * (HALF_FOV_TANGENT_RAW + ONE_RAW
            + 1),
{
    assert(6074000999int * 6074000999 <= 2 * 4294967296 * 4294967296 && 2 * 4294967296int
        * 4294967296 < 6074001000int * 6074001000) by (nonlinear_arith);
}

/// A half line: the points `origin + direction * t` for `t` from zero up.
#[derive(Debug, PartialEq)]
pub struct Ray<'a> {
    pub origin: &'a Point,
    pub direction: Vector,
}

impl<'a> Ray<'a> {
    /// The point at distance `t` along the ray: `origin + direction * t`,
    /// each coordinate clamped only where the point itself lies outside the
    /// range.
    pub open spec fn at(self, t: Scalar) -> Point {
        Point {
            x: Scalar::of(self.origin.x.raw + times(self.direction.x.raw as int, t.raw as int)),
            y: Scalar::of(self.origin.y.raw + times(self.direction.y.raw as int, t.raw as int)),
            z: Scalar::of(self.origin.z.raw + times(self.direction.z.raw as int, t.raw as int)),
        }
    }

    /// The point at distance `t` along the ray.
    pub fn phit(&self, t: Scalar) -> (r: Point)
        ensures
            r == self.at(t),
    {
        Point {
            x: Scalar {
                raw: clamp_wide(self.origin.x.raw as i128 + times_wide(self.direction.x.raw as i128, t.raw)),
            },
            y: Scalar {
                raw: clamp_wide(self.origin.y.raw as i128 + times_wide(self.direction.y.raw as i128, t.raw)),
            },
            z: Scalar {
                raw: clamp_wide(self.origin.z.raw as i128 + times_wide(self.direction.z.raw as i128, t.raw)),
            },
        }
    }
}

/// A surface that a ray meets, with the distance along the ray.
pub struct Intersection<'a> {
    pub distance: Scalar,
    pub object: &'a Geometry,
}

impl<'a> Intersection<'a> {
    /// Pairs the distance `d` with the surface `o` that is met there.
    pub fn new<'b>(d: Scalar, o: &'b Geometry) -> (r: Intersection<'b>)
        ensures
            r.distance == d,
            r.object == o,
    {
        Intersection { distance: d, object: o }
    }
}

/// The eye: it sits at `position` and looks along the negative z axis, with a
/// field of view of 45 degrees.
#[derive(Clone, Copy, Debug, PartialEq, Eq, Structural)]
pub struct Camera {
    pub position: Point,
}

impl Camera {
    /// Where the ray through the middle of pixel `(x, y)` crosses the sensor
    /// plane `z = -1`, for an image `width` wide and `height` high. Across the
    /// image `x` runs from `-aspect * fov` to `aspect * fov`, and `y` from
    /// `fov` at the top row down to `-fov`, with `fov` the tangent of half the
    /// field of view and `aspect` the width over the height.
    pub open spec fn sensor(x: u32, y: u32, width: u32, height: u32) -> Point {
        let fov = Scalar { raw: HALF_FOV_TANGENT_RAW };
        let one = Scalar { raw: ONE_RAW };
        let two = Scalar::of(2 * ONE_RAW);
        let aspect = Camera::fraction(width as int, height as int);
        let across = Camera::fraction(2 * x + 1, 2 * width);
        let down = Camera::fraction(2 * y + 1, 2 * height);
        Point {
            x: across.product(two).difference(one).product(aspect).product(fov),
            y: one.difference(down.product(two)).product(fov),
            z: Scalar::of(-ONE_RAW),
        }
    }

    /// The fraction `num / den` of two whole numbers as a `Scalar`, rounded
    /// toward zero.
    pub open spec fn fraction(num: int, den: int) -> Scalar {
        (Scalar { raw: num as i64 }).ratio(Scalar { raw: den as i64 })
    }

    /// The direction of length one from the camera through pixel `(x, y)`,
    /// taken from the exact way from the camera to the sensor.
    pub open spec fn aim(self, x: u32, y: u32, width: u32, height: u32) -> Vector {
        unit_of(way(Camera::sensor(x, y, width, height), self.position))
    }

    /// The primary ray looks down the negative z axis and has length one:
    /// for a camera in front of the sensor plane (`z > -1`) the z part of the
    /// direction is not positive, it is negative wherever the z part of the
    /// way to the sensor is at least one unit of the length of that way, and
    /// the length of the direction is one to within four units below and
    /// `one / length` units above.
    pub proof fn lemma_aim_looks_down(self, x: u32, y: u32, width: u32, height: u32)
        requires
            self.position.z.raw > -ONE_RAW,
        ensures
            self.aim(x, y, width, height).z.raw <= 0,
            ({
                let to_sensor = way(Camera::sensor(x, y, width, height), self.position);
                -to_sensor.2 * ONE_RAW >= way_length(to_sensor) ==> self.aim(x, y, width, height).z.raw
                    < 0
            }),
            ({
                let to_sensor = way(Camera::sensor(x, y, width, height), self.position);
                ONE_RAW - 4 <= self.aim(x, y, width, height).length().raw <= ONE_RAW + (ONE_RAW as int)
                    / way_length(to_sensor)
            }),
    {
        let to_sensor = way(Camera::sensor(x, y, width, height), self.position);
        let z = to_sensor.2;
        assert(z < 0);
        assert(z * z > 0 && to_sensor.0 * to_sensor.0 >= 0 && to_sensor.1 * to_sensor.1 >= 0)
            by (nonlinear_arith)
            requires
                z < 0,
        ;
        lemma_unit_of_has_length_one(to_sensor);
        lemma_isqrt_bounds(way_sq(to_sensor));
        let ns = way_sq(to_sensor) as int;
        let len = way_length(to_sensor);
        assert(-z <= len) by (nonlinear_arith)
            requires
                ns < (len + 1) * (len + 1),
                z * z <= ns,
                z < 0,
                len >= 0,
        ;
        lemma_quot_rounds(z * ONE_RAW, len);
        let q = quot(z * ONE_RAW, len);
        assert(z * ONE_RAW < 0 && abs_int(z * ONE_RAW) == -z * ONE_RAW) by (nonlinear_arith)
            requires
                z < 0,
        ;
        assert(abs_int(q) <= ONE_RAW) by (nonlinear_arith)
            requires
                abs_int(q) * len <= -z * ONE_RAW,
                -z <= len,
                len >= 1,
                abs_int(q) >= 0,
        ;
        assert(self.aim(x, y, width, height).z.raw == q);
        if -z * ONE_RAW >= len {
            assert(abs_int(q) >= 1) by (nonlinear_arith)
                requires
                    -z * ONE_RAW < (abs_int(q) + 1) * len,
                    -z * ONE_RAW >= len,
                    len >= 1,
                    abs_int(q) >= 0,
            ;
        }
        let u = self.aim(x, y, width, height);
        let l = way_length(raws(u));
        assert(l <= 2 * ONE_RAW) by (nonlinear_arith)
            requires
                l <= ONE_RAW + (ONE_RAW as int) / len,
                len >= 1,
        ;
    }

    /// The primary ray of pixel `(x, y)`: from the camera's position through
    /// the middle of the pixel.
    pub fn create_prime(&self, x: u32, y: u32, scene: &Scene) -> (r: Ray<'_>)
        ensures
            *r.origin == self.position,
            r.direction == self.aim(x, y, scene.width, scene.height),
    {
        let fov: Scalar = Scalar { raw: HALF_FOV_TANGENT_RAW };
        let one: Scalar = Scalar::one();
        let two: Scalar = Scalar::from_int(2);
        let aspect_ratio: Scalar = Scalar::from_ratio(scene.width as i64, scene.height as i64);
        let across: Scalar = Scalar::from_ratio(2 * (x as i64) + 1, 2 * (scene.width as i64));
        let down: Scalar = Scalar::from_ratio(2 * (y as i64) + 1, 2 * (scene.height as i64));
        let sensor_x: Scalar = across.mul(two).sub(one).mul(aspect_ratio).mul(fov);
        let sensor_y: Scalar = one.sub(down.mul(two)).mul(fov);
        let p: Point = Point { x: sensor_x, y: sensor_y, z: Scalar::from_int(-1) };
        let direction: Vector = p.normal(&self.position);
        Ray { direction: direction, origin: &self.position }
    }
}

#[derive(Debug, PartialEq)]
/// What is rendered: the size of the picture, the number of bounces that a
/// ray may take, the camera, the surfaces and the lights. Nothing in a scene is
/// checked: a radius that is not positive or a plane normal that is not of
/// length one gives a picture of what the formulas make of it.
pub struct Scene {
    pub width: u32,
    pub height: u32,
    pub max_reflections: u8,
    pub camera: Camera,
    pub elements: Vec<Geometry>,
    pub lights: Vec<Light>,
}

impl Scene {
    /// Whether element `i` is the nearest that `ray` meets among the first `n`
    /// elements: none of them is met at a smaller distance, and none before
    /// `i` at the same distance.
    pub open spec fn is_nearest_among(self, ray: Ray, i: int, n: int) -> bool {
        &&& 0 <= i < n
        &&& self.elements[i].hit(&ray) is Some
        &&& forall|j: int|
            0 <= j < n && (#[trigger] self.elements[j].hit(&ray)) is Some ==> {
                let near = self.elements[i].hit(&ray).unwrap().raw;
                let other = self.elements[j].hit(&ray).unwrap().raw;
                near <= other && (j < i ==> near < other)
            }
    }

    /// Whether element `i` is the nearest that `ray` meets.
    pub open spec fn is_nearest(self, ray: Ray, i: int) -> bool {
        self.is_nearest_among(ray, i, self.elements.len() as int)
    }

    /// The index of the nearest element that `ray` meets, if it meets any.
    pub open spec fn nearest(self, ray: Ray) -> Option<int> {
        if exists|i: int| self.is_nearest(ray, i) {
            Some(choose|i: int| self.is_nearest(ray, i))
        } else {
            None
        }
    }

    /// At most one element is the nearest.
    pub proof fn lemma_nearest_unique(self, ray: Ray, a: int, b: int)
        requires
            self.is_nearest(ray, a),
            self.is_nearest(ray, b),
        ensures
            a == b,
    {
    }

    /// Among the first `n` elements, one is the nearest unless `ray` meets
    /// none of them.
    proof fn lemma_nearest_among_exists(self, ray: Ray, n: int)
        requires
            0 <= n <= self.elements.len(),
        ensures
            (exists|i: int| self.is_nearest_among(ray, i, n)) || (forall|j: int|
                0 <= j < n ==> self.elements[j].hit(&ray) is None),
        decreases n,
    {
        if n > 0 {
            let m = n - 1;
            self.lemma_nearest_among_exists(ray, m);
            let last = self.elements[m].hit(&ray);
            if exists|i: int| self.is_nearest_among(ray, i, m) {
                let i = choose|i: int| self.is_nearest_among(ray, i, m);
                if last is Some && last.unwrap().raw < self.elements[i].hit(&ray).unwrap().raw {
                    assert(self.is_nearest_among(ray, m, n));
                } else {
                    assert(self.is_nearest_among(ray, i, n));
                }
            } else if last is Some {
                assert(self.is_nearest_among(ray, m, n));
            }
        }
    }

    /// A ray has a nearest element exactly where it meets some element, and
    /// that element is met at the smallest distance of all.
    pub proof fn lemma_nearest_is_smallest(self, ray: Ray)
        ensures
            self.nearest(ray) is None <==> (forall|j: int|
                0 <= j < self.elements.len() ==> self.elements[j].hit(&ray) is None),
            self.nearest(ray) matches Some(i) ==> {
                &&& 0 <= i < self.elements.len()
                &&& self.elements[i].hit(&ray) is Some
                &&& forall|j: int|
                    0 <= j < self.elements.len() && (#[trigger] self.elements[j].hit(&ray)) is Some
                        ==> self.elements[i].hit(&ray).unwrap().raw <= self.elements[j].hit(
                        &ray,
                    ).unwrap().raw
            },
    {
        let n = self.elements.len() as int;
        self.lemma_nearest_among_exists(ray, n);
        if exists|i: int| self.is_nearest_among(ray, i, n) {
            let i = choose|i: int| self.is_nearest_among(ray, i, n);
            assert(self.is_nearest(ray, i));
            assert(self.elements[i].hit(&ray) is Some);
        } else {
            assert(forall|i: int| !self.is_nearest(ray, i));
        }
        if forall|j: int| 0 <= j < n ==> self.elements[j].hit(&ray) is None {
            assert(forall|i: int| !self.is_nearest(ray, i));
        }
    }

    /// Tries every element in turn and keeps the nearest hit, the first of
    /// them where several are equally near.
    pub fn trace<'a>(&'a self, ray: &Ray) -> (r: Option<Intersection<'a>>)
        ensures
            match self.nearest(*ray) {
                Some(i) => r is Some && *r.unwrap().object == self.elements[i] && Some(
                    r.unwrap().distance,
                ) == self.elements[i].hit(ray),
                None => r is None,
            },
            r is None <==> (forall|j: int|
                0 <= j < self.elements.len() ==> self.elements[j].hit(ray) is None),
    {
        let mut best: Option<Intersection<'a>> = None;
        let ghost mut at: int = 0;
        let mut i: usize = 0;
        while i < self.elements.len()
            invariant
                i <= self.elements.len(),
                best is None ==> forall|j: int| 0 <= j < i ==> self.elements[j].hit(ray) is None,
                best is Some ==> {
                    &&& self.is_nearest_among(*ray, at, i as int)
                    &&& *best.unwrap().object == self.elements[at]
                    &&& Some(best.unwrap().distance) == self.elements[at].hit(ray)
                },
            decreases self.elements.len() - i,
        {
            let element: &'a Geometry = &self.elements[i];
            match element.intersects(ray) {
                Some(d) => {
                    let closer: bool = match &best {
                        None => true,
                        Some(b) => d.raw < b.distance.raw,
                    };
                    if closer {
                        best = Some(Intersection::new(d, element));
                        proof {
                            at = i as int;
                        }
                    }
                },
                None => {},
            }
            i = i + 1;
        }
        proof {
            if best is Some {
                assert(self.is_nearest(*ray, at));
                self.lemma_nearest_unique(*ray, at, self.nearest(*ray).unwrap());
            } else {
                assert(forall|k: int| !self.is_nearest(*ray, k));
            }
        }
        best
    }
}

} // verus!
