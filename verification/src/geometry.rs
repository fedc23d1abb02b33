//! Surfaces: spheres and planes, what they are made of, where a ray meets
//! them and which way they face.
use crate::colour::Colour;
use crate::point::Point;
use crate::scalar::{
    abs_int, clamp_wide, int_sqrt, isqrt, lemma_isqrt_bounds, lemma_quot_rounds, quot, Scalar, ONE_RAW,
};
use crate::vector::Vector;
use crate::wide::{
    dot3, gap, ratio_wide, raws, square_over_one, times, times_wide, unit_of, way,
};
use crate::world::Ray;
use vstd::prelude::*;

verus! {

/// The raw value of one millionth, rounded down: a plane is met only by a ray
/// whose direction has more than this along the plane's normal.
pub const GRAZING_RAW: i64 = 4294;

/// `GRAZING_RAW` is one millionth, rounded down.
pub proof fn lemma_grazing()
    ensures
        GRAZING_RAW * 1000000 <= ONE_RAW < (GRAZING_RAW + 1) * 1000000,
{
}


/// How a surface returns light: matt, or like a mirror with the given share
/// of the light that arrives along the mirrored ray.
#[derive(Clone, Copy, Debug, PartialEq, Eq, Structural)]
pub enum SurfaceType {
    Diffuse,
    Reflective(Scalar),
}

#[derive(Clone, Copy, Debug, PartialEq, Eq, Structural)]
/// What a surface is made of: its colour, the share of the light that it
/// returns as matt light, how it returns light, and how tight its highlight
/// is.
pub struct Material {
    pub colour: Colour,
    pub albedo: Scalar,
    pub surface: SurfaceType,
    pub shininess: u16,
}

#[derive(Clone, Copy, Debug, PartialEq, Eq, Structural)]
/// A sphere. The radius is taken to be positive.
pub struct Sphere {
    pub center: Point,
    pub radius: Scalar,
    pub material: Material,
}

/// A plane through `origin`. `normal` is taken to have length one, and the
/// plane is seen only from the side that `normal` points away from.
#[derive(Clone, Copy, Debug, PartialEq, Eq, Structural)]
pub struct Plane {
    pub origin: Point,
    pub normal: Vector,
    pub material: Material,
}

#[derive(Clone, Copy, Debug, PartialEq, Eq, Structural)]
/// A surface of the scene.
pub enum Geometry {
    Sphere(Sphere),
    Plane(Plane),
}

/// A surface that a ray can meet.
pub trait Intersectable {
    /// The distance along `ray` at which it meets the surface, if it does.
    spec fn hit(&self, ray: &Ray) -> Option<Scalar>;

    /// The direction in which the surface faces at `p`.
    spec fn normal_at(&self, p: &Point) -> Vector;

    fn intersects(&self, ray: &Ray) -> (r: Option<Scalar>)
        ensures
            r == self.hit(ray),
    ;

    fn surface_normal(&self, p: &Point) -> (r: Vector)
        ensures
            r == self.normal_at(p),
    ;
}

/// The largest square that a half chord is taken from: the half chord of a
/// sphere cannot exceed its radius, which a `Scalar` holds, as long as the
/// ray's direction is of length one.
pub const CHORD_CAP: u128 = 0x8000_0000_0000_0000_0000_0000_0000_0000;

impl Sphere {
    /// How far ahead along the ray the centre lies (`tca`): the dot product
    /// of the exact way from the ray's origin to the centre with the ray's
    /// direction.
    pub open spec fn ahead(self, ray: Ray) -> int {
        dot3(way(self.center, *ray.origin), raws(ray.direction))
    }

    /// The square of the distance at which the ray passes the centre (`d2`):
    /// the square of the way to the centre less the square of `ahead`.
    pub open spec fn passing_sq(self, ray: Ray) -> int {
        let l = way(self.center, *ray.origin);
        dot3(l, l) - times(self.ahead(ray), self.ahead(ray))
    }

    /// The square of the radius.
    pub open spec fn radius_sq(self) -> int {
        times(self.radius.raw as int, self.radius.raw as int)
    }

    /// Half the length of the ray's way through the sphere (`thc`): the root,
    /// rounded down, of the square of the radius less `passing_sq`.
    pub open spec fn half_chord(self, ray: Ray) -> int {
        let under = (self.radius_sq() - self.passing_sq(ray)) * ONE_RAW;
        if under >= CHORD_CAP {
            isqrt(CHORD_CAP as nat) as int
        } else if under >= 0 {
            isqrt(under as nat) as int
        } else {
            0
        }
    }

    /// A ray that passes the centre at more than the radius does not meet the
    /// sphere, wherever the sphere and the ray lie.
    pub proof fn lemma_passing_ray_misses(self, ray: Ray)
        requires
            self.passing_sq(ray) > self.radius_sq(),
        ensures
            self.hit(&ray) is None,
    {
    }

    /// A ray that has the centre ahead and passes it within the radius meets
    /// the sphere at `ahead - half_chord`, clamped to the range of a `Scalar`
    /// and to nothing before that.
    pub proof fn lemma_crossing_ray_hits(self, ray: Ray)
        requires
            self.ahead(ray) >= 0,
            self.passing_sq(ray) <= self.radius_sq(),
        ensures
            self.hit(&ray) == Some(Scalar::of(self.ahead(ray) - self.half_chord(ray))),
    {
    }
}

impl Intersectable for Sphere {
    /// No hit where the centre lies behind the ray's origin (`ahead < 0`),
    /// nor where the ray passes the centre at more than the radius; else the
    /// nearer crossing, `ahead - half_chord`, which is negative where the
    /// origin lies inside the sphere. Every middle step is exact or rounded
    /// whole-number arithmetic; only the distance itself is clamped to the
    /// range of a `Scalar`. With the centre ahead the farther crossing is
    /// never behind the origin.
    open spec fn hit(&self, ray: &Ray) -> Option<Scalar> {
        if self.ahead(*ray) < 0 || self.passing_sq(*ray) > self.radius_sq() {
            None
        } else {
            Some(Scalar::of(self.ahead(*ray) - self.half_chord(*ray)))
        }
    }

    /// Outward: from the centre to `p`, at length one.
    open spec fn normal_at(&self, p: &Point) -> Vector {
        unit_of(way(*p, self.center))
    }

    fn intersects(&self, ray: &Ray) -> (r: Option<Scalar>) {
        let lx: i128 = gap(self.center.x, ray.origin.x);
        let ly: i128 = gap(self.center.y, ray.origin.y);
        let lz: i128 = gap(self.center.z, ray.origin.z);
        let tca: i128 = times_wide(lx, ray.direction.x.raw) + times_wide(ly, ray.direction.y.raw)
            + times_wide(lz, ray.direction.z.raw);
        if tca < 0 {
            return None;
        }
        let ll: i128 = square_over_one(lx) + square_over_one(ly) + square_over_one(lz);
        let radius2: i128 = square_over_one(self.radius.raw as i128);
        proof {
            assert(lx * lx < 0x1_0000_0000_0000_0000_0000_0000_0000_0000 && ly * ly
                < 0x1_0000_0000_0000_0000_0000_0000_0000_0000 && lz * lz
                < 0x1_0000_0000_0000_0000_0000_0000_0000_0000) by (nonlinear_arith)
                requires
                    -0x1_0000_0000_0000_0000 < lx < 0x1_0000_0000_0000_0000,
                    -0x1_0000_0000_0000_0000 < ly < 0x1_0000_0000_0000_0000,
                    -0x1_0000_0000_0000_0000 < lz < 0x1_0000_0000_0000_0000,
            ;
            assert(ll < 0x3_0000_0000_0000_0000_0000_0000);
        }
        if tca >= 0x2_0000_0000_0000_0000 {
            proof {
                let q = times(tca as int, tca as int);
                lemma_quot_rounds(tca * tca, ONE_RAW as int);
                assert(q >= 0x4_0000_0000_0000_0000_0000_0000) by (nonlinear_arith)
                    requires
                        tca >= 0x2_0000_0000_0000_0000,
                        abs_int(tca * tca) < (abs_int(q) + 1) * ONE_RAW,
                        q >= 0,
                ;
                let thc = self.half_chord(*ray);
                lemma_isqrt_bounds(CHORD_CAP as nat);
                let under = (self.radius_sq() - self.passing_sq(*ray)) * ONE_RAW;
                if 0 <= under < CHORD_CAP {
                    lemma_isqrt_bounds(under as nat);
                }
                assert(thc < 0x1_0000_0000_0000_0000) by (nonlinear_arith)
                    requires
                        thc * thc <= 0x8000_0000_0000_0000_0000_0000_0000_0000,
                        thc >= 0,
                ;
            }
            return Some(Scalar { raw: i64::MAX });
        }
        let d2: i128 = ll - square_over_one(tca);
        if d2 > radius2 {
            return None;
        }
        let m: i128 = radius2 - d2;
        let under: u128 = if m >= 0x8000_0000_0000_0000_0000_0000 {
            CHORD_CAP
        } else {
            (m as u128) * 4294967296
        };
        let thc: u64 = int_sqrt(under);
        Some(Scalar { raw: clamp_wide(tca - thc as i128) })
    }

    fn surface_normal(&self, p: &Point) -> (r: Vector) {
        p.normal(&self.center)
    }
}

impl Intersectable for Plane {
    /// A hit only where the ray's direction has more than one millionth along
    /// the normal; the distance is then the part of the exact way from the
    /// ray's origin to the plane's origin that lies along the normal, divided
    /// by that amount, and counts where it is not negative. Only the distance
    /// itself is clamped to the range of a `Scalar`.
    open spec fn hit(&self, ray: &Ray) -> Option<Scalar> {
        let denom = self.normal.inner(ray.direction);
        let along = dot3(way(self.origin, *ray.origin), raws(self.normal));
        let dist = Scalar::of(quot(along * ONE_RAW, denom.raw as int));
        if denom.raw > GRAZING_RAW && dist.raw >= 0 {
            Some(dist)
        } else {
            None
        }
    }

    /// Against the stored normal, wherever `p` lies.
    open spec fn normal_at(&self, p: &Point) -> Vector {
        self.normal.negated()
    }

    fn intersects(&self, ray: &Ray) -> (r: Option<Scalar>) {
        let denom: Scalar = self.normal.dot(&ray.direction);
        if denom.raw > GRAZING_RAW {
            let along: i128 = times_wide(gap(self.origin.x, ray.origin.x), self.normal.x.raw)
                + times_wide(gap(self.origin.y, ray.origin.y), self.normal.y.raw) + times_wide(
                gap(self.origin.z, ray.origin.z),
                self.normal.z.raw,
            );
            let dist: Scalar = ratio_wide(along, denom.raw);
            if dist.raw >= 0 {
                return Some(dist);
            }
        }
        None
    }

    fn surface_normal(&self, p: &Point) -> (r: Vector) {
        self.normal.neg()
    }
}

impl Intersectable for Geometry {
    open spec fn hit(&self, ray: &Ray) -> Option<Scalar> {
        match *self {
            Geometry::Sphere(s) => s.hit(ray),
            Geometry::Plane(p) => p.hit(ray),
        }
    }

    open spec fn normal_at(&self, p: &Point) -> Vector {
        match *self {
            Geometry::Sphere(s) => s.normal_at(p),
            Geometry::Plane(pl) => pl.normal_at(p),
        }
    }

    fn intersects(&self, ray: &Ray) -> (r: Option<Scalar>) {
        match self {
            Geometry::Sphere(s) => s.intersects(ray),
            Geometry::Plane(p) => p.intersects(ray),
        }
    }

    fn surface_normal(&self, phit: &Point) -> (r: Vector) {
        match self {
            Geometry::Sphere(s) => s.surface_normal(phit),
            Geometry::Plane(p) => p.surface_normal(phit),
        }
    }
}

impl Geometry {
    /// What the surface is made of.
    pub open spec fn material(self) -> Material {
        match self {
            Geometry::Sphere(s) => s.material,
            Geometry::Plane(p) => p.material,
        }
    }

    pub fn colour(&self) -> (r: &Colour)
        ensures
            *r == self.material().colour,
    {
        match self {
            Geometry::Sphere(s) => &s.material.colour,
            Geometry::Plane(p) => &p.material.colour,
        }
    }

    pub fn albedo(&self) -> (r: Scalar)
        ensures
            r == self.material().albedo,
    {
        match self {
            Geometry::Sphere(s) => s.material.albedo,
            Geometry::Plane(p) => p.material.albedo,
        }
    }

    pub fn surface(&self) -> (r: &SurfaceType)
        ensures
            *r == self.material().surface,
    {
        match self {
            Geometry::Sphere(s) => &s.material.surface,
            Geometry::Plane(p) => &p.material.surface,
        }
    }

    pub fn shininess(&self) -> (r: u16)
        ensures
            r == self.material().shininess,
    {
        match self {
            Geometry::Sphere(s) => s.material.shininess,
            Geometry::Plane(p) => p.material.shininess,
        }
    }
}

} // verus!
