//! Light sources, as seen from a point on a surface.
use crate::colour::Colour;
use crate::point::Point;
use crate::scalar::{
    clamp_wide, isqrt, lemma_isqrt_bounds, lemma_quot_rounds, quot, quot_wide, Scalar, ONE_RAW,
};
use crate::wide::{dot3, gap, square_over_one, times, unit_of, way};
use vstd::arithmetic::div_mod::lemma_div_denominator;
use crate::vector::Vector;
use vstd::prelude::*;

verus! {

/// Light that arrives everywhere along `direction`, from infinitely far.
#[derive(Clone, Copy, Debug, PartialEq, Eq, Structural)]
pub struct DirectionalLight {
    pub direction: Vector,
    pub colour: Colour,
    pub intensity: Scalar,
}

/// Light that spreads from `position` and thins out with the square of the
/// distance.
#[derive(Clone, Copy, Debug, PartialEq, Eq, Structural)]
pub struct SphericalLight {
    pub position: Point,
    pub colour: Colour,
    pub intensity: Scalar,
}

#[derive(Clone, Copy, Debug, PartialEq, Eq, Structural)]
/// A light of the scene.
pub enum Light {
    Directional(DirectionalLight),
    Spherical(SphericalLight),
}

/// The raw value of `4 * pi`.
pub const FOUR_PI_RAW: i64 = 53972150816;

/// `FOUR_PI_RAW` is four times the raw value of the circle constant.
pub proof fn lemma_four_pi()
    ensures
        FOUR_PI_RAW == 4 * crate::scalar::PI_RAW,
{
}

impl SphericalLight {
    /// The exact sum of the squares of the way from `p` to the light, in raw
    /// values.
    pub open spec fn way_sq(self, p: Point) -> nat {
        let v = way(self.position, p);
        (v.0 * v.0 + v.1 * v.1 + v.2 * v.2) as nat
    }

    /// The distance from `p` to the light, rounded down and not clamped.
    pub open spec fn far(self, p: Point) -> int {
        isqrt(self.way_sq(p)) as int
    }

    /// The square of the distance from `p` to the light: the dot product with
    /// itself of the exact way from `p` to the light.
    pub open spec fn distance_sq(self, p: Point) -> int {
        let v = way(self.position, p);
        dot3(v, v)
    }

    /// The area of the sphere around the light that passes through `p`:
    /// `4 * pi * r^2`, not clamped.
    pub open spec fn spread(self, p: Point) -> int {
        quot(FOUR_PI_RAW * self.distance_sq(p), ONE_RAW as int)
    }

    /// The light that arrives at `p`: the intensity divided by the area
    /// `spread(p)`, rounded toward zero; only this quotient is clamped. At
    /// the light itself, where the area is zero, it is the end of the range
    /// on the side of the intensity.
    pub open spec fn arriving(self, p: Point) -> Scalar {
        if self.spread(p) != 0 {
            Scalar::of(quot(self.intensity.raw * ONE_RAW, self.spread(p)))
        } else if self.intensity.raw > 0 {
            Scalar { raw: i64::MAX }
        } else if self.intensity.raw < 0 {
            Scalar { raw: i64::MIN }
        } else {
            Scalar { raw: 0 }
        }
    }

    /// The area is `4 * pi` times the square of the distance, up to the
    /// rounding of the steps: it lies between what the distance rounded down
    /// and the distance rounded up give.
    pub proof fn lemma_spread_is_area(self, p: Point)
        ensures
            0 <= self.spread(p),
            self.spread(p) * (ONE_RAW * ONE_RAW) <= FOUR_PI_RAW * ((self.far(p) + 1) * (self.far(p)
                + 1)),
            FOUR_PI_RAW * (self.far(p) * self.far(p)) < (self.spread(p) + 1) * (ONE_RAW * ONE_RAW)
                + 3 * FOUR_PI_RAW * ONE_RAW,
    {
        let one = ONE_RAW as int;
        let f = FOUR_PI_RAW as int;
        let v = way(self.position, p);
        let a = self.way_sq(p) as int;
        let r = self.far(p);
        let d = self.distance_sq(p);
        let s = self.spread(p);
        lemma_isqrt_bounds(self.way_sq(p));
        assert(v.0 * v.0 >= 0 && v.1 * v.1 >= 0 && v.2 * v.2 >= 0) by (nonlinear_arith);
        lemma_quot_rounds(v.0 * v.0, one);
        lemma_quot_rounds(v.1 * v.1, one);
        lemma_quot_rounds(v.2 * v.2, one);
        assert(d >= 0 && d * one <= a < (d + 3) * one) by (nonlinear_arith)
            requires
                d == times(v.0, v.0) + times(v.1, v.1) + times(v.2, v.2),
                a == v.0 * v.0 + v.1 * v.1 + v.2 * v.2,
                times(v.0, v.0) >= 0,
                times(v.1, v.1) >= 0,
                times(v.2, v.2) >= 0,
                times(v.0, v.0) * one <= v.0 * v.0 < (times(v.0, v.0) + 1) * one,
                times(v.1, v.1) * one <= v.1 * v.1 < (times(v.1, v.1) + 1) * one,
                times(v.2, v.2) * one <= v.2 * v.2 < (times(v.2, v.2) + 1) * one,
        ;
        assert(f * d >= 0) by (nonlinear_arith)
            requires
                f > 0,
                d >= 0,
        ;
        lemma_quot_rounds(f * d, one);
        assert(s * (one * one) <= f * ((r + 1) * (r + 1))) by (nonlinear_arith)
            requires
                s * one <= f * d,
                d * one <= a,
                a < (r + 1) * (r + 1),
                f > 0,
                one > 0,
        ;
        assert(f * (r * r) < (s + 1) * (one * one) + 3 * f * one) by (nonlinear_arith)
            requires
                f * d < (s + 1) * one,
                a < (d + 3) * one,
                r * r <= a,
                f > 0,
                one > 0,
        ;
    }

    /// The light that arrives is `intensity / (4 * pi * r^2)` with `r` the
    /// distance, up to the rounding of the steps: it lies between what the
    /// distance rounded up and the distance rounded down give. This holds
    /// for every light that is not negative and every point away from the
    /// light, wherever the quotient is within the range of a `Scalar`.
    pub proof fn lemma_arriving_is_formula(self, p: Point)
        requires
            self.intensity.raw >= 0,
            self.arriving(p).raw < i64::MAX,
        ensures
            0 <= self.arriving(p).raw,
            self.arriving(p).raw * (FOUR_PI_RAW * (self.far(p) * self.far(p)) - 3 * FOUR_PI_RAW
                * ONE_RAW - ONE_RAW * ONE_RAW) <= self.intensity.raw * ONE_RAW * (ONE_RAW * ONE_RAW),
            self.intensity.raw * ONE_RAW * (ONE_RAW * ONE_RAW) < (self.arriving(p).raw + 1) * (
            FOUR_PI_RAW * ((self.far(p) + 1) * (self.far(p) + 1))),
    {
        let one = ONE_RAW as int;
        let f = FOUR_PI_RAW as int;
        let r = self.far(p);
        let s = self.spread(p);
        let x = self.intensity.raw * ONE_RAW;
        let t = self.arriving(p).raw as int;
        self.lemma_spread_is_area(p);
        assert(x >= 0 && (self.intensity.raw == 0 ==> x == 0)) by (nonlinear_arith)
            requires
                x == self.intensity.raw * ONE_RAW,
                self.intensity.raw >= 0,
        ;
        let low = f * (r * r) - 3 * f * one - one * one;
        let high = f * ((r + 1) * (r + 1));
        assert(high > 0) by (nonlinear_arith)
            requires
                high == f * ((r + 1) * (r + 1)),
                f > 0,
                r >= 0,
        ;
        assert((s + 1) * (one * one) == s * (one * one) + one * one) by (nonlinear_arith);
        if s == 0 {
            assert(t == 0 && x == 0);
            assert(t * low == 0 && x * (one * one) == 0 && (t + 1) * high == high) by (nonlinear_arith)
                requires
                    t == 0,
                    x == 0,
            ;
        } else {
            lemma_quot_rounds(x, s);
            assert(t == quot(x, s));
            assert(t * low <= x * (one * one)) by (nonlinear_arith)
                requires
                    t >= 0,
                    t * s <= x,
                    low < s * (one * one),
                    one > 0,
            ;
            assert(x * (one * one) < (t + 1) * high) by (nonlinear_arith)
                requires
                    t >= 0,
                    x < (t + 1) * s,
                    s * (one * one) <= high,
                    one > 0,
            ;
        }
    }

    /// At twice the distance a quarter of the light arrives, up to the
    /// rounding of the steps: in the bounds of the formula, four times the
    /// square of the near distance stands where the square of the far
    /// distance stood. This holds for every light that is not negative and
    /// every two points of which one is twice as far as the other, wherever
    /// the distances and the light that arrives are within the range of a
    /// `Scalar`.
    pub proof fn lemma_quarter_at_twice_the_distance(self, p: Point, q: Point)
        requires
            self.intensity.raw >= 0,
            Light::Spherical(self).reach(q).raw == 2 * Light::Spherical(self).reach(p).raw,
            Light::Spherical(self).reach(q).raw < i64::MAX,
            Light::Spherical(self).strength(p).raw < i64::MAX,
            Light::Spherical(self).strength(q).raw < i64::MAX,
        ensures
            ({
                let near = Light::Spherical(self).reach(p).raw as int;
                let at_p = Light::Spherical(self).strength(p).raw as int;
                let at_q = Light::Spherical(self).strength(q).raw as int;
                &&& at_q * (4 * FOUR_PI_RAW * (near * near) - 3 * FOUR_PI_RAW * ONE_RAW - ONE_RAW
                    * ONE_RAW) < (at_p + 1) * (FOUR_PI_RAW * ((near + 1) * (near + 1)))
                &&& at_p * (FOUR_PI_RAW * (near * near) - 3 * FOUR_PI_RAW * ONE_RAW - ONE_RAW
                    * ONE_RAW) < (at_q + 1) * (FOUR_PI_RAW * ((2 * near + 1) * (2 * near + 1)))
            }),
    {
        self.lemma_arriving_is_formula(p);
        self.lemma_arriving_is_formula(q);
        let r = self.far(p);
        assert(self.far(q) == 2 * r);
        assert((2 * r) * (2 * r) == 4 * (r * r)) by (nonlinear_arith);
        assert(FOUR_PI_RAW * (4 * (r * r)) == 4 * FOUR_PI_RAW * (r * r)) by (nonlinear_arith);
    }

    /// Where the sphere through `q` has exactly four times the area of the
    /// sphere through `p`, exactly a quarter of the light arrives, rounded
    /// down.
    pub proof fn lemma_quarter_of_four_times_the_area(self, p: Point, q: Point)
        requires
            self.intensity.raw >= 0,
            self.spread(p) > 0,
            self.spread(q) == 4 * self.spread(p),
            self.arriving(p).raw < i64::MAX,
        ensures
            self.arriving(q).raw == self.arriving(p).raw / 4,
    {
        reveal(quot);
        let x = self.intensity.raw * ONE_RAW;
        let d = self.spread(p);
        assert(x >= 0) by (nonlinear_arith)
            requires
                x == self.intensity.raw * ONE_RAW,
                self.intensity.raw >= 0,
        ;
        lemma_div_denominator(x, d, 4);
        assert(d * 4 == 4 * d);
        assert(0 <= x / d && (x / d) / 4 <= x / d) by (nonlinear_arith)
            requires
                x >= 0,
                d > 0,
        ;
    }
}

impl Light {
    /// The direction of length one from `p` to the light: against the way a
    /// directional light shines, or toward the position of a spherical one.
    pub open spec fn toward(self, p: Point) -> Vector {
        match self {
            Light::Directional(d) => d.direction.unit().negated(),
            Light::Spherical(s) => unit_of(way(s.position, p)),
        }
    }

    /// The light that arrives at `p`: the stored intensity of a directional
    /// light; for a spherical one the stored intensity spread over the sphere
    /// through `p`, `intensity / (4 * pi * r^2)` with `r` from `p` to the
    /// light.
    pub open spec fn strength(self, p: Point) -> Scalar {
        match self {
            Light::Directional(d) => d.intensity,
            Light::Spherical(s) => s.arriving(p),
        }
    }

    /// The colour of the light.
    pub open spec fn tint(self) -> Colour {
        match self {
            Light::Directional(d) => d.colour,
            Light::Spherical(s) => s.colour,
        }
    }

    /// How far the light is from `p`: infinitely far for a directional light;
    /// for a spherical one the length of the exact way from `p` to the light,
    /// rounded down, and clamped only where it is beyond the range of a
    /// `Scalar`.
    pub open spec fn reach(self, p: Point) -> Scalar {
        match self {
            Light::Directional(d) => Scalar { raw: i64::MAX },
            Light::Spherical(s) => Scalar::of(s.far(p)),
        }
    }

    pub fn direction(&self, p: &Point) -> (r: Vector)
        ensures
            r == self.toward(*p),
    {
        match self {
            Light::Directional(d) => d.direction.normalise().neg(),
            Light::Spherical(s) => s.position.normal(p),
        }
    }

    pub fn intensity(&self, p: &Point) -> (r: Scalar)
        ensures
            r == self.strength(*p),
    {
        match self {
            Light::Directional(d) => d.intensity,
            Light::Spherical(s) => {
                let r2: i128 = square_over_one(gap(s.position.x, p.x)) + square_over_one(
                    gap(s.position.y, p.y),
                ) + square_over_one(gap(s.position.z, p.z));
                let whole: i128 = r2 / 4294967296;
                let part: i128 = r2 % 4294967296;
                assert(53972150816 * whole < 0x4000_0000_0000_0000_0000_0000_0000 && 53972150816
                    * r2 == (53972150816 * whole) * 4294967296 + 53972150816 * part && 53972150816
                    * r2 >= 0) by (nonlinear_arith)
                    requires
                        r2 == whole * 4294967296 + part,
                        0 <= whole < 0x40_0000_0000_0000_0000,
                        0 <= part < 4294967296,
                ;
                let spread: i128 = 53972150816 * whole + (53972150816 * part) / 4294967296;
                proof {
                    reveal(quot);
                    assert(((53972150816 * whole) * 4294967296 + 53972150816 * part) / 4294967296
                        == 53972150816 * whole + (53972150816 * part) / 4294967296)
                        by (nonlinear_arith)
                        requires
                            53972150816 * part >= 0,
                    ;
                }
                if spread != 0 {
                    Scalar { raw: clamp_wide(quot_wide((s.intensity.raw as i128) * 4294967296, spread)) }
                } else if s.intensity.raw > 0 {
                    Scalar { raw: i64::MAX }
                } else if s.intensity.raw < 0 {
                    Scalar { raw: i64::MIN }
                } else {
                    Scalar { raw: 0 }
                }
            },
        }
    }

    pub fn colour(&self) -> (r: &Colour)
        ensures
            *r == self.tint(),
    {
        match self {
            Light::Directional(d) => &d.colour,
            Light::Spherical(s) => &s.colour,
        }
    }

    pub fn distance(&self, p: &Point) -> (r: Scalar)
        ensures
            r == self.reach(*p),
    {
        match self {
            Light::Directional(_) => Scalar::infinity(),
            Light::Spherical(s) => {
                let vx: i128 = gap(s.position.x, p.x);
                let vy: i128 = gap(s.position.y, p.y);
                let vz: i128 = gap(s.position.z, p.z);
                if vx < -0x8000_0000_0000_0000 || vx > 0x7fff_ffff_ffff_ffff || vy
                    < -0x8000_0000_0000_0000 || vy > 0x7fff_ffff_ffff_ffff || vz
                    < -0x8000_0000_0000_0000 || vz > 0x7fff_ffff_ffff_ffff {
                    proof {
                        lemma_isqrt_bounds(s.way_sq(*p));
                        let far = s.far(*p);
                        assert(far >= 0x8000_0000_0000_0000) by (nonlinear_arith)
                            requires
                                vx * vx + vy * vy + vz * vz < (far + 1) * (far + 1),
                                far >= 0,
                                vx < -0x8000_0000_0000_0000 || vx > 0x7fff_ffff_ffff_ffff || vy
                                    < -0x8000_0000_0000_0000 || vy > 0x7fff_ffff_ffff_ffff || vz
                                    < -0x8000_0000_0000_0000 || vz > 0x7fff_ffff_ffff_ffff,
                        ;
                    }
                    Scalar::infinity()
                } else {
                    let v: Vector = Vector {
                        x: Scalar { raw: vx as i64 },
                        y: Scalar { raw: vy as i64 },
                        z: Scalar { raw: vz as i64 },
                    };
                    v.magnitude()
                }
            },
        }
    }
}

} // verus!
