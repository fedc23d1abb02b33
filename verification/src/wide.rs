//! Whole-number arithmetic on raw values that are too wide for a `Scalar`.
//!
//! The square of a distance outgrows a `Scalar` long before the distance does.
//! The formulas that square distances therefore take their middle steps here,
//! on exact integers, and clamp only their result.
use crate::point::Point;
use crate::scalar::{
    abs_int, clamp_wide, int_sqrt, isqrt, lemma_isqrt_bounds, lemma_isqrt_unique, lemma_quot_rounds,
    magnitude_wide, quot, quot_wide, Scalar, ONE_RAW,
};
use crate::vector::Vector;
use vstd::prelude::*;

verus! {

/// The product of two raw values as a raw value: `a * b / one`, rounded
/// toward zero and not clamped.
pub open spec fn times(a: int, b: int) -> int {
    quot(a * b, ONE_RAW as int)
}

/// The dot product of two triples of raw values, each product rounded, the
/// sum exact.
pub open spec fn dot3(a: (int, int, int), b: (int, int, int)) -> int {
    times(a.0, b.0) + times(a.1, b.1) + times(a.2, b.2)
}

/// The raw components of a vector.
pub open spec fn raws(v: Vector) -> (int, int, int) {
    (v.x.raw as int, v.y.raw as int, v.z.raw as int)
}

/// The exact way from `from` to `to`, axis by axis, in raw values. Unlike
/// `Point::minus` it is not clamped where the points lie far apart.
pub open spec fn way(to: Point, from: Point) -> (int, int, int) {
    (to.x.raw - from.x.raw, to.y.raw - from.y.raw, to.z.raw - from.z.raw)
}

/// The exact sum of the squares of a triple of raw values.
pub open spec fn way_sq(v: (int, int, int)) -> nat {
    (v.0 * v.0 + v.1 * v.1 + v.2 * v.2) as nat
}

/// The exact length of a triple of raw values, rounded down and not clamped.
pub open spec fn way_length(v: (int, int, int)) -> int {
    isqrt(way_sq(v)) as int
}

/// One part of a direction of length one: `c / m`, and zero where the length
/// `m` is zero.
pub open spec fn part(c: int, m: int) -> Scalar {
    if m != 0 {
        Scalar::of(quot(c * ONE_RAW, m))
    } else {
        Scalar { raw: 0 }
    }
}

/// The direction of length one along a way: each part divided by the exact
/// length of the way. The way of length zero has no direction and gives the
/// zero vector.
pub open spec fn unit_of(v: (int, int, int)) -> Vector {
    Vector {
        x: part(v.0, way_length(v)),
        y: part(v.1, way_length(v)),
        z: part(v.2, way_length(v)),
    }
}

/// The exact length of a way whose parts are gaps of raw values.
pub fn length_wide(vx: i128, vy: i128, vz: i128) -> (m: u128)
    requires
        -0x1_0000_0000_0000_0000 < vx < 0x1_0000_0000_0000_0000,
        -0x1_0000_0000_0000_0000 < vy < 0x1_0000_0000_0000_0000,
        -0x1_0000_0000_0000_0000 < vz < 0x1_0000_0000_0000_0000,
    ensures
        m == way_length((vx as int, vy as int, vz as int)),
        m < 0x2_0000_0000_0000_0000,
{
    let ax: u128 = magnitude_wide(vx);
    let ay: u128 = magnitude_wide(vy);
    let az: u128 = magnitude_wide(vz);
    let (hx, bx): (u128, u128) = (ax / 2, ax % 2);
    let (hy, by): (u128, u128) = (ay / 2, ay % 2);
    let (hz, bz): (u128, u128) = (az / 2, az % 2);
    assert(hx * hx + hx * bx < 0x4000_0000_0000_0000_0000_0000_0000_0000 && hy * hy + hy * by
        < 0x4000_0000_0000_0000_0000_0000_0000_0000 && hz * hz + hz * bz
        < 0x4000_0000_0000_0000_0000_0000_0000_0000) by (nonlinear_arith)
        requires
            hx < 0x8000_0000_0000_0000,
            hy < 0x8000_0000_0000_0000,
            hz < 0x8000_0000_0000_0000,
            bx <= 1,
            by <= 1,
            bz <= 1,
    ;
    let quarter: u128 = (hx * hx + hx * bx) + (hy * hy + hy * by) + (hz * hz + hz * bz);
    let odd: u128 = bx + by + bz;
    let ghost sum = way_sq((vx as int, vy as int, vz as int)) as int;
    assert(vx * vx >= 0 && vy * vy >= 0 && vz * vz >= 0) by (nonlinear_arith);
    assert(sum == 4 * quarter + odd) by (nonlinear_arith)
        requires
            sum == vx * vx + vy * vy + vz * vz,
            ax == vx || ax == -vx,
            ay == vy || ay == -vy,
            az == vz || az == -vz,
            ax == 2 * hx + bx,
            ay == 2 * hy + by,
            az == 2 * hz + bz,
            bx == 0 || bx == 1,
            by == 0 || by == 1,
            bz == 0 || bz == 1,
            quarter == (hx * hx + hx * bx) + (hy * hy + hy * by) + (hz * hz + hz * bz),
            odd == bx + by + bz,
    ;
    let root: u128 = int_sqrt(quarter) as u128;
    proof {
        lemma_isqrt_bounds(quarter as nat);
    }
    assert(root * root <= quarter && quarter - root * root <= 2 * root) by (nonlinear_arith)
        requires
            root * root <= quarter,
            quarter < (root + 1) * (root + 1),
    ;
    let rest: u128 = quarter - root * root;
    let up: bool = rest > root || (rest == root && odd >= 1);
    let m: u128 = if up {
        2 * root + 1
    } else {
        2 * root
    };
    proof {
        assert(m * m <= sum && sum < (m + 1) * (m + 1)) by (nonlinear_arith)
            requires
                sum == 4 * quarter + odd,
                0 <= odd <= 3,
                quarter == root * root + rest,
                0 <= rest <= 2 * root,
                up <==> (rest > root || (rest == root && odd >= 1)),
                m == if up {
                    2 * root + 1
                } else {
                    2 * root
                },
        ;
        lemma_isqrt_unique(sum as nat, m as nat);
    }
    m
}

/// The direction of length one along a way whose parts are gaps of raw
/// values.
pub fn unit_wide(vx: i128, vy: i128, vz: i128) -> (r: Vector)
    requires
        -0x1_0000_0000_0000_0000 < vx < 0x1_0000_0000_0000_0000,
        -0x1_0000_0000_0000_0000 < vy < 0x1_0000_0000_0000_0000,
        -0x1_0000_0000_0000_0000 < vz < 0x1_0000_0000_0000_0000,
    ensures
        r == unit_of((vx as int, vy as int, vz as int)),
{
    let m: u128 = length_wide(vx, vy, vz);
    if m == 0 {
        Vector { x: Scalar { raw: 0 }, y: Scalar { raw: 0 }, z: Scalar { raw: 0 } }
    } else {
        let d: i128 = m as i128;
        Vector {
            x: Scalar { raw: clamp_wide(quot_wide(vx * 4294967296, d)) },
            y: Scalar { raw: clamp_wide(quot_wide(vy * 4294967296, d)) },
            z: Scalar { raw: clamp_wide(quot_wide(vz * 4294967296, d)) },
        }
    }
}

/// The exact way from `b` to `a` along one axis.
pub fn gap(a: Scalar, b: Scalar) -> (r: i128)
    ensures
        r == a.raw - b.raw,
{
    a.raw as i128 - b.raw as i128
}

/// `times(a, b)` for a gap `a` and a raw value `b`.
pub fn times_wide(a: i128, b: i64) -> (r: i128)
    requires
        -0x1_0000_0000_0000_0000 < a < 0x1_0000_0000_0000_0000,
    ensures
        r == times(a as int, b as int),
        -0x8000_0000_0000_0000_0000_0000 < r < 0x8000_0000_0000_0000_0000_0000,
{
    assert(-0x7fff_ffff_ffff_ffff_8000_0000_0000_0000 <= a * b
        <= 0x7fff_ffff_ffff_ffff_8000_0000_0000_0000) by (nonlinear_arith)
        requires
            -0xffff_ffff_ffff_ffff <= a <= 0xffff_ffff_ffff_ffff,
            -0x8000_0000_0000_0000 <= b <= 0x7fff_ffff_ffff_ffff,
    ;
    let r: i128 = quot_wide(a * (b as i128), 4294967296);
    proof {
        crate::scalar::lemma_quot_rounds(a * b, ONE_RAW as int);
        let size = abs_int(r as int);
        assert(size < 0x8000_0000_0000_0000_0000_0000) by (nonlinear_arith)
            requires
                size * 4294967296 <= abs_int(a * b),
                abs_int(a * b) <= 0x7fff_ffff_ffff_ffff_8000_0000_0000_0000,
        ;
    }
    r
}

/// `times(t, t)`: the square of a raw value as a raw value.
pub fn square_over_one(t: i128) -> (r: i128)
    requires
        -0x4_0000_0000_0000_0000 < t < 0x4_0000_0000_0000_0000,
    ensures
        r == times(t as int, t as int),
        0 <= r < 0x10_0000_0000_0000_0000_0000_0000,
        r * ONE_RAW <= t * t < (r + 1) * ONE_RAW,
{
    let m: u128 = magnitude_wide(t);
    let a: u128 = m / 65536;
    let b: u128 = m % 65536;
    assert(a * a < 0x10_0000_0000_0000_0000_0000_0000 && a * b < 0x4_0000_0000_0000_0000 && b * b
        < 0x1_0000_0000) by (nonlinear_arith)
        requires
            a < 0x4_0000_0000_0000,
            b < 0x1_0000,
    ;
    let low: u128 = a * b * 131072 + b * b;
    let r: u128 = a * a + low / 4294967296;
    proof {
        reveal(quot);
        assert(t * t == (a * a) * 4294967296 + low && t * t >= 0) by (nonlinear_arith)
            requires
                m == a * 65536 + b,
                m == t || m == -t,
                low == a * b * 131072 + b * b,
        ;
        assert(((a * a) * 4294967296 + low) / 4294967296 == a * a + low / 4294967296)
            by (nonlinear_arith)
            requires
                low >= 0,
        ;
        lemma_quot_rounds(t * t, ONE_RAW as int);
        assert(t * t < 0x10_0000_0000_0000_0000_0000_0000_0000_0000) by (nonlinear_arith)
            requires
                -0x4_0000_0000_0000_0000 < t < 0x4_0000_0000_0000_0000,
        ;
        assert(r < 0x10_0000_0000_0000_0000_0000_0000) by (nonlinear_arith)
            requires
                r == (t * t) / 4294967296,
                0 <= t * t < 0x10_0000_0000_0000_0000_0000_0000_0000_0000,
        ;
    }
    r as i128
}

/// `num / d` as a `Scalar`: the quotient of a wide raw value by a raw value,
/// rounded toward zero and clamped.
pub fn ratio_wide(num: i128, d: i64) -> (r: Scalar)
    requires
        d != 0,
        -0x4_0000_0000_0000_0000_0000_0000 < num < 0x4_0000_0000_0000_0000_0000_0000,
    ensures
        r == Scalar::of(quot(num * ONE_RAW, d as int)),
{
    proof {
        lemma_quot_rounds(num * ONE_RAW, d as int);
    }
    if num >= 0x4000_0000_0000_0000_0000_0000 || num <= -0x4000_0000_0000_0000_0000_0000 {
        proof {
            let q = abs_int(quot(num * ONE_RAW, d as int));
            assert(q >= 0x8000_0000_0000_0000) by (nonlinear_arith)
                requires
                    abs_int(num * ONE_RAW) < (q + 1) * abs_int(d as int),
                    abs_int(num * ONE_RAW) >= 0x4000_0000_0000_0000_0000_0000 * 0x1_0000_0000,
                    0 < abs_int(d as int) <= 0x8000_0000_0000_0000,
                    q >= 0,
            ;
        }
        if (num < 0) == (d < 0) {
            Scalar { raw: i64::MAX }
        } else {
            Scalar { raw: i64::MIN }
        }
    } else {
        Scalar { raw: clamp_wide(quot_wide(num * 4294967296, d as i128)) }
    }
}

/// A component `c` of a vector of length `m`, divided by `m`: the quotient
/// `u` is at most one, and `m * u` misses `one * c` by less than `m`.
proof fn lemma_ratio_bounds(c: int, m: int)
    requires
        1 <= m,
        abs_int(c) <= m,
    ensures
        abs_int(quot(c * ONE_RAW, m)) <= ONE_RAW,
        m * m * (quot(c * ONE_RAW, m) * quot(c * ONE_RAW, m)) <= ONE_RAW * ONE_RAW * (c * c),
        m * m * (quot(c * ONE_RAW, m) * quot(c * ONE_RAW, m)) >= ONE_RAW * ONE_RAW * (c * c) - 2
            * ONE_RAW * (m * m),
{
    reveal(quot);
    let n = ONE_RAW as int;
    let b = abs_int(c);
    let u = quot(c * n, m);
    let w = (b * n) / m;
    assert(abs_int(c * n) == b * n) by (nonlinear_arith)
        requires
            b == abs_int(c),
            n > 0,
    ;
    assert(u == w || u == -w);
    assert(u * u == w * w) by (nonlinear_arith)
        requires
            u == w || u == -w,
    ;
    assert(c * c == b * b) by (nonlinear_arith)
        requires
            b == c || b == -c,
    ;
    assert(m * w <= b * n < m * w + m && 0 <= w) by (nonlinear_arith)
        requires
            w == (b * n) / m,
            m >= 1,
            b >= 0,
            n > 0,
    ;
    assert(w <= n) by (nonlinear_arith)
        requires
            m * w <= b * n,
            b <= m,
            m >= 1,
            n > 0,
            w >= 0,
    ;
    assert(m * m * (w * w) == (m * w) * (m * w) && n * n * (b * b) == (b * n) * (b * n)) by (nonlinear_arith);
    assert((m * w) * (m * w) <= (b * n) * (b * n)) by (nonlinear_arith)
        requires
            0 <= m * w <= b * n,
    ;
    assert((m * w) * (m * w) >= (b * n) * (b * n) - 2 * n * (m * m)) by (nonlinear_arith)
        requires
            0 <= m * w,
            b * n < m * w + m,
            0 <= b <= m,
            m >= 1,
            n > 0,
    ;
}


/// The length of a direction of length one is one, to within four units
/// below and `one / length` units above, for every way that is not of length
/// zero.
pub proof fn lemma_unit_of_has_length_one(v: (int, int, int))
    requires
        way_sq(v) > 0,
    ensures
        way_length(v) > 0,
        ONE_RAW - 4 <= way_length(raws(unit_of(v))) <= ONE_RAW + (ONE_RAW as int) / way_length(v),
{
    let n = ONE_RAW as int;
    let (x, y, z) = (v.0, v.1, v.2);
    let s2 = way_sq(v) as int;
    let m = way_length(v);
    lemma_isqrt_bounds(way_sq(v));
    assert(x * x >= 0 && y * y >= 0 && z * z >= 0) by (nonlinear_arith);
    assert(m >= 1) by (nonlinear_arith)
        requires
            s2 < (m + 1) * (m + 1),
            s2 >= 1,
            m >= 0,
    ;
    assert(abs_int(x) <= m && abs_int(y) <= m && abs_int(z) <= m) by (nonlinear_arith)
        requires
            x * x <= s2,
            y * y <= s2,
            z * z <= s2,
            s2 < (m + 1) * (m + 1),
            m >= 0,
    ;
    lemma_ratio_bounds(x, m);
    lemma_ratio_bounds(y, m);
    lemma_ratio_bounds(z, m);
    let (ux, uy, uz) = (quot(x * n, m), quot(y * n, m), quot(z * n, m));
    let u = unit_of(v);
    assert(u.x.raw == ux && u.y.raw == uy && u.z.raw == uz);
    let t2 = way_sq(raws(u)) as int;
    assert(ux * ux >= 0 && uy * uy >= 0 && uz * uz >= 0) by (nonlinear_arith);
    assert(t2 == ux * ux + uy * uy + uz * uz);
    assert(m * m * t2 == m * m * (ux * ux) + m * m * (uy * uy) + m * m * (uz * uz)) by (nonlinear_arith)
        requires
            t2 == ux * ux + uy * uy + uz * uz,
    ;
    assert(n * n * s2 == n * n * (x * x) + n * n * (y * y) + n * n * (z * z)) by (nonlinear_arith)
        requires
            s2 == x * x + y * y + z * z,
    ;
    assert(m * m * t2 <= n * n * s2 && m * m * t2 >= n * n * s2 - 6 * n * (m * m)) by (nonlinear_arith)
        requires
            m * m * t2 == m * m * (ux * ux) + m * m * (uy * uy) + m * m * (uz * uz),
            n * n * s2 == n * n * (x * x) + n * n * (y * y) + n * n * (z * z),
            m * m * (ux * ux) <= n * n * (x * x),
            m * m * (uy * uy) <= n * n * (y * y),
            m * m * (uz * uz) <= n * n * (z * z),
            m * m * (ux * ux) >= n * n * (x * x) - 2 * n * (m * m),
            m * m * (uy * uy) >= n * n * (y * y) - 2 * n * (m * m),
            m * m * (uz * uz) >= n * n * (z * z) - 2 * n * (m * m),
    ;
    let l = way_length(raws(u));
    lemma_isqrt_bounds(way_sq(raws(u)));
    assert(m * l < n * (m + 1)) by (nonlinear_arith)
        requires
            l * l <= t2,
            m * m * t2 <= n * n * s2,
            s2 < (m + 1) * (m + 1),
            m >= 1,
            l >= 0,
            n > 0,
    ;
    let q = n / m;
    assert(l <= n + q) by (nonlinear_arith)
        requires
            m * l < n * (m + 1),
            q == n / m,
            m >= 1,
            n > 0,
    ;
    assert(t2 >= (n - 4) * (n - 4)) by (nonlinear_arith)
        requires
            m * m * t2 >= n * n * s2 - 6 * n * (m * m),
            m * m <= s2,
            m >= 1,
            n == 4294967296,
    ;
    assert(l >= n - 4) by (nonlinear_arith)
        requires
            t2 < (l + 1) * (l + 1),
            t2 >= (n - 4) * (n - 4),
            l >= 0,
            n == 4294967296,
    ;
}

} // verus!
