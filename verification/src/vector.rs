//! Free displacements and directions in space.
use crate::scalar::{
    abs_int, clamp_wide, int_sqrt, isqrt, lemma_quot_multiple, lemma_quot_rounds, Scalar, ONE_RAW,
};
use crate::wide::{
    dot3, lemma_unit_of_has_length_one, raws, times, times_wide, unit_of, unit_wide, way_length,
};
use vstd::prelude::*;

verus! {

/// A displacement or a direction.
#[derive(Clone, Copy, Debug, PartialEq, Eq, Structural)]
pub struct Vector {
    pub x: Scalar,
    pub y: Scalar,
    pub z: Scalar,
}

/// The square of a raw value, as a wide unsigned integer.
fn square_wide(a: i64) -> (r: u128)
    ensures
        r == a * a,
        r <= 0x4000_0000_0000_0000_0000_0000_0000_0000,
{
    let w: i128 = a as i128;
    let m: u128 = if w < 0 {
        (-w) as u128
    } else {
        w as u128
    };
    assert(m * m == a * a && m * m <= 0x4000_0000_0000_0000_0000_0000_0000_0000)
        by (nonlinear_arith)
        requires
            m == a || m == -a,
            0 <= m <= 0x8000_0000_0000_0000,
    ;
    m * m
}

impl Vector {
    /// The dot product: the sum of the products of the components, each
    /// product rounded toward zero, the sum exact; only the sum is clamped.
    pub open spec fn inner(self, rhs: Vector) -> Scalar {
        Scalar::of(dot3(raws(self), raws(rhs)))
    }

    /// The exact sum of the squares of the raw components.
    pub open spec fn norm_sq(self) -> nat {
        (self.x.raw * self.x.raw + self.y.raw * self.y.raw + self.z.raw * self.z.raw) as nat
    }

    /// The length, rounded down: the largest number whose square does not
    /// exceed the exact sum of the squares of the components.
    pub open spec fn length(self) -> Scalar {
        Scalar::of(isqrt(self.norm_sq()) as int)
    }

    /// Each component divided by the exact length, which is not clamped.
    pub open spec fn unit(self) -> Vector {
        unit_of(raws(self))
    }

    /// Each component multiplied by `k`.
    pub open spec fn scaled(self, k: Scalar) -> Vector {
        Vector { x: self.x.product(k), y: self.y.product(k), z: self.z.product(k) }
    }

    /// Each component negated.
    pub open spec fn negated(self) -> Vector {
        Vector { x: self.x.negation(), y: self.y.negation(), z: self.z.negation() }
    }

    /// Component by component difference.
    pub open spec fn minus(self, rhs: Vector) -> Vector {
        Vector {
            x: self.x.difference(rhs.x),
            y: self.y.difference(rhs.y),
            z: self.z.difference(rhs.z),
        }
    }

    /// Component by component sum.
    pub open spec fn plus(self, rhs: Vector) -> Vector {
        Vector { x: self.x.sum(rhs.x), y: self.y.sum(rhs.y), z: self.z.sum(rhs.z) }
    }

    /// `direction` mirrored about `normal`: `direction` less twice its part
    /// along `normal`, `direction - 2 * dot(direction, normal) * normal`.
    /// Only the dot product and the result are clamped.
    pub open spec fn mirrored(normal: Vector, direction: Vector) -> Vector {
        let along = direction.inner(normal).raw as int;
        Vector {
            x: Scalar::of(direction.x.raw - 2 * times(normal.x.raw as int, along)),
            y: Scalar::of(direction.y.raw - 2 * times(normal.y.raw as int, along)),
            z: Scalar::of(direction.z.raw - 2 * times(normal.z.raw as int, along)),
        }
    }

    /// The vector of length one along `self`. A zero vector has no direction:
    /// it is returned as it is.
    pub fn normalise(&self) -> (r: Vector)
        ensures
            r == self.unit(),
    {
        unit_wide(self.x.raw as i128, self.y.raw as i128, self.z.raw as i128)
    }

    /// The length, rounded down. It is taken from the exact sum of the squares,
    /// so it is right to the last unit for short and for long vectors alike.
    pub fn magnitude(&self) -> (r: Scalar)
        ensures
            r == self.length(),
    {
        let sq: u128 = square_wide(self.x.raw) + square_wide(self.y.raw) + square_wide(self.z.raw);
        let root: u64 = int_sqrt(sq);
        if root > 0x7fff_ffff_ffff_ffff {
            Scalar { raw: i64::MAX }
        } else {
            Scalar { raw: root as i64 }
        }
    }

    /// The dot product.
    pub fn dot(&self, rhs: &Vector) -> (r: Scalar)
        ensures
            r == self.inner(*rhs),
    {
        let sum: i128 = times_wide(self.x.raw as i128, rhs.x.raw) + times_wide(
            self.y.raw as i128,
            rhs.y.raw,
        ) + times_wide(self.z.raw as i128, rhs.z.raw);
        Scalar { raw: clamp_wide(sum) }
    }

    /// `direction` mirrored about `normal`, which is taken to have length one.
    /// The result is not brought back to length one.
    pub fn reflect(normal: &Vector, direction: &Vector) -> (r: Vector)
        ensures
            r == Vector::mirrored(*normal, *direction),
    {
        let along: Scalar = direction.dot(normal);
        Vector {
            x: Scalar {
                raw: clamp_wide(direction.x.raw as i128 - 2 * times_wide(normal.x.raw as i128, along.raw)),
            },
            y: Scalar {
                raw: clamp_wide(direction.y.raw as i128 - 2 * times_wide(normal.y.raw as i128, along.raw)),
            },
            z: Scalar {
                raw: clamp_wide(direction.z.raw as i128 - 2 * times_wide(normal.z.raw as i128, along.raw)),
            },
        }
    }

    pub fn mul(self, op: Scalar) -> (r: Vector)
        ensures
            r == self.scaled(op),
    {
        Vector { x: self.x.mul(op), y: self.y.mul(op), z: self.z.mul(op) }
    }

    pub fn neg(self) -> (r: Vector)
        ensures
            r == self.negated(),
    {
        Vector { x: self.x.neg(), y: self.y.neg(), z: self.z.neg() }
    }

    pub fn sub(self, rhs: Vector) -> (r: Vector)
        ensures
            r == self.minus(rhs),
    {
        Vector { x: self.x.sub(rhs.x), y: self.y.sub(rhs.y), z: self.z.sub(rhs.z) }
    }

    pub fn add(self, rhs: Vector) -> (r: Vector)
        ensures
            r == self.plus(rhs),
    {
        Vector { x: self.x.add(rhs.x), y: self.y.add(rhs.y), z: self.z.add(rhs.z) }
    }
}

/// Four to the power `k`.
pub open spec fn pow4(k: nat) -> int
    decreases k,
{
    if k == 0 {
        1
    } else {
        4 * pow4((k - 1) as nat)
    }
}

/// A square is four times a whole number, plus one where its root is odd.
proof fn lemma_square_parity(x: int)
    ensures
        x * x == 4 * ((x / 2) * (x / 2) + (x / 2) * (x % 2)) + (x % 2),
{
    let q = x / 2;
    let r = x % 2;
    assert(x * x == 4 * (q * q + q * r) + r) by (nonlinear_arith)
        requires
            x == 2 * q + r,
            r == 0 || r == 1,
    ;
}

/// Three squares add up to a power of four only where two of them are zero.
proof fn lemma_three_squares(x: int, y: int, z: int, k: nat)
    requires
        x * x + y * y + z * z == pow4(k),
    ensures
        (y == 0 && z == 0) || (x == 0 && z == 0) || (x == 0 && y == 0),
    decreases k,
{
    if k == 0 {
        assert((x != 0 ==> x * x >= 1) && (y != 0 ==> y * y >= 1) && (z != 0 ==> z * z >= 1) && x
            * x >= 0 && y * y >= 0 && z * z >= 0) by (nonlinear_arith);
    } else {
        lemma_square_parity(x);
        lemma_square_parity(y);
        lemma_square_parity(z);
        let (a, b, c) = (x / 2, y / 2, z / 2);
        assert(x % 2 == 0 && y % 2 == 0 && z % 2 == 0);
        assert(a * a + b * b + c * c == pow4((k - 1) as nat)) by (nonlinear_arith)
            requires
                x == 2 * a,
                y == 2 * b,
                z == 2 * c,
                x * x + y * y + z * z == 4 * pow4((k - 1) as nat),
        ;
        lemma_three_squares(a, b, c, (k - 1) as nat);
    }
}

/// A number whose square is the square of one is one or minus one.
proof fn lemma_root_of_one(x: int)
    requires
        x * x == ONE_RAW * ONE_RAW,
    ensures
        x == ONE_RAW || x == -ONE_RAW,
{
    assert((x - ONE_RAW) * (x + ONE_RAW) == x * x - ONE_RAW * ONE_RAW) by (nonlinear_arith);
    assert(x == ONE_RAW || x == -ONE_RAW) by (nonlinear_arith)
        requires
            (x - ONE_RAW) * (x + ONE_RAW) == 0,
    ;
}

impl Vector {
    /// Whether the exact sum of the squares of the components is one.
    pub open spec fn is_unit(self) -> bool {
        self.norm_sq() == ONE_RAW * ONE_RAW
    }

    /// A vector of length exactly one lies along an axis: one component is
    /// one or minus one and the others are zero.
    pub proof fn lemma_unit_is_axis(self)
        requires
            self.is_unit(),
        ensures
            (self.y.raw == 0 && self.z.raw == 0 && (self.x.raw == ONE_RAW || self.x.raw == -ONE_RAW))
                || (self.x.raw == 0 && self.z.raw == 0 && (self.y.raw == ONE_RAW || self.y.raw
                == -ONE_RAW)) || (self.x.raw == 0 && self.y.raw == 0 && (self.z.raw == ONE_RAW
                || self.z.raw == -ONE_RAW)),
    {
        let (x, y, z) = (self.x.raw as int, self.y.raw as int, self.z.raw as int);
        assert(pow4(32) == ONE_RAW * ONE_RAW) by {
            reveal_with_fuel(pow4, 33);
        }
        assert(x * x >= 0 && y * y >= 0 && z * z >= 0) by (nonlinear_arith);
        lemma_three_squares(x, y, z, 32);
        if y == 0 && z == 0 {
            lemma_root_of_one(x);
        } else if x == 0 && z == 0 {
            lemma_root_of_one(y);
        } else {
            lemma_root_of_one(z);
        }
    }

    /// Mirroring about a normal of length one keeps the size of the part of a
    /// direction along the normal and flips its sign, for every direction
    /// whose part along the normal is within the range of a `Scalar`.
    pub proof fn lemma_reflect_flips_normal_part(n: Vector, v: Vector)
        requires
            n.is_unit(),
            i64::MIN <= dot3(raws(v), raws(n)) <= i64::MAX,
        ensures
            Vector::mirrored(n, v).inner(n) == v.inner(n).negation(),
    {
        n.lemma_unit_is_axis();
        let one = ONE_RAW as int;
        let d = v.inner(n).raw as int;
        let r = Vector::mirrored(n, v);
        lemma_times_simple(v.x.raw as int);
        lemma_times_simple(v.y.raw as int);
        lemma_times_simple(v.z.raw as int);
        lemma_times_simple(d);
        lemma_times_simple(r.x.raw as int);
        lemma_times_simple(r.y.raw as int);
        lemma_times_simple(r.z.raw as int);
        lemma_times_simple(0);
    }
}

/// A rounded product misses the exact product by less than one unit.
pub proof fn lemma_times_error(a: int, b: int)
    ensures
        -ONE_RAW < times(a, b) * ONE_RAW - a * b < ONE_RAW,
{
    let t = times(a, b);
    let p = a * b;
    lemma_quot_rounds(p, ONE_RAW as int);
    assert(-ONE_RAW < t * ONE_RAW - p < ONE_RAW) by (nonlinear_arith)
        requires
            abs_int(t) * ONE_RAW <= abs_int(p) < (abs_int(t) + 1) * ONE_RAW,
            p >= 0 ==> t >= 0,
            p < 0 ==> t <= 0,
    ;
}

/// The size of a product is the product of the sizes.
proof fn lemma_abs_product(a: int, b: int)
    ensures
        abs_int(a * b) == abs_int(a) * abs_int(b),
{
    assert(abs_int(a * b) == abs_int(a) * abs_int(b)) by (nonlinear_arith);
}

/// An error of less than one unit, times `n`, is at most `n` units in size.
proof fn lemma_error_times(c: int, n: int)
    requires
        -ONE_RAW < c < ONE_RAW,
    ensures
        -ONE_RAW * abs_int(n) <= c * n <= ONE_RAW * abs_int(n),
{
    assert(-ONE_RAW * abs_int(n) <= c * n <= ONE_RAW * abs_int(n)) by (nonlinear_arith)
        requires
            -ONE_RAW < c < ONE_RAW,
    ;
}

impl Vector {
    /// Mirroring about any normal flips the sign of the part of a direction
    /// along the normal, up to the rounding of the steps and to as much as
    /// the length of the normal differs from one: with `d` that part, the
    /// part of the mirrored direction misses `-d` by at most
    /// `2 * |d| * |1 - |n|^2|`, six units, and two units for each unit of the
    /// sizes of the normal's components. This holds wherever the part, the
    /// mirrored direction and its part are within the range of a `Scalar`.
    pub proof fn lemma_reflect_nearly_flips(n: Vector, v: Vector)
        requires
            i64::MIN <= dot3(raws(v), raws(n)) <= i64::MAX,
            i64::MIN <= v.x.raw - 2 * times(n.x.raw as int, v.inner(n).raw as int) <= i64::MAX,
            i64::MIN <= v.y.raw - 2 * times(n.y.raw as int, v.inner(n).raw as int) <= i64::MAX,
            i64::MIN <= v.z.raw - 2 * times(n.z.raw as int, v.inner(n).raw as int) <= i64::MAX,
            i64::MIN <= dot3(raws(Vector::mirrored(n, v)), raws(n)) <= i64::MAX,
        ensures
            abs_int(Vector::mirrored(n, v).inner(n).raw + v.inner(n).raw) * (ONE_RAW * ONE_RAW) <= 2
                * abs_int(v.inner(n).raw as int) * abs_int(ONE_RAW * ONE_RAW - n.norm_sq()) + 6 * (
            ONE_RAW * ONE_RAW) + 2 * ONE_RAW * (abs_int(n.x.raw as int) + abs_int(n.y.raw as int)
                + abs_int(n.z.raw as int)),
    {
        let one = ONE_RAW as int;
        let (nx, ny, nz) = (n.x.raw as int, n.y.raw as int, n.z.raw as int);
        let (vx, vy, vz) = (v.x.raw as int, v.y.raw as int, v.z.raw as int);
        let (tx, ty, tz) = (times(vx, nx), times(vy, ny), times(vz, nz));
        let d = tx + ty + tz;
        assert(v.inner(n).raw == d);
        let (gx, gy, gz) = (times(nx, d), times(ny, d), times(nz, d));
        let (rx, ry, rz) = (vx - 2 * gx, vy - 2 * gy, vz - 2 * gz);
        let m = Vector::mirrored(n, v);
        assert(m.x.raw == rx && m.y.raw == ry && m.z.raw == rz);
        let (ux, uy, uz) = (times(rx, nx), times(ry, ny), times(rz, nz));
        let back = ux + uy + uz;
        assert(m.inner(n).raw == back);
        lemma_times_error(vx, nx);
        lemma_times_error(vy, ny);
        lemma_times_error(vz, nz);
        lemma_times_error(nx, d);
        lemma_times_error(ny, d);
        lemma_times_error(nz, d);
        lemma_times_error(rx, nx);
        lemma_times_error(ry, ny);
        lemma_times_error(rz, nz);
        let (bx, by, bz) = (tx * one - vx * nx, ty * one - vy * ny, tz * one - vz * nz);
        let (cx, cy, cz) = (gx * one - nx * d, gy * one - ny * d, gz * one - nz * d);
        let (ax, ay, az) = (ux * one - rx * nx, uy * one - ry * ny, uz * one - rz * nz);
        let n2 = nx * nx + ny * ny + nz * nz;
        assert(nx * nx >= 0 && ny * ny >= 0 && nz * nz >= 0) by (nonlinear_arith);
        assert(n.norm_sq() == n2);
        assert(rx * nx == vx * nx - 2 * (gx * nx) && ry * ny == vy * ny - 2 * (gy * ny) && rz * nz
            == vz * nz - 2 * (gz * nz)) by (nonlinear_arith)
            requires
                rx == vx - 2 * gx,
                ry == vy - 2 * gy,
                rz == vz - 2 * gz,
        ;
        assert((gx * nx) * one == (nx * nx) * d + cx * nx && (gy * ny) * one == (ny * ny) * d + cy
            * ny && (gz * nz) * one == (nz * nz) * d + cz * nz) by (nonlinear_arith)
            requires
                gx * one == nx * d + cx,
                gy * one == ny * d + cy,
                gz * one == nz * d + cz,
        ;
        assert(d * n2 == (nx * nx) * d + (ny * ny) * d + (nz * nz) * d) by (nonlinear_arith)
            requires
                n2 == nx * nx + ny * ny + nz * nz,
        ;
        let rounding = one * (ax + ay + az - bx - by - bz) - 2 * (cx * nx + cy * ny + cz * nz);
        let skew = 2 * (d * (one * one - n2));
        assert(d * (one * one - n2) == d * (one * one) - d * n2) by (nonlinear_arith);
        assert((back + d) * (one * one) == skew + rounding) by (nonlinear_arith)
            requires
                back == ux + uy + uz,
                d == tx + ty + tz,
                ux * one == rx * nx + ax,
                uy * one == ry * ny + ay,
                uz * one == rz * nz + az,
                tx * one == vx * nx + bx,
                ty * one == vy * ny + by,
                tz * one == vz * nz + bz,
                rx * nx == vx * nx - 2 * (gx * nx),
                ry * ny == vy * ny - 2 * (gy * ny),
                rz * nz == vz * nz - 2 * (gz * nz),
                (gx * nx) * one == (nx * nx) * d + cx * nx,
                (gy * ny) * one == (ny * ny) * d + cy * ny,
                (gz * nz) * one == (nz * nz) * d + cz * nz,
                d * n2 == (nx * nx) * d + (ny * ny) * d + (nz * nz) * d,
                skew == 2 * (d * (one * one) - d * n2),
                rounding == one * (ax + ay + az - bx - by - bz) - 2 * (cx * nx + cy * ny + cz * nz),
                one == 4294967296,
        ;
        lemma_error_times(cx, nx);
        lemma_error_times(cy, ny);
        lemma_error_times(cz, nz);
        lemma_abs_product(d, one * one - n2);
        lemma_abs_product(back + d, one * one);
        assert(abs_int(one * one) == one * one);
        assert(abs_int(rounding) <= 6 * (one * one) + 2 * one * (abs_int(nx) + abs_int(ny) + abs_int(nz)))
            by (nonlinear_arith)
            requires
                rounding == one * (ax + ay + az - bx - by - bz) - 2 * (cx * nx + cy * ny + cz * nz),
                -one < ax < one,
                -one < ay < one,
                -one < az < one,
                -one < bx < one,
                -one < by < one,
                -one < bz < one,
                -one * abs_int(nx) <= cx * nx <= one * abs_int(nx),
                -one * abs_int(ny) <= cy * ny <= one * abs_int(ny),
                -one * abs_int(nz) <= cz * nz <= one * abs_int(nz),
                one == 4294967296,
        ;
        let gap = one * one - n2;
        assert(abs_int(skew) == 2 * abs_int(d) * abs_int(gap)) by (nonlinear_arith)
            requires
                skew == 2 * (d * gap),
                abs_int(d * gap) == abs_int(d) * abs_int(gap),
        ;
        assert(abs_int(back + d) * (one * one) == abs_int(skew + rounding));
    }
}

/// Multiplying a raw value by one changes nothing, by minus one negates, by
/// zero gives zero.
proof fn lemma_times_simple(a: int)
    ensures
        times(a, ONE_RAW as int) == a,
        times(ONE_RAW as int, a) == a,
        times(a, -ONE_RAW) == -a,
        times(-ONE_RAW, a) == -a,
        times(a, 0) == 0,
        times(0, a) == 0,
{
    let one = ONE_RAW as int;
    lemma_quot_multiple(a, one);
    lemma_quot_multiple(-a, one);
    lemma_quot_multiple(0, one);
    assert(a * one == one * a && a * (-one) == (-a) * one && (-one) * a == (-a) * one && a * 0 == 0
        * one && 0 * a == 0 * one) by (nonlinear_arith);
}

impl Vector {
    /// The length of a normalised vector is one, to within four units below
    /// and `one / length` units above, for every vector that is not zero.
    pub proof fn lemma_unit_has_length_one(self)
        requires
            self.norm_sq() > 0,
        ensures
            way_length(raws(self)) > 0,
            ONE_RAW - 4 <= self.unit().length().raw <= ONE_RAW + (ONE_RAW as int) / way_length(raws(self)),
    {
        lemma_unit_of_has_length_one(raws(self));
        assert((ONE_RAW as int) / way_length(raws(self)) <= ONE_RAW) by (nonlinear_arith)
            requires
                way_length(raws(self)) >= 1,
        ;
    }
}

} // verus!
