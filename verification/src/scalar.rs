//! Saturating fixed-point numbers.
//!
//! Every quantity of the renderer (a coordinate, a distance, a colour channel,
//! an intensity) is a [`Scalar`]: a signed 64-bit integer that counts units of
//! `2^-32`. Each operation is exact integer arithmetic followed by one rounding
//! toward zero and one clamp to the representable range, so every operation is
//! total and each result is stated exactly by a spec function over `int`.
//! The upper end of the range doubles as "infinitely far". Formulas with
//! several steps do not chain these operations where a middle step could
//! clamp: they work on the raw values, in the module `wide`.
use vstd::prelude::*;

verus! {

/// The raw value that stands for `1`.
pub const ONE_RAW: i64 = 4294967296;

/// The raw value of the circle constant, rounded down.
pub const PI_RAW: i64 = 13493037704;

/// `x` clamped to the range of a raw value.
pub open spec fn saturate(x: int) -> int {
    if x < i64::MIN as int {
        i64::MIN as int
    } else if x > i64::MAX as int {
        i64::MAX as int
    } else {
        x
    }
}

/// The absolute value of `x`.
pub open spec fn abs_int(x: int) -> int {
    if x < 0 {
        -x
    } else {
        x
    }
}

/// `n / d` rounded toward zero; `0` where `d` is `0`.
#[verifier::opaque]
pub open spec fn quot(n: int, d: int) -> int {
    if d == 0 {
        0
    } else if (n < 0) == (d < 0) {
        abs_int(n) / abs_int(d)
    } else {
        -(abs_int(n) / abs_int(d))
    }
}

/// The integer square root: the largest `r` with `r * r <= n`.
pub open spec fn isqrt(n: nat) -> nat
    decreases n,
{
    if n == 0 {
        0
    } else {
        let r = isqrt((n - 1) as nat);
        if (r + 1) * (r + 1) <= n {
            r + 1
        } else {
            r
        }
    }
}

/// `isqrt(n)` is a root from below: its square does not exceed `n`, and the
/// square of its successor does.
pub proof fn lemma_isqrt_bounds(n: nat)
    ensures
        isqrt(n) * isqrt(n) <= n,
        n < (isqrt(n) + 1) * (isqrt(n) + 1),
    decreases n,
{
    let s = isqrt(n);
    if n == 0 {
        assert(s * s == 0 && (s + 1) * (s + 1) == 1) by (nonlinear_arith)
            requires
                s == 0,
        ;
    } else {
        let r = isqrt((n - 1) as nat);
        lemma_isqrt_bounds((n - 1) as nat);
        if (r + 1) * (r + 1) <= n {
            assert(s * s < (s + 1) * (s + 1)) by (nonlinear_arith);
        }
    }
}

/// Only one number is a root from below of `n`.
pub proof fn lemma_isqrt_unique(n: nat, r: nat)
    requires
        r * r <= n,
        n < (r + 1) * (r + 1),
    ensures
        isqrt(n) == r,
{
    let s = isqrt(n);
    lemma_isqrt_bounds(n);
    if s < r {
        assert((s + 1) * (s + 1) <= r * r) by (nonlinear_arith)
            requires
                s + 1 <= r,
        ;
    } else if r < s {
        assert((r + 1) * (r + 1) <= s * s) by (nonlinear_arith)
            requires
                r + 1 <= s,
        ;
    }
}

/// `quot(n, d)` is `n / d` rounded toward zero: it has the sign of `n / d`, and
/// its size is the largest whole number that, times the size of `d`, does not
/// exceed the size of `n`.
pub proof fn lemma_quot_rounds(n: int, d: int)
    requires
        d != 0,
    ensures
        abs_int(quot(n, d)) * abs_int(d) <= abs_int(n) < (abs_int(quot(n, d)) + 1) * abs_int(d),
        (n < 0) == (d < 0) ==> quot(n, d) >= 0,
        (n < 0) != (d < 0) ==> quot(n, d) <= 0,
{
    reveal(quot);
    let (a, b) = (abs_int(n), abs_int(d));
    assert((a / b) * b <= a < (a / b + 1) * b && a / b >= 0) by (nonlinear_arith)
        requires
            a >= 0,
            b > 0,
    ;
}

/// Dividing a multiple of `d` by `d` gives the other factor back.
pub proof fn lemma_quot_multiple(a: int, d: int)
    requires
        d > 0,
    ensures
        quot(a * d, d) == a,
{
    reveal(quot);
    assert(abs_int(a * d) == abs_int(a) * d && ((a * d < 0) <==> (a < 0))) by (nonlinear_arith)
        requires
            d > 0,
    ;
    assert((abs_int(a) * d) / d == abs_int(a)) by (nonlinear_arith)
        requires
            d > 0,
    ;
}

/// A fixed-point number: `raw` counts units of `2^-32`.
#[derive(Clone, Copy, Debug, PartialEq, Eq, Structural)]
pub struct Scalar {
    pub raw: i64,
}

/// Clamps a wide integer to the range of a raw value.
pub fn clamp_wide(w: i128) -> (r: i64)
    ensures
        r as int == saturate(w as int),
{
    if w < i64::MIN as i128 {
        i64::MIN
    } else if w > i64::MAX as i128 {
        i64::MAX
    } else {
        w as i64
    }
}

/// The absolute value of a wide integer.
pub fn magnitude_wide(w: i128) -> (r: u128)
    requires
        w > i128::MIN,
    ensures
        r as int == abs_int(w as int),
{
    if w < 0 {
        (-w) as u128
    } else {
        w as u128
    }
}

/// Divides rounding toward zero.
pub fn quot_wide(n: i128, d: i128) -> (r: i128)
    requires
        d != 0,
        n > i128::MIN,
        d > i128::MIN,
    ensures
        r as int == quot(n as int, d as int),
{
    reveal(quot);
    let q: u128 = magnitude_wide(n) / magnitude_wide(d);
    assert(q <= abs_int(n as int)) by (nonlinear_arith)
        requires
            q == abs_int(n as int) / abs_int(d as int),
            abs_int(d as int) >= 1,
            abs_int(n as int) >= 0,
    ;
    if (n < 0) == (d < 0) {
        q as i128
    } else {
        -(q as i128)
    }
}

/// The integer square root of `n`, found by bisection.
pub fn int_sqrt(n: u128) -> (r: u64)
    ensures
        r as nat == isqrt(n as nat),
{
    let mut lo: u128 = 0;
    let mut hi: u128 = 0x1_0000_0000_0000_0000;
    assert(n < hi * hi) by (nonlinear_arith)
        requires
            hi == 0x1_0000_0000_0000_0000,
            n <= u128::MAX,
    ;
    while hi - lo > 1
        invariant
            lo < hi <= 0x1_0000_0000_0000_0000,
            lo * lo <= n,
            n < hi * hi,
        decreases hi - lo,
    {
        let mid: u128 = lo + (hi - lo) / 2;
        assert(mid * mid <= u128::MAX) by (nonlinear_arith)
            requires
                mid <= 0xffff_ffff_ffff_ffff,
        ;
        if mid * mid <= n {
            lo = mid;
        } else {
            hi = mid;
        }
    }
    proof {
        lemma_isqrt_unique(n as nat, lo as nat);
    }
    lo as u64
}

impl Scalar {
    /// The number whose raw value is `x`, clamped to the representable range.
    pub open spec fn of(x: int) -> Scalar {
        Scalar { raw: saturate(x) as i64 }
    }

    /// The sum, clamped.
    pub open spec fn sum(self, rhs: Scalar) -> Scalar {
        Scalar::of(self.raw + rhs.raw)
    }

    /// The difference, clamped.
    pub open spec fn difference(self, rhs: Scalar) -> Scalar {
        Scalar::of(self.raw - rhs.raw)
    }

    /// The negative, clamped: the lower end of the range turns into the upper.
    pub open spec fn negation(self) -> Scalar {
        Scalar::of(-self.raw)
    }

    /// The product, rounded toward zero and clamped.
    pub open spec fn product(self, rhs: Scalar) -> Scalar {
        Scalar::of(quot(self.raw * rhs.raw, ONE_RAW as int))
    }

    /// Division by zero gives the end of the range on the dividend's side, and
    /// zero for zero by zero.
    pub open spec fn ratio(self, rhs: Scalar) -> Scalar {
        if rhs.raw != 0 {
            Scalar::of(quot(self.raw * ONE_RAW, rhs.raw as int))
        } else if self.raw > 0 {
            Scalar { raw: i64::MAX }
        } else if self.raw < 0 {
            Scalar { raw: i64::MIN }
        } else {
            Scalar { raw: 0 }
        }
    }

    /// The square root rounded down; zero for what is not positive.
    pub open spec fn root(self) -> Scalar {
        if self.raw <= 0 {
            Scalar { raw: 0 }
        } else {
            Scalar::of(isqrt((self.raw * ONE_RAW) as nat) as int)
        }
    }

    /// `self` multiplied `n` times into one, rounding after each step.
    pub open spec fn power(self, n: nat) -> Scalar
        decreases n,
    {
        if n == 0 {
            Scalar { raw: ONE_RAW }
        } else {
            self.power((n - 1) as nat).product(self)
        }
    }

    /// The smaller of the two.
    pub open spec fn lesser(self, rhs: Scalar) -> Scalar {
        if rhs.raw < self.raw {
            rhs
        } else {
            self
        }
    }

    /// The larger of the two.
    pub open spec fn greater(self, rhs: Scalar) -> Scalar {
        if rhs.raw > self.raw {
            rhs
        } else {
            self
        }
    }

    pub fn zero() -> (r: Scalar)
        ensures
            r.raw == 0,
    {
        Scalar { raw: 0 }
    }

    pub fn one() -> (r: Scalar)
        ensures
            r.raw == ONE_RAW,
    {
        Scalar { raw: ONE_RAW }
    }

    /// The upper end of the range, which stands for "infinitely far".
    pub fn infinity() -> (r: Scalar)
        ensures
            r.raw == i64::MAX,
    {
        Scalar { raw: i64::MAX }
    }

    /// The circle constant, rounded down.
    pub fn pi() -> (r: Scalar)
        ensures
            r.raw == PI_RAW,
    {
        Scalar { raw: PI_RAW }
    }

    /// The whole number `n`.
    pub fn from_int(n: i64) -> (r: Scalar)
        ensures
            r == Scalar::of(n * ONE_RAW),
    {
        let w: i128 = (n as i128) * 4294967296;
        Scalar { raw: clamp_wide(w) }
    }

    /// The fraction `num / den`, rounded toward zero.
    pub fn from_ratio(num: i64, den: i64) -> (r: Scalar)
        ensures
            r == (Scalar { raw: num }).ratio(Scalar { raw: den }),
    {
        (Scalar { raw: num }).div(Scalar { raw: den })
    }

    pub fn add(self, rhs: Scalar) -> (r: Scalar)
        ensures
            r == self.sum(rhs),
    {
        let w: i128 = self.raw as i128 + rhs.raw as i128;
        Scalar { raw: clamp_wide(w) }
    }

    pub fn sub(self, rhs: Scalar) -> (r: Scalar)
        ensures
            r == self.difference(rhs),
    {
        let w: i128 = self.raw as i128 - rhs.raw as i128;
        Scalar { raw: clamp_wide(w) }
    }

    pub fn neg(self) -> (r: Scalar)
        ensures
            r == self.negation(),
    {
        let w: i128 = -(self.raw as i128);
        Scalar { raw: clamp_wide(w) }
    }

    pub fn mul(self, rhs: Scalar) -> (r: Scalar)
        ensures
            r == self.product(rhs),
    {
        assert(-0x4000_0000_0000_0000_0000_0000_0000_0000 <= self.raw * rhs.raw
            <= 0x4000_0000_0000_0000_0000_0000_0000_0000) by (nonlinear_arith)
            requires
                -0x8000_0000_0000_0000 <= self.raw <= 0x7fff_ffff_ffff_ffff,
                -0x8000_0000_0000_0000 <= rhs.raw <= 0x7fff_ffff_ffff_ffff,
        ;
        let w: i128 = (self.raw as i128) * (rhs.raw as i128);
        Scalar { raw: clamp_wide(quot_wide(w, ONE_RAW as i128)) }
    }

    pub fn div(self, rhs: Scalar) -> (r: Scalar)
        ensures
            r == self.ratio(rhs),
    {
        if rhs.raw != 0 {
            let w: i128 = (self.raw as i128) * 4294967296;
            Scalar { raw: clamp_wide(quot_wide(w, rhs.raw as i128)) }
        } else if self.raw > 0 {
            Scalar { raw: i64::MAX }
        } else if self.raw < 0 {
            Scalar { raw: i64::MIN }
        } else {
            Scalar { raw: 0 }
        }
    }

    pub fn sqrt(self) -> (r: Scalar)
        ensures
            r == self.root(),
    {
        if self.raw <= 0 {
            Scalar { raw: 0 }
        } else {
            let w: u128 = (self.raw as u128) * 4294967296;
            let s: u64 = int_sqrt(w);
            Scalar { raw: clamp_wide(s as i128) }
        }
    }

    /// `self` to the power `n`, by `n` multiplications.
    pub fn powi(self, n: u16) -> (r: Scalar)
        ensures
            r == self.power(n as nat),
    {
        let mut acc: Scalar = Scalar { raw: ONE_RAW };
        let mut i: u16 = 0;
        while i < n
            invariant
                i <= n,
                acc == self.power(i as nat),
            decreases n - i,
        {
            acc = acc.mul(self);
            i = i + 1;
        }
        acc
    }

    pub fn min(self, rhs: Scalar) -> (r: Scalar)
        ensures
            r == self.lesser(rhs),
    {
        if rhs.raw < self.raw {
            rhs
        } else {
            self
        }
    }

    pub fn max(self, rhs: Scalar) -> (r: Scalar)
        ensures
            r == self.greater(rhs),
    {
        if rhs.raw > self.raw {
            rhs
        } else {
            self
        }
    }
}

impl Scalar {
    /// A product that is not clamped is the exact product rounded toward
    /// zero: it misses the exact product by less than one unit.
    pub proof fn lemma_product_rounds(self, rhs: Scalar)
        requires
            i64::MIN < self.product(rhs).raw < i64::MAX,
        ensures
            abs_int(self.product(rhs).raw as int) * ONE_RAW <= abs_int(self.raw * rhs.raw) < (abs_int(
                self.product(rhs).raw as int,
            ) + 1) * ONE_RAW,
            self.raw * rhs.raw >= 0 ==> self.product(rhs).raw >= 0,
            self.raw * rhs.raw <= 0 ==> self.product(rhs).raw <= 0,
    {
        lemma_quot_rounds(self.raw * rhs.raw, ONE_RAW as int);
    }

    /// A quotient that is not clamped is the exact quotient rounded toward
    /// zero: times the divisor, it misses the dividend by less than one
    /// divisor.
    pub proof fn lemma_ratio_rounds(self, rhs: Scalar)
        requires
            rhs.raw != 0,
            i64::MIN < self.ratio(rhs).raw < i64::MAX,
        ensures
            abs_int(self.ratio(rhs).raw as int) * abs_int(rhs.raw as int) <= abs_int(self.raw as int)
                * ONE_RAW < (abs_int(self.ratio(rhs).raw as int) + 1) * abs_int(rhs.raw as int),
            (self.raw < 0) == (rhs.raw < 0) ==> self.ratio(rhs).raw >= 0,
            (self.raw < 0) != (rhs.raw < 0) ==> self.ratio(rhs).raw <= 0,
    {
        lemma_quot_rounds(self.raw * ONE_RAW, rhs.raw as int);
        assert(abs_int(self.raw * ONE_RAW) == abs_int(self.raw as int) * ONE_RAW && ((self.raw
            * ONE_RAW < 0) <==> (self.raw < 0))) by (nonlinear_arith);
    }

    /// The root of a positive number is the exact root rounded down, and is
    /// never clamped.
    pub proof fn lemma_root_rounds(self)
        requires
            self.raw > 0,
        ensures
            0 <= self.root().raw,
            self.root().raw * self.root().raw <= self.raw * ONE_RAW < (self.root().raw + 1) * (
            self.root().raw + 1),
    {
        let n = (self.raw * ONE_RAW) as nat;
        let r = isqrt(n) as int;
        lemma_isqrt_bounds(n);
        assert(r < 0x1_0000_0000_0000) by (nonlinear_arith)
            requires
                r * r <= n,
                n < 0x1_0000_0000_0000_0000_0000_0000,
                r >= 0,
        ;
    }

    /// Multiplying by one changes nothing, multiplying by minus one negates,
    /// multiplying by zero gives zero, and multiplying by two doubles.
    pub proof fn lemma_product_simple(self)
        ensures
            self.product(Scalar { raw: ONE_RAW }) == self,
            (Scalar { raw: ONE_RAW }).product(self) == self,
            self.product(Scalar::of(-ONE_RAW)) == self.negation(),
            (Scalar::of(-ONE_RAW)).product(self) == self.negation(),
            self.product(Scalar { raw: 0 }) == (Scalar { raw: 0 }),
            (Scalar { raw: 0 }).product(self) == (Scalar { raw: 0 }),
            self.product(Scalar::of(2 * ONE_RAW)) == Scalar::of(2 * self.raw),
    {
        let a = self.raw as int;
        let one = ONE_RAW as int;
        lemma_quot_multiple(a, one);
        lemma_quot_multiple(-a, one);
        lemma_quot_multiple(2 * a, one);
        lemma_quot_multiple(0, one);
        assert(a * one == one * a && a * (-one) == (-a) * one && (-one) * a == (-a) * one && a * 0
            == 0 * one && 0 * a == 0 * one && a * (2 * one) == (2 * a) * one) by (nonlinear_arith);
    }
}

} // verus!
