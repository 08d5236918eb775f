//! Fixed-point numbers and plane vectors.
//!
//! Every quantity of the simulation (lengths, speeds, scale factors, angles,
//! seconds) is a [`Scalar`]: a signed count of millionths. The arithmetic is
//! total: a quotient is truncated toward zero and a result that leaves the
//! 64-bit range stops at the nearest bound.

use vstd::prelude::*;

verus! {

/// The raw count that stands for the number one.
pub const ONE: i64 = 1_000_000;

/// The raw count that stands for one half.
pub const HALF: i64 = 500_000;

/// The raw count nearest to pi.
pub const PI: i64 = 3_141_593;

/// `x` brought into the range of a 64-bit signed integer.
pub open spec fn saturate(x: int) -> int {
    if x < i64::MIN {
        i64::MIN as int
    } else if x > i64::MAX {
        i64::MAX as int
    } else {
        x
    }
}

/// `n / d` with the fraction dropped (rounding toward zero), for `d > 0`.
pub open spec fn truncated_quotient(n: int, d: int) -> int {
    if n >= 0 {
        n / d
    } else {
        -((-n) / d)
    }
}

/// `x` limited to `[lo, hi]`; meant for `lo <= hi`.
pub open spec fn clamped(x: int, lo: int, hi: int) -> int {
    if x < lo {
        lo
    } else if x > hi {
        hi
    } else {
        x
    }
}

/// The raw fixed-point product of the raw values `a` and `b`.
pub open spec fn product(a: int, b: int) -> int {
    saturate(truncated_quotient(a * b, ONE as int))
}

/// The whole number of units nearest to the raw value `x`; a tie goes away
/// from zero.
pub open spec fn nearest_whole(x: int) -> int {
    if x >= 0 {
        (x + HALF) / (ONE as int)
    } else {
        -((-x + HALF) / (ONE as int))
    }
}

/// The magnitude of `x`.
pub open spec fn magnitude(x: int) -> int {
    if x < 0 {
        -x
    } else {
        x
    }
}

/// A fixed-point number with six decimal places.
#[derive(Clone, Copy, Debug, PartialEq, Eq, Structural)]
pub struct Scalar {
    pub raw: i64,
}

impl View for Scalar {
    type V = int;

    /// The raw count of millionths.
    open spec fn view(&self) -> int {
        self.raw as int
    }
}

/// Narrows a wide intermediate result to 64 bits, stopping at the bounds.
pub fn narrow(x: i128) -> (r: i64)
    ensures
        r == saturate(x as int),
{
    if x < i64::MIN as i128 {
        i64::MIN
    } else if x > i64::MAX as i128 {
        i64::MAX
    } else {
        x as i64
    }
}

impl Scalar {
    /// The number whose raw count of millionths is `raw`.
    pub fn from_raw(raw: i64) -> (r: Scalar)
        ensures
            r@ == raw,
    {
        Scalar { raw }
    }

    /// The whole number `units`.
    pub fn from_int(units: i32) -> (r: Scalar)
        ensures
            r@ == units * ONE,
    {
        Scalar { raw: (units as i64) * ONE }
    }

    /// The raw count of millionths.
    pub fn raw(self) -> (r: i64)
        ensures
            r == self@,
    {
        self.raw
    }

    /// Zero.
    pub fn zero() -> (r: Scalar)
        ensures
            r@ == 0,
    {
        Scalar { raw: 0 }
    }

    /// The sum, stopped at the bounds of the range.
    pub fn sat_add(self, other: Scalar) -> (r: Scalar)
        ensures
            r@ == saturate(self@ + other@),
    {
        let wide: i128 = self.raw as i128 + other.raw as i128;
        Scalar { raw: narrow(wide) }
    }

    /// The product, truncated toward zero and stopped at the bounds of the
    /// range.
    pub fn sat_mul(self, other: Scalar) -> (r: Scalar)
        ensures
            r@ == product(self@, other@),
    {
        let wide: i128 = wide_product(self.raw, other.raw);
        Scalar { raw: narrow(wide / (ONE as i128)) }
    }

    /// The quotient by a positive whole number, truncated toward zero.
    pub fn div_int(self, divisor: u32) -> (r: Scalar)
        requires
            divisor > 0,
        ensures
            r@ == truncated_quotient(self@, divisor as int),
    {
        let q: i64 = self.raw / (divisor as i64);
        proof {
            lemma_truncated_quotient_bounds(self@, divisor as int);
        }
        Scalar { raw: q }
    }

    /// The nearest whole number, a tie going away from zero.
    pub fn round(self) -> (r: Scalar)
        ensures
            r@ == saturate(nearest_whole(self@) * ONE),
    {
        let shifted: i128 = if self.raw >= 0 {
            self.raw as i128 + HALF as i128
        } else {
            self.raw as i128 - HALF as i128
        };
        let whole: i128 = shifted / (ONE as i128);
        Scalar { raw: narrow(whole * (ONE as i128)) }
    }

    /// The magnitude, stopped at the upper bound of the range.
    pub fn abs(self) -> (r: Scalar)
        ensures
            r@ == saturate(magnitude(self@)),
    {
        if self.raw < 0 {
            Scalar { raw: narrow(-(self.raw as i128)) }
        } else {
            self
        }
    }

    /// The larger of the two values.
    pub fn max(self, other: Scalar) -> (r: Scalar)
        ensures
            r@ == (if self@ >= other@ { self@ } else { other@ }),
    {
        if self.raw >= other.raw {
            self
        } else {
            other
        }
    }
}

/// The exact product of two 64-bit values.
pub fn wide_product(a: i64, b: i64) -> (r: i128)
    ensures
        r == a * b,
{
    proof {
        lemma_product_fits(a as int, b as int);
    }
    (a as i128) * (b as i128)
}

/// The product of two 64-bit values has a magnitude of at most 2^126.
pub proof fn lemma_product_fits(a: int, b: int)
    requires
        i64::MIN <= a <= i64::MAX,
        i64::MIN <= b <= i64::MAX,
    ensures
        -0x4000_0000_0000_0000_0000_0000_0000_0000 <= a * b
            <= 0x4000_0000_0000_0000_0000_0000_0000_0000,
{
    assert(-0x4000_0000_0000_0000_0000_0000_0000_0000 <= a * b
        <= 0x4000_0000_0000_0000_0000_0000_0000_0000) by (nonlinear_arith)
        requires
            -0x8000_0000_0000_0000 <= a <= 0x8000_0000_0000_0000,
            -0x8000_0000_0000_0000 <= b <= 0x8000_0000_0000_0000,
    ;
}

/// A truncated quotient by a positive divisor is no larger in magnitude than
/// the dividend and has its sign.
pub proof fn lemma_truncated_quotient_bounds(n: int, d: int)
    requires
        d > 0,
    ensures
        n >= 0 ==> 0 <= truncated_quotient(n, d) <= n,
        n <= 0 ==> n <= truncated_quotient(n, d) <= 0,
{
    if n >= 0 {
        assert(0 <= n / d <= n) by (nonlinear_arith)
            requires
                n >= 0,
                d > 0,
        ;
    } else {
        let m = -n;
        assert(0 <= m / d <= m) by (nonlinear_arith)
            requires
                m >= 0,
                d > 0,
        ;
    }
}

/// A point or a direction of the plane.
#[derive(Clone, Copy, Debug, PartialEq, Eq, Structural)]
pub struct Vector {
    pub x: Scalar,
    pub y: Scalar,
}

impl Vector {
    /// The vector with the given components.
    pub fn new(x: Scalar, y: Scalar) -> (r: Vector)
        ensures
            r.x == x,
            r.y == y,
    {
        Vector { x, y }
    }

    /// The zero vector.
    pub fn zero() -> (r: Vector)
        ensures
            r.x@ == 0,
            r.y@ == 0,
    {
        Vector { x: Scalar { raw: 0 }, y: Scalar { raw: 0 } }
    }
}

/// Where an entity is drawn and how far it is stretched along each axis.
#[derive(Clone, Copy, Debug, PartialEq, Eq, Structural)]
pub struct Transform {
    pub translation: Vector,
    pub scale: Vector,
}

impl Transform {
    /// The unstretched transform at `translation`.
    pub fn from_translation(translation: Vector) -> (r: Transform)
        ensures
            r.translation == translation,
            r.scale.x@ == ONE,
            r.scale.y@ == ONE,
    {
        Transform { translation, scale: Vector { x: Scalar { raw: ONE }, y: Scalar { raw: ONE } } }
    }
}

} // verus!
