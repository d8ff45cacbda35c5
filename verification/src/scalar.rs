//! Fixed-point numbers with six decimal places.
//!
//! Every place, direction, distance and angle of the renderer is a
//! [`Scalar`]: a signed count of millionths held in an `i32`, which reaches
//! from about -2147.48 to 2147.48. Arithmetic saturates
//! at the ends of that range and rounds to the nearest millionth, so every
//! operation is total. Differences and products of such numbers fit in wider
//! integers with room to spare, which is what lets the geometric tests
//! elsewhere work without rounding.

use vstd::prelude::*;

verus! {

/// How many raw units make up one.
pub const SCALE: i32 = 1_000_000;

/// The quotient `n / d` rounded to the nearest integer, halves away from zero.
pub open spec fn round_div(n: int, d: int) -> int
    recommends
        d > 0,
{
    if n >= 0 {
        (n + d / 2) / d
    } else {
        -((-n + d / 2) / d)
    }
}

/// `round_div` extended to divisors of either sign.
pub open spec fn round_quotient(n: int, d: int) -> int
    recommends
        d != 0,
{
    if d > 0 {
        round_div(n, d)
    } else {
        round_div(-n, -d)
    }
}

/// The nearest raw value that an `i32` can hold.
pub open spec fn clamp(v: int) -> int {
    if v < i32::MIN {
        i32::MIN as int
    } else if v > i32::MAX {
        i32::MAX as int
    } else {
        v
    }
}

/// `r` is the integer square root of `n`.
pub open spec fn is_isqrt(n: int, r: int) -> bool {
    &&& r >= 0
    &&& r * r <= n
    &&& n < (r + 1) * (r + 1)
}

/// The integer square root of a non-negative `n`: the largest `r` with `r * r <= n`.
pub open spec fn isqrt(n: int) -> int {
    choose|r: int| is_isqrt(n, r)
}

/// At most one number is the integer square root of `n`.
pub proof fn lemma_isqrt_unique(n: int, r1: int, r2: int)
    requires
        is_isqrt(n, r1),
        is_isqrt(n, r2),
    ensures
        r1 == r2,
{
    if r1 < r2 {
        assert((r1 + 1) * (r1 + 1) <= r2 * r2) by (nonlinear_arith)
            requires
                0 <= r1 + 1 <= r2,
        ;
    } else if r2 < r1 {
        assert((r2 + 1) * (r2 + 1) <= r1 * r1) by (nonlinear_arith)
            requires
                0 <= r2 + 1 <= r1,
        ;
    }
}

/// Whoever is the integer square root of `n` is `isqrt(n)`.
pub proof fn lemma_isqrt_is(n: int, r: int)
    requires
        is_isqrt(n, r),
    ensures
        isqrt(n) == r,
{
    lemma_isqrt_unique(n, r, isqrt(n));
}

/// The integer square root of a non-negative number exists.
pub proof fn lemma_isqrt_exists(n: int)
    requires
        n >= 0,
    ensures
        is_isqrt(n, isqrt(n)),
    decreases n,
{
    if n == 0 {
        assert(is_isqrt(0, 0));
    } else {
        lemma_isqrt_exists(n - 1);
        let r = isqrt(n - 1);
        if (r + 1) * (r + 1) <= n {
            assert((r + 2) * (r + 2) > n) by (nonlinear_arith)
                requires
                    n - 1 < (r + 1) * (r + 1),
                    r >= 0,
            ;
            assert(is_isqrt(n, r + 1));
        } else {
            assert(is_isqrt(n, r));
        }
    }
}

/// A number whose square is at most `n` is at most the integer square root of `n`.
pub proof fn lemma_isqrt_bounds_roots(n: int, a: int)
    requires
        a >= 0,
        a * a <= n,
    ensures
        a <= isqrt(n),
{
    lemma_isqrt_exists(n);
    let r = isqrt(n);
    if a > r {
        assert((r + 1) * (r + 1) <= a * a) by (nonlinear_arith)
            requires
                0 <= r + 1 <= a,
        ;
    }
}

/// Computes the integer square root by bisection.
pub fn isqrt_u128(n: u128) -> (r: u64)
    ensures
        is_isqrt(n as int, r as int),
        r as int == isqrt(n as int),
{
    let mut lo: u128 = 0;
    let mut hi: u128 = 0x1_0000_0000_0000_0000;
    assert(n < hi * hi) by (nonlinear_arith)
        requires
            hi == 0x1_0000_0000_0000_0000,
            n <= u128::MAX,
    ;
    while hi - lo > 1
        invariant
            lo < hi <= 0x1_0000_0000_0000_0000,
            lo * lo <= n < hi * hi,
        decreases hi - lo,
    {
        let mid: u128 = lo + (hi - lo) / 2;
        assert(mid * mid <= u128::MAX) by (nonlinear_arith)
            requires
                0 <= mid < 0x1_0000_0000_0000_0000,
        ;
        if mid * mid <= n {
            lo = mid;
        } else {
            hi = mid;
        }
    }
    proof {
        assert(hi == lo + 1);
        lemma_isqrt_is(n as int, lo as int);
    }
    lo as u64
}

/// Divides a non-negative `n` by a positive `d`, rounding to nearest.
pub fn round_div_u128(n: u128, d: u128) -> (q: u128)
    requires
        d > 0,
        n + d / 2 <= u128::MAX,
    ensures
        q as int == round_div(n as int, d as int),
{
    (n + d / 2) / d
}

/// Divides `n` by a positive `d`, rounding to nearest, halves away from zero.
pub fn round_div_i128(n: i128, d: i128) -> (q: i128)
    requires
        d > 0,
        -0x4000_0000_0000_0000_0000_0000_0000_0000 <= n <= 0x4000_0000_0000_0000_0000_0000_0000_0000,
        d <= 0x4000_0000_0000_0000_0000_0000_0000_0000,
    ensures
        q as int == round_div(n as int, d as int),
        n >= 0 ==> 0 <= q <= n,
        n <= 0 ==> n <= q <= 0,
{
    if n >= 0 {
        let q: i128 = (n + d / 2) / d;
        proof {
            lemma_round_div_bounds(n as int, d as int);
        }
        q
    } else {
        let m: i128 = -n;
        let q: i128 = (m + d / 2) / d;
        proof {
            lemma_round_div_bounds(m as int, d as int);
        }
        -q
    }
}

/// A rounded quotient of a non-negative number lies between zero and that number.
pub proof fn lemma_round_div_bounds(n: int, d: int)
    requires
        n >= 0,
        d > 0,
    ensures
        0 <= round_div(n, d) <= n,
        0 <= (n + d / 2) / d <= n,
{
    let h = d / 2;
    let q = (n + h) / d;
    assert(q >= 0 && q * d <= n + h && n + h < (q + 1) * d) by (nonlinear_arith)
        requires
            q == (n + h) / d,
            d > 0,
            n + h >= 0,
    ;
    if q > n {
        assert(q * d >= (n + 1) * d) by (nonlinear_arith)
            requires
                q >= n + 1,
                d > 0,
        ;
        assert((n + 1) * d == n * d + d) by (nonlinear_arith);
        assert(n * d >= n) by (nonlinear_arith)
            requires
                n >= 0,
                d >= 1,
        ;
        assert(2 * h <= d);
        assert(false);
    }
}

/// A number between two multiples of `s` rounds to a quotient between the factors.
pub proof fn lemma_round_div_between_multiples(n: int, s: int, lo: int, hi: int)
    requires
        s > 0,
        lo * s <= n <= hi * s,
    ensures
        lo <= round_div(n, s) <= hi,
{
    let h = s / 2;
    if n >= 0 {
        let q = (n + h) / s;
        assert(q * s <= n + h < (q + 1) * s) by (nonlinear_arith)
            requires
                q == (n + h) / s,
                s > 0,
        ;
        assert(lo <= q) by (nonlinear_arith)
            requires
                lo * s <= n,
                n + h < (q + 1) * s,
                h >= 0,
                s > 0,
        ;
        assert(q <= hi) by (nonlinear_arith)
            requires
                q * s <= n + h,
                n <= hi * s,
                0 <= 2 * h <= s,
                s > 0,
        ;
    } else {
        let m = -n;
        let q = (m + h) / s;
        assert(q * s <= m + h < (q + 1) * s) by (nonlinear_arith)
            requires
                q == (m + h) / s,
                s > 0,
        ;
        assert(-q <= hi) by (nonlinear_arith)
            requires
                -m <= hi * s,
                m + h < (q + 1) * s,
                h >= 0,
                s > 0,
        ;
        assert(lo <= -q) by (nonlinear_arith)
            requires
                q * s <= m + h,
                lo * s <= -m,
                0 <= 2 * h <= s,
                s > 0,
        ;
    }
}

/// Brings a wide raw value into the range of an `i32`.
pub fn clamp_i128(v: i128) -> (r: i32)
    ensures
        r as int == clamp(v as int),
{
    if v < -2147483648 {
        -2147483648
    } else if v > 2147483647 {
        2147483647
    } else {
        v as i32
    }
}

/// A fixed-point number: `raw` millionths.
#[derive(Clone, Copy, Debug, PartialEq, Eq, Structural)]
pub struct Scalar {
    pub raw: i32,
}

impl View for Scalar {
    type V = int;

    open spec fn view(&self) -> int {
        self.raw as int
    }
}

impl Scalar {
    /// The scalar whose count of millionths is `clamp(v)`.
    pub open spec fn of(v: int) -> Scalar {
        Scalar { raw: clamp(v) as i32 }
    }

    pub open spec fn spec_add(self, rhs: Scalar) -> Scalar {
        Scalar::of(self@ + rhs@)
    }

    pub open spec fn spec_sub(self, rhs: Scalar) -> Scalar {
        Scalar::of(self@ - rhs@)
    }

    pub open spec fn spec_neg(self) -> Scalar {
        Scalar::of(-self@)
    }

    pub open spec fn spec_abs(self) -> Scalar {
        Scalar::of(if self@ < 0 { -self@ } else { self@ })
    }

    pub open spec fn spec_mul(self, rhs: Scalar) -> Scalar {
        Scalar::of(round_div(self@ * rhs@, SCALE as int))
    }

    /// Division saturates on a zero divisor: towards the sign of the dividend,
    /// and to zero when both are zero.
    pub open spec fn spec_div(self, rhs: Scalar) -> Scalar {
        if rhs@ == 0 {
            if self@ > 0 {
                Scalar::of(i32::MAX as int)
            } else if self@ < 0 {
                Scalar::of(i32::MIN as int)
            } else {
                Scalar::of(0)
            }
        } else {
            Scalar::of(round_quotient(self@ * SCALE, rhs@))
        }
    }

    /// The square root, rounded down to a millionth; zero for negative numbers.
    pub open spec fn spec_sqrt(self) -> Scalar {
        if self@ <= 0 {
            Scalar::of(0)
        } else {
            Scalar::of(isqrt(self@ * SCALE))
        }
    }

    pub open spec fn spec_min(self, rhs: Scalar) -> Scalar {
        if self@ <= rhs@ {
            self
        } else {
            rhs
        }
    }

    pub open spec fn spec_max(self, rhs: Scalar) -> Scalar {
        if self@ >= rhs@ {
            self
        } else {
            rhs
        }
    }

    pub fn from_raw(raw: i32) -> (s: Scalar)
        ensures
            s@ == raw,
    {
        Scalar { raw }
    }

    /// The whole number `units`, saturated.
    pub fn from_int(units: i32) -> (s: Scalar)
        ensures
            s == Scalar::of(units * SCALE),
    {
        let wide: i64 = units as i64 * 1_000_000;
        Scalar { raw: clamp_i128(wide as i128) }
    }

    /// `numerator / denominator`, rounded to the nearest millionth.
    pub fn from_ratio(numerator: i32, denominator: i32) -> (s: Scalar)
        ensures
            s == Scalar::from_int_spec(numerator).spec_div(Scalar::from_int_spec(denominator)),
    {
        Scalar::from_int(numerator).div(Scalar::from_int(denominator))
    }

    pub open spec fn from_int_spec(units: i32) -> Scalar {
        Scalar::of(units * SCALE)
    }

    pub fn zero() -> (s: Scalar)
        ensures
            s@ == 0,
    {
        Scalar { raw: 0 }
    }

    pub fn one() -> (s: Scalar)
        ensures
            s@ == SCALE,
    {
        Scalar { raw: SCALE }
    }

    /// The smallest positive scalar: one millionth.
    pub fn epsilon() -> (s: Scalar)
        ensures
            s@ == 1,
    {
        Scalar { raw: 1 }
    }

    /// The largest scalar; it stands in for infinity.
    pub fn max_value() -> (s: Scalar)
        ensures
            s@ == i32::MAX,
    {
        Scalar { raw: 2147483647 }
    }

    pub fn raw(&self) -> (r: i32)
        ensures
            r == self@,
    {
        self.raw
    }

    pub fn add(self, rhs: Scalar) -> (r: Scalar)
        ensures
            r == self.spec_add(rhs),
    {
        Scalar { raw: clamp_i128(self.raw as i128 + rhs.raw as i128) }
    }

    pub fn sub(self, rhs: Scalar) -> (r: Scalar)
        ensures
            r == self.spec_sub(rhs),
    {
        Scalar { raw: clamp_i128(self.raw as i128 - rhs.raw as i128) }
    }

    pub fn neg(self) -> (r: Scalar)
        ensures
            r == self.spec_neg(),
    {
        Scalar { raw: clamp_i128(-(self.raw as i128)) }
    }

    pub fn abs(self) -> (r: Scalar)
        ensures
            r == self.spec_abs(),
            r@ >= 0,
    {
        if self.raw < 0 {
            Scalar { raw: clamp_i128(-(self.raw as i128)) }
        } else {
            Scalar { raw: clamp_i128(self.raw as i128) }
        }
    }

    pub fn mul(self, rhs: Scalar) -> (r: Scalar)
        ensures
            r == self.spec_mul(rhs),
    {
        let a: i128 = self.raw as i128;
        let b: i128 = rhs.raw as i128;
        assert(-0x4000_0000_0000_0000 <= a * b <= 0x4000_0000_0000_0000) by (nonlinear_arith)
            requires
                -0x8000_0000 <= a <= 0x8000_0000,
                -0x8000_0000 <= b <= 0x8000_0000,
        ;
        Scalar { raw: clamp_i128(round_div_i128(a * b, SCALE as i128)) }
    }

    pub fn div(self, rhs: Scalar) -> (r: Scalar)
        ensures
            r == self.spec_div(rhs),
    {
        if rhs.raw == 0 {
            if self.raw > 0 {
                Scalar { raw: 2147483647 }
            } else if self.raw < 0 {
                Scalar { raw: -2147483648 }
            } else {
                Scalar { raw: 0 }
            }
        } else {
            let n: i128 = self.raw as i128 * 1_000_000;
            let d: i128 = rhs.raw as i128;
            if d > 0 {
                Scalar { raw: clamp_i128(round_div_i128(n, d)) }
            } else {
                Scalar { raw: clamp_i128(round_div_i128(-n, -d)) }
            }
        }
    }

    pub fn sqrt(self) -> (r: Scalar)
        ensures
            r == self.spec_sqrt(),
            r@ >= 0,
    {
        if self.raw <= 0 {
            Scalar { raw: 0 }
        } else {
            let n: u128 = self.raw as u128 * 1_000_000;
            let root: u64 = isqrt_u128(n);
            Scalar { raw: clamp_i128(root as i128) }
        }
    }

    pub fn min(self, rhs: Scalar) -> (r: Scalar)
        ensures
            r == self.spec_min(rhs),
    {
        if self.raw <= rhs.raw {
            self
        } else {
            rhs
        }
    }

    pub fn max(self, rhs: Scalar) -> (r: Scalar)
        ensures
            r == self.spec_max(rhs),
    {
        if self.raw >= rhs.raw {
            self
        } else {
            rhs
        }
    }

    pub fn lt(self, rhs: Scalar) -> (b: bool)
        ensures
            b == (self@ < rhs@),
    {
        self.raw < rhs.raw
    }

    pub fn le(self, rhs: Scalar) -> (b: bool)
        ensures
            b == (self@ <= rhs@),
    {
        self.raw <= rhs.raw
    }

    pub fn gt(self, rhs: Scalar) -> (b: bool)
        ensures
            b == (self@ > rhs@),
    {
        self.raw > rhs.raw
    }

    pub fn ge(self, rhs: Scalar) -> (b: bool)
        ensures
            b == (self@ >= rhs@),
    {
        self.raw >= rhs.raw
    }
}

} // verus!
