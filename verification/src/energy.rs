//! The energy of light.
//!
//! Light spans more orders of magnitude than the places of a scene do, so
//! its energy is held in fixed-point numbers of its own kind: millionths
//! again, but in an `i64`. Arithmetic saturates and rounds as that of
//! [`Scalar`](crate::scalar::Scalar) does.

use vstd::prelude::*;
use crate::scalar::{lemma_round_div_bounds, round_div, round_div_i128, round_quotient, Scalar, SCALE};

verus! {

/// The nearest raw value that an `i64` can hold.
pub open spec fn clamp_wide(v: int) -> int {
    if v < i64::MIN {
        i64::MIN as int
    } else if v > i64::MAX {
        i64::MAX as int
    } else {
        v
    }
}

/// Brings a wide raw value into the range of an `i64`.
pub fn clamp_to_i64(v: i128) -> (r: i64)
    ensures
        r as int == clamp_wide(v as int),
{
    if v < -9223372036854775808 {
        -9223372036854775808
    } else if v > 9223372036854775807 {
        9223372036854775807
    } else {
        v as i64
    }
}

/// An amount of energy: `raw` millionths.
#[derive(Clone, Copy, Debug, PartialEq, Eq, Structural)]
pub struct Energy {
    pub raw: i64,
}

impl View for Energy {
    type V = int;

    open spec fn view(&self) -> int {
        self.raw as int
    }
}

impl Energy {
    /// The energy whose count of millionths is `clamp_wide(v)`.
    pub open spec fn of(v: int) -> Energy {
        Energy { raw: clamp_wide(v) as i64 }
    }

    pub open spec fn spec_add(self, rhs: Energy) -> Energy {
        Energy::of(self@ + rhs@)
    }

    pub open spec fn spec_mul(self, rhs: Energy) -> Energy {
        Energy::of(round_div(self@ * rhs@, SCALE as int))
    }

    /// The energy times a factor.
    pub open spec fn spec_scale(self, rhs: Scalar) -> Energy {
        Energy::of(round_div(self@ * rhs@, SCALE as int))
    }

    /// The energy divided by a number. Division saturates on a zero divisor:
    /// towards the sign of the dividend, and to zero when both are zero.
    pub open spec fn spec_div(self, rhs: Scalar) -> Energy {
        if rhs@ == 0 {
            if self@ > 0 {
                Energy::of(i64::MAX as int)
            } else if self@ < 0 {
                Energy::of(i64::MIN as int)
            } else {
                Energy::of(0)
            }
        } else {
            Energy::of(round_quotient(self@ * SCALE, rhs@))
        }
    }

    pub fn from_raw(raw: i64) -> (e: Energy)
        ensures
            e@ == raw,
    {
        Energy { raw }
    }

    /// The same number as an energy.
    pub fn from_scalar(s: Scalar) -> (e: Energy)
        ensures
            e@ == s@,
    {
        Energy { raw: s.raw as i64 }
    }

    pub fn zero() -> (e: Energy)
        ensures
            e@ == 0,
    {
        Energy { raw: 0 }
    }

    pub fn one() -> (e: Energy)
        ensures
            e@ == SCALE,
    {
        Energy { raw: 1_000_000 }
    }

    /// The smallest positive energy: one millionth.
    pub fn epsilon() -> (e: Energy)
        ensures
            e@ == 1,
    {
        Energy { raw: 1 }
    }

    pub fn raw(&self) -> (r: i64)
        ensures
            r == self@,
    {
        self.raw
    }

    pub fn add(self, rhs: Energy) -> (r: Energy)
        ensures
            r == self.spec_add(rhs),
    {
        Energy { raw: clamp_to_i64(self.raw as i128 + rhs.raw as i128) }
    }

    pub fn mul(self, rhs: Energy) -> (r: Energy)
        ensures
            r == self.spec_mul(rhs),
    {
        let a: i128 = self.raw as i128;
        let b: i128 = rhs.raw as i128;
        assert(-0x4000_0000_0000_0000_0000_0000_0000_0000 <= a * b
            <= 0x4000_0000_0000_0000_0000_0000_0000_0000) by (nonlinear_arith)
            requires
                -0x8000_0000_0000_0000 <= a <= 0x8000_0000_0000_0000,
                -0x8000_0000_0000_0000 <= b <= 0x8000_0000_0000_0000,
        ;
        Energy { raw: clamp_to_i64(round_div_i128(a * b, 1_000_000)) }
    }

    pub fn scale(self, rhs: Scalar) -> (r: Energy)
        ensures
            r == self.spec_scale(rhs),
    {
        let a: i128 = self.raw as i128;
        let b: i128 = rhs.raw as i128;
        assert(-0x4000_0000_0000_0000_0000_0000 <= a * b <= 0x4000_0000_0000_0000_0000_0000)
            by (nonlinear_arith)
            requires
                -0x8000_0000_0000_0000 <= a <= 0x8000_0000_0000_0000,
                -0x8000_0000 <= b <= 0x8000_0000,
        ;
        Energy { raw: clamp_to_i64(round_div_i128(a * b, 1_000_000)) }
    }

    pub fn div(self, rhs: Scalar) -> (r: Energy)
        ensures
            r == self.spec_div(rhs),
    {
        if rhs.raw == 0 {
            if self.raw > 0 {
                Energy { raw: 9223372036854775807 }
            } else if self.raw < 0 {
                Energy { raw: -9223372036854775808 }
            } else {
                Energy { raw: 0 }
            }
        } else {
            let n: i128 = self.raw as i128 * 1_000_000;
            let d: i128 = rhs.raw as i128;
            if d > 0 {
                Energy { raw: clamp_to_i64(round_div_i128(n, d)) }
            } else {
                Energy { raw: clamp_to_i64(round_div_i128(-n, -d)) }
            }
        }
    }

    pub fn lt(self, rhs: Energy) -> (b: bool)
        ensures
            b == (self@ < rhs@),
    {
        self.raw < rhs.raw
    }

    pub fn le(self, rhs: Energy) -> (b: bool)
        ensures
            b == (self@ <= rhs@),
    {
        self.raw <= rhs.raw
    }

    pub fn gt(self, rhs: Energy) -> (b: bool)
        ensures
            b == (self@ > rhs@),
    {
        self.raw > rhs.raw
    }

    pub fn ge(self, rhs: Energy) -> (b: bool)
        ensures
            b == (self@ >= rhs@),
    {
        self.raw >= rhs.raw
    }
}

/// A product of numbers that are not negative, rounded, is not negative.
pub proof fn lemma_product_keeps_sign(a: int, b: int)
    requires
        a >= 0,
        b >= 0,
    ensures
        round_div(a * b, SCALE as int) >= 0,
{
    assert(a * b >= 0) by (nonlinear_arith)
        requires
            a >= 0,
            b >= 0,
    ;
    lemma_round_div_bounds(a * b, SCALE as int);
}

} // verus!
