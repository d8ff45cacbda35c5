//! Angles, held in radians.

use vstd::prelude::*;
use crate::scalar::{clamp_i128, round_div, round_div_i128, Scalar};
use crate::trig;

verus! {

/// Pi in million-millionths.
pub const PI_PICO: i128 = 3_141_592_653_590;

/// Half a turn, in degrees, in the precision of `PI_PICO`.
pub const HALF_TURN_DEGREES_PICO: i128 = 180_000_000_000_000;

#[derive(Clone, Copy, Debug, PartialEq, Eq, Structural)]
pub struct Angle {
    pub radians: Scalar,
}

impl Angle {
    /// Degrees to radians: `degrees * pi / 180`, rounded to the nearest millionth.
    pub open spec fn spec_from_degrees(degrees: Scalar) -> Angle {
        Angle {
            radians: Scalar::of(
                round_div(degrees@ * PI_PICO as int, HALF_TURN_DEGREES_PICO as int),
            ),
        }
    }

    /// Radians to degrees: `radians * 180 / pi`, rounded to the nearest millionth.
    pub open spec fn spec_degrees(self) -> Scalar {
        Scalar::of(round_div(self.radians@ * HALF_TURN_DEGREES_PICO as int, PI_PICO as int))
    }

    pub fn from_degrees(degrees: Scalar) -> (a: Angle)
        ensures
            a == Angle::spec_from_degrees(degrees),
    {
        let n: i128 = degrees.raw as i128 * 3_141_592_653_590;
        Angle {
            radians: Scalar::from_raw(clamp_i128(round_div_i128(n, 180_000_000_000_000))),
        }
    }

    pub fn from_radians(radians: Scalar) -> (a: Angle)
        ensures
            a.radians == radians,
    {
        Angle { radians }
    }

    pub fn get_radians(&self) -> (r: Scalar)
        ensures
            r == self.radians,
    {
        self.radians
    }

    pub fn get_degrees(&self) -> (d: Scalar)
        ensures
            d == self.spec_degrees(),
    {
        let n: i128 = self.radians.raw as i128 * 180_000_000_000_000;
        Scalar::from_raw(clamp_i128(round_div_i128(n, 3_141_592_653_590)))
    }

    /// The angle scaled by a factor.
    pub fn mul(self, rhs: Scalar) -> (a: Angle)
        ensures
            a.radians == self.radians.spec_mul(rhs),
    {
        Angle::from_radians(self.radians.mul(rhs))
    }

    pub fn sin(&self) -> (r: Scalar)
        ensures
            r@ == trig::sin_raw(self.radians@),
            -1_000_000 <= r@ <= 1_000_000,
    {
        trig::sin(self.radians)
    }

    pub fn cos(&self) -> (r: Scalar)
        ensures
            r@ == trig::cos_raw(self.radians@),
            -1_000_000 <= r@ <= 1_000_000,
    {
        trig::cos(self.radians)
    }
}

} // verus!
