//! Random directions about a given one.

use vstd::prelude::*;
use crate::quaternion::Quaternion;
use crate::random_generator::RandomGenerator;
use crate::scalar::{Scalar, SCALE};
use crate::sphere::{is_unit, TWO_PI_RAW};
use crate::trig;
use crate::vector3::Vector3;

verus! {

/// Pi in radians, rounded to millionths.
pub const PI_RAW: i32 = 3_141_593;

/// Draws angles up to `max_angle`. A number between zero and one is raised
/// to the power `linearity` before it is scaled to an angle: one spreads the
/// angles evenly, more gathers them about zero.
#[derive(Clone, Copy, Debug, PartialEq, Eq, Structural)]
pub struct AngleGenerator {
    pub max_angle: Scalar,
    pub linearity: u32,
}

/// `base` multiplied by itself `exponent` times over, rounded at each step.
pub open spec fn spec_pow(base: Scalar, exponent: nat) -> Scalar
    decreases exponent,
{
    if exponent == 0 {
        Scalar::of(SCALE as int)
    } else {
        spec_pow(base, (exponent - 1) as nat).spec_mul(base)
    }
}

fn pow(base: Scalar, exponent: u32) -> (r: Scalar)
    ensures
        r == spec_pow(base, exponent as nat),
{
    let mut r: Scalar = Scalar::one();
    let mut i: u32 = 0;
    while i < exponent
        invariant
            i <= exponent,
            r == spec_pow(base, i as nat),
        decreases exponent - i,
    {
        r = r.mul(base);
        i += 1;
    }
    r
}

impl AngleGenerator {
    pub open spec fn spec_map(self, value: Scalar) -> Scalar {
        spec_pow(value, self.linearity as nat).spec_mul(self.max_angle)
    }

    /// The direction at the angle `map(unit)` off `center`, turned about
    /// `center` by `theta`.
    ///
    /// The direction is `center * cos(angle)` plus a vector across `center`
    /// of length `sin(angle)`. That vector is the cross product of `center`
    /// with the Y axis, or with the Z axis where `center` runs close to Y,
    /// scaled and then turned about `center`.
    pub open spec fn spec_offset_vector(self, center: Vector3, theta: Scalar, unit: Scalar)
        -> Vector3 {
        let angle = self.spec_map(unit);
        let unit_y = Vector3 { x: Scalar::of(0), y: Scalar::of(SCALE as int), z: Scalar::of(0) };
        let unit_z = Vector3 { x: Scalar::of(0), y: Scalar::of(0), z: Scalar::of(SCALE as int) };
        let use_z = Vector3::spec_dot(center, unit_y).spec_abs()@ > 900_000;
        let cross_axis = if use_z {
            unit_z
        } else {
            unit_y
        };
        let offset = Vector3::spec_cross(center, cross_axis).spec_mul(
            Scalar::of(trig::sin_raw(angle@)),
        );
        let rotation = Quaternion::spec_from_axis_angle(center, theta);
        center.spec_mul(Scalar::of(trig::cos_raw(angle@))).spec_add(
            rotation.spec_mul_vector(offset),
        )
    }

    pub fn new(max_angle: Scalar, linearity: u32) -> (g: AngleGenerator)
        ensures
            g == (AngleGenerator { max_angle, linearity }),
    {
        AngleGenerator { max_angle, linearity }
    }

    /// The angle for a number between zero and one.
    pub fn map(&self, value: Scalar) -> (angle: Scalar)
        ensures
            angle == self.spec_map(value),
    {
        pow(value, self.linearity).mul(self.max_angle)
    }

    /// The angle for a random number between minus one and one.
    pub fn generate(&self, random_generator: &mut RandomGenerator) -> (angle: Scalar)
        ensures
            exists|value: Scalar|
                -SCALE <= value@ < SCALE && angle == #[trigger] self.spec_map(value),
    {
        let drawn: Scalar = random_generator.value(Scalar::one());
        let value: Scalar = Scalar::from_raw(-1_000_000).add(drawn.mul(Scalar::from_raw(2_000_000)));
        proof {
            let d = drawn@;
            assert(0 <= d * 2_000_000 <= 999_999 * 2_000_000) by (nonlinear_arith)
                requires
                    0 <= d <= 999_999,
            ;
            crate::scalar::lemma_round_div_bounds(d * 2_000_000, SCALE as int);
            assert((d * 2_000_000 + 500_000) / 1_000_000 == 2 * d) by (nonlinear_arith)
                requires
                    0 <= d,
            ;
        }
        let angle: Scalar = self.map(value);
        proof {
            assert(angle == self.spec_map(value));
        }
        angle
    }

    /// The direction for a given turn about `center` and a given number
    /// between zero and one; see `spec_offset_vector`.
    pub fn offset_vector(&self, center: &Vector3, theta: Scalar, unit: Scalar) -> (v: Vector3)
        ensures
            v == self.spec_offset_vector(*center, theta, unit),
    {
        let angle: Scalar = self.map(unit);
        let use_z: bool = Vector3::dot(center, &Vector3::unit_y()).abs().gt(
            Scalar::from_raw(900_000),
        );
        let cross_axis: Vector3 = if use_z {
            Vector3::unit_z()
        } else {
            Vector3::unit_y()
        };
        let offset: Vector3 = Vector3::cross(center, &cross_axis).mul(trig::sin(angle));
        let rotation: Quaternion = Quaternion::from_axis_angle(*center, theta);
        let offset: Vector3 = rotation.mul_vector(offset);
        center.mul(trig::cos(angle)).add(offset)
    }

    /// A random direction about `center`.
    pub fn generate_offset_vector(&self, center: &Vector3, random_generator: &mut RandomGenerator)
        -> (v: Vector3)
        ensures
            exists|theta: Scalar, unit: Scalar|
                0 <= theta@ < TWO_PI_RAW && is_unit(unit) && v == #[trigger] self.spec_offset_vector(
                    *center,
                    theta,
                    unit,
                ),
    {
        let theta: Scalar = random_generator.value(Scalar::from_raw(TWO_PI_RAW));
        let unit: Scalar = random_generator.value(Scalar::one());
        let v: Vector3 = self.offset_vector(center, theta, unit);
        proof {
            assert(v == self.spec_offset_vector(*center, theta, unit));
        }
        v
    }
}

impl Default for AngleGenerator {
    /// Angles up to half a turn, spread evenly.
    fn default() -> (g: AngleGenerator)
        ensures
            g.max_angle@ == PI_RAW,
            g.linearity == 1,
    {
        AngleGenerator { max_angle: Scalar::from_raw(PI_RAW), linearity: 1 }
    }
}

} // verus!
