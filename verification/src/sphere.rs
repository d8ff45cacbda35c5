//! Random points on and in a sphere.

use vstd::prelude::*;
use crate::random_generator::RandomGenerator;
use crate::scalar::{Scalar, SCALE};
use crate::trig;
use crate::vector3::Vector3;

verus! {

/// A full turn in radians, rounded to millionths.
pub const TWO_PI_RAW: i32 = 6_283_185;

/// The point of the sphere of radius `magnitude` that two numbers between
/// zero and one select: `u1` turns about the Z axis, and `u2` is the height,
/// from one at zero down to minus one. Equal areas of the unit square select
/// equal areas of the sphere.
pub open spec fn spec_sphere_point(u1: Scalar, u2: Scalar, magnitude: Scalar) -> Vector3 {
    let one = Scalar::of(SCALE as int);
    let theta = Scalar::of(TWO_PI_RAW as int).spec_mul(u1);
    let cos_phi = one.spec_sub(Scalar::of(2 * SCALE).spec_mul(u2));
    let sin_phi = one.spec_sub(cos_phi.spec_mul(cos_phi)).spec_sqrt();
    Vector3 {
        x: sin_phi.spec_mul(Scalar::of(trig::cos_raw(theta@))).spec_mul(magnitude),
        y: sin_phi.spec_mul(Scalar::of(trig::sin_raw(theta@))).spec_mul(magnitude),
        z: cos_phi.spec_mul(magnitude),
    }
}

/// The point of the sphere that `u1` and `u2` select, scaled by `reach`.
pub open spec fn spec_ball_point(u1: Scalar, u2: Scalar, reach: Scalar) -> Vector3 {
    spec_sphere_point(u1, u2, Scalar::of(SCALE as int)).spec_mul(reach)
}

/// The number lies between zero and one, one excluded.
pub open spec fn is_unit(u: Scalar) -> bool {
    0 <= u@ < SCALE
}

impl Vector3 {
    /// The point of the sphere of radius `magnitude` that `u1` and `u2` select.
    pub fn sphere_point(u1: Scalar, u2: Scalar, magnitude: Scalar) -> (v: Vector3)
        ensures
            v == spec_sphere_point(u1, u2, magnitude),
    {
        let one: Scalar = Scalar::one();
        let theta: Scalar = Scalar::from_raw(TWO_PI_RAW).mul(u1);
        let cos_phi: Scalar = one.sub(Scalar::from_raw(2_000_000).mul(u2));
        let sin_phi: Scalar = one.sub(cos_phi.mul(cos_phi)).sqrt();
        Vector3::new(
            sin_phi.mul(trig::cos(theta)).mul(magnitude),
            sin_phi.mul(trig::sin(theta)).mul(magnitude),
            cos_phi.mul(magnitude),
        )
    }

    /// A random point within the ball of radius `magnitude`, which must be
    /// positive: a random point of the unit sphere, scaled by a random
    /// number below `magnitude`.
    pub fn random(random_generator: &mut RandomGenerator, magnitude: Scalar) -> (v: Vector3)
        requires
            magnitude@ > 0,
        ensures
            exists|u1: Scalar, u2: Scalar, reach: Scalar|
                is_unit(u1) && is_unit(u2) && 0 <= reach@ < magnitude@ && v
                    == #[trigger] spec_ball_point(u1, u2, reach),
    {
        let u1: Scalar = random_generator.value(Scalar::one());
        let u2: Scalar = random_generator.value(Scalar::one());
        let on_sphere: Vector3 = Vector3::sphere_point(u1, u2, Scalar::one());
        let reach: Scalar = random_generator.value(magnitude);
        let v: Vector3 = on_sphere.mul(reach);
        proof {
            assert(v == spec_ball_point(u1, u2, reach));
        }
        v
    }

    /// A random point of the sphere of radius `magnitude`.
    pub fn random_sphere(random_generator: &mut RandomGenerator, magnitude: Scalar) -> (v: Vector3)
        ensures
            exists|u1: Scalar, u2: Scalar|
                is_unit(u1) && is_unit(u2) && v == #[trigger] spec_sphere_point(u1, u2, magnitude),
    {
        let u1: Scalar = random_generator.value(Scalar::one());
        let u2: Scalar = random_generator.value(Scalar::one());
        let v: Vector3 = Vector3::sphere_point(u1, u2, magnitude);
        proof {
            assert(v == spec_sphere_point(u1, u2, magnitude));
        }
        v
    }
}

} // verus!
