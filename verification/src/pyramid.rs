//! The four-sided pyramid of what a camera sees.

use vstd::prelude::*;
use crate::angle::Angle;
use crate::bounds::Bounds;
use crate::quaternion::Quaternion;
use crate::scalar::{Scalar, SCALE};
use crate::transform::spec_unit_z;
use crate::trig;
use crate::vector3::Vector3;

verus! {

/// A pyramid with its tip at `origin`, opening along `direction`. The
/// vectors `vertical` and `horizontal` point up and sideways and are as long
/// as the sine of half the opening angle; `vertical_dot` and
/// `horizontal_dot` are their squared lengths.
#[derive(Clone, Copy, Debug, PartialEq, Eq, Structural)]
pub struct Pyramid {
    pub origin: Vector3,
    pub direction: Vector3,
    pub vertical: Vector3,
    pub horizontal: Vector3,
    pub vertical_dot: Scalar,
    pub horizontal_dot: Scalar,
}

/// Half of a number.
pub open spec fn half(x: Scalar) -> Scalar {
    x.spec_div(Scalar::of(2 * SCALE))
}

/// The sine of half an angle.
pub open spec fn half_sine(a: Angle) -> Scalar {
    Scalar::of(trig::sin_raw(half(a.radians)@))
}

/// A dot product of a direction with one of the side vectors, scaled by that
/// vector's length.
pub open spec fn side_reach(test: Vector3, side: Vector3) -> Scalar {
    Vector3::spec_dot(test.spec_mul(side.spec_norm()), side)
}

/// Both numbers lie beyond `limit`, on the same side of zero.
pub open spec fn both_beyond(a: Scalar, b: Scalar, limit: Scalar) -> bool {
    (a@ > limit@ && b@ > limit@) || (a@ < limit.spec_neg()@ && b@ < limit.spec_neg()@)
}

impl Pyramid {
    pub open spec fn spec_new(
        position: Vector3,
        rotation: Quaternion,
        vertical_fov: Angle,
        horizontal_fov: Angle,
    ) -> Pyramid {
        let zero = Scalar::of(0);
        let vertical = rotation.spec_mul_vector(
            Vector3 { x: zero, y: half_sine(vertical_fov), z: zero },
        );
        let horizontal = rotation.spec_mul_vector(
            Vector3 { x: half_sine(horizontal_fov), y: zero, z: zero },
        );
        Pyramid {
            origin: position,
            direction: rotation.spec_mul_vector(spec_unit_z()),
            vertical,
            horizontal,
            vertical_dot: vertical.spec_norm_squared(),
            horizontal_dot: horizontal.spec_norm_squared(),
        }
    }

    /// The point lies in front of the tip and within the opening on both sides.
    pub open spec fn spec_contains_point(self, point: Vector3) -> bool {
        let test = Vector3::spec_normalized_sub(point, self.origin);
        &&& Vector3::spec_dot(test, self.direction)@ > 0
        &&& Vector3::spec_dot(test, self.vertical).spec_abs()@ <= self.vertical_dot@
        &&& Vector3::spec_dot(test, self.horizontal).spec_abs()@ <= self.horizontal_dot@
    }

    /// The box is not wholly above, below, left or right of the pyramid, as
    /// far as its two extreme corners tell.
    pub open spec fn spec_intersects_bounds(self, bounds: Bounds) -> bool {
        let min_corner = Vector3 { x: bounds.x.min, y: bounds.y.min, z: bounds.z.min };
        let max_corner = Vector3 { x: bounds.x.max, y: bounds.y.max, z: bounds.z.max };
        let min_test = Vector3::spec_normalized_sub(min_corner, self.origin);
        let max_test = Vector3::spec_normalized_sub(max_corner, self.origin);
        &&& !both_beyond(
            side_reach(min_test, self.vertical),
            side_reach(max_test, self.vertical),
            self.vertical_dot,
        )
        &&& !both_beyond(
            side_reach(min_test, self.horizontal),
            side_reach(max_test, self.horizontal),
            self.horizontal_dot,
        )
    }

    /// Where the direction towards a point lies in the opening: from zero to
    /// one from side to side and from bottom to top, and how far forward.
    pub open spec fn spec_relative_position(self, point: Vector3) -> Vector3 {
        let test = Vector3::spec_normalized_sub(point, self.origin);
        let one = Scalar::of(SCALE as int);
        Vector3 {
            x: half(Vector3::spec_dot(test, self.horizontal).spec_div(self.horizontal_dot).spec_add(one)),
            y: half(Vector3::spec_dot(test, self.vertical).spec_div(self.vertical_dot).spec_add(one)),
            z: Vector3::spec_dot(test, self.direction),
        }
    }

    pub fn new(position: Vector3, rotation: Quaternion, vertical_fov: Angle, horizontal_fov: Angle)
        -> (p: Pyramid)
        ensures
            p == Pyramid::spec_new(position, rotation, vertical_fov, horizontal_fov),
    {
        let two: Scalar = Scalar::from_raw(2_000_000);
        let vertical: Vector3 = rotation.mul_vector(
            Vector3::new(
                Scalar::zero(),
                trig::sin(vertical_fov.get_radians().div(two)),
                Scalar::zero(),
            ),
        );
        let horizontal: Vector3 = rotation.mul_vector(
            Vector3::new(
                trig::sin(horizontal_fov.get_radians().div(two)),
                Scalar::zero(),
                Scalar::zero(),
            ),
        );
        Pyramid {
            origin: position,
            direction: rotation.mul_vector(Vector3::unit_z()),
            vertical,
            horizontal,
            vertical_dot: vertical.norm_squared(),
            horizontal_dot: horizontal.norm_squared(),
        }
    }

    pub fn contains_point(&self, point: &Vector3) -> (b: bool)
        ensures
            b == self.spec_contains_point(*point),
    {
        let test: Vector3 = Vector3::normalized_sub(point, &self.origin);
        Vector3::dot(&test, &self.direction).gt(Scalar::zero()) && Vector3::dot(
            &test,
            &self.vertical,
        ).abs().le(self.vertical_dot) && Vector3::dot(&test, &self.horizontal).abs().le(
            self.horizontal_dot,
        )
    }

    pub fn intersects_bounds(&self, bounds: &Bounds) -> (b: bool)
        ensures
            b == self.spec_intersects_bounds(*bounds),
    {
        let min_test: Vector3 = Vector3::normalized_sub(&bounds.minimum(), &self.origin);
        let max_test: Vector3 = Vector3::normalized_sub(&bounds.maximum(), &self.origin);
        let vertical_norm: Scalar = self.vertical.norm();
        let horizontal_norm: Scalar = self.horizontal.norm();
        let min_vertical: Scalar = Vector3::dot(&min_test.mul(vertical_norm), &self.vertical);
        let max_vertical: Scalar = Vector3::dot(&max_test.mul(vertical_norm), &self.vertical);
        let low_vertical: Scalar = self.vertical_dot.neg();
        if (min_vertical.gt(self.vertical_dot) && max_vertical.gt(self.vertical_dot)) || (
        min_vertical.lt(low_vertical) && max_vertical.lt(low_vertical)) {
            return false;
        }
        let min_horizontal: Scalar = Vector3::dot(&min_test.mul(horizontal_norm), &self.horizontal);
        let max_horizontal: Scalar = Vector3::dot(&max_test.mul(horizontal_norm), &self.horizontal);
        let low_horizontal: Scalar = self.horizontal_dot.neg();
        if (min_horizontal.gt(self.horizontal_dot) && max_horizontal.gt(self.horizontal_dot)) || (
        min_horizontal.lt(low_horizontal) && max_horizontal.lt(low_horizontal)) {
            return false;
        }
        true
    }

    pub fn relative_position_in_frustum(&self, point: &Vector3) -> (r: Vector3)
        ensures
            r == self.spec_relative_position(*point),
    {
        let test: Vector3 = Vector3::normalized_sub(point, &self.origin);
        let two: Scalar = Scalar::from_raw(2_000_000);
        Vector3::new(
            Vector3::dot(&test, &self.horizontal).div(self.horizontal_dot).add(Scalar::one()).div(
                two,
            ),
            Vector3::dot(&test, &self.vertical).div(self.vertical_dot).add(Scalar::one()).div(two),
            Vector3::dot(&test, &self.direction),
        )
    }
}

} // verus!
