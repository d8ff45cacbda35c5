//! Position, rotation and scale of an object.

use vstd::prelude::*;
use crate::quaternion::Quaternion;
use crate::scalar::{Scalar, SCALE};
use crate::vector3::Vector3;

verus! {

/// Where an object stands and how it is turned. The scale is kept but does
/// not enter any intersection.
#[derive(Clone, Copy, Debug, PartialEq, Eq, Structural)]
pub struct Transform {
    pub position: Vector3,
    pub rotation: Quaternion,
    pub scale: Vector3,
}

/// The unit vector along Z.
pub open spec fn spec_unit_z() -> Vector3 {
    Vector3 { x: Scalar::of(0), y: Scalar::of(0), z: Scalar::of(SCALE as int) }
}

impl Transform {
    pub open spec fn spec_forward(self) -> Vector3 {
        self.rotation.spec_mul_vector(spec_unit_z())
    }

    /// At the origin, not turned, at scale one.
    pub fn new() -> (t: Transform)
        ensures
            t.position.x@ == 0 && t.position.y@ == 0 && t.position.z@ == 0,
            t.rotation == Quaternion::spec_identity(),
            t.scale.x@ == SCALE && t.scale.y@ == SCALE && t.scale.z@ == SCALE,
    {
        Transform {
            position: Vector3::new(Scalar::zero(), Scalar::zero(), Scalar::zero()),
            rotation: Quaternion::new(Scalar::zero(), Scalar::zero(), Scalar::zero(), Scalar::one()),
            scale: Vector3::new(Scalar::one(), Scalar::one(), Scalar::one()),
        }
    }

    /// The direction that the object faces: the Z axis turned by its rotation.
    pub fn forward(&self) -> (v: Vector3)
        ensures
            v == self.spec_forward(),
    {
        self.rotation.mul_vector(Vector3::unit_z())
    }
}

} // verus!
