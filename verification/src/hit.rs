//! The record of a ray meeting a surface.

use vstd::prelude::*;
use crate::scalar::Scalar;
use crate::vector3::Vector3;

verus! {

#[derive(Clone, Copy, Debug, PartialEq, Eq, Structural)]
pub struct Hit {
    pub position: Vector3,
    pub normal: Vector3,
    pub distance: Scalar,
    pub material_index: usize,
}

impl Hit {
    pub fn new(position: Vector3, normal: Vector3, distance: Scalar, material_index: usize) -> (h:
        Hit)
        ensures
            h == (Hit { position, normal, distance, material_index }),
    {
        Hit { position, normal, distance, material_index }
    }
}

impl Default for Hit {
    fn default() -> (h: Hit)
        ensures
            h.distance@ == 0,
            h.material_index == 0,
            h.position.x@ == 0 && h.position.y@ == 0 && h.position.z@ == 0,
            h.normal.x@ == 0 && h.normal.y@ == 0 && h.normal.z@ == 0,
    {
        Hit {
            position: Vector3::default(),
            normal: Vector3::default(),
            distance: Scalar::zero(),
            material_index: 0,
        }
    }
}

} // verus!
