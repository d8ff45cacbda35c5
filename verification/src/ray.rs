//! Rays: an origin and a direction.

use vstd::prelude::*;
use crate::vector3::Vector3;

verus! {

/// A half-line. The direction need not have length one; a parameter `t` along
/// the ray counts in units of the direction vector.
#[derive(Clone, Copy, Debug, PartialEq, Eq, Structural)]
pub struct Ray {
    pub origin: Vector3,
    pub direction: Vector3,
}

impl Ray {
    pub fn new(origin: Vector3, direction: Vector3) -> (r: Ray)
        ensures
            r == (Ray { origin, direction }),
    {
        Ray { origin, direction }
    }
}

impl Default for Ray {
    fn default() -> (r: Ray)
        ensures
            r.origin.x@ == 0 && r.origin.y@ == 0 && r.origin.z@ == 0,
            r.direction.x@ == 0 && r.direction.y@ == 0 && r.direction.z@ == 0,
    {
        Ray { origin: Vector3::default(), direction: Vector3::default() }
    }
}

} // verus!
