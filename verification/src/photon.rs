//! Photons and their hits.

use vstd::prelude::*;
use crate::bounds::Bounds;
use crate::color::Color;
use crate::hit::Hit;
use crate::ray::Ray;
use crate::vector3::Vector3;

verus! {

/// A unit of light on its way: where it goes, what energy it carries, and
/// how often it has bounced.
#[derive(Clone, Copy, Debug, PartialEq, Eq, Structural)]
pub struct Photon {
    pub ray: Ray,
    pub color: Color,
    pub bounces: u32,
}

impl Default for Photon {
    fn default() -> (p: Photon)
        ensures
            p.bounces == 0,
            p.color.red@ == 0 && p.color.green@ == 0 && p.color.blue@ == 0,
            p.color.wf(),
            p.color.spec_brightness()@ == 0,
            p.ray.origin.x@ == 0 && p.ray.origin.y@ == 0 && p.ray.origin.z@ == 0,
            p.ray.direction.x@ == 0 && p.ray.direction.y@ == 0 && p.ray.direction.z@ == 0,
    {
        Photon { ray: Ray::default(), color: Color::default(), bounces: 0 }
    }
}

/// A hit together with the photon that made it.
#[derive(Clone, Copy, Debug, PartialEq, Eq, Structural)]
pub struct PhotonHit {
    pub hit: Hit,
    pub photon: Photon,
}

impl PhotonHit {
    /// The box that holds just the point of the hit.
    pub fn get_bounds(&self) -> (b: Bounds)
        ensures
            b.wf(),
            b.x.min == self.hit.position.x && b.x.max == self.hit.position.x,
            b.y.min == self.hit.position.y && b.y.max == self.hit.position.y,
            b.z.min == self.hit.position.z && b.z.max == self.hit.position.z,
    {
        Bounds::from_vector(self.hit.position)
    }

    pub fn get_pivot(&self) -> (p: Vector3)
        ensures
            p == self.hit.position,
    {
        self.hit.position
    }
}

} // verus!
