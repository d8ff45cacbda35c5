//! What a surface does with the light that falls on it.

use vstd::prelude::*;
use crate::color::Color;
use crate::photon::{Photon, PhotonHit};
use crate::random_generator::RandomGenerator;
use crate::vector3::Vector3;

verus! {

pub trait Material {
    /// The material's own colours have no negative channel.
    spec fn valid(&self) -> bool;

    /// The light that goes from a hit towards a pixel.
    spec fn shade(&self, pixel_direction: Vector3, photon_hit: PhotonHit) -> Color;

    fn get_name(&self) -> (name: String);

    /// The light that goes from a hit towards a pixel. A valid material
    /// turns light without negative channels into light without negative
    /// channels.
    fn color_for_hit(&self, pixel_direction: &Vector3, photon_hit: &PhotonHit) -> (c: Color)
        ensures
            c == self.shade(*pixel_direction, *photon_hit),
            self.valid() && photon_hit.photon.color.wf() ==> c.wf(),
    ;

    /// The photon that leaves a hit: it starts where the hit is, has bounced
    /// once more than the photon that came, and carries no negative channel
    /// if that one carried none and the material is valid.
    fn bounce(&self, photon_hit: &PhotonHit, generator: &mut RandomGenerator) -> (p: Photon)
        requires
            photon_hit.photon.bounces < u32::MAX,
        ensures
            p.bounces == photon_hit.photon.bounces + 1,
            p.ray.origin == photon_hit.hit.position,
            self.valid() && photon_hit.photon.color.wf() ==> p.color.wf(),
    ;
}

} // verus!
