//! A plane as a volume.

use vstd::prelude::*;
use crate::hit::Hit;
use crate::plane::Plane;
use crate::ray::Ray;
use crate::vector3::Vector3;
use crate::volume::{Volume, VolumePublicInterface, VolumeStrategy};

verus! {

/// A plane that is part of a scene but that no ray hits.
pub struct PlaneVolumeStrategy {
    pub m_plane: Plane,
}

impl VolumeStrategy for PlaneVolumeStrategy {
    open spec fn local_hit(&self, ray: Ray) -> Option<Hit> {
        None
    }

    fn cast_transformed_ray(&self, ray: &Ray, cast_buffer: &mut Vec<Hit>) -> (h: Option<Hit>) {
        None
    }
}

pub struct PlaneVolume {
    pub volume: Volume<PlaneVolumeStrategy>,
}

impl PlaneVolume {
    /// The plane through the origin and the Z and X axes.
    pub fn new(material_index: usize) -> (v: PlaneVolume)
        ensures
            v.volume.m_material_index == material_index,
            v.volume.rotation() == crate::quaternion::Quaternion::spec_identity(),
            v.volume.position().x@ == 0 && v.volume.position().y@ == 0 && v.volume.position().z@
                == 0,
            v.volume.specialization.m_plane == Plane::spec_new(
                Vector3::from_ints_spec(0, 0, 0),
                Vector3::from_ints_spec(0, 0, 1),
                Vector3::from_ints_spec(1, 0, 0),
            ),
    {
        PlaneVolume {
            volume: Volume::<PlaneVolumeStrategy>::new(
                material_index,
                PlaneVolumeStrategy {
                    m_plane: Plane::new(
                        Vector3::from_ints(0, 0, 0),
                        Vector3::from_ints(0, 0, 1),
                        Vector3::from_ints(1, 0, 0),
                    ),
                },
            ),
        }
    }
}

impl VolumePublicInterface for PlaneVolume {
    open spec fn material_index(&self) -> usize {
        self.volume.m_material_index
    }

    open spec fn world_hit(&self, ray: Ray) -> Option<Hit> {
        self.volume.spec_cast_ray(ray)
    }

    fn get_material_index(&self) -> (i: usize) {
        self.volume.get_material_index()
    }

    fn set_material_index(&mut self, index: usize)
        ensures
            final(self).volume.specialization == old(self).volume.specialization,
            final(self).volume.object == old(self).volume.object,
    {
        self.volume.set_material_index(index);
    }

    fn cast_ray(&self, ray: &Ray, cast_buffer: &mut Vec<Hit>) -> (h: Option<Hit>) {
        self.volume.cast_ray(ray, cast_buffer)
    }
}

} // verus!
