//! A mesh as a volume.

use vstd::prelude::*;
use crate::hit::Hit;
use crate::mesh::Mesh;
use crate::ray::Ray;
use crate::volume::{Volume, VolumePublicInterface, VolumeStrategy};

verus! {

/// Hitting a mesh: the nearest hit on its triangles.
pub struct MeshVolumeStrategy {
    pub m_mesh: Mesh,
}

impl VolumeStrategy for MeshVolumeStrategy {
    open spec fn local_hit(&self, ray: Ray) -> Option<Hit> {
        self.m_mesh.spec_cast_ray(ray)
    }

    fn cast_transformed_ray(&self, ray: &Ray, cast_buffer: &mut Vec<Hit>) -> (h: Option<Hit>) {
        self.m_mesh.cast_ray(ray, cast_buffer)
    }
}

pub struct MeshVolume {
    pub volume: Volume<MeshVolumeStrategy>,
}

impl MeshVolume {
    pub fn new(material_index: usize, mesh: Mesh) -> (v: MeshVolume)
        ensures
            v.volume.specialization.m_mesh == mesh,
            v.volume.m_material_index == material_index,
            v.volume.rotation() == crate::quaternion::Quaternion::spec_identity(),
            v.volume.position().x@ == 0 && v.volume.position().y@ == 0 && v.volume.position().z@
                == 0,
    {
        MeshVolume {
            volume: Volume::<MeshVolumeStrategy>::new(
                material_index,
                MeshVolumeStrategy { m_mesh: mesh },
            ),
        }
    }

    pub fn get_mesh(&self) -> (m: &Mesh)
        ensures
            *m == self.volume.specialization.m_mesh,
    {
        &self.volume.specialization.m_mesh
    }

    pub fn set_mesh(&mut self, mesh: Mesh)
        ensures
            final(self).volume.specialization.m_mesh == mesh,
            final(self).volume.m_material_index == old(self).volume.m_material_index,
            final(self).volume.object == old(self).volume.object,
    {
        self.volume.specialization.m_mesh = mesh;
    }
}

impl VolumePublicInterface for MeshVolume {
    open spec fn material_index(&self) -> usize {
        self.volume.m_material_index
    }

    open spec fn world_hit(&self, ray: Ray) -> Option<Hit> {
        self.volume.spec_cast_ray(ray)
    }

    fn get_material_index(&self) -> (i: usize) {
        self.volume.get_material_index()
    }

    fn set_material_index(&mut self, index: usize)
        ensures
            final(self).volume.specialization == old(self).volume.specialization,
            final(self).volume.object == old(self).volume.object,
    {
        self.volume.set_material_index(index);
    }

    fn cast_ray(&self, ray: &Ray, cast_buffer: &mut Vec<Hit>) -> (h: Option<Hit>) {
        self.volume.cast_ray(ray, cast_buffer)
    }
}

} // verus!
