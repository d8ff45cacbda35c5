//! All that a render reads: camera, volumes, lights and materials.

use vstd::prelude::*;
use crate::camera::Camera;
use crate::hit::Hit;
use crate::library::Library;
use crate::light::LightPublicInterface;
use crate::material::Material;
use crate::mesh_volume::MeshVolume;
use crate::plane_volume::PlaneVolume;
use crate::ray::Ray;
use crate::volume::VolumePublicInterface;

verus! {

/// A scene is put together once and only read while it is rendered.
pub struct Scene<V: VolumePublicInterface, L: LightPublicInterface, M: Material> {
    pub camera: Camera,
    pub volumes: Vec<V>,
    pub lights: Vec<L>,
    pub material_library: Library<M>,
}

impl<V: VolumePublicInterface, L: LightPublicInterface, M: Material> Scene<V, L, M> {
    /// The camera has an image to render to, and every volume's material is
    /// in the library.
    pub open spec fn wf(self) -> bool {
        &&& self.camera.wf()
        &&& forall|i: int|
            0 <= i < self.volumes@.len() ==> (#[trigger] self.volumes@[i]).material_index()
                < self.material_library.contents().len()
    }
}

/// Any of the kinds of volume, so that one scene can hold them side by side.
pub enum SceneVolume {
    Mesh(MeshVolume),
    Plane(PlaneVolume),
}

impl VolumePublicInterface for SceneVolume {
    open spec fn material_index(&self) -> usize {
        match self {
            SceneVolume::Mesh(v) => v.volume.m_material_index,
            SceneVolume::Plane(v) => v.volume.m_material_index,
        }
    }

    open spec fn world_hit(&self, ray: Ray) -> Option<Hit> {
        match self {
            SceneVolume::Mesh(v) => v.volume.spec_cast_ray(ray),
            SceneVolume::Plane(v) => v.volume.spec_cast_ray(ray),
        }
    }

    fn get_material_index(&self) -> (i: usize) {
        match self {
            SceneVolume::Mesh(v) => v.get_material_index(),
            SceneVolume::Plane(v) => v.get_material_index(),
        }
    }

    fn set_material_index(&mut self, index: usize) {
        match self {
            SceneVolume::Mesh(v) => v.set_material_index(index),
            SceneVolume::Plane(v) => v.set_material_index(index),
        }
    }

    fn cast_ray(&self, ray: &Ray, cast_buffer: &mut Vec<Hit>) -> (h: Option<Hit>) {
        match self {
            SceneVolume::Mesh(v) => v.cast_ray(ray, cast_buffer),
            SceneVolume::Plane(v) => v.cast_ray(ray, cast_buffer),
        }
    }
}

} // verus!
