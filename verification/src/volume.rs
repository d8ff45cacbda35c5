//! Shapes placed in the world: a frame, a material and a way to be hit.

use vstd::prelude::*;
use crate::hit::Hit;
use crate::object::Object;
use crate::quaternion::{norm_squared_raw, Quaternion};
use crate::ray::Ray;
use crate::scalar::{round_div, Scalar, SCALE};
use crate::vector3::Vector3;

verus! {

/// How a shape is hit by a ray that is given in the shape's own frame.
pub trait VolumeStrategy {
    spec fn local_hit(&self, ray: Ray) -> Option<Hit>;

    /// `cast_buffer` is scratch space: what it holds afterwards is not stated.
    fn cast_transformed_ray(&self, ray: &Ray, cast_buffer: &mut Vec<Hit>) -> (h: Option<Hit>)
        ensures
            h == self.local_hit(*ray),
    ;
}

/// What a scene asks of a volume.
pub trait VolumePublicInterface {
    spec fn material_index(&self) -> usize;

    /// The hit of a ray that is given in the frame of the world, in that frame.
    spec fn world_hit(&self, ray: Ray) -> Option<Hit>;

    fn get_material_index(&self) -> (i: usize)
        ensures
            i == self.material_index(),
    ;

    fn set_material_index(&mut self, index: usize)
        ensures
            final(self).material_index() == index,
    ;

    /// `cast_buffer` is scratch space: what it holds afterwards is not stated.
    fn cast_ray(&self, ray: &Ray, cast_buffer: &mut Vec<Hit>) -> (h: Option<Hit>)
        ensures
            h == self.world_hit(*ray),
            h matches Some(hit) ==> hit.material_index == self.material_index(),
    ;
}

/// What a volume offers to the shapes built on it.
pub trait VolumeProtectedInterface {
    spec fn transformed_hit(&self, ray: Ray) -> Option<Hit>;

    /// `cast_buffer` is scratch space: what it holds afterwards is not stated.
    fn cast_transformed_ray(&self, ray: &Ray, cast_buffer: &mut Vec<Hit>) -> (h: Option<Hit>)
        ensures
            h == self.transformed_hit(*ray),
    ;
}

/// A shape of kind `T` in a frame of its own, with the index of its material.
pub struct Volume<T> {
    pub specialization: T,
    pub m_material_index: usize,
    pub object: Object,
}

/// A point of the world in the frame at `position`, turned by `rotation`:
/// the point less the position, turned back.
pub open spec fn to_local(position: Vector3, rotation: Quaternion, point: Vector3) -> Vector3 {
    rotation.spec_inverse().spec_mul_vector(point.spec_sub(position))
}

/// A point of the frame at `position`, turned by `rotation`, in the world:
/// the point turned, plus the position.
pub open spec fn to_world(position: Vector3, rotation: Quaternion, point: Vector3) -> Vector3 {
    position.spec_add(rotation.spec_mul_vector(point))
}

impl<T: VolumeStrategy> Volume<T> {
    pub open spec fn position(self) -> Vector3 {
        self.object.transform.position
    }

    pub open spec fn rotation(self) -> Quaternion {
        self.object.transform.rotation
    }

    /// The rotation can be undone.
    pub open spec fn turnable(self) -> bool {
        !self.rotation().is_zero()
    }

    /// A ray of the world in the volume's frame.
    pub open spec fn spec_transform_ray(self, ray: Ray) -> Ray {
        Ray {
            origin: to_local(self.position(), self.rotation(), ray.origin),
            direction: self.rotation().spec_inverse().spec_mul_vector(ray.direction),
        }
    }

    /// The hit of a ray of the world on the volume: the ray is taken into
    /// the volume's frame, the shape says where it is hit, and the point and
    /// the normal of that hit are taken back into the world. A volume whose
    /// rotation cannot be undone is never hit.
    pub open spec fn spec_cast_ray(self, ray: Ray) -> Option<Hit> {
        if self.turnable() {
            match self.specialization.local_hit(self.spec_transform_ray(ray)) {
                Some(hit) => Some(
                    Hit {
                        position: to_world(self.position(), self.rotation(), hit.position),
                        normal: self.rotation().spec_mul_vector(hit.normal),
                        distance: hit.distance,
                        material_index: self.m_material_index,
                    },
                ),
                None => None,
            }
        } else {
            None
        }
    }

    /// A volume at the origin, not turned.
    pub fn new(material_index: usize, specialization: T) -> (v: Volume<T>)
        ensures
            v.specialization == specialization,
            v.m_material_index == material_index,
            v.rotation() == Quaternion::spec_identity(),
            v.position().x@ == 0 && v.position().y@ == 0 && v.position().z@ == 0,
    {
        Volume { specialization, m_material_index: material_index, object: Object::new() }
    }

    /// A ray of the world in the volume's frame. The rotation must be one that can be undone.
    pub fn transform_ray(&self, ray: &Ray) -> (r: Ray)
        requires
            self.turnable(),
        ensures
            r == self.spec_transform_ray(*ray),
    {
        let back: Quaternion = self.object.rotation().inverse();
        Ray {
            origin: back.mul_vector(ray.origin.sub(self.object.position())),
            direction: back.mul_vector(ray.direction),
        }
    }
}

impl<T: VolumeStrategy> VolumePublicInterface for Volume<T> {
    open spec fn material_index(&self) -> usize {
        self.m_material_index
    }

    open spec fn world_hit(&self, ray: Ray) -> Option<Hit> {
        self.spec_cast_ray(ray)
    }

    fn get_material_index(&self) -> (i: usize) {
        self.m_material_index
    }

    fn set_material_index(&mut self, index: usize)
        ensures
            final(self).specialization == old(self).specialization,
            final(self).object == old(self).object,
    {
        self.m_material_index = index;
    }

    fn cast_ray(&self, ray: &Ray, cast_buffer: &mut Vec<Hit>) -> (h: Option<Hit>) {
        if self.object.rotation().is_null() {
            return None;
        }
        let transformed_ray: Ray = self.transform_ray(ray);
        let hit: Option<Hit> = self.specialization.cast_transformed_ray(
            &transformed_ray,
            cast_buffer,
        );
        match hit {
            Some(hit) => Some(
                Hit {
                    position: self.object.position().add(
                        self.object.rotation().mul_vector(hit.position),
                    ),
                    normal: self.object.rotation().mul_vector(hit.normal),
                    distance: hit.distance,
                    material_index: self.m_material_index,
                },
            ),
            None => None,
        }
    }
}

impl<T: VolumeStrategy> VolumeProtectedInterface for Volume<T> {
    open spec fn transformed_hit(&self, ray: Ray) -> Option<Hit> {
        self.specialization.local_hit(ray)
    }

    fn cast_transformed_ray(&self, ray: &Ray, cast_buffer: &mut Vec<Hit>) -> (h: Option<Hit>) {
        self.specialization.cast_transformed_ray(ray, cast_buffer)
    }
}

/// A whole multiple of the scale, divided by the scale and rounded, is the factor.
pub proof fn lemma_round_div_of_multiple(k: int)
    ensures
        round_div(k * SCALE, SCALE as int) == k,
        round_div(SCALE * k, SCALE as int) == k,
{
    let s = SCALE as int;
    assert(SCALE * k == k * SCALE) by (nonlinear_arith);
    if k >= 0 {
        assert((k * s + s / 2) / s == k) by (nonlinear_arith)
            requires
                s == 1_000_000,
                k >= 0,
        ;
    } else {
        assert((-(k * s) + s / 2) / s == -k) by (nonlinear_arith)
            requires
                s == 1_000_000,
                k < 0,
        ;
    }
}

/// The rotation that turns nothing leaves every vector as it is.
pub proof fn lemma_identity_turns_nothing(v: Vector3)
    ensures
        Quaternion::spec_identity().spec_mul_vector(v) == v,
        Quaternion::spec_identity().spec_inverse() == Quaternion::spec_identity(),
{
    let s = SCALE as int;
    let q = Quaternion::spec_identity();
    lemma_round_div_of_multiple(v.x@);
    lemma_round_div_of_multiple(v.y@);
    lemma_round_div_of_multiple(v.z@);
    lemma_round_div_of_multiple(s);
    lemma_round_div_of_multiple(0);
    let vq = Quaternion { x: v.x, y: v.y, z: v.z, w: Scalar::of(0) };
    assert(q.spec_mul(vq) == vq) by {
        assert(s * v.x@ + 0 * 0 + 0 * v.z@ - 0 * v.y@ == SCALE * v.x@) by (nonlinear_arith)
            requires
                s == SCALE,
        ;
        assert(s * v.y@ + 0 * 0 + 0 * v.x@ - 0 * v.z@ == SCALE * v.y@) by (nonlinear_arith)
            requires
                s == SCALE,
        ;
        assert(s * v.z@ + 0 * 0 + 0 * v.y@ - 0 * v.x@ == SCALE * v.z@) by (nonlinear_arith)
            requires
                s == SCALE,
        ;
        assert(s * 0 - 0 * v.x@ - 0 * v.y@ - 0 * v.z@ == 0 * SCALE) by (nonlinear_arith);
    }
    assert(q.spec_conjugate() == q);
    assert(vq.spec_mul(q) == vq) by {
        assert(0 * 0 + v.x@ * s + v.y@ * 0 - v.z@ * 0 == v.x@ * SCALE) by (nonlinear_arith)
            requires
                s == SCALE,
        ;
        assert(0 * 0 + v.y@ * s + v.z@ * 0 - v.x@ * 0 == v.y@ * SCALE) by (nonlinear_arith)
            requires
                s == SCALE,
        ;
        assert(0 * 0 + v.z@ * s + v.x@ * 0 - v.y@ * 0 == v.z@ * SCALE) by (nonlinear_arith)
            requires
                s == SCALE,
        ;
        assert(0 * s - v.x@ * 0 - v.y@ * 0 - v.z@ * 0 == 0 * SCALE) by (nonlinear_arith);
    }
    assert(q.spec_inverse() == q) by {
        assert(norm_squared_raw(q) == 1_000_000_000_000) by (nonlinear_arith)
            requires
                norm_squared_raw(q) == 0 * 0 + 0 * 0 + 0 * 0 + s * s,
                s == 1_000_000,
        ;
        assert(-0int * 1_000_000_000_000 == 0);
        assert((0int + 1_000_000_000_000int / 2) / 1_000_000_000_000 == 0);
        assert((s * 1_000_000_000_000 + 1_000_000_000_000int / 2) / 1_000_000_000_000 == s)
            by (nonlinear_arith)
            requires
                s == 1_000_000,
        ;
    }
}

/// Every rotation leaves the zero vector where it is.
pub proof fn lemma_zero_stays(q: Quaternion)
    ensures
        q.spec_mul_vector(Vector3 { x: Scalar::of(0), y: Scalar::of(0), z: Scalar::of(0) }) == (
        Vector3 { x: Scalar::of(0), y: Scalar::of(0), z: Scalar::of(0) }),
{
    let zero = Quaternion { x: Scalar::of(0), y: Scalar::of(0), z: Scalar::of(0), w: Scalar::of(0) };
    let c = q.spec_conjugate();
    assert(q.spec_mul(zero) == zero) by {
        assert(q.w@ * 0 + q.x@ * 0 + q.y@ * 0 - q.z@ * 0 == 0) by (nonlinear_arith);
        assert(q.w@ * 0 + q.y@ * 0 + q.z@ * 0 - q.x@ * 0 == 0) by (nonlinear_arith);
        assert(q.w@ * 0 + q.z@ * 0 + q.x@ * 0 - q.y@ * 0 == 0) by (nonlinear_arith);
        assert(q.w@ * 0 - q.x@ * 0 - q.y@ * 0 - q.z@ * 0 == 0) by (nonlinear_arith);
    }
    assert(zero.spec_mul(c) == zero) by {
        assert(0 * c.x@ + 0 * c.w@ + 0 * c.z@ - 0 * c.y@ == 0) by (nonlinear_arith);
        assert(0 * c.y@ + 0 * c.w@ + 0 * c.x@ - 0 * c.z@ == 0) by (nonlinear_arith);
        assert(0 * c.z@ + 0 * c.w@ + 0 * c.y@ - 0 * c.x@ == 0) by (nonlinear_arith);
        assert(0 * c.w@ - 0 * c.x@ - 0 * c.y@ - 0 * c.z@ == 0) by (nonlinear_arith);
    }
}

/// Whatever the rotation of a volume, the place where the volume stands is
/// the origin of its frame, and comes back from there as itself.
pub proof fn lemma_round_trip_of_position(position: Vector3, rotation: Quaternion)
    ensures
        to_local(position, rotation, position) == (Vector3 {
            x: Scalar::of(0),
            y: Scalar::of(0),
            z: Scalar::of(0),
        }),
        to_world(position, rotation, to_local(position, rotation, position)) == position,
{
    lemma_zero_stays(rotation.spec_inverse());
    lemma_zero_stays(rotation);
}

/// A point taken into the frame of a volume that is moved but not turned,
/// and back into the world, is the point again, as long as the point lies
/// within the representable range of the volume's position.
pub proof fn lemma_round_trip_unturned(position: Vector3, point: Vector3)
    requires
        i32::MIN <= point.x@ - position.x@ <= i32::MAX,
        i32::MIN <= point.y@ - position.y@ <= i32::MAX,
        i32::MIN <= point.z@ - position.z@ <= i32::MAX,
    ensures
        to_world(
            position,
            Quaternion::spec_identity(),
            to_local(position, Quaternion::spec_identity(), point),
        ) == point,
{
    let q = Quaternion::spec_identity();
    let moved = point.spec_sub(position);
    lemma_identity_turns_nothing(moved);
}

} // verus!
