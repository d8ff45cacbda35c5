//! A disc that sends photons straight ahead.

use vstd::prelude::*;
use crate::angle_generator::PI_RAW;
use crate::color::Color;
use crate::energy::Energy;
use crate::light::{Light, LightProtectedInterface, LightPublicInterface, LightStrategy};
use crate::photon::Photon;
use crate::quaternion::Quaternion;
use crate::random_generator::RandomGenerator;
use crate::ray::Ray;
use crate::scalar::{Scalar, SCALE};
use crate::sphere::{is_unit, spec_ball_point};
use crate::transform::spec_unit_z;
use crate::vector3::Vector3;

verus! {

/// The disc of a parallel light: photons start within `m_radius` of the
/// light's position, in the plane across the way the light faces.
pub struct ParallelLightStrategy {
    pub m_radius: Scalar,
}

/// Where on the disc a photon starts, for a point drawn from the ball of the
/// disc's radius: the point is laid flat into the plane across `direction`,
/// and then moved along its own direction to the square root of its share
/// of the radius, which spreads the points evenly over the disc.
pub open spec fn disc_offset(seed: Vector3, direction: Vector3, radius: Scalar) -> Vector3 {
    let flat = seed.spec_sub(direction.spec_mul(Vector3::spec_dot(seed, direction)));
    flat.spec_normalize().spec_mul(flat.spec_norm().spec_div(radius).spec_sqrt().spec_mul(radius))
}

/// Where on the disc a photon starts, for a point drawn from the ball of the disc's radius.
pub fn disc_offset_for(seed: Vector3, direction: Vector3, radius: Scalar) -> (offset: Vector3)
    ensures
        offset == disc_offset(seed, direction, radius),
{
    let flat: Vector3 = seed.sub(direction.mul(Vector3::dot(&seed, &direction)));
    Vector3::normalized(&flat).mul(flat.norm().div(radius).sqrt().mul(radius))
}

impl LightStrategy for ParallelLightStrategy {
    fn emit(
        &self,
        base: &Light<ParallelLightStrategy>,
        photon: &mut Photon,
        photon_brightness: Scalar,
        random_generator: &mut RandomGenerator,
    )
        ensures
            self.m_radius@ <= 0 ==> final(photon).ray.origin == base.object.transform.position.spec_add(
                Vector3 { x: Scalar::of(0), y: Scalar::of(0), z: Scalar::of(0) },
            ),
            self.m_radius@ > 0 ==> exists|u1: Scalar, u2: Scalar, reach: Scalar|
                is_unit(u1) && is_unit(u2) && 0 <= reach@ < self.m_radius@ && final(photon).ray.origin == base.object.transform.position.spec_add(
                    disc_offset(
                        #[trigger] spec_ball_point(u1, u2, reach),
                        base.object.transform.rotation.spec_mul_vector(spec_unit_z()),
                        self.m_radius,
                    ),
                ),
    {
        let direction: Vector3 = base.object.forward();
        let photon_color: Color = base.m_color.amplify(base.m_lumens).mul_scalar(photon_brightness);
        let offset: Vector3;
        if self.m_radius.gt(Scalar::zero()) {
            let seed: Vector3 = Vector3::random(random_generator, self.m_radius);
            offset = disc_offset_for(seed, direction, self.m_radius);
        } else {
            offset = Vector3::default();
        }
        photon.ray = Ray::new(base.object.position().add(offset), direction);
        photon.color = photon_color;
        photon.bounces = 0;
    }
}

pub struct ParallelLight {
    pub light: Light<ParallelLightStrategy>,
}

/// The area of a disc: pi times the radius squared.
pub open spec fn disc_area(radius: Scalar) -> Energy {
    Energy::of(PI_RAW as int).spec_scale(radius).spec_scale(radius)
}

impl ParallelLight {
    /// A white light without brightness, a point at the origin that faces along Z.
    pub fn new() -> (l: ParallelLight)
        ensures
            l.light.wf(),
            l.light.specialization.m_radius@ == 0,
            l.light.m_brightness@ == 0,
            l.light.m_area@ == 0,
            l.light.m_lumens@ == 0,
            l.light.m_color.red@ == SCALE && l.light.m_color.green@ == SCALE
                && l.light.m_color.blue@ == SCALE,
            l.light.object.transform.rotation == Quaternion::spec_identity(),
            l.light.object.transform.position.x@ == 0 && l.light.object.transform.position.y@ == 0
                && l.light.object.transform.position.z@ == 0,
    {
        ParallelLight {
            light: Light::<ParallelLightStrategy>::new(
                ParallelLightStrategy { m_radius: Scalar::zero() },
            ),
        }
    }

    /// Makes the light a disc of the given radius.
    pub fn set_radius(&mut self, radius: Scalar)
        ensures
            final(self).light.wf(),
            final(self).light.specialization.m_radius == radius,
            final(self).light.m_area == disc_area(radius),
            final(self).light.m_brightness == old(self).light.m_brightness,
            final(self).light.m_color == old(self).light.m_color,
            final(self).light.object == old(self).light.object,
    {
        self.light.specialization = Box::new(ParallelLightStrategy { m_radius: radius });
        self.light.m_area = Energy::from_raw(3_141_593).scale(radius).scale(radius);
        self.light.update_parameters();
    }
}

impl LightPublicInterface for ParallelLight {
    open spec fn color(&self) -> Color {
        self.light.m_color
    }

    open spec fn brightness(&self) -> Energy {
        self.light.m_brightness
    }

    open spec fn lumens(&self) -> Energy {
        self.light.m_lumens
    }

    open spec fn frame(&self) -> crate::transform::Transform {
        self.light.object.transform
    }

    fn get_color(&self) -> (c: Color) {
        self.light.get_color()
    }

    fn set_color(&mut self, color: Color) {
        self.light.set_color(color)
    }

    fn get_brightness(&self) -> (b: Energy) {
        self.light.get_brightness()
    }

    fn set_brightness(&mut self, brightness: Energy)
        ensures
            final(self).light.wf(),
            final(self).light.m_area == old(self).light.m_area,
            final(self).light.specialization == old(self).light.specialization,
    {
        self.light.set_brightness(brightness)
    }

    /// The photon starts on the light's disc; see `disc_offset`.
    fn emit(
        &self,
        photon: &mut Photon,
        photon_brightness: Scalar,
        random_generator: &mut RandomGenerator,
    )
        ensures
            self.light.specialization.m_radius@ <= 0 ==> final(photon).ray.origin
                == self.light.object.transform.position.spec_add(
                Vector3 { x: Scalar::of(0), y: Scalar::of(0), z: Scalar::of(0) },
            ),
            self.light.specialization.m_radius@ > 0 ==> exists|
                u1: Scalar,
                u2: Scalar,
                reach: Scalar,
            |
                is_unit(u1) && is_unit(u2) && 0 <= reach@ < self.light.specialization.m_radius@
                    && final(photon).ray.origin == self.light.object.transform.position.spec_add(
                    disc_offset(
                        #[trigger] spec_ball_point(u1, u2, reach),
                        self.light.object.transform.rotation.spec_mul_vector(spec_unit_z()),
                        self.light.specialization.m_radius,
                    ),
                ),
    {
        self.light.specialization.emit(&self.light, photon, photon_brightness, random_generator)
    }

    fn set_position(&mut self, position: Vector3)
        ensures
            old(self).light.wf() ==> final(self).light.wf(),
            final(self).light.m_area == old(self).light.m_area,
            final(self).light.specialization == old(self).light.specialization,
    {
        self.light.set_position(position)
    }

    fn set_rotation(&mut self, rotation: Quaternion)
        ensures
            old(self).light.wf() ==> final(self).light.wf(),
            final(self).light.m_area == old(self).light.m_area,
            final(self).light.specialization == old(self).light.specialization,
    {
        self.light.set_rotation(rotation)
    }
}

} // verus!
