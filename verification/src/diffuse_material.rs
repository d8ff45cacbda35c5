//! A matt surface.

use vstd::prelude::*;
use crate::angle_generator::AngleGenerator;
use crate::color::Color;
use crate::material::Material;
use crate::photon::{Photon, PhotonHit};
use crate::random_generator::RandomGenerator;
use crate::ray::Ray;
use crate::scalar::{Scalar, SCALE};
use crate::sphere::{is_unit, TWO_PI_RAW};
use crate::vector3::Vector3;

verus! {

/// Two over pi, rounded to millionths: the share of the light that a matt
/// surface passes on at a bounce.
pub const BOUNCE_SHARE_RAW: i32 = 636_620;

pub struct DiffuseMaterial {
    pub name: String,
    pub m_color: Color,
    pub m_angle_generator: AngleGenerator,
}

/// How bright a hit looks from a direction: half of one plus the cosine
/// between the direction to the viewer and the mirrored photon, not below zero.
pub open spec fn view_share(pixel_direction: Vector3, photon_hit: PhotonHit) -> Scalar {
    let reflection = Vector3::spec_reflected(photon_hit.photon.ray.direction, photon_hit.hit.normal);
    let reflection_dot = Vector3::spec_dot(pixel_direction.spec_neg(), reflection);
    reflection_dot.spec_add(Scalar::of(SCALE as int)).spec_div(Scalar::of(2 * SCALE)).spec_max(
        Scalar::of(0),
    )
}

impl DiffuseMaterial {
    /// The photon that leaves a hit in a given direction: it keeps two over
    /// pi of the light, filtered by the material's colour, or nothing where
    /// the direction does not point away from the surface.
    pub open spec fn spec_bounce_along(self, photon_hit: PhotonHit, direction: Vector3) -> Photon {
        let brightness = if Vector3::spec_dot(direction, photon_hit.hit.normal)@ <= 0 {
            Scalar::of(0)
        } else {
            Scalar::of(BOUNCE_SHARE_RAW as int)
        };
        Photon {
            bounces: (photon_hit.photon.bounces + 1) as u32,
            color: self.m_color.spec_mul(photon_hit.photon.color).spec_scale(brightness),
            ray: Ray { origin: photon_hit.hit.position, direction },
        }
    }

    /// A white surface.
    pub fn new(name: &str) -> (m: DiffuseMaterial)
        ensures
            m.name@ == name@,
            m.m_color.red@ == SCALE && m.m_color.green@ == SCALE && m.m_color.blue@ == SCALE,
            m.m_angle_generator.max_angle@ == crate::angle_generator::PI_RAW,
            m.m_angle_generator.linearity == 1,
            m.valid(),
    {
        DiffuseMaterial {
            name: name.to_owned(),
            m_color: Color::new(
                crate::energy::Energy::one(),
                crate::energy::Energy::one(),
                crate::energy::Energy::one(),
            ),
            m_angle_generator: AngleGenerator::default(),
        }
    }

    pub fn from_color(name: &str, color: &Color) -> (m: DiffuseMaterial)
        ensures
            m.name@ == name@,
            m.m_color == *color,
            m.m_angle_generator.max_angle@ == crate::angle_generator::PI_RAW,
            m.m_angle_generator.linearity == 1,
            color.wf() ==> m.valid(),
    {
        DiffuseMaterial {
            name: name.to_owned(),
            m_color: *color,
            m_angle_generator: AngleGenerator::default(),
        }
    }

    /// The photon that leaves a hit in a given direction; see `spec_bounce_along`.
    pub fn bounce_along(&self, photon_hit: &PhotonHit, direction: Vector3) -> (p: Photon)
        requires
            photon_hit.photon.bounces < u32::MAX,
        ensures
            p == self.spec_bounce_along(*photon_hit, direction),
            self.valid() && photon_hit.photon.color.wf() ==> p.color.wf(),
    {
        let mut brightness: Scalar = Scalar::from_raw(BOUNCE_SHARE_RAW);
        let normal_dot: Scalar = Vector3::dot(&direction, &photon_hit.hit.normal);
        if normal_dot.le(Scalar::zero()) {
            brightness = Scalar::zero();
        }
        Photon {
            bounces: photon_hit.photon.bounces + 1,
            color: self.m_color.mul(photon_hit.photon.color).mul_scalar(brightness),
            ray: Ray { origin: photon_hit.hit.position, direction },
        }
    }
}

impl Material for DiffuseMaterial {
    open spec fn valid(&self) -> bool {
        self.m_color.wf()
    }

    open spec fn shade(&self, pixel_direction: Vector3, photon_hit: PhotonHit) -> Color {
        self.m_color.spec_mul(photon_hit.photon.color).spec_scale(
            view_share(pixel_direction, photon_hit),
        )
    }

    fn get_name(&self) -> (name: String)
        ensures
            name@ == self.name@,
    {
        self.name.clone()
    }

    fn color_for_hit(&self, pixel_direction: &Vector3, photon_hit: &PhotonHit) -> (c: Color) {
        let reflection: Vector3 = Vector3::reflected(
            &photon_hit.photon.ray.direction,
            &photon_hit.hit.normal,
        );
        let reflection_dot: Scalar = Vector3::dot(&pixel_direction.neg(), &reflection);
        let brightness: Scalar = reflection_dot.add(Scalar::one()).div(
            Scalar::from_raw(2_000_000),
        ).max(Scalar::zero());
        self.m_color.mul(photon_hit.photon.color).mul_scalar(brightness)
    }

    /// The photon leaves along the mirrored direction of the photon that
    /// came, turned off it by a random angle.
    fn bounce(&self, photon_hit: &PhotonHit, generator: &mut RandomGenerator) -> (p: Photon)
        ensures
            exists|theta: Scalar, unit: Scalar|
                0 <= theta@ < TWO_PI_RAW && is_unit(unit) && p == self.spec_bounce_along(
                    *photon_hit,
                    #[trigger] self.m_angle_generator.spec_offset_vector(
                        Vector3::spec_reflected(
                            photon_hit.photon.ray.direction,
                            photon_hit.hit.normal,
                        ),
                        theta,
                        unit,
                    ),
                ),
    {
        let reflection: Vector3 = Vector3::reflected(
            &photon_hit.photon.ray.direction,
            &photon_hit.hit.normal,
        );
        let offset_reflection: Vector3 = self.m_angle_generator.generate_offset_vector(
            &reflection,
            generator,
        );
        self.bounce_along(photon_hit, offset_reflection)
    }
}

} // verus!
