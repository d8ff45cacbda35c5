//! Sources of photons.

use vstd::prelude::*;
use crate::color::Color;
use crate::energy::Energy;
use crate::object::Object;
use crate::photon::Photon;
use crate::quaternion::Quaternion;
use crate::random_generator::RandomGenerator;
use crate::scalar::Scalar;
use crate::transform::spec_unit_z;
use crate::vector3::Vector3;

verus! {

/// The light that a photon carries when it leaves a source of the given
/// colour and output, as one photon of many that share the output.
pub open spec fn emitted_color(color: Color, lumens: Energy, photon_brightness: Scalar) -> Color {
    color.spec_amplify(lumens).spec_scale(photon_brightness)
}

/// The shape of a source: where on it photons start.
pub trait LightStrategy: Sized {
    /// Sends a photon off: it has not bounced, it flies the way the light
    /// faces, and it carries the light's colour times its output times the
    /// photon's share.
    fn emit(
        &self,
        base: &Light<Self>,
        photon: &mut Photon,
        photon_brightness: Scalar,
        random_generator: &mut RandomGenerator,
    )
        ensures
            final(photon).bounces == 0,
            final(photon).color == emitted_color(base.m_color, base.m_lumens, photon_brightness),
            final(photon).ray.direction == base.object.transform.rotation.spec_mul_vector(
                spec_unit_z(),
            ),
    ;
}

/// What a scene asks of a light.
pub trait LightPublicInterface {
    spec fn color(&self) -> Color;

    spec fn brightness(&self) -> Energy;

    spec fn lumens(&self) -> Energy;

    spec fn frame(&self) -> crate::transform::Transform;

    fn get_color(&self) -> (c: Color)
        ensures
            c == self.color(),
    ;

    fn set_color(&mut self, color: Color)
        ensures
            final(self).color() == color,
            final(self).brightness() == old(self).brightness(),
            final(self).frame() == old(self).frame(),
    ;

    fn get_brightness(&self) -> (b: Energy)
        ensures
            b == self.brightness(),
    ;

    fn set_brightness(&mut self, brightness: Energy)
        ensures
            final(self).brightness() == brightness,
            final(self).color() == old(self).color(),
            final(self).frame() == old(self).frame(),
    ;

    /// Sends a photon off; see `LightStrategy::emit`.
    fn emit(
        &self,
        photon: &mut Photon,
        photon_brightness: Scalar,
        random_generator: &mut RandomGenerator,
    )
        ensures
            final(photon).bounces == 0,
            final(photon).color == emitted_color(self.color(), self.lumens(), photon_brightness),
            final(photon).ray.direction == self.frame().rotation.spec_mul_vector(spec_unit_z()),
    ;

    fn set_position(&mut self, position: Vector3)
        ensures
            final(self).frame().position == position,
            final(self).frame().rotation == old(self).frame().rotation,
            final(self).color() == old(self).color(),
            final(self).brightness() == old(self).brightness(),
            final(self).lumens() == old(self).lumens(),
    ;

    fn set_rotation(&mut self, rotation: Quaternion)
        ensures
            final(self).frame().rotation == rotation,
            final(self).frame().position == old(self).frame().position,
            final(self).color() == old(self).color(),
            final(self).brightness() == old(self).brightness(),
            final(self).lumens() == old(self).lumens(),
    ;
}

/// What a light offers to the shapes built on it.
pub trait LightProtectedInterface {
    spec fn expected_lumens(&self) -> Energy;

    spec fn current_lumens(&self) -> Energy;

    /// Brings the output up to date with brightness and area.
    fn update_parameters(&mut self)
        ensures
            final(self).current_lumens() == old(self).expected_lumens(),
            final(self).expected_lumens() == old(self).expected_lumens(),
    ;

    fn object(&self) -> &Object;

    fn get_lumens(&self) -> (l: Energy)
        ensures
            l == self.current_lumens(),
    ;
}

/// A light of shape `T`: its colour, its brightness per unit of area, its
/// area, and its output, which is the brightness times the area, or the
/// brightness alone for a light without area.
pub struct Light<T> {
    pub specialization: Box<T>,
    pub m_color: Color,
    pub m_brightness: Energy,
    pub m_area: Energy,
    pub m_lumens: Energy,
    pub object: Object,
}

/// The output of a light of the given brightness and area.
pub open spec fn lumens_of(brightness: Energy, area: Energy) -> Energy {
    if area@ > 0 {
        brightness.spec_mul(area)
    } else {
        brightness
    }
}

impl<T: LightStrategy> Light<T> {
    /// The output agrees with brightness and area.
    pub open spec fn wf(self) -> bool {
        self.m_lumens == lumens_of(self.m_brightness, self.m_area)
    }

    /// A white light without brightness or area, at the origin.
    pub fn new(specialization: T) -> (l: Light<T>)
        ensures
            l.wf(),
            *l.specialization == specialization,
            l.m_brightness@ == 0,
            l.m_area@ == 0,
            l.m_lumens@ == 0,
            l.m_color.red@ == crate::scalar::SCALE && l.m_color.green@ == crate::scalar::SCALE
                && l.m_color.blue@ == crate::scalar::SCALE,
            l.object.transform.rotation == Quaternion::spec_identity(),
            l.object.transform.position.x@ == 0 && l.object.transform.position.y@ == 0
                && l.object.transform.position.z@ == 0,
    {
        let mut l: Light<T> = Light {
            specialization: Box::new(specialization),
            m_color: Color::new(Energy::one(), Energy::one(), Energy::one()),
            m_brightness: Energy::zero(),
            m_area: Energy::zero(),
            m_lumens: Energy::zero(),
            object: Object::new(),
        };
        l.update_parameters();
        l
    }
}

impl<T: LightStrategy> LightPublicInterface for Light<T> {
    open spec fn color(&self) -> Color {
        self.m_color
    }

    open spec fn brightness(&self) -> Energy {
        self.m_brightness
    }

    open spec fn lumens(&self) -> Energy {
        self.m_lumens
    }

    open spec fn frame(&self) -> crate::transform::Transform {
        self.object.transform
    }

    fn get_color(&self) -> (c: Color) {
        self.m_color
    }

    fn set_color(&mut self, color: Color)
        ensures
            old(self).wf() ==> final(self).wf(),
            final(self).m_area == old(self).m_area,
            final(self).specialization == old(self).specialization,
    {
        self.m_color = color;
        self.update_parameters();
    }

    fn get_brightness(&self) -> (b: Energy) {
        self.m_brightness
    }

    fn set_brightness(&mut self, brightness: Energy)
        ensures
            final(self).wf(),
            final(self).m_area == old(self).m_area,
            final(self).specialization == old(self).specialization,
    {
        self.m_brightness = brightness;
        self.update_parameters();
    }

    fn emit(
        &self,
        photon: &mut Photon,
        photon_brightness: Scalar,
        random_generator: &mut RandomGenerator,
    ) {
        self.specialization.emit(self, photon, photon_brightness, random_generator)
    }

    fn set_position(&mut self, position: Vector3)
        ensures
            old(self).wf() ==> final(self).wf(),
            final(self).m_area == old(self).m_area,
            final(self).specialization == old(self).specialization,
    {
        self.object.transform.position = position;
    }

    fn set_rotation(&mut self, rotation: Quaternion)
        ensures
            old(self).wf() ==> final(self).wf(),
            final(self).m_area == old(self).m_area,
            final(self).specialization == old(self).specialization,
    {
        self.object.transform.rotation = rotation;
    }
}

impl<T: LightStrategy> LightProtectedInterface for Light<T> {
    open spec fn expected_lumens(&self) -> Energy {
        lumens_of(self.m_brightness, self.m_area)
    }

    open spec fn current_lumens(&self) -> Energy {
        self.m_lumens
    }

    fn update_parameters(&mut self)
        ensures
            final(self).wf(),
            final(self).m_color == old(self).m_color,
            final(self).m_brightness == old(self).m_brightness,
            final(self).m_area == old(self).m_area,
            final(self).object == old(self).object,
            final(self).specialization == old(self).specialization,
    {
        if self.m_area.gt(Energy::zero()) {
            self.m_lumens = self.m_brightness.mul(self.m_area);
        } else {
            self.m_lumens = self.m_brightness;
        }
    }

    fn object(&self) -> (o: &Object)
        ensures
            *o == self.object,
    {
        &self.object
    }

    fn get_lumens(&self) -> (l: Energy) {
        self.m_lumens
    }
}

} // verus!
