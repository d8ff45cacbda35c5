//! The pinhole camera.

use vstd::prelude::*;
use crate::angle::Angle;
use crate::object::{Object, ObjectTrait};
use crate::pixel_coords::PixelCoords;
use crate::pyramid::Pyramid;
use crate::quaternion::Quaternion;
use crate::scalar::{round_div, Scalar, SCALE};
use crate::transform::spec_unit_z;
use crate::trig;
use crate::vector3::Vector3;

verus! {

pub struct Camera {
    pub m_width: usize,
    pub m_height: usize,
    pub m_aspect_ratio: Scalar,
    pub m_vertical_fov: Angle,
    pub m_horizontal_fov: Angle,
    pub object: Object,
}

/// The ratio of two counts, rounded to millionths.
pub open spec fn ratio(n: nat, d: nat) -> Scalar {
    Scalar::of(round_div(n * SCALE, d as int))
}

/// A fraction of a count, rounded to the nearest whole number and kept below the count.
pub open spec fn place(fraction: Scalar, count: nat) -> int {
    let rounded = round_div(fraction@ * count, SCALE as int);
    if rounded > count - 1 {
        count - 1
    } else {
        rounded
    }
}

/// The angle off the axis at which a pixel is seen: the square of the
/// field of view times the pixel's offset from the middle.
pub open spec fn off_axis(fov: Angle, index: nat, count: nat) -> Scalar {
    fov.radians.spec_mul(fov.radians).spec_mul(ratio(index, count).spec_sub(Scalar::of(SCALE / 2)))
}

fn ratio_exec(n: usize, d: usize) -> (r: Scalar)
    requires
        d > 0,
    ensures
        r == ratio(n as nat, d as nat),
{
    let wide: u128 = n as u128 * 1_000_000;
    let q: u128 = crate::scalar::round_div_u128(wide, d as u128);
    if q > 2147483647 {
        Scalar::from_raw(2147483647)
    } else {
        Scalar::from_raw(q as i32)
    }
}

fn place_exec(fraction: Scalar, count: usize) -> (r: usize)
    requires
        count > 0,
        0 <= fraction@ <= SCALE,
    ensures
        r == place(fraction, count as nat),
        r < count,
{
    let f: u128 = fraction.raw as u128;
    let c: u128 = count as u128;
    assert(f * c <= 1_000_000 * c) by (nonlinear_arith)
        requires
            0 <= f <= 1_000_000,
            0 <= c,
    ;
    let rounded: u128 = crate::scalar::round_div_u128(f * c, 1_000_000);
    if rounded > c - 1 {
        count - 1
    } else {
        rounded as usize
    }
}

impl Camera {
    pub open spec fn spec_width(self) -> nat {
        self.m_width as nat
    }

    pub open spec fn spec_height(self) -> nat {
        self.m_height as nat
    }

    pub open spec fn spec_vertical_fov(self) -> Angle {
        self.m_vertical_fov
    }

    pub open spec fn spec_horizontal_fov(self) -> Angle {
        self.m_horizontal_fov
    }

    pub open spec fn spec_aspect_ratio(self) -> Scalar {
        self.m_aspect_ratio
    }

    /// The image has at least one pixel.
    pub open spec fn wf(self) -> bool {
        self.spec_width() > 0 && self.spec_height() > 0
    }

    /// What the camera sees, as a pyramid.
    pub open spec fn frustum(self) -> Pyramid {
        Pyramid::spec_new(
            self.object.transform.position,
            self.object.transform.rotation,
            self.spec_vertical_fov(),
            self.spec_horizontal_fov(),
        )
    }

    /// The pixel at which a point is seen: none for a point that is not in
    /// front of the camera or lies outside the opening.
    pub open spec fn spec_coord_for_point(self, point: Vector3) -> Option<PixelCoords> {
        let position = self.frustum().spec_relative_position(point);
        if position.z@ <= 0 || position.x@ < 0 || position.x@ > SCALE || position.y@ < 0
            || position.y@ > SCALE {
            None
        } else {
            Some(
                PixelCoords {
                    x: place(position.x, self.spec_width()) as usize,
                    y: place(position.y, self.spec_height()) as usize,
                },
            )
        }
    }

    /// The direction in which a pixel looks.
    pub open spec fn spec_pixel_direction(self, coords: PixelCoords) -> Vector3 {
        let h = off_axis(self.spec_horizontal_fov(), coords.x as nat, self.spec_width());
        let v = off_axis(self.spec_vertical_fov(), coords.y as nat, self.spec_height());
        let direction = Vector3 {
            x: Scalar::of(trig::sin_raw(h@)),
            y: Scalar::of(trig::sin_raw(v@)),
            z: Scalar::of(trig::cos_raw(h@)).spec_mul(Scalar::of(trig::cos_raw(v@))),
        };
        self.object.transform.rotation.spec_mul_vector(direction)
    }

    /// A camera at the origin that looks along Z. An image without pixels is
    /// no target to render to, so both sides must be positive.
    pub fn new(width: usize, height: usize, vertical_fov: &Angle) -> (c: Camera)
        requires
            width > 0,
            height > 0,
        ensures
            c.wf(),
            c.spec_width() == width,
            c.spec_height() == height,
            c.spec_vertical_fov() == *vertical_fov,
            c.spec_aspect_ratio() == ratio(width as nat, height as nat),
            c.spec_horizontal_fov().radians == vertical_fov.radians.spec_mul(
                ratio(width as nat, height as nat),
            ),
            c.object.transform.rotation == Quaternion::spec_identity(),
            c.object.transform.position.x@ == 0 && c.object.transform.position.y@ == 0
                && c.object.transform.position.z@ == 0,
    {
        let aspect_ratio: Scalar = ratio_exec(width, height);
        let horizontal_fov: Angle = vertical_fov.mul(aspect_ratio);
        Camera {
            m_width: width,
            m_height: height,
            m_aspect_ratio: aspect_ratio,
            m_vertical_fov: *vertical_fov,
            m_horizontal_fov: horizontal_fov,
            object: Object::new(),
        }
    }

    /// A camera as `new` makes it, or `None` for an image without pixels.
    pub fn try_new(width: usize, height: usize, vertical_fov: &Angle) -> (c: Option<Camera>)
        ensures
            (width == 0 || height == 0) <==> c is None,
            c matches Some(camera) ==> camera.wf() && camera.spec_width() == width
                && camera.spec_height() == height && camera.spec_vertical_fov() == *vertical_fov
                && camera.spec_aspect_ratio() == ratio(width as nat, height as nat)
                && camera.spec_horizontal_fov().radians == vertical_fov.radians.spec_mul(
                ratio(width as nat, height as nat),
            ) && camera.object.transform.rotation == Quaternion::spec_identity()
                && camera.object.transform.position.x@ == 0 && camera.object.transform.position.y@
                == 0 && camera.object.transform.position.z@ == 0,
    {
        if width == 0 || height == 0 {
            None
        } else {
            Some(Camera::new(width, height, vertical_fov))
        }
    }

    pub fn width(&self) -> (w: usize)
        ensures
            w == self.spec_width(),
    {
        self.m_width
    }

    pub fn height(&self) -> (h: usize)
        ensures
            h == self.spec_height(),
    {
        self.m_height
    }

    pub fn aspect_ratio(&self) -> (r: Scalar)
        ensures
            r == self.spec_aspect_ratio(),
    {
        self.m_aspect_ratio
    }

    pub fn vertical_fov(&self) -> (a: Angle)
        ensures
            a == self.spec_vertical_fov(),
    {
        self.m_vertical_fov
    }

    pub fn horizontal_fov(&self) -> (a: Angle)
        ensures
            a == self.spec_horizontal_fov(),
    {
        self.m_horizontal_fov
    }

    /// Sets the vertical field of view; the horizontal one follows by the aspect ratio.
    pub fn set_vertical_fov(&mut self, vertical_fov: &Angle)
        ensures
            final(self).spec_vertical_fov() == *vertical_fov,
            final(self).spec_horizontal_fov().radians == vertical_fov.radians.spec_mul(
                old(self).spec_aspect_ratio(),
            ),
            final(self).spec_width() == old(self).spec_width(),
            final(self).spec_height() == old(self).spec_height(),
            final(self).spec_aspect_ratio() == old(self).spec_aspect_ratio(),
            final(self).object == old(self).object,
    {
        self.m_vertical_fov = *vertical_fov;
        self.m_horizontal_fov = vertical_fov.mul(self.m_aspect_ratio);
    }

    /// Sets the size of the image, which must have pixels.
    pub fn set_from_render_configuration(&mut self, width: usize, height: usize)
        requires
            width > 0,
            height > 0,
        ensures
            final(self).wf(),
            final(self).spec_width() == width,
            final(self).spec_height() == height,
            final(self).spec_aspect_ratio() == ratio(width as nat, height as nat),
            final(self).spec_vertical_fov() == old(self).spec_vertical_fov(),
            final(self).spec_horizontal_fov().radians == old(self).spec_vertical_fov().radians.spec_mul(ratio(width as nat, height as nat)),
            final(self).object == old(self).object,
    {
        self.m_width = width;
        self.m_height = height;
        self.m_aspect_ratio = ratio_exec(width, height);
        self.m_horizontal_fov = self.m_vertical_fov.mul(self.m_aspect_ratio);
    }

    pub fn coord_for_point(&self, point: &Vector3) -> (r: Option<PixelCoords>)
        requires
            self.wf(),
        ensures
            r == self.spec_coord_for_point(*point),
            r matches Some(c) ==> c.x < self.spec_width() && c.y < self.spec_height(),
    {
        let frustum: Pyramid = Pyramid::new(
            self.object.position(),
            self.object.rotation(),
            self.m_vertical_fov,
            self.m_horizontal_fov,
        );
        let position: Vector3 = frustum.relative_position_in_frustum(point);
        if position.get_z().le(Scalar::zero()) || position.get_x().lt(Scalar::zero())
            || position.get_x().gt(Scalar::one()) || position.get_y().lt(Scalar::zero())
            || position.get_y().gt(Scalar::one()) {
            None
        } else {
            Some(
                PixelCoords::new(
                    place_exec(position.get_x(), self.m_width),
                    place_exec(position.get_y(), self.m_height),
                ),
            )
        }
    }

    pub fn pixel_direction(&self, pixel_coords: &PixelCoords) -> (v: Vector3)
        requires
            self.wf(),
        ensures
            v == self.spec_pixel_direction(*pixel_coords),
    {
        let half: Scalar = Scalar::from_raw(500_000);
        let horizontal: Scalar = ratio_exec(pixel_coords.x, self.m_width);
        let vertical: Scalar = ratio_exec(pixel_coords.y, self.m_height);
        let h_fov: Scalar = self.m_horizontal_fov.get_radians();
        let v_fov: Scalar = self.m_vertical_fov.get_radians();
        let horizontal_angle: Scalar = h_fov.mul(h_fov).mul(horizontal.sub(half));
        let vertical_angle: Scalar = v_fov.mul(v_fov).mul(vertical.sub(half));
        let direction: Vector3 = Vector3::new(
            trig::sin(horizontal_angle),
            trig::sin(vertical_angle),
            trig::cos(horizontal_angle).mul(trig::cos(vertical_angle)),
        );
        self.object.rotation().mul_vector(direction)
    }

    pub fn position(&self) -> (p: Vector3)
        ensures
            p == self.object.transform.position,
    {
        self.object.position()
    }

    pub fn forward(&self) -> (v: Vector3)
        ensures
            v == self.object.transform.rotation.spec_mul_vector(spec_unit_z()),
    {
        self.object.forward()
    }
}

impl ObjectTrait for Camera {
    fn object(&self) -> (o: &Object)
        ensures
            *o == self.object,
    {
        &self.object
    }
}

} // verus!
