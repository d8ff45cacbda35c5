//! Unbounded planes.

use vstd::prelude::*;
use crate::hit::Hit;
use crate::ray::Ray;
use crate::scalar::Scalar;
use crate::triangle::corner_normal;
use crate::vector3::{length_of, length_wide, Vector3};
use crate::wide::{diff, unit_big, wide_cross, wide_diff, Wide};

verus! {

/// The plane of the points `p` with `normal . p == dot`.
#[derive(Clone, Copy, Debug, PartialEq, Eq, Structural)]
pub struct Plane {
    pub normal: Vector3,
    pub dot: Scalar,
}

impl Plane {
    pub open spec fn spec_new(a: Vector3, b: Vector3, c: Vector3) -> Plane {
        let normal = corner_normal(a, b, c);
        Plane { normal, dot: Vector3::spec_dot(normal, a) }
    }

    pub open spec fn spec_point_above_plane(self, point: Vector3) -> bool {
        Vector3::spec_dot(self.normal, point)@ > self.dot@
    }

    /// The hit of a ray on the plane, from either side: none where the ray
    /// runs along the plane or the plane lies behind the ray's origin.
    pub open spec fn spec_hit(self, ray: Ray) -> Option<Hit> {
        let dot = Vector3::spec_dot(ray.direction, self.normal);
        if dot@ == 0 {
            None
        } else {
            let t = self.dot.spec_sub(Vector3::spec_dot(self.normal, ray.origin)).spec_div(dot);
            if t@ < 0 {
                None
            } else {
                let position = ray.origin.spec_add(ray.direction.spec_mul(t));
                let away = diff(position, ray.origin);
                Some(
                    Hit {
                        position,
                        normal: self.normal,
                        distance: length_of(away.x, away.y, away.z),
                        material_index: 0,
                    },
                )
            }
        }
    }

    /// The plane through three points; its normal is that of the triangle `a`, `b`, `c`.
    pub fn new(a: Vector3, b: Vector3, c: Vector3) -> (p: Plane)
        ensures
            p == Plane::spec_new(a, b, c),
    {
        let u: Wide = wide_diff(&b, &a);
        let v: Wide = wide_diff(&c, &a);
        let n: Wide = wide_cross(&u, &v);
        let normal: Vector3 = unit_big(&n);
        let dot: Scalar = Vector3::dot(&normal, &a);
        Plane { normal, dot }
    }

    /// Whether the point lies on the side of the plane that the normal points to.
    pub fn point_above_plane(&self, point: &Vector3) -> (b: bool)
        ensures
            b == self.spec_point_above_plane(*point),
    {
        Vector3::dot(&self.normal, point).gt(self.dot)
    }

    pub fn ray_intersects(&self, ray: &Ray) -> (h: Option<Hit>)
        ensures
            h == self.spec_hit(*ray),
            h matches Some(hit) ==> hit.distance@ >= 0,
    {
        let dot: Scalar = Vector3::dot(&ray.direction, &self.normal);
        if dot.abs().lt(Scalar::epsilon()) {
            return None;
        }
        let t: Scalar = self.dot.sub(Vector3::dot(&self.normal, &ray.origin)).div(dot);
        if t.lt(Scalar::zero()) {
            return None;
        }
        let position: Vector3 = ray.origin.add(ray.direction.mul(t));
        let away: Wide = wide_diff(&position, &ray.origin);
        Some(
            Hit::new(
                position,
                self.normal,
                length_wide(away.x as i64, away.y as i64, away.z as i64),
                0,
            ),
        )
    }
}

} // verus!
