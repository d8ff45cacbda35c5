//! Triangles and the exact test of a ray against one.

use vstd::prelude::*;
use crate::bounds::Bounds;
use crate::hit::Hit;
use crate::limits::Limits;
use crate::ray::Ray;
use crate::scalar::{clamp_i128, round_div, round_div_i128, Scalar, SCALE};
use crate::tree::{Bounded, Intersectable, Pivotable};
use crate::vector3::{length_of, length_wide, Axis, Vector3};
use crate::wide::{
    blend, cross3, diff, dot3, lemma_product_bound, neg3, raw_of, unit_big, unit_of_big,
    wide_cross, wide_diff, wide_dot, wide_neg, wide_of, Wide,
};

verus! {

/// A triangle with its centroid and normals, which are fixed when it is made.
#[derive(Clone, Copy, Debug, PartialEq, Eq, Structural)]
pub struct Triangle {
    pub a: Vector3,
    pub b: Vector3,
    pub c: Vector3,
    pub center: Vector3,
    pub normal: Vector3,
    pub a_normal: Vector3,
    pub b_normal: Vector3,
    pub c_normal: Vector3,
}

/// The centroid of three points: a third of their exact sum, rounded once.
pub open spec fn centroid(a: Vector3, b: Vector3, c: Vector3) -> Vector3 {
    Vector3 {
        x: Scalar::of(round_div(a.x@ + b.x@ + c.x@, 3)),
        y: Scalar::of(round_div(a.y@ + b.y@ + c.y@, 3)),
        z: Scalar::of(round_div(a.z@ + b.z@ + c.z@, 3)),
    }
}

/// The unit vector along the exact cross product `(p - o) x (q - o)`.
pub open spec fn corner_normal(o: Vector3, p: Vector3, q: Vector3) -> Vector3 {
    unit_of_big(cross3(diff(p, o), diff(q, o)))
}

/// The least of three numbers.
pub open spec fn min3(a: Scalar, b: Scalar, c: Scalar) -> Scalar {
    a.spec_min(b).spec_min(c)
}

/// The greatest of three numbers.
pub open spec fn max3(a: Scalar, b: Scalar, c: Scalar) -> Scalar {
    a.spec_max(b).spec_max(c)
}

/// The numbers that decide whether a ray hits a triangle, all exact.
///
/// With `n` the cross product of the edges `ab` and `ac`, `det` is the signed
/// volume spanned by the reversed ray direction and the two edges, `t` over
/// `det` is the parameter at which the ray meets the triangle's plane, and
/// `v` and `w` over `det` are the weights of the corners `b` and `c` at that
/// point.
pub struct Crossing {
    pub det: int,
    pub t: int,
    pub v: int,
    pub w: int,
}

pub open spec fn crossing(tri: Triangle, ray: Ray) -> Crossing {
    let ab = diff(tri.b, tri.a);
    let ac = diff(tri.c, tri.a);
    let qp = neg3(raw_of(ray.direction));
    let n = cross3(ab, ac);
    let ap = diff(ray.origin, tri.a);
    let e = cross3(qp, ap);
    Crossing { det: dot3(qp, n), t: dot3(ap, n), v: dot3(ac, e), w: -dot3(ab, e) }
}

/// The ray comes from the front and meets the plane inside the triangle, not
/// behind the ray's origin.
pub open spec fn accepts(k: Crossing) -> bool {
    &&& k.det > 0
    &&& k.t >= 0
    &&& 0 <= k.v <= k.det
    &&& 0 <= k.w
    &&& k.v + k.w <= k.det
}

/// The weights of the corners at the crossing, in millionths, rounded down
/// for `b` and `c`; the weight of `a` is what is left of one.
pub open spec fn weights(k: Crossing) -> Vector3 {
    let v = (k.v * SCALE) / k.det;
    let w = (k.w * SCALE) / k.det;
    Vector3 { x: Scalar::of(SCALE - v - w), y: Scalar::of(v), z: Scalar::of(w) }
}

/// What a ray hits of a triangle.
pub open spec fn triangle_hit(tri: Triangle, ray: Ray) -> Option<Hit> {
    let k = crossing(tri, ray);
    if accepts(k) {
        let coords = weights(k);
        let position = tri.spec_position(coords);
        let away = diff(position, ray.origin);
        Some(
            Hit {
                position,
                normal: tri.spec_normal(coords).spec_normalize(),
                distance: length_of(away.x, away.y, away.z),
                material_index: 0,
            },
        )
    } else {
        None
    }
}

fn blend_exec(a: Scalar, b: Scalar, c: Scalar, u: Scalar, v: Scalar, w: Scalar) -> (r: Scalar)
    ensures
        r == blend(a@, b@, c@, u@, v@, w@),
{
    proof {
        lemma_product_bound(a@, u@, 0x8000_0000, 0x8000_0000);
        lemma_product_bound(b@, v@, 0x8000_0000, 0x8000_0000);
        lemma_product_bound(c@, w@, 0x8000_0000, 0x8000_0000);
    }
    let s: i128 = a.raw as i128 * u.raw as i128 + b.raw as i128 * v.raw as i128 + c.raw as i128
        * w.raw as i128;
    Scalar::from_raw(clamp_i128(round_div_i128(s, 1_000_000)))
}

fn corner_normal_exec(o: &Vector3, p: &Vector3, q: &Vector3) -> (r: Vector3)
    ensures
        r == corner_normal(*o, *p, *q),
{
    let u: Wide = wide_diff(p, o);
    let v: Wide = wide_diff(q, o);
    let n: Wide = wide_cross(&u, &v);
    unit_big(&n)
}

fn third(a: Scalar, b: Scalar, c: Scalar) -> (r: Scalar)
    ensures
        r == Scalar::of(round_div(a@ + b@ + c@, 3)),
{
    let s: i128 = a.raw as i128 + b.raw as i128 + c.raw as i128;
    Scalar::from_raw(clamp_i128(round_div_i128(s, 3)))
}

impl Triangle {
    /// The weighted sum of the corners, each component rounded once.
    pub open spec fn spec_position(self, coords: Vector3) -> Vector3 {
        Vector3 {
            x: blend(self.a.x@, self.b.x@, self.c.x@, coords.x@, coords.y@, coords.z@),
            y: blend(self.a.y@, self.b.y@, self.c.y@, coords.x@, coords.y@, coords.z@),
            z: blend(self.a.z@, self.b.z@, self.c.z@, coords.x@, coords.y@, coords.z@),
        }
    }

    /// The weighted sum of the corner normals, each component rounded once.
    pub open spec fn spec_normal(self, coords: Vector3) -> Vector3 {
        Vector3 {
            x: blend(
                self.a_normal.x@,
                self.b_normal.x@,
                self.c_normal.x@,
                coords.x@,
                coords.y@,
                coords.z@,
            ),
            y: blend(
                self.a_normal.y@,
                self.b_normal.y@,
                self.c_normal.y@,
                coords.x@,
                coords.y@,
                coords.z@,
            ),
            z: blend(
                self.a_normal.z@,
                self.b_normal.z@,
                self.c_normal.z@,
                coords.x@,
                coords.y@,
                coords.z@,
            ),
        }
    }

    /// The interval that the three corners span on one axis.
    pub open spec fn spec_limits(self, axis: Axis) -> Limits {
        Limits {
            min: min3(
                self.a.spec_component(axis),
                self.b.spec_component(axis),
                self.c.spec_component(axis),
            ),
            max: max3(
                self.a.spec_component(axis),
                self.b.spec_component(axis),
                self.c.spec_component(axis),
            ),
        }
    }

    /// The box that the three corners span.
    pub open spec fn spec_bounds(self) -> Bounds {
        Bounds {
            x: self.spec_limits(Axis::X),
            y: self.spec_limits(Axis::Y),
            z: self.spec_limits(Axis::Z),
        }
    }

    /// The triangle with corners `a`, `b`, `c`. Seen from the side that its
    /// normal points to, the corners run clockwise.
    pub fn new(a: Vector3, b: Vector3, c: Vector3) -> (t: Triangle)
        ensures
            t.a == a && t.b == b && t.c == c,
            t.center == centroid(a, b, c),
            t.normal == corner_normal(a, b, c),
            t.a_normal == corner_normal(a, b, t.center),
            t.b_normal == corner_normal(b, c, t.center),
            t.c_normal == corner_normal(c, a, t.center),
    {
        let center: Vector3 = Vector3::new(
            third(a.x, b.x, c.x),
            third(a.y, b.y, c.y),
            third(a.z, b.z, c.z),
        );
        let normal: Vector3 = corner_normal_exec(&a, &b, &c);
        let a_normal: Vector3 = corner_normal_exec(&a, &b, &center);
        let b_normal: Vector3 = corner_normal_exec(&b, &c, &center);
        let c_normal: Vector3 = corner_normal_exec(&c, &a, &center);
        Triangle { a, b, c, center, normal, a_normal, b_normal, c_normal }
    }

    /// The point with the given weights of the three corners.
    pub fn get_position(&self, coords: Vector3) -> (p: Vector3)
        ensures
            p == self.spec_position(coords),
    {
        Vector3::new(
            blend_exec(self.a.x, self.b.x, self.c.x, coords.x, coords.y, coords.z),
            blend_exec(self.a.y, self.b.y, self.c.y, coords.x, coords.y, coords.z),
            blend_exec(self.a.z, self.b.z, self.c.z, coords.x, coords.y, coords.z),
        )
    }

    /// The normal with the given weights of the three corner normals; not of length one.
    pub fn get_normal(&self, coords: Vector3) -> (n: Vector3)
        ensures
            n == self.spec_normal(coords),
    {
        Vector3::new(
            blend_exec(
                self.a_normal.x,
                self.b_normal.x,
                self.c_normal.x,
                coords.x,
                coords.y,
                coords.z,
            ),
            blend_exec(
                self.a_normal.y,
                self.b_normal.y,
                self.c_normal.y,
                coords.x,
                coords.y,
                coords.z,
            ),
            blend_exec(
                self.a_normal.z,
                self.b_normal.z,
                self.c_normal.z,
                coords.x,
                coords.y,
                coords.z,
            ),
        )
    }

    pub fn get_limits(&self, axis: &Axis) -> (l: Limits)
        ensures
            l == self.spec_limits(*axis),
            l.wf(),
    {
        let a: Scalar = self.a.get_component(axis);
        let b: Scalar = self.b.get_component(axis);
        let c: Scalar = self.c.get_component(axis);
        Limits::new(a.min(b).min(c), a.max(b).max(c))
    }
}

impl Pivotable for Triangle {
    open spec fn pivot_spec(&self) -> Vector3 {
        self.center
    }

    fn get_pivot(&self) -> (p: Vector3) {
        self.center
    }

    fn get_pivot_component(&self, axis: &Axis) -> (c: Scalar) {
        self.center.get_component(axis)
    }
}

impl Bounded for Triangle {
    open spec fn bounds_spec(&self) -> Bounds {
        self.spec_bounds()
    }

    fn get_bounds(&self) -> (b: Bounds) {
        Bounds::new(
            self.get_limits(&Axis::X),
            self.get_limits(&Axis::Y),
            self.get_limits(&Axis::Z),
        )
    }
}

impl Intersectable for Triangle {
    open spec fn hit_spec(&self, ray: Ray) -> Option<Hit> {
        triangle_hit(*self, ray)
    }

    /// The hit of a ray on the front of the triangle, if there is one.
    ///
    /// Whether the ray hits is decided in exact arithmetic. The position is
    /// the corners weighted by the crossing's weights, and the distance is
    /// the length from the ray's origin to that position, whatever the
    /// length of the ray's direction.
    fn ray_intersects(&self, ray: &Ray) -> (h: Option<Hit>)
        ensures
            h matches Some(hit) ==> hit.distance@ >= 0 && hit.material_index == 0,
    {
        let ab: Wide = wide_diff(&self.b, &self.a);
        let ac: Wide = wide_diff(&self.c, &self.a);
        let dir: Wide = wide_of(&ray.direction);
        let qp: Wide = wide_neg(&dir);
        let n: Wide = wide_cross(&ab, &ac);
        let det: i128 = wide_dot(&qp, &n);
        if det <= 0 {
            return None;
        }
        let ap: Wide = wide_diff(&ray.origin, &self.a);
        let t: i128 = wide_dot(&ap, &n);
        if t < 0 {
            return None;
        }
        let e: Wide = wide_cross(&qp, &ap);
        let v: i128 = wide_dot(&ac, &e);
        if v < 0 || v > det {
            return None;
        }
        let w: i128 = -wide_dot(&ab, &e);
        if w < 0 || v + w > det {
            return None;
        }
        let vf: i128 = (v * 1_000_000) / det;
        let wf: i128 = (w * 1_000_000) / det;
        proof {
            lemma_weights_bounds(v as int, w as int, det as int);
        }
        let uf: i128 = 1_000_000 - vf - wf;
        let coords: Vector3 = Vector3::new(
            Scalar::from_raw(uf as i32),
            Scalar::from_raw(vf as i32),
            Scalar::from_raw(wf as i32),
        );
        let position: Vector3 = self.get_position(coords);
        let away: Wide = wide_diff(&position, &ray.origin);
        Some(
            Hit::new(
                position,
                self.get_normal(coords).normalize(),
                length_wide(away.x as i64, away.y as i64, away.z as i64),
                0,
            ),
        )
    }
}

/// The weights of an accepted crossing lie between zero and one and add up to one.
pub proof fn lemma_weights_bounds(v: int, w: int, det: int)
    requires
        det > 0,
        0 <= v,
        0 <= w,
        v + w <= det,
    ensures
        0 <= (v * SCALE) / det <= SCALE,
        0 <= (w * SCALE) / det <= SCALE,
        0 <= SCALE - (v * SCALE) / det - (w * SCALE) / det <= SCALE,
{
    let s = SCALE as int;
    let vf = (v * s) / det;
    let wf = (w * s) / det;
    assert(0 <= vf && vf * det <= v * s) by (nonlinear_arith)
        requires
            vf == (v * s) / det,
            det > 0,
            v >= 0,
            s > 0,
    ;
    assert(0 <= wf && wf * det <= w * s) by (nonlinear_arith)
        requires
            wf == (w * s) / det,
            det > 0,
            w >= 0,
            s > 0,
    ;
    assert((vf + wf) * det <= s * det) by (nonlinear_arith)
        requires
            vf * det <= v * s,
            wf * det <= w * s,
            v + w <= det,
            s > 0,
    ;
    assert(vf + wf <= s) by (nonlinear_arith)
        requires
            (vf + wf) * det <= s * det,
            det > 0,
    ;
}

} // verus!
