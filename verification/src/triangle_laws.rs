//! What holds of every hit of a ray on a triangle.

use vstd::prelude::*;
use crate::bounds::{axis_holds, point_in_box, ray_meets_box};
use crate::limits::Limits;
use crate::ray::Ray;
use crate::scalar::{lemma_isqrt_exists, lemma_round_div_between_multiples, Scalar, SCALE};
use crate::vector3::lemma_unit_is_within_one;
use crate::tree::NodeObject;
use crate::triangle::{crossing, lemma_weights_bounds, max3, min3, triangle_hit, weights, Triangle};

use crate::wide::{blend, cross3, diff, dot3, neg3, raw_of, Int3};

verus! {

/// A weighted mean of three numbers lies between the least and the greatest of them.
pub proof fn lemma_mean_between(a: int, b: int, c: int, u: int, v: int, w: int, lo: int, hi: int)
    requires
        u >= 0,
        v >= 0,
        w >= 0,
        lo <= a <= hi,
        lo <= b <= hi,
        lo <= c <= hi,
    ensures
        lo * (u + v + w) <= a * u + b * v + c * w <= hi * (u + v + w),
{
    assert(lo * u <= a * u <= hi * u) by (nonlinear_arith)
        requires
            u >= 0,
            lo <= a <= hi,
    ;
    assert(lo * v <= b * v <= hi * v) by (nonlinear_arith)
        requires
            v >= 0,
            lo <= b <= hi,
    ;
    assert(lo * w <= c * w <= hi * w) by (nonlinear_arith)
        requires
            w >= 0,
            lo <= c <= hi,
    ;
    assert(lo * (u + v + w) == lo * u + lo * v + lo * w) by (nonlinear_arith);
    assert(hi * (u + v + w) == hi * u + hi * v + hi * w) by (nonlinear_arith);
}

/// The blend of three coordinates by weights that add up to one lies between
/// the least and the greatest of the coordinates.
pub proof fn lemma_blend_between(a: Scalar, b: Scalar, c: Scalar, u: int, v: int, w: int)
    requires
        u >= 0,
        v >= 0,
        w >= 0,
        u + v + w == SCALE,
    ensures
        min3(a, b, c)@ <= blend(a@, b@, c@, u, v, w)@ <= max3(a, b, c)@,
{
    let lo = min3(a, b, c)@;
    let hi = max3(a, b, c)@;
    lemma_mean_between(a@, b@, c@, u, v, w, lo, hi);
    lemma_round_div_between_multiples(a@ * u + b@ * v + c@ * w, SCALE as int, lo, hi);
}

/// The point of a hit is the corners weighted by numbers between zero and one
/// that add up to one, and so lies in the triangle, within the rounding of
/// its coordinates; in particular it lies in the triangle's box. The
/// distance of the hit is not negative, and no component of its normal
/// exceeds one.
pub proof fn lemma_hit_inside(tri: Triangle, ray: Ray)
    requires
        triangle_hit(tri, ray) is Some,
    ensures
        ({
            let coords = weights(crossing(tri, ray));
            let hit = triangle_hit(tri, ray)->0;
            &&& 0 <= coords.x@ <= SCALE
            &&& 0 <= coords.y@ <= SCALE
            &&& 0 <= coords.z@ <= SCALE
            &&& coords.x@ + coords.y@ + coords.z@ == SCALE
            &&& hit.position == tri.spec_position(coords)
            &&& tri.spec_bounds().spec_contains(hit.position)
            &&& hit.distance@ >= 0
            &&& -SCALE <= hit.normal.x@ <= SCALE
            &&& -SCALE <= hit.normal.y@ <= SCALE
            &&& -SCALE <= hit.normal.z@ <= SCALE
        }),
{
    let k = crossing(tri, ray);
    lemma_weights_bounds(k.v, k.w, k.det);
    let coords = weights(k);
    lemma_blend_between(tri.a.x, tri.b.x, tri.c.x, coords.x@, coords.y@, coords.z@);
    lemma_blend_between(tri.a.y, tri.b.y, tri.c.y, coords.x@, coords.y@, coords.z@);
    lemma_blend_between(tri.a.z, tri.b.z, tri.c.z, coords.x@, coords.y@, coords.z@);
    let hit = triangle_hit(tri, ray)->0;
    let away = diff(hit.position, ray.origin);
    assert(away.x * away.x >= 0 && away.y * away.y >= 0 && away.z * away.z >= 0)
        by (nonlinear_arith);
    lemma_isqrt_exists(away.x * away.x + away.y * away.y + away.z * away.z);
    let blended = tri.spec_normal(coords);
    lemma_unit_is_within_one(blended.x@, blended.y@, blended.z@);
}

/// A ray that hits the front of a triangle misses it when it is turned round:
/// the triangle cannot be hit from behind.
pub proof fn lemma_back_face_misses(tri: Triangle, ray: Ray, reversed: Ray)
    requires
        reversed.origin == ray.origin,
        raw_of(reversed.direction) == neg3(raw_of(ray.direction)),
        triangle_hit(tri, ray) is Some,
    ensures
        triangle_hit(tri, reversed) is None,
{
    let n = cross3(diff(tri.b, tri.a), diff(tri.c, tri.a));
    let q = neg3(raw_of(ray.direction));
    let r = neg3(raw_of(reversed.direction));
    assert(dot3(r, n) == -dot3(q, n)) by (nonlinear_arith)
        requires
            r.x == -q.x,
            r.y == -q.y,
            r.z == -q.z,
    ;
}

/// One coordinate of the expansion of a double cross product, over plain numbers.
proof fn lemma_double_cross_one(
    qa: int,
    qb: int,
    qc: int,
    pa: int,
    pb: int,
    pc: int,
    na: int,
    nb: int,
    nc: int,
    d: int,
    t: int,
)
    requires
        d == qa * na + qb * nb + qc * nc,
        t == pa * na + pb * nb + pc * nc,
    ensures
        d * pa - t * qa == (qc * pa - qa * pc) * nc - (qa * pb - qb * pa) * nb,
{
    let x = qa * na;
    let y = qb * nb;
    let z = qc * nc;
    let xs = pa * na;
    let ys = pb * nb;
    let zs = pc * nc;
    assert((x + y + z) * pa == x * pa + y * pa + z * pa) by (nonlinear_arith);
    assert((xs + ys + zs) * qa == xs * qa + ys * qa + zs * qa) by (nonlinear_arith);
    assert(x * pa == xs * qa) by (nonlinear_arith)
        requires
            x == qa * na,
            xs == pa * na,
    ;
    assert((qc * pa - qa * pc) * nc == z * pa - zs * qa) by (nonlinear_arith)
        requires
            z == qc * nc,
            zs == pc * nc,
    ;
    assert((qa * pb - qb * pa) * nb == ys * qa - y * pa) by (nonlinear_arith)
        requires
            y == qb * nb,
            ys == pb * nb,
    ;
}

/// The expansion of a double cross product:
/// `(q . n) p - (p . n) q == (q x p) x n`.
pub proof fn lemma_double_cross(q: Int3, p: Int3, n: Int3)
    ensures
        dot3(q, n) * p.x - dot3(p, n) * q.x == cross3(cross3(q, p), n).x,
        dot3(q, n) * p.y - dot3(p, n) * q.y == cross3(cross3(q, p), n).y,
        dot3(q, n) * p.z - dot3(p, n) * q.z == cross3(cross3(q, p), n).z,
{
    let d = dot3(q, n);
    let t = dot3(p, n);
    lemma_double_cross_one(q.x, q.y, q.z, p.x, p.y, p.z, n.x, n.y, n.z, d, t);
    lemma_double_cross_one(q.y, q.z, q.x, p.y, p.z, p.x, n.y, n.z, n.x, d, t);
    lemma_double_cross_one(q.z, q.x, q.y, p.z, p.x, p.y, n.z, n.x, n.y, d, t);
}

/// A cross product changes sign when its first factor does.
pub proof fn lemma_cross_of_negated(u: Int3, v: Int3, e: Int3)
    requires
        u == neg3(v),
    ensures
        cross3(u, e).x == cross3(e, v).x,
        cross3(u, e).y == cross3(e, v).y,
        cross3(u, e).z == cross3(e, v).z,
{
    assert(u.y * e.z - u.z * e.y == e.y * v.z - e.z * v.y) by (nonlinear_arith)
        requires
            u.y == -v.y,
            u.z == -v.z,
    ;
    assert(u.z * e.x - u.x * e.z == e.z * v.x - e.x * v.z) by (nonlinear_arith)
        requires
            u.x == -v.x,
            u.z == -v.z,
    ;
    assert(u.x * e.y - u.y * e.x == e.x * v.y - e.y * v.x) by (nonlinear_arith)
        requires
            u.x == -v.x,
            u.y == -v.y,
    ;
}

/// The cross product of two vectors in the other order is the negated one.
pub proof fn lemma_cross_swapped(a: Int3, c: Int3)
    ensures
        cross3(c, a) == neg3(cross3(a, c)),
{
    assert(c.y * a.z - c.z * a.y == -(a.y * c.z - a.z * c.y)) by (nonlinear_arith);
    assert(c.z * a.x - c.x * a.z == -(a.z * c.x - a.x * c.z)) by (nonlinear_arith);
    assert(c.x * a.y - c.y * a.x == -(a.x * c.y - a.y * c.x)) by (nonlinear_arith);
}

/// Cramer's rule for four vectors in space: with the triple products of
/// `crossing`, `det * ap - t * q == v * ab + w * ac`.
pub proof fn lemma_cramer(ab: Int3, ac: Int3, ap: Int3, q: Int3)
    ensures
        ({
            let n = cross3(ab, ac);
            let e = cross3(q, ap);
            &&& dot3(q, n) * ap.x - dot3(ap, n) * q.x == dot3(ac, e) * ab.x + (-dot3(ab, e))
                * ac.x
            &&& dot3(q, n) * ap.y - dot3(ap, n) * q.y == dot3(ac, e) * ab.y + (-dot3(ab, e))
                * ac.y
            &&& dot3(q, n) * ap.z - dot3(ap, n) * q.z == dot3(ac, e) * ab.z + (-dot3(ab, e))
                * ac.z
        }),
{
    let n = cross3(ab, ac);
    let e = cross3(q, ap);
    // Both sides equal e x n.
    lemma_double_cross(q, ap, n);
    lemma_double_cross(ac, ab, e);
    lemma_cross_swapped(ab, ac);
    lemma_cross_of_negated(cross3(ac, ab), n, e);
    let ve = dot3(ac, e);
    let we = dot3(ab, e);
    assert(ve * ab.x + (-we) * ac.x == ve * ab.x - we * ac.x) by (nonlinear_arith);
    assert(ve * ab.y + (-we) * ac.y == ve * ab.y - we * ac.y) by (nonlinear_arith);
    assert(ve * ab.z + (-we) * ac.z == ve * ab.z - we * ac.z) by (nonlinear_arith);
}

/// On one axis: the point of the ray at parameter `t / det` is the corners
/// weighted by `det - v - w`, `v` and `w`, and so lies within their span.
proof fn lemma_axis_in_span(
    a: Scalar,
    b: Scalar,
    c: Scalar,
    o: int,
    dir: int,
    det: int,
    t: int,
    v: int,
    w: int,
)
    requires
        det > 0,
        v >= 0,
        w >= 0,
        v + w <= det,
        det * (o - a@) - t * (-dir) == v * (b@ - a@) + w * (c@ - a@),
    ensures
        axis_holds(Limits { min: min3(a, b, c), max: max3(a, b, c) }, o, dir, t, det),
{
    let lo = min3(a, b, c)@;
    let hi = max3(a, b, c)@;
    let u = det - v - w;
    lemma_mean_between(a@, b@, c@, u, v, w, lo, hi);
    lemma_axis_point(a@, b@, c@, o, dir, det, t, v, w);
    assert(u * a@ == a@ * u && v * b@ == b@ * v && w * c@ == c@ * w) by (nonlinear_arith);
    assert(lo * (u + v + w) == det * lo && hi * (u + v + w) == det * hi) by (nonlinear_arith)
        requires
            u + v + w == det,
    ;
}

/// On one axis: the point of the ray at parameter `t / det` is the corners
/// weighted by `det - v - w`, `v` and `w`, all over `det`.
proof fn lemma_axis_point(a: int, b: int, c: int, o: int, dir: int, det: int, t: int, v: int, w: int)
    requires
        det * (o - a) - t * (-dir) == v * (b - a) + w * (c - a),
    ensures
        det * o + t * dir == (det - v - w) * a + v * b + w * c,
{
    assert(det * (o - a) == det * o - det * a) by (nonlinear_arith);
    assert(t * (-dir) == -(t * dir)) by (nonlinear_arith);
    assert(v * (b - a) == v * b - v * a) by (nonlinear_arith);
    assert(w * (c - a) == w * c - w * a) by (nonlinear_arith);
    assert((det - v - w) * a == det * a - v * a - w * a) by (nonlinear_arith);
}

/// Where a ray hits a triangle, the ray meets the plane of the triangle
/// within its edges: the point of the ray at the parameter `t / det`, which
/// is not negative, is the three corners weighted by `det - v - w`, `v` and
/// `w` over `det`, and these weights are not negative and add up to one.
/// All of this is exact.
pub proof fn lemma_crossing_point(tri: Triangle, ray: Ray)
    requires
        triangle_hit(tri, ray) is Some,
    ensures
        ({
            let k = crossing(tri, ray);
            let u = k.det - k.v - k.w;
            &&& k.det > 0
            &&& k.t >= 0
            &&& u >= 0 && k.v >= 0 && k.w >= 0
            &&& u + k.v + k.w == k.det
            &&& k.det * ray.origin.x@ + k.t * ray.direction.x@ == u * tri.a.x@ + k.v * tri.b.x@ + k.w
                * tri.c.x@
            &&& k.det * ray.origin.y@ + k.t * ray.direction.y@ == u * tri.a.y@ + k.v * tri.b.y@ + k.w
                * tri.c.y@
            &&& k.det * ray.origin.z@ + k.t * ray.direction.z@ == u * tri.a.z@ + k.v * tri.b.z@ + k.w
                * tri.c.z@
        }),
{
    let k = crossing(tri, ray);
    lemma_cramer(
        diff(tri.b, tri.a),
        diff(tri.c, tri.a),
        diff(ray.origin, tri.a),
        neg3(raw_of(ray.direction)),
    );
    lemma_axis_point(
        tri.a.x@,
        tri.b.x@,
        tri.c.x@,
        ray.origin.x@,
        ray.direction.x@,
        k.det,
        k.t,
        k.v,
        k.w,
    );
    lemma_axis_point(
        tri.a.y@,
        tri.b.y@,
        tri.c.y@,
        ray.origin.y@,
        ray.direction.y@,
        k.det,
        k.t,
        k.v,
        k.w,
    );
    lemma_axis_point(
        tri.a.z@,
        tri.b.z@,
        tri.c.z@,
        ray.origin.z@,
        ray.direction.z@,
        k.det,
        k.t,
        k.v,
        k.w,
    );
}

/// A ray that hits a triangle passes through the triangle's box.
pub proof fn lemma_hit_meets_box(tri: Triangle, ray: Ray)
    requires
        triangle_hit(tri, ray) is Some,
    ensures
        ray_meets_box(tri.spec_bounds(), ray),
{
    let k = crossing(tri, ray);
    let ab = diff(tri.b, tri.a);
    let ac = diff(tri.c, tri.a);
    let ap = diff(ray.origin, tri.a);
    let q = neg3(raw_of(ray.direction));
    lemma_cramer(ab, ac, ap, q);
    lemma_axis_in_span(
        tri.a.x,
        tri.b.x,
        tri.c.x,
        ray.origin.x@,
        ray.direction.x@,
        k.det,
        k.t,
        k.v,
        k.w,
    );
    lemma_axis_in_span(
        tri.a.y,
        tri.b.y,
        tri.c.y,
        ray.origin.y@,
        ray.direction.y@,
        k.det,
        k.t,
        k.v,
        k.w,
    );
    lemma_axis_in_span(
        tri.a.z,
        tri.b.z,
        tri.c.z,
        ray.origin.z@,
        ray.direction.z@,
        k.det,
        k.t,
        k.v,
        k.w,
    );
    assert(point_in_box(tri.spec_bounds(), ray, k.t, k.det));
}

impl NodeObject for Triangle {
    proof fn lemma_hit_in_bounds(&self, ray: Ray) {
        lemma_hit_meets_box(*self, ray);
    }
}

} // verus!
