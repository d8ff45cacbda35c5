//! Axis-aligned boxes and the exact test of a ray against one.

use vstd::prelude::*;
use crate::limits::Limits;
use crate::ray::Ray;
use crate::vector3::{Axis, Vector3};

verus! {

/// A box with faces parallel to the coordinate planes: one interval per axis.
#[derive(Clone, Copy, Debug, PartialEq, Eq, Structural)]
pub struct Bounds {
    pub x: Limits,
    pub y: Limits,
    pub z: Limits,
}

/// On one axis, the point of a ray at parameter `n / d` lies within `l`.
///
/// The ray starts at raw coordinate `o` and advances by `dir` per unit of the
/// parameter. The inequality is multiplied through by `d`, which is positive.
pub open spec fn axis_holds(l: Limits, o: int, dir: int, n: int, d: int) -> bool {
    d * l.min@ <= d * o + n * dir <= d * l.max@
}

/// The point of `ray` at parameter `n / d` lies in the box.
pub open spec fn point_in_box(b: Bounds, ray: Ray, n: int, d: int) -> bool {
    &&& axis_holds(b.x, ray.origin.x@, ray.direction.x@, n, d)
    &&& axis_holds(b.y, ray.origin.y@, ray.direction.y@, n, d)
    &&& axis_holds(b.z, ray.origin.z@, ray.direction.z@, n, d)
}

/// Some point of the ray, at a parameter that is not negative, lies in the box.
///
/// The parameter ranges over the fractions `n / d`. Since all coordinates are
/// whole numbers of raw units, a real parameter exists exactly when a
/// fraction does.
pub open spec fn ray_meets_box(b: Bounds, ray: Ray) -> bool {
    exists|n: int, d: int| n >= 0 && d > 0 && #[trigger] point_in_box(b, ray, n, d)
}

/// The size of a direction component, or one where the ray is parallel to the slab.
pub open spec fn factor(dir: int) -> int {
    if dir == 0 {
        1
    } else if dir < 0 {
        -dir
    } else {
        dir
    }
}

/// Where the ray enters the slab: this over `factor(dir)` is the parameter.
pub open spec fn near_num(l: Limits, o: int, dir: int) -> int {
    if dir > 0 {
        l.min@ - o
    } else {
        o - l.max@
    }
}

/// Where the ray leaves the slab: this over `factor(dir)` is the parameter.
pub open spec fn far_num(l: Limits, o: int, dir: int) -> int {
    if dir > 0 {
        l.max@ - o
    } else {
        o - l.min@
    }
}

/// A parameter between entry and exit of a slab puts the point inside the slab.
pub proof fn lemma_span_sound(l: Limits, o: int, dir: int, p: int, lo: int)
    requires
        dir != 0,
        p > 0,
        near_num(l, o, dir) * p <= lo <= far_num(l, o, dir) * p,
    ensures
        axis_holds(l, o, dir, lo, p * factor(dir)),
{
    let lmin = l.min@;
    let lmax = l.max@;
    if dir > 0 {
        assert((p * dir) * lmin <= (p * dir) * o + lo * dir <= (p * dir) * lmax)
            by (nonlinear_arith)
            requires
                dir > 0,
                p > 0,
                (lmin - o) * p <= lo <= (lmax - o) * p,
        ;
    } else {
        assert((p * (-dir)) * lmin <= (p * (-dir)) * o + lo * dir <= (p * (-dir)) * lmax)
            by (nonlinear_arith)
            requires
                dir < 0,
                p > 0,
                (o - lmax) * p <= lo <= (o - lmin) * p,
        ;
    }
}

/// A parameter that puts the point inside a slab lies between entry and exit.
pub proof fn lemma_span_complete(l: Limits, o: int, dir: int, p: int, n: int, d: int)
    requires
        dir != 0,
        p > 0,
        d > 0,
        axis_holds(l, o, dir, n, d),
    ensures
        d * (near_num(l, o, dir) * p) <= n * (p * factor(dir)) <= d * (far_num(l, o, dir) * p),
{
    let lmin = l.min@;
    let lmax = l.max@;
    if dir > 0 {
        assert(d * ((lmin - o) * p) <= n * (p * dir) <= d * ((lmax - o) * p)) by (nonlinear_arith)
            requires
                p > 0,
                d * lmin <= d * o + n * dir <= d * lmax,
        ;
    } else {
        assert(d * ((o - lmax) * p) <= n * (p * (-dir)) <= d * ((o - lmin) * p))
            by (nonlinear_arith)
            requires
                p > 0,
                d * lmin <= d * o + n * dir <= d * lmax,
        ;
    }
}

/// Where the ray runs parallel to a slab, only the origin decides.
pub proof fn lemma_parallel(l: Limits, o: int, n: int, d: int)
    requires
        d > 0,
    ensures
        axis_holds(l, o, 0, n, d) <==> l.holds(o),
{
    let lmin = l.min@;
    let lmax = l.max@;
    assert((d * lmin <= d * o + n * 0) <==> lmin <= o) by (nonlinear_arith)
        requires
            d > 0,
    ;
    assert((d * o + n * 0 <= d * lmax) <==> o <= lmax) by (nonlinear_arith)
        requires
            d > 0,
    ;
}

/// A positive factor can be cancelled from both sides of an inequality.
pub proof fn lemma_cancel(d: int, a: int, b: int)
    requires
        d > 0,
        d * a <= d * b,
    ensures
        a <= b,
{
    assert(a <= b) by (nonlinear_arith)
        requires
            d > 0,
            d * a <= d * b,
    ;
}

/// The entry and exit of one slab, scaled by `p`.
fn span(l: &Limits, o: i32, dir: i32, p: i128) -> (r: (i128, i128))
    requires
        0 < p <= 0x4000_0000_0000_0000,
    ensures
        r.0 == near_num(*l, o as int, dir as int) * p,
        r.1 == far_num(*l, o as int, dir as int) * p,
{
    let near: i128 = if dir > 0 {
        l.min.raw as i128 - o as i128
    } else {
        o as i128 - l.max.raw as i128
    };
    let far: i128 = if dir > 0 {
        l.max.raw as i128 - o as i128
    } else {
        o as i128 - l.min.raw as i128
    };
    assert(-0x4000_0000_0000_0000_0000_0000 <= near * p <= 0x4000_0000_0000_0000_0000_0000)
        by (nonlinear_arith)
        requires
            -0x1_0000_0000 <= near <= 0x1_0000_0000,
            0 < p <= 0x4000_0000_0000_0000,
    ;
    assert(-0x4000_0000_0000_0000_0000_0000 <= far * p <= 0x4000_0000_0000_0000_0000_0000)
        by (nonlinear_arith)
        requires
            -0x1_0000_0000 <= far <= 0x1_0000_0000,
            0 < p <= 0x4000_0000_0000_0000,
    ;
    (near * p, far * p)
}

fn factor_of(dir: i32) -> (f: i128)
    ensures
        f == factor(dir as int),
        0 < f <= 0x8000_0000,
{
    if dir == 0 {
        1
    } else if dir < 0 {
        -(dir as i128)
    } else {
        dir as i128
    }
}

impl Bounds {
    /// Each of the three intervals has its ends in order.
    pub open spec fn wf(self) -> bool {
        self.x.wf() && self.y.wf() && self.z.wf()
    }

    pub open spec fn spec_limits(self, axis: Axis) -> Limits {
        match axis {
            Axis::X => self.x,
            Axis::Y => self.y,
            Axis::Z => self.z,
        }
    }

    pub open spec fn spec_contains(self, v: Vector3) -> bool {
        self.x.spec_contains(v.x) && self.y.spec_contains(v.y) && self.z.spec_contains(v.z)
    }

    /// The two boxes share a point.
    pub open spec fn spec_intersects(self, other: Bounds) -> bool {
        self.x.spec_intersects(other.x) && self.y.spec_intersects(other.y)
            && self.z.spec_intersects(other.z)
    }

    /// Every point of `inner` lies in this box.
    pub open spec fn covers(self, inner: Bounds) -> bool {
        self.x.covers(inner.x) && self.y.covers(inner.y) && self.z.covers(inner.z)
    }

    /// The smallest box that covers both.
    pub open spec fn spec_merge(self, rhs: Bounds) -> Bounds {
        Bounds {
            x: self.x.spec_merge(rhs.x),
            y: self.y.spec_merge(rhs.y),
            z: self.z.spec_merge(rhs.z),
        }
    }

    pub fn new(x: Limits, y: Limits, z: Limits) -> (b: Bounds)
        ensures
            b == (Bounds { x, y, z }),
    {
        Bounds { x, y, z }
    }

    /// The box spanned by two corners, given in any order.
    pub fn from_vectors(min: Vector3, max: Vector3) -> (b: Bounds)
        ensures
            b.wf(),
            b.x.min == min.x.spec_min(max.x) && b.x.max == max.x.spec_max(min.x),
            b.y.min == min.y.spec_min(max.y) && b.y.max == max.y.spec_max(min.y),
            b.z.min == min.z.spec_min(max.z) && b.z.max == max.z.spec_max(min.z),
    {
        Bounds {
            x: Limits::new(min.get_x(), max.get_x()),
            y: Limits::new(min.get_y(), max.get_y()),
            z: Limits::new(min.get_z(), max.get_z()),
        }
    }

    /// The box that holds the single point `v`.
    pub fn from_vector(v: Vector3) -> (b: Bounds)
        ensures
            b.wf(),
            b.x.min == v.x && b.x.max == v.x,
            b.y.min == v.y && b.y.max == v.y,
            b.z.min == v.z && b.z.max == v.z,
    {
        Bounds::from_vectors(v, v)
    }

    /// Widens the box on one axis to take in `limits`.
    pub fn extend(&mut self, limits: Limits, axis: Axis)
        ensures
            final(self).spec_limits(axis) == old(self).spec_limits(axis).spec_merge(limits),
            forall|other: Axis|
                other != axis ==> final(self).spec_limits(other) == old(self).spec_limits(other),
    {
        match axis {
            Axis::X => {
                self.x.add_assign(limits);
            },
            Axis::Y => {
                self.y.add_assign(limits);
            },
            Axis::Z => {
                self.z.add_assign(limits);
            },
        }
    }

    /// The corner with the least coordinates.
    pub fn minimum(&self) -> (v: Vector3)
        ensures
            v.x == self.x.min && v.y == self.y.min && v.z == self.z.min,
    {
        Vector3::new(self.x.min, self.y.min, self.z.min)
    }

    /// The corner with the greatest coordinates.
    pub fn maximum(&self) -> (v: Vector3)
        ensures
            v.x == self.x.max && v.y == self.y.max && v.z == self.z.max,
    {
        Vector3::new(self.x.max, self.y.max, self.z.max)
    }

    pub fn get_limits(&self, axis: &Axis) -> (l: Limits)
        ensures
            l == self.spec_limits(*axis),
    {
        match axis {
            Axis::X => self.x,
            Axis::Y => self.y,
            Axis::Z => self.z,
        }
    }

    pub fn contains(&self, vector: Vector3) -> (b: bool)
        ensures
            b == self.spec_contains(vector),
    {
        self.x.contains(vector.get_x()) && self.y.contains(vector.get_y()) && self.z.contains(
            vector.get_z(),
        )
    }

    pub fn intersects(&self, other: &Bounds) -> (b: bool)
        ensures
            b == self.spec_intersects(*other),
    {
        self.x.intersects(&other.x) && self.y.intersects(&other.y) && self.z.intersects(&other.z)
    }

    /// Whether the ray passes through the box, by the slab method in exact arithmetic.
    ///
    /// On an axis along which the ray does not move, the origin must lie in
    /// the slab. On every other axis the ray enters and leaves the slab at two
    /// parameters; the ray meets the box when the latest entry, or zero if
    /// that is later, is not after the earliest exit. All parameters are
    /// brought to the common denominator of the three direction components,
    /// so that nothing is rounded.
    pub fn ray_intersects(&self, ray: &Ray) -> (hit: bool)
        ensures
            hit == ray_meets_box(*self, *ray),
    {
        let ox: i32 = ray.origin.x.raw;
        let oy: i32 = ray.origin.y.raw;
        let oz: i32 = ray.origin.z.raw;
        let dx: i32 = ray.direction.x.raw;
        let dy: i32 = ray.direction.y.raw;
        let dz: i32 = ray.direction.z.raw;
        if dx == 0 && !(self.x.min.raw <= ox && ox <= self.x.max.raw) {
            proof {
                assert forall|n: int, d: int| n >= 0 && d > 0 implies !#[trigger] point_in_box(
                    *self,
                    *ray,
                    n,
                    d,
                ) by {
                    lemma_parallel(self.x, ox as int, n, d);
                }
            }
            return false;
        }
        if dy == 0 && !(self.y.min.raw <= oy && oy <= self.y.max.raw) {
            proof {
                assert forall|n: int, d: int| n >= 0 && d > 0 implies !#[trigger] point_in_box(
                    *self,
                    *ray,
                    n,
                    d,
                ) by {
                    lemma_parallel(self.y, oy as int, n, d);
                }
            }
            return false;
        }
        if dz == 0 && !(self.z.min.raw <= oz && oz <= self.z.max.raw) {
            proof {
                assert forall|n: int, d: int| n >= 0 && d > 0 implies !#[trigger] point_in_box(
                    *self,
                    *ray,
                    n,
                    d,
                ) by {
                    lemma_parallel(self.z, oz as int, n, d);
                }
            }
            return false;
        }
        let fx: i128 = factor_of(dx);
        let fy: i128 = factor_of(dy);
        let fz: i128 = factor_of(dz);
        assert(0 < fy * fz <= 0x4000_0000_0000_0000 && 0 < fx * fz <= 0x4000_0000_0000_0000 && 0
            < fx * fy <= 0x4000_0000_0000_0000) by (nonlinear_arith)
            requires
                0 < fx <= 0x8000_0000,
                0 < fy <= 0x8000_0000,
                0 < fz <= 0x8000_0000,
        ;
        let px: i128 = fy * fz;
        let py: i128 = fx * fz;
        let pz: i128 = fx * fy;
        let ghost big: int = px * fx;
        proof {
            assert(big == py * fy && big == pz * fz && big > 0) by (nonlinear_arith)
                requires
                    big == px * fx,
                    px == fy * fz,
                    py == fx * fz,
                    pz == fx * fy,
                    fx > 0,
                    fy > 0,
                    fz > 0,
            ;
        }
        let (near_x, far_x) = span(&self.x, ox, dx, px);
        let (near_y, far_y) = span(&self.y, oy, dy, py);
        let (near_z, far_z) = span(&self.z, oz, dz, pz);
        let mut lo: i128 = 0;
        if dx != 0 && near_x > lo {
            lo = near_x;
        }
        if dy != 0 && near_y > lo {
            lo = near_y;
        }
        if dz != 0 && near_z > lo {
            lo = near_z;
        }
        let hit: bool = (dx == 0 || lo <= far_x) && (dy == 0 || lo <= far_y) && (dz == 0 || lo
            <= far_z);
        proof {
            if hit {
                if dx != 0 {
                    lemma_span_sound(self.x, ox as int, dx as int, px as int, lo as int);
                } else {
                    lemma_parallel(self.x, ox as int, lo as int, big);
                }
                if dy != 0 {
                    lemma_span_sound(self.y, oy as int, dy as int, py as int, lo as int);
                } else {
                    lemma_parallel(self.y, oy as int, lo as int, big);
                }
                if dz != 0 {
                    lemma_span_sound(self.z, oz as int, dz as int, pz as int, lo as int);
                } else {
                    lemma_parallel(self.z, oz as int, lo as int, big);
                }
                assert(point_in_box(*self, *ray, lo as int, big));
            } else {
                assert forall|n: int, d: int| n >= 0 && d > 0 implies !#[trigger] point_in_box(
                    *self,
                    *ray,
                    n,
                    d,
                ) by {
                    if point_in_box(*self, *ray, n, d) {
                        if dx != 0 {
                            lemma_span_complete(self.x, ox as int, dx as int, px as int, n, d);
                        }
                        if dy != 0 {
                            lemma_span_complete(self.y, oy as int, dy as int, py as int, n, d);
                        }
                        if dz != 0 {
                            lemma_span_complete(self.z, oz as int, dz as int, pz as int, n, d);
                        }
                        assert(0 <= n * big) by (nonlinear_arith)
                            requires
                                n >= 0,
                                big > 0,
                        ;
                        assert(d * 0 == 0);
                        assert(d * lo <= n * big);
                        if dx != 0 && lo > far_x {
                            lemma_cancel(d, lo as int, far_x as int);
                        }
                        if dy != 0 && lo > far_y {
                            lemma_cancel(d, lo as int, far_y as int);
                        }
                        if dz != 0 && lo > far_z {
                            lemma_cancel(d, lo as int, far_z as int);
                        }
                    }
                }
            }
        }
        hit
    }

    /// Widens this box to the union with `rhs`.
    pub fn add_assign(&mut self, rhs: Bounds)
        ensures
            *final(self) == old(self).spec_merge(rhs),
            final(self).covers(*old(self)),
            final(self).covers(rhs),
            old(self).wf() ==> final(self).wf(),
    {
        self.x.add_assign(rhs.x);
        self.y.add_assign(rhs.y);
        self.z.add_assign(rhs.z);
    }
}

impl Default for Bounds {
    fn default() -> (b: Bounds)
        ensures
            b.wf(),
            b.x.min@ == 0 && b.x.max@ == 0,
            b.y.min@ == 0 && b.y.max@ == 0,
            b.z.min@ == 0 && b.z.max@ == 0,
    {
        Bounds { x: Limits::default(), y: Limits::default(), z: Limits::default() }
    }
}

} // verus!
