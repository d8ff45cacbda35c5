//! Exact vector arithmetic on whole numbers of raw units.
//!
//! Differences of points, cross products and dot products are taken here
//! without rounding, in integers wide enough to hold them. The geometric
//! predicates rest on these.

use vstd::prelude::*;
use crate::scalar::{round_div, Scalar, SCALE};
use crate::vector3::{unit_of, unit_wide, Vector3};

verus! {

/// A vector of mathematical integers.
pub struct Int3 {
    pub x: int,
    pub y: int,
    pub z: int,
}

/// A vector of wide machine integers.
#[derive(Clone, Copy, Debug)]
pub struct Wide {
    pub x: i128,
    pub y: i128,
    pub z: i128,
}

impl View for Wide {
    type V = Int3;

    open spec fn view(&self) -> Int3 {
        Int3 { x: self.x as int, y: self.y as int, z: self.z as int }
    }
}

/// Every component has magnitude at most `m`.
pub open spec fn within(v: Int3, m: int) -> bool {
    &&& -m <= v.x <= m
    &&& -m <= v.y <= m
    &&& -m <= v.z <= m
}

/// The raw components of a vector.
pub open spec fn raw_of(v: Vector3) -> Int3 {
    Int3 { x: v.x@, y: v.y@, z: v.z@ }
}

/// The exact difference `a - b`.
pub open spec fn diff(a: Vector3, b: Vector3) -> Int3 {
    Int3 { x: a.x@ - b.x@, y: a.y@ - b.y@, z: a.z@ - b.z@ }
}

pub open spec fn neg3(v: Int3) -> Int3 {
    Int3 { x: -v.x, y: -v.y, z: -v.z }
}

pub open spec fn cross3(u: Int3, v: Int3) -> Int3 {
    Int3 { x: u.y * v.z - u.z * v.y, y: u.z * v.x - u.x * v.z, z: u.x * v.y - u.y * v.x }
}

pub open spec fn dot3(u: Int3, v: Int3) -> int {
    u.x * v.x + u.y * v.y + u.z * v.z
}

/// Half of `v`, rounded towards zero.
pub open spec fn halve(v: int) -> int {
    if v >= 0 {
        v / 2
    } else {
        -((-v) / 2)
    }
}

pub open spec fn halve3(v: Int3) -> Int3 {
    Int3 { x: halve(v.x), y: halve(v.y), z: halve(v.z) }
}

/// The sum of the magnitudes of the components.
pub open spec fn size3(v: Int3) -> nat {
    (if v.x >= 0 { v.x } else { -v.x } + if v.y >= 0 { v.y } else { -v.y } + if v.z >= 0 {
        v.z
    } else {
        -v.z
    }) as nat
}

/// The unit vector along `v`. A vector too long to be squared is halved
/// until it is short enough, which leaves its direction within a
/// thousand-millionth.
pub open spec fn unit_of_big(v: Int3) -> Vector3
    decreases size3(v),
{
    if within(v, 0x2_0000_0000) {
        unit_of(v.x, v.y, v.z)
    } else {
        unit_of_big(halve3(v))
    }
}

/// The sum `a * u + b * v + c * w` of raw numbers, rounded once to millionths.
pub open spec fn blend(a: int, b: int, c: int, u: int, v: int, w: int) -> Scalar {
    Scalar::of(round_div(a * u + b * v + c * w, SCALE as int))
}

pub proof fn lemma_product_bound(a: int, b: int, ma: int, mb: int)
    requires
        -ma <= a <= ma,
        -mb <= b <= mb,
    ensures
        -(ma * mb) <= a * b <= ma * mb,
{
    assert(-(ma * mb) <= a * b <= ma * mb) by (nonlinear_arith)
        requires
            -ma <= a <= ma,
            -mb <= b <= mb,
    ;
}

pub fn wide_of(v: &Vector3) -> (r: Wide)
    ensures
        r@ == raw_of(*v),
        within(r@, 0x8000_0000),
{
    Wide { x: v.x.raw as i128, y: v.y.raw as i128, z: v.z.raw as i128 }
}

pub fn wide_diff(a: &Vector3, b: &Vector3) -> (r: Wide)
    ensures
        r@ == diff(*a, *b),
        within(r@, 0x1_0000_0000),
{
    Wide {
        x: a.x.raw as i128 - b.x.raw as i128,
        y: a.y.raw as i128 - b.y.raw as i128,
        z: a.z.raw as i128 - b.z.raw as i128,
    }
}

pub fn wide_neg(v: &Wide) -> (r: Wide)
    requires
        within(v@, 0x1_0000_0000),
    ensures
        r@ == neg3(v@),
        within(r@, 0x1_0000_0000),
        within(v@, 0x8000_0000) ==> within(r@, 0x8000_0000),
{
    Wide { x: -v.x, y: -v.y, z: -v.z }
}

/// The cross product of two vectors whose components fit in 33 bits.
pub fn wide_cross(u: &Wide, v: &Wide) -> (r: Wide)
    requires
        within(u@, 0x1_0000_0000),
        within(v@, 0x1_0000_0000),
    ensures
        r@ == cross3(u@, v@),
        within(r@, 0x2_0000_0000_0000_0000),
{
    proof {
        lemma_product_bound(u.y as int, v.z as int, 0x1_0000_0000, 0x1_0000_0000);
        lemma_product_bound(u.z as int, v.y as int, 0x1_0000_0000, 0x1_0000_0000);
        lemma_product_bound(u.z as int, v.x as int, 0x1_0000_0000, 0x1_0000_0000);
        lemma_product_bound(u.x as int, v.z as int, 0x1_0000_0000, 0x1_0000_0000);
        lemma_product_bound(u.x as int, v.y as int, 0x1_0000_0000, 0x1_0000_0000);
        lemma_product_bound(u.y as int, v.x as int, 0x1_0000_0000, 0x1_0000_0000);
    }
    Wide { x: u.y * v.z - u.z * v.y, y: u.z * v.x - u.x * v.z, z: u.x * v.y - u.y * v.x }
}

/// The dot product of a vector that fits in 33 bits with one that fits in 66.
pub fn wide_dot(u: &Wide, v: &Wide) -> (r: i128)
    requires
        within(u@, 0x1_0000_0000),
        within(v@, 0x2_0000_0000_0000_0000),
    ensures
        r == dot3(u@, v@),
        -0x6_0000_0000_0000_0000_0000_0000 <= r <= 0x6_0000_0000_0000_0000_0000_0000,
{
    proof {
        lemma_product_bound(u.x as int, v.x as int, 0x1_0000_0000, 0x2_0000_0000_0000_0000);
        lemma_product_bound(u.y as int, v.y as int, 0x1_0000_0000, 0x2_0000_0000_0000_0000);
        lemma_product_bound(u.z as int, v.z as int, 0x1_0000_0000, 0x2_0000_0000_0000_0000);
    }
    u.x * v.x + u.y * v.y + u.z * v.z
}

fn halve_exec(v: i128) -> (r: i128)
    ensures
        r == halve(v as int),
{
    if v >= 0 {
        v / 2
    } else if v == i128::MIN {
        -0x4000_0000_0000_0000_0000_0000_0000_0000
    } else {
        -((-v) / 2)
    }
}

/// The unit vector along a vector whose components fit in 66 bits.
pub fn unit_big(v: &Wide) -> (r: Vector3)
    ensures
        r == unit_of_big(v@),
{
    let m: i128 = 0x2_0000_0000;
    let mut x: i128 = v.x;
    let mut y: i128 = v.y;
    let mut z: i128 = v.z;
    while !(-m <= x && x <= m && -m <= y && y <= m && -m <= z && z <= m)
        invariant
            m == 0x2_0000_0000,
            unit_of_big(Int3 { x: x as int, y: y as int, z: z as int }) == unit_of_big(v@),
        decreases size3(Int3 { x: x as int, y: y as int, z: z as int }),
    {
        x = halve_exec(x);
        y = halve_exec(y);
        z = halve_exec(z);
    }
    unit_wide(x as i64, y as i64, z as i64)
}

} // verus!
