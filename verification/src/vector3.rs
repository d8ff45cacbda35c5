//! Three-component vectors of fixed-point numbers.

use vstd::prelude::*;
use crate::scalar::{clamp_i128, isqrt, isqrt_u128, round_div, round_div_i128, Scalar, SCALE};

verus! {

/// One of the three coordinate axes.
#[derive(Clone, Copy, Debug, PartialEq, Eq, Structural)]
pub enum Axis {
    X,
    Y,
    Z,
}

impl Axis {
    pub open spec fn spec_next(self) -> Axis {
        match self {
            Axis::X => Axis::Y,
            Axis::Y => Axis::Z,
            Axis::Z => Axis::X,
        }
    }

    /// The axis that follows this one in the cycle X, Y, Z, X.
    pub fn next(&self) -> (a: Axis)
        ensures
            a == self.spec_next(),
    {
        match self {
            Axis::X => Axis::Y,
            Axis::Y => Axis::Z,
            Axis::Z => Axis::X,
        }
    }
}

/// A point or a direction in space.
#[derive(Clone, Copy, Debug, PartialEq, Eq, Structural)]
pub struct Vector3 {
    pub x: Scalar,
    pub y: Scalar,
    pub z: Scalar,
}

/// The exact dot product of two vectors, in squared raw units.
pub open spec fn dot_raw(a: Vector3, b: Vector3) -> int {
    a.x@ * b.x@ + a.y@ * b.y@ + a.z@ * b.z@
}

/// The vector of length one (or zero) along the raw direction `(x, y, z)`.
///
/// Each component is divided by the length and rounded to the nearest
/// millionth. The length is taken as an integer square root with twenty
/// binary places more than a raw unit, so that short vectors keep their
/// direction too. The zero vector, which has no direction, stays zero.
pub open spec fn unit_of(x: int, y: int, z: int) -> Vector3 {
    let n = isqrt((x * x + y * y + z * z) * 0x100_0000_0000);
    if n == 0 {
        Vector3 { x: Scalar::of(0), y: Scalar::of(0), z: Scalar::of(0) }
    } else {
        Vector3 {
            x: Scalar::of(round_div(x * SCALE * 0x10_0000, n)),
            y: Scalar::of(round_div(y * SCALE * 0x10_0000, n)),
            z: Scalar::of(round_div(z * SCALE * 0x10_0000, n)),
        }
    }
}

/// The length of the raw vector `(x, y, z)`, rounded down.
pub open spec fn length_of(x: int, y: int, z: int) -> Scalar {
    Scalar::of(isqrt(x * x + y * y + z * z))
}

/// No component of a unit vector is more than one, or less than minus one:
/// normalizing never runs into the ends of the range.
pub proof fn lemma_unit_is_within_one(x: int, y: int, z: int)
    ensures
        -SCALE <= unit_of(x, y, z).x@ <= SCALE,
        -SCALE <= unit_of(x, y, z).y@ <= SCALE,
        -SCALE <= unit_of(x, y, z).z@ <= SCALE,
{
    let sum = x * x + y * y + z * z;
    assert(x * x >= 0 && y * y >= 0 && z * z >= 0) by (nonlinear_arith);
    let n = isqrt(sum * 0x100_0000_0000);
    if n != 0 {
        lemma_component_within_one(x, sum, n);
        lemma_component_within_one(y, sum, n);
        lemma_component_within_one(z, sum, n);
    }
}

/// One component of a vector, over the length of the vector, is at most one.
proof fn lemma_component_within_one(c: int, sum: int, n: int)
    requires
        c * c <= sum,
        n == isqrt(sum * 0x100_0000_0000),
        n != 0,
    ensures
        -SCALE <= Scalar::of(round_div(c * SCALE * 0x10_0000, n))@ <= SCALE,
{
    let a = if c >= 0 {
        c
    } else {
        -c
    };
    assert(a * a == c * c) by (nonlinear_arith)
        requires
            a == c || a == -c,
    ;
    assert((a * 0x10_0000) * (a * 0x10_0000) == (a * a) * 0x100_0000_0000) by (nonlinear_arith);
    assert((a * a) * 0x100_0000_0000 <= sum * 0x100_0000_0000) by (nonlinear_arith)
        requires
            a * a <= sum,
    ;
    assert(a * 0x10_0000 >= 0);
    crate::scalar::lemma_isqrt_bounds_roots(sum * 0x100_0000_0000, a * 0x10_0000);
    crate::scalar::lemma_isqrt_exists(sum * 0x100_0000_0000);
    assert(n > 0);
    // |c| * 2^20 <= n, so |c| * 2^20 * SCALE <= n * SCALE.
    assert(a * SCALE * 0x10_0000 <= SCALE * n) by (nonlinear_arith)
        requires
            a * 0x10_0000 <= n,
    ;
    assert(c * SCALE * 0x10_0000 == a * SCALE * 0x10_0000 || c * SCALE * 0x10_0000 == -(a * SCALE
        * 0x10_0000)) by (nonlinear_arith)
        requires
            a == c || a == -c,
    ;
    assert(-(SCALE * n) == (-SCALE) * n) by (nonlinear_arith);
    crate::scalar::lemma_round_div_between_multiples(
        c * SCALE * 0x10_0000,
        n,
        -SCALE,
        SCALE as int,
    );
}

/// A product of two numbers that each fit in 34 bits fits in 68.
pub proof fn lemma_square_bound(a: int, b: int)
    requires
        -0x2_0000_0000 <= a <= 0x2_0000_0000,
        -0x2_0000_0000 <= b <= 0x2_0000_0000,
    ensures
        -0x4_0000_0000_0000_0000 <= a * b <= 0x4_0000_0000_0000_0000,
{
    assert(-0x4_0000_0000_0000_0000 <= a * b <= 0x4_0000_0000_0000_0000) by (nonlinear_arith)
        requires
            -0x2_0000_0000 <= a <= 0x2_0000_0000,
            -0x2_0000_0000 <= b <= 0x2_0000_0000,
    ;
}

/// The squared length of a raw vector whose components fit in 34 bits.
pub fn length_squared_wide(x: i64, y: i64, z: i64) -> (n: u128)
    requires
        -0x2_0000_0000 <= x <= 0x2_0000_0000,
        -0x2_0000_0000 <= y <= 0x2_0000_0000,
        -0x2_0000_0000 <= z <= 0x2_0000_0000,
    ensures
        n == x * x + y * y + z * z,
{
    proof {
        lemma_square_bound(x as int, x as int);
        lemma_square_bound(y as int, y as int);
        lemma_square_bound(z as int, z as int);
        assert(x * x >= 0 && y * y >= 0 && z * z >= 0) by (nonlinear_arith);
    }
    let xx: i128 = x as i128 * x as i128;
    let yy: i128 = y as i128 * y as i128;
    let zz: i128 = z as i128 * z as i128;
    (xx + yy + zz) as u128
}

/// The length of a raw vector whose components fit in 34 bits.
pub fn length_wide(x: i64, y: i64, z: i64) -> (r: Scalar)
    requires
        -0x2_0000_0000 <= x <= 0x2_0000_0000,
        -0x2_0000_0000 <= y <= 0x2_0000_0000,
        -0x2_0000_0000 <= z <= 0x2_0000_0000,
    ensures
        r == length_of(x as int, y as int, z as int),
        r@ >= 0,
{
    let n: u64 = isqrt_u128(length_squared_wide(x, y, z));
    Scalar::from_raw(clamp_i128(n as i128))
}

/// The unit vector along a raw vector whose components fit in 34 bits.
pub fn unit_wide(x: i64, y: i64, z: i64) -> (r: Vector3)
    requires
        -0x2_0000_0000 <= x <= 0x2_0000_0000,
        -0x2_0000_0000 <= y <= 0x2_0000_0000,
        -0x2_0000_0000 <= z <= 0x2_0000_0000,
    ensures
        r == unit_of(x as int, y as int, z as int),
{
    let sum: u128 = length_squared_wide(x, y, z);
    proof {
        lemma_square_bound(x as int, x as int);
        lemma_square_bound(y as int, y as int);
        lemma_square_bound(z as int, z as int);
    }
    let n: u64 = isqrt_u128(sum * 0x100_0000_0000);
    if n == 0 {
        Vector3 { x: Scalar::zero(), y: Scalar::zero(), z: Scalar::zero() }
    } else {
        let d: i128 = n as i128;
        Vector3 {
            x: Scalar::from_raw(
                clamp_i128(round_div_i128(x as i128 * 1_000_000 * 0x10_0000, d)),
            ),
            y: Scalar::from_raw(
                clamp_i128(round_div_i128(y as i128 * 1_000_000 * 0x10_0000, d)),
            ),
            z: Scalar::from_raw(
                clamp_i128(round_div_i128(z as i128 * 1_000_000 * 0x10_0000, d)),
            ),
        }
    }
}

impl Vector3 {
    pub open spec fn spec_component(self, axis: Axis) -> Scalar {
        match axis {
            Axis::X => self.x,
            Axis::Y => self.y,
            Axis::Z => self.z,
        }
    }

    pub open spec fn spec_add(self, rhs: Vector3) -> Vector3 {
        Vector3 {
            x: self.x.spec_add(rhs.x),
            y: self.y.spec_add(rhs.y),
            z: self.z.spec_add(rhs.z),
        }
    }

    pub open spec fn spec_sub(self, rhs: Vector3) -> Vector3 {
        Vector3 {
            x: self.x.spec_sub(rhs.x),
            y: self.y.spec_sub(rhs.y),
            z: self.z.spec_sub(rhs.z),
        }
    }

    pub open spec fn spec_neg(self) -> Vector3 {
        Vector3 { x: self.x.spec_neg(), y: self.y.spec_neg(), z: self.z.spec_neg() }
    }

    pub open spec fn spec_mul(self, rhs: Scalar) -> Vector3 {
        Vector3 {
            x: self.x.spec_mul(rhs),
            y: self.y.spec_mul(rhs),
            z: self.z.spec_mul(rhs),
        }
    }

    pub open spec fn spec_div(self, rhs: Scalar) -> Vector3 {
        Vector3 {
            x: self.x.spec_div(rhs),
            y: self.y.spec_div(rhs),
            z: self.z.spec_div(rhs),
        }
    }

    /// The dot product, rounded once to the nearest millionth.
    pub open spec fn spec_dot(lhs: Vector3, rhs: Vector3) -> Scalar {
        Scalar::of(round_div(dot_raw(lhs, rhs), SCALE as int))
    }

    /// The cross product, each component rounded once.
    pub open spec fn spec_cross(lhs: Vector3, rhs: Vector3) -> Vector3 {
        Vector3 {
            x: Scalar::of(round_div(lhs.y@ * rhs.z@ - lhs.z@ * rhs.y@, SCALE as int)),
            y: Scalar::of(round_div(lhs.z@ * rhs.x@ - lhs.x@ * rhs.z@, SCALE as int)),
            z: Scalar::of(round_div(lhs.x@ * rhs.y@ - lhs.y@ * rhs.x@, SCALE as int)),
        }
    }

    pub open spec fn spec_norm_squared(self) -> Scalar {
        Vector3::spec_dot(self, self)
    }

    pub open spec fn spec_norm(self) -> Scalar {
        length_of(self.x@, self.y@, self.z@)
    }

    pub open spec fn spec_normalize(self) -> Vector3 {
        unit_of(self.x@, self.y@, self.z@)
    }

    pub open spec fn spec_normalized_sub(a: Vector3, b: Vector3) -> Vector3 {
        unit_of(a.x@ - b.x@, a.y@ - b.y@, a.z@ - b.z@)
    }

    /// The mirror image of `incident` in the plane whose normal is `normal`:
    /// `incident - normal * (2 * (incident . normal))`.
    pub open spec fn spec_reflected(incident: Vector3, normal: Vector3) -> Vector3 {
        let dot = Vector3::spec_dot(incident, normal);
        let two_dot = dot.spec_mul(Scalar::of(2 * SCALE));
        incident.spec_sub(normal.spec_mul(two_dot))
    }

    pub open spec fn from_ints_spec(x: i32, y: i32, z: i32) -> Vector3 {
        Vector3 {
            x: Scalar::from_int_spec(x),
            y: Scalar::from_int_spec(y),
            z: Scalar::from_int_spec(z),
        }
    }

    pub fn new(x: Scalar, y: Scalar, z: Scalar) -> (v: Vector3)
        ensures
            v == (Vector3 { x, y, z }),
    {
        Vector3 { x, y, z }
    }

    /// The vector with the given whole-number components.
    pub fn from_ints(x: i32, y: i32, z: i32) -> (v: Vector3)
        ensures
            v == Vector3::from_ints_spec(x, y, z),
    {
        Vector3 { x: Scalar::from_int(x), y: Scalar::from_int(y), z: Scalar::from_int(z) }
    }

    pub fn unit_x() -> (v: Vector3)
        ensures
            v.x@ == SCALE && v.y@ == 0 && v.z@ == 0,
    {
        Vector3 { x: Scalar::one(), y: Scalar::zero(), z: Scalar::zero() }
    }

    pub fn unit_y() -> (v: Vector3)
        ensures
            v.x@ == 0 && v.y@ == SCALE && v.z@ == 0,
    {
        Vector3 { x: Scalar::zero(), y: Scalar::one(), z: Scalar::zero() }
    }

    pub fn unit_z() -> (v: Vector3)
        ensures
            v.x@ == 0 && v.y@ == 0 && v.z@ == SCALE,
    {
        Vector3 { x: Scalar::zero(), y: Scalar::zero(), z: Scalar::one() }
    }

    pub fn get_x(&self) -> (r: Scalar)
        ensures
            r == self.x,
    {
        self.x
    }

    pub fn get_y(&self) -> (r: Scalar)
        ensures
            r == self.y,
    {
        self.y
    }

    pub fn get_z(&self) -> (r: Scalar)
        ensures
            r == self.z,
    {
        self.z
    }

    pub fn get_component(&self, axis: &Axis) -> (r: Scalar)
        ensures
            r == self.spec_component(*axis),
    {
        match axis {
            Axis::X => self.x,
            Axis::Y => self.y,
            Axis::Z => self.z,
        }
    }

    pub fn norm_squared(&self) -> (r: Scalar)
        ensures
            r == self.spec_norm_squared(),
    {
        Vector3::dot(self, self)
    }

    pub fn norm(&self) -> (r: Scalar)
        ensures
            r == self.spec_norm(),
            r@ >= 0,
    {
        length_wide(self.x.raw as i64, self.y.raw as i64, self.z.raw as i64)
    }

    pub fn normalize(&self) -> (r: Vector3)
        ensures
            r == self.spec_normalize(),
    {
        unit_wide(self.x.raw as i64, self.y.raw as i64, self.z.raw as i64)
    }

    pub fn normalized(a: &Vector3) -> (r: Vector3)
        ensures
            r == a.spec_normalize(),
    {
        a.normalize()
    }

    /// The unit vector that points from `b` to `a`; the difference is taken exactly.
    pub fn normalized_sub(a: &Vector3, b: &Vector3) -> (r: Vector3)
        ensures
            r == Vector3::spec_normalized_sub(*a, *b),
    {
        unit_wide(
            a.x.raw as i64 - b.x.raw as i64,
            a.y.raw as i64 - b.y.raw as i64,
            a.z.raw as i64 - b.z.raw as i64,
        )
    }

    pub fn dot(lhs: &Vector3, rhs: &Vector3) -> (r: Scalar)
        ensures
            r == Vector3::spec_dot(*lhs, *rhs),
    {
        proof {
            lemma_square_bound(lhs.x@, rhs.x@);
            lemma_square_bound(lhs.y@, rhs.y@);
            lemma_square_bound(lhs.z@, rhs.z@);
        }
        let xx: i128 = lhs.x.raw as i128 * rhs.x.raw as i128;
        let yy: i128 = lhs.y.raw as i128 * rhs.y.raw as i128;
        let zz: i128 = lhs.z.raw as i128 * rhs.z.raw as i128;
        Scalar::from_raw(clamp_i128(round_div_i128(xx + yy + zz, 1_000_000)))
    }

    pub fn cross(lhs: &Vector3, rhs: &Vector3) -> (r: Vector3)
        ensures
            r == Vector3::spec_cross(*lhs, *rhs),
    {
        proof {
            lemma_square_bound(lhs.y@, rhs.z@);
            lemma_square_bound(lhs.z@, rhs.y@);
            lemma_square_bound(lhs.z@, rhs.x@);
            lemma_square_bound(lhs.x@, rhs.z@);
            lemma_square_bound(lhs.x@, rhs.y@);
            lemma_square_bound(lhs.y@, rhs.x@);
        }
        let lx: i128 = lhs.x.raw as i128;
        let ly: i128 = lhs.y.raw as i128;
        let lz: i128 = lhs.z.raw as i128;
        let rx: i128 = rhs.x.raw as i128;
        let ry: i128 = rhs.y.raw as i128;
        let rz: i128 = rhs.z.raw as i128;
        Vector3 {
            x: Scalar::from_raw(clamp_i128(round_div_i128(ly * rz - lz * ry, 1_000_000))),
            y: Scalar::from_raw(clamp_i128(round_div_i128(lz * rx - lx * rz, 1_000_000))),
            z: Scalar::from_raw(clamp_i128(round_div_i128(lx * ry - ly * rx, 1_000_000))),
        }
    }

    pub fn reflected(incident: &Vector3, normal: &Vector3) -> (r: Vector3)
        ensures
            r == Vector3::spec_reflected(*incident, *normal),
    {
        let dot: Scalar = Vector3::dot(incident, normal);
        let two_dot: Scalar = dot.mul(Scalar::from_raw(2_000_000));
        let two_dot_n: Vector3 = normal.mul(two_dot);
        incident.sub(two_dot_n)
    }

    pub fn add(self, rhs: Vector3) -> (r: Vector3)
        ensures
            r == self.spec_add(rhs),
    {
        Vector3 { x: self.x.add(rhs.x), y: self.y.add(rhs.y), z: self.z.add(rhs.z) }
    }

    pub fn sub(self, rhs: Vector3) -> (r: Vector3)
        ensures
            r == self.spec_sub(rhs),
    {
        Vector3 { x: self.x.sub(rhs.x), y: self.y.sub(rhs.y), z: self.z.sub(rhs.z) }
    }

    pub fn neg(self) -> (r: Vector3)
        ensures
            r == self.spec_neg(),
    {
        Vector3 { x: self.x.neg(), y: self.y.neg(), z: self.z.neg() }
    }

    pub fn mul(self, rhs: Scalar) -> (r: Vector3)
        ensures
            r == self.spec_mul(rhs),
    {
        Vector3 { x: self.x.mul(rhs), y: self.y.mul(rhs), z: self.z.mul(rhs) }
    }

    pub fn div(self, rhs: Scalar) -> (r: Vector3)
        ensures
            r == self.spec_div(rhs),
    {
        Vector3 { x: self.x.div(rhs), y: self.y.div(rhs), z: self.z.div(rhs) }
    }
}

impl Default for Vector3 {
    fn default() -> (v: Vector3)
        ensures
            v.x@ == 0 && v.y@ == 0 && v.z@ == 0,
    {
        Vector3 { x: Scalar::zero(), y: Scalar::zero(), z: Scalar::zero() }
    }
}

} // verus!
