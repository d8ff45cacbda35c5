//! Rotations as quaternions.

use vstd::prelude::*;
use crate::scalar::{clamp_i128, isqrt, isqrt_u128, round_div, round_div_i128, Scalar, SCALE};
use crate::trig;
use crate::vector3::{lemma_square_bound, Vector3};

verus! {

#[derive(Clone, Copy, Debug, PartialEq, Eq, Structural)]
pub struct Quaternion {
    pub x: Scalar,
    pub y: Scalar,
    pub z: Scalar,
    pub w: Scalar,
}

/// The sum of the squares of the four components, in squared raw units.
pub open spec fn norm_squared_raw(q: Quaternion) -> int {
    q.x@ * q.x@ + q.y@ * q.y@ + q.z@ * q.z@ + q.w@ * q.w@
}

/// A sum of two triple products of sines and cosines, rounded to millionths.
pub open spec fn triple_sum(a1: int, a2: int, a3: int, b1: int, b2: int, b3: int) -> Scalar {
    Scalar::of(round_div(a1 * a2 * a3 + b1 * b2 * b3, 1_000_000_000_000))
}

/// `a1 * a2 * a3 + b1 * b2 * b3` over factors of magnitude at most one.
fn triple_sum_exec(a1: Scalar, a2: Scalar, a3: Scalar, b1: Scalar, b2: Scalar, b3: Scalar) -> (r:
    Scalar)
    requires
        -SCALE <= a1@ <= SCALE,
        -SCALE <= a2@ <= SCALE,
        -SCALE <= a3@ <= SCALE,
        -SCALE <= b1@ <= SCALE,
        -SCALE <= b2@ <= SCALE,
        -SCALE <= b3@ <= SCALE,
    ensures
        r == triple_sum(a1@, a2@, a3@, b1@, b2@, b3@),
{
    let p: i128 = a1.raw as i128;
    let q: i128 = a2.raw as i128;
    let s: i128 = a3.raw as i128;
    let t: i128 = b1.raw as i128;
    let u: i128 = b2.raw as i128;
    let v: i128 = b3.raw as i128;
    assert(-1_000_000_000_000 <= p * q <= 1_000_000_000_000) by (nonlinear_arith)
        requires
            -1_000_000 <= p <= 1_000_000,
            -1_000_000 <= q <= 1_000_000,
    ;
    assert(-1_000_000_000_000 <= t * u <= 1_000_000_000_000) by (nonlinear_arith)
        requires
            -1_000_000 <= t <= 1_000_000,
            -1_000_000 <= u <= 1_000_000,
    ;
    let pq: i128 = p * q;
    let tu: i128 = t * u;
    assert(-1_000_000_000_000_000_000 <= pq * s <= 1_000_000_000_000_000_000)
        by (nonlinear_arith)
        requires
            -1_000_000_000_000 <= pq <= 1_000_000_000_000,
            -1_000_000 <= s <= 1_000_000,
    ;
    assert(-1_000_000_000_000_000_000 <= tu * v <= 1_000_000_000_000_000_000)
        by (nonlinear_arith)
        requires
            -1_000_000_000_000 <= tu <= 1_000_000_000_000,
            -1_000_000 <= v <= 1_000_000,
    ;
    Scalar::from_raw(clamp_i128(round_div_i128(pq * s + tu * v, 1_000_000_000_000)))
}

impl Quaternion {
    /// The rotation that leaves every vector in place.
    pub open spec fn spec_identity() -> Quaternion {
        Quaternion { x: Scalar::of(0), y: Scalar::of(0), z: Scalar::of(0), w: Scalar::of(SCALE as int) }
    }

    pub open spec fn spec_conjugate(self) -> Quaternion {
        Quaternion { x: self.x.spec_neg(), y: self.y.spec_neg(), z: self.z.spec_neg(), w: self.w }
    }

    /// The squared norm, rounded once to the nearest millionth.
    pub open spec fn spec_norm_squared(self) -> Scalar {
        Scalar::of(round_div(norm_squared_raw(self), SCALE as int))
    }

    pub open spec fn spec_norm(self) -> Scalar {
        Scalar::of(isqrt(norm_squared_raw(self)))
    }

    pub open spec fn spec_mul_scalar(self, rhs: Scalar) -> Quaternion {
        Quaternion {
            x: self.x.spec_mul(rhs),
            y: self.y.spec_mul(rhs),
            z: self.z.spec_mul(rhs),
            w: self.w.spec_mul(rhs),
        }
    }

    /// The Hamilton product, each component rounded once.
    pub open spec fn spec_mul(self, rhs: Quaternion) -> Quaternion {
        Quaternion {
            x: Scalar::of(
                round_div(
                    self.w@ * rhs.x@ + self.x@ * rhs.w@ + self.y@ * rhs.z@ - self.z@ * rhs.y@,
                    SCALE as int,
                ),
            ),
            y: Scalar::of(
                round_div(
                    self.w@ * rhs.y@ + self.y@ * rhs.w@ + self.z@ * rhs.x@ - self.x@ * rhs.z@,
                    SCALE as int,
                ),
            ),
            z: Scalar::of(
                round_div(
                    self.w@ * rhs.z@ + self.z@ * rhs.w@ + self.x@ * rhs.y@ - self.y@ * rhs.x@,
                    SCALE as int,
                ),
            ),
            w: Scalar::of(
                round_div(
                    self.w@ * rhs.w@ - self.x@ * rhs.x@ - self.y@ * rhs.y@ - self.z@ * rhs.z@,
                    SCALE as int,
                ),
            ),
        }
    }

    /// The vector `rhs` turned by this rotation: the vector part of
    /// `self * (rhs, 0) * conjugate(self)`.
    pub open spec fn spec_mul_vector(self, rhs: Vector3) -> Vector3 {
        let v = Quaternion { x: rhs.x, y: rhs.y, z: rhs.z, w: Scalar::of(0) };
        let r = self.spec_mul(v).spec_mul(self.spec_conjugate());
        Vector3 { x: r.x, y: r.y, z: r.z }
    }

    /// The conjugate divided by the squared norm, each component rounded once.
    pub open spec fn spec_inverse(self) -> Quaternion {
        let n = norm_squared_raw(self);
        Quaternion {
            x: Scalar::of(round_div(-self.x@ * 1_000_000_000_000, n)),
            y: Scalar::of(round_div(-self.y@ * 1_000_000_000_000, n)),
            z: Scalar::of(round_div(-self.z@ * 1_000_000_000_000, n)),
            w: Scalar::of(round_div(self.w@ * 1_000_000_000_000, n)),
        }
    }

    pub open spec fn spec_from_axis_angle(axis: Vector3, angle: Scalar) -> Quaternion {
        let half = angle.spec_div(Scalar::of(2 * SCALE));
        let sin = Scalar::of(trig::sin_raw(half@));
        let cos = Scalar::of(trig::cos_raw(half@));
        Quaternion {
            x: axis.x.spec_mul(sin),
            y: axis.y.spec_mul(sin),
            z: axis.z.spec_mul(sin),
            w: cos,
        }
    }

    pub open spec fn spec_from_roll_pitch_yaw(roll: Scalar, pitch: Scalar, yaw: Scalar) -> Quaternion {
        let two = Scalar::of(2 * SCALE);
        let sr = trig::sin_raw(roll.spec_div(two)@);
        let cr = trig::cos_raw(roll.spec_div(two)@);
        let sp = trig::sin_raw(pitch.spec_div(two)@);
        let cp = trig::cos_raw(pitch.spec_div(two)@);
        let sy = trig::sin_raw(yaw.spec_div(two)@);
        let cy = trig::cos_raw(yaw.spec_div(two)@);
        Quaternion {
            x: triple_sum(cy, sp, cr, sy, cp, sr),
            y: triple_sum(cy, cp, sr, -sy, sp, cr),
            z: triple_sum(sy, cp, cr, -cy, sp, sr),
            w: triple_sum(cy, cp, cr, sy, sp, sr),
        }
    }

    pub fn new(x: Scalar, y: Scalar, z: Scalar, w: Scalar) -> (q: Quaternion)
        ensures
            q == (Quaternion { x, y, z, w }),
    {
        Quaternion { x, y, z, w }
    }

    /// The rotation by `roll` about Z, `pitch` about X and `yaw` about Y, in radians.
    pub fn from_roll_pitch_yaw(roll: Scalar, pitch: Scalar, yaw: Scalar) -> (q: Quaternion)
        ensures
            q == Quaternion::spec_from_roll_pitch_yaw(roll, pitch, yaw),
    {
        let two: Scalar = Scalar::from_raw(2_000_000);
        let half_roll: Scalar = roll.div(two);
        let half_pitch: Scalar = pitch.div(two);
        let half_yaw: Scalar = yaw.div(two);
        let sr: Scalar = trig::sin(half_roll);
        let cr: Scalar = trig::cos(half_roll);
        let sp: Scalar = trig::sin(half_pitch);
        let cp: Scalar = trig::cos(half_pitch);
        let sy: Scalar = trig::sin(half_yaw);
        let cy: Scalar = trig::cos(half_yaw);
        Quaternion {
            x: triple_sum_exec(cy, sp, cr, sy, cp, sr),
            y: triple_sum_exec(cy, cp, sr, sy.neg(), sp, cr),
            z: triple_sum_exec(sy, cp, cr, cy.neg(), sp, sr),
            w: triple_sum_exec(cy, cp, cr, sy, sp, sr),
        }
    }

    /// The rotation by `angle` radians about `axis`, which should have length one.
    pub fn from_axis_angle(axis: Vector3, angle: Scalar) -> (q: Quaternion)
        ensures
            q == Quaternion::spec_from_axis_angle(axis, angle),
    {
        let half: Scalar = angle.div(Scalar::from_raw(2_000_000));
        let sin: Scalar = trig::sin(half);
        let cos: Scalar = trig::cos(half);
        Quaternion { x: axis.x.mul(sin), y: axis.y.mul(sin), z: axis.z.mul(sin), w: cos }
    }

    pub fn conjugate(&self) -> (q: Quaternion)
        ensures
            q == self.spec_conjugate(),
    {
        Quaternion::new(self.x.neg(), self.y.neg(), self.z.neg(), self.w)
    }

    /// All four components are zero.
    pub open spec fn is_zero(self) -> bool {
        norm_squared_raw(self) == 0
    }

    /// Whether all four components are zero.
    pub fn is_null(&self) -> (b: bool)
        ensures
            b == self.is_zero(),
    {
        self.norm_squared_wide() == 0
    }

    /// The inverse rotation. The zero quaternion has none.
    pub fn inverse(&self) -> (q: Quaternion)
        requires
            !self.is_zero(),
        ensures
            q == self.spec_inverse(),
    {
        let n: i128 = self.norm_squared_wide();
        Quaternion {
            x: Scalar::from_raw(
                clamp_i128(round_div_i128(-(self.x.raw as i128) * 1_000_000_000_000, n)),
            ),
            y: Scalar::from_raw(
                clamp_i128(round_div_i128(-(self.y.raw as i128) * 1_000_000_000_000, n)),
            ),
            z: Scalar::from_raw(
                clamp_i128(round_div_i128(-(self.z.raw as i128) * 1_000_000_000_000, n)),
            ),
            w: Scalar::from_raw(
                clamp_i128(round_div_i128(self.w.raw as i128 * 1_000_000_000_000, n)),
            ),
        }
    }

    /// The inverse rotation, or `None` for the zero quaternion.
    pub fn checked_inverse(&self) -> (q: Option<Quaternion>)
        ensures
            self.is_zero() <==> q is None,
            !self.is_zero() ==> q == Some(self.spec_inverse()),
    {
        if self.is_null() {
            None
        } else {
            Some(self.inverse())
        }
    }

    fn norm_squared_wide(&self) -> (n: i128)
        ensures
            n == norm_squared_raw(*self),
            0 <= n <= 0x10_0000_0000_0000_0000,
    {
        proof {
            lemma_square_bound(self.x@, self.x@);
            lemma_square_bound(self.y@, self.y@);
            lemma_square_bound(self.z@, self.z@);
            lemma_square_bound(self.w@, self.w@);
            assert(self.x@ * self.x@ >= 0 && self.y@ * self.y@ >= 0 && self.z@ * self.z@ >= 0
                && self.w@ * self.w@ >= 0) by (nonlinear_arith);
        }
        let xx: i128 = self.x.raw as i128 * self.x.raw as i128;
        let yy: i128 = self.y.raw as i128 * self.y.raw as i128;
        let zz: i128 = self.z.raw as i128 * self.z.raw as i128;
        let ww: i128 = self.w.raw as i128 * self.w.raw as i128;
        xx + yy + zz + ww
    }

    pub fn norm(&self) -> (r: Scalar)
        ensures
            r == self.spec_norm(),
    {
        let n: u64 = isqrt_u128(self.norm_squared_wide() as u128);
        Scalar::from_raw(clamp_i128(n as i128))
    }

    pub fn norm_squared(&self) -> (r: Scalar)
        ensures
            r == self.spec_norm_squared(),
    {
        Scalar::from_raw(clamp_i128(round_div_i128(self.norm_squared_wide(), 1_000_000)))
    }

    pub fn mul_scalar(self, rhs: Scalar) -> (q: Quaternion)
        ensures
            q == self.spec_mul_scalar(rhs),
    {
        Quaternion {
            x: self.x.mul(rhs),
            y: self.y.mul(rhs),
            z: self.z.mul(rhs),
            w: self.w.mul(rhs),
        }
    }

    pub fn mul_vector(self, rhs: Vector3) -> (v: Vector3)
        ensures
            v == self.spec_mul_vector(rhs),
    {
        let v: Quaternion = Quaternion::new(rhs.get_x(), rhs.get_y(), rhs.get_z(), Scalar::zero());
        let r: Quaternion = self.mul(v).mul(self.conjugate());
        Vector3::new(r.x, r.y, r.z)
    }

    pub fn mul(self, rhs: Quaternion) -> (q: Quaternion)
        ensures
            q == self.spec_mul(rhs),
    {
        proof {
            lemma_square_bound(self.w@, rhs.x@);
            lemma_square_bound(self.x@, rhs.w@);
            lemma_square_bound(self.y@, rhs.z@);
            lemma_square_bound(self.z@, rhs.y@);
            lemma_square_bound(self.w@, rhs.y@);
            lemma_square_bound(self.y@, rhs.w@);
            lemma_square_bound(self.z@, rhs.x@);
            lemma_square_bound(self.x@, rhs.z@);
            lemma_square_bound(self.w@, rhs.z@);
            lemma_square_bound(self.z@, rhs.w@);
            lemma_square_bound(self.x@, rhs.y@);
            lemma_square_bound(self.y@, rhs.x@);
            lemma_square_bound(self.w@, rhs.w@);
            lemma_square_bound(self.x@, rhs.x@);
            lemma_square_bound(self.y@, rhs.y@);
            lemma_square_bound(self.z@, rhs.z@);
        }
        let ax: i128 = self.x.raw as i128;
        let ay: i128 = self.y.raw as i128;
        let az: i128 = self.z.raw as i128;
        let aw: i128 = self.w.raw as i128;
        let bx: i128 = rhs.x.raw as i128;
        let by: i128 = rhs.y.raw as i128;
        let bz: i128 = rhs.z.raw as i128;
        let bw: i128 = rhs.w.raw as i128;
        let x: i128 = aw * bx + ax * bw + ay * bz - az * by;
        let y: i128 = aw * by + ay * bw + az * bx - ax * bz;
        let z: i128 = aw * bz + az * bw + ax * by - ay * bx;
        let w: i128 = aw * bw - ax * bx - ay * by - az * bz;
        Quaternion {
            x: Scalar::from_raw(clamp_i128(round_div_i128(x, 1_000_000))),
            y: Scalar::from_raw(clamp_i128(round_div_i128(y, 1_000_000))),
            z: Scalar::from_raw(clamp_i128(round_div_i128(z, 1_000_000))),
            w: Scalar::from_raw(clamp_i128(round_div_i128(w, 1_000_000))),
        }
    }
}

impl Default for Quaternion {
    fn default() -> (q: Quaternion)
        ensures
            q == Quaternion::spec_identity(),
    {
        Quaternion { x: Scalar::zero(), y: Scalar::zero(), z: Scalar::zero(), w: Scalar::one() }
    }
}

} // verus!
