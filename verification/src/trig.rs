//! Sine and cosine of fixed-point angles.
//!
//! An angle in millionths of a radian is widened to million-millionths,
//! reduced to the first quadrant, and fed to a truncated power series in
//! nested form. The result is rounded back to millionths. The series keeps
//! eight terms, which leaves less error than the final rounding.

use vstd::prelude::*;
use crate::scalar::{round_div, Scalar, SCALE};

verus! {

/// One in the internal precision of the series.
pub const PICO: u128 = 1_000_000_000_000;

/// A quarter turn in the internal precision.
pub const QUARTER_TURN: u128 = 1_570_796_326_795;

/// A full turn in the internal precision: four quarter turns.
pub const FULL_TURN: u128 = 6_283_185_307_180;

/// One step of the nested series: `1 - square * inner / divisor`, not below zero.
pub open spec fn series_step(square: int, inner: int, divisor: int) -> int {
    let t = (square * inner) / (PICO * divisor);
    if t > PICO {
        0
    } else {
        PICO - t
    }
}

/// The sine series on the first quadrant, in the internal precision.
pub open spec fn sine_series(y: int) -> int {
    let z = (y * y) / (PICO as int);
    let a7 = series_step(z, PICO as int, 210);
    let a6 = series_step(z, a7, 156);
    let a5 = series_step(z, a6, 110);
    let a4 = series_step(z, a5, 72);
    let a3 = series_step(z, a4, 42);
    let a2 = series_step(z, a3, 20);
    let a1 = series_step(z, a2, 6);
    (y * a1) / (PICO as int)
}

/// The cosine series on the first quadrant, in the internal precision.
pub open spec fn cosine_series(y: int) -> int {
    let z = (y * y) / (PICO as int);
    let a8 = series_step(z, PICO as int, 240);
    let a7 = series_step(z, a8, 182);
    let a6 = series_step(z, a7, 132);
    let a5 = series_step(z, a6, 90);
    let a4 = series_step(z, a5, 56);
    let a3 = series_step(z, a4, 30);
    let a2 = series_step(z, a3, 12);
    series_step(z, a2, 2)
}

/// A series value rounded to millionths and held to at most one.
pub open spec fn to_micro(v: int) -> int {
    let r = round_div(v, 1_000_000);
    if r > SCALE {
        SCALE as int
    } else {
        r
    }
}

/// The sine of `x` millionths of a radian, in millionths.
pub open spec fn sin_raw(x: int) -> int {
    let r = (x * 1_000_000) % (FULL_TURN as int);
    let q = r / (QUARTER_TURN as int);
    let y = r % (QUARTER_TURN as int);
    if q == 0 {
        to_micro(sine_series(y))
    } else if q == 1 {
        to_micro(cosine_series(y))
    } else if q == 2 {
        -to_micro(sine_series(y))
    } else {
        -to_micro(cosine_series(y))
    }
}

/// The cosine of `x` millionths of a radian, in millionths.
pub open spec fn cos_raw(x: int) -> int {
    let r = (x * 1_000_000) % (FULL_TURN as int);
    let q = r / (QUARTER_TURN as int);
    let y = r % (QUARTER_TURN as int);
    if q == 0 {
        to_micro(cosine_series(y))
    } else if q == 1 {
        -to_micro(sine_series(y))
    } else if q == 2 {
        -to_micro(cosine_series(y))
    } else {
        to_micro(sine_series(y))
    }
}

fn step(square: u128, inner: u128, divisor: u128) -> (r: u128)
    requires
        square <= 4 * PICO,
        inner <= PICO,
        2 <= divisor <= 240,
    ensures
        r == series_step(square as int, inner as int, divisor as int),
        r <= PICO,
{
    assert(square * inner <= 4 * PICO * PICO) by (nonlinear_arith)
        requires
            square <= 4 * PICO,
            inner <= PICO,
    ;
    let t: u128 = (square * inner) / (1_000_000_000_000 * divisor);
    if t > 1_000_000_000_000 {
        0
    } else {
        1_000_000_000_000 - t
    }
}

fn sine_first_quadrant(y: u128) -> (r: u128)
    requires
        y < QUARTER_TURN,
    ensures
        r == sine_series(y as int),
        r <= 2 * PICO,
{
    assert(y * y <= 4 * PICO * PICO) by (nonlinear_arith)
        requires
            y <= 2 * PICO,
    ;
    let z: u128 = (y * y) / 1_000_000_000_000;
    let a7: u128 = step(z, 1_000_000_000_000, 210);
    let a6: u128 = step(z, a7, 156);
    let a5: u128 = step(z, a6, 110);
    let a4: u128 = step(z, a5, 72);
    let a3: u128 = step(z, a4, 42);
    let a2: u128 = step(z, a3, 20);
    let a1: u128 = step(z, a2, 6);
    assert(y * a1 <= 2 * PICO * PICO) by (nonlinear_arith)
        requires
            y <= 2 * PICO,
            a1 <= PICO,
    ;
    (y * a1) / 1_000_000_000_000
}

fn cosine_first_quadrant(y: u128) -> (r: u128)
    requires
        y < QUARTER_TURN,
    ensures
        r == cosine_series(y as int),
        r <= PICO,
{
    assert(y * y <= 4 * PICO * PICO) by (nonlinear_arith)
        requires
            y <= 2 * PICO,
    ;
    let z: u128 = (y * y) / 1_000_000_000_000;
    let a8: u128 = step(z, 1_000_000_000_000, 240);
    let a7: u128 = step(z, a8, 182);
    let a6: u128 = step(z, a7, 132);
    let a5: u128 = step(z, a6, 90);
    let a4: u128 = step(z, a5, 56);
    let a3: u128 = step(z, a4, 30);
    let a2: u128 = step(z, a3, 12);
    step(z, a2, 2)
}

fn micro(v: u128) -> (r: i32)
    requires
        v <= 2 * PICO,
    ensures
        r == to_micro(v as int),
        0 <= r <= SCALE,
{
    let q: u128 = (v + 500_000) / 1_000_000;
    if q > 1_000_000 {
        1_000_000
    } else {
        q as i32
    }
}

/// The angle reduced to a quadrant number and an offset within the quadrant.
fn reduce(x: i32) -> (r: (u8, u128))
    ensures
        r.0 as int == ((x * 1_000_000) % (FULL_TURN as int)) / (QUARTER_TURN as int),
        r.1 as int == ((x * 1_000_000) % (FULL_TURN as int)) % (QUARTER_TURN as int),
        r.0 < 4,
        r.1 < QUARTER_TURN,
{
    let wide: i128 = x as i128 * 1_000_000;
    // Shift by a whole number of turns so that the remainder is taken of a
    // non-negative number.
    let turns: i128 = 400;
    let shifted: i128 = wide + turns * 6_283_185_307_180;
    proof {
        assert(shifted >= 0);
        assert((wide + 400 * 6_283_185_307_180) % 6_283_185_307_180 == wide % 6_283_185_307_180)
            by (nonlinear_arith);
    }
    let rem: u128 = (shifted as u128) % 6_283_185_307_180;
    let q: u128 = rem / 1_570_796_326_795;
    let y: u128 = rem % 1_570_796_326_795;
    (q as u8, y)
}

/// The sine of an angle given in radians.
pub fn sin(x: Scalar) -> (r: Scalar)
    ensures
        r@ == sin_raw(x@),
        -SCALE <= r@ <= SCALE,
{
    let (q, y) = reduce(x.raw);
    if q == 0 {
        Scalar::from_raw(micro(sine_first_quadrant(y)))
    } else if q == 1 {
        Scalar::from_raw(micro(cosine_first_quadrant(y)))
    } else if q == 2 {
        Scalar::from_raw(-micro(sine_first_quadrant(y)))
    } else {
        Scalar::from_raw(-micro(cosine_first_quadrant(y)))
    }
}

/// The cosine of an angle given in radians.
pub fn cos(x: Scalar) -> (r: Scalar)
    ensures
        r@ == cos_raw(x@),
        -SCALE <= r@ <= SCALE,
{
    let (q, y) = reduce(x.raw);
    if q == 0 {
        Scalar::from_raw(micro(cosine_first_quadrant(y)))
    } else if q == 1 {
        Scalar::from_raw(-micro(sine_first_quadrant(y)))
    } else if q == 2 {
        Scalar::from_raw(-micro(cosine_first_quadrant(y)))
    } else {
        Scalar::from_raw(micro(sine_first_quadrant(y)))
    }
}

/// The sine of zero is zero and its cosine is one.
pub proof fn lemma_trig_at_zero()
    ensures
        sin_raw(0) == 0,
        cos_raw(0) == SCALE,
{
    assert(series_step(0, PICO as int, 240) == PICO);
    assert(series_step(0, PICO as int, 210) == PICO);
    assert(sine_series(0) == 0);
    assert(cosine_series(0) == PICO);
}

} // verus!
