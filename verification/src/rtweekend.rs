//! Shared numeric utilities: angle conversion and the truncated
//! Maclaurin series the camera uses for its field-of-view tangent.

use vstd::prelude::*;
use crate::fixed::{SCALE, fx_mul, fx_div, fx_sub, mul_fx, div_fx, sub_fx};

verus! {

/// Fixed-point pi.
pub const PI_FX: i64 = 3_141_593;

/// Fixed-point scalar for 180, the degree count of a half turn.
pub const HALF_TURN_DEG_FX: i64 = 180_000_000;

/// Degrees to radians: `degrees * pi / 180`.
pub open spec fn s_degrees_to_radians(deg: int) -> int {
    fx_div(fx_mul(deg, PI_FX as int), HALF_TURN_DEG_FX as int)
}

/// Sine by a Maclaurin series through the ninth power, in Horner form.
pub open spec fn s_sin(x: int) -> int {
    let x2 = fx_mul(x, x);
    let t72 = fx_sub(SCALE as int, fx_div(x2, 72_000_000));
    let t42 = fx_sub(SCALE as int, fx_mul(fx_div(x2, 42_000_000), t72));
    let t20 = fx_sub(SCALE as int, fx_mul(fx_div(x2, 20_000_000), t42));
    let t6 = fx_sub(SCALE as int, fx_mul(fx_div(x2, 6_000_000), t20));
    fx_mul(x, t6)
}

/// Cosine by a Maclaurin series through the eighth power, in Horner
/// form.
pub open spec fn s_cos(x: int) -> int {
    let x2 = fx_mul(x, x);
    let c56 = fx_sub(SCALE as int, fx_div(x2, 56_000_000));
    let c30 = fx_sub(SCALE as int, fx_mul(fx_div(x2, 30_000_000), c56));
    let c12 = fx_sub(SCALE as int, fx_mul(fx_div(x2, 12_000_000), c30));
    fx_sub(SCALE as int, fx_mul(fx_div(x2, 2_000_000), c12))
}

/// Tangent as the quotient of the two series; a vanishing cosine
/// saturates, as the pole of the real tangent would overflow any grid.
pub open spec fn s_tan(x: int) -> int {
    fx_div(s_sin(x), s_cos(x))
}

/// The series agree with sine, cosine and tangent at zero exactly.
pub proof fn lemma_series_at_zero()
    ensures
        s_sin(0) == 0,
        s_cos(0) == SCALE as int,
        s_tan(0) == 0,
{
    crate::fixed::lemma_fx_mul_zero(0);
    crate::fixed::lemma_fx_mul_zero(SCALE as int);
    crate::fixed::lemma_fx_div_zero(72_000_000);
    crate::fixed::lemma_fx_div_zero(42_000_000);
    crate::fixed::lemma_fx_div_zero(20_000_000);
    crate::fixed::lemma_fx_div_zero(6_000_000);
    crate::fixed::lemma_fx_div_zero(56_000_000);
    crate::fixed::lemma_fx_div_zero(30_000_000);
    crate::fixed::lemma_fx_div_zero(12_000_000);
    crate::fixed::lemma_fx_div_zero(2_000_000);
    crate::fixed::lemma_fx_div_zero(s_cos(0));
    assert(s_sin(0) == 0);
    assert(s_cos(0) == SCALE as int);
}

pub fn degrees_to_radians(degrees: i64) -> (r: i64)
    ensures
        r as int == s_degrees_to_radians(degrees as int),
{
    div_fx(mul_fx(degrees, PI_FX), HALF_TURN_DEG_FX)
}

/// Sine of `x` radians: the truncated series, closest well below a
/// quarter turn; toward the quarter turn its error grows to a few
/// thousandths.
pub fn sin_fx(x: i64) -> (r: i64)
    ensures
        r as int == s_sin(x as int),
{
    let x2 = mul_fx(x, x);
    let t72 = sub_fx(SCALE, div_fx(x2, 72_000_000));
    let t42 = sub_fx(SCALE, mul_fx(div_fx(x2, 42_000_000), t72));
    let t20 = sub_fx(SCALE, mul_fx(div_fx(x2, 20_000_000), t42));
    let t6 = sub_fx(SCALE, mul_fx(div_fx(x2, 6_000_000), t20));
    mul_fx(x, t6)
}

/// Cosine of `x` radians: the truncated series, closest well below a
/// quarter turn; toward the quarter turn its error grows to a few
/// thousandths.
pub fn cos_fx(x: i64) -> (r: i64)
    ensures
        r as int == s_cos(x as int),
{
    let x2 = mul_fx(x, x);
    let c56 = sub_fx(SCALE, div_fx(x2, 56_000_000));
    let c30 = sub_fx(SCALE, mul_fx(div_fx(x2, 30_000_000), c56));
    let c12 = sub_fx(SCALE, mul_fx(div_fx(x2, 12_000_000), c30));
    sub_fx(SCALE, mul_fx(div_fx(x2, 2_000_000), c12))
}

/// Tangent of `x` radians.
pub fn tan_fx(x: i64) -> (r: i64)
    ensures
        r as int == s_tan(x as int),
{
    div_fx(sin_fx(x), cos_fx(x))
}

} // verus!
