//! Pixel colors: gamma correction and the plain-text raster line for
//! one pixel, byte for byte.

use vstd::prelude::*;
use crate::fixed::{
    SCALE, div_t, fx_mul, fx_clamp, fx_sqrt, mul_fx, div_trunc, sqrt_fx,
    lemma_mul_le_mono, lemma_mul_comm, lemma_div_t_le, lemma_mul_sign, lemma_div_floor_bounds,
};
use crate::vec3::Vec3;
use crate::interval::Interval;

verus! {

pub type Color = Vec3;

/// Fixed-point scalar for 255.999, the byte scaling factor.
pub const BYTE_SCALE_FX: i64 = 255_999_000;

/// Fixed-point scalar for 0.999, the top of the intensity clamp.
pub const INTENSITY_MAX_FX: i64 = 999_000;

/// Gamma correction: the square root of a positive component, zero
/// otherwise (a gamma-two curve approximating the display gamma).
pub open spec fn s_linear_to_gamma(x: int) -> int {
    if x > 0 {
        fx_sqrt(x)
    } else {
        0
    }
}

/// The output byte of one color component: gamma-corrected, clamped
/// into `[0, 0.999]`, scaled by 255.999 and truncated.
pub open spec fn s_byte_of(x: int) -> int {
    let g = s_linear_to_gamma(x);
    let c = fx_clamp(g, 0, INTENSITY_MAX_FX as int);
    div_t(fx_mul(BYTE_SCALE_FX as int, c), SCALE as int)
}

/// Decimal digits of a byte value.
pub open spec fn s_decimal(n: int) -> Seq<u8> {
    if n < 10 {
        seq![(48 + n) as u8]
    } else if n < 100 {
        seq![(48 + n / 10) as u8, (48 + n % 10) as u8]
    } else {
        seq![(48 + n / 100) as u8, (48 + (n / 10) % 10) as u8, (48 + n % 10) as u8]
    }
}

/// The raster line of one pixel: three space-separated byte values and
/// a newline.
pub open spec fn s_color_line(c: Vec3) -> Seq<u8> {
    s_decimal(s_byte_of(c.x as int)) + seq![32u8] + s_decimal(s_byte_of(c.y as int)) + seq![
        32u8,
    ] + s_decimal(s_byte_of(c.z as int)) + seq![10u8]
}

/// The gamma curve at its anchor points: zero stays zero, one stays
/// one, and one quarter maps to one half.
pub proof fn lemma_gamma_anchor_points()
    ensures
        s_linear_to_gamma(0) == 0,
        s_linear_to_gamma(SCALE as int) == SCALE as int,
        s_linear_to_gamma((SCALE as int) / 4) == (SCALE as int) / 2,
{
    assert(1_000_000int * 1_000_000int == 1_000_000_000_000int);
    assert(1_000_001int * 1_000_001int == 1_000_002_000_001int);
    crate::fixed::lemma_sqrt_floor_unique(1_000_000_000_000nat, 1_000_000nat);
    assert(500_000int * 500_000int == 250_000_000_000int);
    assert(500_001int * 500_001int == 250_001_000_001int);
    crate::fixed::lemma_sqrt_floor_unique(250_000_000_000nat, 500_000nat);
    assert((SCALE as int) / 4 == 250_000int);
    assert((SCALE as int) / 2 == 500_000int);
}

pub fn linear_to_gamma(linear_component: i64) -> (r: i64)
    ensures
        r as int == s_linear_to_gamma(linear_component as int),
        r >= 0,
{
    if linear_component > 0 {
        sqrt_fx(linear_component)
    } else {
        0
    }
}

/// The output byte of one color component.
fn byte_of(x: i64) -> (r: u8)
    ensures
        r as int == s_byte_of(x as int),
{
    let g = linear_to_gamma(x);
    let intensity = Interval::new(0, INTENSITY_MAX_FX);
    let c = intensity.clamp(g);
    let scaled = mul_fx(BYTE_SCALE_FX, c);
    let b = div_trunc(scaled, SCALE);
    proof {
        let cc = c as int;
        let bs = BYTE_SCALE_FX as int;
        lemma_mul_sign(bs, cc);
        lemma_mul_le_mono(cc, INTENSITY_MAX_FX as int, bs);
        lemma_mul_comm(cc, bs);
        lemma_mul_comm(INTENSITY_MAX_FX as int, bs);
        lemma_div_t_le(bs * cc, bs * (INTENSITY_MAX_FX as int), SCALE as int);
        assert(255_743_001_000_000int / 1_000_000int == 255_743_001int);
        assert(div_t(255_743_001_000_000, 1_000_000) == 255_743_001int);
        assert(255_743_001int / 1_000_000int == 255int);
        assert(div_t(255_743_001, 1_000_000) == 255int);
        lemma_div_floor_bounds(bs * cc, SCALE as int);
        lemma_div_t_le(fx_mul(bs, cc), 255_743_001, SCALE as int);
    }
    b as u8
}

/// Push the decimal digits of a byte value.
fn push_decimal(out: &mut Vec<u8>, n: u8)
    ensures
        final(out)@ == old(out)@ + s_decimal(n as int),
{
    if n < 10 {
        out.push(48 + n);
        proof {
            assert(out@ =~= old(out)@ + s_decimal(n as int));
        }
    } else if n < 100 {
        out.push(48 + n / 10);
        out.push(48 + n % 10);
        proof {
            assert(out@ =~= old(out)@ + s_decimal(n as int));
        }
    } else {
        out.push(48 + n / 100);
        out.push(48 + (n / 10) % 10);
        out.push(48 + n % 10);
        proof {
            assert(out@ =~= old(out)@ + s_decimal(n as int));
        }
    }
}

/// Append the raster line of one pixel to the output byte stream.
pub fn write_color(out: &mut Vec<u8>, pixel_color: Color)
    ensures
        final(out)@ == old(out)@ + s_color_line(pixel_color),
{
    let r = byte_of(pixel_color.x);
    let g = byte_of(pixel_color.y);
    let b = byte_of(pixel_color.z);
    push_decimal(out, r);
    out.push(32);
    push_decimal(out, g);
    out.push(32);
    push_decimal(out, b);
    out.push(10);
    proof {
        assert(out@ =~= old(out)@ + s_color_line(pixel_color));
    }
}

} // verus!
