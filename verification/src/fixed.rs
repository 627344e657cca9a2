//! Fixed-point scalars.
//!
//! A real number `v` is stored as the `i64` nearest `v * SCALE` toward
//! zero.  Multiplication and division rescale through a `u128`
//! magnitude and saturate at the `i64` range; division by zero
//! saturates toward the sign of the dividend.  Saturation stands in for
//! the infinities that the corresponding unguarded floating-point
//! operations would produce.

use vstd::prelude::*;
use vstd::arithmetic::div_mod::{lemma_fundamental_div_mod, lemma_mod_division_less_than_divisor};
use vstd::math::abs;

verus! {

/// Fixed-point steps in one unit: a scalar `x: i64` stands for `x / SCALE`.
pub const SCALE: i64 = 1_000_000;

/// Saturate an unbounded integer at the `i64` range.
pub open spec fn clip(x: int) -> int {
    if x > i64::MAX as int {
        i64::MAX as int
    } else if x < i64::MIN as int {
        i64::MIN as int
    } else {
        x
    }
}

/// Quotient rounded toward zero, as machine division of signed integers
/// computes it (`/` on `int` alone is Euclidean).
pub open spec fn div_t(a: int, b: int) -> int {
    let q = abs(a) as int / abs(b) as int;
    if (a >= 0) == (b >= 0) {
        q
    } else {
        -q
    }
}

/// Saturating fixed-point sum.
pub open spec fn fx_add(a: int, b: int) -> int {
    clip(a + b)
}

/// Saturating fixed-point difference.
pub open spec fn fx_sub(a: int, b: int) -> int {
    clip(a - b)
}

/// Saturating fixed-point negation.
pub open spec fn fx_neg(a: int) -> int {
    clip(-a)
}

/// Saturating fixed-point product: `a * b / SCALE`, rounded toward zero.
pub open spec fn fx_mul(a: int, b: int) -> int {
    clip(div_t(a * b, SCALE as int))
}

/// Saturating fixed-point quotient: `a * SCALE / b`, rounded toward
/// zero; a zero divisor saturates toward the sign of the dividend.
pub open spec fn fx_div(a: int, b: int) -> int {
    if b == 0 {
        if a > 0 {
            i64::MAX as int
        } else if a < 0 {
            i64::MIN as int
        } else {
            0
        }
    } else {
        clip(div_t(a * (SCALE as int), b))
    }
}

/// Largest `r` with `r * r <= n`.
pub open spec fn sqrt_floor(n: nat) -> nat
    decreases n,
{
    if n == 0 {
        0
    } else {
        let s = sqrt_floor((n - 1) as nat);
        if (s + 1) * (s + 1) <= n {
            s + 1
        } else {
            s
        }
    }
}

/// Fixed-point square root of a non-positive scalar is zero, as the
/// gamma curve treats its non-positive inputs.
pub open spec fn fx_sqrt(x: int) -> int {
    if x <= 0 {
        0
    } else {
        sqrt_floor((x * SCALE) as nat) as int
    }
}

/// Clamp `x` into `[lo, hi]`.
pub open spec fn fx_clamp(x: int, lo: int, hi: int) -> int {
    if x < lo {
        lo
    } else if x > hi {
        hi
    } else {
        x
    }
}

/// Magnitudes multiply: `|a * b| == |a| * |b|`.
pub proof fn lemma_abs_mul(a: int, b: int)
    by (nonlinear_arith)
    ensures
        abs(a * b) == abs(a) * abs(b),
{
}

/// Multiplying a larger non-negative factor gives a larger product.
pub proof fn lemma_mul_le_mono(a: int, b: int, c: int)
    by (nonlinear_arith)
    requires
        0 <= a <= b,
        0 <= c,
    ensures
        a * c <= b * c,
{
}

/// The sign of a product follows the signs of its factors.
pub proof fn lemma_mul_sign(a: int, b: int)
    by (nonlinear_arith)
    ensures
        a >= 0 && b >= 0 ==> a * b >= 0,
        a <= 0 && b <= 0 ==> a * b >= 0,
        a >= 0 && b <= 0 ==> a * b <= 0,
        a <= 0 && b >= 0 ==> a * b <= 0,
{
}

/// `sqrt_floor(n)` is the floor of the square root of `n`.
pub proof fn lemma_sqrt_floor_bounds(n: nat)
    ensures
        sqrt_floor(n) * sqrt_floor(n) <= n,
        n < (sqrt_floor(n) + 1) * (sqrt_floor(n) + 1),
    decreases n,
{
    if n == 0 {
        assert(sqrt_floor(n) == 0);
        assert((sqrt_floor(n) + 1) * (sqrt_floor(n) + 1) == 1) by (nonlinear_arith)
            requires
                sqrt_floor(n) == 0,
        ;
    } else {
        let m = (n - 1) as nat;
        let s = sqrt_floor(m);
        lemma_sqrt_floor_bounds(m);
        assert(s * s <= m);
        assert(m < (s + 1) * (s + 1));
        if (s + 1) * (s + 1) <= n {
            assert(sqrt_floor(n) == s + 1);
            assert(n == (s + 1) * (s + 1));
            assert((s + 1) * (s + 1) < ((s + 1) + 1) * ((s + 1) + 1)) by (nonlinear_arith)
                requires
                    s >= 0,
            ;
            assert(n < (sqrt_floor(n) + 1) * (sqrt_floor(n) + 1));
        } else {
            assert(sqrt_floor(n) == s);
            assert(n < (s + 1) * (s + 1));
            assert(n < (sqrt_floor(n) + 1) * (sqrt_floor(n) + 1));
        }
    }
}

/// Any `r` in the floor-square-root window equals `sqrt_floor(n)`.
pub proof fn lemma_sqrt_floor_unique(n: nat, r: nat)
    requires
        r * r <= n,
        n < (r + 1) * (r + 1),
    ensures
        r == sqrt_floor(n),
{
    let s = sqrt_floor(n);
    lemma_sqrt_floor_bounds(n);
    if r < s {
        assert((r + 1) * (r + 1) <= s * s) by (nonlinear_arith)
            requires
                0 <= r + 1 <= s,
        ;
    }
    if s < r {
        assert((s + 1) * (s + 1) <= r * r) by (nonlinear_arith)
            requires
                0 <= s + 1 <= r,
        ;
    }
}

/// Multiplication commutes.
pub proof fn lemma_mul_comm(a: int, b: int)
    by (nonlinear_arith)
    ensures
        a * b == b * a,
{
}

/// Truncating division by a positive divisor is monotone on
/// non-negative dividends.
pub proof fn lemma_div_t_le(a: int, b: int, d: int)
    requires
        0 <= a <= b,
        d > 0,
    ensures
        div_t(a, d) <= div_t(b, d),
{
    lemma_div_floor_bounds(a, d);
    lemma_div_floor_bounds(b, d);
    let qa = a / d;
    let qb = b / d;
    assert(qa <= qb) by (nonlinear_arith)
        requires
            qa * d <= a,
            a <= b,
            b < (qb + 1) * d,
            d > 0,
    ;
}

/// A truncating quotient named exactly: `q` with `q b <= a < (q + 1) b`.
pub proof fn lemma_div_t_exact(a: int, b: int, q: int)
    requires
        a >= 0,
        b > 0,
        q * b <= a,
        a < (q + 1) * b,
    ensures
        div_t(a, b) == q,
{
    lemma_div_floor_bounds(a, b);
    let q0 = a / b;
    assert(q == q0) by (nonlinear_arith)
        requires
            q * b <= a,
            a < (q + 1) * b,
            q0 * b <= a,
            a < (q0 + 1) * b,
            b > 0,
    ;
}

/// A non-negative dividend divided by a positive divisor: the quotient
/// is non-negative and multiplies back to no more than the dividend.
pub proof fn lemma_div_floor_bounds(a: int, b: int)
    requires
        a >= 0,
        b > 0,
    ensures
        0 <= a / b,
        (a / b) * b <= a,
        a < (a / b + 1) * b,
{
    lemma_fundamental_div_mod(a, b);
    lemma_mod_division_less_than_divisor(a, b);
    let q = a / b;
    let r = a % b;
    assert(0 <= q && q * b <= a && a < (q + 1) * b) by (nonlinear_arith)
        requires
            a == b * q + r,
            0 <= r < b,
            a >= 0,
            b > 0,
    ;
}

/// Multiplying by the fixed-point one is the identity, up to
/// saturation.
pub proof fn lemma_fx_mul_one(x: int)
    ensures
        fx_mul(x, SCALE as int) == clip(x),
{
    if x >= 0 {
        lemma_mul_sign(x, SCALE as int);
        assert(x * (SCALE as int) < (x + 1) * (SCALE as int)) by (nonlinear_arith)
            requires
                SCALE as int > 0,
        ;
        lemma_div_t_exact(x * (SCALE as int), SCALE as int, x);
    } else {
        lemma_abs_mul(x, SCALE as int);
        lemma_mul_sign(x, SCALE as int);
        assert((-x) * (SCALE as int) == -(x * (SCALE as int))) by (nonlinear_arith);
        assert((-x) * (SCALE as int) < ((-x) + 1) * (SCALE as int)) by (nonlinear_arith)
            requires
                SCALE as int > 0,
        ;
        lemma_div_t_exact((-x) * (SCALE as int), SCALE as int, -x);
        assert(abs(x * (SCALE as int)) == abs(x) * (SCALE as int));
        assert(abs(x) == -x);
        assert(div_t(x * (SCALE as int), SCALE as int) == -div_t(
            (-x) * (SCALE as int),
            SCALE as int,
        ));
    }
}

/// Multiplying by the fixed-point zero gives zero.
pub proof fn lemma_fx_mul_zero(x: int)
    ensures
        fx_mul(x, 0) == 0,
        fx_mul(0, x) == 0,
{
    assert(x * 0 == 0) by (nonlinear_arith);
    assert(0 * x == 0) by (nonlinear_arith);
    assert(abs(0int) as int / abs(SCALE as int) as int == 0int);
}

/// Dividing the fixed-point zero gives zero.
pub proof fn lemma_fx_div_zero(b: int)
    ensures
        fx_div(0, b) == 0,
{
    if b != 0 {
        assert(0 * (SCALE as int) == 0) by (nonlinear_arith);
        let m = abs(b) as int;
        lemma_div_floor_bounds(0, m);
        let q = 0int / m;
        assert(q == 0) by (nonlinear_arith)
            requires
                q >= 0,
                q * m <= 0,
                m > 0,
        ;
        assert(abs(0int) == 0nat);
    }
}

/// A quotient of magnitude at most one: `|a| <= b` keeps `fx_div(a, b)`
/// inside `[-1, 1]` in fixed-point terms.
pub proof fn lemma_fx_div_unit(a: int, b: int)
    requires
        abs(a) <= b,
        b > 0,
    ensures
        -(SCALE as int) <= fx_div(a, b) <= SCALE as int,
{
    lemma_abs_mul(a, SCALE as int);
    lemma_div_floor_bounds(abs(a) as int * (SCALE as int), b);
    let q = (abs(a) as int * (SCALE as int)) / b;
    lemma_mul_le_mono(abs(a) as int, b, SCALE as int);
    assert(q <= SCALE as int) by (nonlinear_arith)
        requires
            q * b <= abs(a) as int * (SCALE as int),
            abs(a) as int * (SCALE as int) <= b * (SCALE as int),
            b > 0,
            q >= 0,
    ;
    assert(b * (SCALE as int) == SCALE as int * b) by (nonlinear_arith);
    assert(abs(a * (SCALE as int)) == abs(a) * (SCALE as int));
}

/// Magnitude of a `i64`, as a `u128`.
fn mag64(a: i64) -> (m: u128)
    ensures
        m as int == abs(a as int),
{
    if a < 0 {
        (-(a as i128)) as u128
    } else {
        a as u128
    }
}

/// Apply a sign to a magnitude and saturate at the `i64` range.
fn sign_sat(neg: bool, q: u128) -> (r: i64)
    ensures
        r as int == clip(if neg { -(q as int) } else { q as int }),
{
    if neg {
        if q >= 9_223_372_036_854_775_808u128 {
            i64::MIN
        } else {
            -(q as i64)
        }
    } else {
        if q > i64::MAX as u128 {
            i64::MAX
        } else {
            q as i64
        }
    }
}

/// Saturating product of two `i64` values, rescaled by `SCALE`.
pub fn mul_fx(a: i64, b: i64) -> (r: i64)
    ensures
        r as int == fx_mul(a as int, b as int),
{
    let am = mag64(a);
    let bm = mag64(b);
    proof {
        lemma_mul_le_mono(am as int, 0x8000_0000_0000_0000, bm as int);
        lemma_mul_le_mono(bm as int, 0x8000_0000_0000_0000, 0x8000_0000_0000_0000);
    }
    let m: u128 = am * bm;
    let q: u128 = m / (SCALE as u128);
    proof {
        lemma_abs_mul(a as int, b as int);
        lemma_div_floor_bounds(m as int, SCALE as int);
        lemma_mul_sign(a as int, b as int);
    }
    sign_sat((a < 0) != (b < 0), q)
}

/// Saturating quotient of two `i64` values, rescaled by `SCALE`; a zero
/// divisor saturates toward the sign of the dividend.
pub fn div_fx(a: i64, b: i64) -> (r: i64)
    ensures
        r as int == fx_div(a as int, b as int),
{
    if b == 0 {
        if a > 0 {
            i64::MAX
        } else if a < 0 {
            i64::MIN
        } else {
            0
        }
    } else {
        let am = mag64(a);
        let bm = mag64(b);
        proof {
            lemma_mul_le_mono(am as int, 0x8000_0000_0000_0000, SCALE as int);
        }
        let m: u128 = am * (SCALE as u128);
        let q: u128 = m / bm;
        proof {
            lemma_abs_mul(a as int, SCALE as int);
            lemma_div_floor_bounds(m as int, bm as int);
            lemma_mul_sign(a as int, SCALE as int);
        }
        sign_sat((a < 0) != (b < 0), q)
    }
}

/// Truncating quotient of two `i64` values, without rescaling.
pub fn div_trunc(a: i64, b: i64) -> (r: i64)
    requires
        b != 0,
    ensures
        r as int == clip(div_t(a as int, b as int)),
{
    let am = mag64(a);
    let bm = mag64(b);
    let q: u128 = am / bm;
    proof {
        lemma_div_floor_bounds(am as int, bm as int);
    }
    sign_sat((a < 0) != (b < 0), q)
}

/// Saturating sum of two `i64` values.
pub fn add_fx(a: i64, b: i64) -> (r: i64)
    ensures
        r as int == fx_add(a as int, b as int),
{
    let s: i128 = (a as i128) + (b as i128);
    if s > (i64::MAX as i128) {
        i64::MAX
    } else if s < (i64::MIN as i128) {
        i64::MIN
    } else {
        s as i64
    }
}

/// Saturating difference of two `i64` values.
pub fn sub_fx(a: i64, b: i64) -> (r: i64)
    ensures
        r as int == fx_sub(a as int, b as int),
{
    let s: i128 = (a as i128) - (b as i128);
    if s > (i64::MAX as i128) {
        i64::MAX
    } else if s < (i64::MIN as i128) {
        i64::MIN
    } else {
        s as i64
    }
}

/// Saturating negation of an `i64` value.
pub fn neg_fx(a: i64) -> (r: i64)
    ensures
        r as int == fx_neg(a as int),
{
    if a == i64::MIN {
        i64::MAX
    } else {
        -a
    }
}

/// `2^63`, the bisection ceiling of `isqrt_u128`.
pub const SQRT_HI: u128 = 9_223_372_036_854_775_808;

/// `2^126 == SQRT_HI * SQRT_HI`, the input ceiling of `isqrt_u128`.
pub const SQRT_CAP: u128 = 85_070_591_730_234_615_865_843_651_857_942_052_864;

/// Floor of the square root of `n`, by bisection.
fn isqrt_u128(n: u128) -> (r: u128)
    requires
        n < SQRT_CAP,
    ensures
        r as nat == sqrt_floor(n as nat),
        r * r <= n,
{
    let mut lo: u128 = 0;
    let mut hi: u128 = SQRT_HI;
    proof {
        assert(SQRT_HI as int * SQRT_HI as int == SQRT_CAP as int) by (nonlinear_arith);
    }
    while lo + 1 < hi
        invariant
            lo < hi,
            hi <= SQRT_HI,
            SQRT_HI as int * SQRT_HI as int == SQRT_CAP as int,
            (lo as int) * (lo as int) <= n as int,
            (hi as int) * (hi as int) > n as int,
            n < SQRT_CAP,
        decreases hi - lo,
    {
        let mid: u128 = lo + (hi - lo) / 2;
        proof {
            assert(lo < mid < hi);
            assert((mid as int) * (mid as int) <= SQRT_CAP as int) by (nonlinear_arith)
                requires
                    0 <= mid as int,
                    mid as int <= SQRT_HI as int,
                    SQRT_HI as int * SQRT_HI as int == SQRT_CAP as int,
            ;
        }
        if mid * mid <= n {
            lo = mid;
        } else {
            hi = mid;
        }
    }
    proof {
        assert(hi == lo + 1);
        lemma_sqrt_floor_unique(n as nat, lo as nat);
    }
    lo
}

/// Fixed-point square root: zero on non-positive input, else the
/// rescaled floor square root.
pub fn sqrt_fx(x: i64) -> (r: i64)
    ensures
        r as int == fx_sqrt(x as int),
        r >= 0,
{
    if x <= 0 {
        0
    } else {
        proof {
            lemma_mul_le_mono(x as int, i64::MAX as int, SCALE as int);
        }
        let n: u128 = (x as u128) * (SCALE as u128);
        let r = isqrt_u128(n);
        proof {
            assert((r as int) * (r as int) <= n as int);
            assert(r as int <= i64::MAX as int) by (nonlinear_arith)
                requires
                    r as int >= 0,
                    (r as int) * (r as int) <= n as int,
                    n as int <= (i64::MAX as int) * (SCALE as int),
            ;
        }
        r as i64
    }
}

} // verus!
