//! Three-component fixed-point vectors, used for points and colors.

use vstd::prelude::*;
use crate::fixed::{
    SCALE, div_t, fx_add, fx_sub, fx_neg, fx_mul, fx_div, fx_sqrt, add_fx, sub_fx, neg_fx,
    mul_fx, div_fx, sqrt_fx,
};
use crate::rng::{Rng, unit_of, next_state};

verus! {

/// Fixed-point scalar for the real number two.
pub const TWO_FX: i64 = 2_000_000;

/// How many rejection draws a ball or disk sampler makes before it falls
/// back to a fixed interior point.
pub const SAMPLE_ATTEMPTS: u32 = 64;

#[derive(Clone, Copy, Debug, PartialEq, Eq, Structural)]
pub struct Vec3 {
    pub x: i64,
    pub y: i64,
    pub z: i64,
}

pub type Point3 = Vec3;

/// The zero vector.
pub open spec fn s_zero() -> Vec3 {
    Vec3 { x: 0, y: 0, z: 0 }
}

/// Componentwise saturating sum.
pub open spec fn s_add(a: Vec3, b: Vec3) -> Vec3 {
    Vec3 {
        x: fx_add(a.x as int, b.x as int) as i64,
        y: fx_add(a.y as int, b.y as int) as i64,
        z: fx_add(a.z as int, b.z as int) as i64,
    }
}

/// Componentwise saturating difference.
pub open spec fn s_sub(a: Vec3, b: Vec3) -> Vec3 {
    Vec3 {
        x: fx_sub(a.x as int, b.x as int) as i64,
        y: fx_sub(a.y as int, b.y as int) as i64,
        z: fx_sub(a.z as int, b.z as int) as i64,
    }
}

/// Componentwise saturating negation.
pub open spec fn s_neg(a: Vec3) -> Vec3 {
    Vec3 {
        x: fx_neg(a.x as int) as i64,
        y: fx_neg(a.y as int) as i64,
        z: fx_neg(a.z as int) as i64,
    }
}

/// Componentwise fixed-point product, as colors attenuate.
pub open spec fn s_mul(a: Vec3, b: Vec3) -> Vec3 {
    Vec3 {
        x: fx_mul(a.x as int, b.x as int) as i64,
        y: fx_mul(a.y as int, b.y as int) as i64,
        z: fx_mul(a.z as int, b.z as int) as i64,
    }
}

/// Vector scaled by a fixed-point scalar.
pub open spec fn s_scale(a: Vec3, t: int) -> Vec3 {
    Vec3 {
        x: fx_mul(a.x as int, t) as i64,
        y: fx_mul(a.y as int, t) as i64,
        z: fx_mul(a.z as int, t) as i64,
    }
}

/// Vector divided by a fixed-point scalar.
pub open spec fn s_div(a: Vec3, t: int) -> Vec3 {
    Vec3 {
        x: fx_div(a.x as int, t) as i64,
        y: fx_div(a.y as int, t) as i64,
        z: fx_div(a.z as int, t) as i64,
    }
}

/// Fixed-point dot product, summed with saturation.
pub open spec fn s_dot(a: Vec3, b: Vec3) -> int {
    fx_add(
        fx_add(fx_mul(a.x as int, b.x as int), fx_mul(a.y as int, b.y as int)),
        fx_mul(a.z as int, b.z as int),
    )
}

/// Fixed-point cross product.
pub open spec fn s_cross(a: Vec3, b: Vec3) -> Vec3 {
    Vec3 {
        x: fx_sub(fx_mul(a.y as int, b.z as int), fx_mul(a.z as int, b.y as int)) as i64,
        y: fx_sub(fx_mul(a.z as int, b.x as int), fx_mul(a.x as int, b.z as int)) as i64,
        z: fx_sub(fx_mul(a.x as int, b.y as int), fx_mul(a.y as int, b.x as int)) as i64,
    }
}

/// Squared length.
pub open spec fn s_length_squared(a: Vec3) -> int {
    s_dot(a, a)
}

/// Length: the fixed-point square root of the squared length.
pub open spec fn s_length(a: Vec3) -> int {
    fx_sqrt(s_length_squared(a))
}

/// The vector divided by its own length.
pub open spec fn s_normalized(a: Vec3) -> Vec3 {
    s_div(a, s_length(a))
}

/// Reflection of `v` about the normal `n`: `v - 2 (v . n) n`.
pub open spec fn s_reflect(v: Vec3, n: Vec3) -> Vec3 {
    s_sub(v, s_scale(n, fx_mul(s_dot(v, n), TWO_FX as int)))
}

/// Snell refraction of the unit vector `uv` at normal `n` with index
/// ratio `eta`: perpendicular part `eta (uv + cos_theta n)`, parallel
/// part `-sqrt(max(0, 1 - |perp|^2)) n`.
pub open spec fn s_refract(uv: Vec3, n: Vec3, eta: int) -> Vec3 {
    let cos_theta = {
        let d = s_dot(s_neg(uv), n);
        if d > SCALE as int {
            SCALE as int
        } else {
            d
        }
    };
    let perp = s_scale(s_add(uv, s_scale(n, cos_theta)), eta);
    let k = fx_sub(SCALE as int, s_dot(perp, perp));
    let kpos = if k < 0 {
        0
    } else {
        k
    };
    let par = s_scale(n, fx_neg(fx_sqrt(kpos)));
    s_add(perp, par)
}

/// One uniform component draw in `[min, max)`: the value
/// `min + (max - min) * u` for the state's unit draw `u`, and the state
/// after the draw.
pub open spec fn s_component_draw(st: u64, min: int, max: int) -> (int, u64) {
    (fx_add(min, fx_mul(fx_sub(max, min), unit_of(st))), next_state(st))
}

/// Three unit draws in `[0, 1)`, one per component.
pub open spec fn s_vec_draw(st: u64) -> (Vec3, u64) {
    let st1 = next_state(st);
    let st2 = next_state(st1);
    (
        Vec3 { x: unit_of(st) as i64, y: unit_of(st1) as i64, z: unit_of(st2) as i64 },
        next_state(st2),
    )
}

/// Three component draws in `[min, max)`.
pub open spec fn s_interval_draw(st: u64, min: int, max: int) -> (Vec3, u64) {
    let x = s_component_draw(st, min, max);
    let y = s_component_draw(x.1, min, max);
    let z = s_component_draw(y.1, min, max);
    (Vec3 { x: x.0 as i64, y: y.0 as i64, z: z.0 as i64 }, z.1)
}

/// The rejection sampler of the unit ball: the first cube draw strictly
/// inside the ball, or the fixed interior fallback once the tries are
/// spent.
pub open spec fn s_ball_draw(st: u64, tries: nat) -> (Vec3, u64)
    decreases tries,
{
    if tries == 0 {
        (Vec3 { x: 500_000, y: 0, z: 0 }, st)
    } else {
        let d = s_interval_draw(st, -(SCALE as int), SCALE as int);
        if s_length_squared(d.0) < SCALE as int {
            d
        } else {
            s_ball_draw(d.1, (tries - 1) as nat)
        }
    }
}

/// A ball sample, normalized.
pub open spec fn s_unit_vector_draw(st: u64) -> (Vec3, u64) {
    let d = s_ball_draw(st, SAMPLE_ATTEMPTS as nat);
    (s_normalized(d.0), d.1)
}

/// A unit-sphere sample, flipped onto the hemisphere of `normal`.
pub open spec fn s_hemisphere_draw(st: u64, normal: Vec3) -> (Vec3, u64) {
    let d = s_unit_vector_draw(st);
    (
        if s_dot(d.0, normal) > 0 {
            d.0
        } else {
            s_neg(d.0)
        },
        d.1,
    )
}

/// The rejection sampler of the unit disk in the `z = 0` plane, with the
/// same fallback policy as the ball sampler.
pub open spec fn s_disk_draw(st: u64, tries: nat) -> (Vec3, u64)
    decreases tries,
{
    if tries == 0 {
        (Vec3 { x: 500_000, y: 0, z: 0 }, st)
    } else {
        let x = s_component_draw(st, -(SCALE as int), SCALE as int);
        let y = s_component_draw(x.1, -(SCALE as int), SCALE as int);
        let p = Vec3 { x: x.0 as i64, y: y.0 as i64, z: 0 };
        if s_length_squared(p) < SCALE as int {
            (p, y.1)
        } else {
            s_disk_draw(y.1, (tries - 1) as nat)
        }
    }
}

/// A hemisphere draw leans along its normal: away from saturation, the
/// flipped sample's dot with the normal is the exact negation, so the
/// returned sample never opposes the normal.  At the saturated rim of
/// the grid the negation is clipped and the claim does not hold, which
/// is why it is a bounded lemma rather than a clause of the sampler.
pub proof fn lemma_hemisphere_orientation(u: Vec3, n: Vec3)
    requires
        -2_000_000 <= u.x <= 2_000_000,
        -2_000_000 <= u.y <= 2_000_000,
        -2_000_000 <= u.z <= 2_000_000,
        -2_000_000 <= n.x <= 2_000_000,
        -2_000_000 <= n.y <= 2_000_000,
        -2_000_000 <= n.z <= 2_000_000,
    ensures
        s_dot(
            if s_dot(u, n) > 0 {
                u
            } else {
                s_neg(u)
            },
            n,
        ) >= 0,
{
    if s_dot(u, n) <= 0 {
        lemma_term_negates(u.x as int, n.x as int);
        lemma_term_negates(u.y as int, n.y as int);
        lemma_term_negates(u.z as int, n.z as int);
        assert(s_dot(s_neg(u), n) == -s_dot(u, n));
    }
}

/// Negating one bounded factor negates its fixed-point product, with
/// the product staying inside four units.
proof fn lemma_term_negates(a: int, b: int)
    requires
        -2_000_000 <= a <= 2_000_000,
        -2_000_000 <= b <= 2_000_000,
    ensures
        fx_neg(a) == -a,
        fx_mul(-a, b) == -fx_mul(a, b),
        -4_000_000 <= fx_mul(a, b) <= 4_000_000,
{
    crate::fixed::lemma_abs_mul(a, b);
    crate::fixed::lemma_abs_mul(-a, b);
    let m = vstd::math::abs(a * b) as int;
    crate::fixed::lemma_div_floor_bounds(m, SCALE as int);
    assert(vstd::math::abs(a) * vstd::math::abs(b) <= 4_000_000_000_000) by (nonlinear_arith)
        requires
            vstd::math::abs(a) <= 2_000_000,
            vstd::math::abs(b) <= 2_000_000,
    ;
    assert((m / (SCALE as int)) <= 4_000_000) by (nonlinear_arith)
        requires
            (m / (SCALE as int)) * (SCALE as int) <= m,
            m <= 4_000_000_000_000,
            m / (SCALE as int) >= 0,
            SCALE as int == 1_000_000,
    ;
    assert((-a) * b == -(a * b)) by (nonlinear_arith);
    assert(vstd::math::abs(-(a * b)) == vstd::math::abs(a * b));
}

/// One component of the reflection identity:
/// `(p a - 2 d n)^2 == p^2 a^2 - 4 p d (a n) + 4 d^2 n^2`.
proof fn lemma_square_of_difference(p: int, a: int, d: int, n: int)
    ensures
        (p * a - 2 * d * n) * (p * a - 2 * d * n) == p * p * (a * a) - 4 * p * d * (a * n) + 4 * (
        d * d) * (n * n),
{
    let u = p * a;
    let v = d * n;
    assert((u - 2 * v) * (u - 2 * v) == u * u - 4 * (u * v) + 4 * (v * v)) by (nonlinear_arith);
    assert(u * u == p * p * (a * a)) by (nonlinear_arith)
        requires
            u == p * a,
    ;
    assert(u * v == p * d * (a * n)) by (nonlinear_arith)
        requires
            u == p * a,
            v == d * n,
    ;
    assert(v * v == (d * d) * (n * n)) by (nonlinear_arith)
        requires
            v == d * n,
    ;
    assert(2 * d * n == 2 * v) by (nonlinear_arith)
        requires
            v == d * n,
    ;
    assert(4 * p * d * (a * n) == 4 * (u * v)) by (nonlinear_arith)
        requires
            u == p * a,
            v == d * n,
            u * v == p * d * (a * n),
    ;
    assert(4 * (d * d) * (n * n) == 4 * (v * v)) by (nonlinear_arith)
        requires
            v == d * n,
    ;
}

/// Reflection preserves length in exact arithmetic: for any vector `a`
/// and any normal `n` of exact length `s` (that is `n . n == s^2`), the
/// reflection `s^2 a - 2 (a . n) n` has the squared length of `s^2 a`.
/// The executable `reflect` computes this up to one rounding per
/// product on the fixed-point grid.
pub proof fn lemma_reflect_preserves_length_exact(
    ax: int,
    ay: int,
    az: int,
    nx: int,
    ny: int,
    nz: int,
    s: int,
)
    requires
        nx * nx + ny * ny + nz * nz == s * s,
    ensures
        ({
            let d = ax * nx + ay * ny + az * nz;
            let rx = s * s * ax - 2 * d * nx;
            let ry = s * s * ay - 2 * d * ny;
            let rz = s * s * az - 2 * d * nz;
            rx * rx + ry * ry + rz * rz == (s * s) * (s * s) * (ax * ax + ay * ay + az * az)
        }),
{
    let d = ax * nx + ay * ny + az * nz;
    let ss = s * s;
    let rx = s * s * ax - 2 * d * nx;
    let ry = s * s * ay - 2 * d * ny;
    let rz = s * s * az - 2 * d * nz;
    lemma_square_of_difference(ss, ax, d, nx);
    lemma_square_of_difference(ss, ay, d, ny);
    lemma_square_of_difference(ss, az, d, nz);
    assert(ss * ss * (ax * ax) + ss * ss * (ay * ay) + ss * ss * (az * az) == ss * ss * (ax * ax
        + ay * ay + az * az)) by (nonlinear_arith);
    assert(4 * ss * d * (ax * nx) + 4 * ss * d * (ay * ny) + 4 * ss * d * (az * nz) == 4 * ss * (d
        * d)) by (nonlinear_arith)
        requires
            d == ax * nx + ay * ny + az * nz,
    ;
    assert(4 * (d * d) * (nx * nx) + 4 * (d * d) * (ny * ny) + 4 * (d * d) * (nz * nz) == 4 * ss
        * (d * d)) by (nonlinear_arith)
        requires
            nx * nx + ny * ny + nz * nz == ss,
    ;
    assert(ss * ss * (ax * ax + ay * ay + az * az) == (s * s) * (s * s) * (ax * ax + ay * ay + az
        * az)) by (nonlinear_arith)
        requires
            ss == s * s,
    ;
}

/// A normalized vector has length one up to a few fixed-point steps:
/// for every vector of length at least one unit, with components inside
/// a thousand units, the squared length of `s_normalized` lies within
/// twenty steps of the fixed-point one.  Shorter vectors lose relative
/// precision to the grid; the executable code leaves them to the same
/// saturating arithmetic as the unguarded division they stand for.
pub proof fn lemma_normalized_length(v: Vec3)
    requires
        s_length(v) >= SCALE as int,
        -1_000_000_000 <= v.x <= 1_000_000_000,
        -1_000_000_000 <= v.y <= 1_000_000_000,
        -1_000_000_000 <= v.z <= 1_000_000_000,
    ensures
        SCALE as int - 20 <= s_length_squared(s_normalized(v)) <= SCALE as int + 20,
{
    let s = SCALE as int;
    let cx = v.x as int;
    let cy = v.y as int;
    let cz = v.z as int;

    // The squared length window: lsv * s <= cx^2 + cy^2 + cz^2 < lsv * s + 3 s.
    let mx = fx_mul(cx, cx);
    let my = fx_mul(cy, cy);
    let mz = fx_mul(cz, cz);
    lemma_square_term_window(cx);
    lemma_square_term_window(cy);
    lemma_square_term_window(cz);
    let lsv = s_length_squared(v);
    assert(lsv == mx + my + mz);
    let sumc = cx * cx + cy * cy + cz * cz;
    assert(lsv * s == mx * s + my * s + mz * s) by (nonlinear_arith)
        requires
            lsv == mx + my + mz,
            s == SCALE as int,
    ;
    assert(lsv * s <= sumc < lsv * s + 3 * s);

    // The length window: l^2 <= lsv * s < (l + 1)^2, so each component
    // magnitude stays under l + 3.
    let l = s_length(v);
    assert(lsv > 0) by {
        if lsv <= 0 {
            assert(l == 0);
        }
    }
    assert(l as nat == crate::fixed::sqrt_floor((lsv * s) as nat));
    crate::fixed::lemma_sqrt_floor_bounds((lsv * s) as nat);
    assert(l * l <= lsv * s < (l + 1) * (l + 1));
    assert(sumc < (l + 3) * (l + 3)) by (nonlinear_arith)
        requires
            sumc < (l + 1) * (l + 1) + 3 * s,
            l >= s,
            s >= 2,
    ;
    assert(-(l + 2) <= cx <= l + 2 && -(l + 2) <= cy <= l + 2 && -(l + 2) <= cz <= l + 2)
        by (nonlinear_arith)
        requires
            cx * cx + cy * cy + cz * cz == sumc,
            sumc < (l + 3) * (l + 3),
            l > 0,
    ;

    // Each normalized component divides with less than one length of
    // truncation error.
    lemma_component_division_error(cx, l);
    lemma_component_division_error(cy, l);
    lemma_component_division_error(cz, l);
    let ux = s_normalized(v).x as int;
    let uy = s_normalized(v).y as int;
    let uz = s_normalized(v).z as int;
    assert(ux == div_t(cx * s, l) && uy == div_t(cy * s, l) && uz == div_t(cz * s, l));
    assert(-l < ux * l - cx * s < l && -l < uy * l - cy * s < l && -l < uz * l - cz * s < l) by {
        lemma_abs_window(ux * l - cx * s, l);
        lemma_abs_window(uy * l - cy * s, l);
        lemma_abs_window(uz * l - cz * s, l);
    }
    lemma_component_square_bound(cx, l, ux);
    lemma_component_square_bound(cy, l, uy);
    lemma_component_square_bound(cz, l, uz);

    // Sum the three squared-error windows against the length window.
    let sumu = ux * ux + uy * uy + uz * uz;
    let err = 2 * (l + 2) * s * l + l * l;
    assert(sumu * (l * l) == (ux * ux) * (l * l) + (uy * uy) * (l * l) + (uz * uz) * (l * l))
        by (nonlinear_arith)
        requires
            sumu == ux * ux + uy * uy + uz * uz,
    ;
    assert((cx * s) * (cx * s) == (s * s) * (cx * cx)) by (nonlinear_arith);
    assert((cy * s) * (cy * s) == (s * s) * (cy * cy)) by (nonlinear_arith);
    assert((cz * s) * (cz * s) == (s * s) * (cz * cz)) by (nonlinear_arith);
    assert((s * s) * (cx * cx) + (s * s) * (cy * cy) + (s * s) * (cz * cz) == (s * s) * sumc)
        by (nonlinear_arith)
        requires
            sumc == cx * cx + cy * cy + cz * cz,
    ;
    assert((s * s) * sumc - 3 * err <= sumu * (l * l) <= (s * s) * sumc + 3 * err);
    assert(l * l <= sumc) by (nonlinear_arith)
        requires
            l * l <= lsv * s,
            lsv * s <= sumc,
    ;
    assert((s * s) * (l * l) <= (s * s) * sumc) by (nonlinear_arith)
        requires
            l * l <= sumc,
            s > 0,
    ;
    assert((s * s) * sumc <= (s * s) * (l * l) + 5 * s * (l * l)) by (nonlinear_arith)
        requires
            sumc < (l + 1) * (l + 1) + 3 * s,
            l >= s,
            s >= 2,
    ;
    assert(2 * (l + 2) * s * l <= 4 * s * (l * l)) by (nonlinear_arith)
        requires
            l >= s,
            s >= 2,
    ;
    assert(3 * err <= 12 * s * (l * l) + 3 * (l * l)) by (nonlinear_arith)
        requires
            err == 2 * (l + 2) * s * l + l * l,
            2 * (l + 2) * s * l <= 4 * s * (l * l),
    ;
    assert(12 * s * (l * l) + 3 * (l * l) <= (13 * s) * (l * l)) by (nonlinear_arith)
        requires
            s == 1_000_000,
            l >= s,
    ;

    // Divide the window by the positive square of the length.
    let dd = sumu - s * s;
    assert(dd * (l * l) == sumu * (l * l) - (s * s) * (l * l)) by (nonlinear_arith)
        requires
            dd == sumu - s * s,
    ;
    assert(-(13 * s) * (l * l) <= dd * (l * l) <= (18 * s) * (l * l)) by (nonlinear_arith)
        requires
            dd * (l * l) == sumu * (l * l) - (s * s) * (l * l),
            (s * s) * sumc - 3 * err <= sumu * (l * l) <= (s * s) * sumc + 3 * err,
            (s * s) * (l * l) <= (s * s) * sumc,
            (s * s) * sumc <= (s * s) * (l * l) + 5 * s * (l * l),
            3 * err <= (13 * s) * (l * l),
    ;
    assert(-(13 * s) <= dd <= 18 * s) by (nonlinear_arith)
        requires
            -(13 * s) * (l * l) <= dd * (l * l) <= (18 * s) * (l * l),
            l > 0,
    ;

    // The final squared length truncates each square once more.
    let qx = fx_mul(ux, ux);
    let qy = fx_mul(uy, uy);
    let qz = fx_mul(uz, uz);
    lemma_unit_square_term_window(ux);
    lemma_unit_square_term_window(uy);
    lemma_unit_square_term_window(uz);
    let lsu = s_length_squared(s_normalized(v));
    assert(lsu == qx + qy + qz);
    assert(lsu * s == qx * s + qy * s + qz * s) by (nonlinear_arith)
        requires
            lsu == qx + qy + qz,
            s == SCALE as int,
    ;
    assert(lsu * s <= sumu < lsu * s + 3 * s);
    assert(lsu * s <= s * s + 18 * s && s * s - 16 * s < lsu * s) by {
        assert(sumu == s * s + dd);
    }
    assert((s + 18) * s == s * s + 18 * s) by (nonlinear_arith);
    assert((s - 16) * s == s * s - 16 * s) by (nonlinear_arith);
    assert(s - 16 < lsu <= s + 18) by (nonlinear_arith)
        requires
            lsu * s <= (s + 18) * s,
            (s - 16) * s < lsu * s,
            s > 0,
    ;
}

/// The truncated square of one component: non-negative, within one
/// fixed-point step below the exact square, and small enough to stay
/// clear of saturation for components inside a thousand units.
proof fn lemma_square_term_window(c: int)
    requires
        -1_000_000_000 <= c <= 1_000_000_000,
    ensures
        0 <= fx_mul(c, c),
        fx_mul(c, c) <= 1_000_000_000_000,
        fx_mul(c, c) * (SCALE as int) <= c * c,
        c * c < fx_mul(c, c) * (SCALE as int) + (SCALE as int),
{
    let s = SCALE as int;
    crate::fixed::lemma_mul_sign(c, c);
    assert(c * c <= 1_000_000_000_000_000_000) by (nonlinear_arith)
        requires
            -1_000_000_000 <= c <= 1_000_000_000,
    ;
    crate::fixed::lemma_div_floor_bounds(c * c, s);
    let q = (c * c) / s;
    assert(q <= 1_000_000_000_000) by (nonlinear_arith)
        requires
            q * s <= 1_000_000_000_000_000_000,
            s == 1_000_000,
            q >= 0,
    ;
    assert(vstd::math::abs(c * c) == c * c);
    assert(div_t(c * c, s) == q);
    assert((q + 1) * s == q * s + s) by (nonlinear_arith);
}

/// The same window for a component of a normalized vector, whose
/// magnitude stays within two steps of the unit.
proof fn lemma_unit_square_term_window(u: int)
    requires
        -(SCALE as int + 2) <= u <= SCALE as int + 2,
    ensures
        0 <= fx_mul(u, u),
        fx_mul(u, u) <= SCALE as int + 5,
        fx_mul(u, u) * (SCALE as int) <= u * u,
        u * u < fx_mul(u, u) * (SCALE as int) + (SCALE as int),
{
    let s = SCALE as int;
    crate::fixed::lemma_mul_sign(u, u);
    assert(u * u <= (s + 2) * (s + 2)) by (nonlinear_arith)
        requires
            -(s + 2) <= u <= s + 2,
    ;
    crate::fixed::lemma_div_floor_bounds(u * u, s);
    let q = (u * u) / s;
    assert(q <= s + 5) by (nonlinear_arith)
        requires
            q * s <= (s + 2) * (s + 2),
            s == 1_000_000,
            q >= 0,
    ;
    assert(vstd::math::abs(u * u) == u * u);
    assert(div_t(u * u, s) == q);
    assert((q + 1) * s == q * s + s) by (nonlinear_arith);
}

/// A strict magnitude window, unfolded from the absolute value.
proof fn lemma_abs_window(x: int, b: int)
    requires
        vstd::math::abs(x) < b,
    ensures
        -b < x < b,
{
}

/// Truncating one rescaled component by a positive length loses less
/// than one multiple of the length, and the quotient needs no
/// saturation.
proof fn lemma_component_division_error(c: int, l: int)
    requires
        0 < l,
        -1_000_000_000_000 <= c <= 1_000_000_000_000,
    ensures
        fx_div(c, l) == div_t(c * (SCALE as int), l),
        vstd::math::abs(div_t(c * (SCALE as int), l) * l - c * (SCALE as int)) < l,
{
    let p = c * (SCALE as int);
    crate::fixed::lemma_abs_mul(c, SCALE as int);
    crate::fixed::lemma_mul_sign(c, SCALE as int);
    let m = vstd::math::abs(p) as int;
    crate::fixed::lemma_div_floor_bounds(m, l);
    let q = m / l;
    assert(q * l <= m < (q + 1) * l);
    assert((q + 1) * l == q * l + l) by (nonlinear_arith);
    if p >= 0 {
        assert(div_t(p, l) == q);
        assert(vstd::math::abs(q * l - p) < l);
    } else {
        assert(div_t(p, l) == -q);
        assert((-q) * l == -(q * l)) by (nonlinear_arith);
        assert(vstd::math::abs((-q) * l - p) < l);
    }
    assert(vstd::math::abs(div_t(p, l)) * l <= m) by {
        if p >= 0 {
        } else {
            assert(vstd::math::abs(-q) == q);
        }
    }
    assert(vstd::math::abs(div_t(p, l)) <= m) by (nonlinear_arith)
        requires
            vstd::math::abs(div_t(p, l)) * l <= m,
            l >= 1,
            m >= 0,
    ;
}

/// Squared error of one normalized component: with `u l` within `l` of
/// `c S` and `c` within the length budget, the square `u^2 l^2` stays
/// within `2 (l + 2) S l + l^2` of `c^2 S^2`, and `u` itself stays
/// within two steps of the unit.
proof fn lemma_component_square_bound(c: int, l: int, u: int)
    requires
        l >= SCALE as int,
        -(l + 2) <= c <= l + 2,
        -l < u * l - c * (SCALE as int) < l,
    ensures
        -(SCALE as int + 2) <= u <= SCALE as int + 2,
        (u * u) * (l * l) >= (c * (SCALE as int)) * (c * (SCALE as int)) - (2 * (l + 2) * (
        SCALE as int) * l + l * l),
        (u * u) * (l * l) <= (c * (SCALE as int)) * (c * (SCALE as int)) + (2 * (l + 2) * (
        SCALE as int) * l + l * l),
{
    let s = SCALE as int;
    let e = u * l - c * s;
    assert((u * l) * (u * l) == (c * s) * (c * s) + 2 * ((c * s) * e) + e * e) by (nonlinear_arith)
        requires
            u * l == c * s + e,
    ;
    assert(-((l + 2) * s * l) <= (c * s) * e <= (l + 2) * s * l) by (nonlinear_arith)
        requires
            -(l + 2) <= c <= l + 2,
            -l < e < l,
            s > 0,
            l > 0,
    ;
    assert(0 <= e * e <= l * l) by (nonlinear_arith)
        requires
            -l < e < l,
    ;
    assert((u * l) * (u * l) == (u * u) * (l * l)) by (nonlinear_arith);
    assert(2 * ((l + 2) * s * l) == 2 * (l + 2) * s * l) by (nonlinear_arith);
    assert(u <= s + 2 && u >= -(s + 2)) by (nonlinear_arith)
        requires
            u * l == c * s + e,
            -(l + 2) <= c <= l + 2,
            -l < e < l,
            l >= s,
            s >= 2,
    ;
}

/// The zero vector is orthogonal to everything.
pub proof fn lemma_dot_zero_left(n: Vec3)
    ensures
        s_dot(s_zero(), n) == 0,
{
    assert(0int * (n.x as int) == 0) by (nonlinear_arith);
    assert(0int * (n.y as int) == 0) by (nonlinear_arith);
    assert(0int * (n.z as int) == 0) by (nonlinear_arith);
    assert(0int / 1_000_000int == 0int);
    assert(div_t(0, SCALE as int) == 0);
}

impl Vec3 {
    pub fn new(x: i64, y: i64, z: i64) -> (r: Vec3)
        ensures
            r == (Vec3 { x, y, z }),
    {
        Vec3 { x, y, z }
    }

    pub fn zero() -> (r: Vec3)
        ensures
            r == s_zero(),
    {
        Vec3 { x: 0, y: 0, z: 0 }
    }

    /// All components exactly zero: a magnitude threshold below the
    /// grid spacing (such as `1e-8`) admits only the zero point itself.
    pub fn near_zero(&self) -> (r: bool)
        ensures
            r == (*self == s_zero()),
    {
        self.x == 0 && self.y == 0 && self.z == 0
    }

    /// Indexed component access; an index past two, a programming
    /// error rather than a runtime condition, is excluded outright.
    pub fn component(&self, index: usize) -> (r: i64)
        requires
            index < 3,
        ensures
            r == (if index == 0 {
                self.x
            } else if index == 1 {
                self.y
            } else {
                self.z
            }),
    {
        if index == 0 {
            self.x
        } else if index == 1 {
            self.y
        } else {
            self.z
        }
    }

    pub fn add(self, other: Vec3) -> (r: Vec3)
        ensures
            r == s_add(self, other),
    {
        Vec3 {
            x: add_fx(self.x, other.x),
            y: add_fx(self.y, other.y),
            z: add_fx(self.z, other.z),
        }
    }

    pub fn sub(self, other: Vec3) -> (r: Vec3)
        ensures
            r == s_sub(self, other),
    {
        Vec3 {
            x: sub_fx(self.x, other.x),
            y: sub_fx(self.y, other.y),
            z: sub_fx(self.z, other.z),
        }
    }

    pub fn neg(self) -> (r: Vec3)
        ensures
            r == s_neg(self),
    {
        Vec3 { x: neg_fx(self.x), y: neg_fx(self.y), z: neg_fx(self.z) }
    }

    /// Componentwise product, as colors attenuate.
    pub fn comp_mul(self, other: Vec3) -> (r: Vec3)
        ensures
            r == s_mul(self, other),
    {
        Vec3 {
            x: mul_fx(self.x, other.x),
            y: mul_fx(self.y, other.y),
            z: mul_fx(self.z, other.z),
        }
    }

    pub fn scale(self, t: i64) -> (r: Vec3)
        ensures
            r == s_scale(self, t as int),
    {
        Vec3 { x: mul_fx(self.x, t), y: mul_fx(self.y, t), z: mul_fx(self.z, t) }
    }

    pub fn div_scalar(self, t: i64) -> (r: Vec3)
        ensures
            r == s_div(self, t as int),
    {
        Vec3 { x: div_fx(self.x, t), y: div_fx(self.y, t), z: div_fx(self.z, t) }
    }

    pub fn dot(self, other: Vec3) -> (r: i64)
        ensures
            r as int == s_dot(self, other),
    {
        add_fx(
            add_fx(mul_fx(self.x, other.x), mul_fx(self.y, other.y)),
            mul_fx(self.z, other.z),
        )
    }

    pub fn cross(self, other: Vec3) -> (r: Vec3)
        ensures
            r == s_cross(self, other),
    {
        Vec3 {
            x: sub_fx(mul_fx(self.y, other.z), mul_fx(self.z, other.y)),
            y: sub_fx(mul_fx(self.z, other.x), mul_fx(self.x, other.z)),
            z: sub_fx(mul_fx(self.x, other.y), mul_fx(self.y, other.x)),
        }
    }

    pub fn length_squared(&self) -> (r: i64)
        ensures
            r as int == s_length_squared(*self),
    {
        self.dot(*self)
    }

    pub fn length(&self) -> (r: i64)
        ensures
            r as int == s_length(*self),
            r >= 0,
    {
        sqrt_fx(self.length_squared())
    }

    pub fn normalized(&self) -> (r: Vec3)
        ensures
            r == s_normalized(*self),
    {
        let len = self.length();
        self.div_scalar(len)
    }

    /// Reflection of `v` about the normal `n`.
    pub fn reflect(v: &Vec3, n: &Vec3) -> (r: Vec3)
        ensures
            r == s_reflect(*v, *n),
    {
        let scalar = mul_fx(v.dot(*n), TWO_FX);
        let projection = n.scale(scalar);
        v.sub(projection)
    }

    /// Snell refraction of the unit vector `uv` at normal `n`; the
    /// caller has already ruled out total internal reflection.
    pub fn refract(uv: &Vec3, n: &Vec3, etai_over_etat: i64) -> (r: Vec3)
        ensures
            r == s_refract(*uv, *n, etai_over_etat as int),
    {
        let a = uv.neg();
        let d = a.dot(*n);
        let cos_theta = if d > SCALE {
            SCALE
        } else {
            d
        };
        let r_out_perp = uv.add(n.scale(cos_theta)).scale(etai_over_etat);
        let k = sub_fx(SCALE, r_out_perp.dot(r_out_perp));
        let kpos = if k < 0 {
            0
        } else {
            k
        };
        let r_out_parallel = n.scale(neg_fx(sqrt_fx(kpos)));
        r_out_perp.add(r_out_parallel)
    }

    /// Vector with three fresh uniform components in `[0, 1)`.
    pub fn random(rng: &mut Rng) -> (r: Vec3)
        ensures
            r == s_vec_draw(old(rng).state).0,
            final(rng).state == s_vec_draw(old(rng).state).1,
            0 <= r.x < SCALE,
            0 <= r.y < SCALE,
            0 <= r.z < SCALE,
    {
        let x = rng.next_unit();
        let y = rng.next_unit();
        let z = rng.next_unit();
        Vec3 { x, y, z }
    }

    /// Vector with three fresh uniform components in `[min, max)`.
    pub fn random_interval(rng: &mut Rng, min: i64, max: i64) -> (r: Vec3)
        requires
            -1_000_000_000_000 <= min < max <= 1_000_000_000_000,
        ensures
            r == s_interval_draw(old(rng).state, min as int, max as int).0,
            final(rng).state == s_interval_draw(old(rng).state, min as int, max as int).1,
            min <= r.x < max,
            min <= r.y < max,
            min <= r.z < max,
    {
        let x = Self::random_component(rng, min, max);
        let y = Self::random_component(rng, min, max);
        let z = Self::random_component(rng, min, max);
        Vec3 { x, y, z }
    }

    /// One uniform fixed-point draw in `[min, max)`, as
    /// `min + (max - min) * u` for a unit draw `u`.
    fn random_component(rng: &mut Rng, min: i64, max: i64) -> (r: i64)
        requires
            -1_000_000_000_000 <= min < max <= 1_000_000_000_000,
        ensures
            min <= r < max,
            r as int == fx_add(
                min as int,
                fx_mul(fx_sub(max as int, min as int), unit_of(old(rng).state)),
            ),
            final(rng).state == next_state(old(rng).state),
    {
        let u = rng.next_unit();
        let span = sub_fx(max, min);
        let off = mul_fx(span, u);
        proof {
            let sp = span as int;
            let uu = u as int;
            crate::fixed::lemma_mul_sign(sp, uu);
            crate::fixed::lemma_div_floor_bounds(sp * uu, SCALE as int);
            let q = (sp * uu) / (SCALE as int);
            assert(sp * uu < sp * (SCALE as int)) by (nonlinear_arith)
                requires
                    sp > 0,
                    0 <= uu < SCALE as int,
            ;
            assert(q < sp) by (nonlinear_arith)
                requires
                    q * (SCALE as int) <= sp * uu,
                    sp * uu < sp * (SCALE as int),
                    SCALE as int > 0,
            ;
            assert(vstd::math::abs(sp * uu) == sp * uu);
            assert(div_t(sp * uu, SCALE as int) == q);
        }
        add_fx(min, off)
    }

    /// Rejection-sampled point strictly inside the unit ball.  After
    /// `SAMPLE_ATTEMPTS` rejected draws it falls back to a fixed
    /// interior point; a working generator reaches that with only
    /// astronomically small probability.
    pub fn random_in_unit_sphere(rng: &mut Rng) -> (r: Vec3)
        ensures
            r == s_ball_draw(old(rng).state, SAMPLE_ATTEMPTS as nat).0,
            final(rng).state == s_ball_draw(old(rng).state, SAMPLE_ATTEMPTS as nat).1,
            s_length_squared(r) < SCALE,
    {
        let mut tries: u32 = 0;
        while tries < SAMPLE_ATTEMPTS
            invariant
                tries <= SAMPLE_ATTEMPTS,
                s_ball_draw(old(rng).state, SAMPLE_ATTEMPTS as nat) == s_ball_draw(
                    rng.state,
                    (SAMPLE_ATTEMPTS - tries) as nat,
                ),
            decreases SAMPLE_ATTEMPTS - tries,
        {
            let ghost st = rng.state;
            let ghost k = (SAMPLE_ATTEMPTS - tries) as nat;
            let p = Self::random_interval(rng, -SCALE, SCALE);
            if p.length_squared() < SCALE {
                proof {
                    assert(s_ball_draw(st, k) == (p, rng.state));
                }
                return p;
            }
            proof {
                assert(s_ball_draw(st, k) == s_ball_draw(rng.state, (k - 1) as nat));
            }
            tries = tries + 1;
        }
        let fallback = Vec3 { x: 500_000, y: 0, z: 0 };
        proof {
            assert(500000int * 500000int == 250000000000int);
            assert(0int * 0int == 0int);
            assert(vstd::math::abs(250000000000int) == 250000000000nat);
            assert(vstd::math::abs(1000000int) == 1000000nat);
            assert(250000000000int / 1000000int == 250000int);
            assert(div_t(250000000000int, 1000000int) == 250000int);
            assert(fx_mul(500000int, 500000int) == 250000int);
            assert(fx_mul(0int, 0int) == 0int);
            assert(s_length_squared(fallback) == 250000int);
        }
        fallback
    }

    /// A point of the unit ball, normalized onto the unit sphere.
    pub fn random_unit_vector(rng: &mut Rng) -> (r: Vec3)
        ensures
            r == s_unit_vector_draw(old(rng).state).0,
            final(rng).state == s_unit_vector_draw(old(rng).state).1,
            exists|p: Vec3| s_length_squared(p) < SCALE && r == s_normalized(p),
    {
        let p = Self::random_in_unit_sphere(rng);
        let u = p.normalized();
        proof {
            assert(s_length_squared(p) < SCALE && u == s_normalized(p));
        }
        u
    }

    /// A unit-sphere sample on the hemisphere around `normal`: the
    /// sample itself when it leans along the normal, else its negation.
    pub fn random_on_hemisphere(rng: &mut Rng, normal: &Vec3) -> (r: Vec3)
        ensures
            r == s_hemisphere_draw(old(rng).state, *normal).0,
            final(rng).state == s_hemisphere_draw(old(rng).state, *normal).1,
    {
        let on_unit_sphere = Self::random_unit_vector(rng);
        let d = on_unit_sphere.dot(*normal);
        if d > 0 {
            on_unit_sphere
        } else {
            on_unit_sphere.neg()
        }
    }

    /// Rejection-sampled point strictly inside the unit disk in the
    /// `z = 0` plane, with the same fallback policy as the ball sampler.
    pub fn random_in_unit_disk(rng: &mut Rng) -> (r: Vec3)
        ensures
            r == s_disk_draw(old(rng).state, SAMPLE_ATTEMPTS as nat).0,
            final(rng).state == s_disk_draw(old(rng).state, SAMPLE_ATTEMPTS as nat).1,
            s_length_squared(r) < SCALE,
            r.z == 0,
    {
        let mut tries: u32 = 0;
        while tries < SAMPLE_ATTEMPTS
            invariant
                tries <= SAMPLE_ATTEMPTS,
                s_disk_draw(old(rng).state, SAMPLE_ATTEMPTS as nat) == s_disk_draw(
                    rng.state,
                    (SAMPLE_ATTEMPTS - tries) as nat,
                ),
            decreases SAMPLE_ATTEMPTS - tries,
        {
            let ghost st = rng.state;
            let ghost k = (SAMPLE_ATTEMPTS - tries) as nat;
            let x = Self::random_component(rng, -SCALE, SCALE);
            let y = Self::random_component(rng, -SCALE, SCALE);
            let p = Vec3 { x, y, z: 0 };
            if p.length_squared() < SCALE {
                proof {
                    assert(s_disk_draw(st, k) == (p, rng.state));
                }
                return p;
            }
            proof {
                assert(s_disk_draw(st, k) == s_disk_draw(rng.state, (k - 1) as nat));
            }
            tries = tries + 1;
        }
        let fallback = Vec3 { x: 500_000, y: 0, z: 0 };
        proof {
            assert(500000int * 500000int == 250000000000int);
            assert(0int * 0int == 0int);
            assert(vstd::math::abs(250000000000int) == 250000000000nat);
            assert(vstd::math::abs(1000000int) == 1000000nat);
            assert(250000000000int / 1000000int == 250000int);
            assert(div_t(250000000000int, 1000000int) == 250000int);
            assert(fx_mul(500000int, 500000int) == 250000int);
            assert(fx_mul(0int, 0int) == 0int);
            assert(s_length_squared(fallback) == 250000int);
        }
        fallback
    }
}

} // verus!
