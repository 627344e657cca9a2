//! Surface materials: diffuse, metallic with fuzz, refractive
//! dielectric, and an absorbing placeholder.  A material turns an
//! incoming ray and a hit record into a scattered ray and an attenuation
//! color, or absorbs the ray.

use vstd::prelude::*;
use crate::fixed::{
    SCALE, fx_clamp, fx_mul, fx_sub, fx_add, fx_div, fx_sqrt, mul_fx, sub_fx, add_fx, div_fx,
    sqrt_fx,
};
use crate::vec3::{
    Vec3, s_zero, s_neg, s_dot, s_add, s_scale, s_reflect, s_refract, s_normalized,
    s_unit_vector_draw,
};
use crate::rng::{unit_of, next_state};
use crate::color::Color;
use crate::ray::Ray;
use crate::hittable::HitRecord;
use crate::rng::Rng;

verus! {

/// Fifth power under fixed-point multiplication, left to right.
pub open spec fn s_pow5(x: int) -> int {
    fx_mul(fx_mul(fx_mul(fx_mul(x, x), x), x), x)
}

/// Reflectance at normal incidence: `((1 - n) / (1 + n))^2`.
pub open spec fn s_schlick_r0(refraction_index: int) -> int {
    let d = fx_div(fx_sub(SCALE as int, refraction_index), fx_add(SCALE as int, refraction_index));
    fx_mul(d, d)
}

/// Schlick's reflectance approximation:
/// `r0 + (1 - r0) (1 - cosine)^5` with `r0 = ((1 - n) / (1 + n))^2`.
pub open spec fn s_reflectance(cosine: int, refraction_index: int) -> int {
    let r0 = s_schlick_r0(refraction_index);
    fx_add(r0, fx_mul(fx_sub(SCALE as int, r0), s_pow5(fx_sub(SCALE as int, cosine))))
}

/// At normal incidence, where the cosine is one, Schlick's reflectance
/// is exactly the base reflectance `r0`.
pub proof fn lemma_reflectance_normal_incidence(refraction_index: int)
    ensures
        s_reflectance(SCALE as int, refraction_index) == s_schlick_r0(refraction_index),
{
    let r0 = s_schlick_r0(refraction_index);
    assert(fx_sub(SCALE as int, SCALE as int) == 0);
    crate::fixed::lemma_fx_mul_zero(0);
    assert(s_pow5(0) == 0) by {
        crate::fixed::lemma_fx_mul_zero(0);
    }
    crate::fixed::lemma_fx_mul_zero(fx_sub(SCALE as int, r0));
}

/// At grazing incidence, where the cosine is zero, Schlick's reflectance
/// is exactly one, for any non-negative refraction index.
pub proof fn lemma_reflectance_grazing(refraction_index: int)
    requires
        0 <= refraction_index <= i64::MAX - SCALE,
    ensures
        s_reflectance(0, refraction_index) == SCALE as int,
{
    let ri = refraction_index;
    let num = fx_sub(SCALE as int, ri);
    let den = fx_add(SCALE as int, ri);
    let d = fx_div(num, den);
    let r0 = s_schlick_r0(ri);
    assert(vstd::math::abs(num) <= den);
    crate::fixed::lemma_fx_div_unit(num, den);
    assert(0 <= r0 <= SCALE as int) by {
        crate::fixed::lemma_mul_sign(d, d);
        assert(d * d <= (SCALE as int) * (SCALE as int)) by (nonlinear_arith)
            requires
                -(SCALE as int) <= d <= SCALE as int,
        ;
        crate::fixed::lemma_div_t_le(d * d, (SCALE as int) * (SCALE as int), SCALE as int);
        assert((SCALE as int) * (SCALE as int) == 1_000_000_000_000int);
        assert(1_000_000_000_000int / 1_000_000int == 1_000_000int);
        assert(crate::fixed::div_t(1_000_000_000_000, 1_000_000) == 1_000_000int);
        crate::fixed::lemma_div_floor_bounds(d * d, SCALE as int);
    }
    assert(s_pow5(fx_sub(SCALE as int, 0)) == SCALE as int) by {
        assert(fx_sub(SCALE as int, 0) == SCALE as int);
        assert(1_000_000int * 1_000_000int == 1_000_000_000_000int);
        assert(1_000_000_000_000int / 1_000_000int == 1_000_000int);
        assert(crate::fixed::div_t(1_000_000_000_000, 1_000_000) == 1_000_000int);
        assert(fx_mul(SCALE as int, SCALE as int) == SCALE as int);
    }
    crate::fixed::lemma_fx_mul_one(fx_sub(SCALE as int, r0));
}

/// The refraction ratio a dielectric uses: the reciprocal index when
/// entering at a front face, the index itself when exiting.
pub open spec fn s_refraction_ratio(ir: int, front_face: bool) -> int {
    if front_face {
        fx_div(SCALE as int, ir)
    } else {
        ir
    }
}

/// Incidence cosine of a unit direction against the surface normal,
/// clamped from above at one.
pub open spec fn s_cos_theta(unit_dir: Vec3, normal: Vec3) -> int {
    let d = s_dot(normal, s_neg(unit_dir));
    if d > SCALE as int {
        SCALE as int
    } else {
        d
    }
}

/// Total internal reflection: `ratio * sin_theta` exceeds one.
pub open spec fn s_cant_refract(ratio: int, cos_theta: int) -> bool {
    fx_mul(ratio, fx_sqrt(fx_sub(SCALE as int, fx_mul(cos_theta, cos_theta)))) > SCALE as int
}

/// The diffuse scatter a state draws: the normal plus a unit-sphere
/// sample, falling back to the normal on cancellation to zero; the
/// albedo; and the state after the draw.
pub open spec fn s_lambertian_scatter(m: Lambertian, rec: HitRecord, st: u64) -> ((Ray, Vec3), u64) {
    let d = s_unit_vector_draw(st);
    let dir0 = s_add(rec.normal, d.0);
    let dir = if dir0 == s_zero() {
        rec.normal
    } else {
        dir0
    };
    ((Ray { orig: rec.p, dir }, m.albedo), d.1)
}

/// The metallic scatter a state draws: the normalized reflection
/// perturbed by fuzz times a unit-sphere sample, kept only when it
/// leaves the surface.
pub open spec fn s_metal_scatter(m: Metal, r_in: Ray, rec: HitRecord, st: u64) -> (
    Option<(Ray, Vec3)>,
    u64,
) {
    let d = s_unit_vector_draw(st);
    let dir = s_add(s_normalized(s_reflect(r_in.dir, rec.normal)), s_scale(d.0, m.fuzz as int));
    (
        if s_dot(dir, rec.normal) > 0 {
            Some((Ray { orig: rec.p, dir }, m.albedo))
        } else {
            None
        },
        d.1,
    )
}

/// The dielectric scatter a state draws: reflect under total internal
/// reflection, with no draw spent; otherwise reflect when the
/// reflectance beats one unit draw, else refract.  White attenuation.
pub open spec fn s_dielectric_scatter(dm: Dielectric, r_in: Ray, rec: HitRecord, st: u64) -> (
    (Ray, Vec3),
    u64,
) {
    let unit = s_normalized(r_in.dir);
    let ratio = s_refraction_ratio(dm.ir as int, rec.front_face);
    let cos = s_cos_theta(unit, rec.normal);
    let white = Vec3 { x: SCALE, y: SCALE, z: SCALE };
    if s_cant_refract(ratio, cos) {
        ((Ray { orig: rec.p, dir: s_reflect(unit, rec.normal) }, white), st)
    } else {
        let dir = if s_reflectance(cos, ratio) > unit_of(st) {
            s_reflect(unit, rec.normal)
        } else {
            s_refract(unit, rec.normal, ratio)
        };
        ((Ray { orig: rec.p, dir }, white), next_state(st))
    }
}

/// The scatter of any material, by variant.
pub open spec fn s_scatter(mat: Material, r_in: Ray, rec: HitRecord, st: u64) -> (
    Option<(Ray, Vec3)>,
    u64,
) {
    match mat {
        Material::Lambertian(m) => {
            let r = s_lambertian_scatter(m, rec, st);
            (Some(r.0), r.1)
        },
        Material::Metal(m) => s_metal_scatter(m, r_in, rec, st),
        Material::Dielectric(m) => {
            let r = s_dielectric_scatter(m, r_in, rec, st);
            (Some(r.0), r.1)
        },
        Material::Null(_) => (None, st),
    }
}

/// Absorbing placeholder: it never scatters.
#[derive(Clone, Copy, Debug)]
pub struct NullMaterial;

impl NullMaterial {
    pub fn scatter(&self, _r_in: &Ray, _rec: &HitRecord) -> (r: Option<(Ray, Color)>)
        ensures
            r is None,
    {
        None
    }
}

/// Diffuse surface: scatters about the normal, tinted by its albedo.
#[derive(Clone, Copy, Debug)]
pub struct Lambertian {
    pub albedo: Color,
}

impl Lambertian {
    pub fn new(albedo: Color) -> (r: Lambertian)
        ensures
            r.albedo == albedo,
    {
        Lambertian { albedo }
    }

    /// Scatter direction is the normal plus a unit sphere sample; a
    /// cancellation to zero falls back to the normal itself.  Always
    /// scatters.
    pub fn scatter(&self, _r_in: &Ray, rec: &HitRecord, rng: &mut Rng) -> (r: Option<
        (Ray, Color),
    >)
        ensures
            r == Some(s_lambertian_scatter(*self, *rec, old(rng).state).0),
            final(rng).state == s_lambertian_scatter(*self, *rec, old(rng).state).1,
            r matches Some(sa) ==> sa.1 == self.albedo && sa.0.orig == rec.p && (rec.normal
                != s_zero() ==> sa.0.dir != s_zero()),
    {
        let mut scatter_direction = rec.normal.add(Vec3::random_unit_vector(rng));
        if scatter_direction.near_zero() {
            scatter_direction = rec.normal;
        }
        let scattered = Ray::new(rec.p, scatter_direction);
        let attenuation = self.albedo;
        Some((scattered, attenuation))
    }
}

/// Reflective surface: mirrors the incoming direction, perturbed by its
/// fuzz; fuzz is clamped into `[0, 1]` at construction.
#[derive(Clone, Copy, Debug)]
pub struct Metal {
    pub albedo: Color,
    pub fuzz: i64,
}

impl Metal {
    pub fn new(albedo: Color, fuzz: i64) -> (r: Metal)
        ensures
            r.albedo == albedo,
            r.fuzz as int == fx_clamp(fuzz as int, 0, SCALE as int),
    {
        let f = if fuzz < 0 {
            0
        } else if fuzz > SCALE {
            SCALE
        } else {
            fuzz
        };
        Metal { albedo, fuzz: f }
    }

    /// Reflect, normalize, perturb by `fuzz` times a unit sample, and
    /// scatter only when the result still leaves the surface: when the
    /// scattered direction has positive dot with the normal, which also
    /// rules out a zero direction.
    pub fn scatter(&self, r_in: &Ray, rec: &HitRecord, rng: &mut Rng) -> (r: Option<(Ray, Color)>)
        ensures
            r == s_metal_scatter(*self, *r_in, *rec, old(rng).state).0,
            final(rng).state == s_metal_scatter(*self, *r_in, *rec, old(rng).state).1,
            r matches Some(sa) ==> sa.1 == self.albedo && sa.0.orig == rec.p && s_dot(
                sa.0.dir,
                rec.normal,
            ) > 0 && sa.0.dir != s_zero(),
    {
        let reflected = Vec3::reflect(&r_in.dir, &rec.normal);
        let fuzzed = reflected.normalized().add(Vec3::random_unit_vector(rng).scale(self.fuzz));
        let scattered = Ray::new(rec.p, fuzzed);
        let attenuation = self.albedo;
        if scattered.dir.dot(rec.normal) > 0 {
            proof {
                crate::vec3::lemma_dot_zero_left(rec.normal);
            }
            Some((scattered, attenuation))
        } else {
            None
        }
    }
}

/// Refractive surface with a refraction index; glass does not absorb,
/// so its attenuation is pure white.
#[derive(Clone, Copy, Debug)]
pub struct Dielectric {
    pub ir: i64,
}

impl Dielectric {
    pub fn new(refraction_index: i64) -> (r: Dielectric)
        ensures
            r.ir == refraction_index,
    {
        Dielectric { ir: refraction_index }
    }

    /// Schlick's reflectance approximation.
    pub fn reflanctance(cosine: i64, refraction_index: i64) -> (r: i64)
        ensures
            r as int == s_reflectance(cosine as int, refraction_index as int),
    {
        let d = div_fx(sub_fx(SCALE, refraction_index), add_fx(SCALE, refraction_index));
        let r0 = mul_fx(d, d);
        let t = sub_fx(SCALE, cosine);
        let p5 = mul_fx(mul_fx(mul_fx(mul_fx(t, t), t), t), t);
        add_fx(r0, mul_fx(sub_fx(SCALE, r0), p5))
    }

    /// Reflect under total internal reflection or a reflectance-weighted
    /// random draw, refract otherwise.  Always scatters, with white
    /// attenuation.
    pub fn scatter(&self, r_in: &Ray, rec: &HitRecord, rng: &mut Rng) -> (r: Option<(Ray, Color)>)
        ensures
            r == Some(s_dielectric_scatter(*self, *r_in, *rec, old(rng).state).0),
            final(rng).state == s_dielectric_scatter(*self, *r_in, *rec, old(rng).state).1,
            r matches Some(sa) ==> {
                let unit = s_normalized(r_in.dir);
                let ratio = s_refraction_ratio(self.ir as int, rec.front_face);
                let cos = s_cos_theta(unit, rec.normal);
                sa.1 == (Vec3 { x: SCALE, y: SCALE, z: SCALE }) && sa.0.orig == rec.p && (sa.0.dir
                    == s_reflect(unit, rec.normal) || sa.0.dir == s_refract(unit, rec.normal, ratio))
                    && (s_cant_refract(ratio, cos) ==> sa.0.dir == s_reflect(unit, rec.normal))
            },
    {
        let attenuation = Vec3::new(SCALE, SCALE, SCALE);
        let ri = if rec.front_face {
            div_fx(SCALE, self.ir)
        } else {
            self.ir
        };
        let unit_direction = r_in.dir.normalized();

        let d = rec.normal.dot(unit_direction.neg());
        let cos_theta = if d > SCALE {
            SCALE
        } else {
            d
        };
        let sin_theta = sqrt_fx(sub_fx(SCALE, mul_fx(cos_theta, cos_theta)));
        let cant_refract = mul_fx(ri, sin_theta) > SCALE;

        let direction: Vec3;
        if cant_refract || Dielectric::reflanctance(cos_theta, ri) > rng.next_unit() {
            direction = Vec3::reflect(&unit_direction, &rec.normal);
        } else {
            direction = Vec3::refract(&unit_direction, &rec.normal, ri);
        }

        let scattered = Ray::new(rec.p, direction);
        Some((scattered, attenuation))
    }
}

/// The closed set of surface materials, dispatched by variant.
#[derive(Clone, Copy, Debug)]
pub enum Material {
    Lambertian(Lambertian),
    Metal(Metal),
    Dielectric(Dielectric),
    Null(NullMaterial),
}

impl Material {
    /// Scatter the incoming ray at the hit, by the variant's rule.
    pub fn scatter(&self, r_in: &Ray, rec: &HitRecord, rng: &mut Rng) -> (r: Option<(Ray, Color)>)
        ensures
            r == s_scatter(*self, *r_in, *rec, old(rng).state).0,
            final(rng).state == s_scatter(*self, *r_in, *rec, old(rng).state).1,
            self matches Material::Null(_) ==> r is None,
            self matches Material::Lambertian(_) ==> r is Some,
            self matches Material::Dielectric(_) ==> r is Some,
            self matches Material::Lambertian(m) ==> (r matches Some(sa) ==> sa.1 == m.albedo
                && sa.0.orig == rec.p && (rec.normal != s_zero() ==> sa.0.dir != s_zero())),
            self matches Material::Metal(m) ==> (r matches Some(sa) ==> sa.1 == m.albedo
                && sa.0.orig == rec.p && s_dot(sa.0.dir, rec.normal) > 0 && sa.0.dir != s_zero()),
            self matches Material::Dielectric(_) ==> (r matches Some(sa) ==> sa.1 == (Vec3 {
                x: SCALE,
                y: SCALE,
                z: SCALE,
            }) && sa.0.orig == rec.p),
    {
        match self {
            Material::Lambertian(m) => m.scatter(r_in, rec, rng),
            Material::Metal(m) => m.scatter(r_in, rec, rng),
            Material::Dielectric(m) => m.scatter(r_in, rec, rng),
            Material::Null(m) => m.scatter(r_in, rec),
        }
    }
}

} // verus!
