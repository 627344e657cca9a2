//! Hit records and the sphere surface, with its quadratic intersection.

use vstd::prelude::*;
use crate::fixed::{fx_mul, fx_sub, fx_add, fx_div, fx_sqrt, mul_fx, sub_fx, add_fx, div_fx, sqrt_fx};
use crate::vec3::{Vec3, Point3, s_zero, s_sub, s_neg, s_dot, s_div, s_length_squared};
use crate::ray::{Ray, s_at};
use crate::interval::Interval;
use crate::material::{Material, NullMaterial};

verus! {

/// The outcome of one ray-surface intersection: hit point, outward-
/// corrected normal, parametric distance, the surface's material, and
/// whether the ray struck the front face.
#[derive(Clone, Copy, Debug)]
pub struct HitRecord {
    pub p: Point3,
    pub normal: Vec3,
    pub t: i64,
    pub mat: Material,
    pub front_face: bool,
}

impl HitRecord {
    /// Record whether the ray met the front face, and orient the stored
    /// normal against the ray.
    pub fn set_face_normal(&mut self, r: &Ray, outward_normal: Vec3)
        ensures
            final(self).front_face == (s_dot(r.dir, outward_normal) < 0),
            final(self).normal == if s_dot(r.dir, outward_normal) < 0 {
                outward_normal
            } else {
                s_neg(outward_normal)
            },
            final(self).p == old(self).p,
            final(self).t == old(self).t,
            final(self).mat == old(self).mat,
    {
        self.front_face = r.dir.dot(outward_normal) < 0;
        self.normal = if self.front_face {
            outward_normal
        } else {
            outward_normal.neg()
        };
    }
}

impl Default for HitRecord {
    /// A placeholder record: origin hit at distance zero on the
    /// absorbing material.
    fn default() -> (r: HitRecord)
        ensures
            r.p == s_zero(),
            r.normal == s_zero(),
            r.t == 0,
            r.mat matches Material::Null(_),
            r.front_face,
    {
        HitRecord {
            p: Vec3::zero(),
            normal: Vec3::zero(),
            t: 0,
            mat: Material::Null(NullMaterial),
            front_face: true,
        }
    }
}

/// A sphere surface: center, radius and material.
#[derive(Clone, Copy, Debug)]
pub struct Sphere {
    pub center: Point3,
    pub radius: i64,
    pub mat: Material,
}

/// Center minus ray origin, the vector the quadratic is built from.
pub open spec fn s_oc(s: Sphere, r: Ray) -> Vec3 {
    s_sub(s.center, r.orig)
}

/// Leading coefficient of the intersection quadratic: `|dir|^2`.
pub open spec fn s_quad_a(r: Ray) -> int {
    s_length_squared(r.dir)
}

/// Half the linear coefficient: `dir . oc`.
pub open spec fn s_quad_h(s: Sphere, r: Ray) -> int {
    s_dot(r.dir, s_oc(s, r))
}

/// Constant coefficient: `|oc|^2 - radius^2`.
pub open spec fn s_quad_c(s: Sphere, r: Ray) -> int {
    fx_sub(s_length_squared(s_oc(s, r)), fx_mul(s.radius as int, s.radius as int))
}

/// Discriminant in the half-angle form: `h^2 - a c`.
pub open spec fn s_discriminant(s: Sphere, r: Ray) -> int {
    fx_sub(fx_mul(s_quad_h(s, r), s_quad_h(s, r)), fx_mul(s_quad_a(r), s_quad_c(s, r)))
}

/// The record a sphere hit at parameter `t` fills in: hit point, the
/// outward normal `(p - center) / radius` oriented against the ray, and
/// the face flag.
pub open spec fn s_hit_record_at(s: Sphere, r: Ray, t: int) -> HitRecord {
    let p = s_at(r, t);
    let outward = s_div(s_sub(p, s.center), s.radius as int);
    let front = s_dot(r.dir, outward) < 0;
    HitRecord {
        p,
        normal: if front {
            outward
        } else {
            s_neg(outward)
        },
        t: t as i64,
        mat: s.mat,
        front_face: front,
    }
}

/// Sphere intersection: reject a negative discriminant, then take the
/// smaller quadratic root that the interval strictly surrounds, falling
/// back to the larger one.
pub open spec fn s_sphere_hit(s: Sphere, r: Ray, ray_t: Interval) -> Option<HitRecord> {
    let a = s_quad_a(r);
    let h = s_quad_h(s, r);
    let disc = s_discriminant(s, r);
    if disc < 0 {
        None
    } else {
        let sqrtd = fx_sqrt(disc);
        let root1 = fx_div(fx_sub(h, sqrtd), a);
        if ray_t.min < root1 < ray_t.max {
            Some(s_hit_record_at(s, r, root1))
        } else {
            let root2 = fx_div(fx_add(h, sqrtd), a);
            if ray_t.min < root2 < ray_t.max {
                Some(s_hit_record_at(s, r, root2))
            } else {
                None
            }
        }
    }
}

/// A ray whose discriminant is negative misses the sphere: no hit, for
/// any distance interval.
pub proof fn lemma_negative_discriminant_misses(s: Sphere, r: Ray, ray_t: Interval)
    requires
        s_discriminant(s, r) < 0,
    ensures
        s_sphere_hit(s, r, ray_t) is None,
{
}

impl Sphere {
    pub fn new(center: Point3, radius: i64, mat: Material) -> (r: Sphere)
        ensures
            r.center == center,
            r.radius == radius,
            r.mat == mat,
    {
        Sphere { center, radius, mat }
    }

    /// Nearest intersection of the ray with this sphere inside the
    /// interval, exactly as `s_sphere_hit` selects it.
    pub fn hit(&self, r: &Ray, ray_t: Interval) -> (res: Option<HitRecord>)
        ensures
            res == s_sphere_hit(*self, *r, ray_t),
    {
        let oc = self.center.sub(r.orig);
        let a = r.dir.length_squared();
        let h = r.dir.dot(oc);
        let c = sub_fx(oc.length_squared(), mul_fx(self.radius, self.radius));

        let discriminant = sub_fx(mul_fx(h, h), mul_fx(a, c));
        if discriminant < 0 {
            return None;
        }
        let sqrtd = sqrt_fx(discriminant);

        let mut root = div_fx(sub_fx(h, sqrtd), a);
        if !ray_t.surrounds(root) {
            root = div_fx(add_fx(h, sqrtd), a);
            if !ray_t.surrounds(root) {
                return None;
            }
        }

        let p = r.at(root);
        let outward_normal = p.sub(self.center).div_scalar(self.radius);
        let mut rec = HitRecord {
            p,
            normal: outward_normal,
            t: root,
            mat: self.mat,
            front_face: true,
        };
        rec.set_face_normal(r, outward_normal);
        proof {
            assert(rec == s_hit_record_at(*self, *r, root as int));
        }
        Some(rec)
    }
}

} // verus!
