//! The scene aggregate: an ordered list of spheres resolved to the
//! nearest hit by narrowing the valid interval as closer hits are found.

use vstd::prelude::*;
use crate::ray::Ray;
use crate::interval::Interval;
use crate::hittable::{HitRecord, Sphere, s_sphere_hit, s_hit_record_at, s_discriminant, s_quad_a,
    s_quad_h};
use crate::fixed::{fx_sqrt, fx_sub, fx_add, fx_div};

verus! {

/// Nearest hit over a prefix-ordered fold: each member is asked over the
/// interval narrowed to the best distance found so far.
pub open spec fn s_list_hit(objs: Seq<Sphere>, r: Ray, ray_t: Interval) -> Option<HitRecord>
    decreases objs.len(),
{
    if objs.len() == 0 {
        None
    } else {
        let prev = s_list_hit(objs.drop_last(), r, ray_t);
        let cur_max = match prev {
            Some(hr) => hr.t,
            None => ray_t.max,
        };
        match s_sphere_hit(objs.last(), r, Interval { min: ray_t.min, max: cur_max }) {
            Some(hr) => Some(hr),
            None => prev,
        }
    }
}

/// A sphere hit lies strictly inside the interval it was asked over, and
/// is the record of its own parameter.
pub proof fn lemma_sphere_hit_t_in_range(s: Sphere, r: Ray, ray_t: Interval)
    ensures
        s_sphere_hit(s, r, ray_t) matches Some(h) ==> ray_t.min < h.t < ray_t.max && h
            == s_hit_record_at(s, r, h.t as int),
{
    let disc = s_discriminant(s, r);
    if disc >= 0 {
        let a = s_quad_a(r);
        let h0 = s_quad_h(s, r);
        let sqrtd = fx_sqrt(disc);
        let root1 = fx_div(fx_sub(h0, sqrtd), a);
        let root2 = fx_div(fx_add(h0, sqrtd), a);
        if ray_t.min < root1 < ray_t.max {
            assert(s_hit_record_at(s, r, root1).t == root1 as i64);
        } else if ray_t.min < root2 < ray_t.max {
            assert(s_hit_record_at(s, r, root2).t == root2 as i64);
        }
    }
}

/// Narrowing the far end of the interval past a hit keeps that hit:
/// the same root stays selected.
pub proof fn lemma_sphere_hit_narrow(s: Sphere, r: Ray, min: i64, max: i64, best: i64)
    requires
        s_sphere_hit(s, r, Interval { min, max }) matches Some(h) && h.t < best,
        best <= max,
    ensures
        s_sphere_hit(s, r, Interval { min, max: best }) == s_sphere_hit(
            s,
            r,
            Interval { min, max },
        ),
{
    let wide = Interval { min, max };
    let narrow = Interval { min, max: best };
    lemma_sphere_hit_t_in_range(s, r, wide);
    let disc = s_discriminant(s, r);
    let a = s_quad_a(r);
    let h0 = s_quad_h(s, r);
    let sqrtd = fx_sqrt(disc);
    let root1 = fx_div(fx_sub(h0, sqrtd), a);
    let root2 = fx_div(fx_add(h0, sqrtd), a);
    if min < root1 < max {
        assert(s_hit_record_at(s, r, root1).t == root1 as i64);
    } else {
        assert(s_hit_record_at(s, r, root2).t == root2 as i64);
    }
}

/// Every hit the aggregate reports lies strictly inside the interval.
pub proof fn lemma_list_hit_t_in_range(objs: Seq<Sphere>, r: Ray, ray_t: Interval)
    ensures
        s_list_hit(objs, r, ray_t) matches Some(h) ==> ray_t.min < h.t < ray_t.max,
    decreases objs.len(),
{
    if objs.len() > 0 {
        lemma_list_hit_t_in_range(objs.drop_last(), r, ray_t);
        let prev = s_list_hit(objs.drop_last(), r, ray_t);
        let cur_max = match prev {
            Some(hr) => hr.t,
            None => ray_t.max,
        };
        lemma_sphere_hit_t_in_range(objs.last(), r, Interval { min: ray_t.min, max: cur_max });
    }
}

/// Nearest-hit resolution: whenever one member of the aggregate hits
/// inside the interval, the aggregate reports a hit, and the reported
/// distance is no farther than that member's.
pub proof fn lemma_aggregate_nearest(objs: Seq<Sphere>, r: Ray, ray_t: Interval, i: int)
    requires
        0 <= i < objs.len(),
        s_sphere_hit(objs[i], r, ray_t) is Some,
    ensures
        s_list_hit(objs, r, ray_t) is Some,
        s_list_hit(objs, r, ray_t)->Some_0.t <= s_sphere_hit(objs[i], r, ray_t)->Some_0.t,
    decreases objs.len(),
{
    let prev = s_list_hit(objs.drop_last(), r, ray_t);
    let cur_max = match prev {
        Some(hr) => hr.t,
        None => ray_t.max,
    };
    let last = objs.last();
    let narrowed = Interval { min: ray_t.min, max: cur_max };
    let last_hit = s_sphere_hit(last, r, narrowed);
    lemma_list_hit_t_in_range(objs.drop_last(), r, ray_t);
    lemma_sphere_hit_t_in_range(last, r, narrowed);
    let ti = s_sphere_hit(objs[i], r, ray_t)->Some_0.t;
    lemma_sphere_hit_t_in_range(objs[i], r, ray_t);
    if i < objs.len() - 1 {
        assert(objs.drop_last()[i] == objs[i]);
        lemma_aggregate_nearest(objs.drop_last(), r, ray_t, i);
        let hp = prev->Some_0;
        match last_hit {
            Some(hl) => {
                assert(hl.t < cur_max);
            },
            None => {
            },
        }
    } else {
        assert(objs[i] == last);
        match prev {
            Some(hp) => {
                if ti < hp.t {
                    lemma_sphere_hit_narrow(last, r, ray_t.min, ray_t.max, hp.t);
                } else {
                    match last_hit {
                        Some(hl) => {
                            assert(hl.t < cur_max);
                        },
                        None => {
                        },
                    }
                }
            },
            None => {
                assert(narrowed == ray_t);
            },
        }
    }
}

/// A flat, ordered collection of sphere surfaces.
#[derive(Clone, Debug)]
pub struct HittableList {
    pub objects: Vec<Sphere>,
}

impl HittableList {
    pub fn new() -> (r: HittableList)
        ensures
            r.objects@ == Seq::<Sphere>::empty(),
    {
        HittableList { objects: Vec::new() }
    }

    pub fn new_with(object: Sphere) -> (r: HittableList)
        ensures
            r.objects@ == Seq::<Sphere>::empty().push(object),
    {
        let mut list = Self::new();
        list.add(object);
        list
    }

    pub fn clear(&mut self)
        ensures
            final(self).objects@ == Seq::<Sphere>::empty(),
    {
        self.objects.clear();
    }

    pub fn add(&mut self, object: Sphere)
        ensures
            final(self).objects@ == old(self).objects@.push(object),
    {
        self.objects.push(object);
    }

    /// The single nearest hit across all members, found by narrowing the
    /// interval's far end to the best distance so far.
    pub fn hit(&self, r: &Ray, ray_t: Interval) -> (res: Option<HitRecord>)
        ensures
            res == s_list_hit(self.objects@, *r, ray_t),
    {
        let mut closest_hitrecord: Option<HitRecord> = None;
        let mut closest_so_far = ray_t.max;
        let n = self.objects.len();
        let mut i: usize = 0;

        proof {
            assert(self.objects@.take(0int) =~= Seq::<Sphere>::empty());
        }
        while i < n
            invariant
                i <= n,
                n == self.objects@.len(),
                closest_hitrecord == s_list_hit(self.objects@.take(i as int), *r, ray_t),
                closest_so_far == match closest_hitrecord {
                    Some(hr) => hr.t,
                    None => ray_t.max,
                },
            decreases n - i,
        {
            let obj = self.objects[i];
            let candidate = obj.hit(r, Interval::new(ray_t.min, closest_so_far));
            proof {
                assert(self.objects@.take(i + 1int).drop_last() =~= self.objects@.take(i as int));
                assert(self.objects@.take(i + 1int).last() == self.objects@[i as int]);
            }
            if let Some(hit_rec) = candidate {
                closest_so_far = hit_rec.t;
                closest_hitrecord = Some(hit_rec);
            }
            i = i + 1;
        }
        proof {
            assert(self.objects@.take(n as int) =~= self.objects@);
        }
        closest_hitrecord
    }
}

} // verus!
