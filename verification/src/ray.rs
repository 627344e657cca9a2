//! Rays: an origin point and a direction vector, evaluated
//! parametrically.

use vstd::prelude::*;
use crate::vec3::{Vec3, Point3, s_add, s_scale};

verus! {

#[derive(Clone, Copy, Debug, PartialEq, Eq, Structural)]
pub struct Ray {
    pub orig: Point3,
    pub dir: Vec3,
}

/// The point a ray reaches at parameter `t`: `orig + t * dir`.
pub open spec fn s_at(r: Ray, t: int) -> Vec3 {
    s_add(r.orig, s_scale(r.dir, t))
}

impl Ray {
    pub fn new(origin: Point3, direction: Vec3) -> (r: Ray)
        ensures
            r.orig == origin,
            r.dir == direction,
    {
        Ray { orig: origin, dir: direction }
    }

    pub fn at(&self, t: i64) -> (r: Point3)
        ensures
            r == s_at(*self, t as int),
    {
        self.orig.add(self.dir.scale(t))
    }
}

} // verus!
