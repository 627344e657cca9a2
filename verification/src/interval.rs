//! Closed numeric ranges over fixed-point scalars, used to bound valid
//! hit distances along a ray.

use vstd::prelude::*;
use crate::fixed::{fx_sub, fx_clamp, sub_fx};

verus! {

/// The stand-in for positive infinity: the largest fixed-point scalar.
pub const FX_INF: i64 = i64::MAX;

#[derive(Clone, Copy, Debug, PartialEq, Eq, Structural)]
pub struct Interval {
    pub min: i64,
    pub max: i64,
}

impl Interval {
    pub fn new(min: i64, max: i64) -> (r: Interval)
        ensures
            r.min == min,
            r.max == max,
    {
        Interval { min, max }
    }

    /// The empty range: no scalar lies between the infinities reversed.
    pub fn empty() -> (r: Interval)
        ensures
            r.min == FX_INF,
            r.max == -FX_INF,
    {
        Interval { min: FX_INF, max: -FX_INF }
    }

    /// The range of every scalar.
    pub fn universe() -> (r: Interval)
        ensures
            r.min == -FX_INF,
            r.max == FX_INF,
    {
        Interval { min: -FX_INF, max: FX_INF }
    }

    pub fn size(&self) -> (r: i64)
        ensures
            r as int == fx_sub(self.max as int, self.min as int),
    {
        sub_fx(self.max, self.min)
    }

    /// Containment, inclusive at both ends.
    pub fn contains(&self, x: i64) -> (r: bool)
        ensures
            r == (self.min <= x && x <= self.max),
    {
        self.min <= x && x <= self.max
    }

    /// Containment, exclusive at both ends.
    pub fn surrounds(&self, x: i64) -> (r: bool)
        ensures
            r == (self.min < x && x < self.max),
    {
        self.min < x && x < self.max
    }

    /// Saturate `x` into the range.
    pub fn clamp(&self, x: i64) -> (r: i64)
        ensures
            r as int == fx_clamp(x as int, self.min as int, self.max as int),
    {
        if x < self.min {
            self.min
        } else if x > self.max {
            self.max
        } else {
            x
        }
    }
}

impl Default for Interval {
    /// The empty range, as ranges start before any hit narrows them.
    fn default() -> (r: Interval)
        ensures
            r.min == FX_INF,
            r.max == -FX_INF,
    {
        Interval::empty()
    }
}

} // verus!
