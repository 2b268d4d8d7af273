//! A ray: an origin and a direction, with parametrized point evaluation.

use vstd::prelude::*;
use crate::vec3::{Vec3, V3i, v3_add, v3_scale};

verus! {

/// `a` is the origin, `b` the direction; the direction need not have unit
/// length.
#[derive(Clone, Copy, Debug, PartialEq, Eq, Structural)]
pub struct Ray {
    pub a: Vec3,
    pub b: Vec3,
}

/// The point `origin + t * direction`.
pub open spec fn ray_at(r: Ray, t: int) -> V3i {
    v3_add(r.a@, v3_scale(r.b@, t))
}

impl Ray {
    pub fn origin(&self) -> (r: &Vec3)
        ensures
            r == self.a,
    {
        &self.a
    }

    pub fn direction(&self) -> (r: &Vec3)
        ensures
            r == self.b,
    {
        &self.b
    }

    pub fn point_at_parameter(&self, t: i64) -> (r: Vec3)
        ensures
            r@ == ray_at(*self, t as int),
    {
        self.a.add(self.b.scale(t))
    }
}

} // verus!
