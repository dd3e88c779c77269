//! A ray: an origin and a direction, not necessarily normalized.

use vstd::prelude::*;

use crate::fx::Fx;
use crate::vec::{v3_add, v3_scale, Vec3};

verus! {

/// A half-line `origin + t * direction`.
#[derive(Clone, Copy, Debug, PartialEq, Eq, Structural)]
pub struct Ray {
    pub origin: Vec3,
    pub vec: Vec3,
}

/// The point the ray reaches at parameter `t`.
pub open spec fn ray_at(r: Ray, t: Fx) -> Vec3 {
    v3_add(r.origin, v3_scale(r.vec, t))
}

impl Ray {
    /// Build a ray from an origin and a direction.
    pub fn new(origin: Vec3, dir: Vec3) -> (r: Ray)
        ensures
            r.origin == origin,
            r.vec == dir,
    {
        Ray { origin, vec: dir }
    }

    /// The origin.
    pub fn origin(&self) -> (r: Vec3)
        ensures
            r == self.origin,
    {
        self.origin
    }

    /// The direction.
    pub fn direction(&self) -> (r: Vec3)
        ensures
            r == self.vec,
    {
        self.vec
    }

    /// The point at parameter `t`.
    pub fn at(&self, t: Fx) -> (r: Vec3)
        ensures
            r == ray_at(*self, t),
    {
        self.origin.add(self.vec.scale(t))
    }
}

} // verus!
