//! Rays: an origin and a direction.
use crate::fixed::Fixed;
use crate::vec3::{Point3, Vec3};
use vstd::prelude::*;

verus! {

/// The half-line `origin + t * direction`.
#[derive(Debug, Clone, Copy, PartialEq, Eq, Structural)]
pub struct Ray {
    pub origin: Point3,
    pub direction: Vec3,
}

impl Ray {
    /// The point at parameter `t`: `origin + t * direction`.
    pub open spec fn at_spec(self, t: Fixed) -> Point3 {
        self.origin.plus(self.direction.scaled(t))
    }

    pub fn new(origin: Point3, direction: Vec3) -> (r: Ray)
        ensures
            r == (Ray { origin, direction }),
    {
        Ray { origin, direction }
    }

    pub fn origin(&self) -> (p: Point3)
        ensures
            p == self.origin,
    {
        self.origin
    }

    pub fn direction(&self) -> (d: Vec3)
        ensures
            d == self.direction,
    {
        self.direction
    }

    pub fn at(&self, t: Fixed) -> (p: Point3)
        ensures
            p == self.at_spec(t),
    {
        self.origin + t * self.direction
    }
}

} // verus!
