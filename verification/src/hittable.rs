//! The intersection protocol between rays and surfaces.
use crate::fixed::Fixed;
use crate::material::Material;
use crate::ray::Ray;
use crate::vec3::{Point3, Vec3};
use core::ops::Range;
use vstd::prelude::*;

verus! {

/// What is known of one intersection of a ray with a surface.
#[derive(Debug, Clone, Copy, PartialEq, Eq, Structural)]
pub struct HitRecord {
    /// The point that was hit.
    pub p: Point3,
    /// The surface normal at `p`, pointing out of the surface.
    pub normal: Vec3,
    /// The material of the surface.
    pub material: Material,
    /// The ray parameter of `p`.
    pub t: Fixed,
    /// Whether the ray came from outside the surface.
    pub front_face: bool,
}

/// Whether `t` lies in the half-open interval `[range.start, range.end)`.
pub open spec fn in_range(t: Fixed, range: Range<Fixed>) -> bool {
    range.start@ <= t@ && t@ < range.end@
}

/// What is left of `hit` when only parameters below `end` count.
pub open spec fn below(hit: Option<HitRecord>, end: Fixed) -> Option<HitRecord> {
    match hit {
        Some(rec) => if rec.t@ < end@ {
            hit
        } else {
            None
        },
        None => None,
    }
}

/// A surface that a ray can hit.
pub trait Hittable {
    /// The intersection of `ray` with the surface that `hit` reports for
    /// the parameter interval `t_range`.
    spec fn hit_spec(&self, ray: Ray, t_range: Range<Fixed>) -> Option<HitRecord>;

    /// The first intersection of `ray` with the surface whose parameter
    /// lies in `t_range`, if there is one.
    fn hit(&self, ray: &Ray, t_range: Range<Fixed>) -> (hit: Option<HitRecord>)
        ensures
            hit == self.hit_spec(*ray, t_range),
    ;

    /// A reported intersection lies in the interval that was asked for.
    proof fn lemma_hit_in_range(&self, ray: Ray, t_range: Range<Fixed>)
        ensures
            self.hit_spec(ray, t_range) matches Some(rec) ==> in_range(rec.t, t_range),
    ;

    /// Lowering the end of the interval keeps the intersection where it
    /// still lies in the interval, and reports none otherwise.
    proof fn lemma_hit_narrowed(&self, ray: Ray, t_range: Range<Fixed>, end: Fixed)
        requires
            end@ <= t_range.end@,
        ensures
            self.hit_spec(ray, t_range.start..end) == below(self.hit_spec(ray, t_range), end),
    ;
}

} // verus!
