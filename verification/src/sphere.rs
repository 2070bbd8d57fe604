//! Spheres and their intersection with rays.
use crate::fixed::{
    lemma_over_monotonic, lemma_over_nonpositive, lemma_sqrt_below, lemma_sqrt_bounds,
    lemma_square_bounds, lemma_times_nonnegative, Fixed,
};
use crate::hittable::{in_range, HitRecord, Hittable};
use crate::material::Material;
use crate::ray::Ray;
use crate::vec3::{Point3, Vec3};
use core::ops::{Neg, Range};
use vstd::prelude::*;

verus! {

/// The sphere of the given centre and radius, made of `material`.
#[derive(Debug, Clone, Copy, PartialEq, Eq, Structural)]
pub struct Sphere {
    pub center: Point3,
    pub radius: Fixed,
    pub material: Material,
}

impl Sphere {
    /// The vector from the centre to the origin of `ray`.
    pub open spec fn offset(self, ray: Ray) -> Vec3 {
        ray.origin.minus(self.center)
    }

    /// The leading coefficient `a` of the quadratic `a t^2 + 2 half_b t + c`
    /// whose roots are the parameters at which `ray` meets the sphere: the
    /// squared length of the direction.
    pub open spec fn quad_a(self, ray: Ray) -> Fixed {
        ray.direction.length_squared_spec()
    }

    /// Half the middle coefficient of the quadratic: `offset . direction`.
    pub open spec fn quad_half_b(self, ray: Ray) -> Fixed {
        self.offset(ray).dot_spec(ray.direction)
    }

    /// The constant coefficient of the quadratic: `|offset|^2 - radius^2`.
    pub open spec fn quad_c(self, ray: Ray) -> Fixed {
        self.offset(ray).length_squared_spec().minus(self.radius.times(self.radius))
    }

    /// The discriminant `half_b^2 - a c`.
    pub open spec fn discriminant(self, ray: Ray) -> Fixed {
        self.quad_half_b(ray).times(self.quad_half_b(ray)).minus(
            self.quad_a(ray).times(self.quad_c(ray)),
        )
    }

    /// The smaller root `(-half_b - sqrt(discriminant)) / a`.
    pub open spec fn near_root(self, ray: Ray) -> Fixed {
        self.quad_half_b(ray).negated().minus(self.discriminant(ray).sqrt_spec()).over(
            self.quad_a(ray),
        )
    }

    /// The larger root `(-half_b + sqrt(discriminant)) / a`.
    pub open spec fn far_root(self, ray: Ray) -> Fixed {
        self.quad_half_b(ray).negated().plus(self.discriminant(ray).sqrt_spec()).over(
            self.quad_a(ray),
        )
    }

    /// The record of the intersection at parameter `t`: the point on the
    /// ray, the outward normal `(p - center) / radius`, and whether the ray
    /// runs against that normal.
    pub open spec fn record_at(self, ray: Ray, t: Fixed) -> HitRecord {
        let p = ray.at_spec(t);
        let outward_normal = p.minus(self.center).shrunk(self.radius);
        HitRecord {
            p,
            normal: outward_normal,
            material: self.material,
            t,
            front_face: ray.direction.dot_spec(outward_normal)@ < 0,
        }
    }

    /// Whether `p` lies outside the sphere: `|p - center|^2 > radius^2`.
    pub open spec fn is_outside(self, p: Point3) -> bool {
        p.minus(self.center).length_squared_spec().minus(self.radius.times(self.radius))@ > 0
    }

    /// Whether `ray` does not approach the centre:
    /// `(origin - center) . direction >= 0`.
    pub open spec fn points_away(self, ray: Ray) -> bool {
        self.quad_half_b(ray)@ >= 0
    }

    pub fn new(center: Point3, radius: Fixed, material: Material) -> (s: Sphere)
        ensures
            s == (Sphere { center, radius, material }),
    {
        Sphere { center, radius, material }
    }

    /// The record of the intersection at parameter `t`.
    fn record(&self, ray: &Ray, t: Fixed) -> (rec: HitRecord)
        ensures
            rec == self.record_at(*ray, t),
    {
        let p = ray.at(t);
        let outward_normal = (p - self.center) / self.radius;
        HitRecord {
            p,
            normal: outward_normal,
            material: self.material,
            t,
            front_face: ray.direction.dot(outward_normal).raw < 0,
        }
    }

    /// A reported intersection is the record at a root of the quadratic
    /// that lies in the interval asked for: the smaller root, or else the
    /// larger one where the smaller lies outside the interval.
    pub proof fn lemma_hit_is_root(self, ray: Ray, t_range: Range<Fixed>)
        ensures
            self.hit_spec(ray, t_range) matches Some(rec) ==> {
                &&& self.discriminant(ray)@ >= 0
                &&& in_range(rec.t, t_range)
                &&& rec == self.record_at(ray, rec.t)
                &&& rec.p == ray.at_spec(rec.t)
                &&& rec.t == self.near_root(ray) || (rec.t == self.far_root(ray) && !in_range(
                    self.near_root(ray),
                    t_range,
                ))
            },
    {
    }

    /// The smaller root does not exceed the larger one.
    pub proof fn lemma_roots_ordered(self, ray: Ray)
        requires
            self.discriminant(ray)@ >= 0,
        ensures
            self.near_root(ray)@ <= self.far_root(ray)@,
    {
        let d = self.discriminant(ray);
        let h = self.quad_half_b(ray);
        if d@ > 0 {
            lemma_sqrt_bounds(d);
        }
        ray.direction.lemma_length_squared_nonnegative();
        lemma_over_monotonic(
            h.negated().minus(d.sqrt_spec()),
            h.negated().plus(d.sqrt_spec()),
            self.quad_a(ray),
        );
    }

    /// A ray that starts outside the sphere and does not approach its
    /// centre meets the sphere at no positive parameter.
    pub proof fn lemma_miss_when_pointing_away(self, ray: Ray, t_range: Range<Fixed>)
        requires
            self.is_outside(ray.origin),
            self.points_away(ray),
            t_range.start@ > 0,
        ensures
            self.hit_spec(ray, t_range) is None,
    {
        let d = self.discriminant(ray);
        let h = self.quad_half_b(ray);
        let a = self.quad_a(ray);
        let c = self.quad_c(ray);
        if d@ >= 0 {
            ray.direction.lemma_length_squared_nonnegative();
            lemma_times_nonnegative(a, c);
            lemma_square_bounds(h);
            lemma_sqrt_below(d, h);
            lemma_over_nonpositive(h.negated().plus(d.sqrt_spec()), a);
            self.lemma_roots_ordered(ray);
        }
    }
}

impl Hittable for Sphere {
    /// No intersection where the discriminant is negative; otherwise the
    /// record at the smaller root where it lies in `t_range`, else at the
    /// larger root where that one does, else none.
    open spec fn hit_spec(&self, ray: Ray, t_range: Range<Fixed>) -> Option<HitRecord> {
        if self.discriminant(ray)@ < 0 {
            None
        } else if in_range(self.near_root(ray), t_range) {
            Some(self.record_at(ray, self.near_root(ray)))
        } else if in_range(self.far_root(ray), t_range) {
            Some(self.record_at(ray, self.far_root(ray)))
        } else {
            None
        }
    }

    fn hit(&self, ray: &Ray, t_range: Range<Fixed>) -> (hit: Option<HitRecord>) {
        let oc = ray.origin - self.center;
        let a = ray.direction.length_squared();
        let half_b = oc.dot(ray.direction);
        let c = oc.length_squared() - self.radius * self.radius;
        let discriminant = half_b * half_b - a * c;
        if discriminant.raw < 0 {
            return None;
        }
        let sqrtd = discriminant.sqrt();
        let near = (half_b.neg() - sqrtd) / a;
        if near.raw < t_range.end.raw && near.raw >= t_range.start.raw {
            return Some(self.record(ray, near));
        }
        let far = (half_b.neg() + sqrtd) / a;
        if far.raw < t_range.end.raw && far.raw >= t_range.start.raw {
            return Some(self.record(ray, far));
        }
        None
    }

    proof fn lemma_hit_in_range(&self, ray: Ray, t_range: Range<Fixed>) {
    }

    proof fn lemma_hit_narrowed(&self, ray: Ray, t_range: Range<Fixed>, end: Fixed) {
        if self.discriminant(ray)@ >= 0 {
            self.lemma_roots_ordered(ray);
        }
    }
}

} // verus!
