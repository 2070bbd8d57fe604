//! A thin-lens camera.
use crate::fixed::Fixed;
use crate::ray::Ray;
use crate::vec3::{Point3, Vec3};
use rand::rngs::StdRng;
use vstd::prelude::*;

verus! {

/// A camera: the point it looks from, the rectangle of the focus plane that
/// it sees, and its lens.
#[derive(Debug, Clone, Copy, PartialEq, Eq, Structural)]
pub struct Camera {
    pub origin: Point3,
    pub lower_left_corner: Point3,
    pub horizontal: Vec3,
    pub vertical: Vec3,
    pub u: Vec3,
    pub v: Vec3,
    pub lens_radius: Fixed,
}

/// The unit vector from `lookat` back to `lookfrom`.
pub open spec fn basis_w(lookfrom: Point3, lookat: Point3) -> Vec3 {
    lookfrom.minus(lookat).unit_spec()
}

/// The unit vector to the right of the view: `unit(vup x w)`.
pub open spec fn basis_u(lookfrom: Point3, lookat: Point3, vup: Vec3) -> Vec3 {
    vup.cross_spec(basis_w(lookfrom, lookat)).unit_spec()
}

/// The vector up the view: `w x u`.
pub open spec fn basis_v(lookfrom: Point3, lookat: Point3, vup: Vec3) -> Vec3 {
    basis_w(lookfrom, lookat).cross_spec(basis_u(lookfrom, lookat, vup))
}

impl Camera {
    /// The camera at `lookfrom` that looks at `lookat` with `vup` upwards.
    ///
    /// The seen rectangle lies `focus_dist` in front of the camera. It is
    /// `focus_dist * 2 half_height` high and `aspect_ratio` times as wide;
    /// `half_height` is the tangent of half the vertical field of view. The
    /// lens has the radius `aperture / 2`.
    pub open spec fn new_spec(
        lookfrom: Point3,
        lookat: Point3,
        vup: Vec3,
        half_height: Fixed,
        aspect_ratio: Fixed,
        aperture: Fixed,
        focus_dist: Fixed,
    ) -> Camera {
        let two = Fixed::int_spec(2);
        let viewport_height = two.times(half_height);
        let viewport_width = aspect_ratio.times(viewport_height);
        let w = basis_w(lookfrom, lookat);
        let u = basis_u(lookfrom, lookat, vup);
        let v = basis_v(lookfrom, lookat, vup);
        let horizontal = u.scaled(focus_dist.times(viewport_width));
        let vertical = v.scaled(focus_dist.times(viewport_height));
        Camera {
            origin: lookfrom,
            lower_left_corner: lookfrom.minus(horizontal.shrunk(two)).minus(
                vertical.shrunk(two),
            ).minus(w.scaled(focus_dist)),
            horizontal,
            vertical,
            u,
            v,
            lens_radius: aperture.over(two),
        }
    }

    /// The displacement on the lens that the point `disc` of the unit disc
    /// stands for: `lens_radius (disc.x u + disc.y v)`.
    pub open spec fn lens_offset(self, disc: Vec3) -> Vec3 {
        let rd = disc.scaled(self.lens_radius);
        self.u.scaled(rd.0).plus(self.v.scaled(rd.1))
    }

    /// The ray through the point `(s, t)` of the seen rectangle that
    /// leaves the lens at the point `disc` of the unit disc. It starts at
    /// `origin + offset` and runs along
    /// `lower_left_corner + s horizontal + t vertical - origin - offset`.
    pub open spec fn ray_spec(self, s: Fixed, t: Fixed, disc: Vec3) -> Ray {
        let offset = self.lens_offset(disc);
        Ray {
            origin: self.origin.plus(offset),
            direction: self.lower_left_corner.plus(self.horizontal.scaled(s)).plus(
                self.vertical.scaled(t),
            ).minus(self.origin).minus(offset),
        }
    }

    pub fn new(
        lookfrom: Point3,
        lookat: Point3,
        vup: Vec3,
        half_height: Fixed,
        aspect_ratio: Fixed,
        aperture: Fixed,
        focus_dist: Fixed,
    ) -> (camera: Camera)
        ensures
            camera == Camera::new_spec(
                lookfrom,
                lookat,
                vup,
                half_height,
                aspect_ratio,
                aperture,
                focus_dist,
            ),
    {
        let two = Fixed::from_int(2);
        let viewport_height = two * half_height;
        let viewport_width = aspect_ratio * viewport_height;
        let w = (lookfrom - lookat).unit_vector();
        let u = vup.cross(w).unit_vector();
        let v = w.cross(u);
        let origin = lookfrom;
        let horizontal = focus_dist * viewport_width * u;
        let vertical = focus_dist * viewport_height * v;
        let lower_left_corner = origin - horizontal / two - vertical / two - focus_dist * w;
        let lens_radius = aperture / two;
        Camera { origin, lower_left_corner, horizontal, vertical, u, v, lens_radius }
    }

    /// The ray through the point `(s, t)` of the seen rectangle that
    /// leaves the lens at the point `disc` of the unit disc.
    pub fn get_ray_with(&self, s: Fixed, t: Fixed, disc: Vec3) -> (ray: Ray)
        ensures
            ray == self.ray_spec(s, t, disc),
    {
        let rd = self.lens_radius * disc;
        let offset = rd.x() * self.u + rd.y() * self.v;
        Ray {
            origin: self.origin + offset,
            direction: self.lower_left_corner + s * self.horizontal + t * self.vertical
                - self.origin - offset,
        }
    }

    /// The ray through the point `(s, t)` of the seen rectangle that
    /// leaves the lens at a point drawn from `rng`.
    pub fn get_ray(&self, s: Fixed, t: Fixed, rng: &mut StdRng) -> (ray: Ray)
        ensures
            exists|disc: Vec3| disc.in_unit_disc() && ray == #[trigger] self.ray_spec(s, t, disc),
    {
        let disc = Vec3::random_in_unit_disc(rng);
        self.get_ray_with(s, t, disc)
    }
}

} // verus!
