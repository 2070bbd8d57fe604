//! Surface materials and how they scatter light.
use crate::fixed::{lemma_over_one, lemma_times_unit, Fixed};
use crate::hittable::HitRecord;
use crate::ray::Ray;
use crate::sampling::random_fraction;
use crate::utility_funcs::{clamp, clamp_spec};
use crate::vec3::{
    lemma_dot_with_unit, lemma_reflect_flips, lemma_refract_unit_ratio, reflect, reflect_spec,
    refract, refract_spec, Color, Vec3,
};
use core::ops::Neg;
use rand::rngs::StdRng;
use vstd::prelude::*;

verus! {

/// How a surface scatters the rays that hit it.
#[derive(Debug, Clone, Copy, PartialEq, Eq, Structural)]
pub enum Material {
    /// A diffuse surface of the given colour.
    Lambertian { albedo: Vec3 },
    /// A mirror of the given colour, blurred by `fuzz`.
    Metal { albedo: Vec3, fuzz: Fixed },
    /// A clear medium with index of refraction `ir`.
    Dielectric { ir: Fixed },
}

/// Schlick's approximation of the share of light that a clear surface
/// reflects: `r + (1 - r) (1 - cosine)^5` with
/// `r = ((1 - ref_idx) / (1 + ref_idx))^2`.
pub open spec fn reflectance_spec(cosine: Fixed, ref_idx: Fixed) -> Fixed {
    let one = Fixed::int_spec(1);
    let r0 = one.minus(ref_idx).over(one.plus(ref_idx));
    let r1 = r0.times(r0);
    r1.plus(one.minus(r1).times(one.minus(cosine).pow5_spec()))
}

/// The direction in which a diffuse surface scatters: the normal plus the
/// unit vector of `ball`, or the bare normal where that sum is zero.
pub open spec fn lambertian_direction(rec: HitRecord, ball: Vec3) -> Vec3 {
    let direction = rec.normal.plus(ball.unit_spec());
    if direction.near_zero_spec() {
        rec.normal
    } else {
        direction
    }
}

/// The direction in which a mirror sends a ray, before it is known whether
/// the ray leaves the surface: the mirror image of the unit incoming
/// direction, plus `ball` scaled by `fuzz` limited to `[0, 1]`.
pub open spec fn metal_direction(fuzz: Fixed, ray_in: Ray, rec: HitRecord, ball: Vec3) -> Vec3 {
    let f = clamp_spec(fuzz, Fixed::int_spec(0), Fixed::int_spec(1));
    reflect_spec(ray_in.direction.unit_spec(), rec.normal).plus(ball.scaled(f))
}

/// The ratio of refractive indices that a ray meets: `1 / ir` on the front
/// face, `ir` on the back.
pub open spec fn refraction_ratio(ir: Fixed, rec: HitRecord) -> Fixed {
    if rec.front_face {
        Fixed::int_spec(1).over(ir)
    } else {
        ir
    }
}

/// The cosine of the angle between the reversed unit incoming direction and
/// the normal, limited to at most one.
pub open spec fn incidence_cos(ray_in: Ray, rec: HitRecord) -> Fixed {
    ray_in.direction.unit_spec().negated().dot_spec(rec.normal).min_spec(Fixed::int_spec(1))
}

/// The sine that belongs to `incidence_cos`: `sqrt(1 - cos^2)`.
pub open spec fn incidence_sin(ray_in: Ray, rec: HitRecord) -> Fixed {
    let cos_theta = incidence_cos(ray_in, rec);
    Fixed::int_spec(1).minus(cos_theta.times(cos_theta)).sqrt_spec()
}

/// Whether a clear surface reflects the ray: where Snell's law has no
/// solution (`ratio * sin > 1`), or where the reflectance exceeds `coin`.
pub open spec fn dielectric_reflects(ir: Fixed, ray_in: Ray, rec: HitRecord, coin: Fixed) -> bool {
    let ratio = refraction_ratio(ir, rec);
    ratio.times(incidence_sin(ray_in, rec))@ > Fixed::int_spec(1)@ || reflectance_spec(
        incidence_cos(ray_in, rec),
        ratio,
    )@ > coin@
}

/// The direction in which a clear surface sends a ray: reflected where
/// `dielectric_reflects` holds, refracted otherwise.
pub open spec fn dielectric_direction(ir: Fixed, ray_in: Ray, rec: HitRecord, coin: Fixed) -> Vec3 {
    let unit_direction = ray_in.direction.unit_spec();
    if dielectric_reflects(ir, ray_in, rec, coin) {
        reflect_spec(unit_direction, rec.normal)
    } else {
        refract_spec(unit_direction, rec.normal, refraction_ratio(ir, rec))
    }
}

/// Schlick's approximation of the share of light that is reflected.
fn reflectance(cosine: Fixed, ref_idx: Fixed) -> (r: Fixed)
    ensures
        r == reflectance_spec(cosine, ref_idx),
{
    let r0 = (Fixed::one() - ref_idx) / (Fixed::one() + ref_idx);
    let r1 = r0 * r0;
    r1 + (Fixed::one() - r1) * (Fixed::one() - cosine).pow5()
}

impl Material {
    /// What becomes of `ray_in` at the hit `rec` on a surface of this
    /// material, for the point `ball` of the unit ball and the fraction
    /// `coin`: the attenuation and the scattered ray, or nothing where the
    /// ray is absorbed.
    ///
    /// A diffuse surface always scatters, along `lambertian_direction`. A
    /// mirror scatters along `metal_direction` where that direction leaves
    /// the surface, and absorbs the ray otherwise. A clear surface always
    /// scatters, without attenuation, along `dielectric_direction`.
    pub open spec fn scatter_spec(self, ray_in: Ray, rec: HitRecord, ball: Vec3, coin: Fixed)
        -> Option<(Color, Ray)> {
        match self {
            Material::Lambertian { albedo } => Some(
                (albedo, Ray { origin: rec.p, direction: lambertian_direction(rec, ball) }),
            ),
            Material::Metal { albedo, fuzz } => {
                let direction = metal_direction(fuzz, ray_in, rec, ball);
                if direction.dot_spec(rec.normal)@ > 0 {
                    Some((albedo, Ray { origin: rec.p, direction }))
                } else {
                    None
                }
            },
            Material::Dielectric { ir } => Some(
                (
                    Vec3::splat(Fixed::int_spec(1)),
                    Ray { origin: rec.p, direction: dielectric_direction(ir, ray_in, rec, coin) },
                ),
            ),
        }
    }

    /// The light that the material gives off at `p`: none.
    pub open spec fn emitted_spec(self, p: Vec3) -> Vec3 {
        Vec3::splat(Fixed::int_spec(0))
    }

    /// Scatters `ray_in` at `rec` with the given samples: `ball`, a point
    /// of the unit ball, serves diffuse surfaces and mirrors, and `coin`, a
    /// fraction, serves clear surfaces.
    pub fn scatter_with(&self, ray_in: &Ray, rec: &HitRecord, ball: Vec3, coin: Fixed) -> (r:
        Option<(Color, Ray)>)
        ensures
            r == self.scatter_spec(*ray_in, *rec, ball, coin),
    {
        match self {
            Material::Lambertian { albedo } => {
                let mut scatter_direction = rec.normal + ball.unit_vector();
                if scatter_direction.near_zero() {
                    scatter_direction = rec.normal;
                }
                Some((*albedo, Ray::new(rec.p, scatter_direction)))
            },
            Material::Metal { albedo, fuzz } => {
                let f = clamp(*fuzz, Fixed::zero(), Fixed::one());
                let reflected = reflect(ray_in.direction.unit_vector(), rec.normal);
                let scattered = Ray::new(rec.p, reflected + f * ball);
                if scattered.direction.dot(rec.normal).raw > 0 {
                    return Some((*albedo, scattered));
                }
                None
            },
            Material::Dielectric { ir } => {
                let refraction_ratio = if rec.front_face {
                    Fixed::one() / *ir
                } else {
                    *ir
                };
                let unit_direction = ray_in.direction.unit_vector();
                let cos_theta = unit_direction.neg().dot(rec.normal).min(Fixed::one());
                let sin_theta = (Fixed::one() - cos_theta * cos_theta).sqrt();
                let cannot_refract = (refraction_ratio * sin_theta).raw > Fixed::one().raw;
                let direction = if cannot_refract || reflectance(cos_theta, refraction_ratio).raw
                    > coin.raw {
                    reflect(unit_direction, rec.normal)
                } else {
                    refract(unit_direction, rec.normal, refraction_ratio)
                };
                Some((Vec3(Fixed::one(), Fixed::one(), Fixed::one()), Ray::new(rec.p, direction)))
            },
        }
    }

    /// Scatters `ray_in` at `rec` with samples drawn from `rng`: a point of
    /// the unit ball for a diffuse surface or a mirror, a fraction for a
    /// clear surface.
    pub fn scatter(&self, ray_in: &Ray, rec: &HitRecord, rng: &mut StdRng) -> (r: Option<
        (Color, Ray),
    >)
        ensures
            exists|ball: Vec3, coin: Fixed|
                ball.in_unit_ball() && coin.is_fraction() && r == #[trigger] self.scatter_spec(
                    *ray_in,
                    *rec,
                    ball,
                    coin,
                ),
    {
        match self {
            Material::Dielectric { .. } => {
                let coin = random_fraction(rng);
                let ball = Vec3::default();
                proof {
                    crate::sampling::lemma_zero_in_unit_ball();
                }
                self.scatter_with(ray_in, rec, ball, coin)
            },
            _ => {
                let ball = Vec3::random_in_unit_sphere(rng);
                self.scatter_with(ray_in, rec, ball, Fixed::zero())
            },
        }
    }

    pub fn emitted(&self, _p: Vec3) -> (r: Vec3)
        ensures
            r == self.emitted_spec(_p),
    {
        Vec3::default()
    }

    /// A diffuse surface scatters every ray, with its albedo as
    /// attenuation, from the point that was hit.
    pub proof fn lemma_lambertian_always_scatters(
        self,
        ray_in: Ray,
        rec: HitRecord,
        ball: Vec3,
        coin: Fixed,
    )
        requires
            self is Lambertian,
        ensures
            self.scatter_spec(ray_in, rec, ball, coin) matches Some((attenuation, scattered))
                && attenuation == self->Lambertian_albedo && scattered.origin == rec.p,
    {
    }

    /// A mirror absorbs a ray exactly where the blurred mirror image of
    /// its direction does not leave the surface.
    pub proof fn lemma_metal_absorbs_iff_inward(
        self,
        ray_in: Ray,
        rec: HitRecord,
        ball: Vec3,
        coin: Fixed,
    )
        requires
            self is Metal,
        ensures
            self.scatter_spec(ray_in, rec, ball, coin) is None <==> metal_direction(
                self->fuzz,
                ray_in,
                rec,
                ball,
            ).dot_spec(rec.normal)@ <= 0,
            self.scatter_spec(ray_in, rec, ball, coin) matches Some((attenuation, scattered))
                ==> attenuation == self->Metal_albedo && scattered.direction.dot_spec(rec.normal)@
                > 0,
    {
    }

    /// A clear surface scatters every ray without attenuation.
    pub proof fn lemma_dielectric_always_scatters(
        self,
        ray_in: Ray,
        rec: HitRecord,
        ball: Vec3,
        coin: Fixed,
    )
        requires
            self is Dielectric,
        ensures
            self.scatter_spec(ray_in, rec, ball, coin) matches Some((attenuation, scattered))
                && attenuation == Vec3::splat(Fixed::int_spec(1)) && scattered.origin == rec.p,
    {
    }
}

/// With the index of refraction one the ratio of refractive indices is one
/// on both faces.
pub proof fn lemma_unit_index_ratio(rec: HitRecord)
    ensures
        refraction_ratio(Fixed::int_spec(1), rec) == Fixed::int_spec(1),
{
    lemma_over_one(Fixed::int_spec(1));
}

/// Between equal refractive indices no light is reflected at normal
/// incidence.
pub proof fn lemma_no_reflectance_head_on()
    ensures
        reflectance_spec(Fixed::int_spec(1), Fixed::int_spec(1))@ == 0,
{
    let one = Fixed::int_spec(1);
    let zero = Fixed { raw: 0 };
    assert(one.minus(one) == zero);
    assert(zero.over(one.plus(one))@ == 0);
    lemma_times_unit(zero);
    lemma_times_unit(one);
}

/// A clear surface with the index of refraction one lets a ray pass
/// without a change of direction, whatever the fraction drawn, where the
/// direction of the ray and the normal have length exactly one and the
/// ray does not run along the normal.
pub proof fn lemma_unit_index_passes_through(ray_in: Ray, rec: HitRecord, ball: Vec3, coin: Fixed)
    requires
        ray_in.direction.is_unit(),
        rec.normal.is_unit(),
        ray_in.direction.dot_spec(rec.normal)@ <= 0,
        coin.is_fraction(),
    ensures
        (Material::Dielectric { ir: Fixed::int_spec(1) }).scatter_spec(ray_in, rec, ball, coin)
            == Some(
            (
                Vec3::splat(Fixed::int_spec(1)),
                Ray { origin: rec.p, direction: ray_in.direction },
            ),
        ),
{
    let one = Fixed::int_spec(1);
    let d = ray_in.direction;
    let n = rec.normal;
    d.lemma_unit_of_unit();
    lemma_unit_index_ratio(rec);
    lemma_refract_unit_ratio(d, n);
    lemma_dot_with_unit(d, n);
    if d.dot_spec(n)@ == 0 {
        lemma_reflect_flips(d, n);
        n.lemma_unit_is_axis();
        d.lemma_unit_is_axis();
        assert(reflect_spec(d, n) == d);
    } else {
        lemma_head_on_refracts(ray_in, rec, coin);
    }
}

/// Between equal refractive indices a ray that runs against the normal is
/// refracted, whatever the fraction drawn.
proof fn lemma_head_on_refracts(ray_in: Ray, rec: HitRecord, coin: Fixed)
    requires
        ray_in.direction.is_unit(),
        rec.normal.is_unit(),
        ray_in.direction.dot_spec(rec.normal)@ < 0,
        coin.is_fraction(),
    ensures
        !dielectric_reflects(Fixed::int_spec(1), ray_in, rec, coin),
{
    let one = Fixed::int_spec(1);
    let d = ray_in.direction;
    let n = rec.normal;
    d.lemma_unit_of_unit();
    lemma_unit_index_ratio(rec);
    d.lemma_unit_is_axis();
    n.lemma_unit_is_axis();
    lemma_dot_with_unit(d, n);
    lemma_dot_with_unit(d.negated(), n);
    lemma_times_unit(d.negated().0);
    lemma_times_unit(d.negated().1);
    lemma_times_unit(d.negated().2);
    let cos_theta = incidence_cos(ray_in, rec);
    assert(cos_theta == one);
    lemma_times_unit(one);
    lemma_over_one(one);
    let sin_theta = incidence_sin(ray_in, rec);
    assert(sin_theta@ == 0);
    lemma_times_unit(sin_theta);
    lemma_no_reflectance_head_on();
}

} // verus!
