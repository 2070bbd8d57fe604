//! Two scenes to render: a fixed one of four spheres, and a random field of
//! small spheres around three large ones.
use crate::fixed::Fixed;
use crate::material::Material;
use crate::sampling::{random_fraction, range_point, range_point_spec};
use crate::sphere::Sphere;
use crate::vec3::{Point3, Vec3};
use rand::rngs::StdRng;
use vstd::prelude::*;

verus! {

/// Half the number of grid cells along each side of the random field: the
/// cells run from `-GRID_HALF` to `GRID_HALF - 1`.
pub const GRID_HALF: i32 = 11;

/// The triple `(nx / d, ny / d, nz / d)`.
pub open spec fn ratios_spec(nx: int, ny: int, nz: int, d: int) -> Vec3 {
    Vec3(Fixed::ratio_spec(nx, d), Fixed::ratio_spec(ny, d), Fixed::ratio_spec(nz, d))
}

/// The triple `(nx / d, ny / d, nz / d)`.
fn ratios(nx: i32, ny: i32, nz: i32, d: i32) -> (v: Vec3)
    ensures
        v == ratios_spec(nx as int, ny as int, nz as int, d as int),
{
    Vec3(Fixed::ratio(nx, d), Fixed::ratio(ny, d), Fixed::ratio(nz, d))
}

/// The scene of four spheres: a large green ground, a blue diffuse sphere
/// in the middle, a glass sphere to its left and a mirror to its right.
pub open spec fn test_reflection_spec() -> Seq<Sphere> {
    seq![
        Sphere {
            center: ratios_spec(0, -201, -2, 2),
            radius: Fixed::int_spec(100),
            material: Material::Lambertian { albedo: ratios_spec(4, 10, 7, 10) },
        },
        Sphere {
            center: ratios_spec(0, 0, -1, 1),
            radius: Fixed::ratio_spec(1, 2),
            material: Material::Lambertian { albedo: ratios_spec(7, 7, 10, 10) },
        },
        Sphere {
            center: ratios_spec(-1, 0, -1, 1),
            radius: Fixed::ratio_spec(1, 2),
            material: Material::Dielectric { ir: Fixed::ratio_spec(3, 2) },
        },
        Sphere {
            center: ratios_spec(1, 0, -1, 1),
            radius: Fixed::ratio_spec(1, 2),
            material: Material::Metal {
                albedo: ratios_spec(100, 20, 87, 100),
                fuzz: Fixed::int_spec(0),
            },
        },
    ]
}

pub fn test_reflection() -> (world: Vec<Sphere>)
    ensures
        world@ == test_reflection_spec(),
{
    let ground_material = Material::Lambertian { albedo: ratios(4, 10, 7, 10) };
    let material_center = Material::Lambertian { albedo: ratios(7, 7, 10, 10) };
    let material_left = Material::Dielectric { ir: Fixed::ratio(3, 2) };
    let material_right = Material::Metal { albedo: ratios(100, 20, 87, 100), fuzz: Fixed::zero() };
    let mut world: Vec<Sphere> = Vec::new();
    world.push(Sphere::new(ratios(0, -201, -2, 2), Fixed::from_int(100), ground_material));
    world.push(Sphere::new(ratios(0, 0, -1, 1), Fixed::ratio(1, 2), material_center));
    world.push(Sphere::new(ratios(-1, 0, -1, 1), Fixed::ratio(1, 2), material_left));
    world.push(Sphere::new(ratios(1, 0, -1, 1), Fixed::ratio(1, 2), material_right));
    world
}

/// The ground of the random field: a grey sphere of radius 1000 below the
/// origin.
pub open spec fn ground_spec() -> Sphere {
    Sphere {
        center: ratios_spec(0, -1000, 0, 1),
        radius: Fixed::int_spec(1000),
        material: Material::Lambertian { albedo: ratios_spec(1, 1, 1, 2) },
    }
}

/// The three large spheres of the random field: glass in the middle, a
/// brown diffuse sphere behind it and a mirror in front.
pub open spec fn landmarks_spec() -> Seq<Sphere> {
    seq![
        Sphere {
            center: ratios_spec(0, 1, 0, 1),
            radius: Fixed::int_spec(1),
            material: Material::Dielectric { ir: Fixed::ratio_spec(3, 2) },
        },
        Sphere {
            center: ratios_spec(-4, 1, 0, 1),
            radius: Fixed::int_spec(1),
            material: Material::Lambertian { albedo: ratios_spec(4, 2, 1, 10) },
        },
        Sphere {
            center: ratios_spec(4, 1, 0, 1),
            radius: Fixed::int_spec(1),
            material: Material::Metal {
                albedo: ratios_spec(7, 6, 5, 10),
                fuzz: Fixed::int_spec(0),
            },
        },
    ]
}

/// The samples that place and colour one small sphere: a fraction that
/// picks the material, two that move the centre within its cell, two
/// triples of fractions for the colour and a fraction for the blur.
#[derive(Debug, Clone, Copy, PartialEq, Eq, Structural)]
pub struct CellDraw {
    pub choose_mat: Fixed,
    pub shift_x: Fixed,
    pub shift_z: Fixed,
    pub first: Vec3,
    pub second: Vec3,
    pub blur: Fixed,
}

impl CellDraw {
    /// Whether every sample is a fraction.
    pub open spec fn valid(self) -> bool {
        &&& self.choose_mat.is_fraction()
        &&& self.shift_x.is_fraction()
        &&& self.shift_z.is_fraction()
        &&& self.first.is_fractions()
        &&& self.second.is_fractions()
        &&& self.blur.is_fraction()
    }
}

/// The centre of the small sphere of cell `(a, b)`:
/// `(a + 0.9 shift_x, 0.2, b + 0.9 shift_z)`.
pub open spec fn cell_center_spec(a: int, b: int, shift_x: Fixed, shift_z: Fixed) -> Point3 {
    Vec3(
        Fixed::int_spec(a).plus(Fixed::ratio_spec(9, 10).times(shift_x)),
        Fixed::ratio_spec(1, 5),
        Fixed::int_spec(b).plus(Fixed::ratio_spec(9, 10).times(shift_z)),
    )
}

/// Whether a small sphere at `center` keeps clear of the mirror: it lies
/// farther than 0.9 from `(4, 0.2, 0)`.
pub open spec fn keeps_clear_spec(center: Point3) -> bool {
    center.minus(ratios_spec(20, 1, 0, 5)).length_spec()@ > Fixed::ratio_spec(9, 10)@
}

/// The material of a small sphere. Below 0.8 `choose_mat` picks a diffuse
/// surface with the colour `first * second`; below 0.95 a mirror with a
/// colour between 0.5 and 1 and a blur below 0.5; else glass.
pub open spec fn cell_material_spec(draw: CellDraw) -> Material {
    if draw.choose_mat@ < Fixed::ratio_spec(4, 5)@ {
        Material::Lambertian { albedo: draw.first.times(draw.second) }
    } else if draw.choose_mat@ < Fixed::ratio_spec(19, 20)@ {
        Material::Metal {
            albedo: range_point_spec(Fixed::ratio_spec(1, 2), Fixed::int_spec(1), draw.first),
            fuzz: Fixed::int_spec(0).plus(
                draw.blur.times(Fixed::ratio_spec(1, 2).minus(Fixed::int_spec(0))),
            ),
        }
    } else {
        Material::Dielectric { ir: Fixed::ratio_spec(3, 2) }
    }
}

/// The small sphere of cell `(a, b)` for the samples `draw`, or none where
/// it would not keep clear of the mirror.
pub open spec fn cell_sphere_spec(a: int, b: int, draw: CellDraw) -> Option<Sphere> {
    let center = cell_center_spec(a, b, draw.shift_x, draw.shift_z);
    if keeps_clear_spec(center) {
        Some(Sphere { center, radius: Fixed::ratio_spec(1, 5), material: cell_material_spec(draw) })
    } else {
        None
    }
}

/// Whether `sphere` is the small sphere of some cell of the grid for some
/// valid samples.
pub open spec fn is_cell_sphere(sphere: Sphere) -> bool {
    exists|a: int, b: int, draw: CellDraw|
        -GRID_HALF <= a < GRID_HALF && -GRID_HALF <= b < GRID_HALF && draw.valid()
            && #[trigger] cell_sphere_spec(a, b, draw) == Some(sphere)
}

/// The small sphere of cell `(a, b)` for the samples `draw`, or none where
/// it would not keep clear of the mirror.
pub fn cell_sphere(a: i32, b: i32, draw: CellDraw) -> (sphere: Option<Sphere>)
    ensures
        sphere == cell_sphere_spec(a as int, b as int, draw),
{
    let spread = Fixed::ratio(9, 10);
    let center = Vec3(
        Fixed::from_int(a) + spread * draw.shift_x,
        Fixed::ratio(1, 5),
        Fixed::from_int(b) + spread * draw.shift_z,
    );
    if (center - ratios(20, 1, 0, 5)).length().raw > spread.raw {
        let material = if draw.choose_mat.raw < Fixed::ratio(4, 5).raw {
            Material::Lambertian { albedo: draw.first * draw.second }
        } else if draw.choose_mat.raw < Fixed::ratio(19, 20).raw {
            let albedo = range_point(Fixed::ratio(1, 2), Fixed::one(), draw.first);
            let fuzz = Fixed::zero() + draw.blur * (Fixed::ratio(1, 2) - Fixed::zero());
            Material::Metal { albedo, fuzz }
        } else {
            Material::Dielectric { ir: Fixed::ratio(3, 2) }
        };
        Some(Sphere::new(center, Fixed::ratio(1, 5), material))
    } else {
        None
    }
}

/// Samples for one cell, drawn from `rng`.
pub fn random_cell_draw(rng: &mut StdRng) -> (draw: CellDraw)
    ensures
        draw.valid(),
{
    let choose_mat = random_fraction(rng);
    let shift_x = random_fraction(rng);
    let shift_z = random_fraction(rng);
    let first = Vec3::random(rng);
    let second = Vec3::random(rng);
    let blur = random_fraction(rng);
    CellDraw { choose_mat, shift_x, shift_z, first, second, blur }
}

/// Whether `world` is a random field: the ground, then small spheres of
/// cells of the grid, at most 484 of them, then the three large spheres.
pub open spec fn is_random_scene(world: Seq<Sphere>) -> bool {
    &&& 4 <= world.len() <= 4 + 484
    &&& world[0] == ground_spec()
    &&& world.subrange(world.len() - 3, world.len() as int) == landmarks_spec()
    &&& forall|i: int| 1 <= i < world.len() - 3 ==> is_cell_sphere(#[trigger] world[i])
}

pub fn random_scene(rng: &mut StdRng) -> (world: Vec<Sphere>)
    ensures
        is_random_scene(world@),
{
    let mut world: Vec<Sphere> = Vec::new();
    let ground_material = Material::Lambertian { albedo: ratios(1, 1, 1, 2) };
    world.push(Sphere::new(ratios(0, -1000, 0, 1), Fixed::from_int(1000), ground_material));
    let mut a: i32 = -GRID_HALF;
    while a < GRID_HALF
        invariant
            -GRID_HALF <= a <= GRID_HALF,
            1 <= world.len() <= 1 + 22 * (a + GRID_HALF),
            world@[0] == ground_spec(),
            forall|i: int| 1 <= i < world.len() ==> is_cell_sphere(#[trigger] world@[i]),
        decreases GRID_HALF - a,
    {
        let mut b: i32 = -GRID_HALF;
        while b < GRID_HALF
            invariant
                -GRID_HALF <= a < GRID_HALF,
                -GRID_HALF <= b <= GRID_HALF,
                1 <= world.len() <= 1 + 22 * (a + GRID_HALF) + (b + GRID_HALF),
                world@[0] == ground_spec(),
                forall|i: int| 1 <= i < world.len() ==> is_cell_sphere(#[trigger] world@[i]),
            decreases GRID_HALF - b,
        {
            let draw = random_cell_draw(rng);
            if let Some(sphere) = cell_sphere(a, b, draw) {
                assert(is_cell_sphere(sphere)) by {
                    assert(cell_sphere_spec(a as int, b as int, draw) == Some(sphere));
                }
                world.push(sphere);
            }
            b = b + 1;
        }
        a = a + 1;
    }
    let ghost field = world@;
    world.push(
        Sphere::new(
            ratios(0, 1, 0, 1),
            Fixed::from_int(1),
            Material::Dielectric { ir: Fixed::ratio(3, 2) },
        ),
    );
    world.push(
        Sphere::new(
            ratios(-4, 1, 0, 1),
            Fixed::from_int(1),
            Material::Lambertian { albedo: ratios(4, 2, 1, 10) },
        ),
    );
    world.push(
        Sphere::new(
            ratios(4, 1, 0, 1),
            Fixed::from_int(1),
            Material::Metal { albedo: ratios(7, 6, 5, 10), fuzz: Fixed::zero() },
        ),
    );
    proof {
        assert(world@.len() == field.len() + 3);
        assert(world@.subrange(world@.len() - 3, world@.len() as int) == landmarks_spec());
        assert forall|i: int| 1 <= i < world@.len() - 3 implies is_cell_sphere(
            #[trigger] world@[i],
        ) by {
            assert(world@[i] == field[i]);
        }
    }
    world
}

} // verus!
