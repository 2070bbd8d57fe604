use rand::rngs::StdRng;
use rand::SeedableRng;
use rust_ray_tracer::camera::Camera;
use rust_ray_tracer::fixed::{Fixed, SCALE};
use rust_ray_tracer::material::Material;
use rust_ray_tracer::ray::Ray;
use rust_ray_tracer::scenes::{cell_sphere, random_cell_draw, random_scene, test_reflection, CellDraw};
use rust_ray_tracer::sphere::Sphere;
use rust_ray_tracer::vec3::Vec3;
use rust_ray_tracer::{pixel_color, pixel_ray, ray_color};

fn fx(x: f64) -> Fixed {
    Fixed { raw: (x * SCALE as f64).round() as i64 }
}

fn v(x: f64, y: f64, z: f64) -> Vec3 {
    Vec3(fx(x), fx(y), fx(z))
}

fn draw(choose_mat: f64) -> CellDraw {
    CellDraw {
        choose_mat: fx(choose_mat),
        shift_x: fx(0.5),
        shift_z: fx(0.25),
        first: v(0.5, 0.25, 0.0),
        second: v(0.5, 0.5, 0.5),
        blur: fx(0.5),
    }
}

#[test]
fn fixed_scene_has_its_four_spheres() {
    let world = test_reflection();
    assert_eq!(world.len(), 4);
    assert_eq!(
        world[0],
        Sphere::new(
            v(0.0, -100.5, -1.0),
            fx(100.0),
            Material::Lambertian { albedo: Vec3(Fixed::ratio(4, 10), fx(1.0), Fixed::ratio(7, 10)) }
        )
    );
    assert_eq!(world[1].center, v(0.0, 0.0, -1.0));
    assert_eq!(world[1].radius, fx(0.5));
    assert_eq!(world[2].material, Material::Dielectric { ir: fx(1.5) });
    assert_eq!(world[2].center, v(-1.0, 0.0, -1.0));
    assert_eq!(
        world[3].material,
        Material::Metal { albedo: Vec3(fx(1.0), Fixed::ratio(1, 5), Fixed::ratio(87, 100)), fuzz: fx(0.0) }
    );
    assert_eq!(world[3].center, v(1.0, 0.0, -1.0));
}

#[test]
fn cell_spheres_follow_their_samples() {
    let nine_tenths = Fixed::ratio(9, 10);
    let diffuse = cell_sphere(-3, 2, draw(0.5)).expect("clear of the mirror");
    assert_eq!(
        diffuse.center,
        Vec3(fx(-3.0) + nine_tenths * fx(0.5), Fixed::ratio(1, 5), fx(2.0) + nine_tenths * fx(0.25))
    );
    assert_eq!(diffuse.radius, Fixed::ratio(1, 5));
    assert_eq!(diffuse.material, Material::Lambertian { albedo: v(0.25, 0.125, 0.0) });
    let mirror = cell_sphere(-3, 2, draw(0.9)).expect("clear of the mirror");
    assert_eq!(
        mirror.material,
        Material::Metal { albedo: v(0.75, 0.625, 0.5), fuzz: fx(0.25) }
    );
    let glass = cell_sphere(-3, 2, draw(0.95)).expect("clear of the mirror");
    assert_eq!(glass.material, Material::Dielectric { ir: fx(1.5) });
    assert_eq!(cell_sphere(-3, 2, draw(0.8)).map(|s| s.material), Some(mirror.material));
    // Cell (4, 0) with no shift lies on the mirror's centre line.
    let mut still = draw(0.5);
    still.shift_x = fx(0.0);
    still.shift_z = fx(0.0);
    assert_eq!(cell_sphere(4, 0, still), None);
    assert!(cell_sphere(5, 0, still).is_some());
}

#[test]
fn random_field_has_ground_cells_and_landmarks() {
    let mut rng = StdRng::seed_from_u64(21);
    let world = random_scene(&mut rng);
    let n = world.len();
    assert!(4 <= n && n <= 4 + 484);
    assert!(n > 400);
    assert_eq!(world[0].center, v(0.0, -1000.0, 0.0));
    assert_eq!(world[0].radius, fx(1000.0));
    assert_eq!(world[0].material, Material::Lambertian { albedo: v(0.5, 0.5, 0.5) });
    assert_eq!(
        world[n - 3],
        Sphere::new(v(0.0, 1.0, 0.0), fx(1.0), Material::Dielectric { ir: fx(1.5) })
    );
    assert_eq!(world[n - 2].center, v(-4.0, 1.0, 0.0));
    assert_eq!(
        world[n - 2].material,
        Material::Lambertian { albedo: Vec3(Fixed::ratio(4, 10), Fixed::ratio(2, 10), Fixed::ratio(1, 10)) }
    );
    assert_eq!(world[n - 1].center, v(4.0, 1.0, 0.0));
    let mirror_spot = Vec3(fx(4.0), Fixed::ratio(1, 5), fx(0.0));
    let mut kinds = [0, 0, 0];
    for sphere in &world[1..n - 3] {
        assert_eq!(sphere.radius, Fixed::ratio(1, 5));
        assert_eq!(sphere.center.1, Fixed::ratio(1, 5));
        assert!(fx(-11.0).raw <= sphere.center.0.raw && sphere.center.0.raw < fx(10.9).raw);
        assert!(fx(-11.0).raw <= sphere.center.2.raw && sphere.center.2.raw < fx(10.9).raw);
        assert!((sphere.center - mirror_spot).length().raw > Fixed::ratio(9, 10).raw);
        match sphere.material {
            Material::Lambertian { albedo } => {
                kinds[0] += 1;
                for c in [albedo.0, albedo.1, albedo.2] {
                    assert!(0 <= c.raw && c.raw < SCALE);
                }
            }
            Material::Metal { albedo, fuzz } => {
                kinds[1] += 1;
                for c in [albedo.0, albedo.1, albedo.2] {
                    assert!(SCALE / 2 <= c.raw && c.raw < SCALE);
                }
                assert!(0 <= fuzz.raw && fuzz.raw < SCALE / 2);
            }
            Material::Dielectric { ir } => {
                kinds[2] += 1;
                assert_eq!(ir, fx(1.5));
            }
        }
    }
    assert!(kinds[0] > kinds[1] && kinds[1] > kinds[2] && kinds[2] > 0);
    let d = random_cell_draw(&mut rng);
    for f in [d.choose_mat, d.shift_x, d.shift_z, d.blur, d.first.0, d.second.2] {
        assert!(0 <= f.raw && f.raw < SCALE);
    }
}

fn pinhole() -> Camera {
    Camera::new(
        v(0.0, 0.0, 0.0),
        v(0.0, 0.0, -1.0),
        v(0.0, 1.0, 0.0),
        fx(1.0),
        fx(2.0),
        fx(0.0),
        fx(1.0),
    )
}

#[test]
fn pixel_rays_cover_the_viewport() {
    let camera = pinhole();
    let none = v(0.0, 0.0, 0.0);
    // Corners of a 5 by 3 image.
    assert_eq!(
        pixel_ray(&camera, 0, 0, 5, 3, fx(0.0), fx(0.0), none),
        Ray::new(v(0.0, 0.0, 0.0), v(-2.0, -1.0, -1.0))
    );
    assert_eq!(
        pixel_ray(&camera, 4, 2, 5, 3, fx(0.0), fx(0.0), none),
        Ray::new(v(0.0, 0.0, 0.0), v(2.0, 1.0, -1.0))
    );
    assert_eq!(
        pixel_ray(&camera, 2, 1, 5, 3, fx(0.0), fx(0.0), none),
        Ray::new(v(0.0, 0.0, 0.0), v(0.0, 0.0, -1.0))
    );
    // Half a pixel to the right and up: u = 2.5 / 4, v = 1.5 / 2.
    assert_eq!(
        pixel_ray(&camera, 2, 1, 5, 3, fx(0.5), fx(0.5), none),
        Ray::new(v(0.0, 0.0, 0.0), v(0.5, 0.5, -1.0))
    );
}

#[test]
fn pixel_colour_sums_the_samples() {
    let camera = pinhole();
    let empty: Vec<Sphere> = Vec::new();
    let mut rng = StdRng::seed_from_u64(31);
    assert_eq!(pixel_color(&empty, &camera, 2, 1, 5, 3, 0, 10, &mut rng), v(0.0, 0.0, 0.0));
    assert_eq!(pixel_color(&empty, &camera, 2, 1, 5, 3, -4, 10, &mut rng), v(0.0, 0.0, 0.0));
    assert_eq!(pixel_color(&empty, &camera, 2, 1, 5, 3, 8, 0, &mut rng), v(0.0, 0.0, 0.0));
    // Every sample sees the sky, whose blue channel is always one.
    let sky = pixel_color(&empty, &camera, 2, 1, 5, 3, 8, 10, &mut rng);
    assert_eq!(sky.2, fx(8.0));
    assert!(fx(4.0).raw <= sky.0.raw && sky.0.raw <= fx(8.0).raw);
    // The same stream gives the same pixel.
    let world = test_reflection();
    let mut a = StdRng::seed_from_u64(32);
    let mut b = StdRng::seed_from_u64(32);
    let first = pixel_color(&world, &camera, 2, 1, 5, 3, 4, 10, &mut a);
    let second = pixel_color(&world, &camera, 2, 1, 5, 3, 4, 10, &mut b);
    assert_eq!(first, second);
    let centre = Ray::new(v(0.0, 0.0, 0.0), v(0.0, 0.0, -1.0));
    let c = ray_color(&world, centre, 10, &mut a);
    for channel in [c.0, c.1, c.2] {
        assert!(0 <= channel.raw && channel.raw <= SCALE);
    }
}
