use rand::rngs::StdRng;
use rand::SeedableRng;
use rust_ray_tracer::camera::Camera;
use rust_ray_tracer::color::write_color;
use rust_ray_tracer::fixed::{Fixed, RAW_MAX, SCALE};
use rust_ray_tracer::hittable::Hittable;
use rust_ray_tracer::hittable_list::{HittableList, NEAR_RAW};
use rust_ray_tracer::material::Material;
use rust_ray_tracer::ray::Ray;
use rust_ray_tracer::sphere::Sphere;
use rust_ray_tracer::vec3::Vec3;
use rust_ray_tracer::{background, compute_row, ray_color, trace, Bounce, Image};

fn fx(x: f64) -> Fixed {
    Fixed { raw: (x * SCALE as f64).round() as i64 }
}

fn v(x: f64, y: f64, z: f64) -> Vec3 {
    Vec3(fx(x), fx(y), fx(z))
}

fn raws(x: i64, y: i64, z: i64) -> Vec3 {
    Vec3(Fixed { raw: x }, Fixed { raw: y }, Fixed { raw: z })
}

fn as_f64(v: Vec3) -> [f64; 3] {
    [v.0.raw as f64 / SCALE as f64, v.1.raw as f64 / SCALE as f64, v.2.raw as f64 / SCALE as f64]
}

fn norm(a: [f64; 3]) -> f64 {
    (a[0] * a[0] + a[1] * a[1] + a[2] * a[2]).sqrt()
}

#[test]
fn camera_basis_and_viewport() {
    let camera = Camera::new(
        v(0.0, 0.0, 0.0),
        v(0.0, 0.0, -1.0),
        v(0.0, 1.0, 0.0),
        fx(1.0),
        fx(2.0),
        fx(2.0),
        fx(1.0),
    );
    assert_eq!(camera.origin, v(0.0, 0.0, 0.0));
    assert_eq!(camera.u, v(1.0, 0.0, 0.0));
    assert_eq!(camera.v, v(0.0, 1.0, 0.0));
    assert_eq!(camera.horizontal, v(4.0, 0.0, 0.0));
    assert_eq!(camera.vertical, v(0.0, 2.0, 0.0));
    assert_eq!(camera.lower_left_corner, v(-2.0, -1.0, -1.0));
    assert_eq!(camera.lens_radius, fx(1.0));
}

#[test]
fn camera_of_the_demo_scene() {
    let camera = Camera::new(
        v(13.0, 2.0, 3.0),
        v(0.0, 0.0, 0.0),
        v(0.0, 1.0, 0.0),
        fx(0.17632698),
        fx(1.5),
        fx(0.1),
        fx(20.0),
    );
    assert_eq!(camera.origin, v(13.0, 2.0, 3.0));
    assert_eq!(camera.u, raws(3772515, 0, -16347572));
    assert_eq!(camera.v, raws(-2423524, 16591825, -559274));
    assert_eq!(camera.horizontal, raws(39911772, 0, -172951089));
    assert_eq!(camera.vertical, raws(-17093307, 117023462, -3944604));
    assert_eq!(camera.lower_left_corner, raws(-116644005, -74701679, 64162914));
    assert_eq!(camera.lens_radius, Fixed { raw: 838861 });
    let ray = camera.get_ray_with(fx(0.5), fx(0.5), v(-0.5, -0.25, 0.0));
    assert_eq!(ray.origin, raws(218039790, 33347035, 50747326));
    assert_eq!(ray.direction, raws(-323274562, -49536983, -75032258));
}

#[test]
fn lens_offset_moves_origin_and_keeps_the_target() {
    let camera = Camera::new(
        v(0.0, 0.0, 0.0),
        v(0.0, 0.0, -1.0),
        v(0.0, 1.0, 0.0),
        fx(1.0),
        fx(2.0),
        fx(2.0),
        fx(1.0),
    );
    let ray = camera.get_ray_with(fx(0.25), fx(0.75), v(-0.5, -0.5, 0.0));
    assert_eq!(ray.origin, v(-0.5, -0.5, 0.0));
    assert_eq!(ray.direction, v(-0.5, 1.0, -1.0));
    // The point aimed at does not depend on the place on the lens.
    assert_eq!(ray.at(fx(1.0)), v(-1.0, 0.5, -1.0));
    let centre = camera.get_ray_with(fx(0.25), fx(0.75), v(0.0, 0.0, 0.0));
    assert_eq!(centre.at(fx(1.0)), v(-1.0, 0.5, -1.0));
}

#[test]
fn drawn_camera_rays_start_on_the_lens() {
    let camera = Camera::new(
        v(0.0, 0.0, 0.0),
        v(0.0, 0.0, -1.0),
        v(0.0, 1.0, 0.0),
        fx(1.0),
        fx(2.0),
        fx(2.0),
        fx(1.0),
    );
    let mut rng = StdRng::seed_from_u64(9);
    for _ in 0..200 {
        let ray = camera.get_ray(fx(0.5), fx(0.5), &mut rng);
        assert_eq!(ray.origin.2.raw, 0);
        assert!(ray.origin.dot(ray.origin).raw < SCALE);
        assert_eq!(ray.at(fx(1.0)), v(0.0, 0.0, -1.0));
    }
    let pinhole = Camera::new(
        v(0.0, 0.0, 0.0),
        v(0.0, 0.0, -1.0),
        v(0.0, 1.0, 0.0),
        fx(1.0),
        fx(2.0),
        fx(0.0),
        fx(1.0),
    );
    assert_eq!(
        pinhole.get_ray(fx(0.0), fx(1.0), &mut rng),
        Ray::new(v(0.0, 0.0, 0.0), v(-2.0, 1.0, -1.0))
    );
}

#[test]
fn colours_become_bytes() {
    let hundred = Fixed::from_int(100);
    assert_eq!(write_color(v(100.0, 25.0, 0.0), hundred), (255, 127, 0));
    assert_eq!(write_color(v(-5.0, 400.0, 50.0), hundred), (0, 255, 181));
    // One sample: the scale is exactly one, and the root of a quarter is a half.
    assert_eq!(write_color(v(1.0, 0.25, 0.0), Fixed::one()), (255, 128, 0));
    // No sample at all: the scale saturates, and so does the byte.
    assert_eq!(write_color(v(1.0, 0.0, -1.0), Fixed::zero()), (255, 0, 0));
}

#[test]
fn background_blends_white_and_blue() {
    let ray = Ray::new(v(0.0, 0.0, 0.0), v(1.0, 1.0, 0.0));
    assert_eq!(background(&ray), raws(9617091, 12481141, 16777216));
    let c = as_f64(background(&ray));
    let t = 0.5 * ((0.5_f64).sqrt() + 1.0);
    assert!((c[0] - ((1.0 - t) + t * 0.5)).abs() < 1e-6);
    assert!((c[1] - ((1.0 - t) + t * 0.7)).abs() < 1e-6);
    assert!((c[2] - 1.0).abs() < 1e-6);
}

#[test]
fn hits_lie_on_the_sphere_with_unit_normals() {
    let grey = Material::Lambertian { albedo: v(0.5, 0.5, 0.5) };
    let spheres = [
        Sphere::new(v(0.0, 0.0, -1.0), fx(0.5), grey),
        Sphere::new(v(0.3, -0.2, -3.0), fx(1.25), grey),
        Sphere::new(v(0.0, -100.5, -1.0), fx(100.0), grey),
    ];
    let mut rng = StdRng::seed_from_u64(12);
    let mut hits = 0;
    for _ in 0..2000 {
        let aim = Vec3::random_in_unit_sphere(&mut rng);
        let ray = Ray::new(v(0.0, 0.0, 0.0), Vec3(aim.0, aim.1, fx(-1.0)).unit_vector());
        for sphere in &spheres {
            let range = Fixed { raw: NEAR_RAW }..Fixed { raw: RAW_MAX };
            if let Some(hit) = sphere.hit(&ray, range) {
                hits += 1;
                assert!((norm(as_f64(hit.normal)) - 1.0).abs() < 1e-4);
                let from_centre = norm(as_f64(hit.p - sphere.center));
                let radius = sphere.radius.raw as f64 / SCALE as f64;
                assert!((from_centre - radius).abs() < 1e-4);
                assert_eq!(hit.p, ray.at(hit.t));
                assert!(NEAR_RAW <= hit.t.raw);
            }
        }
    }
    assert!(hits > 500);
}

#[test]
fn nearest_hit_is_the_minimum_over_the_spheres() {
    let grey = Material::Lambertian { albedo: v(0.5, 0.5, 0.5) };
    let mut rng = StdRng::seed_from_u64(13);
    let mut world = Vec::new();
    for _ in 0..40 {
        let c = Vec3::random_in_unit_sphere(&mut rng);
        world.push(Sphere::new(fx(8.0) * c + v(0.0, 0.0, -10.0), fx(1.5), grey));
    }
    let mut found = 0;
    for _ in 0..200 {
        let aim = Vec3::random_in_unit_sphere(&mut rng);
        let ray = Ray::new(v(0.0, 0.0, 0.0), Vec3(aim.0, aim.1, fx(-1.0)));
        let mut best: Option<rust_ray_tracer::hittable::HitRecord> = None;
        for sphere in &world {
            let range = Fixed { raw: NEAR_RAW }..Fixed { raw: RAW_MAX };
            if let Some(hit) = sphere.hit(&ray, range) {
                if best.map_or(true, |b| hit.t.raw < b.t.raw) {
                    best = Some(hit);
                }
            }
        }
        assert_eq!(world.hit_top(&ray), best);
        if best.is_some() {
            found += 1;
        }
    }
    assert!(found > 20);
}

#[test]
fn drawn_paths_end_in_bounded_colours() {
    let world = vec![
        Sphere::new(v(0.0, -100.5, -1.0), fx(100.0), Material::Lambertian { albedo: v(0.4, 1.0, 0.7) }),
        Sphere::new(v(0.0, 0.0, -1.0), fx(0.5), Material::Lambertian { albedo: v(0.7, 0.7, 1.0) }),
        Sphere::new(v(-1.0, 0.0, -1.0), fx(0.5), Material::Dielectric { ir: fx(1.5) }),
        Sphere::new(
            v(1.0, 0.0, -1.0),
            fx(0.5),
            Material::Metal { albedo: v(1.0, 0.2, 0.87), fuzz: fx(0.0) },
        ),
    ];
    let mut rng = StdRng::seed_from_u64(14);
    for _ in 0..300 {
        let aim = Vec3::random_in_unit_sphere(&mut rng);
        let ray = Ray::new(v(0.0, 0.0, 0.0), Vec3(aim.0, aim.1, fx(-1.0)));
        let c = ray_color(&world, ray, 20, &mut rng);
        for channel in [c.0, c.1, c.2] {
            assert!(0 <= channel.raw && channel.raw <= SCALE);
        }
    }
}

#[test]
fn absorbed_path_is_black() {
    let mirror = Material::Metal { albedo: v(1.0, 1.0, 1.0), fuzz: fx(1.0) };
    let world = vec![Sphere::new(v(0.0, 0.0, -2.0), fx(1.0), mirror)];
    let ray = Ray::new(v(0.0, 0.0, 0.0), v(0.0, 0.0, -1.0));
    // The sample pushes the mirror image back into the surface.
    let inward = Bounce { ball: v(0.0, 0.0, -0.99), coin: fx(0.0) };
    let zero = Bounce { ball: v(0.0, 0.0, 0.0), coin: fx(0.0) };
    assert_eq!(trace(&world, ray, &vec![zero, inward]), background(&Ray::new(v(0.0, 0.0, -1.0), v(0.0, 0.0, 1.0))));
    let grazing = Bounce { ball: v(0.0, 0.0, -1.0), coin: fx(0.0) };
    assert_eq!(trace(&world, ray, &vec![grazing, zero]), v(0.0, 0.0, 0.0));
}

fn shade(x: usize, y: usize) -> Vec3 {
    Vec3(Fixed::from_int(x as i32), Fixed::from_int(y as i32), Fixed::from_int((10 * y + x) as i32))
}

#[test]
fn image_lines_run_from_the_top() {
    let image = Image::compute(3, 2, shade);
    assert_eq!(
        image.0,
        vec![
            vec![shade(0, 1), shade(1, 1), shade(2, 1)],
            vec![shade(0, 0), shade(1, 0), shade(2, 0)],
        ]
    );
    assert_eq!(compute_row(3, 1, &shade), vec![shade(0, 1), shade(1, 1), shade(2, 1)]);
    assert_eq!(Image::compute(0, 2, shade).0, vec![Vec::<Vec3>::new(), Vec::new()]);
    assert_eq!(Image::compute(3, 0, shade).0, Vec::<Vec<Vec3>>::new());
}

#[test]
fn image_is_computed_in_line_order() {
    let calls = std::cell::RefCell::new(Vec::new());
    let image = Image::compute(2, 3, |x, y| {
        calls.borrow_mut().push((x, y));
        shade(x, y)
    });
    assert_eq!(*calls.borrow(), vec![(0, 2), (1, 2), (0, 1), (1, 1), (0, 0), (1, 0)]);
    assert_eq!(image.0[0][1], shade(1, 2));
}

#[test]
fn parallel_image_equals_the_sequential_one() {
    let parallel = Image::par_compute(17, 33, shade);
    let sequential = Image::compute(17, 33, shade);
    assert_eq!(parallel.0, sequential.0);
    assert_eq!(parallel.0.len(), 33);
    assert_eq!(parallel.0[0][5], shade(5, 32));
    assert_eq!(parallel.0[32][16], shade(16, 0));
    assert_eq!(Image::par_compute(4, 0, shade).0, Vec::<Vec<Vec3>>::new());
    assert_eq!(Image::par_compute(0, 1, shade).0, vec![Vec::<Vec3>::new()]);
}
