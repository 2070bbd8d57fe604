use rust_ray_tracer::fixed::{Fixed, RAW_MAX, SCALE};
use rust_ray_tracer::ray::Ray;
use rust_ray_tracer::vec3::{reflect, refract, Vec3};

fn fx(x: f64) -> Fixed {
    Fixed { raw: (x * SCALE as f64).round() as i64 }
}

fn v(x: f64, y: f64, z: f64) -> Vec3 {
    Vec3(fx(x), fx(y), fx(z))
}

fn raws(x: i64, y: i64, z: i64) -> Vec3 {
    Vec3(Fixed { raw: x }, Fixed { raw: y }, Fixed { raw: z })
}

#[test]
fn components_and_constructors() {
    let a = Vec3::new(fx(1.0), fx(2.0), fx(3.0));
    assert_eq!(a, v(1.0, 2.0, 3.0));
    assert_eq!((a.x(), a.y(), a.z()), (fx(1.0), fx(2.0), fx(3.0)));
    assert_eq!(Vec3::default(), v(0.0, 0.0, 0.0));
    assert_eq!(Vec3::from(fx(2.5)), v(2.5, 2.5, 2.5));
}

#[test]
fn operators_work_component_by_component() {
    let a = v(1.0, 2.0, 3.0);
    let b = v(4.0, 5.0, 6.0);
    assert_eq!(a + b, v(5.0, 7.0, 9.0));
    assert_eq!(a - b, v(-3.0, -3.0, -3.0));
    assert_eq!(a * b, v(4.0, 10.0, 18.0));
    assert_eq!(b / a, v(4.0, 2.5, 2.0));
    assert_eq!(-a, v(-1.0, -2.0, -3.0));
    assert_eq!(fx(2.0) * a, v(2.0, 4.0, 6.0));
    assert_eq!(fx(2.0) + a, v(3.0, 4.0, 5.0));
    assert_eq!(a / fx(2.0), v(0.5, 1.0, 1.5));
    assert_eq!(a / fx(0.0), raws(RAW_MAX, RAW_MAX, RAW_MAX));
}

#[test]
fn sum_adds_in_order() {
    assert_eq!(Vec3::sum(&Vec::new()), v(0.0, 0.0, 0.0));
    assert_eq!(
        Vec3::sum(&vec![v(1.0, 2.0, 3.0), v(0.5, 0.5, 0.5), v(-2.0, 0.0, 1.0)]),
        v(-0.5, 2.5, 4.5)
    );
    // The order shows where a sum is clamped on the way.
    let top = raws(RAW_MAX, 0, 0);
    assert_eq!(Vec3::sum(&vec![top, v(1.0, 0.0, 0.0), v(-1.0, 0.0, 0.0)]).0.raw, RAW_MAX - SCALE);
    assert_eq!(Vec3::sum(&vec![v(-1.0, 0.0, 0.0), top, v(1.0, 0.0, 0.0)]).0.raw, RAW_MAX);
}

#[test]
fn closures_are_applied_in_component_order() {
    let a = v(1.0, 2.0, 3.0);
    let b = v(4.0, 5.0, 6.0);
    let c = v(7.0, 8.0, 9.0);
    assert_eq!(a.zip_with(b, |x, y| x * y), v(4.0, 10.0, 18.0));
    assert_eq!(a.zip_with(b, |x, y| x - y), a - b);
    assert_eq!(a.zip_with3(b, c, |x, y, z| x * y + z), v(11.0, 18.0, 27.0));
    assert_eq!(a.map(|x| x * x), v(1.0, 4.0, 9.0));
    assert_eq!(a.reduce(|x, y| x + y), fx(6.0));
    // (1 - 2) - 3, not 1 - (2 - 3).
    assert_eq!(a.reduce(|x, y| x - y), fx(-4.0));
}

#[test]
fn dot_cross_and_lengths() {
    let a = v(1.0, 2.0, 3.0);
    let b = v(4.0, 5.0, 6.0);
    assert_eq!(a.dot(b), fx(32.0));
    assert_eq!(a.cross(b), v(-3.0, 6.0, -3.0));
    assert_eq!(b.cross(a), v(3.0, -6.0, 3.0));
    assert_eq!(v(1.0, 0.0, 0.0).cross(v(0.0, 1.0, 0.0)), v(0.0, 0.0, 1.0));
    assert_eq!(v(3.0, 4.0, 0.0).length_squared(), fx(25.0));
    assert_eq!(v(3.0, 4.0, 0.0).length(), fx(5.0));
    assert_eq!(v(0.0, 0.0, 0.0).length(), fx(0.0));
}

#[test]
fn unit_vectors() {
    assert_eq!(v(0.0, 0.0, -7.0).unit_vector(), v(0.0, 0.0, -1.0));
    assert_eq!(v(3.0, 4.0, 0.0).unit_vector(), raws(10066329, 13421772, 0));
    assert_eq!(v(1.0, 1.0, 0.0).unit_vector(), raws(11863283, 11863283, 0));
    // The zero triple has no direction and stays zero.
    assert_eq!(v(0.0, 0.0, 0.0).unit_vector(), v(0.0, 0.0, 0.0));
    let u = v(1.0, -2.0, 0.5).unit_vector();
    let len = (u.length().raw as f64) / SCALE as f64;
    assert!((len - 1.0).abs() < 1e-6);
}

#[test]
fn near_zero_means_zero() {
    assert!(v(0.0, 0.0, 0.0).near_zero());
    assert!(!raws(1, 0, 0).near_zero());
    assert!(!raws(0, -1, 0).near_zero());
    assert!(!raws(0, 0, 1).near_zero());
    assert!(!v(1.0, 0.0, 0.0).near_zero());
}

#[test]
fn ray_points() {
    let ray = Ray::new(v(1.0, 2.0, 3.0), v(0.5, 0.0, -1.0));
    assert_eq!(ray.origin(), v(1.0, 2.0, 3.0));
    assert_eq!(ray.direction(), v(0.5, 0.0, -1.0));
    assert_eq!(ray.at(fx(0.0)), v(1.0, 2.0, 3.0));
    assert_eq!(ray.at(fx(2.0)), v(2.0, 2.0, 1.0));
    assert_eq!(ray.at(fx(-1.0)), v(0.5, 2.0, 4.0));
}

#[test]
fn reflect_follows_the_formula() {
    assert_eq!(reflect(v(1.0, -1.0, 0.0), v(0.0, 1.0, 0.0)), v(1.0, 1.0, 0.0));
    assert_eq!(reflect(v(1.0, -1.0, 0.0), v(0.0, -1.0, 0.0)), v(1.0, 1.0, 0.0));
    assert_eq!(reflect(v(0.0, 0.0, -2.0), v(0.0, 0.0, 1.0)), v(0.0, 0.0, 2.0));
    // v - 2 (v . n) n with a normal that is not a unit vector.
    assert_eq!(reflect(v(1.0, 1.0, 0.0), v(0.0, 2.0, 0.0)), v(1.0, -7.0, 0.0));
    let n = v(1.0, 1.0, 0.0).unit_vector();
    assert_eq!(reflect(v(1.0, -1.0, 0.5), n), v(1.0, -1.0, 0.5));
}

#[test]
fn reflecting_twice_about_an_axis_gives_the_direction_back() {
    let directions = [v(1.0, -1.0, 0.5), v(-3.25, 0.0, 7.0), raws(1, -1, 12345), v(0.0, 0.0, 0.0)];
    let normals = [
        v(1.0, 0.0, 0.0),
        v(-1.0, 0.0, 0.0),
        v(0.0, 1.0, 0.0),
        v(0.0, -1.0, 0.0),
        v(0.0, 0.0, 1.0),
        v(0.0, 0.0, -1.0),
    ];
    for d in directions {
        for n in normals {
            assert_eq!(reflect(reflect(d, n), n), d);
        }
    }
}

#[test]
fn reflecting_twice_about_a_rounded_normal_is_close() {
    let n = v(1.0, 1.0, 0.0).unit_vector();
    let d = v(1.0, 0.0, 0.0);
    let back = reflect(reflect(d, n), n);
    assert_eq!(back, raws(16777215, -1, 0));
}

#[test]
fn refract_follows_snell() {
    let n = v(0.0, 1.0, 0.0);
    // Head on, any ratio: straight through.
    assert_eq!(refract(v(0.0, -1.0, 0.0), n, fx(0.5)), v(0.0, -1.0, 0.0));
    // From air into glass at 45 degrees.
    let d = v(1.0, -1.0, 0.0).unit_vector();
    let out = refract(d, n, Fixed::one() / fx(1.5));
    assert_eq!(out, raws(7908854, -14796115, 0));
    let sin_out = out.0.raw as f64 / SCALE as f64;
    assert!((sin_out - (0.5_f64).sqrt() / 1.5).abs() < 1e-6);
}

#[test]
fn refract_with_ratio_one_keeps_axis_directions() {
    let n = v(0.0, 1.0, 0.0);
    for d in [v(0.0, -1.0, 0.0), v(1.0, 0.0, 0.0), v(0.0, 0.0, -1.0), v(-1.0, 0.0, 0.0)] {
        assert_eq!(refract(d, n, Fixed::one()), d);
    }
    // Along the normal the cosine is negative and the direction is turned round.
    assert_eq!(refract(n, n, Fixed::one()), v(0.0, -1.0, 0.0));
    // A rounded direction comes back within one unit.
    assert_eq!(refract(v(0.6, -0.8, 0.0), n, Fixed::one()), raws(10066330, -13421772, 0));
}
