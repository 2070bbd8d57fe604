//! A path-tracing kernel over fixed-point numbers: rays, spheres, materials,
//! a thin-lens camera and the depth-bounded colour integrator.
pub mod camera;
pub mod color;
pub mod fixed;
pub mod hittable;
pub mod hittable_list;
pub mod material;
pub mod ray;
pub mod sampling;
pub mod scenes;
pub mod sphere;
pub mod utility_funcs;
pub mod vec3;

use crate::camera::Camera;
use crate::fixed::Fixed;
use crate::hittable::Hittable;
use crate::hittable_list::{lemma_empty_scene_misses, HittableList};
use crate::ray::Ray;
use crate::sampling::{lemma_zero_in_unit_ball, random_fraction};
use crate::vec3::{sum_spec, Color, Vec3};
use rand::rngs::StdRng;
use rayon::iter::{IndexedParallelIterator, IntoParallelIterator, ParallelIterator};
use vstd::prelude::*;

verus! {

/// The samples that one bounce of a path consumes: a point of the unit
/// ball and a fraction.
#[derive(Debug, Clone, Copy, PartialEq, Eq, Structural)]
pub struct Bounce {
    pub ball: Vec3,
    pub coin: Fixed,
}

impl Bounce {
    /// Whether `ball` lies in the unit ball and `coin` in `[0, 1)`.
    pub open spec fn valid(self) -> bool {
        self.ball.in_unit_ball() && self.coin.is_fraction()
    }
}

/// The colour black.
pub open spec fn black() -> Color {
    Vec3::splat(Fixed::int_spec(0))
}

/// The colour of the sky in the direction of `ray`: white blended into
/// `(0.5, 0.7, 1.0)` by `t = 0.5 (y + 1)`, where `y` is the height of the
/// unit direction.
pub open spec fn background_spec(ray: Ray) -> Color {
    let one = Fixed::int_spec(1);
    let t = Fixed::ratio_spec(1, 2).times(ray.direction.unit_spec().1.plus(one));
    Vec3(one, one, one).scaled(one.minus(t)).plus(
        Vec3(Fixed::ratio_spec(1, 2), Fixed::ratio_spec(7, 10), one).scaled(t),
    )
}

/// The colour that `ray` carries back from `world` along the path that
/// `samples` fix, one entry for each bounce.
///
/// With no sample left the path is exhausted and carries black. A ray that
/// misses the scene carries the background. A ray that is absorbed carries
/// black. A ray that is scattered carries the colour of the scattered ray,
/// found with the remaining samples, times the attenuation.
pub open spec fn color_spec<W: HittableList>(world: W, ray: Ray, samples: Seq<Bounce>) -> Color
    decreases samples.len(),
{
    if samples.len() == 0 {
        black()
    } else {
        match world.hit_top_spec(ray) {
            None => background_spec(ray),
            Some(rec) => match rec.material.scatter_spec(
                ray,
                rec,
                samples[0].ball,
                samples[0].coin,
            ) {
                None => black(),
                Some((attenuation, scattered)) => attenuation.times(
                    color_spec(world, scattered, samples.skip(1)),
                ),
            },
        }
    }
}

/// Whether `samples` can be the samples of a path of at most `depth`
/// bounces: one valid entry for each.
pub open spec fn path_samples(samples: Seq<Bounce>, depth: int) -> bool {
    &&& samples.len() == if depth > 0 {
        depth
    } else {
        0
    }
    &&& forall|i: int| 0 <= i < samples.len() ==> (#[trigger] samples[i]).valid()
}

/// The colour of the sky in the direction of `ray`.
pub fn background(ray: &Ray) -> (c: Color)
    ensures
        c == background_spec(*ray),
{
    let unit_direction = ray.direction.unit_vector();
    let t = Fixed::ratio(1, 2) * (unit_direction.y() + Fixed::one());
    (Fixed::one() - t) * Vec3(Fixed::one(), Fixed::one(), Fixed::one()) + t * Vec3(
        Fixed::ratio(1, 2),
        Fixed::ratio(7, 10),
        Fixed::one(),
    )
}

/// The colour that `ray` carries back along the path that the samples
/// from `start` on fix.
fn trace_from<W: HittableList>(world: &W, ray: Ray, samples: &Vec<Bounce>, start: usize) -> (c:
    Color)
    requires
        start <= samples.len(),
    ensures
        c == color_spec(*world, ray, samples@.skip(start as int)),
    decreases samples.len() - start,
{
    if start == samples.len() {
        return Vec3::default();
    }
    let sample = samples[start];
    assert(samples@.skip(start as int)[0] == sample);
    assert(samples@.skip(start as int).skip(1) == samples@.skip(start as int + 1));
    match world.hit_top(&ray) {
        None => background(&ray),
        Some(rec) => match rec.material.scatter_with(&ray, &rec, sample.ball, sample.coin) {
            None => Vec3::default(),
            Some((attenuation, scattered)) => attenuation * trace_from(
                world,
                scattered,
                samples,
                start + 1,
            ),
        },
    }
}

/// The colour that `ray` carries back from `world` along the path that
/// `samples` fix: one bounce for each entry, none beyond the last.
pub fn trace<W: HittableList>(world: &W, ray: Ray, samples: &Vec<Bounce>) -> (c: Color)
    ensures
        c == color_spec(*world, ray, samples@),
{
    assert(samples@.skip(0) == samples@);
    trace_from(world, ray, samples, 0)
}

/// Whether `c` is the colour of some path of at most `depth` bounces that
/// starts with `ray`.
pub open spec fn is_path_color<W: HittableList>(world: W, ray: Ray, depth: int, c: Color) -> bool {
    exists|samples: Seq<Bounce>|
        path_samples(samples, depth) && c == #[trigger] color_spec(world, ray, samples)
}

/// With no bounce allowed black is a path colour.
proof fn lemma_path_exhausted<W: HittableList>(world: W, ray: Ray, depth: int)
    requires
        depth <= 0,
    ensures
        is_path_color(world, ray, depth, black()),
{
    let samples = Seq::<Bounce>::empty();
    assert(path_samples(samples, depth));
    assert(black() == color_spec(world, ray, samples));
}

/// The colour of a path that ends at its first step, in the sky or by
/// absorption, is a path colour for every depth above zero.
proof fn lemma_path_stops<W: HittableList>(world: W, ray: Ray, depth: int, first: Bounce)
    requires
        depth > 0,
        first.valid(),
    ensures
        world.hit_top_spec(ray) is None ==> is_path_color(world, ray, depth, background_spec(ray)),
        world.hit_top_spec(ray) matches Some(rec) && rec.material.scatter_spec(
            ray,
            rec,
            first.ball,
            first.coin,
        ) is None ==> is_path_color(world, ray, depth, black()),
{
    let samples = Seq::new(depth as nat, |i: int| first);
    assert(path_samples(samples, depth));
    assert(samples[0] == first);
    let c = color_spec(world, ray, samples);
    assert(path_samples(samples, depth) && c == color_spec(world, ray, samples));
}

/// A path colour of the scattered ray, times the attenuation, is a path
/// colour of the ray that was scattered, one bounce deeper.
proof fn lemma_path_goes_on<W: HittableList>(
    world: W,
    ray: Ray,
    depth: int,
    first: Bounce,
    scattered: Ray,
    rest: Color,
)
    requires
        depth > 0,
        first.valid(),
        is_path_color(world, scattered, depth - 1, rest),
    ensures
        forall|attenuation: Color|
            (world.hit_top_spec(ray) matches Some(rec) && rec.material.scatter_spec(
                ray,
                rec,
                first.ball,
                first.coin,
            ) == Some((attenuation, scattered))) ==> is_path_color(
                world,
                ray,
                depth,
                #[trigger] attenuation.times(rest),
            ),
{
    let tail = choose|samples: Seq<Bounce>|
        path_samples(samples, depth - 1) && rest == #[trigger] color_spec(
            world,
            scattered,
            samples,
        );
    let samples = seq![first] + tail;
    assert(samples.skip(1) == tail);
    assert(samples[0] == first);
    assert(path_samples(samples, depth));
    let c = color_spec(world, ray, samples);
    assert(path_samples(samples, depth) && c == color_spec(world, ray, samples));
}

/// The colour that `r` carries back from `world` along a path of at most
/// `depth` bounces, with the samples of each bounce drawn from `rng`.
pub fn ray_color<W: HittableList>(world: &W, r: Ray, depth: i32, rng: &mut StdRng) -> (c: Color)
    ensures
        depth <= 0 ==> c == black(),
        depth > 0 && world.hit_top_spec(r) is None ==> c == background_spec(r),
        is_path_color(*world, r, depth as int, c),
    decreases depth,
{
    if depth <= 0 {
        proof {
            lemma_path_exhausted(*world, r, depth as int);
        }
        return Vec3(Fixed::zero(), Fixed::zero(), Fixed::zero());
    }
    if let Some(rec) = world.hit_top(&r) {
        let outcome = rec.material.scatter(&r, &rec, rng);
        let ghost (ball, coin) = choose|ball: Vec3, coin: Fixed|
            ball.in_unit_ball() && coin.is_fraction() && outcome
                == #[trigger] rec.material.scatter_spec(r, rec, ball, coin);
        let ghost first = Bounce { ball, coin };
        if let Some((attenuation, scattered)) = outcome {
            let rest = ray_color(world, scattered, depth - 1, rng);
            proof {
                lemma_path_goes_on(*world, r, depth as int, first, scattered, rest);
            }
            return attenuation * rest;
        }
        proof {
            lemma_path_stops(*world, r, depth as int, first);
        }
        return Vec3(Fixed::zero(), Fixed::zero(), Fixed::zero());
    }
    proof {
        lemma_zero_in_unit_ball();
        lemma_path_stops(*world, r, depth as int, Bounce { ball: black(), coin: Fixed { raw: 0 } });
    }
    background(&r)
}

/// With no bounce allowed the colour is black, whatever the scene holds.
pub proof fn lemma_no_depth_is_black<W: HittableList>(world: W, ray: Ray, samples: Seq<Bounce>)
    requires
        samples.len() == 0,
    ensures
        color_spec(world, ray, samples) == black(),
{
}

/// A ray that misses the scene carries the background, whatever the
/// samples are, as soon as one bounce is allowed.
pub proof fn lemma_miss_is_background<W: HittableList>(world: W, ray: Ray, samples: Seq<Bounce>)
    requires
        samples.len() > 0,
        world.hit_top_spec(ray) is None,
    ensures
        color_spec(world, ray, samples) == background_spec(ray),
{
}

/// In a scene without surfaces every ray carries the background, as soon as
/// one bounce is allowed.
pub proof fn lemma_empty_scene_is_background<T: Hittable>(
    world: Vec<T>,
    ray: Ray,
    samples: Seq<Bounce>,
)
    requires
        world@.len() == 0,
        samples.len() > 0,
    ensures
        color_spec(world, ray, samples) == background_spec(ray),
{
    lemma_empty_scene_misses(world, ray);
}

/// The place of pixel `index` on the image plane, out of `count` pixels
/// along that side, moved by `jitter` within the pixel:
/// `(index + jitter) / (count - 1)`.
pub open spec fn plane_coord_spec(index: int, jitter: Fixed, count: int) -> Fixed {
    Fixed::int_spec(index).plus(jitter).over(Fixed::int_spec(count).minus(Fixed::int_spec(1)))
}

/// The ray that `camera` sends through pixel `(i, j)` of an image of
/// `width` by `height` pixels, for the jitter `(du, dv)` within the pixel
/// and the point `disc` on the lens.
pub open spec fn pixel_ray_spec(
    camera: Camera,
    i: int,
    j: int,
    width: int,
    height: int,
    du: Fixed,
    dv: Fixed,
    disc: Vec3,
) -> Ray {
    camera.ray_spec(plane_coord_spec(i, du, width), plane_coord_spec(j, dv, height), disc)
}

/// Whether `c` is the colour of one sample of pixel `(i, j)`: the colour
/// of some path of at most `depth` bounces along the ray through the
/// pixel for some jitter and some point on the lens.
pub open spec fn is_sample_color<W: HittableList>(
    world: W,
    camera: Camera,
    i: int,
    j: int,
    width: int,
    height: int,
    depth: int,
    c: Color,
) -> bool {
    exists|du: Fixed, dv: Fixed, disc: Vec3|
        du.is_fraction() && dv.is_fraction() && disc.in_unit_disc() && is_path_color(
            world,
            #[trigger] pixel_ray_spec(camera, i, j, width, height, du, dv, disc),
            depth,
            c,
        )
}

/// The ray that `camera` sends through pixel `(i, j)` of an image of
/// `width` by `height` pixels, for the jitter `(du, dv)` within the pixel
/// and the point `disc` on the lens.
pub fn pixel_ray(
    camera: &Camera,
    i: i32,
    j: i32,
    width: i32,
    height: i32,
    du: Fixed,
    dv: Fixed,
    disc: Vec3,
) -> (ray: Ray)
    ensures
        ray == pixel_ray_spec(*camera, i as int, j as int, width as int, height as int, du, dv, disc),
{
    let u = (Fixed::from_int(i) + du) / (Fixed::from_int(width) - Fixed::one());
    let v = (Fixed::from_int(j) + dv) / (Fixed::from_int(height) - Fixed::one());
    camera.get_ray_with(u, v, disc)
}

/// The light gathered for pixel `(i, j)` of an image of `width` by
/// `height` pixels: the sum of the colours of `samples_per_pixel`
/// samples, each along a path of at most `depth` bounces, with all
/// samples drawn from `rng`. Dividing by the number of samples is left to
/// `write_color`.
pub fn pixel_color<W: HittableList>(
    world: &W,
    camera: &Camera,
    i: i32,
    j: i32,
    width: i32,
    height: i32,
    samples_per_pixel: i32,
    depth: i32,
    rng: &mut StdRng,
) -> (total: Color)
    ensures
        exists|colors: Seq<Color>|
            {
                &&& colors.len() == if samples_per_pixel > 0 {
                    samples_per_pixel as int
                } else {
                    0
                }
                &&& total == #[trigger] sum_spec(colors)
                &&& forall|k: int|
                    0 <= k < colors.len() ==> is_sample_color(
                        *world,
                        *camera,
                        i as int,
                        j as int,
                        width as int,
                        height as int,
                        depth as int,
                        #[trigger] colors[k],
                    )
            },
{
    let mut total = Vec3::default();
    let ghost mut colors = Seq::<Color>::empty();
    let mut done: i32 = 0;
    while done < samples_per_pixel
        invariant
            0 <= done,
            done <= samples_per_pixel || done == 0,
            colors.len() == done,
            total == sum_spec(colors),
            forall|k: int|
                0 <= k < colors.len() ==> is_sample_color(
                    *world,
                    *camera,
                    i as int,
                    j as int,
                    width as int,
                    height as int,
                    depth as int,
                    #[trigger] colors[k],
                ),
        decreases samples_per_pixel - done,
    {
        let du = random_fraction(rng);
        let dv = random_fraction(rng);
        let disc = Vec3::random_in_unit_disc(rng);
        let ray = pixel_ray(camera, i, j, width, height, du, dv, disc);
        let color = ray_color(world, ray, depth, rng);
        proof {
            assert(is_sample_color(
                *world,
                *camera,
                i as int,
                j as int,
                width as int,
                height as int,
                depth as int,
                color,
            ));
            assert(colors.push(color).drop_last() == colors);
            colors = colors.push(color);
        }
        total = total + color;
        done = done + 1;
    }
    total
}

/// Whether `row` holds, from left to right, what `f` returns for the
/// `nx` pixels of line `y`.
pub open spec fn is_row_of<F: Fn(usize, usize) -> Vec3>(f: F, nx: usize, y: usize, row: Seq<Vec3>)
    -> bool {
    &&& row.len() == nx
    &&& forall|x: int| 0 <= x < nx ==> call_ensures(f, (x as usize, y), #[trigger] row[x])
}

/// Whether `rows` holds what `f` returns for an image of `nx` by `ny`
/// pixels, the line with the largest `y` first.
pub open spec fn is_image_of<F: Fn(usize, usize) -> Vec3>(
    f: F,
    nx: usize,
    ny: usize,
    rows: Seq<Vec<Vec3>>,
) -> bool {
    &&& rows.len() == ny
    &&& forall|r: int| 0 <= r < ny ==> is_row_of(f, nx, (ny - 1 - r) as usize, #[trigger] rows[r]@)
}

/// Whether `f` may be called on every pixel of an image of `nx` by `ny`.
pub open spec fn covers<F: Fn(usize, usize) -> Vec3>(f: F, nx: usize, ny: usize) -> bool {
    forall|x: usize, y: usize| x < nx && y < ny ==> call_requires(f, (x, y))
}

/// The line `y` of an image: `f(0, y)`, ..., `f(nx - 1, y)`.
pub fn compute_row<F: Fn(usize, usize) -> Vec3>(nx: usize, y: usize, f: &F) -> (row: Vec<Vec3>)
    requires
        forall|x: usize| x < nx ==> call_requires(*f, (x, y)),
    ensures
        is_row_of(*f, nx, y, row@),
{
    let mut row: Vec<Vec3> = Vec::new();
    let mut x: usize = 0;
    while x < nx
        invariant
            x <= nx,
            row.len() == x,
            forall|x: usize| x < nx ==> call_requires(*f, (x, y)),
            forall|i: int| 0 <= i < x ==> call_ensures(*f, (i as usize, y), #[trigger] row@[i]),
        decreases nx - x,
    {
        let pixel = f(x, y);
        row.push(pixel);
        x = x + 1;
    }
    row
}

/// The lines of an image, computed in parallel. The body is rayon's
/// `(0..ny).into_par_iter().rev().map(..).collect()`, with
/// `compute_row(nx, y, f)` as the function mapped over `y`. The contract
/// claims of rayon that `rev` hands the numbers out from `ny - 1` down to
/// `0`, that `map` calls the function once on each, and that `collect`
/// into a `Vec` keeps the results in that order; what a line holds is what
/// `compute_row` ensures.
#[verifier::external_body]
fn par_rows<F: Fn(usize, usize) -> Vec3 + Sync>(nx: usize, ny: usize, f: &F) -> (rows: Vec<
    Vec<Vec3>,
>)
    requires
        covers(*f, nx, ny),
    ensures
        is_image_of(*f, nx, ny, rows@),
{
    (0..ny).into_par_iter().rev().map(|y| compute_row(nx, y, f)).collect()
}

/// A rectangle of colours, stored line by line from the top.
pub struct Image(pub Vec<Vec<Vec3>>);

impl Image {
    /// The image of `nx` by `ny` pixels whose pixel `(x, y)` is `f(x, y)`,
    /// with the lines computed in parallel. Line `ny - 1` comes first.
    pub fn par_compute<F: Fn(usize, usize) -> Vec3 + Sync>(nx: usize, ny: usize, f: F) -> (image:
        Image)
        requires
            covers(f, nx, ny),
        ensures
            is_image_of(f, nx, ny, image.0@),
    {
        Image(par_rows(nx, ny, &f))
    }

    /// The image of `nx` by `ny` pixels whose pixel `(x, y)` is `f(x, y)`.
    /// Line `ny - 1` comes first; `f` is called line by line in that
    /// order, and from left to right within a line.
    pub fn compute<F: Fn(usize, usize) -> Vec3>(nx: usize, ny: usize, f: F) -> (image: Image)
        requires
            covers(f, nx, ny),
        ensures
            is_image_of(f, nx, ny, image.0@),
    {
        let mut rows: Vec<Vec<Vec3>> = Vec::new();
        let mut done: usize = 0;
        while done < ny
            invariant
                done <= ny,
                rows.len() == done,
                covers(f, nx, ny),
                forall|r: int|
                    0 <= r < done ==> is_row_of(f, nx, (ny - 1 - r) as usize, #[trigger] rows@[r]@),
            decreases ny - done,
        {
            let y: usize = ny - 1 - done;
            let row = compute_row(nx, y, &f);
            rows.push(row);
            done = done + 1;
        }
        Image(rows)
    }
}

} // verus!
