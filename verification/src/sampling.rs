//! Random numbers and random triples, drawn from an explicit generator.
//!
//! The generator is `rand`'s `StdRng`. Nothing is known of the bits it hands
//! out, so the contracts of the drawing functions state what holds of every
//! draw, and each formula that turns bits into a sample stands in a function
//! of its own that takes the draw as an argument.
use crate::fixed::{Fixed, SCALE};
use crate::vec3::Vec3;
use core::ops::Range;
use rand::rngs::StdRng;
use rand::Rng;
use vstd::prelude::*;

verus! {

#[verifier::external_type_specification]
#[verifier::external_body]
pub struct ExStdRng(StdRng);

/// Number of candidates that a rejection sampler draws before it falls back
/// on the zero triple.
pub const MAX_TRIES: u32 = 128;

/// `Rng::gen::<u32>` on a `StdRng`: the next 32 bits of the generator's
/// stream. The contract claims nothing of the bits.
#[verifier::external_body]
fn next_bits(rng: &mut StdRng) -> (bits: u32) {
    rng.gen::<u32>()
}

/// The fraction in `[0, 1)` made of the 24 most significant bits of `bits`.
pub open spec fn fraction_spec(bits: u32) -> Fixed {
    Fixed { raw: (bits / 256) as i64 }
}

/// The fraction in `[0, 1)` made of the 24 most significant bits of `bits`.
pub fn fraction_from_bits(bits: u32) -> (r: Fixed)
    ensures
        r == fraction_spec(bits),
        r.is_fraction(),
{
    let top: u32 = bits >> 8;
    assert(top == bits / 256 && top < 0x100_0000) by (bit_vector)
        requires
            top == bits >> 8,
    ;
    Fixed { raw: top as i64 }
}

/// A fraction in `[0, 1)`.
pub fn random_fraction(rng: &mut StdRng) -> (r: Fixed)
    ensures
        r.is_fraction(),
{
    let bits: u32 = next_bits(rng);
    fraction_from_bits(bits)
}

/// The point of the cube `[-1, 1)^3` that the fractions `u` stand for:
/// `2 u - 1`.
pub open spec fn sphere_candidate_spec(u: Vec3) -> Vec3 {
    u.scaled(Fixed::int_spec(2)).minus(Vec3::splat(Fixed::int_spec(1)))
}

/// The point of the square `[-1, 0)^2` in the plane `z = 0` that the first
/// two fractions of `u` stand for: `(u.x, u.y, 0) - (1, 1, 0)`.
pub open spec fn disc_candidate_spec(u: Vec3) -> Vec3 {
    Vec3(u.0, u.1, Fixed::int_spec(0)).minus(
        Vec3(Fixed::int_spec(1), Fixed::int_spec(1), Fixed::int_spec(0)),
    )
}

/// The point between `low` and `high` that the fractions `u` stand for,
/// component by component: `low + u (high - low)`.
pub open spec fn range_point_spec(low: Fixed, high: Fixed, u: Vec3) -> Vec3 {
    Vec3(
        low.plus(u.0.times(high.minus(low))),
        low.plus(u.1.times(high.minus(low))),
        low.plus(u.2.times(high.minus(low))),
    )
}

pub fn sphere_candidate(u: Vec3) -> (p: Vec3)
    ensures
        p == sphere_candidate_spec(u),
{
    Fixed::from_int(2) * u - Vec3::from(Fixed::from_int(1))
}

pub fn disc_candidate(u: Vec3) -> (p: Vec3)
    ensures
        p == disc_candidate_spec(u),
{
    Vec3(u.0, u.1, Fixed::zero()) - Vec3(Fixed::one(), Fixed::one(), Fixed::zero())
}

pub fn range_point(low: Fixed, high: Fixed, u: Vec3) -> (p: Vec3)
    ensures
        p == range_point_spec(low, high, u),
{
    let width = high - low;
    Vec3(low + u.0 * width, low + u.1 * width, low + u.2 * width)
}

impl Vec3 {
    /// Whether every component lies in `[0, 1)`.
    pub open spec fn is_fractions(self) -> bool {
        self.0.is_fraction() && self.1.is_fraction() && self.2.is_fraction()
    }

    /// Whether the squared length is below one.
    pub open spec fn in_unit_ball(self) -> bool {
        self.length_squared_spec()@ < SCALE
    }

    /// Whether the triple lies in the plane `z = 0` with a squared length
    /// below one.
    pub open spec fn in_unit_disc(self) -> bool {
        self.2@ == 0 && self.length_squared_spec()@ < SCALE
    }

    /// A point of the unit ball: the first of up to `MAX_TRIES` candidates
    /// `2 u - 1` whose squared length is below one, or the zero triple
    /// where none is.
    pub fn random_in_unit_sphere(rng: &mut StdRng) -> (p: Vec3)
        ensures
            p.in_unit_ball(),
            exists|draws: Seq<Vec3>|
                is_candidate_draws(draws) && p == #[trigger] first_in_unit_sphere_spec(draws),
    {
        let mut tries: u32 = 0;
        let ghost mut seen = Seq::<Vec3>::empty();
        while tries < MAX_TRIES
            invariant
                tries <= MAX_TRIES,
                seen.len() == tries,
                all_fractions(seen),
                none_in_unit_sphere(seen),
            decreases MAX_TRIES - tries,
        {
            let u = Vec3::random(rng);
            let p = sphere_candidate(u);
            if p.length_squared().raw < SCALE {
                proof {
                    lemma_sphere_draw_accepted(seen, u);
                }
                return p;
            }
            proof {
                seen = seen.push(u);
            }
            tries = tries + 1;
        }
        let zero = Vec3::default();
        proof {
            lemma_zero_in_unit_ball();
            lemma_sphere_draws_rejected(seen, Seq::empty());
            assert(seen + Seq::<Vec3>::empty() == seen);
        }
        zero
    }

    /// A point of the unit ball divided by its length.
    pub fn random_unit_vector(rng: &mut StdRng) -> (r: Vec3)
        ensures
            exists|p: Vec3| p.in_unit_ball() && r == #[trigger] p.unit_spec(),
    {
        let p = Vec3::random_in_unit_sphere(rng);
        p.unit_vector()
    }

    /// A point of the unit disc in the plane `z = 0`: the first of up to
    /// `MAX_TRIES` candidates `(u.x, u.y, 0) - (1, 1, 0)` whose squared
    /// length is below one, or the zero triple where none is.
    pub fn random_in_unit_disc(rng: &mut StdRng) -> (p: Vec3)
        ensures
            p.in_unit_disc(),
            exists|draws: Seq<Vec3>|
                is_candidate_draws(draws) && p == #[trigger] first_in_unit_disc_spec(draws),
    {
        let mut tries: u32 = 0;
        let ghost mut seen = Seq::<Vec3>::empty();
        while tries < MAX_TRIES
            invariant
                tries <= MAX_TRIES,
                seen.len() == tries,
                all_fractions(seen),
                none_in_unit_disc(seen),
            decreases MAX_TRIES - tries,
        {
            let u = Vec3::random(rng);
            let p = disc_candidate(u);
            if p.dot(p).raw < SCALE {
                assert(p.2@ == 0);
                proof {
                    lemma_disc_draw_accepted(seen, u);
                }
                return p;
            }
            proof {
                seen = seen.push(u);
            }
            tries = tries + 1;
        }
        let zero = Vec3::default();
        proof {
            lemma_zero_in_unit_ball();
            lemma_disc_draws_rejected(seen, Seq::empty());
            assert(seen + Seq::<Vec3>::empty() == seen);
        }
        zero
    }

    /// A triple of fractions in `[0, 1)`.
    pub fn random(rng: &mut StdRng) -> (u: Vec3)
        ensures
            u.is_fractions(),
    {
        let a = random_fraction(rng);
        let b = random_fraction(rng);
        let c = random_fraction(rng);
        Vec3(a, b, c)
    }

    /// A triple with each component drawn between `range.start` and
    /// `range.end`.
    pub fn random_range(rng: &mut StdRng, range: Range<Fixed>) -> (p: Vec3)
        requires
            range.start@ < range.end@,
        ensures
            exists|u: Vec3|
                u.is_fractions() && p == #[trigger] range_point_spec(range.start, range.end, u),
    {
        let u = Vec3::random(rng);
        range_point(range.start, range.end, u)
    }
}

/// The zero triple has squared length zero.
pub proof fn lemma_zero_in_unit_ball()
    ensures
        Vec3::splat(Fixed { raw: 0 }).length_squared_spec()@ == 0,
        Vec3::splat(Fixed { raw: 0 }).in_unit_ball(),
        Vec3::splat(Fixed { raw: 0 }).in_unit_disc(),
{
    assert(0int * 0int == 0) by (nonlinear_arith);
}

/// Whether every entry of `draws` is a triple of fractions.
pub open spec fn all_fractions(draws: Seq<Vec3>) -> bool {
    forall|i: int| 0 <= i < draws.len() ==> (#[trigger] draws[i]).is_fractions()
}

/// Whether `draws` holds the triples of fractions for all `MAX_TRIES`
/// candidates of a rejection sampler.
pub open spec fn is_candidate_draws(draws: Seq<Vec3>) -> bool {
    draws.len() == MAX_TRIES && all_fractions(draws)
}

/// Whether no entry of `draws` gives a candidate `2 u - 1` in the unit
/// ball.
pub open spec fn none_in_unit_sphere(draws: Seq<Vec3>) -> bool {
    forall|i: int|
        0 <= i < draws.len() ==> !(#[trigger] sphere_candidate_spec(draws[i])).in_unit_ball()
}

/// Whether no entry of `draws` gives a candidate `(u.x, u.y, 0) - (1, 1, 0)`
/// in the unit disc.
pub open spec fn none_in_unit_disc(draws: Seq<Vec3>) -> bool {
    forall|i: int|
        0 <= i < draws.len() ==> !(#[trigger] disc_candidate_spec(draws[i])).in_unit_ball()
}

/// What rejection sampling in the unit ball picks from `draws`: the
/// candidate `2 u - 1` of the first entry `u` for which it has a squared
/// length below one, or the zero triple where there is no such entry.
pub open spec fn first_in_unit_sphere_spec(draws: Seq<Vec3>) -> Vec3
    decreases draws.len(),
{
    if draws.len() == 0 {
        Vec3::splat(Fixed { raw: 0 })
    } else if sphere_candidate_spec(draws[0]).in_unit_ball() {
        sphere_candidate_spec(draws[0])
    } else {
        first_in_unit_sphere_spec(draws.skip(1))
    }
}

/// What rejection sampling in the unit disc picks from `draws`: the
/// candidate `(u.x, u.y, 0) - (1, 1, 0)` of the first entry `u` for which
/// it has a squared length below one, or the zero triple where there is no
/// such entry.
pub open spec fn first_in_unit_disc_spec(draws: Seq<Vec3>) -> Vec3
    decreases draws.len(),
{
    if draws.len() == 0 {
        Vec3::splat(Fixed { raw: 0 })
    } else if disc_candidate_spec(draws[0]).in_unit_ball() {
        disc_candidate_spec(draws[0])
    } else {
        first_in_unit_disc_spec(draws.skip(1))
    }
}

/// What rejection sampling in the unit ball picks from `draws`.
pub fn first_in_unit_sphere(draws: &Vec<Vec3>) -> (p: Vec3)
    ensures
        p == first_in_unit_sphere_spec(draws@),
{
    let mut i: usize = 0;
    assert(draws@.skip(0) == draws@);
    while i < draws.len()
        invariant
            i <= draws.len(),
            first_in_unit_sphere_spec(draws@) == first_in_unit_sphere_spec(draws@.skip(i as int)),
        decreases draws.len() - i,
    {
        let p = sphere_candidate(draws[i]);
        assert(draws@.skip(i as int)[0] == draws@[i as int]);
        assert(draws@.skip(i as int).skip(1) == draws@.skip(i as int + 1));
        if p.length_squared().raw < SCALE {
            return p;
        }
        i = i + 1;
    }
    Vec3::default()
}

/// What rejection sampling in the unit disc picks from `draws`.
pub fn first_in_unit_disc(draws: &Vec<Vec3>) -> (p: Vec3)
    ensures
        p == first_in_unit_disc_spec(draws@),
{
    let mut i: usize = 0;
    assert(draws@.skip(0) == draws@);
    while i < draws.len()
        invariant
            i <= draws.len(),
            first_in_unit_disc_spec(draws@) == first_in_unit_disc_spec(draws@.skip(i as int)),
        decreases draws.len() - i,
    {
        let p = disc_candidate(draws[i]);
        assert(draws@.skip(i as int)[0] == draws@[i as int]);
        assert(draws@.skip(i as int).skip(1) == draws@.skip(i as int + 1));
        if p.dot(p).raw < SCALE {
            return p;
        }
        i = i + 1;
    }
    Vec3::default()
}

/// Draws whose candidates all miss the unit ball do not change what is
/// picked from the draws after them.
pub proof fn lemma_sphere_draws_rejected(seen: Seq<Vec3>, rest: Seq<Vec3>)
    requires
        none_in_unit_sphere(seen),
    ensures
        first_in_unit_sphere_spec(seen + rest) == first_in_unit_sphere_spec(rest),
    decreases seen.len(),
{
    if seen.len() == 0 {
        assert(seen + rest == rest);
    } else {
        assert((seen + rest)[0] == seen[0]);
        assert((seen + rest).skip(1) == seen.skip(1) + rest);
        assert forall|i: int| 0 <= i < seen.skip(1).len() implies !(
        #[trigger] sphere_candidate_spec(seen.skip(1)[i])).in_unit_ball() by {
            assert(seen.skip(1)[i] == seen[i + 1]);
        }
        lemma_sphere_draws_rejected(seen.skip(1), rest);
    }
}

/// Draws whose candidates all miss the unit disc do not change what is
/// picked from the draws after them.
pub proof fn lemma_disc_draws_rejected(seen: Seq<Vec3>, rest: Seq<Vec3>)
    requires
        none_in_unit_disc(seen),
    ensures
        first_in_unit_disc_spec(seen + rest) == first_in_unit_disc_spec(rest),
    decreases seen.len(),
{
    if seen.len() == 0 {
        assert(seen + rest == rest);
    } else {
        assert((seen + rest)[0] == seen[0]);
        assert((seen + rest).skip(1) == seen.skip(1) + rest);
        assert forall|i: int| 0 <= i < seen.skip(1).len() implies !(
        #[trigger] disc_candidate_spec(seen.skip(1)[i])).in_unit_ball() by {
            assert(seen.skip(1)[i] == seen[i + 1]);
        }
        lemma_disc_draws_rejected(seen.skip(1), rest);
    }
}

/// After fewer than `MAX_TRIES` rejected draws, an accepted candidate is
/// what is picked from some full list of draws.
proof fn lemma_sphere_draw_accepted(seen: Seq<Vec3>, u: Vec3)
    requires
        seen.len() < MAX_TRIES,
        all_fractions(seen),
        none_in_unit_sphere(seen),
        u.is_fractions(),
        sphere_candidate_spec(u).in_unit_ball(),
    ensures
        exists|draws: Seq<Vec3>|
            is_candidate_draws(draws) && sphere_candidate_spec(u)
                == #[trigger] first_in_unit_sphere_spec(draws),
{
    let rest = Seq::new((MAX_TRIES - seen.len()) as nat, |i: int| u);
    let draws = seen + rest;
    lemma_sphere_draws_rejected(seen, rest);
    assert(rest[0] == u);
    assert(is_candidate_draws(draws));
    assert(sphere_candidate_spec(u) == first_in_unit_sphere_spec(draws));
}

/// After fewer than `MAX_TRIES` rejected draws, an accepted candidate is
/// what is picked from some full list of draws.
proof fn lemma_disc_draw_accepted(seen: Seq<Vec3>, u: Vec3)
    requires
        seen.len() < MAX_TRIES,
        all_fractions(seen),
        none_in_unit_disc(seen),
        u.is_fractions(),
        disc_candidate_spec(u).in_unit_ball(),
    ensures
        exists|draws: Seq<Vec3>|
            is_candidate_draws(draws) && disc_candidate_spec(u)
                == #[trigger] first_in_unit_disc_spec(draws),
{
    let rest = Seq::new((MAX_TRIES - seen.len()) as nat, |i: int| u);
    let draws = seen + rest;
    lemma_disc_draws_rejected(seen, rest);
    assert(rest[0] == u);
    assert(is_candidate_draws(draws));
    assert(disc_candidate_spec(u) == first_in_unit_disc_spec(draws));
}

} // verus!
