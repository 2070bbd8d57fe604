//! Triples of fixed-point numbers, used as points, directions and colours.
use crate::fixed::{
    is_axis_triple, lemma_over_one, lemma_scale_powers, lemma_square_bounds, lemma_three_squares,
    lemma_times_two, lemma_times_unit, magnitude, Fixed, RAW_MAX, SCALE,
};
use core::ops::Neg;
use vstd::prelude::*;
use vstd::std_specs::ops::{AddSpecImpl, DivSpecImpl, MulSpecImpl, NegSpecImpl, SubSpecImpl};

verus! {

/// A triple `(x, y, z)`.
#[derive(Debug, Clone, Copy, PartialEq, Eq, Structural)]
pub struct Vec3(pub Fixed, pub Fixed, pub Fixed);

pub type Point3 = Vec3;

pub type Color = Vec3;

impl Vec3 {
    /// The triple with all components equal to `k`.
    pub open spec fn splat(k: Fixed) -> Vec3 {
        Vec3(k, k, k)
    }

    /// The componentwise sum.
    pub open spec fn plus(self, rhs: Vec3) -> Vec3 {
        Vec3(self.0.plus(rhs.0), self.1.plus(rhs.1), self.2.plus(rhs.2))
    }

    /// The componentwise difference.
    pub open spec fn minus(self, rhs: Vec3) -> Vec3 {
        Vec3(self.0.minus(rhs.0), self.1.minus(rhs.1), self.2.minus(rhs.2))
    }

    /// The componentwise product.
    pub open spec fn times(self, rhs: Vec3) -> Vec3 {
        Vec3(self.0.times(rhs.0), self.1.times(rhs.1), self.2.times(rhs.2))
    }

    /// The componentwise quotient.
    pub open spec fn over(self, rhs: Vec3) -> Vec3 {
        Vec3(self.0.over(rhs.0), self.1.over(rhs.1), self.2.over(rhs.2))
    }

    /// Each component multiplied by `k`, with `k` as the left factor.
    pub open spec fn scaled(self, k: Fixed) -> Vec3 {
        Vec3(k.times(self.0), k.times(self.1), k.times(self.2))
    }

    /// Each component divided by `k`.
    pub open spec fn shrunk(self, k: Fixed) -> Vec3 {
        Vec3(self.0.over(k), self.1.over(k), self.2.over(k))
    }

    /// Each component increased by `k`, with `k` as the left summand.
    pub open spec fn shifted(self, k: Fixed) -> Vec3 {
        Vec3(k.plus(self.0), k.plus(self.1), k.plus(self.2))
    }

    /// The componentwise opposite.
    pub open spec fn negated(self) -> Vec3 {
        Vec3(self.0.negated(), self.1.negated(), self.2.negated())
    }

    /// The dot product, summed from the first component to the last.
    pub open spec fn dot_spec(self, other: Vec3) -> Fixed {
        self.0.times(other.0).plus(self.1.times(other.1)).plus(self.2.times(other.2))
    }

    /// The cross product.
    pub open spec fn cross_spec(self, other: Vec3) -> Vec3 {
        Vec3(
            self.1.times(other.2).minus(self.2.times(other.1)),
            self.0.times(other.2).minus(self.2.times(other.0)).negated(),
            self.0.times(other.1).minus(self.1.times(other.0)),
        )
    }

    /// The squared length.
    pub open spec fn length_squared_spec(self) -> Fixed {
        self.dot_spec(self)
    }

    /// The length.
    pub open spec fn length_spec(self) -> Fixed {
        self.dot_spec(self).sqrt_spec()
    }

    /// The triple divided by its length.
    pub open spec fn unit_spec(self) -> Vec3 {
        self.shrunk(self.length_spec())
    }

    /// Whether every component is smaller in magnitude than the smallest
    /// positive number.
    pub open spec fn near_zero_spec(self) -> bool {
        self.0.abs_spec()@ < 1 && self.1.abs_spec()@ < 1 && self.2.abs_spec()@ < 1
    }

    /// The triple with the given components.
    pub fn new(x: Fixed, y: Fixed, z: Fixed) -> (r: Vec3)
        ensures
            r == Vec3(x, y, z),
    {
        Vec3(x, y, z)
    }

    pub fn x(&self) -> (r: Fixed)
        ensures
            r == self.0,
    {
        self.0
    }

    pub fn y(&self) -> (r: Fixed)
        ensures
            r == self.1,
    {
        self.1
    }

    pub fn z(&self) -> (r: Fixed)
        ensures
            r == self.2,
    {
        self.2
    }

    /// Combines two triples component by component with `f`, first
    /// component first.
    pub fn zip_with<F: Fn(Fixed, Fixed) -> Fixed>(self, other: Vec3, f: F) -> (r: Vec3)
        requires
            call_requires(f, (self.0, other.0)),
            call_requires(f, (self.1, other.1)),
            call_requires(f, (self.2, other.2)),
        ensures
            call_ensures(f, (self.0, other.0), r.0),
            call_ensures(f, (self.1, other.1), r.1),
            call_ensures(f, (self.2, other.2), r.2),
    {
        let a = f(self.0, other.0);
        let b = f(self.1, other.1);
        let c = f(self.2, other.2);
        Vec3(a, b, c)
    }

    /// Combines three triples component by component with `f`, first
    /// component first.
    pub fn zip_with3<F: Fn(Fixed, Fixed, Fixed) -> Fixed>(
        self,
        other1: Vec3,
        other2: Vec3,
        f: F,
    ) -> (r: Vec3)
        requires
            call_requires(f, (self.0, other1.0, other2.0)),
            call_requires(f, (self.1, other1.1, other2.1)),
            call_requires(f, (self.2, other1.2, other2.2)),
        ensures
            call_ensures(f, (self.0, other1.0, other2.0), r.0),
            call_ensures(f, (self.1, other1.1, other2.1), r.1),
            call_ensures(f, (self.2, other1.2, other2.2), r.2),
    {
        let a = f(self.0, other1.0, other2.0);
        let b = f(self.1, other1.1, other2.1);
        let c = f(self.2, other1.2, other2.2);
        Vec3(a, b, c)
    }

    /// Folds the components with `f` from the first to the last.
    pub fn reduce<F: Fn(Fixed, Fixed) -> Fixed>(self, f: F) -> (r: Fixed)
        requires
            call_requires(f, (self.0, self.1)),
            forall|m: Fixed| call_ensures(f, (self.0, self.1), m) ==> call_requires(f, (m, self.2)),
        ensures
            exists|m: Fixed|
                call_ensures(f, (self.0, self.1), m) && call_ensures(f, (m, self.2), r),
    {
        let m = f(self.0, self.1);
        f(m, self.2)
    }

    /// Applies `f` to each component, first component first.
    pub fn map<F: Fn(Fixed) -> Fixed>(self, f: F) -> (r: Vec3)
        requires
            call_requires(f, (self.0,)),
            call_requires(f, (self.1,)),
            call_requires(f, (self.2,)),
        ensures
            call_ensures(f, (self.0,), r.0),
            call_ensures(f, (self.1,), r.1),
            call_ensures(f, (self.2,), r.2),
    {
        let a = f(self.0);
        let b = f(self.1);
        let c = f(self.2);
        Vec3(a, b, c)
    }

    pub fn length_squared(&self) -> (r: Fixed)
        ensures
            r == self.length_squared_spec(),
    {
        self.dot(*self)
    }

    pub fn length(&self) -> (r: Fixed)
        ensures
            r == self.length_spec(),
    {
        self.dot(*self).sqrt()
    }

    pub fn dot(&self, other: Vec3) -> (r: Fixed)
        ensures
            r == self.dot_spec(other),
    {
        self.0 * other.0 + self.1 * other.1 + self.2 * other.2
    }

    pub fn cross(&self, other: Vec3) -> (r: Vec3)
        ensures
            r == self.cross_spec(other),
    {
        Vec3(
            self.1 * other.2 - self.2 * other.1,
            (self.0 * other.2 - self.2 * other.0).neg(),
            self.0 * other.1 - self.1 * other.0,
        )
    }

    /// The triple divided by its length. The zero triple is returned
    /// unchanged.
    pub fn unit_vector(self) -> (r: Vec3)
        ensures
            r == self.unit_spec(),
    {
        self / self.length()
    }

    pub fn near_zero(&self) -> (r: bool)
        ensures
            r == self.near_zero_spec(),
            r == (*self == Vec3::splat(Fixed { raw: 0 })),
    {
        let s = Fixed::epsilon();
        (self.0.abs().raw < s.raw) && (self.1.abs().raw < s.raw) && (self.2.abs().raw < s.raw)
    }
}

impl Vec3 {
    /// A squared length is not negative.
    pub proof fn lemma_length_squared_nonnegative(self)
        ensures
            0 <= self.length_squared_spec()@,
    {
        lemma_square_bounds(self.0);
        lemma_square_bounds(self.1);
        lemma_square_bounds(self.2);
    }
}

impl Vec3 {
    /// Whether the length is exactly one: the squares of the raw
    /// components add up to the square of `SCALE`.
    pub open spec fn is_unit(self) -> bool {
        self.0@ * self.0@ + self.1@ * self.1@ + self.2@ * self.2@ == SCALE * SCALE
    }

    /// A triple of length exactly one lies along an axis: one component is
    /// one or minus one, the others are zero.
    pub proof fn lemma_unit_is_axis(self)
        requires
            self.is_unit(),
        ensures
            is_axis_triple(self.0@, self.1@, self.2@, SCALE as int),
    {
        lemma_scale_powers();
        lemma_three_squares(self.0@, self.1@, self.2@, 24);
    }

    /// A triple of length exactly one is its own unit vector.
    pub proof fn lemma_unit_of_unit(self)
        requires
            self.is_unit(),
        ensures
            self.unit_spec() == self,
            self.length_spec() == (Fixed { raw: SCALE }),
            self.length_squared_spec() == (Fixed { raw: SCALE }),
    {
        self.lemma_unit_is_axis();
        lemma_times_unit(self.0);
        lemma_times_unit(self.1);
        lemma_times_unit(self.2);
        lemma_over_one(self.0);
        lemma_over_one(self.1);
        lemma_over_one(self.2);
    }
}

/// The component of `d` along the axis on which `n` lies, counted in the
/// direction of `n`; `n` has length exactly one.
pub open spec fn along_axis(d: Vec3, n: Vec3) -> Fixed {
    if n.0@ != 0 {
        d.0.times(n.0)
    } else if n.1@ != 0 {
        d.1.times(n.1)
    } else {
        d.2.times(n.2)
    }
}

/// `d` with its component along the axis of `n` replaced by `c`.
pub open spec fn with_axis(d: Vec3, n: Vec3, c: Fixed) -> Vec3 {
    if n.0@ != 0 {
        Vec3(c, d.1, d.2)
    } else if n.1@ != 0 {
        Vec3(d.0, c, d.2)
    } else {
        Vec3(d.0, d.1, c)
    }
}

/// The dot product with a normal of length exactly one is the component
/// along the axis of that normal.
pub proof fn lemma_dot_with_unit(d: Vec3, n: Vec3)
    requires
        n.is_unit(),
    ensures
        d.dot_spec(n) == along_axis(d, n),
{
    n.lemma_unit_is_axis();
    lemma_times_unit(d.0);
    lemma_times_unit(d.1);
    lemma_times_unit(d.2);
}

/// Mirroring about a normal of length exactly one turns the component
/// along the axis of the normal into its opposite, and keeps the others.
pub proof fn lemma_reflect_flips(d: Vec3, n: Vec3)
    requires
        n.is_unit(),
        2 * magnitude(d.dot_spec(n)@) <= RAW_MAX,
    ensures
        reflect_spec(d, n).dot_spec(n)@ == -d.dot_spec(n)@,
        reflect_spec(d, n) == with_axis(
            d,
            n,
            if n.0@ != 0 {
                d.0.negated()
            } else if n.1@ != 0 {
                d.1.negated()
            } else {
                d.2.negated()
            },
        ),
{
    n.lemma_unit_is_axis();
    lemma_dot_with_unit(d, n);
    let along = d.dot_spec(n);
    let k = Fixed::int_spec(2).times(along);
    lemma_times_two(along);
    lemma_times_unit(k);
    lemma_times_unit(d.0);
    lemma_times_unit(d.1);
    lemma_times_unit(d.2);
    let r = d.minus(n.scaled(k));
    assert(r == reflect_spec(d, n));
    lemma_dot_with_unit(r, n);
    lemma_times_unit(r.0);
    lemma_times_unit(r.1);
    lemma_times_unit(r.2);
}

/// Mirroring twice about the same plane gives the direction back, where
/// the normal `n` has length exactly one and twice the component of `d`
/// along `n` can be represented.
pub proof fn lemma_reflect_twice(d: Vec3, n: Vec3)
    requires
        n.is_unit(),
        2 * magnitude(d.dot_spec(n)@) <= RAW_MAX,
    ensures
        reflect_spec(reflect_spec(d, n), n) == d,
{
    lemma_reflect_flips(d, n);
    lemma_reflect_flips(reflect_spec(d, n), n);
}

/// With equal refractive indices on both sides a direction of length
/// exactly one crosses the surface unchanged, where the normal `n` has
/// length exactly one and `d` does not run along it.
pub proof fn lemma_refract_unit_ratio(d: Vec3, n: Vec3)
    requires
        d.is_unit(),
        n.is_unit(),
        d.dot_spec(n)@ <= 0,
    ensures
        refract_spec(d, n, Fixed::int_spec(1)) == d,
{
    d.lemma_unit_is_axis();
    n.lemma_unit_is_axis();
    let one = Fixed::int_spec(1);
    lemma_times_unit(d.0);
    lemma_times_unit(d.1);
    lemma_times_unit(d.2);
    let back = d.negated();
    lemma_times_unit(back.0);
    lemma_times_unit(back.1);
    lemma_times_unit(back.2);
    let cos_theta = refract_cos(d, n);
    assert(cos_theta@ == -d.dot_spec(n)@);
    assert(cos_theta@ == 0 || cos_theta@ == SCALE);
    lemma_times_unit(cos_theta);
    let inner = d.plus(n.scaled(cos_theta));
    lemma_times_unit(inner.0);
    lemma_times_unit(inner.1);
    lemma_times_unit(inner.2);
    let perp = refract_perp(d, n, one);
    assert(perp == inner);
    lemma_over_one(one);
    let rest = one.minus(perp.length_squared_spec()).abs_spec().sqrt_spec().negated();
    lemma_times_unit(rest);
    if cos_theta@ == 0 {
        assert(perp == d);
        assert(perp.length_squared_spec()@ == SCALE);
        assert(rest@ == 0);
    } else {
        assert(perp == Vec3::splat(Fixed { raw: 0 }));
        assert(perp.length_squared_spec()@ == 0);
        assert(rest@ == -SCALE);
    }
}

/// The sum of `items`, added up from the zero triple in their order.
pub open spec fn sum_spec(items: Seq<Vec3>) -> Vec3
    decreases items.len(),
{
    if items.len() == 0 {
        Vec3::splat(Fixed { raw: 0 })
    } else {
        sum_spec(items.drop_last()).plus(items.last())
    }
}

impl Vec3 {
    /// The sum of `items`, added up from the zero triple in their order.
    pub fn sum(items: &Vec<Vec3>) -> (total: Vec3)
        ensures
            total == sum_spec(items@),
    {
        let mut total = Vec3::default();
        let mut i: usize = 0;
        while i < items.len()
            invariant
                i <= items.len(),
                total == sum_spec(items@.take(i as int)),
            decreases items.len() - i,
        {
            assert(items@.take(i as int + 1).drop_last() == items@.take(i as int));
            total = total + items[i];
            i = i + 1;
        }
        assert(items@.take(i as int) == items@);
        total
    }
}

impl Default for Vec3 {
    fn default() -> (r: Vec3)
        ensures
            r == Vec3::splat(Fixed { raw: 0 }),
    {
        Vec3(Fixed::zero(), Fixed::zero(), Fixed::zero())
    }
}

impl core::ops::Neg for Vec3 {
    type Output = Vec3;

    fn neg(self) -> (r: Vec3) {
        Vec3(self.0.neg(), self.1.neg(), self.2.neg())
    }
}

impl NegSpecImpl for Vec3 {
    open spec fn obeys_neg_spec() -> bool {
        true
    }

    open spec fn neg_req(self) -> bool {
        true
    }

    open spec fn neg_spec(self) -> Vec3 {
        self.negated()
    }
}

impl core::ops::Add for Vec3 {
    type Output = Vec3;

    fn add(self, rhs: Vec3) -> (r: Vec3) {
        Vec3(self.0 + rhs.0, self.1 + rhs.1, self.2 + rhs.2)
    }
}

impl AddSpecImpl for Vec3 {
    open spec fn obeys_add_spec() -> bool {
        true
    }

    open spec fn add_req(self, rhs: Vec3) -> bool {
        true
    }

    open spec fn add_spec(self, rhs: Vec3) -> Vec3 {
        self.plus(rhs)
    }
}

impl core::ops::Add<Vec3> for Fixed {
    type Output = Vec3;

    fn add(self, rhs: Vec3) -> (r: Vec3) {
        Vec3(self + rhs.0, self + rhs.1, self + rhs.2)
    }
}

impl AddSpecImpl<Vec3> for Fixed {
    open spec fn obeys_add_spec() -> bool {
        true
    }

    open spec fn add_req(self, rhs: Vec3) -> bool {
        true
    }

    open spec fn add_spec(self, rhs: Vec3) -> Vec3 {
        rhs.shifted(self)
    }
}

impl core::ops::Sub for Vec3 {
    type Output = Vec3;

    fn sub(self, rhs: Vec3) -> (r: Vec3) {
        Vec3(self.0 - rhs.0, self.1 - rhs.1, self.2 - rhs.2)
    }
}

impl SubSpecImpl for Vec3 {
    open spec fn obeys_sub_spec() -> bool {
        true
    }

    open spec fn sub_req(self, rhs: Vec3) -> bool {
        true
    }

    open spec fn sub_spec(self, rhs: Vec3) -> Vec3 {
        self.minus(rhs)
    }
}

impl core::ops::Mul for Vec3 {
    type Output = Vec3;

    fn mul(self, rhs: Vec3) -> (r: Vec3) {
        Vec3(self.0 * rhs.0, self.1 * rhs.1, self.2 * rhs.2)
    }
}

impl MulSpecImpl for Vec3 {
    open spec fn obeys_mul_spec() -> bool {
        true
    }

    open spec fn mul_req(self, rhs: Vec3) -> bool {
        true
    }

    open spec fn mul_spec(self, rhs: Vec3) -> Vec3 {
        self.times(rhs)
    }
}

impl core::ops::Mul<Vec3> for Fixed {
    type Output = Vec3;

    fn mul(self, rhs: Vec3) -> (r: Vec3) {
        Vec3(self * rhs.0, self * rhs.1, self * rhs.2)
    }
}

impl MulSpecImpl<Vec3> for Fixed {
    open spec fn obeys_mul_spec() -> bool {
        true
    }

    open spec fn mul_req(self, rhs: Vec3) -> bool {
        true
    }

    open spec fn mul_spec(self, rhs: Vec3) -> Vec3 {
        rhs.scaled(self)
    }
}

impl core::ops::Div for Vec3 {
    type Output = Vec3;

    fn div(self, rhs: Vec3) -> (r: Vec3) {
        Vec3(self.0 / rhs.0, self.1 / rhs.1, self.2 / rhs.2)
    }
}

impl DivSpecImpl for Vec3 {
    open spec fn obeys_div_spec() -> bool {
        true
    }

    open spec fn div_req(self, rhs: Vec3) -> bool {
        true
    }

    open spec fn div_spec(self, rhs: Vec3) -> Vec3 {
        self.over(rhs)
    }
}

impl core::ops::Div<Fixed> for Vec3 {
    type Output = Vec3;

    fn div(self, rhs: Fixed) -> (r: Vec3) {
        Vec3(self.0 / rhs, self.1 / rhs, self.2 / rhs)
    }
}

impl DivSpecImpl<Fixed> for Vec3 {
    open spec fn obeys_div_spec() -> bool {
        true
    }

    open spec fn div_req(self, rhs: Fixed) -> bool {
        true
    }

    open spec fn div_spec(self, rhs: Fixed) -> Vec3 {
        self.shrunk(rhs)
    }
}

impl From<Fixed> for Vec3 {
    fn from(v: Fixed) -> (r: Vec3) {
        Vec3(v, v, v)
    }
}

impl vstd::std_specs::convert::FromSpecImpl<Fixed> for Vec3 {
    open spec fn obeys_from_spec() -> bool {
        true
    }

    open spec fn from_spec(v: Fixed) -> Vec3 {
        Vec3::splat(v)
    }
}

/// The mirror image of `v` about the plane with normal `n`:
/// `v - (2 (v . n)) n`.
pub open spec fn reflect_spec(v: Vec3, n: Vec3) -> Vec3 {
    v.minus(n.scaled(Fixed::int_spec(2).times(v.dot_spec(n))))
}

/// The cosine used by `refract`: `min(-uv . n, 1)`.
pub open spec fn refract_cos(uv: Vec3, n: Vec3) -> Fixed {
    uv.negated().dot_spec(n).min_spec(Fixed::int_spec(1))
}

/// The component of the refracted direction perpendicular to `n`.
pub open spec fn refract_perp(uv: Vec3, n: Vec3, etai_over_etat: Fixed) -> Vec3 {
    uv.plus(n.scaled(refract_cos(uv, n))).scaled(etai_over_etat)
}

/// The direction of `uv` after it crosses a surface with normal `n` and
/// ratio of refractive indices `etai_over_etat`, by Snell's law.
pub open spec fn refract_spec(uv: Vec3, n: Vec3, etai_over_etat: Fixed) -> Vec3 {
    let perp = refract_perp(uv, n, etai_over_etat);
    let parallel = n.scaled(
        Fixed::int_spec(1).minus(perp.length_squared_spec()).abs_spec().sqrt_spec().negated(),
    );
    perp.plus(parallel)
}

pub fn reflect(v: Vec3, n: Vec3) -> (r: Vec3)
    ensures
        r == reflect_spec(v, n),
{
    v - Fixed::from_int(2) * v.dot(n) * n
}

pub fn refract(uv: Vec3, n: Vec3, etai_over_etat: Fixed) -> (r: Vec3)
    ensures
        r == refract_spec(uv, n, etai_over_etat),
{
    let cos_theta = uv.neg().dot(n).min(Fixed::one());
    let r_out_perp = etai_over_etat * (uv + cos_theta * n);
    let r_out_parallel = (Fixed::one() - r_out_perp.length_squared()).abs().sqrt().neg() * n;
    r_out_perp + r_out_parallel
}

} // verus!
