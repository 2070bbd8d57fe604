//! Signed fixed-point numbers with 24 fractional bits.
//!
//! Every quantity of the renderer (coordinates, directions, colours, ray
//! parameters) is a `Fixed`: a 64-bit integer `raw` that stands for the real
//! number `raw / 2^24`. All operations are total. A result that does not fit
//! is clamped to the nearest representable value, a quotient or product is
//! rounded towards zero, and a division by zero yields the extreme value of
//! the dividend's sign (zero for `0 / 0`).
use vstd::prelude::*;
use vstd::std_specs::ops::{AddSpecImpl, DivSpecImpl, MulSpecImpl, NegSpecImpl, SubSpecImpl};

verus! {

/// Number of raw units in the value one: `2^24`.
pub const SCALE: i64 = 0x100_0000;

/// Largest raw value.
pub const RAW_MAX: i64 = 0x7fff_ffff_ffff_ffff;

/// Smallest raw value.
pub const RAW_MIN: i64 = -0x8000_0000_0000_0000;

/// Clamps an integer to the range of raw values.
pub open spec fn saturate(x: int) -> int {
    if x < RAW_MIN {
        RAW_MIN as int
    } else if x > RAW_MAX {
        RAW_MAX as int
    } else {
        x
    }
}

/// Absolute value of an integer.
pub open spec fn magnitude(x: int) -> int {
    if x < 0 {
        -x
    } else {
        x
    }
}

/// Quotient of `n` by `d` rounded towards zero, for `d != 0`.
pub open spec fn trunc_div(n: int, d: int) -> int
    recommends
        d != 0,
{
    let q = magnitude(n) / magnitude(d);
    if (n < 0) != (d < 0) {
        -q
    } else {
        q
    }
}

/// The largest natural number whose square is at most `n`.
pub open spec fn int_sqrt(n: nat) -> nat
    decreases n,
{
    if n == 0 {
        0
    } else {
        let r = int_sqrt((n - 1) as nat);
        if (r + 1) * (r + 1) <= n {
            r + 1
        } else {
            r
        }
    }
}

/// Raw value of the product of two raw values.
pub open spec fn mul_raw(a: int, b: int) -> int {
    saturate(trunc_div(a * b, SCALE as int))
}

/// Raw value of the quotient of two raw values.
pub open spec fn div_raw(a: int, b: int) -> int {
    if b == 0 {
        if a > 0 {
            RAW_MAX as int
        } else if a < 0 {
            RAW_MIN as int
        } else {
            0
        }
    } else {
        saturate(trunc_div(a * SCALE, b))
    }
}

/// Raw value of the square root of a raw value; zero for a negative one.
pub open spec fn sqrt_raw(a: int) -> int {
    if a <= 0 {
        0
    } else {
        int_sqrt((a * SCALE) as nat) as int
    }
}

/// `int_sqrt(n)` is a root of `n` rounded down.
pub proof fn lemma_int_sqrt_bounds(n: nat)
    ensures
        int_sqrt(n) * int_sqrt(n) <= n,
        n < (int_sqrt(n) + 1) * (int_sqrt(n) + 1),
    decreases n,
{
    let s = int_sqrt(n);
    if n == 0 {
        assert(s == 0);
        assert(s * s == 0 && (s + 1) * (s + 1) == 1) by (nonlinear_arith)
            requires
                s == 0,
        ;
    } else {
        lemma_int_sqrt_bounds((n - 1) as nat);
        let r = int_sqrt((n - 1) as nat);
        if (r + 1) * (r + 1) <= n {
            assert(s == r + 1);
            assert(s * s <= n && n < (s + 1) * (s + 1)) by (nonlinear_arith)
                requires
                    s == r + 1,
                    (r + 1) * (r + 1) <= n,
                    n - 1 < (r + 1) * (r + 1),
            ;
        } else {
            assert(s == r);
        }
    }
}

/// Only one natural number is a root of `n` rounded down.
pub proof fn lemma_int_sqrt_unique(n: nat, r: nat)
    requires
        r * r <= n,
        n < (r + 1) * (r + 1),
    ensures
        r == int_sqrt(n),
{
    lemma_int_sqrt_bounds(n);
    let s = int_sqrt(n);
    if r < s {
        assert((r + 1) * (r + 1) <= s * s) by (nonlinear_arith)
            requires
                0 <= r + 1 <= s,
        ;
    } else if s < r {
        assert((s + 1) * (s + 1) <= r * r) by (nonlinear_arith)
            requires
                0 <= s + 1 <= r,
        ;
    }
}

/// A fixed-point number: `raw` counts units of `2^-24`.
#[derive(Clone, Copy, Debug, PartialEq, Eq, Structural)]
pub struct Fixed {
    pub raw: i64,
}

impl View for Fixed {
    type V = int;

    open spec fn view(&self) -> int {
        self.raw as int
    }
}

/// Magnitude of a raw value as an unsigned integer.
fn raw_magnitude(x: i64) -> (m: u128)
    ensures
        m == magnitude(x as int),
        m <= 0x8000_0000_0000_0000,
{
    if x < 0 {
        let wide: i128 = -(x as i128);
        wide as u128
    } else {
        x as u128
    }
}

/// Number with the given sign and magnitude, clamped to the raw range.
fn from_sign_magnitude(negative: bool, m: u128) -> (r: Fixed)
    ensures
        r@ == saturate(
            if negative {
                -(m as int)
            } else {
                m as int
            },
        ),
{
    if negative {
        if m >= 0x8000_0000_0000_0000 {
            Fixed { raw: RAW_MIN }
        } else {
            let narrow: i64 = m as i64;
            Fixed { raw: -narrow }
        }
    } else {
        if m > 0x7fff_ffff_ffff_ffff {
            Fixed { raw: RAW_MAX }
        } else {
            Fixed { raw: m as i64 }
        }
    }
}

/// Clamps a wide integer to a raw value.
fn from_wide(x: i128) -> (r: Fixed)
    ensures
        r@ == saturate(x as int),
{
    if x > 0x7fff_ffff_ffff_ffff {
        Fixed { raw: RAW_MAX }
    } else if x < -0x8000_0000_0000_0000 {
        Fixed { raw: RAW_MIN }
    } else {
        Fixed { raw: x as i64 }
    }
}

/// Root of `n` rounded down, found by bisection.
fn int_sqrt_exec(n: u128) -> (r: u128)
    requires
        n < 0x100_0000_0000_0000_0000_0000,
    ensures
        r == int_sqrt(n as nat),
        r < 0x1000_0000_0000,
{
    let mut lo: u128 = 0;
    let mut hi: u128 = 0x1000_0000_0000;
    assert(lo * lo <= n);
    assert(n < hi * hi) by (nonlinear_arith)
        requires
            n < 0x100_0000_0000_0000_0000_0000,
            hi == 0x1000_0000_0000,
    ;
    while hi - lo > 1
        invariant
            lo < hi <= 0x1000_0000_0000,
            lo * lo <= n,
            n < hi * hi,
        decreases hi - lo,
    {
        let mid: u128 = lo + (hi - lo) / 2;
        assert(mid * mid < 0x100_0000_0000_0000_0000_0000) by (nonlinear_arith)
            requires
                0 <= mid < 0x1000_0000_0000,
        ;
        if mid * mid <= n {
            lo = mid;
        } else {
            hi = mid;
        }
    }
    proof {
        lemma_int_sqrt_unique(n as nat, lo as nat);
    }
    lo
}

impl Fixed {
    /// The sum, clamped.
    pub open spec fn plus(self, rhs: Fixed) -> Fixed {
        Fixed { raw: saturate(self@ + rhs@) as i64 }
    }

    /// The difference, clamped.
    pub open spec fn minus(self, rhs: Fixed) -> Fixed {
        Fixed { raw: saturate(self@ - rhs@) as i64 }
    }

    /// The product, rounded towards zero and clamped.
    pub open spec fn times(self, rhs: Fixed) -> Fixed {
        Fixed { raw: mul_raw(self@, rhs@) as i64 }
    }

    /// The quotient, rounded towards zero and clamped.
    pub open spec fn over(self, rhs: Fixed) -> Fixed {
        Fixed { raw: div_raw(self@, rhs@) as i64 }
    }

    /// The opposite, clamped.
    pub open spec fn negated(self) -> Fixed {
        Fixed { raw: saturate(-self@) as i64 }
    }

    /// The absolute value, clamped.
    pub open spec fn abs_spec(self) -> Fixed {
        Fixed { raw: saturate(magnitude(self@)) as i64 }
    }

    /// The square root rounded down; zero for a negative number.
    pub open spec fn sqrt_spec(self) -> Fixed {
        Fixed { raw: sqrt_raw(self@) as i64 }
    }

    /// The smaller of two numbers.
    pub open spec fn min_spec(self, rhs: Fixed) -> Fixed {
        if rhs@ < self@ {
            rhs
        } else {
            self
        }
    }

    /// The fifth power, by squaring twice and multiplying once.
    pub open spec fn pow5_spec(self) -> Fixed {
        let square = self.times(self);
        square.times(square).times(self)
    }

    /// The whole number `n`.
    pub open spec fn int_spec(n: int) -> Fixed {
        Fixed { raw: (n * SCALE) as i64 }
    }

    /// The fraction `num / den`.
    pub open spec fn ratio_spec(num: int, den: int) -> Fixed {
        Fixed::int_spec(num).over(Fixed::int_spec(den))
    }

    /// Whether the number lies in `[0, 1)`.
    pub open spec fn is_fraction(self) -> bool {
        0 <= self@ < SCALE
    }

    /// The number with the given raw value.
    pub fn from_raw(raw: i64) -> (r: Fixed)
        ensures
            r@ == raw,
    {
        Fixed { raw }
    }

    /// The whole number `n`.
    pub fn from_int(n: i32) -> (r: Fixed)
        ensures
            r == Fixed::int_spec(n as int),
            r@ == n * SCALE,
    {
        let wide: i64 = n as i64;
        Fixed { raw: wide * SCALE }
    }

    /// The fraction `num / den`.
    pub fn ratio(num: i32, den: i32) -> (r: Fixed)
        ensures
            r == Fixed::ratio_spec(num as int, den as int),
    {
        Fixed::from_int(num) / Fixed::from_int(den)
    }

    /// Zero.
    pub fn zero() -> (r: Fixed)
        ensures
            r@ == 0,
    {
        Fixed { raw: 0 }
    }

    /// One.
    pub fn one() -> (r: Fixed)
        ensures
            r@ == SCALE,
    {
        Fixed { raw: SCALE }
    }

    /// The largest number; it stands for an unbounded upper limit.
    pub fn max_value() -> (r: Fixed)
        ensures
            r@ == RAW_MAX,
    {
        Fixed { raw: RAW_MAX }
    }

    /// The smallest positive number.
    pub fn epsilon() -> (r: Fixed)
        ensures
            r@ == 1,
    {
        Fixed { raw: 1 }
    }

    /// The absolute value, clamped.
    pub fn abs(self) -> (r: Fixed)
        ensures
            r == self.abs_spec(),
    {
        from_sign_magnitude(false, raw_magnitude(self.raw))
    }

    /// The square root rounded down; zero for a negative number.
    pub fn sqrt(self) -> (r: Fixed)
        ensures
            r == self.sqrt_spec(),
    {
        if self.raw <= 0 {
            Fixed { raw: 0 }
        } else {
            let wide: u128 = self.raw as u128;
            let scale: u128 = SCALE as u128;
            let n: u128 = wide * scale;
            let root: u128 = int_sqrt_exec(n);
            Fixed { raw: root as i64 }
        }
    }

    /// The smaller of two numbers.
    pub fn min(self, rhs: Fixed) -> (r: Fixed)
        ensures
            r == self.min_spec(rhs),
    {
        if rhs.raw < self.raw {
            rhs
        } else {
            self
        }
    }

    /// The fifth power, by squaring twice and multiplying once.
    pub fn pow5(self) -> (r: Fixed)
        ensures
            r == self.pow5_spec(),
    {
        let square = self * self;
        square * square * self
    }
}

impl core::ops::Add for Fixed {
    type Output = Fixed;

    fn add(self, rhs: Fixed) -> (r: Fixed) {
        from_wide(self.raw as i128 + rhs.raw as i128)
    }
}

impl AddSpecImpl for Fixed {
    open spec fn obeys_add_spec() -> bool {
        true
    }

    open spec fn add_req(self, rhs: Fixed) -> bool {
        true
    }

    open spec fn add_spec(self, rhs: Fixed) -> Fixed {
        self.plus(rhs)
    }
}

impl core::ops::Sub for Fixed {
    type Output = Fixed;

    fn sub(self, rhs: Fixed) -> (r: Fixed) {
        from_wide(self.raw as i128 - rhs.raw as i128)
    }
}

impl SubSpecImpl for Fixed {
    open spec fn obeys_sub_spec() -> bool {
        true
    }

    open spec fn sub_req(self, rhs: Fixed) -> bool {
        true
    }

    open spec fn sub_spec(self, rhs: Fixed) -> Fixed {
        self.minus(rhs)
    }
}

impl core::ops::Neg for Fixed {
    type Output = Fixed;

    fn neg(self) -> (r: Fixed) {
        from_wide(-(self.raw as i128))
    }
}

impl NegSpecImpl for Fixed {
    open spec fn obeys_neg_spec() -> bool {
        true
    }

    open spec fn neg_req(self) -> bool {
        true
    }

    open spec fn neg_spec(self) -> Fixed {
        self.negated()
    }
}

impl core::ops::Mul for Fixed {
    type Output = Fixed;

    fn mul(self, rhs: Fixed) -> (r: Fixed) {
        let negative = (self.raw < 0) != (rhs.raw < 0);
        let a: u128 = raw_magnitude(self.raw);
        let b: u128 = raw_magnitude(rhs.raw);
        proof {
            lemma_product_magnitude(self@, rhs@);
        }
        let product: u128 = a * b;
        let scale: u128 = SCALE as u128;
        from_sign_magnitude(negative, product / scale)
    }
}

impl MulSpecImpl for Fixed {
    open spec fn obeys_mul_spec() -> bool {
        true
    }

    open spec fn mul_req(self, rhs: Fixed) -> bool {
        true
    }

    open spec fn mul_spec(self, rhs: Fixed) -> Fixed {
        self.times(rhs)
    }
}

impl core::ops::Div for Fixed {
    type Output = Fixed;

    fn div(self, rhs: Fixed) -> (r: Fixed) {
        if rhs.raw == 0 {
            if self.raw > 0 {
                Fixed { raw: RAW_MAX }
            } else if self.raw < 0 {
                Fixed { raw: RAW_MIN }
            } else {
                Fixed { raw: 0 }
            }
        } else {
            let negative = (self.raw < 0) != (rhs.raw < 0);
            let a: u128 = raw_magnitude(self.raw);
            let b: u128 = raw_magnitude(rhs.raw);
            let scale: u128 = SCALE as u128;
            proof {
                lemma_product_magnitude(self@, SCALE as int);
            }
            let scaled: u128 = a * scale;
            from_sign_magnitude(negative, scaled / b)
        }
    }
}

impl DivSpecImpl for Fixed {
    open spec fn obeys_div_spec() -> bool {
        true
    }

    open spec fn div_req(self, rhs: Fixed) -> bool {
        true
    }

    open spec fn div_spec(self, rhs: Fixed) -> Fixed {
        self.over(rhs)
    }
}

/// The magnitude of a product is the product of the magnitudes, and a
/// product is negative only where the signs of its factors differ.
pub proof fn lemma_product_magnitude(a: int, b: int)
    ensures
        magnitude(a * b) == magnitude(a) * magnitude(b),
        a * b < 0 ==> (a < 0) != (b < 0),
        (a < 0) != (b < 0) ==> a * b <= 0,
        magnitude(a) <= 0x8000_0000_0000_0000 && magnitude(b) <= 0x8000_0000_0000_0000
            ==> magnitude(a) * magnitude(b) <= 0x4000_0000_0000_0000_0000_0000_0000_0000,
{
    assert(magnitude(a * b) == magnitude(a) * magnitude(b)) by (nonlinear_arith);
    assert(a * b < 0 ==> (a < 0) != (b < 0)) by (nonlinear_arith);
    assert((a < 0) != (b < 0) ==> a * b <= 0) by (nonlinear_arith);
    assert(magnitude(a) <= 0x8000_0000_0000_0000 && magnitude(b) <= 0x8000_0000_0000_0000
        ==> magnitude(a) * magnitude(b) <= 0x4000_0000_0000_0000_0000_0000_0000_0000)
        by (nonlinear_arith);
}

/// The square of a number is not negative, and scaled back up it does not
/// exceed the exact square of the raw value.
pub proof fn lemma_square_bounds(h: Fixed)
    ensures
        0 <= h.times(h)@,
        h.times(h)@ * SCALE <= h@ * h@,
{
    let n = h@ * h@;
    assert(0 <= n) by (nonlinear_arith)
        requires
            n == h@ * h@,
    ;
    let q = n / (SCALE as int);
    assert(trunc_div(n, SCALE as int) == q);
    assert(0 <= q && q * SCALE <= n);
    assert(saturate(q) * SCALE <= q * SCALE);
}

/// The product of two numbers that are not negative is not negative.
pub proof fn lemma_times_nonnegative(a: Fixed, b: Fixed)
    requires
        0 <= a@,
        0 <= b@,
    ensures
        0 <= a.times(b)@,
{
    let n = a@ * b@;
    assert(0 <= n) by (nonlinear_arith)
        requires
            n == a@ * b@,
            0 <= a@,
            0 <= b@,
    ;
    assert(trunc_div(n, SCALE as int) == n / (SCALE as int));
}

/// The square root of a positive number is its raw root rounded down, and
/// is below `2^44`.
pub proof fn lemma_sqrt_bounds(d: Fixed)
    requires
        0 < d@,
    ensures
        0 <= d.sqrt_spec()@ < 0x1000_0000_0000,
        d.sqrt_spec()@ == int_sqrt((d@ * SCALE) as nat),
        d.sqrt_spec()@ * d.sqrt_spec()@ <= d@ * SCALE,
        d@ * SCALE < (d.sqrt_spec()@ + 1) * (d.sqrt_spec()@ + 1),
{
    let n = (d@ * SCALE) as nat;
    lemma_int_sqrt_bounds(n);
    let r = int_sqrt(n);
    assert(r < 0x1000_0000_0000) by (nonlinear_arith)
        requires
            r * r <= n,
            n < 0x100_0000_0000_0000_0000_0000,
    ;
}

/// A number between zero and the square of `h`, for `h` not negative, has a
/// square root of at most `h`.
pub proof fn lemma_sqrt_below(d: Fixed, h: Fixed)
    requires
        0 <= h@,
        0 <= d@ <= h.times(h)@,
    ensures
        0 <= d.sqrt_spec()@ <= h@,
{
    if d@ > 0 {
        lemma_sqrt_bounds(d);
        lemma_square_bounds(h);
        let r = d.sqrt_spec()@;
        let hr = h@;
        assert(d@ * SCALE <= h.times(h)@ * SCALE);
        assert(r <= hr) by (nonlinear_arith)
            requires
                0 <= r,
                0 <= hr,
                r * r <= hr * hr,
        ;
    }
}

/// Division by a number that is not negative keeps the order of the
/// dividends.
pub proof fn lemma_over_monotonic(n1: Fixed, n2: Fixed, d: Fixed)
    requires
        n1@ <= n2@,
        0 <= d@,
    ensures
        n1.over(d)@ <= n2.over(d)@,
{
    if d@ > 0 {
        let s = SCALE as int;
        let m1 = magnitude(n1@ * s);
        let m2 = magnitude(n2@ * s);
        if n1@ >= 0 {
            vstd::arithmetic::div_mod::lemma_div_is_ordered(m1, m2, d@);
        } else if n2@ < 0 {
            vstd::arithmetic::div_mod::lemma_div_is_ordered(m2, m1, d@);
        } else {
            vstd::arithmetic::div_mod::lemma_div_pos_is_pos(m1, d@);
            vstd::arithmetic::div_mod::lemma_div_pos_is_pos(m2, d@);
        }
    }
}

/// A number that is not positive, divided by one that is not negative, is
/// not positive.
pub proof fn lemma_over_nonpositive(n: Fixed, d: Fixed)
    requires
        n@ <= 0,
        0 <= d@,
    ensures
        n.over(d)@ <= 0,
{
    if d@ > 0 {
        vstd::arithmetic::div_mod::lemma_div_pos_is_pos(magnitude(n@ * SCALE), d@);
    }
}

/// `4^k`.
pub open spec fn four_pow(k: nat) -> int
    decreases k,
{
    if k == 0 {
        1
    } else {
        4 * four_pow((k - 1) as nat)
    }
}

/// `2^k`.
pub open spec fn two_pow(k: nat) -> int
    decreases k,
{
    if k == 0 {
        1
    } else {
        2 * two_pow((k - 1) as nat)
    }
}

/// Whether exactly one of three integers is not zero, and that one has the
/// magnitude `m`.
pub open spec fn is_axis_triple(x: int, y: int, z: int, m: int) -> bool {
    ||| magnitude(x) == m && y == 0 && z == 0
    ||| x == 0 && magnitude(y) == m && z == 0
    ||| x == 0 && y == 0 && magnitude(z) == m
}

/// The square of an even number is four times a square; the square of an
/// odd number is one more than a multiple of four.
proof fn lemma_square_mod_four(x: int) -> (half: int)
    ensures
        x % 2 == 0 ==> x == 2 * half && x * x == 4 * (half * half),
        x % 2 != 0 ==> x * x == 4 * (half * half + half) + 1,
{
    let half = x / 2;
    if x % 2 == 0 {
        assert(x * x == 4 * (half * half)) by (nonlinear_arith)
            requires
                x == 2 * half,
        ;
    } else {
        assert(x * x == 4 * (half * half + half) + 1) by (nonlinear_arith)
            requires
                x == 2 * half + 1,
        ;
    }
    half
}

/// Three squares add up to a power of four only where two of them are
/// zero: the third is then the square of the power of two.
pub proof fn lemma_three_squares(x: int, y: int, z: int, k: nat)
    requires
        x * x + y * y + z * z == four_pow(k),
    ensures
        is_axis_triple(x, y, z, two_pow(k)),
    decreases k,
{
    assert(x * x >= 0 && y * y >= 0 && z * z >= 0) by (nonlinear_arith);
    if k == 0 {
        assert(four_pow(0) == 1 && two_pow(0) == 1);
        assert(magnitude(x) <= 1) by (nonlinear_arith)
            requires
                x * x <= 1,
        ;
        assert(magnitude(y) <= 1) by (nonlinear_arith)
            requires
                y * y <= 1,
        ;
        assert(magnitude(z) <= 1) by (nonlinear_arith)
            requires
                z * z <= 1,
        ;
        assert(magnitude(x) == 1 ==> x * x == 1) by (nonlinear_arith);
        assert(magnitude(y) == 1 ==> y * y == 1) by (nonlinear_arith);
        assert(magnitude(z) == 1 ==> z * z == 1) by (nonlinear_arith);
        assert(x == 0 ==> x * x == 0) by (nonlinear_arith);
        assert(y == 0 ==> y * y == 0) by (nonlinear_arith);
        assert(z == 0 ==> z * z == 0) by (nonlinear_arith);
    } else {
        let m = four_pow((k - 1) as nat);
        assert(four_pow(k) == 4 * m);
        assert(two_pow(k) == 2 * two_pow((k - 1) as nat));
        let a = lemma_square_mod_four(x);
        let b = lemma_square_mod_four(y);
        let c = lemma_square_mod_four(z);
        assert(x % 2 == 0 && y % 2 == 0 && z % 2 == 0);
        assert(a * a + b * b + c * c == m);
        lemma_three_squares(a, b, c, (k - 1) as nat);
    }
}

/// `4^24` is the square of `SCALE`, and `2^24` is `SCALE`.
pub proof fn lemma_scale_powers()
    ensures
        four_pow(24) == SCALE * SCALE,
        two_pow(24) == SCALE,
{
    reveal_with_fuel(four_pow, 25);
    reveal_with_fuel(two_pow, 25);
    assert(SCALE * SCALE == 0x1_0000_0000_0000) by (nonlinear_arith)
        requires
            SCALE == 0x100_0000,
    ;
}

/// Multiplying by one, by minus one or by zero is exact up to clamping.
pub proof fn lemma_times_unit(x: Fixed)
    ensures
        x.times(Fixed { raw: SCALE }) == x,
        (Fixed { raw: SCALE }).times(x) == x,
        x.times(Fixed { raw: (-SCALE) as i64 }) == x.negated(),
        (Fixed { raw: (-SCALE) as i64 }).times(x) == x.negated(),
        x.times(Fixed { raw: 0 })@ == 0,
        (Fixed { raw: 0 }).times(x)@ == 0,
{
    let s = SCALE as int;
    let m = magnitude(x@);
    vstd::arithmetic::div_mod::lemma_div_multiples_vanish(m, s);
    assert(x@ * s == s * x@ && s * m == m * s) by (nonlinear_arith);
    assert(x@ * (-s) == -(x@ * s) && (-s) * x@ == -(x@ * s)) by (nonlinear_arith);
    assert(magnitude(x@ * s) == s * m);
    assert(magnitude(-(x@ * s)) == s * m);
    assert(x@ * 0 == 0 && 0 * x@ == 0) by (nonlinear_arith);
}

/// Doubling is exact up to clamping.
pub proof fn lemma_times_two(x: Fixed)
    ensures
        Fixed::int_spec(2).times(x)@ == saturate(2 * x@),
{
    let s = SCALE as int;
    let m = magnitude(x@);
    vstd::arithmetic::div_mod::lemma_div_multiples_vanish(2 * m, s);
    assert(Fixed::int_spec(2)@ == 2 * s);
    assert((2 * s) * x@ == s * (2 * x@)) by (nonlinear_arith);
    assert(magnitude(s * (2 * x@)) == s * (2 * m));
}

/// Dividing by one is exact, and the square root of one is one.
pub proof fn lemma_over_one(x: Fixed)
    ensures
        x.over(Fixed { raw: SCALE }) == x,
        (Fixed { raw: SCALE }).sqrt_spec() == (Fixed { raw: SCALE }),
        (Fixed { raw: 0 }).sqrt_spec() == (Fixed { raw: 0 }),
{
    let s = SCALE as int;
    let m = magnitude(x@);
    vstd::arithmetic::div_mod::lemma_div_multiples_vanish(m, s);
    assert(x@ * s == s * x@ && s * m == m * s) by (nonlinear_arith);
    assert(magnitude(x@ * s) == s * m);
    assert(s * s == 0x1_0000_0000_0000 && (s + 1) * (s + 1) == 0x1_0000_0200_0001)
        by (nonlinear_arith)
        requires
            s == 0x100_0000,
    ;
    lemma_int_sqrt_unique((s * s) as nat, s as nat);
}

} // verus!
