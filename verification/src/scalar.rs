//! Single-precision numbers as bit patterns.
//!
//! The library stores, compares and orders numbers; it never computes with
//! them. A number is therefore its IEEE 754 bit pattern, and every comparison
//! is a comparison of integers.

use vstd::prelude::*;

verus! {

/// The smallest pattern with the sign bit set.
pub const SIGN: u32 = 0x8000_0000;

/// The pattern of positive infinity; larger magnitudes are NaNs.
pub const INFINITY: u32 = 0x7f80_0000;

/// An IEEE 754 single-precision number, held as its bit pattern. Two of them
/// compare as numbers: the zeros are equal, and a NaN equals nothing.
#[derive(Clone, Copy, Debug)]
pub struct Scalar {
    pub bits: u32,
}

impl PartialEq for Scalar {
    fn eq(&self, other: &Self) -> (same: bool) {
        self.equal(*other)
    }
}

impl vstd::std_specs::cmp::PartialEqSpecImpl for Scalar {
    open spec fn obeys_eq_spec() -> bool {
        true
    }

    open spec fn eq_spec(&self, other: &Self) -> bool {
        equal(*self, *other)
    }
}

/// The pattern without its sign bit.
pub open spec fn magnitude(x: Scalar) -> int {
    if x.bits >= SIGN {
        x.bits - SIGN
    } else {
        x.bits as int
    }
}

/// Whether `x` is not a number.
pub open spec fn is_nan(x: Scalar) -> bool {
    magnitude(x) > INFINITY
}

/// Whether `x` is neither infinite nor NaN.
pub open spec fn is_finite(x: Scalar) -> bool {
    magnitude(x) < INFINITY
}

/// The position of `x` among the numbers: both zeros stand at 0.
pub open spec fn position(x: Scalar) -> int {
    if x.bits >= SIGN {
        -magnitude(x)
    } else {
        magnitude(x)
    }
}

/// `x < y` as numbers: false as soon as one of them is a NaN.
pub open spec fn less(x: Scalar, y: Scalar) -> bool {
    !is_nan(x) && !is_nan(y) && position(x) < position(y)
}

/// `x <= y` as numbers: false as soon as one of them is a NaN.
pub open spec fn less_or_equal(x: Scalar, y: Scalar) -> bool {
    !is_nan(x) && !is_nan(y) && position(x) <= position(y)
}

/// `x == y` as numbers: the zeros are equal, a NaN equals nothing.
pub open spec fn equal(x: Scalar, y: Scalar) -> bool {
    !is_nan(x) && !is_nan(y) && position(x) == position(y)
}

/// Whether `x` and `y` are the same pattern, or NaNs both: what a NaN holds is
/// left open.
pub open spec fn same_value(x: Scalar, y: Scalar) -> bool {
    x == y || (is_nan(x) && is_nan(y))
}

/// The rank of `x` in the total order of all patterns: negative NaNs first,
/// then the numbers with -0 before +0, then positive NaNs.
pub open spec fn rank(x: Scalar) -> int {
    if x.bits >= SIGN {
        -magnitude(x) - 1
    } else {
        magnitude(x)
    }
}

impl Scalar {
    /// Positive zero.
    pub fn zero() -> (x: Self)
        ensures
            x.bits == 0,
    {
        Scalar { bits: 0 }
    }

    /// One.
    pub fn one() -> (x: Self)
        ensures
            x.bits == 0x3f80_0000,
    {
        Scalar { bits: 0x3f80_0000 }
    }

    fn magnitude_bits(self) -> (bits: u32)
        ensures
            bits == magnitude(self),
    {
        if self.bits >= SIGN {
            self.bits - SIGN
        } else {
            self.bits
        }
    }

    fn signed_position(self) -> (at: i64)
        ensures
            at == position(self),
    {
        let bits: i64 = self.magnitude_bits() as i64;
        if self.bits >= SIGN {
            -bits
        } else {
            bits
        }
    }

    /// Whether the number is NaN.
    pub fn is_nan(self) -> (nan: bool)
        ensures
            nan == is_nan(self),
    {
        self.magnitude_bits() > INFINITY
    }

    /// Whether the number is neither infinite nor NaN.
    pub fn is_finite(self) -> (finite: bool)
        ensures
            finite == is_finite(self),
    {
        self.magnitude_bits() < INFINITY
    }

    /// `self < other` as numbers.
    pub fn less(self, other: Self) -> (result: bool)
        ensures
            result == less(self, other),
    {
        !self.is_nan() && !other.is_nan() && self.signed_position() < other.signed_position()
    }

    /// `self <= other` as numbers.
    pub fn less_or_equal(self, other: Self) -> (result: bool)
        ensures
            result == less_or_equal(self, other),
    {
        !self.is_nan() && !other.is_nan() && self.signed_position() <= other.signed_position()
    }

    /// `self == other` as numbers.
    pub fn equal(self, other: Self) -> (result: bool)
        ensures
            result == equal(self, other),
    {
        !self.is_nan() && !other.is_nan() && self.signed_position() == other.signed_position()
    }

    /// The rank of the pattern in the total order.
    pub fn total_rank(self) -> (at: i64)
        ensures
            at == rank(self),
    {
        let bits: i64 = self.magnitude_bits() as i64;
        if self.bits >= SIGN {
            -bits - 1
        } else {
            bits
        }
    }

    /// `self` if it is finite, else `fallback`.
    pub fn finite_or(self, fallback: Self) -> (x: Self)
        ensures
            x == (if is_finite(self) { self } else { fallback }),
    {
        if self.is_finite() {
            self
        } else {
            fallback
        }
    }
}

/// `x` held between `low` and `high`.
pub open spec fn clamped_scalar(x: Scalar, low: Scalar, high: Scalar) -> Scalar {
    if less(x, low) {
        low
    } else if less(high, x) {
        high
    } else {
        x
    }
}

impl Scalar {
    /// The number held between `low` and `high`; a NaN stays.
    pub fn clamp(self, low: Self, high: Self) -> (x: Self)
        requires
            less_or_equal(low, high),
        ensures
            x == clamped_scalar(self, low, high),
    {
        if self.less(low) {
            low
        } else if high.less(self) {
            high
        } else {
            self
        }
    }
}

/// Two to the power of `exponent`.
pub open spec fn two_to(exponent: nat) -> int
    decreases exponent,
{
    if exponent == 0 {
        1
    } else {
        2 * two_to((exponent - 1) as nat)
    }
}

/// The exponent of the largest power of two that is not above `n`.
pub open spec fn exponent_of(n: nat) -> nat
    decreases n,
{
    if n < 2 {
        0
    } else {
        1 + exponent_of(n / 2)
    }
}

/// `n / unit` rounded to the nearest whole number, halves to the even one.
pub open spec fn rounded(n: int, unit: int) -> int {
    let whole = n / unit;
    let rest = n % unit;
    if 2 * rest > unit || (2 * rest == unit && whole % 2 == 1) {
        whole + 1
    } else {
        whole
    }
}

/// The pattern of the number nearest to `n`: the biased exponent and the
/// twenty-four leading digits, the first of which adds one to the exponent.
pub open spec fn whole_bits(n: nat) -> int {
    let exponent = exponent_of(n);
    if n == 0 {
        0
    } else if exponent <= 23 {
        (126 + exponent) * 0x80_0000 + n * two_to((23 - exponent) as nat)
    } else {
        (126 + exponent) * 0x80_0000 + rounded(n as int, two_to((exponent - 23) as nat))
    }
}

proof fn two_to_adds(a: nat, b: nat)
    ensures
        two_to(a + b) == two_to(a) * two_to(b),
        0 < two_to(a),
    decreases a,
{
    if a > 0 {
        two_to_adds((a - 1) as nat, b);
        assert(2 * (two_to((a - 1) as nat) * two_to(b)) == (2 * two_to((a - 1) as nat)) * two_to(b))
            by (nonlinear_arith);
    }
}

proof fn two_to_twenty_three()
    ensures
        two_to(23) == 0x80_0000,
{
    reveal_with_fuel(two_to, 24);
}

impl Scalar {
    /// The number nearest to `n`.
    pub fn from_whole(n: u32) -> (x: Self)
        ensures
            x.bits == whole_bits(n as nat),
    {
        if n == 0 {
            return Scalar { bits: 0 };
        }
        let value: u64 = n as u64;
        let mut rest: u64 = value;
        let mut power: u64 = 1;
        let mut exponent: u32 = 0;
        while rest >= 2
            invariant
                0 < value <= u32::MAX,
                0 < rest <= u32::MAX,
                0 < power,
                rest * power <= value,
                value < (rest + 1) * power,
                exponent + exponent_of(rest as nat) == exponent_of(value as nat),
                power == two_to(exponent as nat),
            decreases rest,
        {
            let half: u64 = rest / 2;
            assert(power <= value) by (nonlinear_arith)
                requires
                    rest * power <= value,
                    1 <= rest,
                    0 < power,
            ;
            assert(half * (2 * power) <= rest * power && (rest + 1) * power <= (half + 1) * (2
                * power)) by (nonlinear_arith)
                requires
                    half == rest / 2,
                    0 < power,
            ;
            proof {
                exponent_is_small(value as nat, exponent as nat, power as int);
            }
            power = 2 * power;
            rest = half;
            exponent += 1;
        }
        assert(power <= value < 2 * power) by (nonlinear_arith)
            requires
                rest * power <= value,
                value < (rest + 1) * power,
                rest == 1,
        ;
        proof {
            exponent_is_small(value as nat, exponent as nat, power as int);
            two_to_twenty_three();
        }
        if exponent <= 23 {
            proof {
                two_to_adds(exponent as nat, (23 - exponent) as nat);
                two_to_adds((23 - exponent) as nat, exponent as nat);
            }
            let ghost scale_spec = two_to((23 - exponent) as nat);
            assert(0x80_0000int / power as int == scale_spec) by (nonlinear_arith)
                requires
                    0x80_0000 == power * scale_spec,
                    0 < power,
            ;
            let scale: u64 = 0x80_0000 / power;
            assert(value * scale < 2 * 0x80_0000) by (nonlinear_arith)
                requires
                    value < 2 * power,
                    power * scale == 0x80_0000,
                    0 < power,
                    0 < scale,
            ;
            Scalar { bits: (126 + exponent) * 0x80_0000 + (value * scale) as u32 }
        } else {
            proof {
                two_to_adds((exponent - 23) as nat, 23);
            }
            let ghost unit_spec = two_to((exponent - 23) as nat);
            assert(power as int / 0x80_0000int == unit_spec) by (nonlinear_arith)
                requires
                    power == unit_spec * 0x80_0000,
            ;
            let unit: u64 = power / 0x80_0000;
            assert(value / unit <= 2 * 0x80_0000) by (nonlinear_arith)
                requires
                    value < 2 * power,
                    power == unit * 0x80_0000,
                    0 < unit,
            ;
            let whole: u64 = value / unit;
            let remainder: u64 = value % unit;
            assert(remainder < unit) by (nonlinear_arith)
                requires
                    0 < unit,
                    remainder == value % unit,
            ;
            assert(unit <= power) by (nonlinear_arith)
                requires
                    power == unit * 0x80_0000,
                    0 < unit,
            ;
            let mantissa: u64 = if 2 * remainder > unit || (2 * remainder == unit && whole % 2
                == 1) {
                whole + 1
            } else {
                whole
            };
            Scalar { bits: (126 + exponent) * 0x80_0000 + mantissa as u32 }
        }
    }
}

proof fn exponent_is_small(n: nat, exponent: nat, power: int)
    requires
        n <= u32::MAX,
        power == two_to(exponent),
        power <= n,
    ensures
        exponent <= 31,
        power <= 0x8000_0000,
{
    assert(two_to(32) == 0x1_0000_0000) by {
        reveal_with_fuel(two_to, 33);
    }
    assert(two_to(31) == 0x8000_0000) by {
        reveal_with_fuel(two_to, 32);
    }
    if exponent > 31 {
        two_to_adds(32, (exponent - 32) as nat);
        two_to_adds((exponent - 32) as nat, 0);
        assert(0x1_0000_0000 <= power) by (nonlinear_arith)
            requires
                power == 0x1_0000_0000 * two_to((exponent - 32) as nat),
                0 < two_to((exponent - 32) as nat),
        ;
    } else {
        two_to_adds(exponent, (31 - exponent) as nat);
        two_to_adds((31 - exponent) as nat, 0);
        assert(power <= 0x8000_0000) by (nonlinear_arith)
            requires
                0x8000_0000 == power * two_to((31 - exponent) as nat),
                0 < two_to((31 - exponent) as nat),
                0 < power,
        ;
    }
}

/// The total order is total and antisymmetric: distinct patterns have distinct
/// ranks.
pub proof fn ranks_are_distinct(x: Scalar, y: Scalar)
    requires
        rank(x) == rank(y),
    ensures
        x == y,
{
}

/// The total order extends the order of the numbers.
pub proof fn rank_extends_less(x: Scalar, y: Scalar)
    requires
        less(x, y),
    ensures
        rank(x) < rank(y),
{
}

/// Numbers are ordered: of two that are not NaNs one is below the other or they
/// are equal, and a NaN is neither below nor equal to anything.
pub proof fn numbers_are_ordered(x: Scalar, y: Scalar, z: Scalar)
    ensures
        !is_nan(x) && !is_nan(y) ==> less(x, y) || less(y, x) || equal(x, y),
        !(less(x, y) && less(y, x)) && !(less(x, y) && equal(x, y)),
        less(x, y) && less(y, z) ==> less(x, z),
        less_or_equal(x, y) <==> less(x, y) || equal(x, y),
        is_nan(x) || is_nan(y) ==> !less(x, y) && !less_or_equal(x, y) && !equal(x, y),
{
}

/// Positive numbers are ordered as their patterns, negative ones the other way
/// round and below them; both zeros are equal, and infinity bounds the finite
/// numbers.
pub proof fn patterns_order_the_numbers(x: Scalar, y: Scalar)
    ensures
        x.bits < y.bits <= 0x7f80_0000 ==> less(x, y),
        0x8000_0000 <= x.bits < y.bits <= 0xff80_0000 ==> less(y, x),
        0x8000_0000 < x.bits <= 0xff80_0000 && y.bits <= 0x7f80_0000 ==> less(x, y),
        x.bits == 0x8000_0000 && y.bits == 0 ==> equal(x, y),
        is_nan(x) <==> 0x7f80_0000 < x.bits < 0x8000_0000 || 0xff80_0000 < x.bits,
        is_finite(x) <==> x.bits < 0x7f80_0000 || 0x8000_0000 <= x.bits < 0xff80_0000,
{
}

/// A number is brought into a range: it lies within it, and stays where it lies
/// in it already.
pub proof fn clamped_numbers_lie_in_the_range(x: Scalar, low: Scalar, high: Scalar)
    requires
        less_or_equal(low, high),
    ensures
        !is_nan(x) ==> less_or_equal(low, clamped_scalar(x, low, high)) && less_or_equal(
            clamped_scalar(x, low, high),
            high,
        ),
        less_or_equal(low, x) && less_or_equal(x, high) ==> clamped_scalar(x, low, high) == x,
        less(x, low) ==> clamped_scalar(x, low, high) == low,
        less(high, x) ==> clamped_scalar(x, low, high) == high,
        is_nan(x) ==> clamped_scalar(x, low, high) == x,
{
}

proof fn exponents_are_powers(n: nat, e: nat)
    requires
        two_to(e) <= n < 2 * two_to(e),
    ensures
        exponent_of(n) == e,
    decreases e,
{
    two_to_adds(e, 0);
    if e > 0 {
        exponents_are_powers(n / 2, (e - 1) as nat);
    }
}

/// The pattern of a whole number of at most 24 binary digits holds its exponent
/// and the digits behind the first; that of zero is zero.
pub proof fn whole_numbers_are_exact(n: nat, e: nat)
    requires
        e <= 23,
        two_to(e) <= n < 2 * two_to(e),
    ensures
        whole_bits(n) == (127 + e) * 0x80_0000 + (n - two_to(e)) * two_to((23 - e) as nat),
        whole_bits(0) == 0,
{
    exponents_are_powers(n, e);
    two_to_adds(e, (23 - e) as nat);
    two_to_twenty_three();
    let unit = two_to((23 - e) as nat);
    let first = two_to(e);
    assert(n * unit == first * unit + (n - first) * unit) by (nonlinear_arith);
}

} // verus!
