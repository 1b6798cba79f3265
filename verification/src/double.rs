//! Double-precision numbers, held as their IEEE 754 bit patterns.
//!
//! Arithmetic on them is the caller's; what is decided here is how two of them
//! compare, against the numbers that the patterns stand for.

use vstd::arithmetic::mul::*;
use vstd::arithmetic::power2::*;
use vstd::prelude::*;

verus! {

/// One double-precision number.
#[derive(Debug, Clone, Copy, PartialEq, Eq, Structural)]
pub struct Double {
    /// The IEEE 754 `binary64` bit pattern.
    pub bits: u64,
}

/// The pattern of zero.
pub const ZERO: u64 = 0;

/// The pattern of one.
pub const ONE: u64 = 0x3ff0_0000_0000_0000;

/// The pattern of ninety, the largest latitude in degrees.
pub const NINETY: u64 = 0x4056_8000_0000_0000;

/// The pattern of a hundred and eighty, the largest longitude in degrees.
pub const HALF_TURN: u64 = 0x4066_8000_0000_0000;

/// The sign bit.
pub const SIGN: u64 = 0x8000_0000_0000_0000;

/// The pattern of positive infinity; larger magnitudes are not numbers.
pub const INFINITY: u64 = 0x7ff0_0000_0000_0000;

/// The number of bits in the fraction field, as a factor.
pub const FRACTION: u64 = 0x10_0000_0000_0000;

/// The size that a magnitude (a pattern without its sign) stands for, in units
/// of the smallest positive number, which is 2 to the power of -1074. Infinity
/// gets the size that the next exponent would have, above every finite one.
pub open spec fn size(magnitude: nat) -> nat {
    let exponent = magnitude / FRACTION as nat;
    let fraction = magnitude % FRACTION as nat;
    if exponent == 0 {
        fraction
    } else {
        (FRACTION as nat + fraction) * pow2((exponent - 1) as nat)
    }
}

/// `n` in units of the smallest positive number.
pub open spec fn units(n: nat) -> nat {
    n * pow2(1074)
}

/// The number with a given pattern.
#[verifier::allow_in_spec]
pub fn number(bits: u64) -> Double
    returns
        (Double { bits }),
{
    Double { bits }
}

impl Double {
    pub open spec fn negative(self) -> bool {
        self.bits >= SIGN
    }

    pub open spec fn magnitude(self) -> nat {
        if self.negative() {
            (self.bits - SIGN) as nat
        } else {
            self.bits as nat
        }
    }

    /// Whether the pattern stands for no number.
    pub open spec fn is_nan(self) -> bool {
        self.magnitude() > INFINITY
    }

    /// The number that the pattern stands for, in units of 2 to the power of
    /// -1074.
    pub open spec fn value(self) -> int {
        if self.negative() {
            -(size(self.magnitude()) as int)
        } else {
            size(self.magnitude()) as int
        }
    }

    /// `self < other`; no comparison with a non-number holds.
    pub open spec fn lt(self, other: Double) -> bool {
        !self.is_nan() && !other.is_nan() && self.value() < other.value()
    }

    /// `self <= other`; no comparison with a non-number holds.
    pub open spec fn le(self, other: Double) -> bool {
        !self.is_nan() && !other.is_nan() && self.value() <= other.value()
    }

    /// Neither infinite nor no number.
    pub open spec fn is_finite(self) -> bool {
        self.magnitude() < INFINITY
    }

    /// A number that is not negative.
    pub open spec fn at_least_zero(self) -> bool {
        !self.is_nan() && self.value() >= 0
    }

    /// The order key: the magnitude, with the sign applied.
    spec fn key(self) -> int {
        if self.negative() {
            -(self.magnitude() as int)
        } else {
            self.magnitude() as int
        }
    }

    fn order_key(self) -> (k: i64)
        ensures
            k == self.key(),
    {
        if self.bits >= SIGN {
            -((self.bits - SIGN) as i64)
        } else {
            self.bits as i64
        }
    }

    fn not_a_number(self) -> (b: bool)
        ensures
            b == self.is_nan(),
    {
        if self.bits >= SIGN {
            self.bits - SIGN > INFINITY
        } else {
            self.bits > INFINITY
        }
    }

    /// Whether this number is below another.
    pub fn less_than(self, other: Double) -> (b: bool)
        ensures
            b == self.lt(other),
    {
        proof {
            lemma_key_order(self, other);
        }
        !self.not_a_number() && !other.not_a_number() && self.order_key() < other.order_key()
    }

    /// Whether this number is at most another.
    pub fn at_most(self, other: Double) -> (b: bool)
        ensures
            b == self.le(other),
    {
        proof {
            lemma_key_order(other, self);
        }
        !self.not_a_number() && !other.not_a_number() && self.order_key() <= other.order_key()
    }
}

/// The size grows strictly with the magnitude.
proof fn lemma_size_step(m: nat)
    ensures
        size(m) < size(m + 1),
{
    let f = FRACTION as nat;
    let e = m / f;
    let r = m % f;
    assert(m == e * f + r) by (nonlinear_arith)
        requires
            e == m / f,
            r == m % f,
            f > 0,
    ;
    if r + 1 < f {
        assert((m + 1) / f == e && (m + 1) % f == r + 1) by (nonlinear_arith)
            requires
                m == e * f + r,
                0 <= r,
                r + 1 < f,
                e >= 0,
        ;
        if e > 0 {
            lemma_pow2_pos((e - 1) as nat);
            assert((f + r) * pow2((e - 1) as nat) < (f + r + 1) * pow2((e - 1) as nat))
                by (nonlinear_arith)
                requires
                    pow2((e - 1) as nat) > 0,
            ;
        }
    } else {
        assert((m + 1) / f == e + 1 && (m + 1) % f == 0) by (nonlinear_arith)
            requires
                m == e * f + r,
                r + 1 == f,
                e >= 0,
        ;
        if e == 0 {
            lemma2_to64();
        } else {
            lemma_pow2_pos((e - 1) as nat);
            lemma_pow2_unfold(e);
            assert((f + r) * pow2((e - 1) as nat) < f * (2 * pow2((e - 1) as nat)))
                by (nonlinear_arith)
                requires
                    pow2((e - 1) as nat) > 0,
                    r + 1 == f,
            ;
        }
    }
}

proof fn lemma_size_monotone(a: nat, b: nat)
    requires
        a < b,
    ensures
        size(a) < size(b),
    decreases b - a,
{
    lemma_size_step((b - 1) as nat);
    if a + 1 < b {
        lemma_size_monotone(a, (b - 1) as nat);
    }
}

/// Patterns are ordered as the numbers that they stand for.
proof fn lemma_key_order(a: Double, b: Double)
    ensures
        a.key() < b.key() <==> a.value() < b.value(),
{
    let (x, y) = (a.magnitude(), b.magnitude());
    if x < y {
        lemma_size_monotone(x, y);
    }
    if y < x {
        lemma_size_monotone(y, x);
    }
    assert(size(0) == 0);
    if x > 0 {
        lemma_size_monotone(0, x);
    }
    if y > 0 {
        lemma_size_monotone(0, y);
    }
}

/// Of two patterns without a sign, the larger stands for the larger number.
pub proof fn lemma_patterns(a: Double, b: Double)
    requires
        a.bits < b.bits <= INFINITY,
    ensures
        a.value() < b.value(),
        !a.is_nan(),
        !b.is_nan(),
{
    lemma_size_monotone(a.bits as nat, b.bits as nat);
}

/// The pattern whose exponent field is `e` and whose fraction field makes the
/// significand `n * 2^k` stands for the whole number `n`.
pub proof fn lemma_whole(magnitude: nat, e: nat, n: nat, k: nat)
    requires
        1 <= e,
        magnitude / FRACTION as nat == e,
        FRACTION + magnitude % FRACTION as nat == n * pow2(k),
        k + (e - 1) == 1074,
    ensures
        size(magnitude) == units(n),
{
    lemma_pow2_adds(k, (e - 1) as nat);
    lemma_mul_is_associative(n as int, pow2(k) as int, pow2((e - 1) as nat) as int);
}

/// What the named constants stand for.
pub proof fn lemma_constants()
    ensures
        number(ZERO).value() == 0,
        number(ONE).value() == units(1),
        number(NINETY).value() == units(90),
        number(HALF_TURN).value() == units(180),
        !number(ZERO).is_nan(),
        !number(ONE).is_nan(),
        !number(NINETY).is_nan(),
        !number(HALF_TURN).is_nan(),
{
    lemma2_to64();
    lemma2_to64_rest();
    lemma_whole(number(ONE).magnitude(), 1023, 1, 52);
    lemma_whole(number(NINETY).magnitude(), 1029, 90, 46);
    lemma_whole(number(HALF_TURN).magnitude(), 1030, 180, 45);
}

/// The pattern of five.
pub proof fn lemma_five(bits: u64)
    requires
        bits == 0x4014_0000_0000_0000,
    ensures
        number(bits).value() == units(5),
        !number(bits).is_nan(),
{
    lemma2_to64_rest();
    lemma_whole(number(bits).magnitude(), 1025, 5, 50);
}

/// Minus a number: the same pattern with the other sign.
pub fn negated(x: Double) -> (y: Double)
    ensures
        y.magnitude() == x.magnitude(),
        y.negative() != x.negative(),
        y.value() == -x.value(),
        y.is_nan() == x.is_nan(),
{
    if x.bits >= SIGN {
        Double { bits: x.bits - SIGN }
    } else {
        Double { bits: x.bits + SIGN }
    }
}

/// A latitude between -90 and 90 and a longitude between -180 and 180.
pub open spec fn on_globe(lat: Double, lon: Double) -> bool {
    &&& !lat.is_nan()
    &&& !lon.is_nan()
    &&& -(units(90) as int) <= lat.value() <= units(90)
    &&& -(units(180) as int) <= lon.value() <= units(180)
}

/// Whether a pair of degrees is a place on the globe.
pub fn is_on_globe(lat: Double, lon: Double) -> (b: bool)
    ensures
        b == on_globe(lat, lon),
{
    proof {
        lemma_constants();
    }
    let south = negated(number(NINETY));
    let west = negated(number(HALF_TURN));
    south.at_most(lat) && lat.at_most(number(NINETY)) && west.at_most(lon) && lon.at_most(
        number(HALF_TURN),
    )
}

/// How numbers compare: as the values of their patterns do, with nothing on
/// either side of a pattern that is no number. Infinity is a number above all
/// finite ones, and the patterns above it are none.
pub proof fn law_comparison(a: Double, b: Double)
    ensures
        a.lt(b) <==> a.magnitude() <= 0x7ff0_0000_0000_0000 && b.magnitude()
            <= 0x7ff0_0000_0000_0000 && a.value() < b.value(),
        a.le(b) <==> a.lt(b) || (a.magnitude() <= 0x7ff0_0000_0000_0000 && a.value() == b.value()
            && b.magnitude() <= 0x7ff0_0000_0000_0000),
        a.magnitude() == (if a.bits >= 0x8000_0000_0000_0000 {
            a.bits - 0x8000_0000_0000_0000
        } else {
            a.bits as int
        }),
        a.value() == (if a.bits >= 0x8000_0000_0000_0000 {
            -(size(a.magnitude()) as int)
        } else {
            size(a.magnitude()) as int
        }),
        a.magnitude() < 0x7ff0_0000_0000_0000 ==> a.lt(
            Double { bits: 0x7ff0_0000_0000_0000 },
        ),
{
    if a.magnitude() < 0x7ff0_0000_0000_0000 {
        lemma_size_monotone(a.magnitude(), 0x7ff0_0000_0000_0000);
    }
}

/// The size of a pattern is that of its significand and exponent: the 52 bits of
/// the fraction, with a one before them unless the exponent is zero, times two to
/// the power of the exponent.
pub proof fn law_size(exponent: nat, fraction: nat)
    requires
        fraction < 0x10_0000_0000_0000,
    ensures
        size(fraction) == fraction,
        exponent > 0 ==> size(exponent * 0x10_0000_0000_0000 + fraction) == (0x10_0000_0000_0000
            + fraction) * pow2((exponent - 1) as nat),
{
    let m = exponent * 0x10_0000_0000_0000 + fraction;
    assert(m / 0x10_0000_0000_0000 == exponent && m % 0x10_0000_0000_0000 == fraction)
        by (nonlinear_arith)
        requires
            m == exponent * 0x10_0000_0000_0000 + fraction,
            0 <= fraction < 0x10_0000_0000_0000,
            0 <= exponent,
    ;
}

/// A place is on the globe when its latitude is from -90 to 90 degrees and its
/// longitude from -180 to 180, the bounds included.
pub proof fn law_globe(lat: Double, lon: Double)
    ensures
        on_globe(lat, lon) <==> {
            &&& lat.magnitude() <= 0x7ff0_0000_0000_0000
            &&& lon.magnitude() <= 0x7ff0_0000_0000_0000
            &&& -90 * pow2(1074) <= lat.value() <= 90 * pow2(1074)
            &&& -180 * pow2(1074) <= lon.value() <= 180 * pow2(1074)
        },
{
}

}
