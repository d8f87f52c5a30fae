//! Binary64 numbers by their bit patterns.
//!
//! Costs cross the library's border as the 64 bits of an IEEE 754 double, and
//! the few operations that the cost model needs are carried out on those bits,
//! correctly rounded. A host turns its own doubles into bits and back.

use vstd::prelude::*;

use crate::rounding;

verus! {

/// The bit that marks a negative number.
pub const SIGN: u64 = 0x8000_0000_0000_0000;

/// One half.
pub const HALF_BITS: u64 = 0x3fe0_0000_0000_0000;

/// One.
pub const ONE_BITS: u64 = 0x3ff0_0000_0000_0000;

/// One and a half.
pub const ONE_AND_A_HALF_BITS: u64 = 0x3ff8_0000_0000_0000;

/// Two.
pub const TWO_BITS: u64 = 0x4000_0000_0000_0000;

/// An IEEE 754 binary64 number.
#[derive(Debug, Clone, Copy)]
pub struct Binary64 {
    /// The sign, exponent and fraction fields, from the highest bit down.
    pub bits: u64,
}

impl Binary64 {
    /// Whether the sign bit is set.
    pub open spec fn negative(self) -> bool {
        self.bits >= SIGN
    }

    /// The pattern below the sign bit.
    pub open spec fn magnitude(self) -> nat {
        if self.negative() {
            (self.bits - SIGN) as nat
        } else {
            self.bits as nat
        }
    }

    /// Whether this is not a number.
    pub open spec fn nan(self) -> bool {
        self.magnitude() > rounding::INFINITE
    }

    /// Whether this is one of the two infinities.
    pub open spec fn infinite(self) -> bool {
        self.magnitude() == rounding::INFINITE
    }

    /// Whether this is a number other than the infinities.
    pub open spec fn finite(self) -> bool {
        self.magnitude() < rounding::INFINITE
    }

    /// The number in units of 2^-1074. The infinities count as 2^1024 and its
    /// negation, which lie beyond every finite number.
    pub open spec fn units(self) -> int {
        if self.negative() {
            -(rounding::value(self.magnitude()) as int)
        } else {
            rounding::value(self.magnitude()) as int
        }
    }

    /// Positive zero.
    pub open spec fn nought() -> Binary64 {
        Binary64 { bits: 0 }
    }

    /// The number with the given sign and magnitude.
    pub open spec fn signed(negative: bool, magnitude: nat) -> Binary64 {
        Binary64 {
            bits: (magnitude + if negative {
                SIGN as nat
            } else {
                0
            }) as u64,
        }
    }

    /// The same number with the opposite sign.
    pub open spec fn negated(self) -> Binary64 {
        Binary64::signed(!self.negative(), self.magnitude())
    }

    /// Whether two operands have a sum: both are numbers, and not opposite
    /// infinities.
    pub open spec fn summable(self, other: Binary64) -> bool {
        &&& !self.nan() && !other.nan()
        &&& self.infinite() && other.infinite() ==> self.negative() == other.negative()
    }

    /// The correctly rounded sum of two operands that have one. An exact zero is
    /// negative only where both operands are. Of operands that have no sum, what
    /// stands here means nothing.
    pub open spec fn plus(self, other: Binary64) -> Binary64
        recommends
            self.summable(other),
    {
        let exact = self.units() + other.units();
        if self.infinite() {
            self
        } else if other.infinite() {
            other
        } else if exact > 0 {
            Binary64::signed(false, rounding::nearest(exact as nat, 1))
        } else if exact < 0 {
            Binary64::signed(true, rounding::nearest((-exact) as nat, 1))
        } else {
            Binary64::signed(self.negative() && other.negative(), 0)
        }
    }

    /// The correctly rounded product of a finite number with a whole number.
    pub open spec fn times(self, count: nat) -> Binary64
        recommends
            self.finite(),
    {
        Binary64::signed(
            self.negative(),
            rounding::nearest(count * rounding::value(self.magnitude()), 1),
        )
    }

    /// The correctly rounded quotient of two whole numbers, the second one not
    /// zero.
    pub open spec fn ratio(n: nat, d: nat) -> Binary64
        recommends
            d > 0,
    {
        Binary64::signed(
            false,
            rounding::nearest(n * vstd::arithmetic::power2::pow2(1074), d),
        )
    }

    /// Whether this number is less than the other. Nothing is less, or greater,
    /// than what is not a number.
    pub open spec fn below(self, other: Binary64) -> bool {
        !self.nan() && !other.nan() && self.units() < other.units()
    }

    /// Whether two numbers are equal. The two zeros are, and what is not a
    /// number equals nothing.
    pub open spec fn same(self, other: Binary64) -> bool {
        !self.nan() && !other.nan() && self.units() == other.units()
    }

    fn is_negative(self) -> (negative: bool)
        ensures
            negative == self.negative(),
    {
        self.bits >= SIGN
    }

    fn pattern(self) -> (pattern: u64)
        ensures
            pattern == self.magnitude(),
    {
        if self.bits >= SIGN {
            self.bits - SIGN
        } else {
            self.bits
        }
    }

    fn with_sign(negative: bool, pattern: u64) -> (number: Binary64)
        requires
            pattern < SIGN,
        ensures
            number == Binary64::signed(negative, pattern as nat),
            number.negative() == negative,
            number.magnitude() == pattern,
    {
        if negative {
            Binary64 { bits: pattern + SIGN }
        } else {
            Binary64 { bits: pattern }
        }
    }

    /// Whether this is a number other than the infinities.
    pub fn is_finite(self) -> (finite: bool)
        ensures
            finite == self.finite(),
    {
        self.pattern() < rounding::INFINITE
    }

    /// Whether this is a finite number that is not less than zero.
    pub fn is_finite_non_negative(self) -> (accepted: bool)
        ensures
            accepted == (self.finite() && self.units() >= 0),
    {
        proof {
            rounding::lemma_value_at_least(self.magnitude());
        }
        self.is_finite() && (!self.is_negative() || self.pattern() == 0)
    }

    /// The same number with the opposite sign.
    pub fn negation(self) -> (number: Binary64)
        ensures
            number == self.negated(),
            number.units() == -self.units(),
            number.magnitude() == self.magnitude(),
    {
        Binary64::with_sign(!self.is_negative(), self.pattern())
    }

    /// Whether this number is less than the other.
    pub fn is_less(self, other: Binary64) -> (less: bool)
        ensures
            less == self.below(other),
    {
        let a: u64 = self.pattern();
        let b: u64 = other.pattern();
        proof {
            rounding::lemma_value_at_least(a as nat);
            rounding::lemma_value_at_least(b as nat);
            if a < b {
                rounding::lemma_value_increases(a as nat, b as nat);
            } else if b < a {
                rounding::lemma_value_increases(b as nat, a as nat);
            }
        }
        if a > rounding::INFINITE || b > rounding::INFINITE {
            false
        } else if self.is_negative() {
            if other.is_negative() {
                b < a
            } else {
                a > 0 || b > 0
            }
        } else {
            !other.is_negative() && a < b
        }
    }

    /// The correctly rounded sum. Opposite infinities have none.
    pub fn sum(self, other: Binary64) -> (number: Binary64)
        requires
            self.summable(other),
        ensures
            number == self.plus(other),
            !number.nan(),
    {
        let a: u64 = self.pattern();
        let b: u64 = other.pattern();
        if a == rounding::INFINITE {
            return self;
        }
        if b == rounding::INFINITE {
            return other;
        }
        proof {
            rounding::lemma_value_at_least(a as nat);
            rounding::lemma_value_at_least(b as nat);
            if a < b {
                rounding::lemma_value_increases(a as nat, b as nat);
            } else if b < a {
                rounding::lemma_value_increases(b as nat, a as nat);
            }
            rounding::lemma_round_exact(0, 1);
        }
        if self.is_negative() == other.is_negative() {
            let pattern: u64 = if a >= b {
                rounding::add_patterns(a, b)
            } else {
                rounding::add_patterns(b, a)
            };
            Binary64::with_sign(self.is_negative(), pattern)
        } else if a > b {
            Binary64::with_sign(self.is_negative(), rounding::subtract_patterns(a, b))
        } else if b > a {
            Binary64::with_sign(other.is_negative(), rounding::subtract_patterns(b, a))
        } else {
            Binary64::with_sign(false, 0)
        }
    }

    /// The correctly rounded product with a count, which is first rounded to what
    /// a number holds.
    pub fn product(self, count: u64) -> (number: Binary64)
        requires
            self.finite(),
        ensures
            number == self.times(rounding::rounded(count as nat)),
            !number.nan(),
            self.units() >= 0 ==> number.units() >= 0,
    {
        proof {
            if self.units() >= 0 {
                lemma_product_not_negative(self, rounding::rounded(count as nat));
            }
        }
        Binary64::with_sign(
            self.is_negative(),
            rounding::multiply_pattern(count, self.pattern()),
        )
    }

    /// The correctly rounded quotient of a count, which is first rounded to what a
    /// number holds, and a divisor.
    pub fn quotient(n: u64, d: u32) -> (number: Binary64)
        requires
            d > 0,
        ensures
            number == Binary64::ratio(rounding::rounded(n as nat), d as nat),
            number.finite(),
            number.units() >= 0,
    {
        Binary64::with_sign(false, rounding::divide_pattern(n, d))
    }
}

/// A number that is not less than zero has products that are not.
pub proof fn lemma_product_not_negative(number: Binary64, count: nat)
    requires
        number.finite(),
        number.units() >= 0,
    ensures
        !number.times(count).nan(),
        number.times(count).units() >= 0,
{
    if number.negative() {
        assert(count * rounding::value(number.magnitude()) == 0) by (nonlinear_arith)
            requires
                rounding::value(number.magnitude()) == 0,
        ;
        rounding::lemma_round_exact(0, 1);
    }
}

/// The constants are the numbers that they are named after.
pub proof fn law_constants()
    ensures
        Binary64::nought().units() == 0,
        2 * (Binary64 { bits: HALF_BITS }).units() == vstd::arithmetic::power2::pow2(1074),
        (Binary64 { bits: ONE_BITS }).units() == vstd::arithmetic::power2::pow2(1074),
        2 * (Binary64 { bits: ONE_AND_A_HALF_BITS }).units() == 3
            * vstd::arithmetic::power2::pow2(1074),
        (Binary64 { bits: TWO_BITS }).units() == 2 * vstd::arithmetic::power2::pow2(1074),
{
    let half = vstd::arithmetic::power2::pow2(1073);
    vstd::arithmetic::power2::lemma2_to64();
    vstd::arithmetic::power2::lemma2_to64_rest();
    vstd::arithmetic::power2::lemma_pow2_unfold(1074);
    vstd::arithmetic::power2::lemma_pow2_adds(51, 1022);
    vstd::arithmetic::power2::lemma_pow2_adds(52, 1021);
    vstd::arithmetic::power2::lemma_pow2_adds(52, 1022);
    vstd::arithmetic::power2::lemma_pow2_adds(52, 1023);
    vstd::arithmetic::power2::lemma_pow2_unfold(1075);
    rounding::lemma_value_scaled(0x10_0000_0000_0000, 1021);
    rounding::lemma_value_scaled(0x10_0000_0000_0000, 1022);
    rounding::lemma_value_scaled(0x18_0000_0000_0000, 1022);
    rounding::lemma_value_scaled(0x10_0000_0000_0000, 1023);
}

/// Sums do not depend on the order of the operands.
pub proof fn lemma_sum_commutes(a: Binary64, b: Binary64)
    requires
        a.summable(b),
    ensures
        a.plus(b) == b.plus(a),
{
}

proof fn lemma_signed_monotone(a: nat, b: nat)
    requires
        a <= b,
    ensures
        rounding::nearest(a, 1) <= rounding::nearest(b, 1),
        rounding::value(rounding::nearest(a, 1)) <= rounding::value(rounding::nearest(b, 1)),
        rounding::value(rounding::nearest(b, 1)) <= rounding::value(rounding::INFINITE as nat),
{
    rounding::lemma_round_monotone(a, b, 1);
    if rounding::nearest(a, 1) < rounding::nearest(b, 1) {
        rounding::lemma_value_increases(rounding::nearest(a, 1), rounding::nearest(b, 1));
    }
    if rounding::nearest(b, 1) < rounding::INFINITE {
        rounding::lemma_value_increases(rounding::nearest(b, 1), rounding::INFINITE as nat);
    }
}

/// Adding the same number to two numbers keeps their order.
pub proof fn law_sum_keeps_order(a: Binary64, b: Binary64, c: Binary64)
    requires
        a.summable(c),
        b.summable(c),
        a.units() <= b.units(),
    ensures
        a.plus(c).units() <= b.plus(c).units(),
{
    rounding::lemma_value_at_least(a.magnitude());
    rounding::lemma_value_at_least(b.magnitude());
    if a.magnitude() < rounding::INFINITE {
        rounding::lemma_value_increases(a.magnitude(), rounding::INFINITE as nat);
    }
    if b.magnitude() < rounding::INFINITE {
        rounding::lemma_value_increases(b.magnitude(), rounding::INFINITE as nat);
    }
    let x = a.units() + c.units();
    let y = b.units() + c.units();
    lemma_signed_monotone(0, if x >= 0 { x as nat } else { (-x) as nat });
    lemma_signed_monotone(0, if y >= 0 { y as nat } else { (-y) as nat });
    if 0 <= x {
        lemma_signed_monotone(x as nat, y as nat);
    }
    if y <= 0 {
        lemma_signed_monotone((-y) as nat, (-x) as nat);
    }
}

impl PartialEq for Binary64 {
    fn eq(&self, other: &Binary64) -> (equal: bool) {
        let a: u64 = self.pattern();
        let b: u64 = other.pattern();
        proof {
            rounding::lemma_value_at_least(a as nat);
            rounding::lemma_value_at_least(b as nat);
            if a < b {
                rounding::lemma_value_increases(a as nat, b as nat);
            } else if b < a {
                rounding::lemma_value_increases(b as nat, a as nat);
            }
        }
        a <= rounding::INFINITE && a == b && (a == 0 || self.is_negative() == other.is_negative())
    }
}

impl vstd::std_specs::cmp::PartialEqSpecImpl for Binary64 {
    open spec fn obeys_eq_spec() -> bool {
        true
    }

    open spec fn eq_spec(&self, other: &Binary64) -> bool {
        self.same(*other)
    }
}

} // verus!
