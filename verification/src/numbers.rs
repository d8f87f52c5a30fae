//! What the arithmetic of binary64 numbers comes to.

use vstd::prelude::*;

use crate::binary64::Binary64;
use crate::rounding;

verus! {

/// What the three fields of a number stand for. The infinities count as 2^1024.
pub proof fn law_fields_of_a_number(sign: bool, exponent: nat, fraction: nat)
    requires
        exponent < 0x800,
        fraction < 0x10_0000_0000_0000,
    ensures
        ({
            let raised = if sign {
                0x8000_0000_0000_0000nat
            } else {
                0
            };
            let number = Binary64 {
                bits: (raised + exponent * 0x10_0000_0000_0000 + fraction) as u64,
            };
            let size = if exponent == 0 {
                fraction
            } else {
                (0x10_0000_0000_0000 + fraction) * vstd::arithmetic::power2::pow2(
                    (exponent - 1) as nat,
                )
            };
            &&& number.negative() == sign
            &&& number.nan() <==> exponent == 0x7ff && fraction != 0
            &&& number.infinite() <==> exponent == 0x7ff && fraction == 0
            &&& number.finite() <==> exponent < 0x7ff
            &&& number.units() == (if sign {
                -(size as int)
            } else {
                size as int
            })
        }),
{
    if exponent > 0 {
        rounding::lemma_value_scaled(
            0x10_0000_0000_0000 + fraction,
            (exponent - 1) as nat,
        );
        assert(0x10_0000_0000_0000 + fraction + (exponent - 1) * 0x10_0000_0000_0000 == exponent
            * 0x10_0000_0000_0000 + fraction);
    }
}

/// Of two numbers, either one is less than the other, or the other is, or they
/// are equal, as their sizes say. What is not a number compares with nothing.
pub proof fn law_numbers_are_ordered(a: Binary64, b: Binary64)
    ensures
        a.nan() || b.nan() ==> !a.below(b) && !b.below(a) && !a.same(b),
        !a.nan() && !b.nan() ==> {
            &&& a.below(b) <==> a.units() < b.units()
            &&& a.same(b) <==> a.units() == b.units()
            &&& a.same(b) || a.below(b) || b.below(a)
        },
{
}

/// Numbers of the same size have the same bits, but for the two zeros.
pub proof fn law_same_size_same_bits(a: Binary64, b: Binary64)
    requires
        a.units() == b.units(),
    ensures
        a.bits == b.bits || (a.magnitude() == 0 && b.magnitude() == 0),
{
    let p = a.magnitude();
    let q = b.magnitude();
    rounding::lemma_value_at_least(p);
    rounding::lemma_value_at_least(q);
    if p < q {
        rounding::lemma_value_increases(p, q);
    } else if q < p {
        rounding::lemma_value_increases(q, p);
    }
}

/// No pattern up to infinity is nearer to `n / d` units than the one that it is
/// rounded to.
proof fn lemma_nearest_up_to_infinity(n: nat, d: nat, pattern: nat)
    requires
        d > 0,
        pattern <= rounding::INFINITE,
    ensures
        rounding::gap((rounding::value(rounding::nearest(n, d)) * d) as int, n as int)
            <= rounding::gap((rounding::value(pattern) * d) as int, n as int),
        pattern != rounding::nearest(n, d) && rounding::gap(
            (rounding::value(rounding::nearest(n, d)) * d) as int,
            n as int,
        ) == rounding::gap((rounding::value(pattern) * d) as int, n as int)
            ==> rounding::nearest(n, d) % 2 == 0,
{
    let top = rounding::INFINITE as nat;
    rounding::law_round_is_nearest(n, d, pattern);
    rounding::law_round_is_nearest(n, d, top);
    if rounding::round(n, d) > top {
        let low = rounding::value(pattern);
        let limit = rounding::value(top);
        let high = rounding::value(rounding::round(n, d));
        rounding::lemma_value_increases(top, rounding::round(n, d));
        assert(limit * d < high * d) by (nonlinear_arith)
            requires
                limit < high,
                d > 0,
        ;
        if pattern < top {
            rounding::lemma_value_increases(pattern, top);
            assert(low * d < limit * d) by (nonlinear_arith)
                requires
                    low < limit,
                    d > 0,
            ;
        }
    }
}

/// The same with signs: a rounded size, given the sign of what was rounded, is
/// nearer to it than any number.
proof fn lemma_nearest_signed(exact: int, d: nat, negative: bool, c: Binary64)
    requires
        d > 0,
        !c.nan(),
        exact > 0 ==> !negative,
        exact < 0 ==> negative,
    ensures
        ({
            let n = if exact < 0 {
                (-exact) as nat
            } else {
                exact as nat
            };
            let r = Binary64::signed(negative, rounding::nearest(n, d));
            &&& !r.nan()
            &&& r.negative() == negative
            &&& r.magnitude() == rounding::nearest(n, d)
            &&& rounding::gap(r.units() * d, exact) <= rounding::gap(c.units() * d, exact)
            &&& r.units() != c.units() && rounding::gap(r.units() * d, exact) == rounding::gap(
                c.units() * d,
                exact,
            ) ==> r.magnitude() % 2 == 0
        }),
{
    let n = if exact < 0 {
        (-exact) as nat
    } else {
        exact as nat
    };
    let r = Binary64::signed(negative, rounding::nearest(n, d));
    let size = rounding::value(c.magnitude());
    let rsize = rounding::value(r.magnitude());
    lemma_nearest_up_to_infinity(n, d, c.magnitude());
    lemma_nearest_up_to_infinity(n, d, 0);
    assert(rounding::value(0) * d == 0) by (nonlinear_arith)
        requires
            rounding::value(0) == 0,
    ;
    assert((-(size as int)) * d == -(size * d)) by (nonlinear_arith);
    assert((-(rsize as int)) * d == -(rsize * d)) by (nonlinear_arith);
    assert(size * d >= 0 && rsize * d >= 0) by (nonlinear_arith);
    if size > 0 {
        assert(size * d > 0) by (nonlinear_arith)
            requires
                size > 0,
                d > 0,
        ;
    }
    if exact == 0 {
        rounding::lemma_round_exact(0, d);
        assert(rounding::value(0) * d == 0);
    }
}

/// A sum is the number nearest to the exact sum, and of two that are equally
/// near the one with the even pattern. An exact zero is positive unless both
/// operands are negative.
pub proof fn law_sum_is_nearest(a: Binary64, b: Binary64, c: Binary64)
    requires
        a.finite(),
        b.finite(),
        !c.nan(),
    ensures
        !a.plus(b).nan(),
        rounding::gap(a.plus(b).units(), a.units() + b.units()) <= rounding::gap(
            c.units(),
            a.units() + b.units(),
        ),
        a.plus(b).units() != c.units() && rounding::gap(
            a.plus(b).units(),
            a.units() + b.units(),
        ) == rounding::gap(c.units(), a.units() + b.units()) ==> a.plus(b).magnitude() % 2 == 0,
        a.units() + b.units() > 0 ==> !a.plus(b).negative(),
        a.units() + b.units() < 0 ==> a.plus(b).negative(),
        a.units() + b.units() == 0 ==> a.plus(b).negative() == (a.negative() && b.negative()),
{
    let exact = a.units() + b.units();
    let negative = exact < 0 || (exact == 0 && a.negative() && b.negative());
    lemma_nearest_signed(exact, 1, negative, c);
    rounding::lemma_round_exact(0, 1);
}

/// A sum with an infinity is that infinity.
pub proof fn law_sum_with_infinity(a: Binary64, b: Binary64)
    requires
        a.summable(b),
        a.infinite() || b.infinite(),
    ensures
        a.infinite() ==> a.plus(b).bits == a.bits,
        b.infinite() ==> a.plus(b).bits == b.bits,
{
}

/// A product with a whole number is the number nearest to the exact product,
/// ties to the even pattern, and keeps the sign.
pub proof fn law_product_is_nearest(a: Binary64, count: nat, c: Binary64)
    requires
        a.finite(),
        !c.nan(),
    ensures
        !a.times(count).nan(),
        a.times(count).negative() == a.negative(),
        rounding::gap(a.times(count).units(), a.units() * count) <= rounding::gap(
            c.units(),
            a.units() * count,
        ),
        a.times(count).units() != c.units() && rounding::gap(
            a.times(count).units(),
            a.units() * count,
        ) == rounding::gap(c.units(), a.units() * count) ==> a.times(count).magnitude() % 2 == 0,
{
    let size = rounding::value(a.magnitude());
    assert(size * count == count * size && (-(size as int)) * count == -(count * size))
        by (nonlinear_arith);
    assert(count * size >= 0) by (nonlinear_arith);
    lemma_nearest_signed(a.units() * count, 1, a.negative(), c);
}

/// A quotient of whole numbers is the number nearest to the exact quotient, ties
/// to the even pattern.
pub proof fn law_quotient_is_nearest(n: nat, d: nat, c: Binary64)
    requires
        d > 0,
        !c.nan(),
    ensures
        ({
            let one = vstd::arithmetic::power2::pow2(1074);
            let r = Binary64::ratio(n, d);
            &&& !r.nan()
            &&& !r.negative()
            &&& rounding::gap(r.units() * d, (n * one) as int) <= rounding::gap(
                c.units() * d,
                (n * one) as int,
            )
            &&& r.units() != c.units() && rounding::gap(r.units() * d, (n * one) as int)
                == rounding::gap(c.units() * d, (n * one) as int) ==> r.magnitude() % 2 == 0
        }),
{
    lemma_nearest_signed((n * vstd::arithmetic::power2::pow2(1074)) as int, d, false, c);
}

/// A count is held as the nearest whole number that 53 significant bits hold:
/// exactly below 2^53, and else no multiple of a power of two by such a number
/// is nearer.
pub proof fn law_count_is_held(n: nat, m: nat, e: nat)
    requires
        m < 0x20_0000_0000_0000,
    ensures
        n < 0x20_0000_0000_0000 ==> rounding::rounded(n) == n,
        rounding::gap(rounding::rounded(n) as int, n as int) <= rounding::gap(
            (m * vstd::arithmetic::power2::pow2(e)) as int,
            n as int,
        ),
{
    if n < 0x20_0000_0000_0000 {
        rounding::lemma_rounded_exact(n);
    }
    let pattern = rounding::lemma_on_grid(m, e);
    rounding::law_round_is_nearest(n, 1, pattern);
}

} // verus!
