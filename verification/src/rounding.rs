//! Rounding to the binary64 grid.
//!
//! A finite, non-negative binary64 number is a whole multiple of 2^-1074, and
//! its bit pattern counts the numbers below it. Both directions of that
//! correspondence, and rounding to the nearest number with ties to the even
//! pattern, have short definitions over natural numbers. This module holds
//! them, the laws that they obey, and the integer code that computes them.

use vstd::prelude::*;

verus! {

/// How many patterns share one spacing: 2^52.
pub const BINADE: u64 = 0x10_0000_0000_0000;

/// The pattern of positive infinity: the first one past the finite numbers.
pub const INFINITE: u64 = 0x7ff0_0000_0000_0000;

/// The number that `pattern` stands for, in units of 2^-1074.
///
/// The first two binades have spacing one. In each later binade the spacing is
/// twice that of the binade below it.
pub open spec fn value(pattern: nat) -> nat
    decreases pattern,
{
    if pattern < 0x20_0000_0000_0000 {
        pattern
    } else {
        2 * value((pattern - 0x10_0000_0000_0000) as nat)
    }
}

/// The quotient `n / d` rounded to a whole number, ties to even.
pub open spec fn half_even(n: nat, d: nat) -> nat {
    let q = n / d;
    let r = n % d;
    if 2 * r > d || (2 * r == d && q % 2 == 1) {
        q + 1
    } else {
        q
    }
}

/// The pattern of the number nearest to `n / d` units, ties to the even
/// pattern, were the range of exponents unbounded.
///
/// While the quotient lies beyond the first two binades, it is measured in
/// twice the spacing, one binade higher up.
pub open spec fn round(n: nat, d: nat) -> nat
    decreases n - d,
{
    if d == 0 {
        0
    } else if n < 0x20_0000_0000_0000 * d {
        half_even(n, d)
    } else {
        0x10_0000_0000_0000 + round(n, 2 * d)
    }
}

/// The pattern of `n / d` units in binary64: what rounds past the largest
/// finite number is infinite.
pub open spec fn nearest(n: nat, d: nat) -> nat {
    if round(n, d) < INFINITE {
        round(n, d)
    } else {
        INFINITE as nat
    }
}

pub proof fn lemma_value_at_least(pattern: nat)
    ensures
        value(pattern) >= pattern,
    decreases pattern,
{
    if pattern >= 0x20_0000_0000_0000 {
        lemma_value_at_least((pattern - 0x10_0000_0000_0000) as nat);
    }
}

/// A larger pattern stands for a larger number.
pub proof fn lemma_value_increases(p: nat, q: nat)
    requires
        p < q,
    ensures
        value(p) < value(q),
    decreases p,
{
    lemma_value_at_least(q);
    if p >= 0x20_0000_0000_0000 {
        lemma_value_increases((p - 0x10_0000_0000_0000) as nat, (q - 0x10_0000_0000_0000) as nat);
    }
}

proof fn lemma_half_even(n: nat, d: nat)
    requires
        d > 0,
    ensures
        n == (n / d) * d + n % d,
        n % d < d,
        half_even(n, d) == n / d || half_even(n, d) == n / d + 1,
{
    vstd::arithmetic::div_mod::lemma_fundamental_div_mod(n as int, d as int);
    assert((n / d) * d == d * (n / d)) by (nonlinear_arith);
    vstd::arithmetic::div_mod::lemma_mod_bound(n as int, d as int);
}

proof fn lemma_half_even_doubled(n: nat, d: nat)
    requires
        d > 0,
    ensures
        half_even(2 * n, 2 * d) == half_even(n, d),
{
    lemma_half_even(n, d);
    let q = (n / d) as int;
    let r = (n % d) as int;
    assert(2 * n == q * (2 * d) + 2 * r) by (nonlinear_arith)
        requires
            n == q * d + r,
    ;
    vstd::arithmetic::div_mod::lemma_fundamental_div_mod_converse(
        2 * n as int,
        2 * d as int,
        q,
        2 * r,
    );
}

/// Only the ratio matters.
pub proof fn lemma_round_doubled(n: nat, d: nat)
    requires
        d > 0,
    ensures
        round(2 * n, 2 * d) == round(n, d),
    decreases n - d,
{
    if n < 0x20_0000_0000_0000 * d {
        lemma_half_even_doubled(n, d);
    } else {
        lemma_round_doubled(n, 2 * d);
    }
}

/// From the second binade on, doubling a number moves its pattern up by one
/// binade.
pub proof fn lemma_round_scaled(n: nat, d: nat, e: nat)
    requires
        d > 0,
        n >= 0x10_0000_0000_0000 * d,
    ensures
        round(n * vstd::arithmetic::power2::pow2(e), d) == e * 0x10_0000_0000_0000 + round(n, d),
    decreases e,
{
    if e == 0 {
        vstd::arithmetic::power2::lemma2_to64();
    } else {
        let h = (e - 1) as nat;
        let low = n * vstd::arithmetic::power2::pow2(h);
        vstd::arithmetic::power2::lemma_pow2_unfold(e);
        vstd::arithmetic::power2::lemma_pow2_pos(h);
        assert(n * vstd::arithmetic::power2::pow2(e) == 2 * low) by (nonlinear_arith)
            requires
                vstd::arithmetic::power2::pow2(e) == 2 * vstd::arithmetic::power2::pow2(h),
                low == n * vstd::arithmetic::power2::pow2(h),
        ;
        assert(low >= n) by (nonlinear_arith)
            requires
                vstd::arithmetic::power2::pow2(h) >= 1,
                low == n * vstd::arithmetic::power2::pow2(h),
        ;
        lemma_round_scaled(n, d, h);
        lemma_round_doubled(low, d);
        assert(round(2 * low, d) == 0x10_0000_0000_0000 + round(2 * low, 2 * d));
    }
}

/// The number with significand `m` and `e` doublings of the spacing.
pub proof fn lemma_value_scaled(m: nat, e: nat)
    requires
        m < 0x20_0000_0000_0000,
        e == 0 || m >= 0x10_0000_0000_0000,
    ensures
        value(m + e * 0x10_0000_0000_0000) == m * vstd::arithmetic::power2::pow2(e),
    decreases e,
{
    if e == 0 {
        vstd::arithmetic::power2::lemma2_to64();
    } else {
        let h = (e - 1) as nat;
        vstd::arithmetic::power2::lemma_pow2_unfold(e);
        assert(m * vstd::arithmetic::power2::pow2(e) == 2 * (m
            * vstd::arithmetic::power2::pow2(h))) by (nonlinear_arith)
            requires
                vstd::arithmetic::power2::pow2(e) == 2 * vstd::arithmetic::power2::pow2(h),
        ;
        lemma_value_scaled(m, h);
        assert((m + e * 0x10_0000_0000_0000 - 0x10_0000_0000_0000) as nat == m + h * 0x10_0000_0000_0000);
    }
}

/// A number on the grid rounds to itself.
pub proof fn lemma_round_exact(pattern: nat, d: nat)
    requires
        d > 0,
    ensures
        round(value(pattern) * d, d) == pattern,
    decreases pattern,
{
    let n = value(pattern) * d;
    if pattern < 0x20_0000_0000_0000 {
        assert(n < 0x20_0000_0000_0000 * d) by (nonlinear_arith)
            requires
                n == pattern * d,
                pattern < 0x20_0000_0000_0000,
                d > 0,
        ;
        vstd::arithmetic::div_mod::lemma_fundamental_div_mod_converse(
            n as int,
            d as int,
            pattern as int,
            0,
        );
    } else {
        let p = (pattern - 0x10_0000_0000_0000) as nat;
        lemma_value_at_least(p);
        assert(n == value(p) * (2 * d)) by (nonlinear_arith)
            requires
                n == 2 * value(p) * d,
        ;
        assert(n >= 0x20_0000_0000_0000 * d) by (nonlinear_arith)
            requires
                n == value(p) * (2 * d),
                value(p) >= 0x10_0000_0000_0000,
                d > 0,
        ;
        lemma_round_exact(p, 2 * d);
    }
}

proof fn lemma_half_even_monotone(a: nat, b: nat, d: nat)
    requires
        d > 0,
        a <= b,
    ensures
        half_even(a, d) <= half_even(b, d),
{
    lemma_half_even(a, d);
    lemma_half_even(b, d);
    vstd::arithmetic::div_mod::lemma_div_is_ordered(a as int, b as int, d as int);
}

proof fn lemma_half_even_between(n: nat, d: nat, low: nat, high: nat)
    requires
        d > 0,
        low * d <= n <= high * d,
    ensures
        low <= half_even(n, d) <= high,
{
    vstd::arithmetic::div_mod::lemma_fundamental_div_mod_converse(
        (low * d) as int,
        d as int,
        low as int,
        0,
    );
    vstd::arithmetic::div_mod::lemma_fundamental_div_mod_converse(
        (high * d) as int,
        d as int,
        high as int,
        0,
    );
    lemma_half_even_monotone(low * d, n, d);
    lemma_half_even_monotone(n, high * d, d);
}

/// What lies at or above the second binade rounds to a pattern there.
pub proof fn lemma_round_at_least(n: nat, d: nat)
    requires
        d > 0,
        n >= 0x10_0000_0000_0000 * d,
    ensures
        round(n, d) >= 0x10_0000_0000_0000,
{
    if n < 0x20_0000_0000_0000 * d {
        lemma_half_even_between(n, d, 0x10_0000_0000_0000, 0x20_0000_0000_0000);
    }
}

/// Rounding keeps order.
pub proof fn lemma_round_monotone(a: nat, b: nat, d: nat)
    requires
        d > 0,
        a <= b,
    ensures
        round(a, d) <= round(b, d),
    decreases b - d,
{
    if b < 0x20_0000_0000_0000 * d {
        lemma_half_even_monotone(a, b, d);
    } else if a < 0x20_0000_0000_0000 * d {
        lemma_half_even_between(a, d, 0, 0x20_0000_0000_0000);
        lemma_round_at_least(b, 2 * d);
    } else {
        lemma_round_monotone(a, b, 2 * d);
    }
}

/// The whole number `n` rounded to 53 significant bits, ties to even: the count
/// that a binary64 number holds for `n`.
pub open spec fn rounded(n: nat) -> nat {
    value(round(n, 1))
}

/// Counts below 2^53 are held exactly.
pub proof fn lemma_rounded_exact(n: nat)
    requires
        n < 0x20_0000_0000_0000,
    ensures
        rounded(n) == n,
{
    lemma_round_exact(n, 1);
}

/// A 64-bit count rounds to at most 2^64.
pub proof fn lemma_rounded_is_bounded(n: nat)
    requires
        n < 0x1_0000_0000_0000_0000,
    ensures
        rounded(n) <= 0x1_0000_0000_0000_0000,
        round(n, 1) < INFINITE,
{
    lemma_value_scaled(0x10_0000_0000_0000, 12);
    vstd::arithmetic::power2::lemma2_to64();
    let top = 0x10_0000_0000_0000 + 12 * 0x10_0000_0000_0000;
    lemma_round_exact(top as nat, 1);
    lemma_round_monotone(n, 0x1_0000_0000_0000_0000, 1);
    if round(n, 1) < top {
        lemma_value_increases(round(n, 1), top as nat);
    }
}

/// Moving a pattern of the second binade or above up by `e` binades doubles the
/// number `e` times.
proof fn lemma_value_lifted(pattern: nat, e: nat)
    requires
        pattern >= 0x10_0000_0000_0000,
    ensures
        value(pattern + e * 0x10_0000_0000_0000) == value(pattern)
            * vstd::arithmetic::power2::pow2(e),
    decreases e,
{
    if e == 0 {
        vstd::arithmetic::power2::lemma2_to64();
    } else {
        let h = (e - 1) as nat;
        vstd::arithmetic::power2::lemma_pow2_unfold(e);
        lemma_value_lifted(pattern, h);
        assert((pattern + e * 0x10_0000_0000_0000 - 0x10_0000_0000_0000) as nat == pattern + h
            * 0x10_0000_0000_0000);
        assert(value(pattern) * (2 * vstd::arithmetic::power2::pow2(h)) == 2 * (value(pattern)
            * vstd::arithmetic::power2::pow2(h))) by (nonlinear_arith);
    }
}

/// The binary64 number nearest to a 64-bit count is finite, and is exactly the
/// rounded count.
pub proof fn law_rounded_count_is_nearest(n: nat)
    requires
        n < 0x1_0000_0000_0000_0000,
    ensures
        nearest(n * vstd::arithmetic::power2::pow2(1074), 1) < INFINITE,
        value(nearest(n * vstd::arithmetic::power2::pow2(1074), 1)) == rounded(n)
            * vstd::arithmetic::power2::pow2(1074),
{
    let one = vstd::arithmetic::power2::pow2(1074);
    vstd::arithmetic::power2::lemma_pow2_pos(1074);
    vstd::arithmetic::power2::lemma_pow2_adds(1074, 12);
    vstd::arithmetic::power2::lemma2_to64();
    assert(n * one < 0x20_0000_0000_0000 * (one * 4096)) by (nonlinear_arith)
        requires
            n < 0x1_0000_0000_0000_0000,
            one > 0,
    ;
    law_rounding_error(n * one, 1086);
    if n < 0x20_0000_0000_0000 {
        lemma_rounded_exact(n);
        let pattern = lemma_on_grid(n, 1074);
        lemma_round_exact(pattern, 1);
    } else {
        lemma_round_scaled(n, 1, 1074);
        lemma_round_at_least(n, 1);
        lemma_value_lifted(round(n, 1), 1074);
    }
}

/// The distance between two numbers.
pub open spec fn gap(a: int, b: int) -> int {
    if a < b {
        b - a
    } else {
        a - b
    }
}

/// No number on the grid is nearer to `n / d` units than the one that it rounds
/// to, and one that is equally near leaves the even pattern chosen.
pub proof fn law_round_is_nearest(n: nat, d: nat, pattern: nat)
    requires
        d > 0,
    ensures
        gap((value(round(n, d)) * d) as int, n as int) <= gap(
            (value(pattern) * d) as int,
            n as int,
        ),
        pattern != round(n, d) && gap((value(round(n, d)) * d) as int, n as int) == gap(
            (value(pattern) * d) as int,
            n as int,
        ) ==> round(n, d) % 2 == 0,
    decreases n - d,
{
    let m = round(n, d);
    let v = value(pattern);
    if n < 0x20_0000_0000_0000 * d {
        let q = n / d;
        lemma_half_even(n, d);
        lemma_half_even_between(n, d, 0, 0x20_0000_0000_0000);
        assert(value(0x10_0000_0000_0000) == 0x10_0000_0000_0000);
        assert(value(m) == m);
        assert((q + 1) * d == q * d + d) by (nonlinear_arith);
        if v <= q {
            assert(v * d <= q * d) by (nonlinear_arith)
                requires
                    v <= q,
            ;
            if v < q {
                assert(v * d <= q * d - d) by (nonlinear_arith)
                    requires
                        v + 1 <= q,
                ;
            }
        } else {
            assert(v * d >= q * d + d) by (nonlinear_arith)
                requires
                    v >= q + 1,
            ;
            if v > q + 1 {
                assert(v * d >= q * d + 2 * d) by (nonlinear_arith)
                    requires
                        v >= q + 2,
                ;
            }
        }
        if pattern < m {
            lemma_value_increases(pattern, m);
        } else if m < pattern {
            lemma_value_increases(m, pattern);
        }
    } else {
        let half = round(n, 2 * d);
        lemma_round_at_least(n, 2 * d);
        assert(m == 0x10_0000_0000_0000 + half);
        assert(value(m) * d == value(half) * (2 * d)) by (nonlinear_arith)
            requires
                value(m) == 2 * value(half),
        ;
        if pattern >= 0x20_0000_0000_0000 {
            let p = (pattern - 0x10_0000_0000_0000) as nat;
            law_round_is_nearest(n, 2 * d, p);
            assert(v * d == value(p) * (2 * d)) by (nonlinear_arith)
                requires
                    v == 2 * value(p),
            ;
        } else {
            law_round_is_nearest(n, 2 * d, 0x10_0000_0000_0000);
            assert(value(0x10_0000_0000_0000) == 0x10_0000_0000_0000);
            assert(v * d + d <= 0x20_0000_0000_0000 * d) by (nonlinear_arith)
                requires
                    v + 1 <= 0x20_0000_0000_0000,
            ;
        }
    }
}

/// Every multiple of 2^`e` below 2^53 of them is on the grid.
pub proof fn lemma_on_grid(m: nat, e: nat) -> (pattern: nat)
    requires
        m < 0x20_0000_0000_0000,
    ensures
        value(pattern) == m * vstd::arithmetic::power2::pow2(e),
    decreases e,
{
    if e == 0 || m >= 0x10_0000_0000_0000 {
        lemma_value_scaled(m, e);
        m + e * 0x10_0000_0000_0000
    } else {
        let h = (e - 1) as nat;
        vstd::arithmetic::power2::lemma_pow2_unfold(e);
        assert(m * (2 * vstd::arithmetic::power2::pow2(h)) == (2 * m)
            * vstd::arithmetic::power2::pow2(h)) by (nonlinear_arith);
        lemma_on_grid(2 * m, h)
    }
}

/// Below 2^53 times the spacing 2^`e`, rounding is off by less than the
/// spacing, and does not overflow unless the spacing does.
pub proof fn law_rounding_error(n: nat, e: nat)
    requires
        n < 0x20_0000_0000_0000 * vstd::arithmetic::power2::pow2(e),
        e <= 2000,
    ensures
        gap(value(nearest(n, 1)) as int, n as int) < vstd::arithmetic::power2::pow2(e),
        nearest(n, 1) < INFINITE,
{
    let spacing = vstd::arithmetic::power2::pow2(e);
    vstd::arithmetic::power2::lemma_pow2_pos(e);
    let m = n / spacing;
    lemma_half_even(n, spacing);
    assert(m < 0x20_0000_0000_0000) by (nonlinear_arith)
        requires
            m * spacing <= n,
            n < 0x20_0000_0000_0000 * spacing,
            spacing > 0,
    ;
    let pattern = lemma_on_grid(m, e);
    law_round_is_nearest(n, 1, pattern);
    lemma_value_scaled(0x10_0000_0000_0000, 2046);
    vstd::arithmetic::power2::lemma_pow2_adds(e, (2046 - e) as nat);
    if 2046 - e > 2 {
        vstd::arithmetic::power2::lemma_pow2_strictly_increases(2, (2046 - e) as nat);
    }
    vstd::arithmetic::power2::lemma2_to64();
    let top = vstd::arithmetic::power2::pow2((2046 - e) as nat);
    assert(spacing * top >= spacing * 4) by (nonlinear_arith)
        requires
            top >= 4,
            spacing > 0,
    ;
    if round(n, 1) >= INFINITE {
        if round(n, 1) > INFINITE {
            lemma_value_increases(INFINITE as nat, round(n, 1));
        }
        assert(false);
    }
}

/// Past `e` binades, rounding proceeds in the spacing 2^`e`.
proof fn lemma_round_coarser(n: nat, e: nat)
    requires
        e == 0 || n >= 0x10_0000_0000_0000 * vstd::arithmetic::power2::pow2(e),
    ensures
        round(n, 1) == e * 0x10_0000_0000_0000 + round(n, vstd::arithmetic::power2::pow2(e)),
    decreases e,
{
    if e == 0 {
        vstd::arithmetic::power2::lemma2_to64();
    } else {
        let h = (e - 1) as nat;
        vstd::arithmetic::power2::lemma_pow2_unfold(e);
        vstd::arithmetic::power2::lemma_pow2_pos(h);
        lemma_round_coarser(n, h);
    }
}

/// A change of less than a quarter of the spacing rounds away.
proof fn lemma_small_change(m: nat, e: nat, delta: nat)
    requires
        0x10_0000_0000_0000 <= m < 0x20_0000_0000_0000,
        e >= 2,
        4 * delta < vstd::arithmetic::power2::pow2(e),
    ensures
        round(m * vstd::arithmetic::power2::pow2(e) + delta, 1) == m + e * 0x10_0000_0000_0000,
        m * vstd::arithmetic::power2::pow2(e) >= delta,
        round((m * vstd::arithmetic::power2::pow2(e) - delta) as nat, 1) == m + e
            * 0x10_0000_0000_0000,
{
    let p = vstd::arithmetic::power2::pow2(e);
    assert(m * p >= 0x10_0000_0000_0000 * p) by (nonlinear_arith)
        requires
            m >= 0x10_0000_0000_0000,
    ;
    assert(m * p + p <= 0x20_0000_0000_0000 * p) by (nonlinear_arith)
        requires
            m + 1 <= 0x20_0000_0000_0000,
    ;
    lemma_round_coarser(m * p + delta, e);
    vstd::arithmetic::div_mod::lemma_fundamental_div_mod_converse(
        (m * p + delta) as int,
        p as int,
        m as int,
        delta as int,
    );
    if delta == 0 {
    } else if m > 0x10_0000_0000_0000 {
        let n = (m * p - delta) as nat;
        assert(m * p >= 0x10_0000_0000_0000 * p + p) by (nonlinear_arith)
            requires
                m >= 0x10_0000_0000_0000 + 1,
        ;
        assert((m - 1) * p == m * p - p) by (nonlinear_arith);
        lemma_round_coarser(n, e);
        vstd::arithmetic::div_mod::lemma_fundamental_div_mod_converse(
            n as int,
            p as int,
            m - 1,
            p - delta,
        );
    } else {
        let n = (m * p - delta) as nat;
        let h = (e - 1) as nat;
        vstd::arithmetic::power2::lemma_pow2_unfold(e);
        let s = vstd::arithmetic::power2::pow2(h);
        lemma_round_coarser(n, h);
        vstd::arithmetic::div_mod::lemma_fundamental_div_mod_converse(
            n as int,
            s as int,
            0x1f_ffff_ffff_ffff,
            s - delta,
        );
    }
}

/// The significand of a finite pattern and the number of doublings of its
/// spacing.
fn decompose(pattern: u64) -> (parts: (u64, u64))
    requires
        pattern < INFINITE,
    ensures
        parts.0 < 0x20_0000_0000_0000,
        parts.1 <= 2045,
        parts.1 == 0 || parts.0 >= 0x10_0000_0000_0000,
        pattern == parts.0 + parts.1 * 0x10_0000_0000_0000,
        value(pattern as nat) == parts.0 * vstd::arithmetic::power2::pow2(parts.1 as nat),
{
    let field: u64 = pattern / BINADE;
    let doublings: u64 = if field == 0 {
        0
    } else {
        field - 1
    };
    let significand: u64 = pattern - doublings * BINADE;
    proof {
        lemma_value_scaled(significand as nat, doublings as nat);
    }
    (significand, doublings)
}

/// The pattern nearest to `n / d` units.
fn round_quotient(n: u128, d: u128) -> (pattern: u64)
    requires
        d > 0,
    ensures
        pattern == round(n as nat, d as nat),
        pattern <= 129 * 0x10_0000_0000_0000,
{
    let mut spacing: u128 = d;
    let mut binades: u64 = 0;
    proof {
        vstd::arithmetic::power2::lemma2_to64();
    }
    while n / 0x20_0000_0000_0000 >= spacing
        invariant
            spacing > 0,
            binades < 128,
            vstd::arithmetic::power2::pow2(binades as nat) <= spacing,
            round(n as nat, d as nat) == binades * 0x10_0000_0000_0000 + round(
                n as nat,
                spacing as nat,
            ),
        decreases n - spacing,
    {
        proof {
            vstd::arithmetic::power2::lemma_pow2_unfold((binades + 1) as nat);
            vstd::arithmetic::power2::lemma2_to64();
            vstd::arithmetic::power2::lemma_pow2_adds(64, 64);
            if binades == 127 {
                assert(false);
            }
        }
        spacing = spacing * 2;
        binades = binades + 1;
    }
    let quotient: u128 = n / spacing;
    let remainder: u128 = n % spacing;
    proof {
        lemma_half_even_between(n as nat, spacing as nat, 0, 0x20_0000_0000_0000);
        lemma_half_even(n as nat, spacing as nat);
    }
    let rest: u128 = spacing - remainder;
    let up: bool = remainder > rest || (remainder == rest && quotient % 2 == 1);
    let low: u64 = if up {
        (quotient + 1) as u64
    } else {
        quotient as u64
    };
    low + binades * BINADE
}

/// Caps a rounded pattern at infinity.
fn capped(pattern: u64) -> (capped: u64)
    ensures
        capped == (if pattern < INFINITE {
            pattern
        } else {
            INFINITE
        }),
{
    if pattern < INFINITE {
        pattern
    } else {
        INFINITE
    }
}

/// The pattern of a significand and a number of doublings, rounded.
fn compose(significand: u128, doublings: u64) -> (pattern: u64)
    requires
        doublings <= 2045,
        doublings == 0 || significand == 0 || significand >= 0x10_0000_0000_0000,
    ensures
        pattern == nearest(
            significand as nat * vstd::arithmetic::power2::pow2(doublings as nat),
            1,
        ),
{
    proof {
        vstd::arithmetic::power2::lemma2_to64();
        if significand == 0 {
            assert(significand as nat * vstd::arithmetic::power2::pow2(doublings as nat) == 0)
                by (nonlinear_arith)
                requires
                    significand == 0,
            ;
            assert(half_even(0, 1) == 0);
            assert(round(0, 1) == 0);
        } else if doublings > 0 {
            lemma_round_scaled(significand as nat, 1, doublings as nat);
        }
    }
    if significand == 0 {
        0
    } else {
        capped(round_quotient(significand, 1) + doublings * BINADE)
    }
}

/// `m` times two to the power `shift`.
fn shifted(m: u64, shift: u64) -> (product: u128)
    requires
        m < 0x20_0000_0000_0000,
        shift < 64,
    ensures
        product == m * vstd::arithmetic::power2::pow2(shift as nat),
        product < 0x20_0000_0000_0000 * 0x1_0000_0000_0000_0000,
{
    let factor: u64 = 1u64 << shift;
    proof {
        vstd::arithmetic::power2::lemma2_to64();
        if shift < 63 {
            vstd::arithmetic::power2::lemma_pow2_strictly_increases(shift as nat, 63);
        }
        vstd::arithmetic::power2::lemma2_to64_rest();
        vstd::bits::lemma_u64_shl_is_mul(1u64, shift);
        assert(m * factor < 0x20_0000_0000_0000 * 0x1_0000_0000_0000_0000) by (nonlinear_arith)
            requires
                m < 0x20_0000_0000_0000,
                factor < 0x1_0000_0000_0000_0000,
        ;
    }
    (m as u128) * (factor as u128)
}

/// A number that is 64 doublings or more below another is less than a quarter
/// of the other's spacing.
proof fn lemma_far_below(m: nat, low: nat, high: nat)
    requires
        m < 0x20_0000_0000_0000,
        low + 64 <= high,
    ensures
        4 * (m * vstd::arithmetic::power2::pow2(low)) < vstd::arithmetic::power2::pow2(high),
{
    let apart = (high - low) as nat;
    vstd::arithmetic::power2::lemma2_to64();
    vstd::arithmetic::power2::lemma_pow2_adds(low, apart);
    vstd::arithmetic::power2::lemma_pow2_pos(low);
    if apart > 64 {
        vstd::arithmetic::power2::lemma_pow2_strictly_increases(64, apart);
    }
    let p = vstd::arithmetic::power2::pow2(low);
    let q = vstd::arithmetic::power2::pow2(apart);
    assert(4 * (m * p) < p * q) by (nonlinear_arith)
        requires
            4 * m < q,
            p > 0,
    ;
}

/// A number over a lower spacing.
proof fn lemma_aligned(m: nat, low: nat, high: nat)
    requires
        low <= high,
    ensures
        m * vstd::arithmetic::power2::pow2(high) == (m * vstd::arithmetic::power2::pow2(
            (high - low) as nat,
        )) * vstd::arithmetic::power2::pow2(low),
{
    let apart = (high - low) as nat;
    vstd::arithmetic::power2::lemma_pow2_adds(apart, low);
    vstd::arithmetic::mul::lemma_mul_is_associative(
        m as int,
        vstd::arithmetic::power2::pow2(apart) as int,
        vstd::arithmetic::power2::pow2(low) as int,
    );
}

/// The pattern of the sum of two finite numbers, the larger one first.
pub(crate) fn add_patterns(a: u64, b: u64) -> (pattern: u64)
    requires
        b <= a < INFINITE,
    ensures
        pattern == nearest(value(a as nat) + value(b as nat), 1),
{
    let (high, high_doublings) = decompose(a);
    let (low, low_doublings) = decompose(b);
    let apart: u64 = high_doublings - low_doublings;
    if apart < 64 {
        let wide: u128 = shifted(high, apart);
        proof {
            lemma_aligned(high as nat, low_doublings as nat, high_doublings as nat);
            vstd::arithmetic::mul::lemma_mul_is_distributive_add_other_way(
                vstd::arithmetic::power2::pow2(low_doublings as nat) as int,
                wide as int,
                low as int,
            );
        }
        compose(wide + low as u128, low_doublings)
    } else {
        proof {
            lemma_far_below(low as nat, low_doublings as nat, high_doublings as nat);
            lemma_small_change(high as nat, high_doublings as nat, value(b as nat));
        }
        a
    }
}

/// The pattern of the difference of two finite numbers, the larger one first.
pub(crate) fn subtract_patterns(a: u64, b: u64) -> (pattern: u64)
    requires
        b <= a < INFINITE,
    ensures
        value(b as nat) <= value(a as nat),
        pattern == nearest((value(a as nat) - value(b as nat)) as nat, 1),
{
    let (high, high_doublings) = decompose(a);
    let (low, low_doublings) = decompose(b);
    let apart: u64 = high_doublings - low_doublings;
    proof {
        if b < a {
            lemma_value_increases(b as nat, a as nat);
        }
    }
    if apart < 64 {
        let wide: u128 = shifted(high, apart);
        let ghost unit = vstd::arithmetic::power2::pow2(low_doublings as nat);
        let ghost exact = (value(a as nat) - value(b as nat)) as nat;
        proof {
            lemma_aligned(high as nat, low_doublings as nat, high_doublings as nat);
            vstd::arithmetic::power2::lemma_pow2_pos(low_doublings as nat);
            assert(wide >= low) by (nonlinear_arith)
                requires
                    wide * unit >= low * unit,
                    unit > 0,
            ;
            vstd::arithmetic::mul::lemma_mul_is_distributive_sub_other_way(
                unit as int,
                wide as int,
                low as int,
            );
        }
        let mut significand: u128 = wide - low as u128;
        let mut doublings: u64 = low_doublings;
        while significand < 0x10_0000_0000_0000 && doublings > 0
            invariant
                doublings <= 2045,
                exact == significand * vstd::arithmetic::power2::pow2(doublings as nat),
            decreases doublings,
        {
            proof {
                vstd::arithmetic::power2::lemma_pow2_unfold(doublings as nat);
                let unit = vstd::arithmetic::power2::pow2((doublings - 1) as nat);
                assert(significand * (2 * unit) == (significand * 2) * unit) by (nonlinear_arith);
            }
            significand = significand * 2;
            doublings = doublings - 1;
        }
        compose(significand, doublings)
    } else {
        proof {
            lemma_far_below(low as nat, low_doublings as nat, high_doublings as nat);
            lemma_small_change(high as nat, high_doublings as nat, value(b as nat));
        }
        a
    }
}

/// A count, rounded to what a binary64 number holds.
fn round_count(n: u64) -> (count: u128)
    ensures
        count == rounded(n as nat),
        count <= 0x1_0000_0000_0000_0000,
{
    proof {
        lemma_rounded_is_bounded(n as nat);
        lemma_value_at_least(round(n as nat, 1));
    }
    if n < 0x20_0000_0000_0000 {
        proof {
            lemma_rounded_exact(n as nat);
        }
        return n as u128;
    }
    let pattern: u64 = round_quotient(n as u128, 1);
    let (significand, doublings) = decompose(pattern);
    proof {
        lemma_round_at_least(n as nat, 1);
        vstd::arithmetic::power2::lemma2_to64();
        if doublings > 12 {
            vstd::arithmetic::power2::lemma_pow2_strictly_increases(12, doublings as nat);
            let unit = vstd::arithmetic::power2::pow2(doublings as nat);
            assert(significand * unit > 0x1_0000_0000_0000_0000) by (nonlinear_arith)
                requires
                    significand >= 0x10_0000_0000_0000,
                    unit > 4096,
            ;
        }
    }
    shifted(significand, doublings)
}

/// The pattern of a finite number times a count, the count rounded first.
pub(crate) fn multiply_pattern(count: u64, pattern: u64) -> (product: u64)
    requires
        pattern < INFINITE,
    ensures
        product == nearest(rounded(count as nat) * value(pattern as nat), 1),
{
    let factor: u128 = round_count(count);
    let (significand, doublings) = decompose(pattern);
    proof {
        let unit = vstd::arithmetic::power2::pow2(doublings as nat);
        vstd::arithmetic::mul::lemma_mul_is_associative(
            factor as int,
            significand as int,
            unit as int,
        );
        assert(factor * significand <= 0x1_0000_0000_0000_0000 * 0x20_0000_0000_0000)
            by (nonlinear_arith)
            requires
                factor <= 0x1_0000_0000_0000_0000,
                significand < 0x20_0000_0000_0000,
        ;
        if factor > 0 {
            assert(factor * significand >= significand) by (nonlinear_arith)
                requires
                    factor >= 1,
            ;
        } else {
            assert(factor * significand == 0) by (nonlinear_arith)
                requires
                    factor == 0,
            ;
        }
    }
    compose(factor * (significand as u128), doublings)
}

/// The pattern of a count, rounded first, over a divisor.
pub(crate) fn divide_pattern(n: u64, d: u32) -> (pattern: u64)
    requires
        d > 0,
    ensures
        pattern == nearest(rounded(n as nat) * vstd::arithmetic::power2::pow2(1074), d as nat),
        pattern < INFINITE,
{
    let count: u128 = round_count(n);
    if count == 0 {
        proof {
            assert(count as nat * vstd::arithmetic::power2::pow2(1074) == 0) by (nonlinear_arith)
                requires
                    count == 0,
            ;
            lemma_half_even_between(0, d as nat, 0, 0);
        }
        0
    } else if count < 0x1_0000_0000 {
        let wide: u128 = count * 0x1_0000_0000_0000_0000_0000_0000;
        proof {
            vstd::arithmetic::power2::lemma2_to64();
            vstd::arithmetic::power2::lemma_pow2_adds(32, 64);
            lemma_aligned(count as nat, 978, 1074);
            lemma_round_scaled(wide as nat, d as nat, 978);
        }
        round_quotient(wide, d as u128) + 978 * BINADE
    } else {
        let wide: u128 = count * 0x4000_0000_0000_0000;
        proof {
            vstd::arithmetic::power2::lemma2_to64();
            vstd::arithmetic::power2::lemma2_to64_rest();
            lemma_aligned(count as nat, 1012, 1074);
            lemma_round_scaled(wide as nat, d as nat, 1012);
        }
        round_quotient(wide, d as u128) + 1012 * BINADE
    }
}

} // verus!
