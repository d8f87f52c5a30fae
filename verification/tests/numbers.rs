use agent_cache::digest::valid_digest;
use agent_cache::Binary64;

fn number(value: f64) -> Binary64 {
    Binary64 {
        bits: value.to_bits(),
    }
}

fn double(value: Binary64) -> f64 {
    f64::from_bits(value.bits)
}

/// A small generator of bit patterns.
struct Patterns {
    state: u64,
}

impl Patterns {
    fn next_bits(&mut self) -> u64 {
        self.state ^= self.state << 13;
        self.state ^= self.state >> 7;
        self.state ^= self.state << 17;
        self.state
    }

    /// A finite number, at times near the given exponent.
    fn next_finite(&mut self, near: u64) -> f64 {
        loop {
            let bits = self.next_bits();
            let value = if self.next_bits() % 2 == 0 {
                f64::from_bits(bits)
            } else {
                let exponent = (near + self.next_bits() % 130).saturating_sub(65).min(2046);
                f64::from_bits((bits & 0x800f_ffff_ffff_ffff) | (exponent << 52))
            };
            if value.is_finite() {
                return value;
            }
        }
    }
}

fn edges() -> Vec<f64> {
    let mut all = vec![
        0.0,
        f64::from_bits(1),
        f64::from_bits(2),
        f64::from_bits(0x000f_ffff_ffff_ffff),
        f64::MIN_POSITIVE,
        f64::from_bits(0x0020_0000_0000_0000),
        f64::EPSILON,
        f64::EPSILON / 2.0,
        f64::EPSILON / 4.0,
        0.1,
        0.5,
        1.0,
        1.0 + f64::EPSILON,
        1.5,
        2.0,
        3.0,
        9_007_199_254_740_991.0,
        9_007_199_254_740_992.0,
        1e300,
        f64::MAX / 2.0,
        f64::from_bits(f64::MAX.to_bits() - 1),
        f64::MAX,
    ];
    let negated: Vec<f64> = all.iter().map(|v| -v).collect();
    all.extend(negated);
    all
}

fn check_sum(a: f64, b: f64) {
    let exact = number(a).sum(number(b));
    assert_eq!(exact.bits, (a + b).to_bits(), "{} + {}", a, b);
}

#[test]
fn sums_are_rounded_as_the_hardware_rounds_them() {
    for a in edges() {
        for b in edges() {
            check_sum(a, b);
        }
        check_sum(a, f64::INFINITY);
        check_sum(f64::NEG_INFINITY, a);
    }
    let mut patterns = Patterns {
        state: 0x9e37_79b9_7f4a_7c15,
    };
    for _ in 0..200_000 {
        let a = patterns.next_finite(1023);
        let b = patterns.next_finite((a.to_bits() >> 52) & 0x7ff);
        check_sum(a, b);
    }
}

#[test]
fn products_are_rounded_as_the_hardware_rounds_them() {
    let mut patterns = Patterns {
        state: 0x0123_4567_89ab_cdef,
    };
    for rate in edges() {
        for count in [0u64, 1, 2, 3, 1 << 50, (1 << 53) - 1, (1 << 53) + 1, u64::MAX] {
            let exact = number(rate).product(count);
            assert_eq!(exact.bits, (count as f64 * rate).to_bits());
        }
    }
    for _ in 0..200_000 {
        let count = patterns.next_bits() >> (patterns.next_bits() % 64);
        let rate = patterns.next_finite(1023);
        let exact = number(rate).product(count);
        assert_eq!(exact.bits, (count as f64 * rate).to_bits());
    }
}

#[test]
fn quotients_are_rounded_as_the_hardware_rounds_them() {
    let mut patterns = Patterns {
        state: 0xfeed_f00d_dead_beef,
    };
    for _ in 0..200_000 {
        let n = patterns.next_bits() >> (patterns.next_bits() % 64);
        let d = (patterns.next_bits() >> (32 + patterns.next_bits() % 32)) as u32;
        if d > 0 {
            let exact = Binary64::quotient(n, d);
            assert_eq!(exact.bits, (n as f64 / d as f64).to_bits());
        }
    }
    assert_eq!(double(Binary64::quotient(1, 3)), 1.0 / 3.0);
    assert_eq!(double(Binary64::quotient(0, 7)), 0.0);
    assert_eq!(double(Binary64::quotient(u64::from(u32::MAX), 1)), 4_294_967_295.0);
    assert_eq!(double(Binary64::quotient(1, u32::MAX)), 1.0 / 4_294_967_295.0);
}

#[test]
fn comparisons_agree_with_the_hardware() {
    let mut all = edges();
    all.push(f64::INFINITY);
    all.push(f64::NEG_INFINITY);
    all.push(f64::NAN);
    all.push(-f64::NAN);
    for a in all.iter() {
        for b in all.iter() {
            assert_eq!(number(*a).is_less(number(*b)), a < b);
            assert_eq!(number(*a) == number(*b), a == b);
        }
        assert_eq!(number(*a).is_finite(), a.is_finite());
        assert_eq!(
            number(*a).is_finite_non_negative(),
            a.is_finite() && *a >= 0.0
        );
        assert_eq!(number(*a).negation().bits, (-a).to_bits());
    }
}

#[test]
fn ties_round_to_even() {
    let half_step = f64::EPSILON / 2.0;
    assert_eq!(double(number(1.0).sum(number(half_step))), 1.0);
    let odd = 1.0 + f64::EPSILON;
    assert_eq!(
        double(number(odd).sum(number(half_step))),
        1.0 + 2.0 * f64::EPSILON
    );
}

#[test]
fn digests() {
    assert!(valid_digest("a"));
    assert!(valid_digest("AZaz09-_"));
    assert!(valid_digest(&"x".repeat(128)));
    assert!(!valid_digest(""));
    assert!(!valid_digest(&"x".repeat(129)));
    for bad in ["a b", "a.b", "a/b", "a:b", "a@b", "a[b", "a`b", "a{b", "\u{e9}", "a\0"] {
        assert!(!valid_digest(bad));
    }
}

#[test]
fn counts_are_rounded_before_they_are_used() {
    let count = 9_007_199_254_740_993u64;
    assert_eq!(double(Binary64::quotient(count, 3)), 3_002_399_751_580_330.5);
    assert_eq!(double(number(1.0).product(count)), 9_007_199_254_740_992.0);
    assert_eq!(
        double(Binary64::quotient(u64::MAX, 1)),
        18_446_744_073_709_551_616.0
    );
    for near in [(1u64 << 53) - 2, 1 << 54, 1 << 63, u64::MAX - 4096] {
        for step in 0..4096u64 {
            let n = near + step;
            assert_eq!(Binary64::quotient(n, 1).bits, (n as f64).to_bits());
            assert_eq!(Binary64::quotient(n, 7).bits, (n as f64 / 7.0).to_bits());
        }
    }
}
