use fizzy::render::i64_decimal;
use fizzy::render::u64_decimal;
use fizzy::rules::fizz_buzz;
use fizzy::Fizzy;
use fizzy::FizzValue;
use fizzy::Matcher;

#[test]
fn test_same_width_same_output() {
    let narrow = fizz_buzz::<u8>();
    let wide = fizz_buzz::<u64>();
    for n in 0..=255_u64 {
        assert_eq!(narrow.apply_to(n as u8), wide.apply_to(n));
    }
}

#[test]
fn test_apply_to_is_idempotent() {
    let rules = fizz_buzz::<u32>();
    for n in 0..100_u32 {
        assert_eq!(rules.apply_to(n), rules.apply_to(n));
    }
}

#[test]
fn test_zero_is_fizzbuzz() {
    let rules = fizz_buzz::<u32>();
    assert_eq!(rules.apply_to(0), "fizzbuzz");
}

#[test]
fn test_empty_rule_set_renders_decimal() {
    let rules: Fizzy<i32, fn(i32) -> bool> = Fizzy::new();
    assert_eq!(rules.apply_to(7), "7");
    assert_eq!(rules.apply_to(0), "0");
    assert_eq!(rules.apply_to(-45), "-45");
    assert_eq!(rules.apply_to(i32::MIN), "-2147483648");
}

#[test]
fn test_with_capacity_starts_empty() {
    let rules: Fizzy<u32, fn(u32) -> bool> = Fizzy::with_capacity(8);
    assert_eq!(rules.apply_to(30), "30");
}

#[test]
fn test_empty_substitution_falls_back() {
    let always: fn(u32) -> bool = |_| true;
    let rules = Fizzy::new().add_matcher(Matcher::new(always, ""));
    assert_eq!(rules.apply_to(9), "9");
}

#[test]
fn test_matcher_order_decides_concatenation() {
    let by5: fn(u32) -> bool = |n| n % 5 == 0;
    let by3: fn(u32) -> bool = |n| n % 3 == 0;
    let buzz_first = Fizzy::new()
        .add_matcher(Matcher::new(by5, "Buzz"))
        .add_matcher(Matcher::new(by3, "Fizz"));
    let fizz_first = Fizzy::new()
        .add_matcher(Matcher::new(by3, "Fizz"))
        .add_matcher(Matcher::new(by5, "Buzz"));
    assert_eq!(buzz_first.apply_to(15), "BuzzFizz");
    assert_eq!(fizz_first.apply_to(15), "FizzBuzz");
}

#[test]
fn test_repeated_matchers_repeat_substitutions() {
    let by2: fn(u32) -> bool = |n| n % 2 == 0;
    let rules = Fizzy::new()
        .add_matcher(Matcher::new(by2, "even"))
        .add_matcher(Matcher::new(by2, "even"));
    assert_eq!(rules.apply_to(4), "eveneven");
    assert_eq!(rules.apply_to(5), "5");
}

#[test]
fn test_reordered_input_reorders_output() {
    let rules = fizz_buzz::<u32>();
    let forward: Vec<u32> = (1..=16).collect();
    let mut backward = forward.clone();
    backward.reverse();
    let mut out = rules.apply(&backward);
    out.reverse();
    assert_eq!(rules.apply(&forward), out);
}

#[test]
fn test_decimal_rendering_exact() {
    assert_eq!(u64_decimal(0), "0");
    assert_eq!(u64_decimal(10), "10");
    assert_eq!(u64_decimal(123), "123");
    assert_eq!(u64_decimal(1000), "1000");
    assert_eq!(u64_decimal(u64::MAX), "18446744073709551615");
    assert_eq!(i64_decimal(0), "0");
    assert_eq!(i64_decimal(-1), "-1");
    assert_eq!(i64_decimal(-10), "-10");
    assert_eq!(i64_decimal(i64::MAX), "9223372036854775807");
    assert_eq!(i64_decimal(i64::MIN), "-9223372036854775808");
}

#[test]
fn test_render_matches_to_string() {
    for n in 0..=255_u8 {
        assert_eq!(n.render(), n.to_string());
    }
    for n in [-100_i64, -1, 0, 1, 99, i64::MIN, i64::MAX] {
        assert_eq!(n.render(), n.to_string());
    }
    for n in [0_u64, 9, 10, 99, 100, u64::MAX] {
        assert_eq!(n.render(), n.to_string());
    }
    for n in [usize::MIN, 7, usize::MAX] {
        assert_eq!(n.render(), n.to_string());
    }
    for n in [u16::MIN, 300, u16::MAX] {
        assert_eq!(n.render(), n.to_string());
    }
    for n in [u32::MIN, 70000, u32::MAX] {
        assert_eq!(n.render(), n.to_string());
    }
    for n in [i32::MIN, -7, 0, 7, i32::MAX] {
        assert_eq!(n.render(), n.to_string());
    }
}

#[test]
fn test_divisible_by_agrees_with_remainder() {
    for n in [i32::MIN, -30, -7, -1, 0, 1, 7, 30, i32::MAX] {
        for d in [1, 2, 3, 5, 7, i32::MAX] {
            assert_eq!(n.divisible_by(d), n % d == 0);
        }
    }
    for n in [i64::MIN, -30, -1, 0, 1, 30, i64::MAX] {
        for d in [1, 2, 3, 5, 7, i64::MAX] {
            assert_eq!(n.divisible_by(d), n % d == 0);
        }
    }
    for n in [0_u64, 1, 14, 15, u64::MAX] {
        for d in [1_u64, 2, 3, 5] {
            assert_eq!(n.divisible_by(d), n % d == 0);
        }
    }
}
