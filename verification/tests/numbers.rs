//! Fixed point numbers, wide products and decimal notation.

use pinwall::decimal::{append_decimal, hundredths_of};
use pinwall::fixed::{
    clamp_wide, half_of, larger_of, limit, minus, nearest_quotient, pixels, pixels_from, plus,
    product_of, quotient_of, smaller_of, wide_product, MAX_FIXED, UNIT,
};
use pinwall::text::is_blank;
use pinwall::wide::product_at_most;

#[test]
fn sums_stop_at_the_ends_of_the_range() {
    assert_eq!(plus(UNIT, UNIT), 2 * UNIT);
    assert_eq!(plus(MAX_FIXED, 1), MAX_FIXED);
    assert_eq!(minus(-MAX_FIXED, UNIT), -MAX_FIXED);
    assert_eq!(clamp_wide(i128::MAX), MAX_FIXED);
    assert_eq!(clamp_wide(i128::MIN), -MAX_FIXED);
}

#[test]
fn products_and_quotients_are_rounded_once() {
    assert_eq!(product_of(1_500_000, 3_000_000), 4_500_000);
    assert_eq!(product_of(1, 500_000), 1);
    assert_eq!(product_of(-1, 500_000), -1);
    assert_eq!(product_of(1, 499_999), 0);
    assert_eq!(quotient_of(UNIT, 3 * UNIT), 333_333);
    assert_eq!(quotient_of(2 * UNIT, 3 * UNIT), 666_667);
    assert_eq!(quotient_of(UNIT, -2 * UNIT), -500_000);
    assert_eq!(nearest_quotient(7, 2), 4);
    assert_eq!(nearest_quotient(-7, 2), -4);
    assert_eq!(half_of(5), 3);
    assert_eq!(wide_product(i64::MIN, i64::MIN), 1i128 << 126);
}

#[test]
fn limits_and_extremes() {
    assert_eq!(limit(5, 1, 3), 3);
    assert_eq!(limit(-5, 1, 3), 1);
    assert_eq!(limit(2, 1, 3), 2);
    assert_eq!(smaller_of(-1, 1), -1);
    assert_eq!(larger_of(-1, 1), 1);
}

#[test]
fn pixels_are_counted_to_the_nearest() {
    assert_eq!(pixels(10 * UNIT, 1_500_000), 15);
    assert_eq!(pixels(UNIT / 2, UNIT), 1);
    assert_eq!(pixels(UNIT / 2 - 1, UNIT), 0);
    assert_eq!(pixels(-UNIT, UNIT), 0);
    assert_eq!(pixels_from(-3 * UNIT, 2 * UNIT), -6);
}

#[test]
fn wide_products_do_not_overflow() {
    assert!(product_at_most(u128::MAX, 2, 2, u128::MAX));
    assert!(!product_at_most(u128::MAX, 3, 2, u128::MAX));
    assert!(product_at_most(3, 4, 2, 6));
}

#[test]
fn decimal_notation() {
    let mut s = String::from("n=");
    append_decimal(&mut s, 0);
    append_decimal(&mut s, u64::MAX);
    assert_eq!(s, "n=018446744073709551615");
}

#[test]
fn blank_texts_have_only_white_space() {
    assert!(is_blank(""));
    assert!(is_blank(" \t\u{3000}\n"));
    assert!(!is_blank(" x "));
}

#[test]
fn hundredths_are_those_of_printed_doubles() {
    for v in (0..2_000_000).step_by(2_500) {
        let printed = format!("{:.2}", v as f64 / 1_000_000.0).replace('.', "");
        assert_eq!(hundredths_of(v), printed.parse::<u64>().unwrap(), "{v}");
    }
    assert_eq!(hundredths_of(125_000), 12);
    assert_eq!(hundredths_of(375_000), 38);
    assert_eq!(hundredths_of(5_000), 1);
    assert_eq!(hundredths_of(15_000), 1);
    assert_eq!(hundredths_of(1), 0);
    assert_eq!(hundredths_of(9_007_199_254_740_991), 900_719_925_474);
}
