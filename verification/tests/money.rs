use std::str::FromStr;

use blendbar::money::{format_cents, to_cents, Amount};
use rust_decimal::Decimal;

fn dec(s: &str) -> Amount {
    let d = Decimal::from_str(s).unwrap();
    Amount { negative: d.is_sign_negative(), mantissa: d.mantissa().unsigned_abs(), scale: d.scale() }
}

#[test]
fn converts_typical_prices() {
    assert_eq!(to_cents(dec("60.00")), Some(6000));
    assert_eq!(to_cents(dec("60")), Some(6000));
    assert_eq!(to_cents(dec("0.01")), Some(1));
    assert_eq!(to_cents(dec("0")), Some(0));
    assert_eq!(to_cents(dec("1234.56")), Some(123456));
}

#[test]
fn does_not_lose_the_trailing_cent() {
    assert_eq!(to_cents(dec("19.99")), Some(1999));
    assert_eq!(to_cents(dec("0.29")), Some(29));
    assert_eq!(to_cents(dec("8.15")), Some(815));
}

#[test]
fn rounds_half_to_even_at_the_sub_cent() {
    assert_eq!(to_cents(dec("0.125")), Some(12));
    assert_eq!(to_cents(dec("0.135")), Some(14));
    assert_eq!(to_cents(dec("2.005")), Some(200));
    assert_eq!(to_cents(dec("2.015")), Some(202));
}

#[test]
fn rejects_negative_and_absurd_amounts() {
    assert_eq!(to_cents(dec("-1.00")), None);
    assert_eq!(to_cents(dec("-0.01")), None);
    assert_eq!(to_cents(dec("2000000.00")), None);
}

#[test]
fn trailing_zeros_and_scale_do_not_change_the_value() {
    for s in ["60", "60.0", "60.00", "60.000"] {
        assert_eq!(to_cents(dec(s)), Some(6000), "failed for {s}");
    }
}

#[test]
fn formats_for_humans() {
    assert_eq!(format_cents(6000, "USD"), "$60.00");
    assert_eq!(format_cents(5, "USD"), "$0.05");
    assert_eq!(format_cents(0, "USD"), "$0.00");
    assert_eq!(format_cents(-2550, "USD"), "-$25.50");
    assert_eq!(format_cents(1999, "CAD"), "19.99 CAD");
}

#[test]
fn the_line_cap_is_inclusive() {
    assert_eq!(to_cents(dec("1000000.00")), Some(100_000_000));
    assert_eq!(to_cents(dec("1000000.01")), None);
}

#[test]
fn within_half_a_cent_of_the_value() {
    assert_eq!(to_cents(dec("10.004")), Some(1000));
    assert_eq!(to_cents(dec("10.006")), Some(1001));
    assert_eq!(to_cents(dec("0.005")), Some(0));
    assert_eq!(to_cents(dec("0.015")), Some(2));
}

#[test]
fn a_negative_zero_is_refused() {
    let z = Amount { negative: true, mantissa: 0, scale: 2 };
    assert_eq!(to_cents(z), None);
}

#[test]
fn formats_lowercase_usd_with_a_symbol() {
    assert_eq!(format_cents(123, "usd"), "$1.23");
    assert_eq!(format_cents(-5, "EUR"), "-0.05 EUR");
}
