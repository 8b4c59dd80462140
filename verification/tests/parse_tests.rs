use craft3d::parse::{parse_units, units_to_text};
use craft3d::UNIT;

#[test]
fn whole_numbers() {
    assert_eq!(parse_units("0"), Some(0));
    assert_eq!(parse_units("1"), Some(UNIT));
    assert_eq!(parse_units("50"), Some(50_000));
    assert_eq!(parse_units("007"), Some(7_000));
    assert_eq!(parse_units("-3"), Some(-3_000));
}

#[test]
fn fractional_numbers() {
    assert_eq!(parse_units("12.5"), Some(12_500));
    assert_eq!(parse_units("0.125"), Some(125));
    assert_eq!(parse_units("-3.25"), Some(-3_250));
    // Digits past the third fractional place truncate.
    assert_eq!(parse_units("12.3456"), Some(12_345));
    assert_eq!(parse_units("0.0004"), Some(0));
}

#[test]
fn rejected_text() {
    assert_eq!(parse_units(""), None);
    assert_eq!(parse_units("-"), None);
    assert_eq!(parse_units("abc"), None);
    assert_eq!(parse_units("5."), None);
    assert_eq!(parse_units(".5"), None);
    assert_eq!(parse_units("5.5.5"), None);
    assert_eq!(parse_units("5%"), None);
    assert_eq!(parse_units("1e5"), None);
    assert_eq!(parse_units("+5"), None);
    assert_eq!(parse_units("5 "), None);
    // Fourteen integer digits are over the documented bound.
    assert_eq!(parse_units("12345678901234"), None);
    // Thirteen are the maximum.
    assert_eq!(parse_units("9999999999999"), Some(9_999_999_999_999_000));
}

#[test]
fn canonical_text() {
    assert_eq!(units_to_text(2_000), "2");
    assert_eq!(units_to_text(1_500), "1.500");
    assert_eq!(units_to_text(0), "0");
    assert_eq!(units_to_text(-12_500), "-12.500");
    assert_eq!(units_to_text(125), "0.125");
}

#[test]
fn text_round_trip() {
    for v in [
        0i64,
        1,
        999,
        1_000,
        -1,
        -999,
        123_456,
        -123_456,
        9_999_999_999_999_999,
        -9_999_999_999_999_999,
    ] {
        assert_eq!(parse_units(&units_to_text(v)), Some(v));
    }
}
