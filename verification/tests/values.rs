//! The value coercions: integers, booleans and floating-point text.

use osmxml::is_float_text;
use osmxml::parse_bool;
use osmxml::parse_i64;

#[test]
fn integers_parse_exactly() {
    assert_eq!(parse_i64("0"), Some(0));
    assert_eq!(parse_i64("123"), Some(123));
    assert_eq!(parse_i64("-42"), Some(-42));
    assert_eq!(parse_i64("+7"), Some(7));
    assert_eq!(parse_i64("-0"), Some(0));
    assert_eq!(parse_i64("0012"), Some(12));
}

#[test]
fn integer_limits_are_respected() {
    assert_eq!(parse_i64("9223372036854775807"), Some(i64::MAX));
    assert_eq!(parse_i64("-9223372036854775808"), Some(i64::MIN));
    assert_eq!(parse_i64("9223372036854775808"), None);
    assert_eq!(parse_i64("-9223372036854775809"), None);
    assert_eq!(parse_i64("99999999999999999999999999"), None);
}

#[test]
fn malformed_integers_are_rejected() {
    assert_eq!(parse_i64(""), None);
    assert_eq!(parse_i64("+"), None);
    assert_eq!(parse_i64("-"), None);
    assert_eq!(parse_i64("12a"), None);
    assert_eq!(parse_i64(" 1"), None);
    assert_eq!(parse_i64("1 "), None);
    assert_eq!(parse_i64("1.0"), None);
    assert_eq!(parse_i64("--1"), None);
}

#[test]
fn booleans_are_exactly_true_or_false() {
    assert_eq!(parse_bool(&"true".to_string()), Some(true));
    assert_eq!(parse_bool(&"false".to_string()), Some(false));
    assert_eq!(parse_bool(&"True".to_string()), None);
    assert_eq!(parse_bool(&"1".to_string()), None);
    assert_eq!(parse_bool(&"".to_string()), None);
}

#[test]
fn float_text_accepts_the_usual_shapes() {
    for ok in [
        "1",
        "1.0",
        "-3.5",
        "+0.25",
        "5.",
        ".5",
        "+.5",
        "1e10",
        "5e-1",
        "2.5E+3",
        "inf",
        "-inf",
        "Infinity",
        "NaN",
        "nan",
    ] {
        assert!(is_float_text(ok), "{:?} should be accepted", ok);
    }
}

#[test]
fn float_text_rejects_malformed_shapes() {
    for bad in [
        "",
        "+",
        "-",
        ".",
        "e5",
        "1e",
        "1e+",
        "1.2.3",
        "abc",
        " 1.0",
        "1.0 ",
        "1_000",
        "0x1p3",
        "1e2e3",
        "in",
        "infx",
    ] {
        assert!(!is_float_text(bad), "{:?} should be rejected", bad);
    }
}

#[test]
fn float_text_agrees_with_the_standard_parser() {
    for s in [
        "1",
        "1.0",
        "-3.5",
        "+0.25",
        "5.",
        ".5",
        "+.5",
        "1e10",
        "5e-1",
        "2.5E+3",
        "inf",
        "-inf",
        "Infinity",
        "NaN",
        "nan",
        "",
        "+",
        "-",
        ".",
        "e5",
        "1e",
        "1e+",
        "1.2.3",
        "abc",
        " 1.0",
        "1.0 ",
        "1_000",
        "0x1p3",
        "1e2e3",
        "in",
        "infx",
        "1e999",
        "-.0e-0",
    ] {
        assert_eq!(
            is_float_text(s),
            s.parse::<f64>().is_ok(),
            "{:?} disagrees with the standard parser",
            s,
        );
    }
}
