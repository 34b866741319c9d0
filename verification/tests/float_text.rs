use ext_php_rs::types::coerce::double_prefix;
use ext_php_rs::types::float_text::{parse_i32, php_float_text};
use ext_php_rs::types::zval::Zval;

fn php_float_to_string(d: f64) -> String {
    php_float_text(&format!("{d:.13E}"))
}

fn parse_double_from_str(s: &str) -> f64 {
    double_prefix(s).parse().unwrap_or(0.0)
}

#[test]
fn test_php_float_to_string() {
    assert_eq!(php_float_to_string(3.14), "3.14");
    assert_eq!(php_float_to_string(42.0), "42");
    assert_eq!(php_float_to_string(-3.14), "-3.14");
    assert_eq!(php_float_to_string(0.0), "0");

    assert_eq!(php_float_to_string(1e52), "1.0E+52");
    assert_eq!(php_float_to_string(1e20), "1.0E+20");
    assert_eq!(php_float_to_string(1e14), "1.0E+14");

    assert_eq!(php_float_to_string(1e-10), "1.0E-10");
    assert_eq!(php_float_to_string(1e-5), "1.0E-5");
    assert_eq!(php_float_to_string(0.00001), "1.0E-5");

    assert_eq!(php_float_to_string(1e13), "10000000000000");
    assert_eq!(php_float_to_string(0.001), "0.001");
    assert_eq!(php_float_to_string(0.0001), "0.0001");
}

#[test]
fn test_parse_double_from_str() {
    assert!((parse_double_from_str("3.14") - 3.14).abs() < f64::EPSILON);
    assert!((parse_double_from_str("0.0") - 0.0).abs() < f64::EPSILON);
    assert!((parse_double_from_str("-3.14") - (-3.14)).abs() < f64::EPSILON);
    assert!((parse_double_from_str("+3.14") - 3.14).abs() < f64::EPSILON);
    assert!((parse_double_from_str(".5") - 0.5).abs() < f64::EPSILON);
    assert!((parse_double_from_str("5.") - 5.0).abs() < f64::EPSILON);

    assert!((parse_double_from_str("1e10") - 1e10).abs() < 1.0);
    assert!((parse_double_from_str("1E10") - 1e10).abs() < 1.0);
    assert!((parse_double_from_str("1.5e-3") - 1.5e-3).abs() < f64::EPSILON);
    assert!((parse_double_from_str("1.5E+3") - 1500.0).abs() < f64::EPSILON);
    assert!((parse_double_from_str("-1.5e2") - (-150.0)).abs() < f64::EPSILON);

    assert!((parse_double_from_str("3.14abc") - 3.14).abs() < f64::EPSILON);
    assert!((parse_double_from_str("  3.14") - 3.14).abs() < f64::EPSILON);
    assert!((parse_double_from_str("\t\n3.14") - 3.14).abs() < f64::EPSILON);
    assert!((parse_double_from_str("1e10xyz") - 1e10).abs() < 1.0);

    assert!((parse_double_from_str("abc") - 0.0).abs() < f64::EPSILON);
    assert!((parse_double_from_str("") - 0.0).abs() < f64::EPSILON);
    assert!((parse_double_from_str("  ") - 0.0).abs() < f64::EPSILON);
    assert!((parse_double_from_str("-") - 0.0).abs() < f64::EPSILON);
    assert!((parse_double_from_str("e10") - 0.0).abs() < f64::EPSILON);

    assert!((parse_double_from_str("42") - 42.0).abs() < f64::EPSILON);
    assert!((parse_double_from_str("-42") - (-42.0)).abs() < f64::EPSILON);

    assert!((parse_double_from_str("0xFF") - 0.0).abs() < f64::EPSILON);
    assert!((parse_double_from_str("1.2.3") - 1.2).abs() < f64::EPSILON);
    assert!((parse_double_from_str("1e2e3") - 100.0).abs() < f64::EPSILON);
}

#[test]
fn double_prefix_keeps_the_numeric_text() {
    assert_eq!(double_prefix("  -1.5e+3xyz"), "-1.5e+3");
    assert_eq!(double_prefix("1.2.3"), "1.2");
    assert_eq!(double_prefix("e10"), "");
    assert_eq!(double_prefix("+"), "+");
    assert_eq!(double_prefix("7e"), "7");
    assert_eq!(double_prefix("3.5e+"), "3.5");
    assert_eq!(double_prefix("2e-x"), "2");
    assert_eq!(double_prefix("2e-7"), "2e-7");
}

#[test]
fn a_dangling_exponent_is_not_part_of_the_number() {
    assert!((parse_double_from_str("2e") - 2.0).abs() < f64::EPSILON);
    assert!((parse_double_from_str("3.5e+") - 3.5).abs() < f64::EPSILON);
    assert!((parse_double_from_str("4E-z") - 4.0).abs() < f64::EPSILON);
}

#[test]
fn floats_are_spelled_with_fourteen_significant_digits() {
    assert_eq!(php_float_to_string(0.1 + 0.2), "0.3");
    assert_eq!(php_float_to_string(1.0 / 3.0), "0.33333333333333");
    assert_eq!(php_float_to_string(-0.0), "-0");
    assert_eq!(php_float_to_string(123456789.125), "123456789.125");
    assert_eq!(php_float_to_string(99999999999999.99), "1.0E+14");
    assert_eq!(php_float_to_string(1.5e-7), "1.5E-7");
    assert_eq!(php_float_to_string(2.5e15), "2.5E+15");
}

#[test]
fn plain_spellings_drop_only_trailing_zeros_after_the_point() {
    assert_eq!(php_float_to_string(100.0), "100");
    assert_eq!(php_float_to_string(0.5), "0.5");
    assert_eq!(php_float_to_string(-20.25), "-20.25");
    assert_eq!(php_float_text("1.0000000000000E2"), "100");
    assert_eq!(php_float_text("-5.0500000000000E-2"), "-0.0505");
}

#[test]
fn parse_i32_accepts_only_in_range_integers() {
    assert_eq!(parse_i32("14"), Some(14));
    assert_eq!(parse_i32("-5"), Some(-5));
    assert_eq!(parse_i32("+7"), Some(7));
    assert_eq!(parse_i32("2147483647"), Some(i32::MAX));
    assert_eq!(parse_i32("-2147483648"), Some(i32::MIN));
    assert_eq!(parse_i32("2147483648"), None);
    assert_eq!(parse_i32("99999999999999999999"), None);
    assert_eq!(parse_i32(""), None);
    assert_eq!(parse_i32("-"), None);
    assert_eq!(parse_i32("1x"), None);
}

#[test]
fn finite_doubles_coerce_to_php_text() {
    let zv = Zval::Double(1e14f64.to_bits());
    let d = 1e14f64;
    let text = php_float_to_string(d);
    assert_eq!(zv.coerce_to_string(Some(text), None), Some("1.0E+14".to_string()));
}
