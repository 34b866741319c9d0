use ext_php_rs::types::coerce::{ascii_prefix_text, double_to_long, parse_long_from_str};
use ext_php_rs::convert::FromZval;
use ext_php_rs::types::zval::{ZendHashTable, ZendStr, Zval};
use std::collections::{BTreeSet, HashSet};

#[test]
fn test_zval_null() {
    let zval = Zval::null();
    assert!(zval.is_null());
}

#[test]
fn test_parse_long_from_str() {
    assert_eq!(parse_long_from_str("42"), 42);
    assert_eq!(parse_long_from_str("0"), 0);
    assert_eq!(parse_long_from_str("-42"), -42);
    assert_eq!(parse_long_from_str("+42"), 42);

    assert_eq!(parse_long_from_str("42abc"), 42);
    assert_eq!(parse_long_from_str("  42"), 42);
    assert_eq!(parse_long_from_str("\t\n42"), 42);
    assert_eq!(parse_long_from_str("  -42"), -42);
    assert_eq!(parse_long_from_str("42.5"), 42);

    assert_eq!(parse_long_from_str("abc"), 0);
    assert_eq!(parse_long_from_str(""), 0);
    assert_eq!(parse_long_from_str("  "), 0);
    assert_eq!(parse_long_from_str("-"), 0);
    assert_eq!(parse_long_from_str("+"), 0);
    assert_eq!(parse_long_from_str("abc123"), 0);

    assert_eq!(parse_long_from_str("0xFF"), 0);
    assert_eq!(parse_long_from_str("0x10"), 0);
    assert_eq!(parse_long_from_str("010"), 10);
    assert_eq!(parse_long_from_str("0b101"), 0);

    assert_eq!(parse_long_from_str("99999999999999999999999999"), i64::MAX);
    assert_eq!(parse_long_from_str("-99999999999999999999999999"), i64::MIN);
    assert_eq!(parse_long_from_str("9223372036854775807"), i64::MAX);
    assert_eq!(parse_long_from_str("-9223372036854775808"), i64::MIN);
}

#[test]
fn double_to_long_truncates_toward_zero() {
    assert_eq!(double_to_long(3.7f64.to_bits()), 3);
    assert_eq!(double_to_long((-3.7f64).to_bits()), -3);
    assert_eq!(double_to_long(0.5f64.to_bits()), 0);
    assert_eq!(double_to_long(1e300f64.to_bits()), i64::MAX);
    assert_eq!(double_to_long((-1e300f64).to_bits()), i64::MIN);
    assert_eq!(double_to_long(f64::NAN.to_bits()), 0);
    assert_eq!(double_to_long(f64::INFINITY.to_bits()), i64::MAX);
    assert_eq!(double_to_long(f64::NEG_INFINITY.to_bits()), i64::MIN);
    assert_eq!(double_to_long(9007199254740993f64.to_bits()), 9007199254740992);
    assert_eq!(double_to_long((-9223372036854775808f64).to_bits()), i64::MIN);
}

#[test]
fn coerce_to_long_follows_php() {
    let mut zv = Zval::new();
    zv.set_string("42abc", false).unwrap();
    assert_eq!(zv.coerce_to_long(), Some(42));
    zv.set_bool(true);
    assert_eq!(zv.coerce_to_long(), Some(1));
    zv.set_null();
    assert_eq!(zv.coerce_to_long(), Some(0));
    zv.set_long(-7);
    assert_eq!(zv.coerce_to_long(), Some(-7));
    assert_eq!(Zval::Double(3.7f64.to_bits()).coerce_to_long(), Some(3));
    assert_eq!(Zval::new_array().coerce_to_long(), None);
}

#[test]
fn coerce_to_bool_follows_php() {
    let mut zv = Zval::new();
    zv.set_string("0", false).unwrap();
    assert!(!zv.coerce_to_bool());
    zv.set_string("a", false).unwrap();
    assert!(zv.coerce_to_bool());
    zv.set_long(0);
    assert!(!zv.coerce_to_bool());
    let mut ht = ZendHashTable::new();
    ht.insert(0i64, 1i64).unwrap();
    zv.set_hashtable(ht);
    assert!(zv.coerce_to_bool());
}

#[test]
fn setters_replace_the_value() {
    let mut zv = Zval::new();
    zv.set_long(5);
    assert!(zv.is_long());
    assert_eq!(zv.long(), Some(5));
    zv.set_string("hi", false).unwrap();
    assert!(zv.is_string());
    assert_eq!(zv.str(), Some("hi"));
    zv.set_bool(false);
    assert!(zv.is_false());
    zv.set_resource(3);
    assert_eq!(zv.resource(), Some(3));
}

#[test]
fn test_is_scalar() {
    let mut zval_long = Zval::new();
    zval_long.set_long(42);
    assert!(zval_long.is_scalar());

    let zval_double = Zval::Double(1.5f64.to_bits());
    assert!(zval_double.is_scalar());

    let mut zval_true = Zval::new();
    zval_true.set_bool(true);
    assert!(zval_true.is_scalar());

    let mut zval_false = Zval::new();
    zval_false.set_bool(false);
    assert!(zval_false.is_scalar());

    let mut zval_string = Zval::new();
    zval_string
        .set_string("hello", false)
        .expect("set_string should succeed");
    assert!(zval_string.is_scalar());

    let zval_null = Zval::null();
    assert!(!zval_null.is_scalar());

    let zval_array = Zval::new_array();
    assert!(!zval_array.is_scalar());
}

#[test]
fn test_coerce_to_bool() {
    let mut zv = Zval::new();

    zv.set_long(42);
    assert!(zv.coerce_to_bool(), "(bool)42 should be true");
    zv.set_long(1);
    assert!(zv.coerce_to_bool(), "(bool)1 should be true");
    zv.set_long(-1);
    assert!(zv.coerce_to_bool(), "(bool)-1 should be true");

    zv = Zval::Double(0.1f64.to_bits());
    assert!(zv.coerce_to_bool(), "(bool)0.1 should be true");
    zv = Zval::Double((-0.1f64).to_bits());
    assert!(zv.coerce_to_bool(), "(bool)-0.1 should be true");

    zv.set_string("hello", false).unwrap();
    assert!(zv.coerce_to_bool(), "(bool)'hello' should be true");
    zv.set_string("1", false).unwrap();
    assert!(zv.coerce_to_bool(), "(bool)'1' should be true");
    zv.set_string("false", false).unwrap();
    assert!(zv.coerce_to_bool(), "(bool)'false' should be true");
    zv.set_string("true", false).unwrap();
    assert!(zv.coerce_to_bool(), "(bool)'true' should be true");
    zv.set_string(" ", false).unwrap();
    assert!(zv.coerce_to_bool(), "(bool)' ' should be true");
    zv.set_string("00", false).unwrap();
    assert!(zv.coerce_to_bool(), "(bool)'00' should be true");

    zv.set_bool(true);
    assert!(zv.coerce_to_bool(), "(bool)true should be true");

    zv.set_long(0);
    assert!(!zv.coerce_to_bool(), "(bool)0 should be false");

    zv = Zval::Double(0.0f64.to_bits());
    assert!(!zv.coerce_to_bool(), "(bool)0.0 should be false");
    zv = Zval::Double((-0.0f64).to_bits());
    assert!(!zv.coerce_to_bool(), "(bool)-0.0 should be false");

    zv.set_string("", false).unwrap();
    assert!(!zv.coerce_to_bool(), "(bool)'' should be false");
    zv.set_string("0", false).unwrap();
    assert!(!zv.coerce_to_bool(), "(bool)'0' should be false");

    zv.set_bool(false);
    assert!(!zv.coerce_to_bool(), "(bool)false should be false");

    let null_zv = Zval::null();
    assert!(!null_zv.coerce_to_bool(), "(bool)null should be false");

    let empty_array = Zval::new_array();
    assert!(!empty_array.coerce_to_bool(), "(bool)[] should be false");
}

#[test]
fn test_coerce_to_long() {
    let mut zv = Zval::new();

    zv.set_long(42);
    assert_eq!(zv.coerce_to_long(), Some(42));
    zv.set_long(-42);
    assert_eq!(zv.coerce_to_long(), Some(-42));
    zv.set_long(0);
    assert_eq!(zv.coerce_to_long(), Some(0));

    zv = Zval::Double(3.14f64.to_bits());
    assert_eq!(zv.coerce_to_long(), Some(3));
    zv = Zval::Double(3.99f64.to_bits());
    assert_eq!(zv.coerce_to_long(), Some(3));
    zv = Zval::Double((-3.14f64).to_bits());
    assert_eq!(zv.coerce_to_long(), Some(-3));
    zv = Zval::Double((-3.99f64).to_bits());
    assert_eq!(zv.coerce_to_long(), Some(-3));
    zv = Zval::Double(0.0f64.to_bits());
    assert_eq!(zv.coerce_to_long(), Some(0));
    zv = Zval::Double((-0.0f64).to_bits());
    assert_eq!(zv.coerce_to_long(), Some(0));

    zv.set_bool(true);
    assert_eq!(zv.coerce_to_long(), Some(1));
    zv.set_bool(false);
    assert_eq!(zv.coerce_to_long(), Some(0));

    let null_zv = Zval::null();
    assert_eq!(null_zv.coerce_to_long(), Some(0));

    zv.set_string("123", false).unwrap();
    assert_eq!(zv.coerce_to_long(), Some(123));
    zv.set_string("  123", false).unwrap();
    assert_eq!(zv.coerce_to_long(), Some(123));
    zv.set_string("123abc", false).unwrap();
    assert_eq!(zv.coerce_to_long(), Some(123));
    zv.set_string("abc123", false).unwrap();
    assert_eq!(zv.coerce_to_long(), Some(0));
    zv.set_string("", false).unwrap();
    assert_eq!(zv.coerce_to_long(), Some(0));
    zv.set_string("0", false).unwrap();
    assert_eq!(zv.coerce_to_long(), Some(0));
    zv.set_string("-0", false).unwrap();
    assert_eq!(zv.coerce_to_long(), Some(0));
    zv.set_string("+123", false).unwrap();
    assert_eq!(zv.coerce_to_long(), Some(123));
    zv.set_string("   -456", false).unwrap();
    assert_eq!(zv.coerce_to_long(), Some(-456));
    zv.set_string("3.14", false).unwrap();
    assert_eq!(zv.coerce_to_long(), Some(3));
    zv.set_string("3.99", false).unwrap();
    assert_eq!(zv.coerce_to_long(), Some(3));
    zv.set_string("-3.99", false).unwrap();
    assert_eq!(zv.coerce_to_long(), Some(-3));
    zv.set_string("abc", false).unwrap();
    assert_eq!(zv.coerce_to_long(), Some(0));

    let arr_zv = Zval::new_array();
    assert_eq!(arr_zv.coerce_to_long(), None);
}

#[test]
fn coerce_to_string_follows_php_rules() {
    let mut zv = Zval::new();

    zv.set_long(42);
    assert_eq!(zv.coerce_to_string(None, None), Some("42".to_string()));
    zv.set_long(-123);
    assert_eq!(zv.coerce_to_string(None, None), Some("-123".to_string()));
    zv.set_long(0);
    assert_eq!(zv.coerce_to_string(None, None), Some("0".to_string()));
    zv.set_long(i64::MIN);
    assert_eq!(zv.coerce_to_string(None, None), Some(i64::MIN.to_string()));

    zv = Zval::Double(f64::INFINITY.to_bits());
    assert_eq!(zv.coerce_to_string(None, None), Some("INF".to_string()));
    zv = Zval::Double(f64::NEG_INFINITY.to_bits());
    assert_eq!(zv.coerce_to_string(None, None), Some("-INF".to_string()));
    zv = Zval::Double(f64::NAN.to_bits());
    assert_eq!(zv.coerce_to_string(None, None), Some("NAN".to_string()));
    zv = Zval::Double(3.14f64.to_bits());
    assert_eq!(zv.coerce_to_string(Some("3.14".to_string()), None), Some("3.14".to_string()));
    assert_eq!(zv.coerce_to_string(None, Some("x".to_string())), None);

    zv.set_bool(true);
    assert_eq!(zv.coerce_to_string(Some("9".to_string()), None), Some("1".to_string()));
    zv.set_bool(false);
    assert_eq!(zv.coerce_to_string(None, None), Some(String::new()));

    let null_zv = Zval::null();
    assert_eq!(null_zv.coerce_to_string(None, None), Some(String::new()));

    zv.set_string("hello", false).unwrap();
    assert_eq!(zv.coerce_to_string(None, None), Some("hello".to_string()));

    let arr_zv = Zval::new_array();
    assert_eq!(arr_zv.coerce_to_string(Some("1".to_string()), Some("2".to_string())), None);
}

#[test]
fn extract_reads_the_requested_type() {
    let mut zv = Zval::new();
    zv.set_long(7);
    assert_eq!(zv.extract::<i64>(), Some(7));
    assert_eq!(zv.extract::<bool>(), None);
    zv.set_string("hi", false).unwrap();
    assert_eq!(zv.extract::<String>(), Some("hi".to_string()));
}

#[test]
fn test_btree_set_try_from_hash_table() {
    let mut ht = ZendHashTable::new();
    ht.insert(0i64, "value1").unwrap();
    ht.insert(1i64, "value2").unwrap();
    ht.insert(2i64, "value3").unwrap();
    let mut zval = Zval::new();
    zval.set_hashtable(ht);

    let map = <BTreeSet<String> as FromZval>::from_zval(&zval).unwrap();
    assert_eq!(map.len(), 3);
    let mut it = map.iter();
    assert_eq!(it.next().unwrap(), "value1");
    assert_eq!(it.next().unwrap(), "value2");
    assert_eq!(it.next().unwrap(), "value3");
    assert_eq!(it.next(), None);
}

#[test]
fn a_set_is_not_read_from_a_mixed_array() {
    let mut ht = ZendHashTable::new();
    ht.insert(0i64, "a").unwrap();
    ht.insert(1i64, 5i64).unwrap();
    let mut zval = Zval::new();
    zval.set_hashtable(ht);
    assert!(<BTreeSet<String> as FromZval>::from_zval(&zval).is_none());
    assert_eq!(
        <BTreeSet<i64> as FromZval>::from_zval(&Zval::null()),
        None
    );
}

#[test]
fn strings_that_are_not_utf8_coerce_by_their_leading_number() {
    let mut zv = Zval::new();
    zv.set_binary(vec![b' ', b' ', b'4', b'2', 0xff, b'7']);
    assert_eq!(zv.coerce_to_long(), Some(42));
    zv.set_binary(vec![0xff, b'4', b'2']);
    assert_eq!(zv.coerce_to_long(), Some(0));
    zv.set_binary(vec![b'-', b'9', 0xc3]);
    assert_eq!(zv.coerce_to_long(), Some(-9));
    assert_eq!(zv.str(), None);
}

#[test]
fn binary_strings_keep_their_bytes() {
    let mut zv = Zval::new();
    assert_eq!(zv.binary(), None);
    assert_eq!(zv.binary_slice(), None);
    zv.set_binary(vec![1u8, 0, 0xfe]);
    assert_eq!(zv.binary(), Some(vec![1u8, 0, 0xfe]));
    assert_eq!(zv.binary_slice(), Some(&[1u8, 0, 0xfe][..]));
    assert!(zv.is_string());
}

#[test]
fn ascii_prefix_text_stops_at_the_first_high_byte() {
    assert_eq!(ascii_prefix_text(b"12ab\xff34"), "12ab");
    assert_eq!(ascii_prefix_text(b"\x80"), "");
    assert_eq!(ascii_prefix_text(b"plain"), "plain");
}

#[test]
fn zend_strings_carry_their_allocation_flags() {
    let s = ZendStr::new("abc", true);
    assert!(s.is_persistent());
    assert!(!s.is_interned());
    let t = ZendStr::new_interned("abc", false);
    assert!(!t.is_persistent());
    assert!(t.is_interned());
    let mut zv = Zval::new();
    zv.set_string("x", true).unwrap();
    assert!(zv.zend_str().unwrap().is_persistent());
    zv.set_interned_string("y", false).unwrap();
    assert!(zv.zend_str().unwrap().is_interned());
}

#[test]
fn test_hash_set_try_from_hash_table() {
    let mut ht = ZendHashTable::new();
    ht.insert(0i64, "value1").unwrap();
    ht.insert(1i64, "value2").unwrap();
    ht.insert(2i64, "value3").unwrap();
    let mut zval = Zval::new();
    zval.set_hashtable(ht);

    let map = <HashSet<String> as FromZval>::from_zval(&zval).unwrap();
    assert_eq!(map.len(), 3);
    assert!(map.contains("value1"));
    assert!(map.contains("value2"));
    assert!(map.contains("value3"));
}

#[test]
fn hash_sets_merge_repeated_values_and_refuse_mixed_arrays() {
    let mut ht = ZendHashTable::new();
    ht.insert(0i64, 4i64).unwrap();
    ht.insert(1i64, 4i64).unwrap();
    ht.insert(2i64, 9i64).unwrap();
    let mut zval = Zval::new();
    zval.set_hashtable(ht);
    let set = <HashSet<i64> as FromZval>::from_zval(&zval).unwrap();
    assert_eq!(set.len(), 2);
    assert!(set.contains(&4) && set.contains(&9));
    let mut mixed = ZendHashTable::new();
    mixed.insert(0i64, "a").unwrap();
    let mut zv = Zval::new();
    zv.set_hashtable(mixed);
    assert!(<HashSet<i64> as FromZval>::from_zval(&zv).is_none());
    assert!(<HashSet<i64> as FromZval>::from_zval(&Zval::null()).is_none());
}
