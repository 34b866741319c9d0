use ext_php_rs::flags::DataType;
use ext_php_rs::zend::expected_type::{
    ExpectedType, Z_EXPECTED_ARRAY, Z_EXPECTED_ARRAY_OR_NULL, Z_EXPECTED_BOOL,
    Z_EXPECTED_BOOL_OR_NULL, Z_EXPECTED_DOUBLE, Z_EXPECTED_DOUBLE_OR_NULL, Z_EXPECTED_LONG,
    Z_EXPECTED_LONG_OR_NULL, Z_EXPECTED_OBJECT, Z_EXPECTED_OBJECT_OR_NULL, Z_EXPECTED_RESOURCE,
    Z_EXPECTED_RESOURCE_OR_NULL, Z_EXPECTED_STRING, Z_EXPECTED_STRING_OR_NULL,
};

#[test]
fn from_simple_long() {
    assert_eq!(ExpectedType::from_simple(DataType::Long, false), Some(ExpectedType::Long));
}

#[test]
fn from_simple_long_nullable() {
    assert_eq!(ExpectedType::from_simple(DataType::Long, true), Some(ExpectedType::LongOrNull));
}

#[test]
fn from_simple_bool_via_false_alias() {
    assert_eq!(ExpectedType::from_simple(DataType::False, false), Some(ExpectedType::Bool));
}

#[test]
fn from_simple_bool_via_true_alias() {
    assert_eq!(ExpectedType::from_simple(DataType::True, false), Some(ExpectedType::Bool));
}

#[test]
fn from_simple_bool_nullable() {
    assert_eq!(ExpectedType::from_simple(DataType::Bool, true), Some(ExpectedType::BoolOrNull));
}

#[test]
fn from_simple_string() {
    assert_eq!(ExpectedType::from_simple(DataType::String, false), Some(ExpectedType::String));
}

#[test]
fn from_simple_string_nullable() {
    assert_eq!(ExpectedType::from_simple(DataType::String, true), Some(ExpectedType::StringOrNull));
}

#[test]
fn from_simple_array() {
    assert_eq!(ExpectedType::from_simple(DataType::Array, false), Some(ExpectedType::Array));
}

#[test]
fn from_simple_array_nullable() {
    assert_eq!(ExpectedType::from_simple(DataType::Array, true), Some(ExpectedType::ArrayOrNull));
}

#[test]
fn from_simple_object_with_class_name() {
    assert_eq!(ExpectedType::from_simple(DataType::Object(Some("Foo")), false), Some(ExpectedType::Object));
}

#[test]
fn from_simple_object_without_class_name_nullable() {
    assert_eq!(ExpectedType::from_simple(DataType::Object(None), true), Some(ExpectedType::ObjectOrNull));
}

#[test]
fn from_simple_double() {
    assert_eq!(ExpectedType::from_simple(DataType::Double, false), Some(ExpectedType::Double));
}

#[test]
fn from_simple_double_nullable() {
    assert_eq!(ExpectedType::from_simple(DataType::Double, true), Some(ExpectedType::DoubleOrNull));
}

#[test]
fn from_simple_resource() {
    assert_eq!(ExpectedType::from_simple(DataType::Resource, false), Some(ExpectedType::Resource));
}

#[test]
fn from_simple_resource_nullable() {
    assert_eq!(ExpectedType::from_simple(DataType::Resource, true), Some(ExpectedType::ResourceOrNull));
}

#[test]
fn from_simple_unsupported_returns_none() {
    assert!(ExpectedType::from_simple(DataType::Mixed, false).is_none());
    assert!(ExpectedType::from_simple(DataType::Void, false).is_none());
    assert!(ExpectedType::from_simple(DataType::Iterable, false).is_none());
    assert!(ExpectedType::from_simple(DataType::Callable, false).is_none());
    assert!(ExpectedType::from_simple(DataType::Null, false).is_none());
}

#[test]
fn into_raw_long() {
    assert_eq!(ExpectedType::Long.into_raw(), Z_EXPECTED_LONG);
}

#[test]
fn into_raw_long_or_null() {
    assert_eq!(ExpectedType::LongOrNull.into_raw(), Z_EXPECTED_LONG_OR_NULL);
}

#[test]
fn into_raw_bool() {
    assert_eq!(ExpectedType::Bool.into_raw(), Z_EXPECTED_BOOL);
}

#[test]
fn into_raw_bool_or_null() {
    assert_eq!(ExpectedType::BoolOrNull.into_raw(), Z_EXPECTED_BOOL_OR_NULL);
}

#[test]
fn into_raw_string() {
    assert_eq!(ExpectedType::String.into_raw(), Z_EXPECTED_STRING);
}

#[test]
fn into_raw_string_or_null() {
    assert_eq!(ExpectedType::StringOrNull.into_raw(), Z_EXPECTED_STRING_OR_NULL);
}

#[test]
fn into_raw_array() {
    assert_eq!(ExpectedType::Array.into_raw(), Z_EXPECTED_ARRAY);
}

#[test]
fn into_raw_array_or_null() {
    assert_eq!(ExpectedType::ArrayOrNull.into_raw(), Z_EXPECTED_ARRAY_OR_NULL);
}

#[test]
fn into_raw_object() {
    assert_eq!(ExpectedType::Object.into_raw(), Z_EXPECTED_OBJECT);
}

#[test]
fn into_raw_object_or_null() {
    assert_eq!(ExpectedType::ObjectOrNull.into_raw(), Z_EXPECTED_OBJECT_OR_NULL);
}

#[test]
fn into_raw_double() {
    assert_eq!(ExpectedType::Double.into_raw(), Z_EXPECTED_DOUBLE);
}

#[test]
fn into_raw_double_or_null() {
    assert_eq!(ExpectedType::DoubleOrNull.into_raw(), Z_EXPECTED_DOUBLE_OR_NULL);
}

#[test]
fn into_raw_resource() {
    assert_eq!(ExpectedType::Resource.into_raw(), Z_EXPECTED_RESOURCE);
}

#[test]
fn into_raw_resource_or_null() {
    assert_eq!(ExpectedType::ResourceOrNull.into_raw(), Z_EXPECTED_RESOURCE_OR_NULL);
}

#[test]
fn nullable_discriminants_follow_their_plain_ones() {
    for (plain, nullable) in [
        (ExpectedType::Long, ExpectedType::LongOrNull),
        (ExpectedType::Bool, ExpectedType::BoolOrNull),
        (ExpectedType::String, ExpectedType::StringOrNull),
        (ExpectedType::Array, ExpectedType::ArrayOrNull),
        (ExpectedType::Object, ExpectedType::ObjectOrNull),
        (ExpectedType::Double, ExpectedType::DoubleOrNull),
        (ExpectedType::Resource, ExpectedType::ResourceOrNull),
    ] {
        assert_eq!(nullable.into_raw(), plain.into_raw() + 1);
    }
}
