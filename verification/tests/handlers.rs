use ext_php_rs::describe::{ACC_PRIVATE, ACC_PROTECTED, ACC_PUBLIC};
use ext_php_rs::types::zval::{ZendHashTable, Zval};
use ext_php_rs::zend::handlers::{
    check_property_access, fill_property_table, has_property_answer, invalid_has_property_query_error,
    mangle_property_name, property_access_error, HasPropertyAnswer,
};

#[test]
fn public_properties_are_open_to_everyone() {
    assert!(check_property_access(ACC_PUBLIC, None, 7, false));
    assert!(check_property_access(ACC_PUBLIC, Some(3), 7, false));
}

#[test]
fn private_properties_need_the_same_class() {
    assert!(check_property_access(ACC_PRIVATE, Some(7), 7, false));
    assert!(!check_property_access(ACC_PRIVATE, Some(8), 7, true));
    assert!(!check_property_access(ACC_PRIVATE, None, 7, false));
}

#[test]
fn protected_properties_need_a_related_class() {
    assert!(check_property_access(ACC_PROTECTED, Some(7), 7, false));
    assert!(check_property_access(ACC_PROTECTED, Some(8), 7, true));
    assert!(!check_property_access(ACC_PROTECTED, Some(8), 7, false));
    assert!(!check_property_access(ACC_PROTECTED, None, 7, true));
}

#[test]
fn refused_access_names_the_property() {
    assert_eq!(property_access_error("Foo", "bar", true), "Cannot access private property Foo::$bar");
    assert_eq!(property_access_error("Foo", "bar", false), "Cannot access protected property Foo::$bar");
}

#[test]
fn property_names_are_mangled_by_visibility() {
    assert_eq!(mangle_property_name("Foo", "bar", ACC_PRIVATE), "\0Foo\0bar");
    assert_eq!(mangle_property_name("Foo", "bar", ACC_PROTECTED), "\0*\0bar");
    assert_eq!(mangle_property_name("Foo", "bar", ACC_PUBLIC), "bar");
}

#[test]
fn has_property_answers_each_query_kind() {
    let null = Zval::null();
    let mut zero = Zval::new();
    zero.set_long(0);
    let mut one = Zval::new();
    one.set_long(1);

    assert_eq!(has_property_answer(0, true, Some(Ok(&zero))), HasPropertyAnswer::Yes);
    assert_eq!(has_property_answer(0, true, Some(Ok(&null))), HasPropertyAnswer::Standard);
    assert_eq!(has_property_answer(0, false, None), HasPropertyAnswer::Standard);
    assert_eq!(has_property_answer(1, true, Some(Ok(&one))), HasPropertyAnswer::Yes);
    assert_eq!(has_property_answer(1, true, Some(Ok(&zero))), HasPropertyAnswer::Standard);
    assert_eq!(has_property_answer(2, true, None), HasPropertyAnswer::Yes);
    assert_eq!(has_property_answer(2, false, None), HasPropertyAnswer::Standard);
    assert_eq!(has_property_answer(3, true, Some(Ok(&one))), HasPropertyAnswer::InvalidQuery);
    assert_eq!(has_property_answer(0, true, Some(Err(()))), HasPropertyAnswer::GetterFailed);
    assert_eq!(has_property_answer(1, true, Some(Err(()))), HasPropertyAnswer::GetterFailed);
    assert_eq!(has_property_answer(1, false, Some(Err(()))), HasPropertyAnswer::Standard);
    assert_eq!(
        invalid_has_property_query_error(),
        "Invalid value given for `has_set_exists` in struct `has_property` function."
    );
}

#[test]
fn the_property_table_holds_the_readable_properties() {
    let mut table = ZendHashTable::new();
    let mut a = Zval::new();
    a.set_long(1);
    let mut b = Zval::new();
    b.set_long(2);
    fill_property_table(
        &mut table,
        "Foo",
        vec![
            ("secret".to_string(), ACC_PRIVATE, Some(a)),
            ("broken".to_string(), ACC_PUBLIC, None),
            ("shared".to_string(), ACC_PROTECTED, Some(b)),
        ],
    );
    assert_eq!(table.len(), 2);
    assert_eq!(table.get("\0Foo\0secret").and_then(|v| v.long()), Some(1));
    assert_eq!(table.get("\0*\0shared").and_then(|v| v.long()), Some(2));
    assert!(table.get("broken").is_none());
}
