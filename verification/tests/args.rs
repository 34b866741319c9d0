use ext_php_rs::args::{Arg, ArgParser};
use ext_php_rs::describe::Parameter;
use ext_php_rs::error::Error;
use ext_php_rs::flags::DataType;
use ext_php_rs::types::php_type::{DnfTerm, PhpType, PhpUnion};
use ext_php_rs::types::zval::Zval;
use ext_php_rs::zend::expected_type::ExpectedType;
use ext_php_rs::zend::zend_type::{
    TypePtr, _ZEND_TYPE_ARENA_BIT, _ZEND_TYPE_INTERSECTION_BIT, _ZEND_TYPE_LIST_BIT,
    _ZEND_TYPE_LITERAL_NAME_BIT, _ZEND_TYPE_NULLABLE_BIT, _ZEND_TYPE_UNION_BIT,
};

#[test]
fn test_new() {
    let arg = Arg::new("test", DataType::Long);
    assert_eq!(arg.name, "test");
    assert_eq!(arg.ty, PhpType::Simple(DataType::Long));
    assert!(!arg.as_ref);
    assert!(!arg.allow_null);
    assert!(!arg.variadic);
    assert!(arg.default_value.is_none());
    assert!(arg.zval.is_none());
    assert!(arg.variadic_zvals.is_empty());
}

#[test]
fn test_new_with_union() {
    let arg = Arg::new("test", PhpType::Union(vec![DataType::Long, DataType::String]));
    assert_eq!(arg.ty, PhpType::Union(vec![DataType::Long, DataType::String]));
}

#[test]
fn test_as_ref() {
    let arg = Arg::new("test", DataType::Long).as_ref();
    assert!(arg.as_ref);
}

#[test]
fn test_is_variadic() {
    let arg = Arg::new("test", DataType::Long).is_variadic();
    assert!(arg.variadic);
}

#[test]
fn test_allow_null() {
    let arg = Arg::new("test", DataType::Long).allow_null();
    assert!(arg.allow_null);
}

#[test]
fn test_default() {
    let arg = Arg::new("test", DataType::Long).default("default");
    assert_eq!(arg.default_value, Some("default".to_string()));
}

#[test]
fn test_consume_no_value() {
    let arg = Arg::new("test", DataType::Long);
    let result: Result<i32, _> = arg.consume();
    assert!(result.is_err());
    assert_eq!(result.unwrap_err().name, "test");
}

#[test]
fn test_consume() {
    let mut arg = Arg::new("test", DataType::Long);
    let mut zval = Zval::Long(42);
    arg.zval = Some(&mut zval);

    let result: Result<i32, _> = arg.consume();
    assert_eq!(result.unwrap(), 42);
}

#[test]
fn test_val_no_value() {
    let arg = Arg::new("test", DataType::Long);
    let result: Option<i32> = arg.val();
    assert!(result.is_none());
}

#[test]
fn test_val() {
    let mut arg = Arg::new("test", DataType::Long);
    let mut zval = Zval::Long(42);
    arg.zval = Some(&mut zval);

    let result: Option<i32> = arg.val();
    assert_eq!(result.unwrap(), 42);
}

#[test]
fn test_variadic_vals() {
    let mut arg = Arg::new("test", DataType::Long).is_variadic();
    let mut zval1 = Zval::Long(42);
    let mut zval2 = Zval::Long(43);
    arg.variadic_zvals.push(Some(&mut zval1));
    arg.variadic_zvals.push(Some(&mut zval2));

    let result: Vec<i32> = arg.variadic_vals();
    assert_eq!(result, vec![42, 43]);
}

#[test]
fn test_zval_no_value() {
    let mut arg = Arg::new("test", DataType::Long);
    let result = arg.zval();
    assert!(result.is_none());
}

#[test]
fn test_zval() {
    let mut arg = Arg::new("test", DataType::Long);
    let mut zval = Zval::Long(42);
    arg.zval = Some(&mut zval);

    let result = arg.zval();
    assert!(result.is_some());
    assert_eq!(result.unwrap().dereference_mut().long(), Some(42));
}

#[test]
fn test_param_from_arg() {
    let arg = Arg::new("test", DataType::Long).default("default").allow_null();
    let param: Parameter = arg.into();
    assert_eq!(param.name, "test");
    assert_eq!(param.ty, Some(PhpType::Simple(DataType::Long)));
    assert!(param.nullable);
    assert_eq!(param.default, Some("default".to_string()));
}

#[test]
fn test_arg_parser_new() {
    let arg_zvals = vec![None, None];
    let parser = ArgParser::new(arg_zvals);
    assert_eq!(parser.arg_zvals.len(), 2);
    assert!(parser.args.is_empty());
    assert!(parser.min_num_args.is_none());
}

#[test]
fn test_arg_parser_arg() {
    let arg_zvals = vec![None, None];
    let mut parser = ArgParser::new(arg_zvals);
    let mut arg = Arg::new("test", DataType::Long);
    parser = parser.arg(&mut arg);
    assert_eq!(parser.args.len(), 1);
    assert_eq!(parser.args[0].name, "test");
    assert_eq!(parser.args[0].ty, PhpType::Simple(DataType::Long));
}

#[test]
fn test_as_arg_info() {
    let arg = Arg::new("test", DataType::Long);
    let arg_info = arg.as_arg_info();
    assert!(arg_info.is_ok());

    let arg_info = arg_info.unwrap();
    assert!(arg_info.default_value.is_none());
    assert_eq!(arg_info.type_.type_mask, 16);
}

#[test]
fn test_as_arg_info_with_default() {
    let arg = Arg::new("test", DataType::Long).default("default");
    let arg_info = arg.as_arg_info().unwrap();
    assert_eq!(arg_info.default_value.as_deref(), Some("default"));
    assert_eq!(arg_info.type_.type_mask, 16);
}

#[test]
fn as_arg_info_spells_a_none_default_as_null() {
    let arg = Arg::new("test", DataType::Long).default("None");
    let arg_info = arg.as_arg_info().unwrap();
    assert_eq!(arg_info.default_value.as_deref(), Some("null"));
}

#[test]
fn as_arg_info_reports_the_nul_in_a_name() {
    let arg = Arg::new("a\0b", DataType::Long);
    match arg.as_arg_info() {
        Err(Error::InvalidCString { position }) => assert_eq!(position, 1),
        _ => panic!("a NUL in the name must be refused"),
    }
}

#[test]
fn class_union_arg_with_empty_member_list_errors() {
    let arg = Arg::new("value", PhpType::ClassUnion(vec![]));
    assert!(arg.as_arg_info().is_err());
}

#[test]
fn intersection_arg_with_allow_null_errors() {
    let arg = Arg::new("value", PhpType::Intersection(vec!["Foo".to_owned(), "Bar".to_owned()]))
        .allow_null();
    assert!(arg.as_arg_info().is_err());
}

#[test]
fn dnf_arg_empty_terms_errors() {
    let arg = Arg::new("value", PhpType::Dnf(vec![]));
    assert!(arg.as_arg_info().is_err());
}

#[test]
fn expected_type_for_simple_long() {
    let arg = Arg::new("v", DataType::Long);
    let got = arg.expected_type().expect("simple long should map");
    assert_eq!(got, ExpectedType::Long);
}

#[test]
fn expected_type_for_nullable_simple_long() {
    let arg = Arg::new("v", DataType::Long).allow_null();
    let got = arg.expected_type().expect("nullable long should map");
    assert_eq!(got, ExpectedType::LongOrNull);
}

#[test]
fn expected_type_for_simple_object() {
    let arg = Arg::new("v", DataType::Object(Some("Foo")));
    let got = arg.expected_type().expect("simple object should map");
    assert_eq!(got, ExpectedType::Object);
}

#[test]
fn expected_type_for_nullable_object() {
    let arg = Arg::new("v", DataType::Object(None)).allow_null();
    let got = arg.expected_type().expect("nullable object should map");
    assert_eq!(got, ExpectedType::ObjectOrNull);
}

#[test]
fn expected_type_for_unmappable_simple_returns_no_discriminant() {
    let arg = Arg::new("v", DataType::Mixed);
    assert!(matches!(arg.expected_type(), Err(Error::NoExpectedTypeDiscriminant)));
}

#[test]
fn expected_type_for_primitive_union_returns_no_discriminant() {
    let arg = Arg::new("v", PhpType::Union(vec![DataType::Long, DataType::String]));
    assert!(matches!(arg.expected_type(), Err(Error::NoExpectedTypeDiscriminant)));
}

#[test]
fn expected_type_for_class_union_returns_no_discriminant() {
    let arg = Arg::new("v", PhpType::ClassUnion(vec!["Foo".to_owned(), "Bar".to_owned()]));
    assert!(matches!(arg.expected_type(), Err(Error::NoExpectedTypeDiscriminant)));
}

#[test]
fn expected_type_for_intersection_returns_no_discriminant() {
    let arg = Arg::new(
        "v",
        PhpType::Intersection(vec!["Countable".to_owned(), "Traversable".to_owned()]),
    );
    assert!(matches!(arg.expected_type(), Err(Error::NoExpectedTypeDiscriminant)));
}

#[test]
fn ty_returns_simple_php_type() {
    let arg = Arg::new("v", DataType::Long);
    assert_eq!(arg.ty(), &PhpType::Simple(DataType::Long));
}

#[test]
fn ty_returns_union_php_type() {
    let arg = Arg::new("v", PhpType::Union(vec![DataType::Long, DataType::String]));
    assert_eq!(arg.ty(), &PhpType::Union(vec![DataType::Long, DataType::String]));
}

#[test]
fn ty_renders_as_php_syntax_string() {
    let arg = Arg::new("v", PhpType::ClassUnion(vec!["Foo".to_owned(), "Bar".to_owned()]));
    assert_eq!(arg.ty().to_php_string(), "\\Foo|\\Bar");
}

#[test]
fn expected_type_for_dnf_returns_no_discriminant() {
    let arg = Arg::new(
        "v",
        PhpType::Dnf(vec![
            DnfTerm::Intersection(vec!["A".to_owned(), "B".to_owned()]),
            DnfTerm::Single("C".to_owned()),
        ]),
    );
    assert!(matches!(arg.expected_type(), Err(Error::NoExpectedTypeDiscriminant)));
}

#[test]
fn parse_hands_each_value_to_its_argument() {
    let mut a = Zval::Long(1);
    let mut b = Zval::Long(2);
    let mut first = Arg::new("first", DataType::Long);
    let mut second = Arg::new("second", DataType::Long);
    let result = ArgParser::new(vec![Some(&mut a), Some(&mut b)])
        .arg(&mut first)
        .arg(&mut second)
        .parse();
    assert!(result.is_ok());
    assert_eq!(first.val::<i64>(), Some(1));
    assert_eq!(second.val::<i64>(), Some(2));
}

#[test]
fn parse_gives_the_rest_to_a_variadic_last_argument() {
    let mut a = Zval::Long(1);
    let mut b = Zval::Long(2);
    let mut c = Zval::Long(3);
    let mut first = Arg::new("first", DataType::Long);
    let mut rest = Arg::new("rest", DataType::Long).is_variadic();
    let result = ArgParser::new(vec![Some(&mut a), Some(&mut b), Some(&mut c)])
        .arg(&mut first)
        .arg(&mut rest)
        .parse();
    assert!(result.is_ok());
    assert_eq!(first.val::<i64>(), Some(1));
    assert_eq!(rest.variadic_vals::<i64>(), vec![2, 3]);
}

#[test]
fn parse_refuses_too_few_values() {
    let mut a = Zval::Long(1);
    let mut first = Arg::new("first", DataType::Long);
    let mut second = Arg::new("second", DataType::Long);
    let result = ArgParser::new(vec![Some(&mut a)]).arg(&mut first).arg(&mut second).parse();
    match result {
        Err(Error::IncorrectArguments(got, min)) => {
            assert_eq!(got, 1);
            assert_eq!(min, 2);
        }
        _ => panic!("one value for two required arguments must be refused"),
    }
    assert!(first.zval.is_none());
}

#[test]
fn parse_refuses_too_many_values() {
    let mut a = Zval::Long(1);
    let mut b = Zval::Long(2);
    let mut first = Arg::new("first", DataType::Long);
    let result = ArgParser::new(vec![Some(&mut a), Some(&mut b)]).arg(&mut first).parse();
    assert!(matches!(result, Err(Error::IncorrectArguments(2, 1))));
}

#[test]
fn parse_accepts_missing_optional_arguments() {
    let mut a = Zval::Long(1);
    let mut first = Arg::new("first", DataType::Long);
    let mut second = Arg::new("second", DataType::Long);
    let result = ArgParser::new(vec![Some(&mut a)])
        .arg(&mut first)
        .not_required()
        .arg(&mut second)
        .parse();
    assert!(result.is_ok());
    assert_eq!(first.val::<i64>(), Some(1));
    assert!(second.zval.is_none());
}

#[test]
fn class_union_arg_emits_literal_name_with_pipe_joined_classes() {
    let arg = Arg::new("value", PhpType::ClassUnion(vec!["Foo".to_owned(), "Bar".to_owned()]));
    let arg_info = arg.as_arg_info().expect("class union should build");

    assert_ne!(
        arg_info.type_.type_mask & _ZEND_TYPE_LITERAL_NAME_BIT,
        0,
        "literal-name bit must be set on PHP 8.3+"
    );
    assert!(!arg_info.type_.ptr.is_null());
    match &arg_info.type_.ptr {
        TypePtr::LiteralName(class_str) => assert_eq!(class_str, "Foo|Bar"),
        _ => panic!("a class union is passed as a literal name"),
    }
}

#[test]
fn class_union_arg_with_allow_null_sets_nullable_bit() {
    let arg = Arg::new("value", PhpType::ClassUnion(vec!["Foo".to_owned(), "Bar".to_owned()]))
        .allow_null();
    let arg_info = arg.as_arg_info().expect("nullable class union should build");

    assert_ne!(
        arg_info.type_.type_mask & _ZEND_TYPE_NULLABLE_BIT,
        0,
        "allow_null must propagate _ZEND_TYPE_NULLABLE_BIT"
    );
}

#[test]
fn intersection_arg_emits_list_with_intersection_bit() {
    let arg = Arg::new(
        "value",
        PhpType::Intersection(vec!["Countable".to_owned(), "Traversable".to_owned()]),
    );
    let arg_info = arg.as_arg_info().expect("intersection should build");

    assert_ne!(arg_info.type_.type_mask & _ZEND_TYPE_LIST_BIT, 0);
    assert_ne!(arg_info.type_.type_mask & _ZEND_TYPE_INTERSECTION_BIT, 0);
    assert!(!arg_info.type_.ptr.is_null());
}

#[test]
fn intersection_arg_with_empty_member_list_errors() {
    let arg = Arg::new("value", PhpType::Intersection(vec![]));
    assert!(arg.as_arg_info().is_err());
}

#[test]
fn dnf_arg_emits_outer_list_with_union_arena_bits() {
    let arg = Arg::new(
        "value",
        PhpType::Dnf(vec![
            DnfTerm::Intersection(vec!["A".to_owned(), "B".to_owned()]),
            DnfTerm::Single("C".to_owned()),
        ]),
    );
    let arg_info = arg.as_arg_info().expect("DNF arg should build");

    assert_ne!(arg_info.type_.type_mask & _ZEND_TYPE_LIST_BIT, 0);
    assert_ne!(arg_info.type_.type_mask & _ZEND_TYPE_UNION_BIT, 0);
    assert_ne!(arg_info.type_.type_mask & _ZEND_TYPE_ARENA_BIT, 0);
    assert!(!arg_info.type_.ptr.is_null());
}

#[test]
fn dnf_arg_with_allow_null_sets_nullable_bit() {
    let arg = Arg::new(
        "value",
        PhpType::Dnf(vec![
            DnfTerm::Intersection(vec!["A".to_owned(), "B".to_owned()]),
            DnfTerm::Single("C".to_owned()),
        ]),
    )
    .allow_null();
    let arg_info = arg.as_arg_info().expect("nullable DNF arg should build");

    assert_ne!(arg_info.type_.type_mask & _ZEND_TYPE_NULLABLE_BIT, 0);
}

#[test]
fn a_union_enum_names_its_php_type() {
    enum IntOrString {
        #[allow(dead_code)]
        Int(i64),
        #[allow(dead_code)]
        Str(String),
    }

    impl PhpUnion for IntOrString {
        fn union_types() -> PhpType {
            PhpType::Union(vec![DataType::Long, DataType::String])
        }
    }

    assert_eq!(
        <IntOrString as PhpUnion>::union_types(),
        PhpType::Union(vec![DataType::Long, DataType::String])
    );
    let arg = Arg::new("v", IntOrString::union_types());
    assert_eq!(arg.ty, PhpType::Union(vec![DataType::Long, DataType::String]));
}
