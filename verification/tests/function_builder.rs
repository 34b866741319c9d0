use ext_php_rs::args::Arg;
use ext_php_rs::builders::function::{FunctionBuilder, ZEND_ACC_ABSTRACT, ZEND_ACC_VARIADIC};
use ext_php_rs::describe::{method_from, Function, MethodType, Parameter, Retval, Visibility, ACC_PROTECTED, ACC_STATIC};
use ext_php_rs::flags::DataType;
use ext_php_rs::types::php_type::{DnfTerm, PhpType};
use ext_php_rs::zend::zend_type::{
    TypePtr, _ZEND_TYPE_INTERSECTION_BIT, _ZEND_TYPE_LIST_BIT, _ZEND_TYPE_LITERAL_NAME_BIT,
    _ZEND_TYPE_NULLABLE_BIT, _ZEND_TYPE_UNION_BIT,
};

fn noop() {}

#[test]
fn build_counts_required_arguments() {
    let entry = FunctionBuilder::new("f", noop as fn())
        .arg(Arg::new("a", DataType::Long))
        .not_required()
        .arg(Arg::new("b", DataType::Long))
        .build()
        .unwrap();
    assert_eq!(entry.fname, "f");
    assert_eq!(entry.required_num_args, 1);
    assert_eq!(entry.num_args, 2);
    assert_eq!(entry.arg_info.len(), 2);
    assert_eq!(entry.flags, 0);
}

#[test]
fn build_marks_a_variadic_function() {
    let entry = FunctionBuilder::new("f", noop as fn())
        .arg(Arg::new("a", DataType::Long))
        .arg(Arg::new("rest", DataType::Long).is_variadic())
        .build()
        .unwrap();
    assert_eq!(entry.flags & ZEND_ACC_VARIADIC, ZEND_ACC_VARIADIC);
    assert_eq!(entry.required_num_args, 1);
}

#[test]
fn abstract_method_has_no_handler() {
    let entry = FunctionBuilder::<fn()>::new_abstract("m").build().unwrap();
    assert!(entry.handler.is_none());
    assert_eq!(entry.flags, ZEND_ACC_ABSTRACT);
}

#[test]
fn returns_class_union_emits_literal_name_on_retval_arg_info() {
    let entry = FunctionBuilder::new("ret_class_union", noop as fn())
        .returning(PhpType::ClassUnion(vec!["Foo".to_owned(), "Bar".to_owned()]), false, false)
        .build()
        .expect("class union return should build");
    assert_ne!(entry.return_type.type_mask & _ZEND_TYPE_LITERAL_NAME_BIT, 0);
    assert!(!entry.return_type.ptr.is_null());
    match &entry.return_type.ptr {
        TypePtr::LiteralName(s) => assert_eq!(s, "Foo|Bar"),
        _ => panic!("a class union return is a literal name"),
    }
}

#[test]
fn nullable_void_return_is_not_marked_nullable() {
    let b = FunctionBuilder::new("f", noop as fn()).returning(DataType::Void, false, true);
    assert!(!b.ret_as_null);
    let b = FunctionBuilder::new("f", noop as fn()).returning(DataType::Long, false, true);
    assert!(b.ret_as_null);
}

#[test]
fn build_reports_a_bad_argument() {
    let result = FunctionBuilder::new("f", noop as fn())
        .arg(Arg::new("a", PhpType::ClassUnion(vec![])))
        .build();
    assert!(result.is_err());
}

#[test]
fn constructor_is_named_construct() {
    let b = FunctionBuilder::constructor(noop as fn());
    assert_eq!(b.name, "__construct");
}

#[test]
fn test_function_from() {
    let builder = FunctionBuilder::new("test_function", noop as fn())
        .docs(&["doc1", "doc2"])
        .arg(Arg::new("foo", DataType::Long))
        .returning(DataType::Bool, true, true);
    let function: Function = builder.into();
    assert_eq!(function.name, "test_function");
    assert_eq!(function.docs.0.len(), 2);
    assert_eq!(
        function.params,
        vec![Parameter {
            name: "foo".into(),
            ty: Some(PhpType::Simple(DataType::Long)),
            nullable: false,
            variadic: false,
            default: None,
        }]
    );
    assert_eq!(function.ret, Some(Retval { ty: PhpType::Simple(DataType::Bool), nullable: true }));
}

#[test]
fn test_method_from() {
    let builder = FunctionBuilder::new("test_method", noop as fn())
        .docs(&["doc1", "doc2"])
        .arg(Arg::new("foo", DataType::Long))
        .returning(DataType::Bool, true, true);
    let method = method_from(builder, ACC_STATIC | ACC_PROTECTED);
    assert_eq!(method.name, "test_method");
    assert_eq!(method.docs.0.len(), 2);
    assert!(method.is_static);
    assert_eq!(method.visibility, Visibility::Protected);
    assert_eq!(method.ty, MethodType::Static);
}

#[test]
fn returns_class_union_with_allow_null_propagates_nullable_bit() {
    let entry = FunctionBuilder::new("ret_nullable_class_union", noop as fn())
        .returning(PhpType::ClassUnion(vec!["Foo".to_owned(), "Bar".to_owned()]), false, true)
        .build()
        .expect("nullable class union return should build");
    assert_ne!(entry.return_type.type_mask & _ZEND_TYPE_NULLABLE_BIT, 0);
}

#[test]
fn returns_intersection_emits_list_with_intersection_bit_on_retval() {
    let entry = FunctionBuilder::new("ret_intersection", noop as fn())
        .returning(
            PhpType::Intersection(vec!["Countable".to_owned(), "Traversable".to_owned()]),
            false,
            false,
        )
        .build()
        .expect("intersection return should build");
    assert_ne!(entry.return_type.type_mask & _ZEND_TYPE_LIST_BIT, 0);
    assert_ne!(entry.return_type.type_mask & _ZEND_TYPE_INTERSECTION_BIT, 0);
    assert!(!entry.return_type.ptr.is_null());
}

#[test]
fn returns_intersection_with_allow_null_errors() {
    let result = FunctionBuilder::new("ret_nullable_intersection", noop as fn())
        .returning(PhpType::Intersection(vec!["Foo".to_owned(), "Bar".to_owned()]), false, true)
        .build();
    assert!(
        result.is_err(),
        "nullable intersection retval must error: nullable form is the DNF (Foo&Bar)|null"
    );
}

#[test]
fn returns_dnf_emits_outer_list_with_union_bit_on_retval() {
    let entry = FunctionBuilder::new("ret_dnf", noop as fn())
        .returning(
            PhpType::Dnf(vec![
                DnfTerm::Intersection(vec!["A".to_owned(), "B".to_owned()]),
                DnfTerm::Single("C".to_owned()),
            ]),
            false,
            false,
        )
        .build()
        .expect("DNF return should build");
    assert_ne!(entry.return_type.type_mask & _ZEND_TYPE_LIST_BIT, 0);
    assert_ne!(entry.return_type.type_mask & _ZEND_TYPE_UNION_BIT, 0);
    assert!(!entry.return_type.ptr.is_null());
}

#[test]
fn returns_dnf_with_allow_null_propagates_nullable_bit() {
    let entry = FunctionBuilder::new("ret_nullable_dnf", noop as fn())
        .returning(
            PhpType::Dnf(vec![
                DnfTerm::Intersection(vec!["A".to_owned(), "B".to_owned()]),
                DnfTerm::Single("C".to_owned()),
            ]),
            false,
            true,
        )
        .build()
        .expect("nullable DNF return should build");
    assert_ne!(entry.return_type.type_mask & _ZEND_TYPE_NULLABLE_BIT, 0);
}

#[test]
fn returns_empty_dnf_errors() {
    let result = FunctionBuilder::new("ret_empty_dnf", noop as fn())
        .returning(PhpType::Dnf(vec![]), false, false)
        .build();
    assert!(result.is_err());
}
