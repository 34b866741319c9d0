use ext_php_rs::flags::{DataType, IS_LONG, IS_STRING};
use ext_php_rs::types::php_type::{DnfTerm, PhpType};
use ext_php_rs::zend::zend_type::{
    TypePtr, ZendType, _ZEND_TYPE_ARENA_BIT, _ZEND_TYPE_INTERSECTION_BIT, _ZEND_TYPE_LIST_BIT,
    _ZEND_TYPE_LITERAL_NAME_BIT, _ZEND_TYPE_NAME_BIT, _ZEND_TYPE_NULLABLE_BIT,
    _ZEND_TYPE_UNION_BIT,
};

fn may_be_long() -> u32 {
    1u32 << IS_LONG
}

fn may_be_string() -> u32 {
    1u32 << IS_STRING
}

#[test]
fn empty_for_property_simple_primitive_emits_type_mask_only() {
    let ty = ZendType::empty_for_property(&PhpType::Simple(DataType::Long), false)
        .expect("simple primitive should build");

    assert!(ty.ptr.is_null(), "primitive must not carry a pointer");
    assert_ne!(ty.type_mask & may_be_long(), 0);
    assert_eq!(ty.type_mask & _ZEND_TYPE_LIST_BIT, 0, "primitive must not set the list bit");
    assert_eq!(ty.type_mask & _ZEND_TYPE_NULLABLE_BIT, 0);
}

#[test]
fn empty_for_property_nullable_primitive_sets_nullable_bit() {
    let ty = ZendType::empty_for_property(&PhpType::Simple(DataType::Long), true)
        .expect("nullable primitive should build");

    assert_ne!(ty.type_mask & _ZEND_TYPE_NULLABLE_BIT, 0);
    assert_ne!(ty.type_mask & may_be_long(), 0);
}

#[test]
fn empty_for_property_primitive_union_ors_may_be_bits() {
    let ty =
        ZendType::empty_for_property(&PhpType::Union(vec![DataType::Long, DataType::String]), false)
            .expect("primitive union should build");

    assert!(ty.ptr.is_null(), "primitive union must not carry a pointer");
    assert_ne!(ty.type_mask & may_be_long(), 0);
    assert_ne!(ty.type_mask & may_be_string(), 0);
    assert_eq!(ty.type_mask & _ZEND_TYPE_LIST_BIT, 0);
}

#[test]
fn empty_for_property_class_emits_name_bit_with_zend_string() {
    let ty = ZendType::empty_for_property(&PhpType::Simple(DataType::Object(Some("Foo"))), false)
        .expect("class should build");

    assert_ne!(ty.type_mask & _ZEND_TYPE_NAME_BIT, 0, "single class property must carry _ZEND_TYPE_NAME_BIT");
    assert_eq!(ty.type_mask & _ZEND_TYPE_LIST_BIT, 0, "single class property must not set the list bit");
    assert_eq!(ty.type_mask & _ZEND_TYPE_NULLABLE_BIT, 0);
    assert!(!ty.ptr.is_null(), "single class property must hold a zend_string pointer");
}

#[test]
fn empty_for_property_class_union_builds_list_without_arena() {
    let ty = ZendType::empty_for_property(
        &PhpType::ClassUnion(vec!["Foo".to_owned(), "Bar".to_owned()]),
        false,
    )
    .expect("class union property should build");

    assert_ne!(ty.type_mask & _ZEND_TYPE_LIST_BIT, 0);
    assert_ne!(ty.type_mask & _ZEND_TYPE_UNION_BIT, 0);
    assert_eq!(ty.type_mask & _ZEND_TYPE_ARENA_BIT, 0);
    match &ty.ptr {
        TypePtr::List(entries) => {
            assert_eq!(entries.len(), 2);
            for entry in entries {
                assert_ne!(entry.type_mask & _ZEND_TYPE_NAME_BIT, 0);
                assert!(!entry.ptr.is_null());
            }
        }
        _ => panic!("a class union is a list"),
    }
}

#[test]
fn empty_for_property_class_intersection_no_arena() {
    let ty = ZendType::empty_for_property(
        &PhpType::Intersection(vec!["Countable".to_owned(), "Traversable".to_owned()]),
        false,
    )
    .expect("intersection property should build on 8.1+");

    assert_ne!(ty.type_mask & _ZEND_TYPE_LIST_BIT, 0);
    assert_ne!(ty.type_mask & _ZEND_TYPE_INTERSECTION_BIT, 0);
    assert_eq!(ty.type_mask & _ZEND_TYPE_ARENA_BIT, 0, "property intersection must NOT set the arena bit");
}

#[test]
fn empty_for_property_dnf_no_arena_at_any_level() {
    let terms = vec![
        DnfTerm::Intersection(vec!["A".to_owned(), "B".to_owned()]),
        DnfTerm::Single("C".to_owned()),
    ];
    let ty = ZendType::empty_for_property(&PhpType::Dnf(terms), false)
        .expect("DNF property should build on 8.2+");

    assert_ne!(ty.type_mask & _ZEND_TYPE_LIST_BIT, 0);
    assert_ne!(ty.type_mask & _ZEND_TYPE_UNION_BIT, 0);
    assert_eq!(ty.type_mask & _ZEND_TYPE_ARENA_BIT, 0);
    match &ty.ptr {
        TypePtr::List(entries) => {
            let entry0 = &entries[0];
            assert_ne!(entry0.type_mask & _ZEND_TYPE_LIST_BIT, 0);
            assert_ne!(entry0.type_mask & _ZEND_TYPE_INTERSECTION_BIT, 0);
            assert_eq!(entry0.type_mask & _ZEND_TYPE_ARENA_BIT, 0);
            let entry1 = &entries[1];
            assert_ne!(entry1.type_mask & _ZEND_TYPE_NAME_BIT, 0);
            assert_eq!(entry1.type_mask & _ZEND_TYPE_LIST_BIT, 0);
        }
        _ => panic!("a DNF type is a list"),
    }
}

#[test]
fn empty_for_property_rejects_empty_class_union() {
    let ty = ZendType::empty_for_property(&PhpType::ClassUnion(vec![]), false);
    assert!(ty.is_none(), "empty class union must be rejected");
}

#[test]
fn empty_for_property_rejects_empty_class_name() {
    let ty = ZendType::empty_for_property(&PhpType::Simple(DataType::Object(Some(""))), false);
    assert!(ty.is_none(), "empty class name must be rejected");
}

#[test]
fn empty_from_type_long_argument_mask() {
    let ty = ZendType::empty_from_type(DataType::Long, false, false, false).unwrap();
    assert_eq!(ty.type_mask, 16);
    assert!(ty.ptr.is_null());
}

#[test]
fn empty_from_class_union_joins_names_with_a_pipe() {
    let ty = ZendType::empty_from_class_union(&vec!["Foo".to_owned(), "Bar".to_owned()], false, false, true)
        .unwrap();
    assert_ne!(ty.type_mask & _ZEND_TYPE_LITERAL_NAME_BIT, 0);
    assert_ne!(ty.type_mask & _ZEND_TYPE_NULLABLE_BIT, 0);
    match &ty.ptr {
        TypePtr::LiteralName(s) => assert_eq!(s, "Foo|Bar"),
        _ => panic!("a class union argument is a literal name"),
    }
}

#[test]
fn empty_from_class_intersection_refuses_null() {
    let names = vec!["Foo".to_owned(), "Bar".to_owned()];
    assert!(ZendType::empty_from_class_intersection(&names, false, false, true).is_none());
    let ty = ZendType::empty_from_class_intersection(&names, false, false, false).unwrap();
    assert_ne!(ty.type_mask & _ZEND_TYPE_ARENA_BIT, 0);
}

#[test]
fn empty_from_dnf_needs_two_terms() {
    assert!(ZendType::empty_from_dnf(&vec![DnfTerm::Single("C".to_owned())], false, false, false).is_none());
    let ty = ZendType::empty_from_dnf(
        &vec![
            DnfTerm::Intersection(vec!["A".to_owned(), "B".to_owned()]),
            DnfTerm::Single("C".to_owned()),
        ],
        false,
        false,
        true,
    )
    .unwrap();
    assert_ne!(ty.type_mask & _ZEND_TYPE_NULLABLE_BIT, 0);
    assert_ne!(ty.type_mask & _ZEND_TYPE_ARENA_BIT, 0);
}

#[test]
fn empty_from_primitive_union_refuses_an_empty_union() {
    assert!(ZendType::empty_from_primitive_union(&vec![], false, false, false).is_none());
    let ty = ZendType::empty_from_primitive_union(&vec![DataType::Long, DataType::String], false, false, false)
        .unwrap();
    assert_eq!(ty.type_mask, may_be_long() | may_be_string());
}

fn list_entries(ty: &ZendType) -> &Vec<ZendType> {
    match &ty.ptr {
        TypePtr::List(entries) => entries,
        _ => panic!("expected a type list"),
    }
}

#[test]
fn empty_from_class_intersection_sets_list_intersection_and_arena_bits() {
    let names = vec!["Countable".to_owned(), "Traversable".to_owned()];
    let ty = ZendType::empty_from_class_intersection(&names, false, false, false)
        .expect("intersection should build");

    assert_ne!(ty.type_mask & _ZEND_TYPE_LIST_BIT, 0);
    assert_ne!(ty.type_mask & _ZEND_TYPE_INTERSECTION_BIT, 0);
    assert_ne!(
        ty.type_mask & _ZEND_TYPE_ARENA_BIT,
        0,
        "arena bit must be set so Zend keeps its hands off the list"
    );
    assert_eq!(ty.type_mask & _ZEND_TYPE_NULLABLE_BIT, 0);
    assert!(!ty.ptr.is_null());
    assert_eq!(list_entries(&ty).len(), 2);
}

#[test]
fn empty_from_class_intersection_rejects_nullable() {
    let names = vec!["Countable".to_owned(), "Traversable".to_owned()];
    let ty = ZendType::empty_from_class_intersection(&names, false, false, true);
    assert!(ty.is_none(), "nullable intersection should be rejected");
}

#[test]
fn empty_from_class_intersection_rejects_empty() {
    let names: Vec<String> = vec![];
    let ty = ZendType::empty_from_class_intersection(&names, false, false, false);
    assert!(ty.is_none(), "empty intersection should be rejected");
}

#[test]
fn empty_from_class_intersection_rejects_interior_nul() {
    let names = vec!["Foo".to_owned(), "B\0ar".to_owned()];
    let ty = ZendType::empty_from_class_intersection(&names, false, false, false);
    assert!(ty.is_none(), "names with NUL bytes should be rejected");
}

#[test]
fn empty_from_class_intersection_marks_each_entry_as_name_bit() {
    let names = vec!["Foo".to_owned(), "Bar".to_owned()];
    let ty = ZendType::empty_from_class_intersection(&names, false, false, false)
        .expect("intersection should build");

    let entries = list_entries(&ty);
    for (i, entry) in entries.iter().enumerate().take(2) {
        assert_ne!(
            entry.type_mask & _ZEND_TYPE_NAME_BIT,
            0,
            "entry {i} must carry _ZEND_TYPE_NAME_BIT"
        );
        assert!(!entry.ptr.is_null(), "entry {i} must hold a zend_string*");
    }
}

fn dnf_a_and_b_or_c() -> Vec<DnfTerm> {
    vec![
        DnfTerm::Intersection(vec!["A".to_owned(), "B".to_owned()]),
        DnfTerm::Single("C".to_owned()),
    ]
}

#[test]
fn empty_from_dnf_sets_outer_list_union_arena_bits() {
    let terms = dnf_a_and_b_or_c();
    let ty = ZendType::empty_from_dnf(&terms, false, false, false).expect("DNF should build");

    assert_ne!(ty.type_mask & _ZEND_TYPE_LIST_BIT, 0);
    assert_ne!(ty.type_mask & _ZEND_TYPE_UNION_BIT, 0);
    assert_ne!(ty.type_mask & _ZEND_TYPE_ARENA_BIT, 0, "arena bit must be set on the outer DNF list");
    assert_eq!(
        ty.type_mask & _ZEND_TYPE_INTERSECTION_BIT,
        0,
        "outer DNF list is a union, not an intersection"
    );
    assert_eq!(ty.type_mask & _ZEND_TYPE_NULLABLE_BIT, 0);
    assert!(!ty.ptr.is_null());
    assert_eq!(list_entries(&ty).len(), 2);
}

#[test]
fn empty_from_dnf_intersection_term_has_list_intersection_arena_bits() {
    let terms = dnf_a_and_b_or_c();
    let ty = ZendType::empty_from_dnf(&terms, false, false, false).expect("DNF should build");
    let entry0 = &list_entries(&ty)[0];

    assert_ne!(entry0.type_mask & _ZEND_TYPE_LIST_BIT, 0);
    assert_ne!(entry0.type_mask & _ZEND_TYPE_INTERSECTION_BIT, 0);
    assert_ne!(
        entry0.type_mask & _ZEND_TYPE_ARENA_BIT,
        0,
        "inner intersection list must also carry the arena bit"
    );
    assert!(!entry0.ptr.is_null());
}

#[test]
fn empty_from_dnf_single_class_term_has_name_bit_only() {
    let terms = dnf_a_and_b_or_c();
    let ty = ZendType::empty_from_dnf(&terms, false, false, false).expect("DNF should build");
    let entry1 = &list_entries(&ty)[1];

    assert_ne!(entry1.type_mask & _ZEND_TYPE_NAME_BIT, 0);
    assert_eq!(entry1.type_mask & _ZEND_TYPE_LIST_BIT, 0, "single-class term is not a list");
    assert!(!entry1.ptr.is_null(), "must hold a zend_string*");
}

#[test]
fn empty_from_dnf_with_allow_null_sets_nullable_bit() {
    let terms = dnf_a_and_b_or_c();
    let ty = ZendType::empty_from_dnf(&terms, false, false, true).expect("nullable DNF should build");

    assert_ne!(
        ty.type_mask & _ZEND_TYPE_NULLABLE_BIT,
        0,
        "allow_null must propagate _ZEND_TYPE_NULLABLE_BIT"
    );
}

#[test]
fn empty_from_dnf_two_intersection_terms() {
    let terms = vec![
        DnfTerm::Intersection(vec!["A".to_owned(), "B".to_owned()]),
        DnfTerm::Intersection(vec!["C".to_owned(), "D".to_owned()]),
    ];
    let ty = ZendType::empty_from_dnf(&terms, false, false, false).expect("(A&B)|(C&D) should build");

    for entry in list_entries(&ty).iter().take(2) {
        assert_ne!(entry.type_mask & _ZEND_TYPE_LIST_BIT, 0);
        assert_ne!(entry.type_mask & _ZEND_TYPE_INTERSECTION_BIT, 0);
        assert_ne!(entry.type_mask & _ZEND_TYPE_ARENA_BIT, 0);
    }
}

#[test]
fn empty_from_dnf_rejects_empty_terms() {
    assert!(ZendType::empty_from_dnf(&vec![], false, false, false).is_none());
}

#[test]
fn empty_from_dnf_rejects_single_class_only() {
    let terms = vec![DnfTerm::Single("C".to_owned())];
    assert!(
        ZendType::empty_from_dnf(&terms, false, false, false).is_none(),
        "single-class DNF should be rejected (use PhpType::Simple)"
    );
}

#[test]
fn empty_from_dnf_rejects_single_intersection_only() {
    let terms = vec![DnfTerm::Intersection(vec!["A".to_owned(), "B".to_owned()])];
    assert!(
        ZendType::empty_from_dnf(&terms, false, false, false).is_none(),
        "single-intersection DNF should be rejected (use PhpType::Intersection)"
    );
}

#[test]
fn empty_from_dnf_rejects_intersection_with_one_member() {
    let terms = vec![
        DnfTerm::Intersection(vec!["A".to_owned()]),
        DnfTerm::Single("C".to_owned()),
    ];
    assert!(
        ZendType::empty_from_dnf(&terms, false, false, false).is_none(),
        "single-element intersection group should be rejected"
    );
}

#[test]
fn empty_from_dnf_rejects_interior_nul() {
    let terms = vec![
        DnfTerm::Intersection(vec!["A".to_owned(), "B\0".to_owned()]),
        DnfTerm::Single("C".to_owned()),
    ];
    assert!(ZendType::empty_from_dnf(&terms, false, false, false).is_none());

    let terms = vec![
        DnfTerm::Intersection(vec!["A".to_owned(), "B".to_owned()]),
        DnfTerm::Single("C\0".to_owned()),
    ];
    assert!(ZendType::empty_from_dnf(&terms, false, false, false).is_none());
}

#[test]
fn empty_from_dnf_rejects_empty_class_name() {
    let terms = vec![
        DnfTerm::Intersection(vec!["A".to_owned(), String::new()]),
        DnfTerm::Single("C".to_owned()),
    ];
    assert!(ZendType::empty_from_dnf(&terms, false, false, false).is_none());

    let terms = vec![
        DnfTerm::Intersection(vec!["A".to_owned(), "B".to_owned()]),
        DnfTerm::Single(String::new()),
    ];
    assert!(ZendType::empty_from_dnf(&terms, false, false, false).is_none());
}
