use ext_php_rs::describe::rustdoc::{parse_param_line, parse_rustdoc, parse_typed_param_line, extract_php_type};
use ext_php_rs::describe::stub::{format_phpdoc, indent, split_namespace, ToStub, NEW_LINE_SEPARATOR};
use ext_php_rs::describe::{
    Class, Constant, DocBlock, Enum, EnumCase, Function, Method, MethodType, Module, Parameter,
    Retval, Visibility,
};
use ext_php_rs::flags::DataType;
use ext_php_rs::types::php_type::PhpType;

#[test]
pub fn test_split_ns() {
    assert_eq!(split_namespace("ext\\php\\rs"), (Some("ext\\php"), "rs"));
    assert_eq!(split_namespace("test_solo_ns"), (None, "test_solo_ns"));
    assert_eq!(split_namespace("simple\\ns"), (Some("simple"), "ns"));
}

#[test]
pub fn test_indent() {
    assert_eq!(indent("hello", 4), "    hello");
    assert_eq!(
        indent(&format!("hello{nl}world{nl}", nl = NEW_LINE_SEPARATOR), 4),
        format!("    hello{nl}    world{nl}", nl = NEW_LINE_SEPARATOR)
    );
}

#[test]
pub fn test_datatype_to_stub() {
    assert_eq!(DataType::Void.to_stub(), "void");
    assert_eq!(DataType::Null.to_stub(), "null");
    assert_eq!(DataType::Bool.to_stub(), "bool");
    assert_eq!(DataType::True.to_stub(), "bool");
    assert_eq!(DataType::False.to_stub(), "bool");
    assert_eq!(DataType::Long.to_stub(), "int");
    assert_eq!(DataType::Double.to_stub(), "float");
    assert_eq!(DataType::String.to_stub(), "string");
    assert_eq!(DataType::Array.to_stub(), "array");
    assert_eq!(DataType::Object(None).to_stub(), "object");
    assert_eq!(DataType::Object(Some("Foo\\Bar")).to_stub(), "\\Foo\\Bar");
    assert_eq!(DataType::Resource.to_stub(), "resource");
    assert_eq!(DataType::Callable.to_stub(), "callable");
    assert_eq!(DataType::Iterable.to_stub(), "iterable");
    assert_eq!(DataType::Mixed.to_stub(), "mixed");
    assert_eq!(DataType::Undef.to_stub(), "mixed");
    assert_eq!(DataType::Ptr.to_stub(), "mixed");
    assert_eq!(DataType::Indirect.to_stub(), "mixed");
    assert_eq!(DataType::ConstantExpression.to_stub(), "mixed");
    assert_eq!(DataType::Reference.to_stub(), "reference");
}

fn lines(v: &[&str]) -> Vec<String> {
    v.iter().map(|s| s.to_string()).collect()
}

#[test]
fn test_parse_rustdoc() {
    let docs = lines(&[
        " Gives you a nice greeting!",
        "",
        " # Arguments",
        "",
        " * `name` - Your name",
        " * `age` - Your age",
        "",
        " # Returns",
        "",
        " Nice greeting!",
    ]);
    let parsed = parse_rustdoc(&docs);
    assert_eq!(parsed.summary.len(), 2);
    assert!(parsed.summary[0].contains("Gives you a nice greeting"));
    assert_eq!(parsed.params.len(), 2);
    assert!(parsed.params.contains(&("name".to_string(), "Your name".to_string())));
    assert!(parsed.params.contains(&("age".to_string(), "Your age".to_string())));
    assert!(parsed.return_desc.as_ref().is_some_and(|r| r.contains("Nice greeting")));
}

#[test]
fn test_parse_param_line() {
    assert_eq!(
        parse_param_line("`name` - Your name"),
        Some(("name".to_string(), "Your name".to_string()))
    );
    assert_eq!(
        parse_param_line("`$name` - Your name"),
        Some(("name".to_string(), "Your name".to_string()))
    );
    assert_eq!(
        parse_param_line("name - Your name"),
        Some(("name".to_string(), "Your name".to_string()))
    );
    assert_eq!(parse_param_line("no separator here"), None);
}

#[test]
fn parse_typed_param_line_reads_name_type_and_description() {
    assert_eq!(
        parse_typed_param_line("`$stdout`: `?string &$stdout` the output"),
        Some(("stdout".to_string(), "?string &$stdout".to_string(), "the output".to_string()))
    );
    assert_eq!(parse_typed_param_line("`name` no colon"), None);
}

#[test]
fn extract_php_type_takes_the_first_word() {
    assert_eq!(extract_php_type("?string &$name"), "?string");
    assert_eq!(extract_php_type("   "), "mixed");
}

#[test]
fn test_format_phpdoc() {
    let docs = DocBlock(lines(&[
        " Greets the user.",
        "",
        " # Arguments",
        "",
        " * `name` - The name to greet",
        "",
        " # Returns",
        "",
        " A greeting string.",
    ]));
    let params = vec![Parameter {
        name: "name".into(),
        ty: Some(PhpType::Simple(DataType::String)),
        nullable: false,
        variadic: false,
        default: None,
    }];
    let retval = Retval { ty: PhpType::Simple(DataType::String), nullable: false };
    let mut buf = String::new();
    format_phpdoc(&docs, &params, Some(&retval), &mut buf);
    assert!(buf.contains("/**"));
    assert!(buf.contains("*/"));
    assert!(buf.contains("@param string $name The name to greet"));
    assert!(buf.contains("@return string A greeting string."));
    assert!(!buf.contains("# Arguments"));
    assert!(!buf.contains("# Returns"));
}

#[test]
fn function_stub_renders_signature() {
    let f = Function {
        name: "ns\\greet".into(),
        docs: DocBlock(vec![]),
        ret: Some(Retval { ty: PhpType::Simple(DataType::String), nullable: true }),
        params: vec![Parameter {
            name: "who".into(),
            ty: Some(PhpType::Simple(DataType::String)),
            nullable: true,
            variadic: false,
            default: None,
        }],
    };
    let stub = f.to_stub();
    assert!(stub.ends_with("function greet(?string $who = null): ?string {}\n"));
}

#[test]
fn method_stub_for_abstract_static_method() {
    let m = Method {
        name: "make".into(),
        docs: DocBlock(vec![]),
        ty: MethodType::Static,
        params: vec![],
        retval: None,
        is_static: true,
        visibility: Visibility::Protected,
        is_abstract: true,
    };
    assert_eq!(m.to_stub(), "protected static function make();\n");
}

#[test]
fn class_stub_sorts_members_by_name() {
    let c = Class {
        name: "App\\Thing".into(),
        docs: DocBlock(vec!["A thing".into()]),
        extends: Some("Base".into()),
        implements: vec!["A".into(), "B".into()],
        properties: vec![],
        methods: vec![],
        constants: vec![
            Constant { name: "ZED".into(), value: Some("2".into()), docs: DocBlock(vec![]) },
            Constant { name: "ALPHA".into(), value: None, docs: DocBlock(vec![]) },
        ],
        is_interface: false,
    };
    assert_eq!(
        c.to_stub(),
        "/**\n *A thing\n */\nclass Thing extends Base implements A, B {\n    const ALPHA = null;\n\n    const ZED = 2;\n}\n"
    );
}

#[test]
fn enum_stub_lists_its_cases() {
    let e = Enum {
        name: "Suit".into(),
        docs: DocBlock(vec![]),
        cases: vec![EnumCase { name: "Hearts".into(), docs: DocBlock(vec![]), value: Some("'H'".into()) }],
        backing_type: Some("string".into()),
    };
    assert_eq!(e.to_stub(), "enum Suit: string {\n  case Hearts = 'H';\n}\n");
}

#[test]
fn module_stub_groups_by_namespace_global_last() {
    let m = Module {
        name: "demo".into(),
        functions: vec![
            Function { name: "zeta".into(), docs: DocBlock(vec![]), ret: None, params: vec![] },
            Function { name: "b\\beta".into(), docs: DocBlock(vec![]), ret: None, params: vec![] },
            Function { name: "a\\alpha".into(), docs: DocBlock(vec![]), ret: None, params: vec![] },
        ],
        classes: vec![],
        enums: vec![],
        constants: vec![],
    };
    assert_eq!(
        m.to_stub(),
        "<?php\n\n// Stubs for demo\n\nnamespace a {\n    function alpha() {}\n}\n\nnamespace b {\n    function beta() {}\n}\n\nnamespace {\n    function zeta() {}\n}\n"
    );
}
