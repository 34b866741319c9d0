//! Descriptions of an extension's functions, classes, enums and constants, as
//! read by stub generators, and their conversion from the builders.
use vstd::prelude::*;

use crate::args::Arg;
use crate::builders::enum_builder::EnumBuilder;
use crate::builders::function::FunctionBuilder;
use crate::enum_::{Discriminant, EnumCase as BuilderCase};
use crate::flags::DataType;
use crate::text::{dec_signed, append_signed_decimal};
use crate::types::php_type::PhpType;

pub mod rustdoc;
pub mod stub;

verus! {

/// `ZEND_ACC_PUBLIC`.
pub const ACC_PUBLIC: u32 = 0x1;
/// `ZEND_ACC_PROTECTED`.
pub const ACC_PROTECTED: u32 = 0x2;
/// `ZEND_ACC_PRIVATE`.
pub const ACC_PRIVATE: u32 = 0x4;
/// `ZEND_ACC_STATIC`.
pub const ACC_STATIC: u32 = 0x10;
/// `ZEND_ACC_ABSTRACT`.
pub const ACC_ABSTRACT: u32 = 0x40;
/// `ZEND_ACC_CTOR`: the method is the constructor.
pub const ACC_CTOR: u32 = 0x1000_0000;

/// Documentation lines.
#[derive(Debug, Clone, PartialEq, Eq)]
pub struct DocBlock(pub Vec<String>);

/// A parameter of a function or method.
#[derive(Debug, Clone, PartialEq, Eq)]
pub struct Parameter {
    /// The name, without `$`.
    pub name: String,
    /// The declared type, if any.
    pub ty: Option<PhpType>,
    /// Whether null is accepted.
    pub nullable: bool,
    /// Whether the parameter takes all remaining values.
    pub variadic: bool,
    /// The default value, as PHP source text.
    pub default: Option<String>,
}

/// The declared return of a function or method.
#[derive(Debug, Clone, PartialEq, Eq)]
pub struct Retval {
    /// The declared type.
    pub ty: PhpType,
    /// Whether null may be returned.
    pub nullable: bool,
}

/// A function.
#[derive(Debug, Clone, PartialEq, Eq)]
pub struct Function {
    /// The name, possibly namespaced.
    pub name: String,
    /// Documentation.
    pub docs: DocBlock,
    /// The declared return.
    pub ret: Option<Retval>,
    /// The parameters.
    pub params: Vec<Parameter>,
}

/// The visibility of a class member.
#[derive(Debug, Clone, Copy, PartialEq, Eq)]
pub enum Visibility {
    /// `public`.
    Public,
    /// `protected`.
    Protected,
    /// `private`.
    Private,
}

/// How a method is called.
#[derive(Debug, Clone, Copy, PartialEq, Eq)]
pub enum MethodType {
    /// On an instance.
    Member,
    /// On the class.
    Static,
    /// As the constructor.
    Constructor,
}

/// A method of a class.
#[derive(Debug, Clone, PartialEq, Eq)]
pub struct Method {
    /// The name.
    pub name: String,
    /// Documentation.
    pub docs: DocBlock,
    /// How the method is called.
    pub ty: MethodType,
    /// The parameters.
    pub params: Vec<Parameter>,
    /// The declared return.
    pub retval: Option<Retval>,
    /// Whether the method is static.
    pub is_static: bool,
    /// The visibility.
    pub visibility: Visibility,
    /// Whether the method has no body.
    pub is_abstract: bool,
}

/// A property of a class.
#[derive(Debug, Clone, PartialEq, Eq)]
pub struct Property {
    /// The name, without `$`.
    pub name: String,
    /// Documentation.
    pub docs: DocBlock,
    /// The declared type, if any.
    pub ty: Option<DataType>,
    /// The visibility.
    pub vis: Visibility,
    /// Whether the property is static.
    pub static_: bool,
    /// Whether null is accepted.
    pub nullable: bool,
    /// Whether the property is read-only.
    pub readonly: bool,
    /// The default value, as PHP source text.
    pub default: Option<String>,
}

/// A constant.
#[derive(Debug, Clone, PartialEq, Eq)]
pub struct Constant {
    /// The name, possibly namespaced.
    pub name: String,
    /// The value, as PHP source text.
    pub value: Option<String>,
    /// Documentation.
    pub docs: DocBlock,
}

/// A class or interface.
#[derive(Debug, Clone, PartialEq, Eq)]
pub struct Class {
    /// The name, possibly namespaced.
    pub name: String,
    /// Documentation.
    pub docs: DocBlock,
    /// The parent class.
    pub extends: Option<String>,
    /// The implemented (or, for an interface, extended) interfaces.
    pub implements: Vec<String>,
    /// The properties.
    pub properties: Vec<Property>,
    /// The methods.
    pub methods: Vec<Method>,
    /// The class constants.
    pub constants: Vec<Constant>,
    /// Whether this is an interface.
    pub is_interface: bool,
}

/// One case of an enum.
#[derive(Debug, Clone, PartialEq, Eq)]
pub struct EnumCase {
    /// The case name.
    pub name: String,
    /// Documentation.
    pub docs: DocBlock,
    /// The backing value, as PHP source text.
    pub value: Option<String>,
}

/// An enum.
#[derive(Debug, Clone, PartialEq, Eq)]
pub struct Enum {
    /// The name, possibly namespaced.
    pub name: String,
    /// Documentation.
    pub docs: DocBlock,
    /// The cases.
    pub cases: Vec<EnumCase>,
    /// The backing type, `int` or `string`.
    pub backing_type: Option<String>,
}

/// Everything an extension declares.
#[derive(Debug, Clone, PartialEq, Eq)]
pub struct Module {
    /// The extension name.
    pub name: String,
    /// The functions.
    pub functions: Vec<Function>,
    /// The classes and interfaces.
    pub classes: Vec<Class>,
    /// The enums.
    pub enums: Vec<Enum>,
    /// The constants.
    pub constants: Vec<Constant>,
}

/// Owned copies of documentation lines.
pub fn doc_block(docs: &'static [&'static str]) -> (r: DocBlock)
    ensures
        r.0@.len() == docs@.len(),
        forall|i: int| 0 <= i < docs@.len() ==> #[trigger] r.0@[i]@ == docs@[i]@,
{
    let mut v: Vec<String> = Vec::new();
    let mut i: usize = 0;
    while i < docs.len()
        invariant
            i <= docs@.len(),
            v@.len() == i,
            forall|j: int| 0 <= j < i ==> #[trigger] v@[j]@ == docs@[j]@,
        decreases docs.len() - i,
    {
        v.push(String::from_str(docs[i]));
        i = i + 1;
    }
    DocBlock(v)
}

/// The parameter an argument declares.
pub open spec fn param_of(a: Arg) -> Parameter {
    Parameter { name: a.name, ty: Some(a.ty), nullable: a.allow_null, variadic: a.variadic, default: a.default_value }
}

impl<'a> From<Arg<'a>> for Parameter {
    fn from(val: Arg<'a>) -> (r: Parameter)
        ensures
            r == param_of(val),
    {
        Parameter {
            name: val.name,
            ty: Some(val.ty),
            nullable: val.allow_null,
            variadic: val.variadic,
            default: val.default_value,
        }
    }
}

impl<'a> vstd::std_specs::convert::FromSpecImpl<Arg<'a>> for Parameter {
    open spec fn obeys_from_spec() -> bool {
        true
    }

    open spec fn from_spec(v: Arg<'a>) -> Parameter {
        param_of(v)
    }
}

/// The declared return of a builder: a nullable `mixed` is just `mixed`.
pub open spec fn retval_of(retval: Option<PhpType>, as_null: bool) -> Option<Retval> {
    match retval {
        None => None,
        Some(ty) => Some(Retval { ty, nullable: ty != PhpType::Simple(DataType::Mixed) && as_null }),
    }
}

fn retval_from(retval: Option<PhpType>, as_null: bool) -> (r: Option<Retval>)
    ensures
        r == retval_of(retval, as_null),
{
    match retval {
        None => None,
        Some(ty) => {
            let is_mixed = match &ty {
                PhpType::Simple(dt) => dt.same_as(&DataType::Mixed),
                _ => false,
            };
            Some(Retval { ty, nullable: !is_mixed && as_null })
        },
    }
}

fn params_from<'a>(args: Vec<Arg<'a>>) -> (r: Vec<Parameter>)
    ensures
        r@.len() == args@.len(),
        forall|i: int| 0 <= i < args@.len() ==> #[trigger] r@[i] == param_of(args@[i]),
{
    let ghost orig = args@;
    let mut args = args;
    let mut out: Vec<Parameter> = Vec::new();
    while args.len() > 0
        invariant
            out@.len() + args@.len() == orig.len(),
            args@ == orig.subrange(out@.len() as int, orig.len() as int),
            forall|i: int| 0 <= i < out@.len() ==> #[trigger] out@[i] == param_of(orig[i]),
        decreases args@.len(),
    {
        let a = args.remove(0);
        out.push(Parameter::from(a));
        assert(args@ =~= orig.subrange(out@.len() as int, orig.len() as int));
    }
    out
}

/// The functions each builder describes.
pub open spec fn function_of<H>(b: FunctionBuilder<H>, f: Function) -> bool {
    &&& f.name == b.name
    &&& f.docs.0@.len() == b.docs@.len()
    &&& forall|i: int| 0 <= i < b.docs@.len() ==> #[trigger] f.docs.0@[i]@ == b.docs@[i]@
    &&& f.ret == retval_of(b.retval, b.ret_as_null)
    &&& f.params@.len() == b.args@.len()
    &&& forall|i: int| 0 <= i < b.args@.len() ==> #[trigger] f.params@[i] == param_of(b.args@[i])
}

impl<'a, H> From<FunctionBuilder<'a, H>> for Function {
    fn from(val: FunctionBuilder<'a, H>) -> (r: Function)
        ensures
            function_of(val, r),
    {
        let docs = doc_block(val.docs);
        let ret = retval_from(val.retval, val.ret_as_null);
        let params = params_from(val.args);
        Function { name: val.name, docs, ret, params }
    }
}

impl<'a, H> vstd::std_specs::convert::FromSpecImpl<FunctionBuilder<'a, H>> for Function {
    open spec fn obeys_from_spec() -> bool {
        false
    }

    open spec fn from_spec(v: FunctionBuilder<'a, H>) -> Function {
        arbitrary()
    }
}

/// How a method with the given flags is called: a constructor flag wins over
/// a static one.
pub open spec fn method_type_of(flags: u32) -> MethodType {
    if flags & ACC_CTOR != 0 {
        MethodType::Constructor
    } else if flags & ACC_STATIC != 0 {
        MethodType::Static
    } else {
        MethodType::Member
    }
}

/// The visibility the given flags give: protected wins over private, and
/// public is the default.
pub open spec fn visibility_of(flags: u32) -> Visibility {
    if flags & ACC_PROTECTED != 0 {
        Visibility::Protected
    } else if flags & ACC_PRIVATE != 0 {
        Visibility::Private
    } else {
        Visibility::Public
    }
}

impl MethodType {
    /// How a method with the given `ZEND_ACC_*` flags is called.
    pub fn from_flags(flags: u32) -> (r: MethodType)
        ensures
            r == method_type_of(flags),
    {
        if flags & ACC_CTOR != 0 {
            MethodType::Constructor
        } else if flags & ACC_STATIC != 0 {
            MethodType::Static
        } else {
            MethodType::Member
        }
    }
}

impl Visibility {
    /// The visibility of a member with the given `ZEND_ACC_*` flags.
    pub fn from_flags(flags: u32) -> (r: Visibility)
        ensures
            r == visibility_of(flags),
    {
        if flags & ACC_PROTECTED != 0 {
            Visibility::Protected
        } else if flags & ACC_PRIVATE != 0 {
            Visibility::Private
        } else {
            Visibility::Public
        }
    }
}

/// The method a builder describes, with its flags.
pub fn method_from<'a, H>(builder: FunctionBuilder<'a, H>, flags: u32) -> (r: Method)
    ensures
        r.name == builder.name,
        r.docs.0@.len() == builder.docs@.len(),
        forall|i: int| 0 <= i < builder.docs@.len() ==> #[trigger] r.docs.0@[i]@ == builder.docs@[i]@,
        r.retval == retval_of(builder.retval, builder.ret_as_null),
        r.params@.len() == builder.args@.len(),
        forall|i: int| 0 <= i < builder.args@.len() ==> #[trigger] r.params@[i] == param_of(builder.args@[i]),
        r.ty == method_type_of(flags),
        r.is_static == (flags & ACC_STATIC != 0),
        r.visibility == visibility_of(flags),
        r.is_abstract == (flags & ACC_ABSTRACT != 0),
{
    let docs = doc_block(builder.docs);
    let retval = retval_from(builder.retval, builder.ret_as_null);
    let params = params_from(builder.args);
    Method {
        name: builder.name,
        docs,
        ty: MethodType::from_flags(flags),
        params,
        retval,
        is_static: flags & ACC_STATIC != 0,
        visibility: Visibility::from_flags(flags),
        is_abstract: flags & ACC_ABSTRACT != 0,
    }
}

/// The PHP source text of a case's backing value: an integer, or a string in
/// single quotes.
pub open spec fn case_value_text(d: Discriminant) -> Seq<char> {
    match d {
        Discriminant::Int(i) => dec_signed(i as int),
        Discriminant::String(s) => "'"@ + s@ + "'"@,
    }
}

impl<'x> From<&'x BuilderCase> for EnumCase {
    fn from(val: &'x BuilderCase) -> (r: EnumCase)
        ensures
            r.name@ == val.name@,
            r.docs.0@.len() == val.docs@.len(),
            forall|i: int| 0 <= i < val.docs@.len() ==> #[trigger] r.docs.0@[i]@ == val.docs@[i]@,
            match val.discriminant {
                None => r.value is None,
                Some(d) => r.value matches Some(v) && v@ == case_value_text(d),
            },
    {
        let value = match &val.discriminant {
            None => None,
            Some(Discriminant::Int(i)) => {
                let mut s = String::new();
                append_signed_decimal(&mut s, *i);
                Some(s)
            },
            Some(Discriminant::String(t)) => {
                let mut s = String::from_str("'");
                s.append(t);
                s.append("'");
                proof {
                    reveal_strlit("'");
                }
                Some(s)
            },
        };
        EnumCase { name: String::from_str(val.name), docs: doc_block(val.docs), value }
    }
}

impl<'x> vstd::std_specs::convert::FromSpecImpl<&'x BuilderCase> for EnumCase {
    open spec fn obeys_from_spec() -> bool {
        false
    }

    open spec fn from_spec(v: &'x BuilderCase) -> EnumCase {
        arbitrary()
    }
}

/// The backing type an enum declares.
pub open spec fn backing_type_of(dt: DataType) -> Option<Seq<char>> {
    match dt {
        DataType::Long => Some("int"@),
        DataType::String => Some("string"@),
        _ => None,
    }
}

impl<H, R> From<EnumBuilder<H, R>> for Enum {
    fn from(val: EnumBuilder<H, R>) -> (r: Enum)
        ensures
            r.name == val.name,
            r.docs.0@.len() == val.docs@.len(),
            forall|i: int| 0 <= i < val.docs@.len() ==> #[trigger] r.docs.0@[i]@ == val.docs@[i]@,
            r.cases@.len() == val.cases@.len(),
            forall|i: int| 0 <= i < val.cases@.len() ==> (#[trigger] r.cases@[i]).name@ == val.cases@[i].name@,
            match backing_type_of(val.datatype) {
                None => r.backing_type is None,
                Some(t) => r.backing_type matches Some(b) && b@ == t,
            },
    {
        let mut cases: Vec<EnumCase> = Vec::new();
        let mut i: usize = 0;
        while i < val.cases.len()
            invariant
                i <= val.cases@.len(),
                cases@.len() == i,
                forall|j: int| 0 <= j < i ==> (#[trigger] cases@[j]).name@ == val.cases@[j].name@,
            decreases val.cases.len() - i,
        {
            cases.push(EnumCase::from(val.cases[i]));
            i = i + 1;
        }
        let backing_type = match val.datatype {
            DataType::Long => {
                proof { reveal_strlit("int"); }
                Some(String::from_str("int"))
            },
            DataType::String => {
                proof { reveal_strlit("string"); }
                Some(String::from_str("string"))
            },
            _ => None,
        };
        Enum { name: val.name, docs: doc_block(val.docs), cases, backing_type }
    }
}


impl<H, R> vstd::std_specs::convert::FromSpecImpl<EnumBuilder<H, R>> for Enum {
    open spec fn obeys_from_spec() -> bool {
        false
    }

    open spec fn from_spec(v: EnumBuilder<H, R>) -> Enum {
        arbitrary()
    }
}

} // verus!
