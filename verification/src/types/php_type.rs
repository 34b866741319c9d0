//! Declared PHP types: single types, unions, intersections and DNF types.
use vstd::prelude::*;

use crate::flags::DataType;
use crate::text::{seq_join, views};

verus! {

/// One alternative of a DNF type: a single class or an intersection group.
#[derive(Debug, Clone, PartialEq, Eq)]
pub enum DnfTerm {
    /// A single class name, e.g. `C` in `(A&B)|C`.
    Single(String),
    /// An intersection group, e.g. `A&B` in `(A&B)|C`.
    Intersection(Vec<String>),
}

/// A declared PHP type.
#[derive(Debug, Clone, PartialEq, Eq)]
pub enum PhpType {
    /// A single type, e.g. `int` or `Foo`.
    Simple(DataType),
    /// A union of primitive types, e.g. `int|string`.
    Union(Vec<DataType>),
    /// A union of classes, e.g. `Foo|Bar`.
    ClassUnion(Vec<String>),
    /// An intersection of classes, e.g. `Countable&Traversable`.
    Intersection(Vec<String>),
    /// A disjunctive normal form type, e.g. `(A&B)|C`.
    Dnf(Vec<DnfTerm>),
}

impl From<DataType> for PhpType {
    fn from(dt: DataType) -> (r: PhpType)
        ensures
            r == PhpType::Simple(dt),
    {
        PhpType::Simple(dt)
    }
}

impl vstd::std_specs::convert::FromSpecImpl<DataType> for PhpType {
    open spec fn obeys_from_spec() -> bool {
        true
    }

    open spec fn from_spec(v: DataType) -> PhpType {
        PhpType::Simple(v)
    }
}

/// The PHP spelling of a data type in a declaration (stub) context.
pub open spec fn stub_name(dt: DataType) -> Seq<char> {
    match dt {
        DataType::Bool | DataType::True | DataType::False => "bool"@,
        DataType::Long => "int"@,
        DataType::Double => "float"@,
        DataType::String => "string"@,
        DataType::Array => "array"@,
        DataType::Object(Some(name)) => "\\"@ + name@,
        DataType::Object(None) => "object"@,
        DataType::Resource => "resource"@,
        DataType::Reference => "reference"@,
        DataType::Callable => "callable"@,
        DataType::Iterable => "iterable"@,
        DataType::Void => "void"@,
        DataType::Null => "null"@,
        DataType::Mixed | DataType::Undef | DataType::Ptr | DataType::Indirect
        | DataType::ConstantExpression => "mixed"@,
    }
}

/// A fully qualified class reference.
pub open spec fn class_ref(name: Seq<char>) -> Seq<char> {
    "\\"@ + name
}

/// Fully qualified references for a list of class names.
pub open spec fn class_refs(names: Seq<String>) -> Seq<Seq<char>> {
    names.map_values(|s: String| class_ref(s@))
}

/// The PHP spelling of one DNF term.
pub open spec fn dnf_term_text(t: DnfTerm) -> Seq<char> {
    match t {
        DnfTerm::Single(name) => class_ref(name@),
        DnfTerm::Intersection(names) => "("@ + seq_join(class_refs(names@), "&"@) + ")"@,
    }
}

/// The PHP spelling of a declared type.
pub open spec fn php_type_text(t: PhpType) -> Seq<char> {
    match t {
        PhpType::Simple(dt) => stub_name(dt),
        PhpType::Union(types) => seq_join(types@.map_values(|d: DataType| stub_name(d)), "|"@),
        PhpType::ClassUnion(names) => seq_join(class_refs(names@), "|"@),
        PhpType::Intersection(names) => seq_join(class_refs(names@), "&"@),
        PhpType::Dnf(terms) => seq_join(terms@.map_values(|t: DnfTerm| dnf_term_text(t)), "|"@),
    }
}

/// Appends the stub spelling of `dt` to `out`.
pub fn append_stub_name(out: &mut String, dt: &DataType)
    ensures
        final(out)@ == old(out)@ + stub_name(*dt),
{
    match dt {
        DataType::Bool | DataType::True | DataType::False => out.append("bool"),
        DataType::Long => out.append("int"),
        DataType::Double => out.append("float"),
        DataType::String => out.append("string"),
        DataType::Array => out.append("array"),
        DataType::Object(Some(name)) => {
            out.append("\\");
            out.append(name);
            assert(out@ =~= old(out)@ + ("\\"@ + name@));
        },
        DataType::Object(None) => out.append("object"),
        DataType::Resource => out.append("resource"),
        DataType::Reference => out.append("reference"),
        DataType::Callable => out.append("callable"),
        DataType::Iterable => out.append("iterable"),
        DataType::Void => out.append("void"),
        DataType::Null => out.append("null"),
        DataType::Mixed | DataType::Undef | DataType::Ptr | DataType::Indirect
        | DataType::ConstantExpression => out.append("mixed"),
    }
}

/// Appends `\name` for each class name, separated by `sep`.
fn append_class_refs(out: &mut String, names: &Vec<String>, sep: &str)
    ensures
        final(out)@ == old(out)@ + seq_join(class_refs(names@), sep@),
{
    let ghost start = out@;
    let ghost pv = class_refs(names@);
    let mut i: usize = 0;
    assert(seq_join(pv.take(0), sep@) =~= Seq::<char>::empty());
    assert(out@ =~= start + seq_join(pv.take(0), sep@));
    while i < names.len()
        invariant
            pv == class_refs(names@),
            pv.len() == names@.len(),
            i <= names.len(),
            out@ == start + seq_join(pv.take(i as int), sep@),
        decreases names.len() - i,
    {
        assert(pv.take(i + 1).drop_last() =~= pv.take(i as int));
        assert(pv[i as int] == class_ref(names@[i as int]@));
        if i != 0 {
            out.append(sep);
        }
        out.append("\\");
        out.append(names[i].as_str());
        assert(out@ =~= start + seq_join(pv.take(i + 1), sep@));
        i = i + 1;
    }
    assert(pv.take(names.len() as int) =~= pv);
}

/// Appends the spelling of one DNF term.
fn append_dnf_term(out: &mut String, t: &DnfTerm)
    ensures
        final(out)@ == old(out)@ + dnf_term_text(*t),
{
    match t {
        DnfTerm::Single(name) => {
            out.append("\\");
            out.append(name.as_str());
            assert(out@ =~= old(out)@ + class_ref(name@));
        },
        DnfTerm::Intersection(names) => {
            let ghost mid = out@;
            out.append("(");
            append_class_refs(out, names, "&");
            out.append(")");
            assert(out@ =~= old(out)@ + ("("@ + seq_join(class_refs(names@), "&"@) + ")"@));
        },
    }
}

impl PhpType {
    /// Renders the type in PHP syntax, e.g. `\Foo|\Bar` or `(\A&\B)|\C`.
    pub fn to_php_string(&self) -> (r: String)
        ensures
            r@ == php_type_text(*self),
    {
        let mut out = String::new();
        match self {
            PhpType::Simple(dt) => {
                append_stub_name(&mut out, dt);
            },
            PhpType::Union(types) => {
                let ghost pv = types@.map_values(|d: DataType| stub_name(d));
                let mut i: usize = 0;
                assert(out@ =~= seq_join(pv.take(0), "|"@));
                while i < types.len()
                    invariant
                        pv == types@.map_values(|d: DataType| stub_name(d)),
                        pv.len() == types@.len(),
                        i <= types.len(),
                        out@ == seq_join(pv.take(i as int), "|"@),
                    decreases types.len() - i,
                {
                    assert(pv.take(i + 1).drop_last() =~= pv.take(i as int));
                    if i != 0 {
                        out.append("|");
                    }
                    append_stub_name(&mut out, &types[i]);
                    i = i + 1;
                }
                assert(pv.take(types.len() as int) =~= pv);
            },
            PhpType::ClassUnion(names) => {
                append_class_refs(&mut out, names, "|");
                assert(out@ =~= seq_join(class_refs(names@), "|"@));
            },
            PhpType::Intersection(names) => {
                append_class_refs(&mut out, names, "&");
                assert(out@ =~= seq_join(class_refs(names@), "&"@));
            },
            PhpType::Dnf(terms) => {
                let ghost pv = terms@.map_values(|t: DnfTerm| dnf_term_text(t));
                let mut i: usize = 0;
                assert(out@ =~= seq_join(pv.take(0), "|"@));
                while i < terms.len()
                    invariant
                        pv == terms@.map_values(|t: DnfTerm| dnf_term_text(t)),
                        pv.len() == terms@.len(),
                        i <= terms.len(),
                        out@ == seq_join(pv.take(i as int), "|"@),
                    decreases terms.len() - i,
                {
                    assert(pv.take(i + 1).drop_last() =~= pv.take(i as int));
                    if i != 0 {
                        out.append("|");
                    }
                    append_dnf_term(&mut out, &terms[i]);
                    i = i + 1;
                }
                assert(pv.take(terms.len() as int) =~= pv);
            },
        }
        out
    }
}

/// A Rust enum whose variants wrap the members of a PHP union: it names the
/// union it stands for.
pub trait PhpUnion {
    /// The PHP type the enum stands for.
    fn union_types() -> PhpType;
}

} // verus!
