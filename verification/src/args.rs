//! Function and method arguments, and the parser that hands call values to them.
use vstd::prelude::*;
use vstd::std_specs::convert::IntoSpec;
use vstd::string::StringSliceAdditionalSpecFns;
use vstd::utf8::encode_utf8;

use crate::convert::FromZval;
use crate::error::Error;
use crate::flags::DataType;
use crate::types::php_type::{DnfTerm, PhpType};
use crate::types::zval::{Zval, deref_view};
use crate::zend::expected_type::{ExpectedType, spec_from_simple};
use crate::text::{seq_join, views};
use crate::zend::zend_type::{
    ZendType, TypePtr, class_list_accepted, dnf_accepted, empty_from_type_spec, has_nul,
    is_class_list, is_dnf_list, is_literal_class, may_be_union, spec_arg_info_flags,
    spec_flags_nullable, _ZEND_TYPE_ARENA_BIT, _ZEND_TYPE_INTERSECTION_BIT, _ZEND_TYPE_LIST_BIT,
    _ZEND_TYPE_UNION_BIT,
};

verus! {

/// An argument of a function: its declaration and, once parsed, its value.
#[derive(Debug)]
pub struct Arg<'a> {
    /// The parameter name.
    pub name: String,
    /// The declared type.
    pub ty: PhpType,
    /// Whether the argument is passed by reference.
    pub as_ref: bool,
    /// Whether null is accepted.
    pub allow_null: bool,
    /// Whether the argument takes all remaining values.
    pub variadic: bool,
    /// The default value, as PHP source text.
    pub default_value: Option<String>,
    /// The value handed to a non-variadic argument.
    pub zval: Option<&'a mut Zval>,
    /// The values handed to a variadic argument.
    pub variadic_zvals: Vec<Option<&'a mut Zval>>,
}

/// The values an argument reads from a sequence of call slots, skipping empty
/// slots and values that do not convert.
pub open spec fn read_values<T: FromZval>(slots: Seq<Option<&mut Zval>>, out: Seq<T>) -> bool
    decreases slots.len(),
{
    if slots.len() == 0 {
        out.len() == 0
    } else {
        let last = slots.last();
        match last {
            Some(z) => {
                ||| (T::reads_as(deref_view(z@), None) && read_values(slots.drop_last(), out))
                ||| (out.len() > 0 && T::reads_as(deref_view(z@), Some(out.last())) && read_values(
                    slots.drop_last(),
                    out.drop_last(),
                ))
            },
            None => read_values(slots.drop_last(), out),
        }
    }
}

/// The argument information the engine is handed for a parameter.
#[derive(Debug)]
pub struct ArgInfo {
    /// The parameter name.
    pub name: String,
    /// The declared type.
    pub type_: ZendType,
    /// The default value as PHP source text, `None` for no default.
    pub default_value: Option<String>,
}

/// The first NUL byte of a string, as a C string conversion reports it.
pub fn find_nul(s: &str) -> (r: Option<usize>)
    ensures
        match r {
            Some(p) => nul_at(encode_utf8(s@), p as int),
            None => nul_free(encode_utf8(s@)),
        },
{
    let b = s.as_bytes();
    let mut i: usize = 0;
    while i < b.len()
        invariant
            i <= b@.len(),
            b@ == encode_utf8(s@),
            forall|j: int| 0 <= j < i ==> b@[j] != 0,
        decreases b.len() - i,
    {
        if b[i] == 0 {
            return Some(i);
        }
        i = i + 1;
    }
    None
}

/// What the engine receives as a default: `None` is spelled `null`.
pub open spec fn default_text(d: Seq<char>) -> Seq<char> {
    if d == "None"@ {
        "null"@
    } else {
        d
    }
}

/// Whether the engine type of an argument can be built.
pub open spec fn arg_type_accepted(ty: PhpType, allow_null: bool) -> bool {
    match ty {
        PhpType::Simple(DataType::Object(Some(class))) => !has_nul(class@),
        PhpType::Simple(_) => true,
        PhpType::Union(members) => members@.len() > 0,
        PhpType::ClassUnion(names) => names@.len() > 0 && !has_nul(seq_join(views(names@), "|"@)),
        PhpType::Intersection(names) => !allow_null && class_list_accepted(names@),
        PhpType::Dnf(terms) => dnf_accepted(terms@),
    }
}

/// `t` is the engine type of an argument of type `ty`.
pub open spec fn arg_type_is(ty: PhpType, by_ref: bool, variadic: bool, allow_null: bool, t: ZendType) -> bool {
    let flags = spec_flags_nullable(by_ref, variadic, allow_null);
    match ty {
        PhpType::Simple(dt) => empty_from_type_spec(dt, by_ref, variadic, allow_null, Some(t)),
        PhpType::Union(members) => t.ptr is Null && t.type_mask == may_be_union(flags, members@),
        PhpType::ClassUnion(names) => is_literal_class(t, seq_join(views(names@), "|"@), flags),
        PhpType::Intersection(names) => t.type_mask == spec_arg_info_flags(by_ref, variadic)
            | _ZEND_TYPE_LIST_BIT | _ZEND_TYPE_INTERSECTION_BIT | _ZEND_TYPE_ARENA_BIT
            && is_class_list(t.ptr, names@, true),
        PhpType::Dnf(terms) => t.type_mask == flags | _ZEND_TYPE_LIST_BIT | _ZEND_TYPE_UNION_BIT
            | _ZEND_TYPE_ARENA_BIT && is_dnf_list(t.ptr, terms@, true),
    }
}

/// Whether a C string conversion of `s` fails, and where.
pub open spec fn nul_at(s: Seq<u8>, p: int) -> bool {
    0 <= p < s.len() && s[p] == 0 && forall|j: int| 0 <= j < p ==> s[j] != 0
}

/// `s` has no NUL byte.
pub open spec fn nul_free(s: Seq<u8>) -> bool {
    forall|j: int| 0 <= j < s.len() ==> s[j] != 0
}

/// Whether the argument information of `a` can be built.
pub open spec fn arg_info_ok(a: Arg) -> bool {
    &&& arg_type_accepted(a.ty, a.allow_null)
    &&& nul_free(encode_utf8(a.name@))
    &&& a.default_value matches Some(d) ==> nul_free(encode_utf8(default_text(d@)))
}

/// The error building the argument information of `a` fails with.
pub open spec fn arg_info_error(a: Arg, e: Error) -> bool {
    &&& e is InvalidCString
    &&& if !arg_type_accepted(a.ty, a.allow_null) {
        e->position == 0
    } else if !nul_free(encode_utf8(a.name@)) {
        nul_at(encode_utf8(a.name@), e->position as int)
    } else {
        nul_at(encode_utf8(default_text(a.default_value.unwrap()@)), e->position as int)
    }
}

/// `info` is the argument information of `a`.
pub open spec fn arg_info_of(a: Arg, info: ArgInfo) -> bool {
    &&& info.name@ == a.name@
    &&& arg_type_is(a.ty, a.as_ref, a.variadic, a.allow_null, info.type_)
    &&& match a.default_value {
        None => info.default_value is None,
        Some(d) => info.default_value matches Some(t) && t@ == default_text(d@),
    }
}

impl<'a> Arg<'a> {
    /// A new argument with the given name and type: passed by value, not
    /// nullable, not variadic, no default and no value.
    pub fn new<U: Into<PhpType>>(name: &str, ty: U) -> (r: Self)
        ensures
            r.name@ == name@,
            call_ensures(U::into, (ty,), r.ty),
            U::obeys_into_spec() ==> r.ty == ty.into_spec(),
            !r.as_ref,
            !r.allow_null,
            !r.variadic,
            r.default_value is None,
            r.zval is None,
            r.variadic_zvals@.len() == 0,
    {
        Arg {
            name: String::from_str(name),
            ty: ty.into(),
            as_ref: false,
            allow_null: false,
            variadic: false,
            default_value: None,
            zval: None,
            variadic_zvals: Vec::new(),
        }
    }

    /// Marks the argument as passed by reference.
    pub fn as_ref(self) -> (r: Self)
        ensures
            r == (Arg { as_ref: true, ..self }),
    {
        let mut s = self;
        s.as_ref = true;
        s
    }

    /// Marks the argument as variadic.
    pub fn is_variadic(self) -> (r: Self)
        ensures
            r == (Arg { variadic: true, ..self }),
    {
        let mut s = self;
        s.variadic = true;
        s
    }

    /// Marks the argument as nullable.
    pub fn allow_null(self) -> (r: Self)
        ensures
            r == (Arg { allow_null: true, ..self }),
    {
        let mut s = self;
        s.allow_null = true;
        s
    }

    /// Sets the default value, as PHP source text.
    pub fn default(self, default: &str) -> (r: Self)
        ensures
            r.default_value matches Some(d) && d@ == default@,
            r == (Arg { default_value: r.default_value, ..self }),
    {
        let mut s = self;
        s.default_value = Some(String::from_str(default));
        s
    }

    /// Reads the value as `T`, consuming the argument; hands the argument back
    /// when there is no value or it does not convert.
    pub fn consume<T: FromZval>(self) -> (r: Result<T, Self>)
        ensures
            match self.zval {
                None => r == Err::<T, Self>(self),
                Some(z) => match r {
                    Ok(v) => T::reads_as(deref_view(z@), Some(v)),
                    Err(a) => a == self && T::reads_as(deref_view(z@), None),
                },
            },
    {
        let v = match &self.zval {
            Some(z) => T::from_zval(z.dereference()),
            None => None,
        };
        match v {
            Some(v) => Ok(v),
            None => Err(self),
        }
    }

    /// Reads the value as `T`; `None` when there is no value or it does not
    /// convert.
    pub fn val<T: FromZval>(&self) -> (r: Option<T>)
        ensures
            match self.zval {
                None => r is None,
                Some(z) => T::reads_as(deref_view(z@), r),
            },
    {
        match &self.zval {
            Some(z) => T::from_zval(z.dereference()),
            None => None,
        }
    }

    /// Reads every value handed to a variadic argument as `T`, skipping the
    /// ones that do not convert.
    pub fn variadic_vals<T: FromZval>(&self) -> (r: Vec<T>)
        ensures
            read_values(self.variadic_zvals@, r@),
    {
        let mut out: Vec<T> = Vec::new();
        let mut i: usize = 0;
        while i < self.variadic_zvals.len()
            invariant
                i <= self.variadic_zvals@.len(),
                read_values(self.variadic_zvals@.subrange(0, i as int), out@),
            decreases self.variadic_zvals.len() - i,
        {
            let ghost before = out@;
            match &self.variadic_zvals[i] {
                Some(z) => {
                    match T::from_zval(z.dereference()) {
                        Some(v) => out.push(v),
                        None => {},
                    }
                },
                None => {},
            }
            proof {
                let s = self.variadic_zvals@.subrange(0, i + 1);
                assert(s.drop_last() =~= self.variadic_zvals@.subrange(0, i as int));
                if out@.len() > before.len() {
                    assert(out@.drop_last() =~= before);
                }
            }
            i = i + 1;
        }
        proof {
            assert(self.variadic_zvals@.subrange(0, i as int) =~= self.variadic_zvals@);
        }
        out
    }

    /// Mutable access to the argument's value.
    pub fn zval(&mut self) -> (r: Option<&mut &'a mut Zval>)
        ensures
            match r {
                Some(z) => old(self).zval == Some(*z) && *final(self) == (Arg { zval: Some(*final(z)), ..*old(self) }),
                None => old(self).zval is None && *final(self) == *old(self),
            },
    {
        match &mut self.zval {
            Some(z) => Some(z),
            None => None,
        }
    }

    /// The legacy `Z_EXPECTED_*` discriminant of the declared type.
    ///
    /// Fails with `NoExpectedTypeDiscriminant` for compound types and for
    /// single types without a discriminant.
    pub fn expected_type(&self) -> (r: Result<ExpectedType, Error>)
        ensures
            match self.ty {
                PhpType::Simple(dt) => match spec_from_simple(dt, self.allow_null) {
                    Some(e) => r == Ok::<ExpectedType, Error>(e),
                    None => r matches Err(Error::NoExpectedTypeDiscriminant),
                },
                _ => r matches Err(Error::NoExpectedTypeDiscriminant),
            },
    {
        let dt = match &self.ty {
            PhpType::Simple(dt) => *dt,
            _ => return Err(Error::NoExpectedTypeDiscriminant),
        };
        match ExpectedType::from_simple(dt, self.allow_null) {
            Some(e) => Ok(e),
            None => Err(Error::NoExpectedTypeDiscriminant),
        }
    }

    /// The engine type of the argument.
    fn engine_type(&self) -> (r: Option<ZendType>)
        ensures
            r is Some <==> arg_type_accepted(self.ty, self.allow_null),
            r matches Some(t) ==> arg_type_is(self.ty, self.as_ref, self.variadic, self.allow_null, t),
    {
        match &self.ty {
            PhpType::Simple(dt) => ZendType::empty_from_type(*dt, self.as_ref, self.variadic, self.allow_null),
            PhpType::Union(types) => ZendType::empty_from_primitive_union(types, self.as_ref, self.variadic, self.allow_null),
            PhpType::ClassUnion(names) => ZendType::empty_from_class_union(names, self.as_ref, self.variadic, self.allow_null),
            PhpType::Intersection(names) => ZendType::empty_from_class_intersection(names, self.as_ref, self.variadic, self.allow_null),
            PhpType::Dnf(terms) => ZendType::empty_from_dnf(terms, self.as_ref, self.variadic, self.allow_null),
        }
    }

    /// The argument information handed to the engine.
    ///
    /// Fails with `InvalidCString` when the type cannot be built (reported at
    /// position 0), or when the name or the default holds a NUL byte (reported
    /// at its byte offset). A default of `None` is handed over as `null`.
    pub fn as_arg_info(&self) -> (r: Result<ArgInfo, Error>)
        ensures
            r is Ok <==> arg_info_ok(*self),
            r matches Err(e) ==> arg_info_error(*self, e),
            r matches Ok(info) ==> arg_info_of(*self, info),
    {
        let t = match self.engine_type() {
            Some(t) => t,
            None => return Err(Error::InvalidCString { position: 0 }),
        };
        match find_nul(self.name.as_str()) {
            Some(p) => return Err(Error::InvalidCString { position: p }),
            None => {},
        }
        let default_value = match &self.default_value {
            Some(val) => {
                let text = if crate::flags::str_eq(val.as_str(), "None") {
                    proof {
                        reveal_strlit("null");
                    }
                    String::from_str("null")
                } else {
                    String::from_str(val.as_str())
                };
                assert(text@ == default_text(val@));
                match find_nul(text.as_str()) {
                    Some(p) => return Err(Error::InvalidCString { position: p }),
                    None => {},
                }
                Some(text)
            },
            None => None,
        };
        Ok(ArgInfo { name: String::from_str(self.name.as_str()), type_: t, default_value })
    }

    /// The declared type.
    pub fn ty(&self) -> (r: &PhpType)
        ensures
            *r == self.ty,
    {
        &self.ty
    }
}

} // verus!

verus! {

/// Hands the values of a call to the declared arguments.
#[must_use]
pub struct ArgParser<'a, 'b> {
    /// The declared arguments, in order.
    pub args: Vec<&'b mut Arg<'a>>,
    /// How many arguments are required, when not all of them are.
    pub min_num_args: Option<usize>,
    /// The values of the call, in order.
    pub arg_zvals: Vec<Option<&'a mut Zval>>,
}

/// Whether the last declared argument is variadic.
pub open spec fn ends_variadic(args: Seq<&mut Arg>) -> bool {
    args.len() > 0 && args.last().variadic
}

/// How many values a call must at least have.
pub open spec fn required_count(args: Seq<&mut Arg>, min_num_args: Option<usize>) -> int {
    let declared = match min_num_args {
        Some(m) => m as int,
        None => args.len() as int,
    };
    if ends_variadic(args) && declared > 0 {
        declared - 1
    } else {
        declared
    }
}

/// Whether a call with `n` values fits the declared arguments.
pub open spec fn arity_fits(args: Seq<&mut Arg>, min_num_args: Option<usize>, n: int) -> bool {
    n >= required_count(args, min_num_args) && (ends_variadic(args) || n <= args.len())
}

/// The values the argument at `i` of `m` receives from `zv` when it is variadic:
/// its own slot, and when it is the last argument every slot after it.
pub open spec fn variadic_share<T>(i: int, m: int, zv: Seq<T>) -> Seq<T> {
    if i < zv.len() {
        if i == m - 1 {
            zv.subrange(i, zv.len() as int)
        } else {
            seq![zv[i]]
        }
    } else {
        Seq::empty()
    }
}

/// `after` is `before`, at position `i` of `m` arguments, once the values `zv`
/// are handed out.
pub open spec fn receives<'a>(before: Arg<'a>, after: Arg<'a>, i: int, m: int, zv: Seq<Option<&'a mut Zval>>) -> bool {
    &&& after.name == before.name
    &&& after.ty == before.ty
    &&& after.as_ref == before.as_ref
    &&& after.allow_null == before.allow_null
    &&& after.variadic == before.variadic
    &&& after.default_value == before.default_value
    &&& if before.variadic {
        &&& after.zval == before.zval
        &&& after.variadic_zvals@ == before.variadic_zvals@ + variadic_share(i, m, zv)
    } else {
        &&& after.variadic_zvals@ == before.variadic_zvals@
        &&& after.zval == (if i < zv.len() { zv[i] } else { before.zval })
    }
}

/// Whether the value at `i` goes to the variadic argument at `j` of `m`.
pub open spec fn shares_slot(j: int, i: int, m: int) -> bool {
    i == j || (j == m - 1 && i > j)
}

proof fn lemma_share_step<T>(j: int, m: int, zv: Seq<T>, i: int)
    requires
        0 <= i < zv.len(),
        0 <= j < m,
    ensures
        variadic_share(j, m, zv.subrange(0, i + 1)) == variadic_share(j, m, zv.subrange(0, i))
            + (if shares_slot(j, i, m) { seq![zv[i]] } else { Seq::empty() }),
{
    let a = zv.subrange(0, i + 1);
    let b = zv.subrange(0, i);
    if j < i {
        if j == m - 1 {
            assert(a.subrange(j, a.len() as int) =~= b.subrange(j, b.len() as int).push(zv[i]));
        }
    } else if j == i {
        if j == m - 1 {
            assert(a.subrange(j, a.len() as int) =~= seq![zv[i]]);
        }
        assert(variadic_share(j, m, b) =~= Seq::<T>::empty());
    }
}

impl<'a, 'b> ArgParser<'a, 'b> {
    /// A parser for the given call values, with no arguments declared yet.
    pub fn new(arg_zvals: Vec<Option<&'a mut Zval>>) -> (r: Self)
        ensures
            r.args@.len() == 0,
            r.min_num_args is None,
            r.arg_zvals == arg_zvals,
    {
        ArgParser { args: Vec::new(), min_num_args: None, arg_zvals }
    }

    /// Declares the next argument.
    pub fn arg(self, arg: &'b mut Arg<'a>) -> (r: Self)
        ensures
            r.args@.len() == self.args@.len() + 1,
            r.args@.subrange(0, self.args@.len() as int) == self.args@,
            *r.args@.last() == *old(arg),
            *final(r.args@.last()) == *final(arg),
            r.min_num_args == self.min_num_args,
            r.arg_zvals == self.arg_zvals,
    {
        let mut s = self;
        s.args.push(arg);
        s
    }

    /// Makes the arguments declared from now on optional.
    pub fn not_required(self) -> (r: Self)
        ensures
            r.args == self.args,
            r.min_num_args == Some(self.args@.len() as usize),
            r.arg_zvals == self.arg_zvals,
    {
        let mut s = self;
        s.min_num_args = Some(s.args.len());
        s
    }

    /// Hands the call values to the declared arguments: each value to the
    /// argument at its position, and every value past the last argument to it
    /// when it is variadic.
    ///
    /// Fails when the call has fewer values than required, or more than
    /// declared without a variadic last argument: with `IntegerOverflow` when
    /// the counts do not fit a `u32`, else with `IncorrectArguments` (values
    /// received, values required). The arguments are then left as they were.
    pub fn parse(self) -> (r: Result<(), Error>)
        ensures
            r is Ok <==> arity_fits(self.args@, self.min_num_args, self.arg_zvals@.len() as int),
            r matches Err(e) ==> {
                let req = required_count(self.args@, self.min_num_args);
                if req > u32::MAX || self.args@.len() > u32::MAX {
                    e is IntegerOverflow
                } else {
                    e matches Error::IncorrectArguments(got, min) && got == self.arg_zvals@.len()
                        && min == req
                }
            },
            r is Err ==> forall|i: int|
                0 <= i < self.args@.len() ==> *final(#[trigger] self.args@[i]) == *self.args@[i],
            r is Ok ==> forall|i: int|
                0 <= i < self.args@.len() ==> receives(
                    *#[trigger] self.args@[i],
                    *final(self.args@[i]),
                    i,
                    self.args@.len() as int,
                    self.arg_zvals@,
                ),
    {
        let ghost orig = self.args@;
        let ghost zv = self.arg_zvals@;
        let mut args = self.args;
        let mut zvals = self.arg_zvals;
        let max_num_args = args.len();
        let mut min_num_args = match self.min_num_args {
            Some(m) => m,
            None => max_num_args,
        };
        let num_args = zvals.len();
        let has_variadic = max_num_args > 0 && args[max_num_args - 1].variadic;
        if has_variadic && min_num_args > 0 {
            min_num_args = min_num_args - 1;
        }
        if num_args < min_num_args || (!has_variadic && num_args > max_num_args) {
            if min_num_args > 4294967295usize || max_num_args > 4294967295usize {
                return Err(Error::IntegerOverflow);
            }
            return Err(Error::IncorrectArguments(num_args, min_num_args));
        }
        let mut i: usize = 0;
        while i < num_args
            invariant
                i <= num_args,
                num_args == zvals@.len(),
                num_args == zv.len(),
                max_num_args == args@.len(),
                args@.len() == orig.len(),
                has_variadic == ends_variadic(orig),
                forall|j: int| i <= j < num_args ==> zvals@[j] == zv[j],
                forall|j: int| 0 <= j < max_num_args ==> *final(#[trigger] args@[j]) == *final(orig[j]),
                forall|j: int|
                    0 <= j < max_num_args ==> receives(
                        *#[trigger] orig[j],
                        *args@[j],
                        j,
                        max_num_args as int,
                        zv.subrange(0, i as int),
                    ),
            decreases num_args - i,
        {
            let ghost before = args@;
            let mut z: Option<&'a mut Zval> = None;
            std::mem::swap(&mut z, &mut zvals[i]);
            assert(z == zv[i as int]);
            if i < max_num_args {
                let a = &mut args[i];
                if a.variadic {
                    a.variadic_zvals.push(z);
                } else {
                    a.zval = z;
                }
            } else if has_variadic {
                let a = &mut args[max_num_args - 1];
                a.variadic_zvals.push(z);
            }
            proof {
                assert forall|j: int| 0 <= j < max_num_args implies receives(
                    *#[trigger] orig[j],
                    *args@[j],
                    j,
                    max_num_args as int,
                    zv.subrange(0, i + 1),
                ) by {
                    lemma_share_step(j, max_num_args as int, zv, i as int);
                    assert(receives(*orig[j], *before[j], j, max_num_args as int, zv.subrange(0, i as int)));
                    if orig[j].variadic {
                        if shares_slot(j, i as int, max_num_args as int) {
                            assert(args@[j].variadic_zvals@ =~= before[j].variadic_zvals@.push(z));
                        } else {
                            assert(args@[j].variadic_zvals@ =~= before[j].variadic_zvals@);
                        }
                        assert(args@[j].variadic_zvals@ =~= orig[j].variadic_zvals@ + variadic_share(
                            j,
                            max_num_args as int,
                            zv.subrange(0, i + 1),
                        ));
                    }
                }
            }
            i = i + 1;
        }
        proof {
            assert(zv.subrange(0, num_args as int) =~= zv);
        }
        Ok(())
    }
}

} // verus!
