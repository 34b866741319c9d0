//! Building the engine's description of a function or method.
use vstd::prelude::*;
use vstd::std_specs::convert::IntoSpec;
use vstd::utf8::encode_utf8;

use crate::args::{
    Arg, ArgInfo, arg_info_error, arg_info_of, arg_info_ok, arg_type_accepted, arg_type_is,
    find_nul, nul_at, nul_free,
};
use crate::error::Error;
use crate::flags::DataType;
use crate::types::php_type::PhpType;
use crate::zend::zend_type::{ZendType, TypePtr};

verus! {

/// `ZEND_ACC_ABSTRACT`: the method has no body.
pub const ZEND_ACC_ABSTRACT: u32 = 0x40;
/// `ZEND_ACC_VARIADIC`: the last parameter takes all remaining values.
pub const ZEND_ACC_VARIADIC: u32 = 0x4000;

/// The engine's description of a function: its name, handler, return type and
/// parameters.
#[derive(Debug)]
pub struct FunctionEntry<H> {
    /// The function name.
    pub fname: String,
    /// The code that runs on a call; `None` for an abstract method.
    pub handler: Option<H>,
    /// How many parameters a call must at least pass.
    pub required_num_args: usize,
    /// The declared return type.
    pub return_type: ZendType,
    /// One entry per parameter.
    pub arg_info: Vec<ArgInfo>,
    /// The number of parameters.
    pub num_args: u32,
    /// `ZEND_ACC_*` flags.
    pub flags: u32,
}

/// Builds a [`FunctionEntry`] step by step.
#[must_use]
#[derive(Debug)]
pub struct FunctionBuilder<'a, H> {
    /// The function name.
    pub name: String,
    /// The code that runs on a call; `None` for an abstract method.
    pub handler: Option<H>,
    /// `ZEND_ACC_*` flags set so far.
    pub flags: u32,
    /// The parameters, in order.
    pub args: Vec<Arg<'a>>,
    /// How many parameters are required, when not all of them are.
    pub n_req: Option<usize>,
    /// The declared return type.
    pub retval: Option<PhpType>,
    /// Whether the result is returned by reference.
    pub ret_as_ref: bool,
    /// Whether the result may be null.
    pub ret_as_null: bool,
    /// Documentation lines.
    pub docs: &'static [&'static str],
}

/// Whether the last parameter is variadic.
pub open spec fn last_variadic(args: Seq<Arg>) -> bool {
    args.len() > 0 && args.last().variadic
}

/// How many parameters a call must at least pass: the required ones, less a
/// trailing variadic one.
pub open spec fn required_params(args: Seq<Arg>, n_req: Option<usize>) -> int {
    let declared = match n_req {
        Some(n) => n as int,
        None => args.len() as int,
    };
    if last_variadic(args) && declared > 0 {
        declared - 1
    } else {
        declared
    }
}

/// Whether a declared return type can be built.
pub open spec fn return_accepted(retval: Option<PhpType>, as_null: bool) -> bool {
    match retval {
        None => true,
        Some(ty) => arg_type_accepted(ty, as_null),
    }
}

/// `t` is the engine type of the declared return type.
pub open spec fn return_type_is(retval: Option<PhpType>, as_ref: bool, as_null: bool, t: ZendType) -> bool {
    match retval {
        None => t.ptr is Null && t.type_mask == 0,
        Some(ty) => arg_type_is(ty, as_ref, false, as_null, t),
    }
}

/// Whether the return of a single type `dt` may be marked nullable: PHP
/// rejects `?void` and `?mixed`.
pub open spec fn nullable_return(ty: PhpType, allow_null: bool) -> bool {
    match ty {
        PhpType::Simple(dt) => allow_null && dt != DataType::Void && dt != DataType::Mixed,
        _ => allow_null,
    }
}

/// The index of the first parameter whose information cannot be built.
pub open spec fn first_bad_arg(args: Seq<Arg>, i: int) -> bool {
    0 <= i < args.len() && !arg_info_ok(args[i]) && forall|j: int| 0 <= j < i ==> arg_info_ok(
        #[trigger] args[j],
    )
}

/// Whether the description of `b` can be built.
pub open spec fn build_ok<H>(b: FunctionBuilder<H>) -> bool {
    &&& return_accepted(b.retval, b.ret_as_null)
    &&& forall|i: int| 0 <= i < b.args@.len() ==> arg_info_ok(#[trigger] b.args@[i])
    &&& nul_free(encode_utf8(b.name@))
    &&& b.args@.len() <= u32::MAX
}

/// The error building the description of `b` fails with: the return type
/// first, then the parameters in order, then the name, then the count.
pub open spec fn build_error<H>(b: FunctionBuilder<H>, e: Error) -> bool {
    if !return_accepted(b.retval, b.ret_as_null) {
        e matches Error::InvalidCString { position } && position == 0
    } else if exists|i: int| first_bad_arg(b.args@, i) {
        exists|i: int| first_bad_arg(b.args@, i) && arg_info_error(b.args@[i], e)
    } else if !nul_free(encode_utf8(b.name@)) {
        e matches Error::InvalidCString { position } && nul_at(encode_utf8(b.name@), position as int)
    } else {
        e is IntegerOverflow
    }
}

/// The flags of the description built from `b`.
pub open spec fn built_flags<H>(b: FunctionBuilder<H>) -> u32 {
    if last_variadic(b.args@) {
        b.flags | ZEND_ACC_VARIADIC
    } else {
        b.flags
    }
}

/// `f` is the description built from `b`, flags aside.
pub open spec fn built_fields<H>(b: FunctionBuilder<H>, f: FunctionEntry<H>) -> bool {
    &&& f.fname@ == b.name@
    &&& f.handler == b.handler
    &&& f.required_num_args == required_params(b.args@, b.n_req)
    &&& return_type_is(b.retval, b.ret_as_ref, b.ret_as_null, f.return_type)
    &&& f.arg_info@.len() == b.args@.len()
    &&& forall|i: int| 0 <= i < b.args@.len() ==> arg_info_of(#[trigger] b.args@[i], f.arg_info@[i])
    &&& f.num_args == b.args@.len()
}

/// `f` is the description built from `b`.
pub open spec fn built_as<H>(b: FunctionBuilder<H>, f: FunctionEntry<H>) -> bool {
    built_fields(b, f) && f.flags == built_flags(b)
}

impl<'a, H> FunctionBuilder<'a, H> {
    /// A builder for a function with the given name and handler, no
    /// parameters and no declared return type.
    pub fn new(name: &str, handler: H) -> (r: Self)
        ensures
            r.name@ == name@,
            r.handler == Some(handler),
            r.flags == 0,
            r.args@.len() == 0,
            r.n_req is None,
            r.retval is None,
            !r.ret_as_ref,
            !r.ret_as_null,
            r.docs@.len() == 0,
    {
        FunctionBuilder {
            name: String::from_str(name),
            handler: Some(handler),
            flags: 0,
            args: Vec::new(),
            n_req: None,
            retval: None,
            ret_as_ref: false,
            ret_as_null: false,
            docs: &[],
        }
    }

    /// A builder for an abstract method: no handler, flagged abstract.
    pub fn new_abstract(name: &str) -> (r: Self)
        ensures
            r.name@ == name@,
            r.handler is None,
            r.flags == ZEND_ACC_ABSTRACT,
            r.args@.len() == 0,
            r.n_req is None,
            r.retval is None,
            !r.ret_as_ref,
            !r.ret_as_null,
            r.docs@.len() == 0,
    {
        FunctionBuilder {
            name: String::from_str(name),
            handler: None,
            flags: ZEND_ACC_ABSTRACT,
            args: Vec::new(),
            n_req: None,
            retval: None,
            ret_as_ref: false,
            ret_as_null: false,
            docs: &[],
        }
    }

    /// A builder for a class constructor, `__construct`.
    pub fn constructor(handler: H) -> (r: Self)
        ensures
            r.name@ == "__construct"@,
            r.handler == Some(handler),
            r.flags == 0,
            r.args@.len() == 0,
            r.n_req is None,
            r.retval is None,
            !r.ret_as_ref,
            !r.ret_as_null,
            r.docs@.len() == 0,
    {
        Self::new("__construct", handler)
    }

    /// Adds a parameter.
    pub fn arg(self, arg: Arg<'a>) -> (r: Self)
        ensures
            r == (FunctionBuilder { args: r.args, ..self }),
            r.args@ == self.args@.push(arg),
    {
        let mut s = self;
        s.args.push(arg);
        s
    }

    /// Makes the parameters added from now on optional.
    pub fn not_required(self) -> (r: Self)
        ensures
            r == (FunctionBuilder { n_req: Some(self.args@.len() as usize), ..self }),
    {
        let mut s = self;
        s.n_req = Some(s.args.len());
        s
    }

    /// Declares the return type. A nullable `void` or `mixed` is declared
    /// without the nullable mark, which PHP rejects for them.
    pub fn returning<T: Into<PhpType>>(self, ty: T, as_ref: bool, allow_null: bool) -> (r: Self)
        ensures
            r.retval matches Some(t) && call_ensures(T::into, (ty,), t) && (T::obeys_into_spec() ==> t
                == ty.into_spec()),
            r.ret_as_null == nullable_return(r.retval.unwrap(), allow_null),
            r == (FunctionBuilder { retval: r.retval, ret_as_ref: as_ref, ret_as_null: r.ret_as_null, ..self }),
    {
        let ty: PhpType = ty.into();
        let as_null = match &ty {
            PhpType::Simple(dt) => allow_null && !dt.same_as(&DataType::Void) && !dt.same_as(&DataType::Mixed),
            _ => allow_null,
        };
        let mut s = self;
        s.ret_as_null = as_null;
        s.retval = Some(ty);
        s.ret_as_ref = as_ref;
        s
    }

    /// Sets the documentation lines.
    pub fn docs(self, docs: &'static [&'static str]) -> (r: Self)
        ensures
            r == (FunctionBuilder { docs, ..self }),
    {
        let mut s = self;
        s.docs = docs;
        s
    }

    fn return_type(&self) -> (r: Option<ZendType>)
        ensures
            r is Some <==> return_accepted(self.retval, self.ret_as_null),
            r matches Some(t) ==> return_type_is(self.retval, self.ret_as_ref, self.ret_as_null, t),
    {
        match &self.retval {
            None => {
                let t = ZendType::empty(false, false);
                let m = t.type_mask;
                assert(m == 0) by (bit_vector)
                    requires
                        m == 0u32 | 0u32,
                ;
                Some(t)
            },
            Some(PhpType::Simple(dt)) => ZendType::empty_from_type(*dt, self.ret_as_ref, false, self.ret_as_null),
            Some(PhpType::Union(types)) => ZendType::empty_from_primitive_union(types, self.ret_as_ref, false, self.ret_as_null),
            Some(PhpType::ClassUnion(names)) => ZendType::empty_from_class_union(names, self.ret_as_ref, false, self.ret_as_null),
            Some(PhpType::Intersection(names)) => ZendType::empty_from_class_intersection(names, self.ret_as_ref, false, self.ret_as_null),
            Some(PhpType::Dnf(terms)) => ZendType::empty_from_dnf(terms, self.ret_as_ref, false, self.ret_as_null),
        }
    }

    /// Builds the function description.
    ///
    /// Fails, in this order: with `InvalidCString` at position 0 when the
    /// return type cannot be built; with the error of the first parameter whose
    /// information cannot be built; with `InvalidCString` when the name holds a
    /// NUL byte; with `IntegerOverflow` when the parameters cannot be counted in
    /// a `u32`.
    pub fn build(self) -> (r: Result<FunctionEntry<H>, Error>)
        ensures
            r is Ok <==> build_ok(self),
            r matches Err(e) ==> build_error(self, e),
            r matches Ok(f) ==> built_as(self, f),
    {
        let n = self.args.len();
        let mut n_req = match self.n_req {
            Some(k) => k,
            None => n,
        };
        let variadic = n > 0 && self.args[n - 1].variadic;
        let mut flags = self.flags;
        if variadic {
            flags = flags | ZEND_ACC_VARIADIC;
            if n_req > 0 {
                n_req = n_req - 1;
            }
        }
        let return_type = match self.return_type() {
            Some(t) => t,
            None => return Err(Error::InvalidCString { position: 0 }),
        };
        let mut infos: Vec<ArgInfo> = Vec::new();
        let mut i: usize = 0;
        while i < n
            invariant
                i <= n,
                n == self.args@.len(),
                return_accepted(self.retval, self.ret_as_null),
                infos@.len() == i,
                forall|j: int| 0 <= j < i ==> arg_info_ok(#[trigger] self.args@[j]),
                forall|j: int| 0 <= j < i ==> arg_info_of(#[trigger] self.args@[j], infos@[j]),
            decreases n - i,
        {
            match self.args[i].as_arg_info() {
                Ok(info) => infos.push(info),
                Err(e) => {
                    assert(first_bad_arg(self.args@, i as int) && arg_info_error(self.args@[i as int], e));
                    return Err(e);
                },
            }
            i = i + 1;
        }
        proof {
            if exists|k: int| first_bad_arg(self.args@, k) {
                let k = choose|k: int| first_bad_arg(self.args@, k);
                assert(arg_info_ok(self.args@[k]));
            }
        }
        match find_nul(self.name.as_str()) {
            Some(p) => return Err(Error::InvalidCString { position: p }),
            None => {},
        }
        if n > 4294967295usize {
            return Err(Error::IntegerOverflow);
        }
        Ok(FunctionEntry {
            fname: self.name,
            handler: self.handler,
            required_num_args: n_req,
            return_type,
            arg_info: infos,
            num_args: n as u32,
            flags,
        })
    }
}

} // verus!
