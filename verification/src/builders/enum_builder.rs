//! Building the engine's description of an enum.
use vstd::prelude::*;
use vstd::utf8::encode_utf8;

use crate::args::{find_nul, nul_at, nul_free};
use crate::builders::function::{
    FunctionBuilder, FunctionEntry, build_error, build_ok, built_fields, built_flags,
};
use crate::enum_::{Discriminant, EnumCase, case_data_type, discriminant_view};
use crate::error::Error;
use crate::flags::{DataType, type_code};
use crate::types::zval::Zval;

verus! {

/// Builds the description of an enum: its cases, methods and backing type.
#[must_use]
pub struct EnumBuilder<H, R> {
    /// The enum name.
    pub name: String,
    /// The methods, each with its `ZEND_ACC_*` flags.
    pub methods: Vec<(FunctionBuilder<'static, H>, u32)>,
    /// The cases, in order.
    pub cases: Vec<&'static EnumCase>,
    /// The backing type: `int`, `string`, or undefined for a pure enum.
    pub datatype: DataType,
    /// The code that finishes the class once the engine has it.
    pub register: Option<R>,
    /// Documentation lines.
    pub docs: &'static [&'static str],
}

/// What the engine is handed to register an enum.
pub struct EnumRegistration<H, R> {
    /// The enum name.
    pub name: String,
    /// The engine code of the backing type.
    pub backing_type: u8,
    /// The methods, flags applied.
    pub methods: Vec<FunctionEntry<H>>,
    /// The cases in order: name and backing value.
    pub cases: Vec<(&'static str, Option<Zval>)>,
    /// The code that finishes the class.
    pub register: R,
}

/// The index of the first method whose description cannot be built.
pub open spec fn first_bad_method<H>(m: Seq<(FunctionBuilder<H>, u32)>, i: int) -> bool {
    0 <= i < m.len() && !build_ok(m[i].0) && forall|j: int| 0 <= j < i ==> build_ok(#[trigger] m[j].0)
}

/// `entries` are the descriptions of `methods`, each with its flags added.
pub open spec fn methods_built<H>(methods: Seq<(FunctionBuilder<H>, u32)>, entries: Seq<FunctionEntry<H>>) -> bool {
    &&& entries.len() == methods.len()
    &&& forall|i: int| 0 <= i < methods.len() ==> built_fields(methods[i].0, #[trigger] entries[i])
        && entries[i].flags == built_flags(methods[i].0) | methods[i].1
}

/// `values` are the names and backing values of `cases`.
pub open spec fn cases_valued(cases: Seq<&EnumCase>, values: Seq<(&'static str, Option<Zval>)>) -> bool {
    &&& values.len() == cases.len()
    &&& forall|i: int| 0 <= i < cases.len() ==> {
        let c = #[trigger] values[i];
        &&& c.0 == cases[i].name
        &&& match cases[i].discriminant {
            None => c.1 is None,
            Some(d) => c.1 matches Some(z) && z@ == discriminant_view(d),
        }
    }
}

impl<H, R> EnumBuilder<H, R> {
    /// A builder for a pure enum with no cases or methods.
    pub fn new(name: &str) -> (r: Self)
        ensures
            r.name@ == name@,
            r.methods@.len() == 0,
            r.cases@.len() == 0,
            r.datatype == DataType::Undef,
            r.register is None,
            r.docs@.len() == 0,
    {
        EnumBuilder {
            name: String::from_str(name),
            methods: Vec::new(),
            cases: Vec::new(),
            datatype: DataType::Undef,
            register: None,
            docs: &[],
        }
    }

    /// Adds a case; the enum takes the case's backing type. Every case of an
    /// enum has the same backing type.
    pub fn case(self, case: &'static EnumCase) -> (r: Self)
        requires
            self.cases@.len() == 0 || case_data_type(case.discriminant) == self.datatype,
        ensures
            r == (EnumBuilder { cases: r.cases, datatype: case_data_type(case.discriminant), ..self }),
            r.cases@ == self.cases@.push(case),
    {
        let data_type = case.data_type();
        let mut s = self;
        s.datatype = data_type;
        s.cases.push(case);
        s
    }

    /// Adds a method with its flags.
    pub fn method(self, method: FunctionBuilder<'static, H>, flags: u32) -> (r: Self)
        ensures
            r == (EnumBuilder { methods: r.methods, ..self }),
            r.methods@ == self.methods@.push((method, flags)),
    {
        let mut s = self;
        s.methods.push((method, flags));
        s
    }

    /// Sets the code that finishes the class once the engine has it.
    pub fn registration(self, register: R) -> (r: Self)
        ensures
            r == (EnumBuilder { register: Some(register), ..self }),
    {
        let mut s = self;
        s.register = Some(register);
        s
    }

    /// Sets the documentation lines.
    pub fn docs(self, docs: &'static [&'static str]) -> (r: Self)
        ensures
            r == (EnumBuilder { docs, ..self }),
    {
        let mut s = self;
        s.docs = docs;
        s
    }

    /// Builds what the engine is handed to register the enum.
    ///
    /// Fails with the error of the first method whose description cannot be
    /// built, else with `InvalidCString` when the name holds a NUL byte.
    #[verifier::spinoff_prover]
    pub fn register(self) -> (r: Result<EnumRegistration<H, R>, Error>)
        requires
            self.register is Some,
        ensures
            r is Ok <==> (forall|i: int| 0 <= i < self.methods@.len() ==> build_ok(#[trigger] self.methods@[i].0))
                && nul_free(encode_utf8(self.name@)),
            r matches Err(e) ==> if exists|i: int| first_bad_method(self.methods@, i) {
                exists|i: int| first_bad_method(self.methods@, i) && build_error(self.methods@[i].0, e)
            } else {
                e matches Error::InvalidCString { position } && nul_at(encode_utf8(self.name@), position as int)
            },
            r matches Ok(reg) ==> reg.name@ == self.name@ && reg.backing_type == type_code(self.datatype)
                && reg.register == self.register.unwrap(),
            r matches Ok(reg) ==> methods_built(self.methods@, reg.methods@),
            r matches Ok(reg) ==> cases_valued(self.cases@, reg.cases@),
    {
        let EnumBuilder { name, methods, cases, datatype, register, docs } = self;
        let ghost ms = methods@;
        let mut methods = methods;
        let mut entries: Vec<FunctionEntry<H>> = Vec::new();
        let n = methods.len();
        let mut i: usize = 0;
        while i < n
            invariant
                i <= n,
                n == ms.len(),
                ms == self.methods@,
                methods@ =~= ms.subrange(i as int, n as int),
                entries@.len() == i,
                forall|j: int| 0 <= j < i ==> build_ok(#[trigger] ms[j].0),
                forall|j: int| 0 <= j < i ==> built_fields(ms[j].0, #[trigger] entries@[j])
                    && entries@[j].flags == built_flags(ms[j].0) | ms[j].1,
            decreases n - i,
        {
            let (method, flags) = methods.remove(0);
            assert(method == ms[i as int].0 && flags == ms[i as int].1);
            assert(methods@ =~= ms.subrange(i + 1, n as int));
            match method.build() {
                Ok(entry) => {
                    let mut entry = entry;
                    entry.flags = entry.flags | flags;
                    entries.push(entry);
                },
                Err(e) => {
                    assert(first_bad_method(ms, i as int) && build_error(ms[i as int].0, e));
                    return Err(e);
                },
            }
            i = i + 1;
        }
        proof {
            assert(methods_built(ms, entries@));
            if exists|k: int| first_bad_method(ms, k) {
                let k = choose|k: int| first_bad_method(ms, k);
                assert(build_ok(ms[k].0));
            }
        }
        match find_nul(name.as_str()) {
            Some(p) => return Err(Error::InvalidCString { position: p }),
            None => {},
        }
        let backing_type: u8 = match datatype.as_u32() {
            0 => 0,
            1 => 1,
            2 => 2,
            3 => 3,
            4 => 4,
            5 => 5,
            6 => 6,
            7 => 7,
            8 => 8,
            9 => 9,
            10 => 10,
            11 => 11,
            12 => 12,
            13 => 13,
            14 => 14,
            16 => 16,
            _ => 18,
        };
        let mut values: Vec<(&'static str, Option<Zval>)> = Vec::new();
        let mut k: usize = 0;
        while k < cases.len()
            invariant
                k <= cases@.len(),
                cases@ == self.cases@,
                values@.len() == k,
                forall|j: int| 0 <= j < k ==> {
                    let c = #[trigger] values@[j];
                    &&& c.0 == cases@[j].name
                    &&& match cases@[j].discriminant {
                        None => c.1 is None,
                        Some(d) => c.1 matches Some(z) && z@ == discriminant_view(d),
                    }
                },
            decreases cases.len() - k,
        {
            let case = cases[k];
            let value = match &case.discriminant {
                Some(d) => match d.to_zval(true) {
                    Ok(z) => Some(z),
                    Err(e) => return Err(e),
                },
                None => None,
            };
            values.push((case.name, value));
            k = k + 1;
        }
        let register = match register {
            Some(r) => r,
            None => return Err(Error::InvalidPointer),
        };
        let reg = EnumRegistration { name, backing_type, methods: entries, cases: values, register };
        assert(cases_valued(self.cases@, reg.cases@));
        assert(methods_built(self.methods@, reg.methods@));
        Ok(reg)
    }
}

} // verus!
