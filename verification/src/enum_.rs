//! Cases of PHP enums declared from Rust.
use vstd::prelude::*;
use vstd::string::StringSliceAdditionalSpecFns;

use crate::convert::IntoZval;
use crate::error::Error;
use crate::flags::DataType;
use crate::types::zval::{Zval, ZvalView};

verus! {

/// The value behind a backed enum case.
#[derive(Debug, PartialEq, Eq)]
pub enum Discriminant {
    /// An `int`-backed case.
    Int(i64),
    /// A `string`-backed case.
    String(&'static str),
}

/// One case of an enum.
pub struct EnumCase {
    /// The case name.
    pub name: &'static str,
    /// The backing value of a backed enum's case.
    pub discriminant: Option<Discriminant>,
    /// Documentation lines.
    pub docs: &'static [&'static str],
}

/// The backing type a case implies.
pub open spec fn case_data_type(d: Option<Discriminant>) -> DataType {
    match d {
        Some(Discriminant::Int(_)) => DataType::Long,
        Some(Discriminant::String(_)) => DataType::String,
        None => DataType::Undef,
    }
}

/// The value a discriminant is stored as.
pub open spec fn discriminant_view(d: Discriminant) -> ZvalView {
    match d {
        Discriminant::Int(i) => ZvalView::Long(i),
        Discriminant::String(s) => ZvalView::Str(s.spec_bytes()),
    }
}

impl EnumCase {
    /// The backing type of the case: `int`, `string`, or undefined for a pure
    /// enum's case.
    pub fn data_type(&self) -> (r: DataType)
        ensures
            r == case_data_type(self.discriminant),
    {
        match self.discriminant {
            Some(Discriminant::Int(_)) => DataType::Long,
            Some(Discriminant::String(_)) => DataType::String,
            None => DataType::Undef,
        }
    }
}

impl Discriminant {
    /// The value the discriminant is stored as; strings are persistent when
    /// `persistent` is set.
    pub fn to_zval(&self, persistent: bool) -> (r: Result<Zval, Error>)
        ensures
            r matches Ok(z) && z@ == discriminant_view(*self),
    {
        match self {
            Discriminant::Int(i) => (*i).into_zval(persistent),
            Discriminant::String(s) => (*s).into_zval(persistent),
        }
    }
}

impl<'a> TryFrom<&'a Discriminant> for Zval {
    type Error = Error;

    /// The value the discriminant is stored as, request-bound.
    fn try_from(value: &'a Discriminant) -> (r: Result<Zval, Error>)
        ensures
            r matches Ok(z) && z@ == discriminant_view(*value),
    {
        value.to_zval(false)
    }
}

impl<'a> vstd::std_specs::convert::TryFromSpecImpl<&'a Discriminant> for Zval {
    open spec fn obeys_try_from_spec() -> bool {
        false
    }

    open spec fn try_from_spec(v: &'a Discriminant) -> Result<Zval, Error> {
        arbitrary()
    }
}

} // verus!
