//! The legacy `Z_EXPECTED_*` discriminants of the engine's parameter parsing.
use vstd::prelude::*;

use crate::flags::DataType;

verus! {

/// Raw value of `Z_EXPECTED_LONG`.
pub const Z_EXPECTED_LONG: u32 = 0;
/// Raw value of `Z_EXPECTED_LONG_OR_NULL`.
pub const Z_EXPECTED_LONG_OR_NULL: u32 = 1;
/// Raw value of `Z_EXPECTED_BOOL`.
pub const Z_EXPECTED_BOOL: u32 = 2;
/// Raw value of `Z_EXPECTED_BOOL_OR_NULL`.
pub const Z_EXPECTED_BOOL_OR_NULL: u32 = 3;
/// Raw value of `Z_EXPECTED_STRING`.
pub const Z_EXPECTED_STRING: u32 = 4;
/// Raw value of `Z_EXPECTED_STRING_OR_NULL`.
pub const Z_EXPECTED_STRING_OR_NULL: u32 = 5;
/// Raw value of `Z_EXPECTED_ARRAY`.
pub const Z_EXPECTED_ARRAY: u32 = 6;
/// Raw value of `Z_EXPECTED_ARRAY_OR_NULL`.
pub const Z_EXPECTED_ARRAY_OR_NULL: u32 = 7;
/// Raw value of `Z_EXPECTED_RESOURCE`.
pub const Z_EXPECTED_RESOURCE: u32 = 14;
/// Raw value of `Z_EXPECTED_RESOURCE_OR_NULL`.
pub const Z_EXPECTED_RESOURCE_OR_NULL: u32 = 15;
/// Raw value of `Z_EXPECTED_OBJECT`.
pub const Z_EXPECTED_OBJECT: u32 = 18;
/// Raw value of `Z_EXPECTED_OBJECT_OR_NULL`.
pub const Z_EXPECTED_OBJECT_OR_NULL: u32 = 19;
/// Raw value of `Z_EXPECTED_DOUBLE`.
pub const Z_EXPECTED_DOUBLE: u32 = 20;
/// Raw value of `Z_EXPECTED_DOUBLE_OR_NULL`.
pub const Z_EXPECTED_DOUBLE_OR_NULL: u32 = 21;

/// The `Z_EXPECTED_*` discriminants that correspond to a single scalar type.
#[derive(Debug, Clone, Copy, PartialEq, Eq)]
#[non_exhaustive]
pub enum ExpectedType {
    /// `int`.
    Long,
    /// `?int`.
    LongOrNull,
    /// `bool`.
    Bool,
    /// `?bool`.
    BoolOrNull,
    /// `string`.
    String,
    /// `?string`.
    StringOrNull,
    /// `array`.
    Array,
    /// `?array`.
    ArrayOrNull,
    /// `object`.
    Object,
    /// `?object`.
    ObjectOrNull,
    /// `float`.
    Double,
    /// `?float`.
    DoubleOrNull,
    /// `resource`.
    Resource,
    /// `?resource`.
    ResourceOrNull,
}

/// The discriminant for a scalar type and nullability, if there is one.
pub open spec fn spec_from_simple(dt: DataType, nullable: bool) -> Option<ExpectedType> {
    match dt {
        DataType::Long => Some(if nullable { ExpectedType::LongOrNull } else { ExpectedType::Long }),
        DataType::Bool | DataType::True | DataType::False => Some(
            if nullable {
                ExpectedType::BoolOrNull
            } else {
                ExpectedType::Bool
            },
        ),
        DataType::String => Some(
            if nullable {
                ExpectedType::StringOrNull
            } else {
                ExpectedType::String
            },
        ),
        DataType::Array => Some(
            if nullable {
                ExpectedType::ArrayOrNull
            } else {
                ExpectedType::Array
            },
        ),
        DataType::Object(_) => Some(
            if nullable {
                ExpectedType::ObjectOrNull
            } else {
                ExpectedType::Object
            },
        ),
        DataType::Double => Some(
            if nullable {
                ExpectedType::DoubleOrNull
            } else {
                ExpectedType::Double
            },
        ),
        DataType::Resource => Some(
            if nullable {
                ExpectedType::ResourceOrNull
            } else {
                ExpectedType::Resource
            },
        ),
        _ => None,
    }
}

/// The raw engine value of a discriminant.
pub open spec fn spec_raw(e: ExpectedType) -> u32 {
    match e {
        ExpectedType::Long => Z_EXPECTED_LONG,
        ExpectedType::LongOrNull => Z_EXPECTED_LONG_OR_NULL,
        ExpectedType::Bool => Z_EXPECTED_BOOL,
        ExpectedType::BoolOrNull => Z_EXPECTED_BOOL_OR_NULL,
        ExpectedType::String => Z_EXPECTED_STRING,
        ExpectedType::StringOrNull => Z_EXPECTED_STRING_OR_NULL,
        ExpectedType::Array => Z_EXPECTED_ARRAY,
        ExpectedType::ArrayOrNull => Z_EXPECTED_ARRAY_OR_NULL,
        ExpectedType::Object => Z_EXPECTED_OBJECT,
        ExpectedType::ObjectOrNull => Z_EXPECTED_OBJECT_OR_NULL,
        ExpectedType::Double => Z_EXPECTED_DOUBLE,
        ExpectedType::DoubleOrNull => Z_EXPECTED_DOUBLE_OR_NULL,
        ExpectedType::Resource => Z_EXPECTED_RESOURCE,
        ExpectedType::ResourceOrNull => Z_EXPECTED_RESOURCE_OR_NULL,
    }
}

/// Whether a discriminant is one of the `..._OR_NULL` forms.
pub open spec fn accepts_null(e: ExpectedType) -> bool {
    match e {
        ExpectedType::LongOrNull | ExpectedType::BoolOrNull | ExpectedType::StringOrNull
        | ExpectedType::ArrayOrNull | ExpectedType::ObjectOrNull | ExpectedType::DoubleOrNull
        | ExpectedType::ResourceOrNull => true,
        _ => false,
    }
}

impl ExpectedType {
    /// Maps a scalar type plus nullability to its discriminant; `None` for the types
    /// that have no `Z_EXPECTED_*` slot (`mixed`, `void`, `iterable`, `callable`,
    /// `null`, ...).
    pub fn from_simple(dt: DataType, nullable: bool) -> (r: Option<ExpectedType>)
        ensures
            r == spec_from_simple(dt, nullable),
    {
        match dt {
            DataType::Long => Some(
                if nullable {
                    ExpectedType::LongOrNull
                } else {
                    ExpectedType::Long
                },
            ),
            DataType::Bool | DataType::True | DataType::False => Some(
                if nullable {
                    ExpectedType::BoolOrNull
                } else {
                    ExpectedType::Bool
                },
            ),
            DataType::String => Some(
                if nullable {
                    ExpectedType::StringOrNull
                } else {
                    ExpectedType::String
                },
            ),
            DataType::Array => Some(
                if nullable {
                    ExpectedType::ArrayOrNull
                } else {
                    ExpectedType::Array
                },
            ),
            DataType::Object(_) => Some(
                if nullable {
                    ExpectedType::ObjectOrNull
                } else {
                    ExpectedType::Object
                },
            ),
            DataType::Double => Some(
                if nullable {
                    ExpectedType::DoubleOrNull
                } else {
                    ExpectedType::Double
                },
            ),
            DataType::Resource => Some(
                if nullable {
                    ExpectedType::ResourceOrNull
                } else {
                    ExpectedType::Resource
                },
            ),
            _ => None,
        }
    }

    /// The raw engine value of this discriminant.
    pub fn into_raw(self) -> (r: u32)
        ensures
            r == spec_raw(self),
    {
        match self {
            ExpectedType::Long => Z_EXPECTED_LONG,
            ExpectedType::LongOrNull => Z_EXPECTED_LONG_OR_NULL,
            ExpectedType::Bool => Z_EXPECTED_BOOL,
            ExpectedType::BoolOrNull => Z_EXPECTED_BOOL_OR_NULL,
            ExpectedType::String => Z_EXPECTED_STRING,
            ExpectedType::StringOrNull => Z_EXPECTED_STRING_OR_NULL,
            ExpectedType::Array => Z_EXPECTED_ARRAY,
            ExpectedType::ArrayOrNull => Z_EXPECTED_ARRAY_OR_NULL,
            ExpectedType::Object => Z_EXPECTED_OBJECT,
            ExpectedType::ObjectOrNull => Z_EXPECTED_OBJECT_OR_NULL,
            ExpectedType::Double => Z_EXPECTED_DOUBLE,
            ExpectedType::DoubleOrNull => Z_EXPECTED_DOUBLE_OR_NULL,
            ExpectedType::Resource => Z_EXPECTED_RESOURCE,
            ExpectedType::ResourceOrNull => Z_EXPECTED_RESOURCE_OR_NULL,
        }
    }
}

/// Nullability is carried into the discriminant: a mapped type yields an
/// `..._OR_NULL` form exactly when null is allowed, and the nullable and
/// non-nullable lookups succeed for the same types.
pub proof fn law_from_simple_nullability(dt: DataType)
    ensures
        spec_from_simple(dt, true) is Some <==> spec_from_simple(dt, false) is Some,
        spec_from_simple(dt, true) matches Some(e) ==> accepts_null(e),
        spec_from_simple(dt, false) matches Some(e) ==> !accepts_null(e),
{
}

/// Distinct discriminants have distinct raw values.
pub proof fn law_raw_injective(a: ExpectedType, b: ExpectedType)
    ensures
        spec_raw(a) == spec_raw(b) ==> a == b,
{
}

} // verus!
