//! PHP value types and the numeric codes the engine uses for them.
use vstd::prelude::*;

verus! {

/// `IS_UNDEF` type code.
pub const IS_UNDEF: u32 = 0;
/// `IS_NULL` type code.
pub const IS_NULL: u32 = 1;
/// `IS_FALSE` type code.
pub const IS_FALSE: u32 = 2;
/// `IS_TRUE` type code.
pub const IS_TRUE: u32 = 3;
/// `IS_LONG` type code.
pub const IS_LONG: u32 = 4;
/// `IS_DOUBLE` type code.
pub const IS_DOUBLE: u32 = 5;
/// `IS_STRING` type code.
pub const IS_STRING: u32 = 6;
/// `IS_ARRAY` type code.
pub const IS_ARRAY: u32 = 7;
/// `IS_OBJECT` type code.
pub const IS_OBJECT: u32 = 8;
/// `IS_RESOURCE` type code.
pub const IS_RESOURCE: u32 = 9;
/// `IS_REFERENCE` type code.
pub const IS_REFERENCE: u32 = 10;
/// `IS_CONSTANT_AST` type code.
pub const IS_CONSTANT_AST: u32 = 11;
/// `IS_INDIRECT` type code (internal zval kind).
pub const IS_INDIRECT: u32 = 12;
/// `IS_PTR` type code (internal zval kind).
pub const IS_PTR: u32 = 13;
/// `IS_CALLABLE` pseudo type code (only used in type declarations).
pub const IS_CALLABLE: u32 = 12;
/// `IS_ITERABLE` pseudo type code (only used in type declarations).
pub const IS_ITERABLE: u32 = 13;
/// `IS_VOID` pseudo type code.
pub const IS_VOID: u32 = 14;
/// `IS_MIXED` pseudo type code.
pub const IS_MIXED: u32 = 16;
/// `_IS_BOOL` pseudo type code.
pub const IS_BOOL: u32 = 18;

/// `MAY_BE_NULL` bit.
pub const MAY_BE_NULL: u32 = 2;
/// `MAY_BE_BOOL` mask (`MAY_BE_FALSE | MAY_BE_TRUE`).
pub const MAY_BE_BOOL: u32 = 12;
/// `MAY_BE_ANY` mask: every value type from `null` to `resource`.
pub const MAY_BE_ANY: u32 = 1022;

/// The type of a PHP value, as used in type declarations and in zvals.
#[derive(Debug, Clone, Copy, PartialEq, Eq)]
pub enum DataType {
    /// Undefined value.
    Undef,
    /// `null`.
    Null,
    /// `false`.
    False,
    /// `true`.
    True,
    /// `int`.
    Long,
    /// `float`.
    Double,
    /// `string`.
    String,
    /// `array`.
    Array,
    /// `iterable`.
    Iterable,
    /// `object`, optionally of a named class.
    Object(Option<&'static str>),
    /// `resource`.
    Resource,
    /// A PHP reference.
    Reference,
    /// `callable`.
    Callable,
    /// A constant expression.
    ConstantExpression,
    /// `void`.
    Void,
    /// `mixed`.
    Mixed,
    /// `bool`.
    Bool,
    /// An internal pointer.
    Ptr,
    /// An internal indirect value.
    Indirect,
}

/// The engine's numeric code for a data type.
pub open spec fn type_code(dt: DataType) -> u32 {
    match dt {
        DataType::Undef => IS_UNDEF,
        DataType::Null => IS_NULL,
        DataType::False => IS_FALSE,
        DataType::True => IS_TRUE,
        DataType::Long => IS_LONG,
        DataType::Double => IS_DOUBLE,
        DataType::String => IS_STRING,
        DataType::Array => IS_ARRAY,
        DataType::Iterable => IS_ITERABLE,
        DataType::Object(_) => IS_OBJECT,
        DataType::Resource => IS_RESOURCE,
        DataType::Reference => IS_REFERENCE,
        DataType::Callable => IS_CALLABLE,
        DataType::ConstantExpression => IS_CONSTANT_AST,
        DataType::Void => IS_VOID,
        DataType::Mixed => IS_MIXED,
        DataType::Bool => IS_BOOL,
        DataType::Ptr => IS_PTR,
        DataType::Indirect => IS_INDIRECT,
    }
}

/// The human-readable name of a data type, as used in error messages.
pub open spec fn data_type_name(dt: DataType) -> Seq<char> {
    match dt {
        DataType::Undef => "Undefined"@,
        DataType::Null => "Null"@,
        DataType::False => "False"@,
        DataType::True => "True"@,
        DataType::Long => "Long"@,
        DataType::Double => "Double"@,
        DataType::String => "String"@,
        DataType::Array => "Array"@,
        DataType::Iterable => "Iterable"@,
        DataType::Object(Some(name)) => name@,
        DataType::Object(None) => "Object"@,
        DataType::Resource => "Resource"@,
        DataType::Reference => "Reference"@,
        DataType::Callable => "Callable"@,
        DataType::ConstantExpression => "Constant Expression"@,
        DataType::Void => "Void"@,
        DataType::Mixed => "Mixed"@,
        DataType::Bool => "Bool"@,
        DataType::Ptr => "Pointer"@,
        DataType::Indirect => "Indirect"@,
    }
}

/// Whether two data types are the same type (class names compared by content).
pub open spec fn same_type(a: DataType, b: DataType) -> bool {
    match (a, b) {
        (DataType::Object(Some(x)), DataType::Object(Some(y))) => x@ == y@,
        (DataType::Object(Some(_)), _) => false,
        (_, DataType::Object(Some(_))) => false,
        (DataType::Object(None), DataType::Object(None)) => true,
        _ => a == b,
    }
}

/// Compares two string slices character by character.
pub fn str_eq(a: &str, b: &str) -> (r: bool)
    ensures
        r == (a@ == b@),
{
    let la = a.unicode_len();
    let lb = b.unicode_len();
    if la != lb {
        return false;
    }
    let mut i: usize = 0;
    while i < la
        invariant
            la == a@.len(),
            lb == b@.len(),
            la == lb,
            i <= la,
            forall|j: int| 0 <= j < i ==> a@[j] == b@[j],
        decreases la - i,
    {
        if a.get_char(i) != b.get_char(i) {
            return false;
        }
        i = i + 1;
    }
    assert(a@ =~= b@);
    true
}

impl DataType {
    /// Returns the engine's numeric code for this type.
    pub fn as_u32(&self) -> (r: u32)
        ensures
            r == type_code(*self),
    {
        match self {
            DataType::Undef => IS_UNDEF,
            DataType::Null => IS_NULL,
            DataType::False => IS_FALSE,
            DataType::True => IS_TRUE,
            DataType::Long => IS_LONG,
            DataType::Double => IS_DOUBLE,
            DataType::String => IS_STRING,
            DataType::Array => IS_ARRAY,
            DataType::Iterable => IS_ITERABLE,
            DataType::Object(_) => IS_OBJECT,
            DataType::Resource => IS_RESOURCE,
            DataType::Reference => IS_REFERENCE,
            DataType::Callable => IS_CALLABLE,
            DataType::ConstantExpression => IS_CONSTANT_AST,
            DataType::Void => IS_VOID,
            DataType::Mixed => IS_MIXED,
            DataType::Bool => IS_BOOL,
            DataType::Ptr => IS_PTR,
            DataType::Indirect => IS_INDIRECT,
        }
    }

    /// Returns the human-readable name of this type.
    pub fn name(&self) -> (r: &'static str)
        ensures
            r@ == data_type_name(*self),
    {
        match self {
            DataType::Undef => "Undefined",
            DataType::Null => "Null",
            DataType::False => "False",
            DataType::True => "True",
            DataType::Long => "Long",
            DataType::Double => "Double",
            DataType::String => "String",
            DataType::Array => "Array",
            DataType::Iterable => "Iterable",
            DataType::Object(Some(name)) => name,
            DataType::Object(None) => "Object",
            DataType::Resource => "Resource",
            DataType::Reference => "Reference",
            DataType::Callable => "Callable",
            DataType::ConstantExpression => "Constant Expression",
            DataType::Void => "Void",
            DataType::Mixed => "Mixed",
            DataType::Bool => "Bool",
            DataType::Ptr => "Pointer",
            DataType::Indirect => "Indirect",
        }
    }

    /// Whether `self` and `other` denote the same type.
    pub fn same_as(&self, other: &DataType) -> (r: bool)
        ensures
            r == same_type(*self, *other),
    {
        match (self, other) {
            (DataType::Object(Some(x)), DataType::Object(Some(y))) => str_eq(x, y),
            (DataType::Object(Some(_)), _) => false,
            (_, DataType::Object(Some(_))) => false,
            (DataType::Object(None), DataType::Object(None)) => true,
            (DataType::Undef, DataType::Undef) => true,
            (DataType::Null, DataType::Null) => true,
            (DataType::False, DataType::False) => true,
            (DataType::True, DataType::True) => true,
            (DataType::Long, DataType::Long) => true,
            (DataType::Double, DataType::Double) => true,
            (DataType::String, DataType::String) => true,
            (DataType::Array, DataType::Array) => true,
            (DataType::Iterable, DataType::Iterable) => true,
            (DataType::Resource, DataType::Resource) => true,
            (DataType::Reference, DataType::Reference) => true,
            (DataType::Callable, DataType::Callable) => true,
            (DataType::ConstantExpression, DataType::ConstantExpression) => true,
            (DataType::Void, DataType::Void) => true,
            (DataType::Mixed, DataType::Mixed) => true,
            (DataType::Bool, DataType::Bool) => true,
            (DataType::Ptr, DataType::Ptr) => true,
            (DataType::Indirect, DataType::Indirect) => true,
            _ => false,
        }
    }
}

} // verus!
