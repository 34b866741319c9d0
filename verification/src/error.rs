//! Errors returned by the library, with their messages.
use vstd::prelude::*;

use crate::flags::{DataType, data_type_name};
use crate::text::{dec, append_decimal};

verus! {

/// The errors the library reports.
#[derive(Debug)]
#[non_exhaustive]
pub enum Error {
    /// A function got the wrong number of arguments: (received, minimum expected).
    IncorrectArguments(usize, usize),
    /// A value of the given type could not be converted.
    ZvalConversion(DataType),
    /// The engine reported a function type this library does not model.
    UnknownFunctionType(u8),
    /// A class-bound operation was called outside of a class.
    InvalidScope,
    /// A pointer was null or invalid.
    InvalidPointer,
    /// The named property does not exist.
    InvalidProperty {
        /// Name of the property that was looked up.
        property: String,
    },
    /// The enum has no case with the given name or discriminant.
    InvalidEnumCase {
        /// Name or discriminant that was looked up.
        case: String,
    },
    /// A string holds a NUL byte at the given position.
    InvalidCString {
        /// Byte offset of the first NUL.
        position: usize,
    },
    /// A byte sequence is not valid UTF-8.
    InvalidUtf8,
    /// The value could not be called.
    Callable,
    /// An object was expected.
    Object,
    /// The named class has no `__toString()`.
    NotStringable(String),
    /// An integer conversion overflowed.
    IntegerOverflow,
    /// A PHP exception of the named class is pending.
    ExceptionPending {
        /// Class name of the pending exception.
        class: String,
    },
    /// Registering a stream wrapper failed.
    StreamWrapperRegistrationFailure,
    /// Unregistering a stream wrapper failed.
    StreamWrapperUnregistrationFailure,
    /// The SAPI has no write function.
    SapiWriteUnavailable,
    /// An object could not be made lazy.
    LazyObjectFailed,
    /// The engine failed to load the named auto-global.
    AutoGlobalLoadFailed(&'static str),
    /// The declared type has no legacy `Z_EXPECTED_*` discriminant.
    NoExpectedTypeDiscriminant,
}

/// The message of an error.
pub open spec fn error_message(e: Error) -> Seq<char> {
    match e {
        Error::IncorrectArguments(got, min) => "expected at least "@ + dec(min as nat)
            + " arguments, got "@ + dec(got as nat) + " arguments"@,
        Error::ZvalConversion(dt) => "could not convert value of type "@ + data_type_name(dt),
        Error::UnknownFunctionType(t) => "unknown function type "@ + dec(t as nat),
        Error::InvalidScope => "invalid scope"@,
        Error::InvalidPointer => "invalid pointer"@,
        Error::InvalidProperty { property } => "property `"@ + property@
            + "` does not exist on the object"@,
        Error::InvalidEnumCase { case } => "enum has no case matching `"@ + case@ + "`"@,
        Error::InvalidCString { position } => "string contains a NUL byte at position "@ + dec(
            position as nat,
        ),
        Error::InvalidUtf8 => "invalid UTF-8 byte sequence"@,
        Error::Callable => "could not call the given function"@,
        Error::Object => "an object was expected"@,
        Error::NotStringable(class) => class@ + " does not implement __toString()"@,
        Error::IntegerOverflow => "converting integer arguments resulted in an overflow"@,
        Error::ExceptionPending { class } => "a PHP exception of class "@ + class@ + " is pending"@,
        Error::StreamWrapperRegistrationFailure => "a failure occurred while registering the stream wrapper"@,
        Error::StreamWrapperUnregistrationFailure => "a failure occurred while unregistering the stream wrapper"@,
        Error::SapiWriteUnavailable => "the SAPI write function is not available"@,
        Error::LazyObjectFailed => "failed to make the object lazy"@,
        Error::AutoGlobalLoadFailed(name) => "the engine failed to load the `"@ + name@
            + "` auto-global"@,
        Error::NoExpectedTypeDiscriminant => "the declared type has no Z_EXPECTED_* discriminant"@,
    }
}

impl Error {
    /// The human-readable message of this error.
    pub fn message(&self) -> (r: String)
        ensures
            r@ == error_message(*self),
    {
        let mut s = String::new();
        match self {
            Error::IncorrectArguments(got, min) => {
                s.append("expected at least ");
                append_decimal(&mut s, *min as u64);
                s.append(" arguments, got ");
                append_decimal(&mut s, *got as u64);
                s.append(" arguments");
            },
            Error::ZvalConversion(dt) => {
                s.append("could not convert value of type ");
                s.append(dt.name());
            },
            Error::UnknownFunctionType(t) => {
                s.append("unknown function type ");
                append_decimal(&mut s, *t as u64);
            },
            Error::InvalidScope => s.append("invalid scope"),
            Error::InvalidPointer => s.append("invalid pointer"),
            Error::InvalidProperty { property } => {
                s.append("property `");
                s.append(property.as_str());
                s.append("` does not exist on the object");
            },
            Error::InvalidEnumCase { case } => {
                s.append("enum has no case matching `");
                s.append(case.as_str());
                s.append("`");
            },
            Error::InvalidCString { position } => {
                s.append("string contains a NUL byte at position ");
                append_decimal(&mut s, *position as u64);
            },
            Error::InvalidUtf8 => s.append("invalid UTF-8 byte sequence"),
            Error::Callable => s.append("could not call the given function"),
            Error::Object => s.append("an object was expected"),
            Error::NotStringable(class) => {
                s.append(class.as_str());
                s.append(" does not implement __toString()");
            },
            Error::IntegerOverflow => s.append("converting integer arguments resulted in an overflow"),
            Error::ExceptionPending { class } => {
                s.append("a PHP exception of class ");
                s.append(class.as_str());
                s.append(" is pending");
            },
            Error::StreamWrapperRegistrationFailure => s.append(
                "a failure occurred while registering the stream wrapper",
            ),
            Error::StreamWrapperUnregistrationFailure => s.append(
                "a failure occurred while unregistering the stream wrapper",
            ),
            Error::SapiWriteUnavailable => s.append("the SAPI write function is not available"),
            Error::LazyObjectFailed => s.append("failed to make the object lazy"),
            Error::AutoGlobalLoadFailed(name) => {
                s.append("the engine failed to load the `");
                s.append(name);
                s.append("` auto-global");
            },
            Error::NoExpectedTypeDiscriminant => s.append(
                "the declared type has no Z_EXPECTED_* discriminant",
            ),
        }
        assert(s@ =~= error_message(*self));
        s
    }
}

} // verus!
