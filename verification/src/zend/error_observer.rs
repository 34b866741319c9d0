//! What observers of PHP errors are told, and how an error reaches them.
use vstd::prelude::*;

verus! {

/// PHP error severities (the `E_*` constants) as a set of bits.
#[derive(Debug, Clone, Copy, PartialEq, Eq, Structural, Hash)]
pub struct ErrorType {
    bits: i32,
}

/// Every bit that names a severity, `E_ERROR` (bit 0) through
/// `E_USER_DEPRECATED` (bit 14), `E_STRICT` included.
pub const KNOWN_ERROR_BITS: i32 = 0x7FFF;

impl ErrorType {
    /// Fatal run-time errors (`E_ERROR`).
    #[allow(non_snake_case)]
    pub fn ERROR() -> (r: ErrorType)
        ensures
            r.bits() == 0x1,
    {
        ErrorType { bits: 0x1 }
    }

    /// Run-time warnings (`E_WARNING`).
    #[allow(non_snake_case)]
    pub fn WARNING() -> (r: ErrorType)
        ensures
            r.bits() == 0x2,
    {
        ErrorType { bits: 0x2 }
    }

    /// Compile-time parse errors (`E_PARSE`).
    #[allow(non_snake_case)]
    pub fn PARSE() -> (r: ErrorType)
        ensures
            r.bits() == 0x4,
    {
        ErrorType { bits: 0x4 }
    }

    /// Run-time notices (`E_NOTICE`).
    #[allow(non_snake_case)]
    pub fn NOTICE() -> (r: ErrorType)
        ensures
            r.bits() == 0x8,
    {
        ErrorType { bits: 0x8 }
    }

    /// Fatal errors during PHP startup (`E_CORE_ERROR`).
    #[allow(non_snake_case)]
    pub fn CORE_ERROR() -> (r: ErrorType)
        ensures
            r.bits() == 0x10,
    {
        ErrorType { bits: 0x10 }
    }

    /// Warnings during PHP startup (`E_CORE_WARNING`).
    #[allow(non_snake_case)]
    pub fn CORE_WARNING() -> (r: ErrorType)
        ensures
            r.bits() == 0x20,
    {
        ErrorType { bits: 0x20 }
    }

    /// Fatal compile-time errors (`E_COMPILE_ERROR`).
    #[allow(non_snake_case)]
    pub fn COMPILE_ERROR() -> (r: ErrorType)
        ensures
            r.bits() == 0x40,
    {
        ErrorType { bits: 0x40 }
    }

    /// Compile-time warnings (`E_COMPILE_WARNING`).
    #[allow(non_snake_case)]
    pub fn COMPILE_WARNING() -> (r: ErrorType)
        ensures
            r.bits() == 0x80,
    {
        ErrorType { bits: 0x80 }
    }

    /// User-generated error (`E_USER_ERROR`).
    #[allow(non_snake_case)]
    pub fn USER_ERROR() -> (r: ErrorType)
        ensures
            r.bits() == 0x100,
    {
        ErrorType { bits: 0x100 }
    }

    /// User-generated warning (`E_USER_WARNING`).
    #[allow(non_snake_case)]
    pub fn USER_WARNING() -> (r: ErrorType)
        ensures
            r.bits() == 0x200,
    {
        ErrorType { bits: 0x200 }
    }

    /// User-generated notice (`E_USER_NOTICE`).
    #[allow(non_snake_case)]
    pub fn USER_NOTICE() -> (r: ErrorType)
        ensures
            r.bits() == 0x400,
    {
        ErrorType { bits: 0x400 }
    }

    /// Strict standards suggestions (`E_STRICT`, gone in PHP 8.4).
    #[allow(non_snake_case)]
    pub fn STRICT() -> (r: ErrorType)
        ensures
            r.bits() == 0x800,
    {
        ErrorType { bits: 0x800 }
    }

    /// Catchable fatal error (`E_RECOVERABLE_ERROR`).
    #[allow(non_snake_case)]
    pub fn RECOVERABLE_ERROR() -> (r: ErrorType)
        ensures
            r.bits() == 0x1000,
    {
        ErrorType { bits: 0x1000 }
    }

    /// Run-time deprecation notices (`E_DEPRECATED`).
    #[allow(non_snake_case)]
    pub fn DEPRECATED() -> (r: ErrorType)
        ensures
            r.bits() == 0x2000,
    {
        ErrorType { bits: 0x2000 }
    }

    /// User-generated deprecation (`E_USER_DEPRECATED`).
    #[allow(non_snake_case)]
    pub fn USER_DEPRECATED() -> (r: ErrorType)
        ensures
            r.bits() == 0x4000,
    {
        ErrorType { bits: 0x4000 }
    }

    /// All error types (`E_ALL`): every severity but `E_STRICT`.
    #[allow(non_snake_case)]
    pub fn ALL() -> (r: ErrorType)
        ensures
            r.bits() == 0x77FF,
    {
        ErrorType { bits: 0x77FF }
    }

    /// Core errors and warnings.
    #[allow(non_snake_case)]
    pub fn CORE() -> (r: ErrorType)
        ensures
            r.bits() == 0x30,
    {
        ErrorType { bits: 0x30 }
    }

    /// All fatal error types (`E_FATAL_ERRORS`): `E_ERROR`, `E_CORE_ERROR`,
    /// `E_COMPILE_ERROR`, `E_USER_ERROR`, `E_RECOVERABLE_ERROR`, `E_PARSE`.
    #[allow(non_snake_case)]
    pub fn FATAL() -> (r: ErrorType)
        ensures
            r.bits() == 0x1155,
    {
        ErrorType { bits: 0x1155 }
    }

    /// The bits of the set.
    pub closed spec fn spec_bits(&self) -> i32 {
        self.bits
    }

    /// The bits of the set.
    #[verifier::when_used_as_spec(spec_bits)]
    pub fn bits(&self) -> (r: i32)
        ensures
            r == self.spec_bits(),
    {
        self.bits
    }

    /// The set named by `bits`, with every bit that names no severity dropped.
    pub fn from_bits_truncate(bits: i32) -> (r: ErrorType)
        ensures
            r.bits() == bits & KNOWN_ERROR_BITS,
    {
        ErrorType { bits: bits & KNOWN_ERROR_BITS }
    }

    /// Whether every severity of `other` is in the set.
    pub fn contains(&self, other: ErrorType) -> (r: bool)
        ensures
            r == (self.bits() & other.bits() == other.bits()),
    {
        self.bits & other.bits == other.bits
    }

    /// Whether the two sets share a severity.
    pub fn intersects(&self, other: ErrorType) -> (r: bool)
        ensures
            r == (self.bits() & other.bits() != 0),
    {
        self.bits & other.bits != 0
    }

    /// Whether the set holds no severity.
    pub fn is_empty(&self) -> (r: bool)
        ensures
            r == (self.bits() == 0),
    {
        self.bits == 0
    }

    /// The severities of either set.
    pub fn union(self, other: ErrorType) -> (r: ErrorType)
        ensures
            r.bits() == self.bits() | other.bits(),
    {
        ErrorType { bits: self.bits | other.bits }
    }
}

impl core::ops::BitOr for ErrorType {
    type Output = ErrorType;

    fn bitor(self, rhs: ErrorType) -> (r: ErrorType)
        ensures
            r.bits() == self.bits() | rhs.bits(),
    {
        self.union(rhs)
    }
}

impl vstd::std_specs::ops::BitOrSpecImpl for ErrorType {
    open spec fn obeys_bitor_spec() -> bool {
        true
    }

    open spec fn bitor_req(self, rhs: ErrorType) -> bool {
        true
    }

    closed spec fn bitor_spec(self, rhs: ErrorType) -> ErrorType {
        ErrorType { bits: self.bits() | rhs.bits() }
    }
}

/// A single frame of a PHP backtrace.
#[derive(Debug, Clone)]
pub struct BacktraceFrame {
    /// The function name (`None` for the main script).
    pub function: Option<String>,
    /// The class name of a method call.
    pub class: Option<String>,
    /// The source file.
    pub file: Option<String>,
    /// The line number.
    pub line: u32,
}

/// What an observer learns of a PHP error.
#[derive(Debug)]
pub struct ErrorInfo<'a> {
    /// The severity.
    pub error_type: ErrorType,
    /// The source file the error was raised in.
    pub filename: Option<&'a str>,
    /// The line the error was raised at.
    pub lineno: u32,
    /// The message.
    pub message: &'a str,
}

/// Code told of PHP errors: first asked whether it wants an error of a given
/// severity, then told of it.
pub trait ErrorObserver {
    /// Whether errors of `error_type` are to be passed to [`Self::on_error`].
    fn should_observe(&self, error_type: ErrorType) -> bool;

    /// Called with each error that [`Self::should_observe`] asked for.
    fn on_error(&self, error: &ErrorInfo);
}

/// What an observer is told of an error the engine raised: its raw severity
/// truncated to the known bits, and an empty message where the engine gave
/// none.
pub fn error_info<'a>(
    raw_error_type: i32,
    filename: Option<&'a str>,
    lineno: u32,
    message: Option<&'a str>,
) -> (r: ErrorInfo<'a>)
    ensures
        r.error_type.bits() == raw_error_type & KNOWN_ERROR_BITS,
        r.filename == filename,
        r.lineno == lineno,
        r.message@ == (match message {
            Some(m) => m@,
            None => Seq::<char>::empty(),
        }),
{
    let message_str: &str = match message {
        Some(m) => m,
        None => "",
    };
    proof {
        reveal_strlit("");
    }
    ErrorInfo { error_type: ErrorType::from_bits_truncate(raw_error_type), filename, lineno, message: message_str }
}

/// Hands an error the engine raised to `observer` (as [`error_info`] puts
/// it), telling it of the error only when it asks for that severity. Returns
/// whether it was told: `r` is what the observer's `should_observe` answered
/// for the truncated severity, and when it is `true`, `on_error` was called
/// with the error as [`error_info`] puts it.
pub fn dispatch_error<O: ErrorObserver>(
    observer: &O,
    raw_error_type: i32,
    filename: Option<&str>,
    lineno: u32,
    message: Option<&str>,
) -> (r: bool)
    ensures
        exists|t: ErrorType|
            t.bits() == raw_error_type & KNOWN_ERROR_BITS && #[trigger] call_ensures(
                O::should_observe,
                (observer, t),
                r,
            ),
        r ==> exists|info: ErrorInfo|
            {
                &&& info.error_type.bits() == raw_error_type & KNOWN_ERROR_BITS
                &&& info.filename == filename
                &&& info.lineno == lineno
                &&& info.message@ == (match message {
                    Some(m) => m@,
                    None => Seq::<char>::empty(),
                })
                &&& #[trigger] call_ensures(O::on_error, (observer, &info), ())
            },
{
    let info = error_info(raw_error_type, filename, lineno, message);
    let should_observe = O::should_observe;
    let wanted = should_observe(observer, info.error_type);
    if !wanted {
        return false;
    }
    let on_error = O::on_error;
    on_error(observer, &info);
    true
}

} // verus!
