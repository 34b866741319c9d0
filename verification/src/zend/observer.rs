//! What observers of function calls and exceptions are told.
use vstd::prelude::*;

use crate::types::zval::Zval;

verus! {

/// What an observer learns of a function being called.
#[derive(Debug, Clone)]
pub struct FcallInfo<'a> {
    /// The function name; `None` for anonymous functions and the main script.
    pub function_name: Option<&'a str>,
    /// The class name of a method call.
    pub class_name: Option<&'a str>,
    /// The source file; `None` for internal functions.
    pub filename: Option<&'a str>,
    /// The line number; 0 for internal functions.
    pub lineno: u32,
    /// Whether the function is built into PHP.
    pub is_internal: bool,
}

impl<'a> FcallInfo<'a> {
    /// Information that names nothing: no function, class or file, line 0,
    /// not internal.
    pub fn empty() -> (r: Self)
        ensures
            r.function_name is None,
            r.class_name is None,
            r.filename is None,
            r.lineno == 0,
            !r.is_internal,
    {
        FcallInfo { function_name: None, class_name: None, filename: None, lineno: 0, is_internal: false }
    }
}

/// A call frame of the engine, named by its handle.
#[derive(Debug, Clone, Copy, PartialEq, Eq)]
pub struct ExecuteData {
    /// The frame's handle.
    pub frame: u64,
}

/// Code told of PHP function calls: asked once per function whether it wants
/// to observe it, then told when each observed call begins and ends.
pub trait FcallObserver {
    /// Whether calls of the function described by `info` are to be observed.
    fn should_observe(&self, info: &FcallInfo) -> bool;

    /// Called when an observed call begins.
    fn begin(&self, execute_data: &ExecuteData);

    /// Called when an observed call ends, exceptions included.
    fn end(&self, execute_data: &ExecuteData, retval: Option<&Zval>);
}

/// What an observer learns of a thrown exception.
#[derive(Debug)]
pub struct ExceptionInfo {
    /// The class name, e.g. `RuntimeException`.
    pub class_name: String,
    /// The message.
    pub message: Option<String>,
    /// The code.
    pub code: i64,
    /// The file it was thrown in.
    pub file: Option<String>,
    /// The line it was thrown at.
    pub line: u32,
}

/// Code told of every exception PHP throws.
pub trait ExceptionObserver {
    /// Called with each thrown exception.
    fn on_exception(&self, exception: &ExceptionInfo);
}

} // verus!
