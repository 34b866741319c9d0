//! The outcome of the worker-mode request lifecycle.
use vstd::prelude::*;

verus! {

/// The engine's success code (`SUCCESS`).
pub const ZEND_RESULT_CODE_SUCCESS: i32 = 0;

/// Errors of the worker request lifecycle.
#[derive(Debug, Clone, Copy, PartialEq, Eq)]
#[non_exhaustive]
pub enum WorkerError {
    /// The lightweight request startup did not return `SUCCESS`.
    StartupFailed,
}

impl WorkerError {
    /// The error's message.
    pub fn message(&self) -> (r: String)
        ensures
            r@ == "Worker request startup failed"@,
    {
        String::from_str("Worker request startup failed")
    }
}

/// What the lightweight request startup reports for the engine's result
/// `code`: success only for `SUCCESS`.
pub fn startup_result(code: i32) -> (r: Result<(), WorkerError>)
    ensures
        r is Ok <==> code == ZEND_RESULT_CODE_SUCCESS,
        r matches Err(e) ==> e == WorkerError::StartupFailed,
{
    if code == ZEND_RESULT_CODE_SUCCESS {
        Ok(())
    } else {
        Err(WorkerError::StartupFailed)
    }
}

} // verus!
