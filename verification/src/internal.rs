//! How module startup reports its outcome to the engine.
use vstd::prelude::*;

use crate::embed::worker::ZEND_RESULT_CODE_SUCCESS;
use crate::error::{error_message, Error};

verus! {

/// The engine's failure code (`FAILURE`).
pub const ZEND_RESULT_CODE_FAILURE: i32 = -1;

/// What the registration part of a module's startup came to: it returned
/// (`Ok`, with its own result) or it panicked (`Err`, with the panic's text).
pub type StartupOutcome = Result<Result<(), Error>, String>;

/// The warning that a failed startup logs, if any.
pub open spec fn startup_warning(outcome: StartupOutcome) -> Option<Seq<char>> {
    match outcome {
        Ok(Ok(())) => None,
        Ok(Err(e)) => Some("module startup failed: "@ + error_message(e)),
        Err(panic) => Some("module startup panicked: "@ + panic@),
    }
}

/// Maps the outcome of a module's registration to the code the engine expects
/// and the warning to log: `SUCCESS` and nothing when it returned `Ok`,
/// `FAILURE` and a warning naming the cause when it returned an error or
/// panicked.
pub fn startup_guard(outcome: StartupOutcome) -> (r: (i32, Option<String>))
    ensures
        r.0 == (if outcome matches Ok(Ok(())) {
            ZEND_RESULT_CODE_SUCCESS
        } else {
            ZEND_RESULT_CODE_FAILURE
        }),
        (match r.1 {
            Some(w) => Some(w@),
            None => None,
        }) == startup_warning(outcome),
{
    match outcome {
        Ok(Ok(())) => (ZEND_RESULT_CODE_SUCCESS, None),
        Ok(Err(e)) => {
            let mut w = String::from_str("module startup failed: ");
            let m = e.message();
            w.append(m.as_str());
            (ZEND_RESULT_CODE_FAILURE, Some(w))
        },
        Err(panic) => {
            let mut w = String::from_str("module startup panicked: ");
            w.append(panic.as_str());
            (ZEND_RESULT_CODE_FAILURE, Some(w))
        },
    }
}

/// What the placeholder module that stands in for one that could not be
/// built does at startup: it fails, logging a warning that names `reason`.
pub fn failed_module_startup(reason: &str) -> (r: (i32, String))
    ensures
        r.0 == ZEND_RESULT_CODE_FAILURE,
        r.1@ == "module could not be built: "@ + reason@,
{
    let mut w = String::from_str("module could not be built: ");
    w.append(reason);
    (ZEND_RESULT_CODE_FAILURE, w)
}

} // verus!
