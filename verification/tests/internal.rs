use ext_php_rs::embed::worker::ZEND_RESULT_CODE_SUCCESS;
use ext_php_rs::error::Error;
use ext_php_rs::internal::{failed_module_startup, startup_guard, ZEND_RESULT_CODE_FAILURE};

#[test]
fn startup_guard_maps_success_to_zero() {
    let (code, warning) = startup_guard(Ok(Ok(())));
    assert_eq!(code, ZEND_RESULT_CODE_SUCCESS);
    assert_eq!(warning, None);
}

#[test]
fn startup_guard_maps_an_error_to_failure() {
    let (code, warning) = startup_guard(Ok(Err(Error::InvalidScope)));
    assert_eq!(code, ZEND_RESULT_CODE_FAILURE);
    assert_eq!(warning.as_deref(), Some("module startup failed: invalid scope"));
}

#[test]
fn startup_guard_maps_a_panic_to_failure() {
    let (code, warning) = startup_guard(Err("registration exploded".to_string()));
    assert_eq!(code, ZEND_RESULT_CODE_FAILURE);
    assert_eq!(warning.as_deref(), Some("module startup panicked: registration exploded"));
}

#[test]
fn a_module_that_could_not_be_built_fails_startup() {
    let (code, warning) = failed_module_startup("bad class");
    assert_eq!(code, -1);
    assert_eq!(warning, "module could not be built: bad class");
}
