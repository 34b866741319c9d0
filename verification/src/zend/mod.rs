//! Engine-facing types: argument types, expected types, observers, cleanups.
pub mod cleanup;
pub mod error_observer;
pub mod expected_type;
pub mod handlers;
pub mod module_globals;
pub mod observer;
pub mod zend_extension;
pub mod zend_type;
