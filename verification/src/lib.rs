//! Verified core of a PHP extension toolkit.
pub mod flags;
pub mod text;
pub mod types;
pub mod std_specs;
pub mod zend;
pub mod error;
pub mod convert;
pub mod args;
pub mod builders;
pub mod enum_;
pub mod php_eval;
pub mod embed;
pub mod describe;
pub mod internal;
