//! PHP value types.
pub mod array;
pub mod callable_channel;
pub mod coerce;
pub mod float_text;
pub mod object;
pub mod php_type;
pub mod index_set;
pub mod zval;
