//! Builders for functions and enums.
pub mod enum_builder;
pub mod function;
