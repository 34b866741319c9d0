//! What the embedding SAPI layer decides on its own.
pub mod context;
pub mod sapi_headers;
pub mod worker;
