//! The messages a parse exchanges, as plain values.

pub mod document;
pub mod v1;
