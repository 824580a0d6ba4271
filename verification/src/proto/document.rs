//! The document a parse can be folded into.

pub mod v1;
