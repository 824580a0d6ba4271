//! What one message of the request stream carries.

use vstd::prelude::*;
use crate::proto::v1::ParseOptions;

verus! {

/// What one message of the request stream carries.
#[derive(Debug, Clone, PartialEq)]
pub enum Frame {
    /// The options, in the first message.
    Options(ParseOptions),
    /// Input bytes, in every later one.
    Chunk(Vec<u8>),
}

} // verus!
