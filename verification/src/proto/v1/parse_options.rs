//! The forms a layout can arrive in.

use vstd::prelude::*;
use crate::layout::JsonForm;
use crate::proto::v1::EbcdicLayout;

verus! {

/// The forms a layout can arrive in.
#[derive(Debug, Clone, PartialEq)]
pub enum LayoutSource {
    /// The layout message.
    Layout(EbcdicLayout),
    /// The layout as JSON.
    LayoutJson(JsonForm),
    /// COBOL copybook source.
    Copybook(String),
}

} // verus!
