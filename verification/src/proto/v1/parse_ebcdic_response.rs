//! The events of a parse.

use vstd::prelude::*;
use crate::proto::document::v1::{Document, DocumentModel};
use crate::proto::v1::{LayoutInfo, LayoutInfoModel, ParseStatus, ParseStatusModel, RecordRow, RecordRowModel};

verus! {

/// One event of a parse, in the order they are sent: the layout, the records,
/// the document when one was asked for, and the status.
#[derive(Debug, Clone, PartialEq)]
pub enum Event {
    /// The layout the parse decodes with.
    LayoutInfo(LayoutInfo),
    /// One decoded record.
    Record(RecordRow),
    /// The whole parse as one document.
    Document(Document),
    /// The counts and warnings.
    Status(ParseStatus),
}

/// [`Event`] as contracts speak of it.
#[verifier::ext_equal]
pub enum EventModel {
    /// See [`Event::LayoutInfo`].
    LayoutInfo(LayoutInfoModel),
    /// See [`Event::Record`].
    Record(RecordRowModel),
    /// See [`Event::Document`].
    Document(DocumentModel),
    /// See [`Event::Status`].
    Status(ParseStatusModel),
}

impl DeepView for Event {
    type V = EventModel;

    open spec fn deep_view(&self) -> EventModel {
        match self {
            Event::LayoutInfo(value) => EventModel::LayoutInfo(value.deep_view()),
            Event::Record(value) => EventModel::Record(value.deep_view()),
            Event::Document(value) => EventModel::Document(value.deep_view()),
            Event::Status(value) => EventModel::Status(value.deep_view()),
        }
    }
}

} // verus!
