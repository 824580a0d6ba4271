//! The kinds of attribution.

use vstd::prelude::*;
use crate::proto::document::v1::{CollectorSource, CollectorSourceModel};

verus! {

/// The kinds of attribution.
#[derive(Debug, Clone, PartialEq)]
pub enum Source {
    /// A collector.
    Collector(CollectorSource),
}

/// [`Source`] as contracts speak of it.
#[verifier::ext_equal]
pub enum SourceModel {
    /// See [`Source::Collector`].
    Collector(CollectorSourceModel),
}

impl DeepView for Source {
    type V = SourceModel;

    open spec fn deep_view(&self) -> SourceModel {
        match self {
            Source::Collector(value) => SourceModel::Collector(value.deep_view()),
        }
    }
}

} // verus!
