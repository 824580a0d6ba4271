//! The kinds of typed cell value.

use vstd::prelude::*;

verus! {

/// The number a cell holds, in its exact form. A consumer that computes in
/// binary floating point takes the double nearest to it.
#[derive(Debug, Clone, PartialEq)]
pub enum Kind {
    /// A decimal, as its canonical text.
    Decimal(String),
    /// An integer.
    Integer(i64),
}

/// [`Kind`] as contracts speak of it.
#[verifier::ext_equal]
pub enum KindModel {
    /// See [`Kind::Decimal`].
    Decimal(Seq<char>),
    /// See [`Kind::Integer`].
    Integer(i64),
}

impl DeepView for Kind {
    type V = KindModel;

    open spec fn deep_view(&self) -> KindModel {
        match self {
            Kind::Decimal(value) => KindModel::Decimal(value.deep_view()),
            Kind::Integer(value) => KindModel::Integer(*value),
        }
    }
}

} // verus!
