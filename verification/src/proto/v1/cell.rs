//! The value of one decoded cell.

use vstd::prelude::*;
use crate::proto::v1::{Decimal, DecimalModel};

verus! {

/// The value of one decoded cell.
#[derive(Debug, Clone, PartialEq)]
pub enum Value {
    /// Character data.
    Text(String),
    /// An exact decimal.
    Decimal(Decimal),
    /// An integer that 64 bits hold.
    Integer(i64),
}

/// [`Value`] as contracts speak of it.
#[verifier::ext_equal]
pub enum ValueModel {
    /// See [`Value::Text`].
    Text(Seq<char>),
    /// See [`Value::Decimal`].
    Decimal(DecimalModel),
    /// See [`Value::Integer`].
    Integer(i64),
}

impl DeepView for Value {
    type V = ValueModel;

    open spec fn deep_view(&self) -> ValueModel {
        match self {
            Value::Text(value) => ValueModel::Text(value.deep_view()),
            Value::Decimal(value) => ValueModel::Decimal(value.deep_view()),
            Value::Integer(value) => ValueModel::Integer(*value),
        }
    }
}

} // verus!
