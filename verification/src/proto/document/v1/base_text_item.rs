//! The kinds of text item.

use vstd::prelude::*;
use crate::proto::document::v1::{CodeItem, CodeItemModel, FieldHeadingItem, FieldHeadingItemModel, FieldValueItem, FieldValueItemModel, FormulaItem, FormulaItemModel, ListItem, ListItemModel, SectionHeaderItem, SectionHeaderItemModel, TextItem, TextItemModel, TitleItem, TitleItemModel};

verus! {

/// The kinds of text item.
#[derive(Debug, Clone, PartialEq)]
pub enum Item {
    /// A title.
    Title(TitleItem),
    /// A section header.
    SectionHeader(SectionHeaderItem),
    /// An entry of a list.
    ListItem(ListItem),
    /// A formula.
    Formula(FormulaItem),
    /// A run of plain text.
    Text(TextItem),
    /// The heading of a form field.
    FieldHeading(FieldHeadingItem),
    /// The value of a form field.
    FieldValue(FieldValueItem),
    /// A block of code.
    Code(CodeItem),
}

/// [`Item`] as contracts speak of it.
#[verifier::ext_equal]
pub enum ItemModel {
    /// See [`Item::Title`].
    Title(TitleItemModel),
    /// See [`Item::SectionHeader`].
    SectionHeader(SectionHeaderItemModel),
    /// See [`Item::ListItem`].
    ListItem(ListItemModel),
    /// See [`Item::Formula`].
    Formula(FormulaItemModel),
    /// See [`Item::Text`].
    Text(TextItemModel),
    /// See [`Item::FieldHeading`].
    FieldHeading(FieldHeadingItemModel),
    /// See [`Item::FieldValue`].
    FieldValue(FieldValueItemModel),
    /// See [`Item::Code`].
    Code(CodeItemModel),
}

impl DeepView for Item {
    type V = ItemModel;

    open spec fn deep_view(&self) -> ItemModel {
        match self {
            Item::Title(value) => ItemModel::Title(value.deep_view()),
            Item::SectionHeader(value) => ItemModel::SectionHeader(value.deep_view()),
            Item::ListItem(value) => ItemModel::ListItem(value.deep_view()),
            Item::Formula(value) => ItemModel::Formula(value.deep_view()),
            Item::Text(value) => ItemModel::Text(value.deep_view()),
            Item::FieldHeading(value) => ItemModel::FieldHeading(value.deep_view()),
            Item::FieldValue(value) => ItemModel::FieldValue(value.deep_view()),
            Item::Code(value) => ItemModel::Code(value.deep_view()),
        }
    }
}

} // verus!
