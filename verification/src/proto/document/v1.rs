//! The messages of the `ai.pipestream.document.v1` package, as plain values.
//!
//! Only what this collector writes or checks is here. As in
//! [`crate::proto::v1`], every message has a ghost twin, its model.

pub mod base_text_item;
pub mod cell_value;
pub mod source_type;

use vstd::prelude::*;

verus! {

/// Which layer of a document an item belongs to.
#[derive(Clone, Copy, Debug, Default, PartialEq, Eq)]
pub enum ContentLayer {
    /// Not stated.
    #[default]
    Unspecified,
    /// The body.
    Body,
    /// The furniture: headers, footers and the like.
    Furniture,
}

impl ContentLayer {
    /// The number that stands for the value in a message.
    pub open spec fn spec_number(self) -> i32 {
        match self {
            ContentLayer::Unspecified => 0,
            ContentLayer::Body => 1,
            ContentLayer::Furniture => 2,
        }
    }

    /// The number that stands for the value in a message.
    #[verifier::when_used_as_spec(spec_number)]
    pub fn number(self) -> (r: i32)
        ensures
            r == self.number(),
    {
        match self {
            ContentLayer::Unspecified => 0,
            ContentLayer::Body => 1,
            ContentLayer::Furniture => 2,
        }
    }

    /// The value a number stands for, when it stands for one.
    pub open spec fn spec_from_number(number: i32) -> Option<ContentLayer> {
        if number == 0 {
            Some(ContentLayer::Unspecified)
        } else if number == 1 {
            Some(ContentLayer::Body)
        } else if number == 2 {
            Some(ContentLayer::Furniture)
        } else {
            None
        }
    }

    /// The value a number stands for, when it stands for one.
    #[verifier::when_used_as_spec(spec_from_number)]
    pub fn from_number(number: i32) -> (r: Option<ContentLayer>)
        ensures
            r == ContentLayer::from_number(number),
    {
        if number == 0 {
            Some(ContentLayer::Unspecified)
        } else if number == 1 {
            Some(ContentLayer::Body)
        } else if number == 2 {
            Some(ContentLayer::Furniture)
        } else {
            None
        }
    }
}

/// What kind of item an item is.
#[derive(Clone, Copy, Debug, Default, PartialEq, Eq)]
pub enum DocItemLabel {
    /// Not stated.
    #[default]
    Unspecified,
    /// A run of plain text.
    Text,
    /// A section header.
    SectionHeader,
    /// A table.
    Table,
}

impl DocItemLabel {
    /// The number that stands for the value in a message.
    pub open spec fn spec_number(self) -> i32 {
        match self {
            DocItemLabel::Unspecified => 0,
            DocItemLabel::Text => 1,
            DocItemLabel::SectionHeader => 2,
            DocItemLabel::Table => 3,
        }
    }

    /// The number that stands for the value in a message.
    #[verifier::when_used_as_spec(spec_number)]
    pub fn number(self) -> (r: i32)
        ensures
            r == self.number(),
    {
        match self {
            DocItemLabel::Unspecified => 0,
            DocItemLabel::Text => 1,
            DocItemLabel::SectionHeader => 2,
            DocItemLabel::Table => 3,
        }
    }

    /// The value a number stands for, when it stands for one.
    pub open spec fn spec_from_number(number: i32) -> Option<DocItemLabel> {
        if number == 0 {
            Some(DocItemLabel::Unspecified)
        } else if number == 1 {
            Some(DocItemLabel::Text)
        } else if number == 2 {
            Some(DocItemLabel::SectionHeader)
        } else if number == 3 {
            Some(DocItemLabel::Table)
        } else {
            None
        }
    }

    /// The value a number stands for, when it stands for one.
    #[verifier::when_used_as_spec(spec_from_number)]
    pub fn from_number(number: i32) -> (r: Option<DocItemLabel>)
        ensures
            r == DocItemLabel::from_number(number),
    {
        if number == 0 {
            Some(DocItemLabel::Unspecified)
        } else if number == 1 {
            Some(DocItemLabel::Text)
        } else if number == 2 {
            Some(DocItemLabel::SectionHeader)
        } else if number == 3 {
            Some(DocItemLabel::Table)
        } else {
            None
        }
    }
}

/// A reference to an item, as a JSON pointer.
#[derive(Debug, Clone, Default, PartialEq)]
pub struct RefItem {
    /// The pointer.
    pub reference: String,
}

/// [`RefItem`] as contracts speak of it.
#[verifier::ext_equal]
pub struct RefItemModel {
    /// See [`RefItem::reference`].
    pub reference: Seq<char>,
}

impl DeepView for RefItem {
    type V = RefItemModel;

    open spec fn deep_view(&self) -> RefItemModel {
        RefItemModel {
            reference: self.reference.deep_view(),
        }
    }
}

/// The value of a custom field.
#[derive(Debug, Clone, PartialEq)]
pub enum CustomValue {
    /// Text.
    StringValue(String),
    /// A count.
    NumberValue(u64),
}

/// [`CustomValue`] as contracts speak of it.
#[verifier::ext_equal]
pub enum CustomValueModel {
    /// See [`CustomValue::StringValue`].
    StringValue(Seq<char>),
    /// See [`CustomValue::NumberValue`].
    NumberValue(u64),
}

impl DeepView for CustomValue {
    type V = CustomValueModel;

    open spec fn deep_view(&self) -> CustomValueModel {
        match self {
            CustomValue::StringValue(value) => CustomValueModel::StringValue(value.deep_view()),
            CustomValue::NumberValue(value) => CustomValueModel::NumberValue(*value),
        }
    }
}

/// One custom field of an item's metadata.
#[derive(Debug, Clone, Default, PartialEq)]
pub struct CustomField {
    /// The key; no two fields of one item share it.
    pub key: String,
    /// The value.
    pub value: Option<CustomValue>,
}

/// [`CustomField`] as contracts speak of it.
#[verifier::ext_equal]
pub struct CustomFieldModel {
    /// See [`CustomField::key`].
    pub key: Seq<char>,
    /// See [`CustomField::value`].
    pub value: Option<CustomValueModel>,
}

impl DeepView for CustomField {
    type V = CustomFieldModel;

    open spec fn deep_view(&self) -> CustomFieldModel {
        CustomFieldModel {
            key: self.key.deep_view(),
            value: self.value.deep_view(),
        }
    }
}

/// The metadata of a group.
#[derive(Debug, Clone, Default, PartialEq)]
pub struct BaseMeta {
    /// Custom fields.
    pub custom_fields: Vec<CustomField>,
}

/// [`BaseMeta`] as contracts speak of it.
#[verifier::ext_equal]
pub struct BaseMetaModel {
    /// See [`BaseMeta::custom_fields`].
    pub custom_fields: Seq<CustomFieldModel>,
}

impl DeepView for BaseMeta {
    type V = BaseMetaModel;

    open spec fn deep_view(&self) -> BaseMetaModel {
        BaseMetaModel {
            custom_fields: self.custom_fields.deep_view(),
        }
    }
}

/// The metadata of a table.
#[derive(Debug, Clone, Default, PartialEq)]
pub struct FloatingMeta {
    /// Custom fields.
    pub custom_fields: Vec<CustomField>,
}

/// [`FloatingMeta`] as contracts speak of it.
#[verifier::ext_equal]
pub struct FloatingMetaModel {
    /// See [`FloatingMeta::custom_fields`].
    pub custom_fields: Seq<CustomFieldModel>,
}

impl DeepView for FloatingMeta {
    type V = FloatingMetaModel;

    open spec fn deep_view(&self) -> FloatingMetaModel {
        FloatingMetaModel {
            custom_fields: self.custom_fields.deep_view(),
        }
    }
}

/// A container of other items.
#[derive(Debug, Clone, Default, PartialEq)]
pub struct GroupItem {
    /// Pointer to the group itself.
    pub self_ref: String,
    /// The group's container.
    pub parent: Option<RefItem>,
    /// The items it contains.
    pub children: Vec<RefItem>,
    /// The [`ContentLayer`] number.
    pub content_layer: i32,
    /// Metadata.
    pub meta: Option<BaseMeta>,
}

/// [`GroupItem`] as contracts speak of it.
#[verifier::ext_equal]
pub struct GroupItemModel {
    /// See [`GroupItem::self_ref`].
    pub self_ref: Seq<char>,
    /// See [`GroupItem::parent`].
    pub parent: Option<RefItemModel>,
    /// See [`GroupItem::children`].
    pub children: Seq<RefItemModel>,
    /// See [`GroupItem::content_layer`].
    pub content_layer: i32,
    /// See [`GroupItem::meta`].
    pub meta: Option<BaseMetaModel>,
}

impl DeepView for GroupItem {
    type V = GroupItemModel;

    open spec fn deep_view(&self) -> GroupItemModel {
        GroupItemModel {
            self_ref: self.self_ref.deep_view(),
            parent: self.parent.deep_view(),
            children: self.children.deep_view(),
            content_layer: self.content_layer,
            meta: self.meta.deep_view(),
        }
    }
}

/// The collector an item came from.
#[derive(Debug, Clone, Default, PartialEq)]
pub struct CollectorSource {
    /// The collector's name.
    pub collector: String,
    /// The form of the layout it decoded with.
    pub model: Option<String>,
    /// The collector's version.
    pub version: Option<String>,
    /// Confidence in millionths, for collectors that estimate.
    pub confidence: Option<u32>,
}

/// [`CollectorSource`] as contracts speak of it.
#[verifier::ext_equal]
pub struct CollectorSourceModel {
    /// See [`CollectorSource::collector`].
    pub collector: Seq<char>,
    /// See [`CollectorSource::model`].
    pub model: Option<Seq<char>>,
    /// See [`CollectorSource::version`].
    pub version: Option<Seq<char>>,
    /// See [`CollectorSource::confidence`].
    pub confidence: Option<u32>,
}

impl DeepView for CollectorSource {
    type V = CollectorSourceModel;

    open spec fn deep_view(&self) -> CollectorSourceModel {
        CollectorSourceModel {
            collector: self.collector.deep_view(),
            model: self.model.deep_view(),
            version: self.version.deep_view(),
            confidence: self.confidence.deep_view(),
        }
    }
}

/// Where an item came from.
#[derive(Debug, Clone, Default, PartialEq)]
pub struct SourceType {
    /// The attribution.
    pub source: Option<source_type::Source>,
}

/// [`SourceType`] as contracts speak of it.
#[verifier::ext_equal]
pub struct SourceTypeModel {
    /// See [`SourceType::source`].
    pub source: Option<source_type::SourceModel>,
}

impl DeepView for SourceType {
    type V = SourceTypeModel;

    open spec fn deep_view(&self) -> SourceTypeModel {
        SourceTypeModel {
            source: self.source.deep_view(),
        }
    }
}

/// A run of input bytes.
#[derive(Debug, Clone, Default, PartialEq)]
pub struct ByteSpan {
    /// Offset of the first byte.
    pub start: u64,
    /// Offset one past the last byte.
    pub end: u64,
}

/// [`ByteSpan`] as contracts speak of it.
#[verifier::ext_equal]
pub struct ByteSpanModel {
    /// See [`ByteSpan::start`].
    pub start: u64,
    /// See [`ByteSpan::end`].
    pub end: u64,
}

impl DeepView for ByteSpan {
    type V = ByteSpanModel;

    open spec fn deep_view(&self) -> ByteSpanModel {
        ByteSpanModel {
            start: self.start,
            end: self.end,
        }
    }
}

/// Where in the input something was.
#[derive(Debug, Clone, Default, PartialEq)]
pub struct ProvenanceItem {
    /// Its bytes, when it has any.
    pub byte_range: Option<ByteSpan>,
}

/// [`ProvenanceItem`] as contracts speak of it.
#[verifier::ext_equal]
pub struct ProvenanceItemModel {
    /// See [`ProvenanceItem::byte_range`].
    pub byte_range: Option<ByteSpanModel>,
}

impl DeepView for ProvenanceItem {
    type V = ProvenanceItemModel;

    open spec fn deep_view(&self) -> ProvenanceItemModel {
        ProvenanceItemModel {
            byte_range: self.byte_range.deep_view(),
        }
    }
}

/// What every text item has.
#[derive(Debug, Clone, Default, PartialEq)]
pub struct TextItemBase {
    /// Pointer to the item itself.
    pub self_ref: String,
    /// The item's container.
    pub parent: Option<RefItem>,
    /// The items it contains.
    pub children: Vec<RefItem>,
    /// The [`ContentLayer`] number.
    pub content_layer: i32,
    /// The [`DocItemLabel`] number.
    pub label: i32,
    /// Where in the input the text was.
    pub prov: Vec<ProvenanceItem>,
    /// The text as it was found.
    pub orig: String,
    /// The text.
    pub text: String,
    /// Where the item came from.
    pub source: Vec<SourceType>,
}

/// [`TextItemBase`] as contracts speak of it.
#[verifier::ext_equal]
pub struct TextItemBaseModel {
    /// See [`TextItemBase::self_ref`].
    pub self_ref: Seq<char>,
    /// See [`TextItemBase::parent`].
    pub parent: Option<RefItemModel>,
    /// See [`TextItemBase::children`].
    pub children: Seq<RefItemModel>,
    /// See [`TextItemBase::content_layer`].
    pub content_layer: i32,
    /// See [`TextItemBase::label`].
    pub label: i32,
    /// See [`TextItemBase::prov`].
    pub prov: Seq<ProvenanceItemModel>,
    /// See [`TextItemBase::orig`].
    pub orig: Seq<char>,
    /// See [`TextItemBase::text`].
    pub text: Seq<char>,
    /// See [`TextItemBase::source`].
    pub source: Seq<SourceTypeModel>,
}

impl DeepView for TextItemBase {
    type V = TextItemBaseModel;

    open spec fn deep_view(&self) -> TextItemBaseModel {
        TextItemBaseModel {
            self_ref: self.self_ref.deep_view(),
            parent: self.parent.deep_view(),
            children: self.children.deep_view(),
            content_layer: self.content_layer,
            label: self.label,
            prov: self.prov.deep_view(),
            orig: self.orig.deep_view(),
            text: self.text.deep_view(),
            source: self.source.deep_view(),
        }
    }
}

/// A title.
#[derive(Debug, Clone, Default, PartialEq)]
pub struct TitleItem {
    /// The text.
    pub base: Option<TextItemBase>,
}

/// [`TitleItem`] as contracts speak of it.
#[verifier::ext_equal]
pub struct TitleItemModel {
    /// See [`TitleItem::base`].
    pub base: Option<TextItemBaseModel>,
}

impl DeepView for TitleItem {
    type V = TitleItemModel;

    open spec fn deep_view(&self) -> TitleItemModel {
        TitleItemModel {
            base: self.base.deep_view(),
        }
    }
}

/// An entry of a list.
#[derive(Debug, Clone, Default, PartialEq)]
pub struct ListItem {
    /// The text.
    pub base: Option<TextItemBase>,
}

/// [`ListItem`] as contracts speak of it.
#[verifier::ext_equal]
pub struct ListItemModel {
    /// See [`ListItem::base`].
    pub base: Option<TextItemBaseModel>,
}

impl DeepView for ListItem {
    type V = ListItemModel;

    open spec fn deep_view(&self) -> ListItemModel {
        ListItemModel {
            base: self.base.deep_view(),
        }
    }
}

/// A formula.
#[derive(Debug, Clone, Default, PartialEq)]
pub struct FormulaItem {
    /// The text.
    pub base: Option<TextItemBase>,
}

/// [`FormulaItem`] as contracts speak of it.
#[verifier::ext_equal]
pub struct FormulaItemModel {
    /// See [`FormulaItem::base`].
    pub base: Option<TextItemBaseModel>,
}

impl DeepView for FormulaItem {
    type V = FormulaItemModel;

    open spec fn deep_view(&self) -> FormulaItemModel {
        FormulaItemModel {
            base: self.base.deep_view(),
        }
    }
}

/// A run of plain text.
#[derive(Debug, Clone, Default, PartialEq)]
pub struct TextItem {
    /// The text.
    pub base: Option<TextItemBase>,
}

/// [`TextItem`] as contracts speak of it.
#[verifier::ext_equal]
pub struct TextItemModel {
    /// See [`TextItem::base`].
    pub base: Option<TextItemBaseModel>,
}

impl DeepView for TextItem {
    type V = TextItemModel;

    open spec fn deep_view(&self) -> TextItemModel {
        TextItemModel {
            base: self.base.deep_view(),
        }
    }
}

/// The heading of a form field.
#[derive(Debug, Clone, Default, PartialEq)]
pub struct FieldHeadingItem {
    /// The text.
    pub base: Option<TextItemBase>,
}

/// [`FieldHeadingItem`] as contracts speak of it.
#[verifier::ext_equal]
pub struct FieldHeadingItemModel {
    /// See [`FieldHeadingItem::base`].
    pub base: Option<TextItemBaseModel>,
}

impl DeepView for FieldHeadingItem {
    type V = FieldHeadingItemModel;

    open spec fn deep_view(&self) -> FieldHeadingItemModel {
        FieldHeadingItemModel {
            base: self.base.deep_view(),
        }
    }
}

/// The value of a form field.
#[derive(Debug, Clone, Default, PartialEq)]
pub struct FieldValueItem {
    /// The text.
    pub base: Option<TextItemBase>,
}

/// [`FieldValueItem`] as contracts speak of it.
#[verifier::ext_equal]
pub struct FieldValueItemModel {
    /// See [`FieldValueItem::base`].
    pub base: Option<TextItemBaseModel>,
}

impl DeepView for FieldValueItem {
    type V = FieldValueItemModel;

    open spec fn deep_view(&self) -> FieldValueItemModel {
        FieldValueItemModel {
            base: self.base.deep_view(),
        }
    }
}

/// A section header.
#[derive(Debug, Clone, Default, PartialEq)]
pub struct SectionHeaderItem {
    /// The text.
    pub base: Option<TextItemBase>,
    /// Depth of the section, from one.
    pub level: i32,
}

/// [`SectionHeaderItem`] as contracts speak of it.
#[verifier::ext_equal]
pub struct SectionHeaderItemModel {
    /// See [`SectionHeaderItem::base`].
    pub base: Option<TextItemBaseModel>,
    /// See [`SectionHeaderItem::level`].
    pub level: i32,
}

impl DeepView for SectionHeaderItem {
    type V = SectionHeaderItemModel;

    open spec fn deep_view(&self) -> SectionHeaderItemModel {
        SectionHeaderItemModel {
            base: self.base.deep_view(),
            level: self.level,
        }
    }
}

/// A block of code, which carries its own links.
#[derive(Debug, Clone, Default, PartialEq)]
pub struct CodeItem {
    /// Pointer to the item itself.
    pub self_ref: String,
    /// The item's container.
    pub parent: Option<RefItem>,
    /// The items it contains.
    pub children: Vec<RefItem>,
}

/// [`CodeItem`] as contracts speak of it.
#[verifier::ext_equal]
pub struct CodeItemModel {
    /// See [`CodeItem::self_ref`].
    pub self_ref: Seq<char>,
    /// See [`CodeItem::parent`].
    pub parent: Option<RefItemModel>,
    /// See [`CodeItem::children`].
    pub children: Seq<RefItemModel>,
}

impl DeepView for CodeItem {
    type V = CodeItemModel;

    open spec fn deep_view(&self) -> CodeItemModel {
        CodeItemModel {
            self_ref: self.self_ref.deep_view(),
            parent: self.parent.deep_view(),
            children: self.children.deep_view(),
        }
    }
}

/// One entry of the text arena.
#[derive(Debug, Clone, Default, PartialEq)]
pub struct BaseTextItem {
    /// Which kind of text it is.
    pub item: Option<base_text_item::Item>,
}

/// [`BaseTextItem`] as contracts speak of it.
#[verifier::ext_equal]
pub struct BaseTextItemModel {
    /// See [`BaseTextItem::item`].
    pub item: Option<base_text_item::ItemModel>,
}

impl DeepView for BaseTextItem {
    type V = BaseTextItemModel;

    open spec fn deep_view(&self) -> BaseTextItemModel {
        BaseTextItemModel {
            item: self.item.deep_view(),
        }
    }
}

/// A picture.
#[derive(Debug, Clone, Default, PartialEq)]
pub struct PictureItem {
    /// Pointer to the item itself.
    pub self_ref: String,
    /// The item's container.
    pub parent: Option<RefItem>,
    /// The items it contains.
    pub children: Vec<RefItem>,
}

/// [`PictureItem`] as contracts speak of it.
#[verifier::ext_equal]
pub struct PictureItemModel {
    /// See [`PictureItem::self_ref`].
    pub self_ref: Seq<char>,
    /// See [`PictureItem::parent`].
    pub parent: Option<RefItemModel>,
    /// See [`PictureItem::children`].
    pub children: Seq<RefItemModel>,
}

impl DeepView for PictureItem {
    type V = PictureItemModel;

    open spec fn deep_view(&self) -> PictureItemModel {
        PictureItemModel {
            self_ref: self.self_ref.deep_view(),
            parent: self.parent.deep_view(),
            children: self.children.deep_view(),
        }
    }
}

/// A rectangle on a page, in the page's own units.
#[derive(Debug, Clone, Default, PartialEq)]
pub struct BoundingBox {
    /// Left edge.
    pub left: i64,
    /// Top edge.
    pub top: i64,
    /// Right edge.
    pub right: i64,
    /// Bottom edge.
    pub bottom: i64,
}

/// [`BoundingBox`] as contracts speak of it.
#[verifier::ext_equal]
pub struct BoundingBoxModel {
    /// See [`BoundingBox::left`].
    pub left: i64,
    /// See [`BoundingBox::top`].
    pub top: i64,
    /// See [`BoundingBox::right`].
    pub right: i64,
    /// See [`BoundingBox::bottom`].
    pub bottom: i64,
}

impl DeepView for BoundingBox {
    type V = BoundingBoxModel;

    open spec fn deep_view(&self) -> BoundingBoxModel {
        BoundingBoxModel {
            left: self.left,
            top: self.top,
            right: self.right,
            bottom: self.bottom,
        }
    }
}

/// The typed value of a table cell.
#[derive(Debug, Clone, Default, PartialEq)]
pub struct CellValue {
    /// The value.
    pub kind: Option<cell_value::Kind>,
    /// How the source formats it.
    pub number_format: Option<String>,
}

/// [`CellValue`] as contracts speak of it.
#[verifier::ext_equal]
pub struct CellValueModel {
    /// See [`CellValue::kind`].
    pub kind: Option<cell_value::KindModel>,
    /// See [`CellValue::number_format`].
    pub number_format: Option<Seq<char>>,
}

impl DeepView for CellValue {
    type V = CellValueModel;

    open spec fn deep_view(&self) -> CellValueModel {
        CellValueModel {
            kind: self.kind.deep_view(),
            number_format: self.number_format.deep_view(),
        }
    }
}

/// One cell of a table.
#[derive(Debug, Clone, Default, PartialEq)]
pub struct TableCell {
    /// Where on a page it was.
    pub bbox: Option<BoundingBox>,
    /// Rows it takes.
    pub row_span: i32,
    /// Columns it takes.
    pub col_span: i32,
    /// Its first row.
    pub start_row_offset_idx: i32,
    /// One past its last row.
    pub end_row_offset_idx: i32,
    /// Its first column.
    pub start_col_offset_idx: i32,
    /// One past its last column.
    pub end_col_offset_idx: i32,
    /// The cell's rendering.
    pub text: String,
    /// Whether it heads a column.
    pub column_header: bool,
    /// Whether it heads a row.
    pub row_header: bool,
    /// Whether it heads a section of rows.
    pub row_section: bool,
    /// Whether it is a form field.
    pub fillable: bool,
    /// The typed value beside the rendering.
    pub value: Option<CellValue>,
}

/// [`TableCell`] as contracts speak of it.
#[verifier::ext_equal]
pub struct TableCellModel {
    /// See [`TableCell::bbox`].
    pub bbox: Option<BoundingBoxModel>,
    /// See [`TableCell::row_span`].
    pub row_span: i32,
    /// See [`TableCell::col_span`].
    pub col_span: i32,
    /// See [`TableCell::start_row_offset_idx`].
    pub start_row_offset_idx: i32,
    /// See [`TableCell::end_row_offset_idx`].
    pub end_row_offset_idx: i32,
    /// See [`TableCell::start_col_offset_idx`].
    pub start_col_offset_idx: i32,
    /// See [`TableCell::end_col_offset_idx`].
    pub end_col_offset_idx: i32,
    /// See [`TableCell::text`].
    pub text: Seq<char>,
    /// See [`TableCell::column_header`].
    pub column_header: bool,
    /// See [`TableCell::row_header`].
    pub row_header: bool,
    /// See [`TableCell::row_section`].
    pub row_section: bool,
    /// See [`TableCell::fillable`].
    pub fillable: bool,
    /// See [`TableCell::value`].
    pub value: Option<CellValueModel>,
}

impl DeepView for TableCell {
    type V = TableCellModel;

    open spec fn deep_view(&self) -> TableCellModel {
        TableCellModel {
            bbox: self.bbox.deep_view(),
            row_span: self.row_span,
            col_span: self.col_span,
            start_row_offset_idx: self.start_row_offset_idx,
            end_row_offset_idx: self.end_row_offset_idx,
            start_col_offset_idx: self.start_col_offset_idx,
            end_col_offset_idx: self.end_col_offset_idx,
            text: self.text.deep_view(),
            column_header: self.column_header,
            row_header: self.row_header,
            row_section: self.row_section,
            fillable: self.fillable,
            value: self.value.deep_view(),
        }
    }
}

/// One row of a table.
#[derive(Debug, Clone, Default, PartialEq)]
pub struct TableRow {
    /// The cells, in column order.
    pub cells: Vec<TableCell>,
}

/// [`TableRow`] as contracts speak of it.
#[verifier::ext_equal]
pub struct TableRowModel {
    /// See [`TableRow::cells`].
    pub cells: Seq<TableCellModel>,
}

impl DeepView for TableRow {
    type V = TableRowModel;

    open spec fn deep_view(&self) -> TableRowModel {
        TableRowModel {
            cells: self.cells.deep_view(),
        }
    }
}

/// A literal, or an inclusive range of them.
#[derive(Debug, Clone, Default, PartialEq)]
pub struct ValueRange {
    /// The literal, or the lower bound.
    pub low: String,
    /// The upper bound of a range.
    pub high: Option<String>,
}

/// [`ValueRange`] as contracts speak of it.
#[verifier::ext_equal]
pub struct ValueRangeModel {
    /// See [`ValueRange::low`].
    pub low: Seq<char>,
    /// See [`ValueRange::high`].
    pub high: Option<Seq<char>>,
}

impl DeepView for ValueRange {
    type V = ValueRangeModel;

    open spec fn deep_view(&self) -> ValueRangeModel {
        ValueRangeModel {
            low: self.low.deep_view(),
            high: self.high.deep_view(),
        }
    }
}

/// A named condition on a column's values.
#[derive(Debug, Clone, Default, PartialEq)]
pub struct ValueCondition {
    /// The condition's name.
    pub name: String,
    /// The values it is true for.
    pub values: Vec<ValueRange>,
}

/// [`ValueCondition`] as contracts speak of it.
#[verifier::ext_equal]
pub struct ValueConditionModel {
    /// See [`ValueCondition::name`].
    pub name: Seq<char>,
    /// See [`ValueCondition::values`].
    pub values: Seq<ValueRangeModel>,
}

impl DeepView for ValueCondition {
    type V = ValueConditionModel;

    open spec fn deep_view(&self) -> ValueConditionModel {
        ValueConditionModel {
            name: self.name.deep_view(),
            values: self.values.deep_view(),
        }
    }
}

/// What the layout declares of one column.
#[derive(Debug, Clone, Default, PartialEq)]
pub struct TableColumnSchema {
    /// Qualified name of the column.
    pub name: Option<String>,
    /// Name of the storage type.
    pub declared_type: Option<String>,
    /// COBOL picture clause.
    pub picture: Option<String>,
    /// Byte offset within the record body.
    pub byte_offset: Option<u64>,
    /// Width in bytes.
    pub byte_size: Option<u64>,
    /// COBOL level number.
    pub level: Option<i32>,
    /// One-based occurrence.
    pub occurs_index: Option<i32>,
    /// Display width.
    pub width: Option<i32>,
    /// Conditions on the values.
    pub conditions: Vec<ValueCondition>,
}

/// [`TableColumnSchema`] as contracts speak of it.
#[verifier::ext_equal]
pub struct TableColumnSchemaModel {
    /// See [`TableColumnSchema::name`].
    pub name: Option<Seq<char>>,
    /// See [`TableColumnSchema::declared_type`].
    pub declared_type: Option<Seq<char>>,
    /// See [`TableColumnSchema::picture`].
    pub picture: Option<Seq<char>>,
    /// See [`TableColumnSchema::byte_offset`].
    pub byte_offset: Option<u64>,
    /// See [`TableColumnSchema::byte_size`].
    pub byte_size: Option<u64>,
    /// See [`TableColumnSchema::level`].
    pub level: Option<i32>,
    /// See [`TableColumnSchema::occurs_index`].
    pub occurs_index: Option<i32>,
    /// See [`TableColumnSchema::width`].
    pub width: Option<i32>,
    /// See [`TableColumnSchema::conditions`].
    pub conditions: Seq<ValueConditionModel>,
}

impl DeepView for TableColumnSchema {
    type V = TableColumnSchemaModel;

    open spec fn deep_view(&self) -> TableColumnSchemaModel {
        TableColumnSchemaModel {
            name: self.name.deep_view(),
            declared_type: self.declared_type.deep_view(),
            picture: self.picture.deep_view(),
            byte_offset: self.byte_offset.deep_view(),
            byte_size: self.byte_size.deep_view(),
            level: self.level.deep_view(),
            occurs_index: self.occurs_index.deep_view(),
            width: self.width.deep_view(),
            conditions: self.conditions.deep_view(),
        }
    }
}

/// The fixed-record layout a table was decoded with.
#[derive(Debug, Clone, Default, PartialEq)]
pub struct RecordLayoutMeta {
    /// Code page.
    pub encoding: Option<String>,
    /// Body length in bytes.
    pub record_length: Option<u64>,
    /// Bytes skipped at the start of the input.
    pub header_bytes: Option<u64>,
    /// Bytes skipped at the end of the input.
    pub footer_bytes: Option<u64>,
    /// Width of the prefix ahead of every record.
    pub prefix_bytes: Option<u64>,
    /// Rows left out of the table.
    pub rows_truncated: Option<u64>,
}

/// [`RecordLayoutMeta`] as contracts speak of it.
#[verifier::ext_equal]
pub struct RecordLayoutMetaModel {
    /// See [`RecordLayoutMeta::encoding`].
    pub encoding: Option<Seq<char>>,
    /// See [`RecordLayoutMeta::record_length`].
    pub record_length: Option<u64>,
    /// See [`RecordLayoutMeta::header_bytes`].
    pub header_bytes: Option<u64>,
    /// See [`RecordLayoutMeta::footer_bytes`].
    pub footer_bytes: Option<u64>,
    /// See [`RecordLayoutMeta::prefix_bytes`].
    pub prefix_bytes: Option<u64>,
    /// See [`RecordLayoutMeta::rows_truncated`].
    pub rows_truncated: Option<u64>,
}

impl DeepView for RecordLayoutMeta {
    type V = RecordLayoutMetaModel;

    open spec fn deep_view(&self) -> RecordLayoutMetaModel {
        RecordLayoutMetaModel {
            encoding: self.encoding.deep_view(),
            record_length: self.record_length.deep_view(),
            header_bytes: self.header_bytes.deep_view(),
            footer_bytes: self.footer_bytes.deep_view(),
            prefix_bytes: self.prefix_bytes.deep_view(),
            rows_truncated: self.rows_truncated.deep_view(),
        }
    }
}

/// The contents of a table.
#[derive(Debug, Clone, Default, PartialEq)]
pub struct TableData {
    /// Every cell, row by row.
    pub table_cells: Vec<TableCell>,
    /// Number of rows, the header among them.
    pub num_rows: i32,
    /// Number of columns.
    pub num_cols: i32,
    /// The rows, the header first.
    pub grid: Vec<TableRow>,
    /// What the layout declares of each column.
    pub columns: Vec<TableColumnSchema>,
    /// Where in the input each row was.
    pub row_prov: Vec<ProvenanceItem>,
    /// The layout the rows were decoded with.
    pub record_layout: Option<RecordLayoutMeta>,
}

/// [`TableData`] as contracts speak of it.
#[verifier::ext_equal]
pub struct TableDataModel {
    /// See [`TableData::table_cells`].
    pub table_cells: Seq<TableCellModel>,
    /// See [`TableData::num_rows`].
    pub num_rows: i32,
    /// See [`TableData::num_cols`].
    pub num_cols: i32,
    /// See [`TableData::grid`].
    pub grid: Seq<TableRowModel>,
    /// See [`TableData::columns`].
    pub columns: Seq<TableColumnSchemaModel>,
    /// See [`TableData::row_prov`].
    pub row_prov: Seq<ProvenanceItemModel>,
    /// See [`TableData::record_layout`].
    pub record_layout: Option<RecordLayoutMetaModel>,
}

impl DeepView for TableData {
    type V = TableDataModel;

    open spec fn deep_view(&self) -> TableDataModel {
        TableDataModel {
            table_cells: self.table_cells.deep_view(),
            num_rows: self.num_rows,
            num_cols: self.num_cols,
            grid: self.grid.deep_view(),
            columns: self.columns.deep_view(),
            row_prov: self.row_prov.deep_view(),
            record_layout: self.record_layout.deep_view(),
        }
    }
}

/// A table.
#[derive(Debug, Clone, Default, PartialEq)]
pub struct TableItem {
    /// Pointer to the table itself.
    pub self_ref: String,
    /// The table's container.
    pub parent: Option<RefItem>,
    /// The items it contains.
    pub children: Vec<RefItem>,
    /// The [`ContentLayer`] number.
    pub content_layer: i32,
    /// The [`DocItemLabel`] number.
    pub label: i32,
    /// Where in the input the table was.
    pub prov: Vec<ProvenanceItem>,
    /// Metadata.
    pub meta: Option<FloatingMeta>,
    /// The contents.
    pub data: Option<TableData>,
    /// Where the table came from.
    pub source: Vec<SourceType>,
}

/// [`TableItem`] as contracts speak of it.
#[verifier::ext_equal]
pub struct TableItemModel {
    /// See [`TableItem::self_ref`].
    pub self_ref: Seq<char>,
    /// See [`TableItem::parent`].
    pub parent: Option<RefItemModel>,
    /// See [`TableItem::children`].
    pub children: Seq<RefItemModel>,
    /// See [`TableItem::content_layer`].
    pub content_layer: i32,
    /// See [`TableItem::label`].
    pub label: i32,
    /// See [`TableItem::prov`].
    pub prov: Seq<ProvenanceItemModel>,
    /// See [`TableItem::meta`].
    pub meta: Option<FloatingMetaModel>,
    /// See [`TableItem::data`].
    pub data: Option<TableDataModel>,
    /// See [`TableItem::source`].
    pub source: Seq<SourceTypeModel>,
}

impl DeepView for TableItem {
    type V = TableItemModel;

    open spec fn deep_view(&self) -> TableItemModel {
        TableItemModel {
            self_ref: self.self_ref.deep_view(),
            parent: self.parent.deep_view(),
            children: self.children.deep_view(),
            content_layer: self.content_layer,
            label: self.label,
            prov: self.prov.deep_view(),
            meta: self.meta.deep_view(),
            data: self.data.deep_view(),
            source: self.source.deep_view(),
        }
    }
}

/// The file a document came from.
#[derive(Debug, Clone, Default, PartialEq)]
pub struct DocumentOrigin {
    /// Its name.
    pub filename: String,
    /// Its media type.
    pub mimetype: String,
}

/// [`DocumentOrigin`] as contracts speak of it.
#[verifier::ext_equal]
pub struct DocumentOriginModel {
    /// See [`DocumentOrigin::filename`].
    pub filename: Seq<char>,
    /// See [`DocumentOrigin::mimetype`].
    pub mimetype: Seq<char>,
}

impl DeepView for DocumentOrigin {
    type V = DocumentOriginModel;

    open spec fn deep_view(&self) -> DocumentOriginModel {
        DocumentOriginModel {
            filename: self.filename.deep_view(),
            mimetype: self.mimetype.deep_view(),
        }
    }
}

/// A page of a document.
#[derive(Debug, Clone, Default, PartialEq)]
pub struct PageItem {
    /// Page number, from one.
    pub page_no: i32,
}

/// [`PageItem`] as contracts speak of it.
#[verifier::ext_equal]
pub struct PageItemModel {
    /// See [`PageItem::page_no`].
    pub page_no: i32,
}

impl DeepView for PageItem {
    type V = PageItemModel;

    open spec fn deep_view(&self) -> PageItemModel {
        PageItemModel {
            page_no: self.page_no,
        }
    }
}

/// A region of form fields.
#[derive(Debug, Clone, Default, PartialEq)]
pub struct FieldRegionItem {
    /// Pointer to the region itself.
    pub self_ref: String,
}

/// [`FieldRegionItem`] as contracts speak of it.
#[verifier::ext_equal]
pub struct FieldRegionItemModel {
    /// See [`FieldRegionItem::self_ref`].
    pub self_ref: Seq<char>,
}

impl DeepView for FieldRegionItem {
    type V = FieldRegionItemModel;

    open spec fn deep_view(&self) -> FieldRegionItemModel {
        FieldRegionItemModel {
            self_ref: self.self_ref.deep_view(),
        }
    }
}

/// A form field.
#[derive(Debug, Clone, Default, PartialEq)]
pub struct FieldItem {
    /// Pointer to the field itself.
    pub self_ref: String,
}

/// [`FieldItem`] as contracts speak of it.
#[verifier::ext_equal]
pub struct FieldItemModel {
    /// See [`FieldItem::self_ref`].
    pub self_ref: Seq<char>,
}

impl DeepView for FieldItem {
    type V = FieldItemModel;

    open spec fn deep_view(&self) -> FieldItemModel {
        FieldItemModel {
            self_ref: self.self_ref.deep_view(),
        }
    }
}

/// A document.
#[derive(Debug, Clone, Default, PartialEq)]
pub struct Document {
    /// The document schema it follows.
    pub schema_name: Option<String>,
    /// Its name.
    pub name: String,
    /// The file it came from.
    pub origin: Option<DocumentOrigin>,
    /// The root of the body.
    pub body: Option<GroupItem>,
    /// The root of the furniture.
    pub furniture: Option<GroupItem>,
    /// The groups.
    pub groups: Vec<GroupItem>,
    /// The texts.
    pub texts: Vec<BaseTextItem>,
    /// The pictures.
    pub pictures: Vec<PictureItem>,
    /// The tables.
    pub tables: Vec<TableItem>,
    /// The regions of form fields.
    pub field_regions: Vec<FieldRegionItem>,
    /// The form fields.
    pub field_items: Vec<FieldItem>,
    /// The pages.
    pub pages: Vec<PageItem>,
}

/// [`Document`] as contracts speak of it.
#[verifier::ext_equal]
pub struct DocumentModel {
    /// See [`Document::schema_name`].
    pub schema_name: Option<Seq<char>>,
    /// See [`Document::name`].
    pub name: Seq<char>,
    /// See [`Document::origin`].
    pub origin: Option<DocumentOriginModel>,
    /// See [`Document::body`].
    pub body: Option<GroupItemModel>,
    /// See [`Document::furniture`].
    pub furniture: Option<GroupItemModel>,
    /// See [`Document::groups`].
    pub groups: Seq<GroupItemModel>,
    /// See [`Document::texts`].
    pub texts: Seq<BaseTextItemModel>,
    /// See [`Document::pictures`].
    pub pictures: Seq<PictureItemModel>,
    /// See [`Document::tables`].
    pub tables: Seq<TableItemModel>,
    /// See [`Document::field_regions`].
    pub field_regions: Seq<FieldRegionItemModel>,
    /// See [`Document::field_items`].
    pub field_items: Seq<FieldItemModel>,
    /// See [`Document::pages`].
    pub pages: Seq<PageItemModel>,
}

impl DeepView for Document {
    type V = DocumentModel;

    open spec fn deep_view(&self) -> DocumentModel {
        DocumentModel {
            schema_name: self.schema_name.deep_view(),
            name: self.name.deep_view(),
            origin: self.origin.deep_view(),
            body: self.body.deep_view(),
            furniture: self.furniture.deep_view(),
            groups: self.groups.deep_view(),
            texts: self.texts.deep_view(),
            pictures: self.pictures.deep_view(),
            tables: self.tables.deep_view(),
            field_regions: self.field_regions.deep_view(),
            field_items: self.field_items.deep_view(),
            pages: self.pages.deep_view(),
        }
    }
}

} // verus!
