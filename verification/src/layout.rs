//! The normalized layout: one internal shape that the layout message, the JSON
//! form, and the copybook compiler all reduce to before a single byte of data
//! is read.
//!
//! Validation happens in [`validation`] and only there, and it happens before
//! the response stream opens, so a layout that cannot describe the file fails
//! with `INVALID_ARGUMENT` instead of half a table followed by an error.

pub mod laws;
pub mod lifting;
pub mod meaning;
pub mod validation;

pub use crate::layout::validation::{MAX_FOOTER_BYTES, MAX_RECORD_BYTES};
use vstd::prelude::*;
use crate::copybook::{compile, compiled, reads_ascii};
use crate::copybook::lexing::{check_columns, columns_align};
use crate::decode::{MAX_PACKED_BYTES, MAX_ZONED_BYTES};
use crate::error::{outcome, Failure, ParseError};
use crate::layout::laws::law_validated_layouts_are_decodable;
use crate::layout::lifting::{from_json, from_proto, json_form, lifted_layout};
use crate::layout::validation::{validate, validated};
use crate::proto::v1::parse_options::LayoutSource as FormSource;
use crate::proto::v1::{ConditionName as ProtoConditionName, ConditionNameModel, FieldSchema,
    FieldSchemaModel, FieldType, LayoutInfo, LayoutInfoModel, LayoutSource, ParseOptions,
    RecordSchema, RecordSchemaModel, ValueRange};
use crate::text::{cat3, same, signed_decimal, signed_text};

verus! {

/// How the bytes of one field are decoded, with the "unspecified" case already
/// resolved.
#[derive(Debug, Clone, Copy, PartialEq, Eq, Structural)]
pub enum FieldKind {
    /// `USAGE DISPLAY` character data.
    Text,
    /// Signed big-endian binary.
    Integer,
    /// Unsigned big-endian binary.
    UnsignedInteger,
    /// `COMP-3` packed decimal.
    PackedDecimal,
    /// Signed `USAGE DISPLAY` numeric.
    ZonedDecimal,
    /// Filler: bytes consumed, no cell emitted.
    Skip,
}

/// The message value a kind reports as.
pub open spec fn proto_type(kind: FieldKind) -> FieldType {
    match kind {
        FieldKind::Text => FieldType::String,
        FieldKind::Integer => FieldType::Integer,
        FieldKind::UnsignedInteger => FieldType::UnsignedInteger,
        FieldKind::PackedDecimal => FieldType::PackedDecimal,
        FieldKind::ZonedDecimal => FieldType::ZonedDecimal,
        FieldKind::Skip => FieldType::Skip,
    }
}

/// The kind a field type number stands for. An unset type is character data.
pub open spec fn kind_of(number: i32) -> Result<FieldKind, Failure> {
    match FieldType::from_number(number) {
        Some(FieldType::Unspecified) => Ok(FieldKind::Text),
        Some(FieldType::String) => Ok(FieldKind::Text),
        Some(FieldType::Integer) => Ok(FieldKind::Integer),
        Some(FieldType::UnsignedInteger) => Ok(FieldKind::UnsignedInteger),
        Some(FieldType::PackedDecimal) => Ok(FieldKind::PackedDecimal),
        Some(FieldType::ZonedDecimal) => Ok(FieldKind::ZonedDecimal),
        Some(FieldType::Skip) => Ok(FieldKind::Skip),
        None => Err(
            Failure::Unsupported(
                "field type "@ + signed_decimal(number as int)
                    + " is not one this build decodes"@,
            ),
        ),
    }
}

/// Whether a kind produces a number rather than text.
pub open spec fn numeric(kind: FieldKind) -> bool {
    ||| kind == FieldKind::Integer
    ||| kind == FieldKind::UnsignedInteger
    ||| kind == FieldKind::PackedDecimal
    ||| kind == FieldKind::ZonedDecimal
}

impl FieldKind {
    /// The message value this kind reports as.
    pub fn to_proto(self) -> (r: FieldType)
        ensures
            r == proto_type(self),
    {
        match self {
            FieldKind::Text => FieldType::String,
            FieldKind::Integer => FieldType::Integer,
            FieldKind::UnsignedInteger => FieldType::UnsignedInteger,
            FieldKind::PackedDecimal => FieldType::PackedDecimal,
            FieldKind::ZonedDecimal => FieldType::ZonedDecimal,
            FieldKind::Skip => FieldType::Skip,
        }
    }

    /// Resolve a field type number. One this build does not know is how a
    /// newer client's field type surfaces.
    pub fn from_proto(value: i32) -> (r: Result<Self, ParseError>)
        ensures
            match r {
                Ok(kind) => kind_of(value) == Ok::<_, Failure>(kind),
                Err(error) => kind_of(value) == Err::<FieldKind, _>(error@),
            },
    {
        match FieldType::from_number(value) {
            Some(FieldType::Unspecified) => Ok(FieldKind::Text),
            Some(FieldType::String) => Ok(FieldKind::Text),
            Some(FieldType::Integer) => Ok(FieldKind::Integer),
            Some(FieldType::UnsignedInteger) => Ok(FieldKind::UnsignedInteger),
            Some(FieldType::PackedDecimal) => Ok(FieldKind::PackedDecimal),
            Some(FieldType::ZonedDecimal) => Ok(FieldKind::ZonedDecimal),
            Some(FieldType::Skip) => Ok(FieldKind::Skip),
            None => Err(
                ParseError::unsupported(
                    cat3(
                        "field type ",
                        &signed_text(value as i128),
                        " is not one this build decodes",
                    ),
                ),
            ),
        }
    }

    /// Whether the kind produces a number rather than text.
    pub fn is_numeric(self) -> (r: bool)
        ensures
            r == numeric(self),
    {
        match self {
            FieldKind::Integer => true,
            FieldKind::UnsignedInteger => true,
            FieldKind::PackedDecimal => true,
            FieldKind::ZonedDecimal => true,
            FieldKind::Text => false,
            FieldKind::Skip => false,
        }
    }
}

/// One COBOL level-88 condition name and the values that make it true.
///
/// A copybook has no other way to declare which values of a field are legal,
/// so this is the closest thing to an enumeration the layout can carry.
#[derive(Debug, Clone, PartialEq, Eq)]
pub struct ConditionName {
    /// The condition name as it was declared.
    pub name: String,
    /// Values of the parent field the condition is true for, a range written
    /// as `low THRU high`.
    pub values: Vec<String>,
    /// The same values, with the bounds of a range apart.
    pub ranges: Vec<ValueRange>,
}

impl DeepView for ConditionName {
    type V = ConditionNameModel;

    open spec fn deep_view(&self) -> ConditionNameModel {
        ConditionNameModel {
            name: self.name.deep_view(),
            values: self.values.deep_view(),
            ranges: self.ranges.deep_view(),
        }
    }
}

/// Copy a list of strings.
pub(crate) fn copy_strings(strings: &Vec<String>) -> (r: Vec<String>)
    ensures
        r.deep_view() == strings.deep_view(),
{
    let mut out: Vec<String> = Vec::new();
    let mut i: usize = 0;
    while i < strings.len()
        invariant
            i <= strings@.len(),
            out@.len() == i,
            forall|j: int|
                0 <= j < i ==> (#[trigger] out@[j]).deep_view() == strings.deep_view()[j],
        decreases strings@.len() - i,
    {
        out.push(strings[i].clone());
        i = i + 1;
    }
    proof {
        assert(out.deep_view() =~= strings.deep_view());
    }
    out
}

/// Copy an optional string.
pub(crate) fn copy_text(text: &Option<String>) -> (r: Option<String>)
    ensures
        r.deep_view() == text.deep_view(),
{
    match text {
        Some(text) => Some(text.clone()),
        None => None,
    }
}

/// Copy a list of value ranges.
pub(crate) fn copy_ranges(ranges: &Vec<ValueRange>) -> (r: Vec<ValueRange>)
    ensures
        r.deep_view() == ranges.deep_view(),
{
    let mut out: Vec<ValueRange> = Vec::new();
    let mut i: usize = 0;
    while i < ranges.len()
        invariant
            i <= ranges@.len(),
            out@.len() == i,
            forall|j: int|
                0 <= j < i ==> (#[trigger] out@[j]).deep_view() == ranges.deep_view()[j],
        decreases ranges@.len() - i,
    {
        let range: &ValueRange = &ranges[i];
        out.push(ValueRange { low: range.low.clone(), high: copy_text(&range.high) });
        i = i + 1;
    }
    proof {
        assert(out.deep_view() =~= ranges.deep_view());
    }
    out
}

/// Copy a list of condition names.
pub(crate) fn copy_conditions(conditions: &Vec<ConditionName>) -> (r: Vec<ConditionName>)
    ensures
        r.deep_view() == conditions.deep_view(),
{
    let mut out: Vec<ConditionName> = Vec::new();
    let mut i: usize = 0;
    while i < conditions.len()
        invariant
            i <= conditions@.len(),
            out@.len() == i,
            forall|j: int|
                0 <= j < i ==> (#[trigger] out@[j]).deep_view() == conditions.deep_view()[j],
        decreases conditions@.len() - i,
    {
        let condition: &ConditionName = &conditions[i];
        out.push(
            ConditionName {
                name: condition.name.clone(),
                values: copy_strings(&condition.values),
                ranges: copy_ranges(&condition.ranges),
            },
        );
        i = i + 1;
    }
    proof {
        assert(out.deep_view() =~= conditions.deep_view());
    }
    out
}

impl ConditionName {
    /// The message view of this condition name.
    pub fn to_proto(&self) -> (r: ProtoConditionName)
        ensures
            r.deep_view() == self.deep_view(),
    {
        ProtoConditionName {
            name: self.name.clone(),
            values: copy_strings(&self.values),
            ranges: copy_ranges(&self.ranges),
        }
    }
}

/// What a copybook says about a field beyond the bytes it occupies: where it
/// sits in the level tree, which occurrence of a repeating item it is, and the
/// condition names declared under it.
///
/// Empty for the message and JSON layout forms, which describe a flat field
/// list with no hierarchy: those set only the path, to the field name, so a
/// consumer never has to special-case the flat forms.
#[derive(Debug, Clone, Default, PartialEq, Eq)]
pub struct Declaration {
    /// COBOL level number of the item, when the source had levels.
    pub level: Option<u32>,
    /// Dotted qualification path, record name first.
    pub path: String,
    /// One-based occurrence index of an `OCCURS` expansion.
    pub occurs_index: Option<u32>,
    /// Unsubscripted name of the repeating item.
    pub occurs_group: Option<String>,
    /// Level-88 condition names declared under the field.
    pub conditions: Vec<ConditionName>,
}

/// [`Declaration`] as contracts speak of it.
#[verifier::ext_equal]
pub struct DeclarationModel {
    /// See [`Declaration::level`].
    pub level: Option<u32>,
    /// See [`Declaration::path`].
    pub path: Seq<char>,
    /// See [`Declaration::occurs_index`].
    pub occurs_index: Option<u32>,
    /// See [`Declaration::occurs_group`].
    pub occurs_group: Option<Seq<char>>,
    /// See [`Declaration::conditions`].
    pub conditions: Seq<ConditionNameModel>,
}

impl DeepView for Declaration {
    type V = DeclarationModel;

    open spec fn deep_view(&self) -> DeclarationModel {
        DeclarationModel {
            level: self.level.deep_view(),
            path: self.path.deep_view(),
            occurs_index: self.occurs_index.deep_view(),
            occurs_group: self.occurs_group.deep_view(),
            conditions: self.conditions.deep_view(),
        }
    }
}

/// One fixed-width field, with its offset already resolved.
#[derive(Debug, Clone, PartialEq, Eq)]
pub struct Field {
    /// Column name of the decoded field.
    pub name: String,
    /// Byte offset within the record body (or within the prefix).
    pub offset: u32,
    /// Field width in bytes.
    pub size: u32,
    /// How the bytes are decoded.
    pub kind: FieldKind,
    /// Implied decimal digits.
    pub scale: u32,
    /// Original COBOL picture clause, for diagnostics.
    pub picture: String,
    /// What the source declaration said beyond the bytes.
    pub declaration: Declaration,
}

/// [`Field`] as contracts speak of it.
#[verifier::ext_equal]
pub struct FieldModel {
    /// See [`Field::name`].
    pub name: Seq<char>,
    /// See [`Field::offset`].
    pub offset: u32,
    /// See [`Field::size`].
    pub size: u32,
    /// See [`Field::kind`].
    pub kind: FieldKind,
    /// See [`Field::scale`].
    pub scale: u32,
    /// See [`Field::picture`].
    pub picture: Seq<char>,
    /// See [`Field::declaration`].
    pub declaration: DeclarationModel,
}

impl DeepView for Field {
    type V = FieldModel;

    open spec fn deep_view(&self) -> FieldModel {
        FieldModel {
            name: self.name.deep_view(),
            offset: self.offset,
            size: self.size,
            kind: self.kind,
            scale: self.scale,
            picture: self.picture.deep_view(),
            declaration: self.declaration.deep_view(),
        }
    }
}

/// One record schema.
#[derive(Debug, Clone, PartialEq, Eq)]
pub struct RecordLayout {
    /// Name of the schema.
    pub name: String,
    /// Fields in physical order, fillers included.
    pub fields: Vec<Field>,
    /// Total body length in bytes.
    pub size: u32,
    /// Record-type prefix value that selects this schema.
    pub selector: Option<String>,
}

/// [`RecordLayout`] as contracts speak of it.
#[verifier::ext_equal]
pub struct RecordLayoutModel {
    /// See [`RecordLayout::name`].
    pub name: Seq<char>,
    /// See [`RecordLayout::fields`].
    pub fields: Seq<FieldModel>,
    /// See [`RecordLayout::size`].
    pub size: u32,
    /// See [`RecordLayout::selector`].
    pub selector: Option<Seq<char>>,
}

impl DeepView for RecordLayout {
    type V = RecordLayoutModel;

    open spec fn deep_view(&self) -> RecordLayoutModel {
        RecordLayoutModel {
            name: self.name.deep_view(),
            fields: self.fields.deep_view(),
            size: self.size,
            selector: self.selector.deep_view(),
        }
    }
}

/// A validated, fully resolved layout.
#[derive(Debug, Clone, PartialEq, Eq)]
pub struct Layout {
    /// Record schemas in layout order.
    pub records: Vec<RecordLayout>,
    /// Free-text description.
    pub description: String,
    /// Bytes skipped at the start of the input.
    pub header_size: u32,
    /// Bytes held back and skipped at the end of the input.
    pub footer_size: u32,
    /// Prefix field holding the total record length, prefix included.
    pub record_length_field: Option<Field>,
    /// Prefix field selecting the record schema.
    pub record_type_field: Option<Field>,
    /// Total prefix width, the sum of the prefix fields present.
    pub prefix_size: u32,
    /// Which request form the layout came from.
    pub source: LayoutSource,
}

/// [`Layout`] as contracts speak of it.
#[verifier::ext_equal]
pub struct LayoutModel {
    /// See [`Layout::records`].
    pub records: Seq<RecordLayoutModel>,
    /// See [`Layout::description`].
    pub description: Seq<char>,
    /// See [`Layout::header_size`].
    pub header_size: u32,
    /// See [`Layout::footer_size`].
    pub footer_size: u32,
    /// See [`Layout::record_length_field`].
    pub record_length_field: Option<FieldModel>,
    /// See [`Layout::record_type_field`].
    pub record_type_field: Option<FieldModel>,
    /// See [`Layout::prefix_size`].
    pub prefix_size: u32,
    /// See [`Layout::source`].
    pub source: LayoutSource,
}

impl DeepView for Layout {
    type V = LayoutModel;

    open spec fn deep_view(&self) -> LayoutModel {
        LayoutModel {
            records: self.records.deep_view(),
            description: self.description.deep_view(),
            header_size: self.header_size,
            footer_size: self.footer_size,
            record_length_field: self.record_length_field.deep_view(),
            record_type_field: self.record_type_field.deep_view(),
            prefix_size: self.prefix_size,
            source: self.source,
        }
    }
}

/// A field as it arrives, before offsets are resolved and bounds are checked:
/// the shape that the layout message, the JSON form and the copybook compiler
/// all produce.
#[derive(Debug)]
pub struct RawField {
    /// Column name.
    pub name: String,
    /// Declared width in bytes.
    pub size: u32,
    /// Declared type.
    pub kind: FieldKind,
    /// Declared scale.
    pub scale: u32,
    /// Picture clause, when the source carried one.
    pub picture: String,
    /// Explicit offset, when the source carried one.
    pub offset: Option<u32>,
    /// Levels, paths, occurrences and conditions, when the source had them.
    pub declaration: Declaration,
}

/// [`RawField`] as contracts speak of it.
#[verifier::ext_equal]
pub struct RawFieldModel {
    /// See [`RawField::name`].
    pub name: Seq<char>,
    /// See [`RawField::size`].
    pub size: u32,
    /// See [`RawField::kind`].
    pub kind: FieldKind,
    /// See [`RawField::scale`].
    pub scale: u32,
    /// See [`RawField::picture`].
    pub picture: Seq<char>,
    /// See [`RawField::offset`].
    pub offset: Option<u32>,
    /// See [`RawField::declaration`].
    pub declaration: DeclarationModel,
}

impl DeepView for RawField {
    type V = RawFieldModel;

    open spec fn deep_view(&self) -> RawFieldModel {
        RawFieldModel {
            name: self.name.deep_view(),
            size: self.size,
            kind: self.kind,
            scale: self.scale,
            picture: self.picture.deep_view(),
            offset: self.offset.deep_view(),
            declaration: self.declaration.deep_view(),
        }
    }
}

/// A record as it arrives.
#[derive(Debug)]
pub struct RawRecord {
    /// Schema name, empty for the default.
    pub name: String,
    /// Fields in physical order.
    pub fields: Vec<RawField>,
    /// Record-type selector.
    pub selector: Option<String>,
}

/// [`RawRecord`] as contracts speak of it.
#[verifier::ext_equal]
pub struct RawRecordModel {
    /// See [`RawRecord::name`].
    pub name: Seq<char>,
    /// See [`RawRecord::fields`].
    pub fields: Seq<RawFieldModel>,
    /// See [`RawRecord::selector`].
    pub selector: Option<Seq<char>>,
}

impl DeepView for RawRecord {
    type V = RawRecordModel;

    open spec fn deep_view(&self) -> RawRecordModel {
        RawRecordModel {
            name: self.name.deep_view(),
            fields: self.fields.deep_view(),
            selector: self.selector.deep_view(),
        }
    }
}

/// A whole layout as it arrives.
#[derive(Debug)]
pub struct RawLayout {
    /// Record schemas.
    pub records: Vec<RawRecord>,
    /// Free-text description.
    pub description: String,
    /// Leading bytes to skip.
    pub header_size: u32,
    /// Trailing bytes to skip.
    pub footer_size: u32,
    /// Record-length prefix field.
    pub record_length_field: Option<RawField>,
    /// Record-type prefix field.
    pub record_type_field: Option<RawField>,
}

/// [`RawLayout`] as contracts speak of it.
#[verifier::ext_equal]
pub struct RawLayoutModel {
    /// See [`RawLayout::records`].
    pub records: Seq<RawRecordModel>,
    /// See [`RawLayout::description`].
    pub description: Seq<char>,
    /// See [`RawLayout::header_size`].
    pub header_size: u32,
    /// See [`RawLayout::footer_size`].
    pub footer_size: u32,
    /// See [`RawLayout::record_length_field`].
    pub record_length_field: Option<RawFieldModel>,
    /// See [`RawLayout::record_type_field`].
    pub record_type_field: Option<RawFieldModel>,
}

impl DeepView for RawLayout {
    type V = RawLayoutModel;

    open spec fn deep_view(&self) -> RawLayoutModel {
        RawLayoutModel {
            records: self.records.deep_view(),
            description: self.description.deep_view(),
            header_size: self.header_size,
            footer_size: self.footer_size,
            record_length_field: self.record_length_field.deep_view(),
            record_type_field: self.record_type_field.deep_view(),
        }
    }
}

/// The schema view of a field.
pub open spec fn field_schema(field: FieldModel) -> FieldSchemaModel {
    FieldSchemaModel {
        name: field.name,
        offset: field.offset,
        size: field.size,
        field_type: proto_type(field.kind).number(),
        scale: field.scale,
        picture: field.picture,
        level: field.declaration.level,
        path: field.declaration.path,
        occurs_index: field.declaration.occurs_index,
        occurs_group: field.declaration.occurs_group,
        conditions: field.declaration.conditions,
    }
}

/// The schema view of a record.
pub open spec fn record_schema(record: RecordLayoutModel) -> RecordSchemaModel {
    RecordSchemaModel {
        name: record.name,
        record_length: record.size,
        fields: Seq::new(record.fields.len(), |i: int| field_schema(record.fields[i])),
        selector: record.selector,
    }
}

/// The opening event of a parse with a layout.
pub open spec fn layout_info(layout: LayoutModel, encoding: Seq<char>) -> LayoutInfoModel {
    LayoutInfoModel {
        encoding,
        records: Seq::new(layout.records.len(), |i: int| record_schema(layout.records[i])),
        description: layout.description,
        header_size: layout.header_size,
        footer_size: layout.footer_size,
        prefix_size: layout.prefix_size,
        source: layout.source.number(),
    }
}

impl Field {
    /// The schema view of this field.
    pub fn to_schema(&self) -> (r: FieldSchema)
        ensures
            r.deep_view() == field_schema(self.deep_view()),
    {
        let mut conditions: Vec<ProtoConditionName> = Vec::new();
        let mut i: usize = 0;
        while i < self.declaration.conditions.len()
            invariant
                i <= self.declaration.conditions@.len(),
                conditions@.len() == i,
                forall|j: int|
                    0 <= j < i ==> (#[trigger] conditions@[j]).deep_view() == self.declaration.conditions.deep_view()[j],
            decreases self.declaration.conditions@.len() - i,
        {
            conditions.push(self.declaration.conditions[i].to_proto());
            i = i + 1;
        }
        proof {
            assert(conditions.deep_view() =~= self.declaration.conditions.deep_view());
        }
        FieldSchema {
            name: self.name.clone(),
            offset: self.offset,
            size: self.size,
            field_type: self.kind.to_proto().number(),
            scale: self.scale,
            picture: self.picture.clone(),
            level: self.declaration.level,
            path: self.declaration.path.clone(),
            occurs_index: self.declaration.occurs_index,
            occurs_group: copy_text(&self.declaration.occurs_group),
            conditions,
        }
    }
}

impl RecordLayout {
    /// The schema view of this record.
    pub fn to_schema(&self) -> (r: RecordSchema)
        ensures
            r.deep_view() == record_schema(self.deep_view()),
    {
        let mut fields: Vec<FieldSchema> = Vec::new();
        let mut i: usize = 0;
        while i < self.fields.len()
            invariant
                i <= self.fields@.len(),
                fields@.len() == i,
                forall|j: int|
                    0 <= j < i ==> (#[trigger] fields@[j]).deep_view() == record_schema(self.deep_view()).fields[j],
            decreases self.fields@.len() - i,
        {
            fields.push(self.fields[i].to_schema());
            i = i + 1;
        }
        proof {
            assert(fields.deep_view() =~= record_schema(self.deep_view()).fields);
        }
        RecordSchema {
            name: self.name.clone(),
            record_length: self.size,
            fields,
            selector: copy_text(&self.selector),
        }
    }
}

/// The first schema at or after `from` whose selector is the given value, or
/// the number of schemas when there is none.
pub open spec fn schema_with_selector(
    records: Seq<RecordLayoutModel>,
    value: Option<Seq<char>>,
    from: int,
) -> int
    decreases records.len() - from,
{
    if from >= records.len() {
        records.len() as int
    } else if records[from].selector == value {
        from
    } else {
        schema_with_selector(records, value, from + 1)
    }
}

/// The schema a record-type value selects, or the number of schemas when it
/// selects none. With no record-type field the first schema matches
/// everything.
pub open spec fn selected_schema(layout: LayoutModel, record_type: Option<Seq<char>>) -> int {
    if layout.record_type_field is None {
        0
    } else {
        schema_with_selector(layout.records, record_type, 0)
    }
}

impl Layout {
    /// Find the schema a record-type value selects.
    pub fn select_index(&self, record_type: Option<&str>) -> (r: Option<usize>)
        ensures
            ({
                let index = selected_schema(self.deep_view(), record_type.deep_view());
                match r {
                    Some(i) => i == index && i < self.records@.len(),
                    None => index >= self.records@.len(),
                }
            }),
    {
        if self.record_type_field.is_none() {
            return if self.records.len() == 0 {
                None
            } else {
                Some(0)
            };
        }
        let ghost all = self.deep_view().records;
        let mut i: usize = 0;
        while i < self.records.len()
            invariant
                i <= self.records@.len(),
                self.record_type_field is Some,
                all == self.deep_view().records,
                schema_with_selector(all, record_type.deep_view(), 0) == schema_with_selector(
                    all,
                    record_type.deep_view(),
                    i as int,
                ),
            decreases self.records@.len() - i,
        {
            let matches: bool = match (&self.records[i].selector, record_type) {
                (Some(selector), Some(value)) => same(selector, value),
                (None, None) => true,
                _ => false,
            };
            proof {
                assert(all[i as int] == self.records@[i as int].deep_view());
            }
            if matches {
                return Some(i);
            }
            i = i + 1;
        }
        None
    }

    /// Resolve the schema a record-type value selects.
    ///
    /// With no record-type field there is exactly one schema and it matches
    /// everything.
    pub fn select(&self, record_type: Option<&str>) -> (r: Option<&RecordLayout>)
        ensures
            ({
                let index = selected_schema(self.deep_view(), record_type.deep_view());
                match r {
                    Some(record) => index < self.records@.len() && *record == self.records@[index],
                    None => index >= self.records@.len(),
                }
            }),
    {
        match self.select_index(record_type) {
            Some(i) => Some(&self.records[i]),
            None => None,
        }
    }

    /// The opening event of a parse with this layout, sent before any input
    /// byte is read.
    pub fn to_layout_info(&self, encoding: &str) -> (r: LayoutInfo)
        ensures
            r.deep_view() == layout_info(self.deep_view(), encoding@),
    {
        let mut records: Vec<RecordSchema> = Vec::new();
        let mut i: usize = 0;
        while i < self.records.len()
            invariant
                i <= self.records@.len(),
                records@.len() == i,
                forall|j: int|
                    0 <= j < i ==> (#[trigger] records@[j]).deep_view() == layout_info(self.deep_view(), encoding@).records[j],
            decreases self.records@.len() - i,
        {
            records.push(self.records[i].to_schema());
            i = i + 1;
        }
        proof {
            assert(records.deep_view() =~= layout_info(self.deep_view(), encoding@).records);
        }
        LayoutInfo {
            encoding: encoding.to_owned(),
            records,
            description: self.description.clone(),
            header_size: self.header_size,
            footer_size: self.footer_size,
            prefix_size: self.prefix_size,
            source: self.source.number(),
        }
    }
}

/// The field types of the JSON form.
#[derive(Debug, Clone, Copy, PartialEq, Eq)]
pub enum JsonFieldType {
    /// `USAGE DISPLAY` character data. The default.
    String,
    /// Signed binary.
    Integer,
    /// Unsigned binary.
    UnsignedInteger,
    /// `COMP-3`.
    PackedDecimal,
    /// Signed display numeric.
    ZonedDecimal,
    /// Filler.
    Skip,
}

/// A field of the JSON form.
#[derive(Debug, Clone, PartialEq, Eq)]
pub struct JsonField {
    /// Column name.
    pub name: String,
    /// Width in bytes.
    pub size: u32,
    /// Storage type; absent means character data.
    pub field_type: JsonFieldType,
    /// Implied decimal digits; absent means none.
    pub scale: u32,
    /// Byte offset, as an optional cross-check.
    pub offset: Option<u32>,
    /// Picture clause, carried for diagnostics.
    pub picture: Option<String>,
}

/// A record schema of the JSON form.
#[derive(Debug, Clone, PartialEq, Eq)]
pub struct JsonRecord {
    /// Fields in physical record order.
    pub fields: Vec<JsonField>,
    /// Schema name.
    pub name: Option<String>,
    /// Record-type selector.
    pub selector: Option<String>,
}

/// A layout in its JSON form.
#[derive(Debug, Clone, PartialEq, Eq)]
pub struct JsonLayout {
    /// Record schemas.
    pub records: Vec<JsonRecord>,
    /// Free-text description.
    pub description: String,
    /// Leading bytes to skip.
    pub header_size: u32,
    /// Trailing bytes to skip.
    pub footer_size: u32,
    /// Record-length prefix field.
    pub record_length_field: Option<JsonField>,
    /// Record-type prefix field.
    pub record_type_field: Option<JsonField>,
}

/// What reading the bytes of a JSON layout gave.
#[derive(Debug, Clone, PartialEq, Eq)]
pub enum JsonForm {
    /// The layout they spell.
    Parsed(JsonLayout),
    /// Why they spell none.
    Malformed(String),
}

/// Whether the decoders take every value a field can hold.
pub open spec fn field_decodable(field: FieldModel) -> bool {
    &&& field.kind == FieldKind::PackedDecimal ==> field.size <= MAX_PACKED_BYTES
    &&& field.kind == FieldKind::ZonedDecimal ==> field.size <= MAX_ZONED_BYTES
}

/// The width of an optional prefix field.
pub open spec fn optional_width(field: Option<FieldModel>) -> nat {
    match field {
        Some(field) => field.size as nat,
        None => 0,
    }
}

/// Whether an input can be walked with a layout: the prefix is as wide as its
/// fields, no field is wider than its decoder takes, and every record takes up
/// some of the input. Every layout that [`resolve`] accepts is decodable.
pub open spec fn decodable(layout: LayoutModel) -> bool {
    &&& layout.prefix_size == optional_width(layout.record_length_field) + optional_width(
        layout.record_type_field,
    )
    &&& layout.record_length_field matches Some(field) ==> field_decodable(field)
    &&& layout.record_type_field matches Some(field) ==> field_decodable(field)
    &&& forall|i: int, k: int|
        0 <= i < layout.records.len() && 0 <= k < layout.records[i].fields.len()
            ==> field_decodable(#[trigger] layout.records[i].fields[k])
    &&& layout.prefix_size == 0 ==> forall|i: int|
        0 <= i < layout.records.len() ==> (#[trigger] layout.records[i]).size > 0
}

/// The raw layout a request carries, lifted from its form.
pub open spec fn requested(source: FormSource) -> Result<RawLayoutModel, Failure> {
    match source {
        FormSource::Layout(layout) => lifted_layout(layout),
        FormSource::LayoutJson(form) => json_form(form),
        FormSource::Copybook(source) => compiled(source@),
    }
}

/// Which form a request carries its layout in.
pub open spec fn source_of(source: FormSource) -> LayoutSource {
    match source {
        FormSource::Layout(_) => LayoutSource::Proto,
        FormSource::LayoutJson(_) => LayoutSource::Json,
        FormSource::Copybook(_) => LayoutSource::Copybook,
    }
}

/// The layout a request resolves to, or why it resolves to none.
pub open spec fn resolved(options: ParseOptions) -> Result<LayoutModel, Failure> {
    match options.layout_source {
        None => Err(
            Failure::Invalid(
                "an EBCDIC file is an opaque code page without its copybook: set exactly one of ParseOptions.layout, ParseOptions.layout_json, or ParseOptions.copybook"@,
            ),
        ),
        Some(source) => match requested(source) {
            Err(failure) => Err(failure),
            Ok(raw) => validated(raw, source_of(source)),
        },
    }
}

/// Whether the copybook a request carries, if it carries one, has no character
/// astride the end of column 72 in a line that is read.
pub open spec fn columns_are_sound(options: ParseOptions) -> bool {
    options.layout_source matches Some(FormSource::Copybook(source)) ==> columns_align(source@)
}

/// Whether a copybook that a request carries has no character astride the end
/// of column 72 in a line that is read, as [`resolve`] requires.
pub fn check_options(options: &ParseOptions) -> (r: bool)
    ensures
        r == columns_are_sound(*options),
{
    match &options.layout_source {
        Some(FormSource::Copybook(source)) => check_columns(source),
        _ => true,
    }
}

/// Build the normalized layout from the options of a request.
pub fn resolve(options: &ParseOptions) -> (r: Result<Layout, ParseError>)
    requires
        columns_are_sound(*options),
    ensures
        outcome(r) == resolved(*options),
        options.layout_source matches Some(FormSource::Copybook(source)) ==> reads_ascii(source@),
        r matches Ok(layout) ==> decodable(layout.deep_view()),
{
    let source: &FormSource = match &options.layout_source {
        None => {
            return Err(
                ParseError::invalid(
                    "an EBCDIC file is an opaque code page without its copybook: set exactly one of ParseOptions.layout, ParseOptions.layout_json, or ParseOptions.copybook".to_owned(),
                ),
            );
        },
        Some(source) => source,
    };
    let (lifted, form): (Result<RawLayout, ParseError>, LayoutSource) = match source {
        FormSource::Layout(layout) => (from_proto(layout), LayoutSource::Proto),
        FormSource::LayoutJson(form) => (from_json(form), LayoutSource::Json),
        FormSource::Copybook(source) => (compile(source), LayoutSource::Copybook),
    };
    match lifted {
        Err(error) => Err(error),
        Ok(raw) => {
            proof {
                law_validated_layouts_are_decodable(raw.deep_view(), form);
            }
            validate(raw, form)
        },
    }
}

} // verus!
