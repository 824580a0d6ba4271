//! The messages of the `ai.pipestream.ebcdic.v1` package, as plain values.
//!
//! A message that a contract describes as a result has a ghost twin, its
//! model, in which text is a sequence of characters and a list is a sequence
//! of models; `deep_view` maps one to the other.

pub mod cell;
pub mod parse_ebcdic_request;
pub mod parse_ebcdic_response;
pub mod parse_options;

use vstd::prelude::*;

verus! {

/// How the bytes of one field are decoded.
#[derive(Clone, Copy, Debug, Default, PartialEq, Eq)]
pub enum FieldType {
    /// No type declared: character data.
    #[default]
    Unspecified,
    /// `USAGE DISPLAY` character data.
    String,
    /// Signed big-endian binary.
    Integer,
    /// Unsigned big-endian binary.
    UnsignedInteger,
    /// `COMP-3` packed decimal.
    PackedDecimal,
    /// Signed `USAGE DISPLAY` numeric.
    ZonedDecimal,
    /// Filler: bytes consumed, no cell emitted.
    Skip,
}

impl FieldType {
    /// The number that stands for the value in a message.
    pub open spec fn spec_number(self) -> i32 {
        match self {
            FieldType::Unspecified => 0,
            FieldType::String => 1,
            FieldType::Integer => 2,
            FieldType::UnsignedInteger => 3,
            FieldType::PackedDecimal => 4,
            FieldType::ZonedDecimal => 5,
            FieldType::Skip => 6,
        }
    }

    /// The number that stands for the value in a message.
    #[verifier::when_used_as_spec(spec_number)]
    pub fn number(self) -> (r: i32)
        ensures
            r == self.number(),
    {
        match self {
            FieldType::Unspecified => 0,
            FieldType::String => 1,
            FieldType::Integer => 2,
            FieldType::UnsignedInteger => 3,
            FieldType::PackedDecimal => 4,
            FieldType::ZonedDecimal => 5,
            FieldType::Skip => 6,
        }
    }

    /// The value a number stands for, when it stands for one.
    pub open spec fn spec_from_number(number: i32) -> Option<FieldType> {
        if number == 0 {
            Some(FieldType::Unspecified)
        } else if number == 1 {
            Some(FieldType::String)
        } else if number == 2 {
            Some(FieldType::Integer)
        } else if number == 3 {
            Some(FieldType::UnsignedInteger)
        } else if number == 4 {
            Some(FieldType::PackedDecimal)
        } else if number == 5 {
            Some(FieldType::ZonedDecimal)
        } else if number == 6 {
            Some(FieldType::Skip)
        } else {
            None
        }
    }

    /// The value a number stands for, when it stands for one.
    #[verifier::when_used_as_spec(spec_from_number)]
    pub fn from_number(number: i32) -> (r: Option<FieldType>)
        ensures
            r == FieldType::from_number(number),
    {
        if number == 0 {
            Some(FieldType::Unspecified)
        } else if number == 1 {
            Some(FieldType::String)
        } else if number == 2 {
            Some(FieldType::Integer)
        } else if number == 3 {
            Some(FieldType::UnsignedInteger)
        } else if number == 4 {
            Some(FieldType::PackedDecimal)
        } else if number == 5 {
            Some(FieldType::ZonedDecimal)
        } else if number == 6 {
            Some(FieldType::Skip)
        } else {
            None
        }
    }
}

/// Which form of the request a layout came from.
#[derive(Clone, Copy, Debug, Default, PartialEq, Eq)]
pub enum LayoutSource {
    /// Not stated.
    #[default]
    Unspecified,
    /// The layout message.
    Proto,
    /// The layout as JSON.
    Json,
    /// COBOL copybook source.
    Copybook,
}

impl LayoutSource {
    /// The number that stands for the value in a message.
    pub open spec fn spec_number(self) -> i32 {
        match self {
            LayoutSource::Unspecified => 0,
            LayoutSource::Proto => 1,
            LayoutSource::Json => 2,
            LayoutSource::Copybook => 3,
        }
    }

    /// The number that stands for the value in a message.
    #[verifier::when_used_as_spec(spec_number)]
    pub fn number(self) -> (r: i32)
        ensures
            r == self.number(),
    {
        match self {
            LayoutSource::Unspecified => 0,
            LayoutSource::Proto => 1,
            LayoutSource::Json => 2,
            LayoutSource::Copybook => 3,
        }
    }

    /// The value a number stands for, when it stands for one.
    pub open spec fn spec_from_number(number: i32) -> Option<LayoutSource> {
        if number == 0 {
            Some(LayoutSource::Unspecified)
        } else if number == 1 {
            Some(LayoutSource::Proto)
        } else if number == 2 {
            Some(LayoutSource::Json)
        } else if number == 3 {
            Some(LayoutSource::Copybook)
        } else {
            None
        }
    }

    /// The value a number stands for, when it stands for one.
    #[verifier::when_used_as_spec(spec_from_number)]
    pub fn from_number(number: i32) -> (r: Option<LayoutSource>)
        ensures
            r == LayoutSource::from_number(number),
    {
        if number == 0 {
            Some(LayoutSource::Unspecified)
        } else if number == 1 {
            Some(LayoutSource::Proto)
        } else if number == 2 {
            Some(LayoutSource::Json)
        } else if number == 3 {
            Some(LayoutSource::Copybook)
        } else {
            None
        }
    }
}

/// What a warning of the trailer is about.
#[derive(Clone, Copy, Debug, Default, PartialEq, Eq)]
pub enum WarningCode {
    /// Not stated.
    #[default]
    Unspecified,
    /// The input ends inside a record.
    TrailingPartialRecord,
    /// The walk stopped at the requested number of records.
    MaxRecordsReached,
    /// The input is shorter than its header and footer.
    InputShorterThanBoundaries,
    /// The document holds fewer rows than were sent.
    DocumentRowsTruncated,
}

impl WarningCode {
    /// The number that stands for the value in a message.
    pub open spec fn spec_number(self) -> i32 {
        match self {
            WarningCode::Unspecified => 0,
            WarningCode::TrailingPartialRecord => 1,
            WarningCode::MaxRecordsReached => 2,
            WarningCode::InputShorterThanBoundaries => 3,
            WarningCode::DocumentRowsTruncated => 4,
        }
    }

    /// The number that stands for the value in a message.
    #[verifier::when_used_as_spec(spec_number)]
    pub fn number(self) -> (r: i32)
        ensures
            r == self.number(),
    {
        match self {
            WarningCode::Unspecified => 0,
            WarningCode::TrailingPartialRecord => 1,
            WarningCode::MaxRecordsReached => 2,
            WarningCode::InputShorterThanBoundaries => 3,
            WarningCode::DocumentRowsTruncated => 4,
        }
    }

    /// The value a number stands for, when it stands for one.
    pub open spec fn spec_from_number(number: i32) -> Option<WarningCode> {
        if number == 0 {
            Some(WarningCode::Unspecified)
        } else if number == 1 {
            Some(WarningCode::TrailingPartialRecord)
        } else if number == 2 {
            Some(WarningCode::MaxRecordsReached)
        } else if number == 3 {
            Some(WarningCode::InputShorterThanBoundaries)
        } else if number == 4 {
            Some(WarningCode::DocumentRowsTruncated)
        } else {
            None
        }
    }

    /// The value a number stands for, when it stands for one.
    #[verifier::when_used_as_spec(spec_from_number)]
    pub fn from_number(number: i32) -> (r: Option<WarningCode>)
        ensures
            r == WarningCode::from_number(number),
    {
        if number == 0 {
            Some(WarningCode::Unspecified)
        } else if number == 1 {
            Some(WarningCode::TrailingPartialRecord)
        } else if number == 2 {
            Some(WarningCode::MaxRecordsReached)
        } else if number == 3 {
            Some(WarningCode::InputShorterThanBoundaries)
        } else if number == 4 {
            Some(WarningCode::DocumentRowsTruncated)
        } else {
            None
        }
    }
}

/// One fixed-width field as a layout message declares it.
#[derive(Debug, Clone, Default, PartialEq)]
pub struct EbcdicField {
    /// Column name.
    pub name: String,
    /// Width in bytes.
    pub size: u32,
    /// The [`FieldType`] number.
    pub field_type: i32,
    /// Implied decimal digits.
    pub scale: u32,
    /// COBOL picture clause, for diagnostics.
    pub picture: String,
    /// Byte offset, when the layout states one.
    pub offset: Option<u32>,
}

/// One record schema as a layout message declares it.
#[derive(Debug, Clone, Default, PartialEq)]
pub struct EbcdicRecordLayout {
    /// Schema name, empty for the default.
    pub name: String,
    /// Fields in physical order.
    pub fields: Vec<EbcdicField>,
    /// Record-type value that selects the schema.
    pub selector: Option<String>,
}

/// A layout message.
#[derive(Debug, Clone, Default, PartialEq)]
pub struct EbcdicLayout {
    /// Record schemas.
    pub records: Vec<EbcdicRecordLayout>,
    /// Free-text description.
    pub description: String,
    /// Bytes to skip at the start of the input.
    pub header_size: u32,
    /// Bytes to skip at the end of the input.
    pub footer_size: u32,
    /// Prefix field holding the total record length.
    pub record_length_field: Option<EbcdicField>,
    /// Prefix field selecting the record schema.
    pub record_type_field: Option<EbcdicField>,
}

/// The options a parse stream opens with.
#[derive(Debug, Clone, Default, PartialEq)]
pub struct ParseOptions {
    /// Code page of the character data; empty for the default.
    pub encoding: String,
    /// The layout, in one of its forms.
    pub layout_source: Option<parse_options::LayoutSource>,
    /// Stop after this many records; zero reads them all.
    pub max_records: u64,
    /// Whether to drop control characters from text; unset means yes.
    pub strip_control_characters: Option<bool>,
    /// Byte cap of the stream in mebibytes; zero for the server's.
    pub max_document_mib: u32,
    /// Fail on a trailing partial record instead of warning.
    pub abort_on_error: bool,
    /// Fold the parse into a document as well.
    pub emit_document: bool,
}

/// One message of the request stream.
#[derive(Debug, Clone, Default, PartialEq)]
pub struct ParseEbcdicRequest {
    /// What the message carries.
    pub frame: Option<parse_ebcdic_request::Frame>,
}

/// The values one literal or one `THRU` pair of a condition stands for.
#[derive(Debug, Clone, Default, PartialEq, Eq)]
pub struct ValueRange {
    /// The literal, or the lower bound.
    pub low: String,
    /// The inclusive upper bound of a `THRU` pair.
    pub high: Option<String>,
}

/// [`ValueRange`] as contracts speak of it.
#[verifier::ext_equal]
pub struct ValueRangeModel {
    /// See [`ValueRange::low`].
    pub low: Seq<char>,
    /// See [`ValueRange::high`].
    pub high: Option<Seq<char>>,
}

impl DeepView for ValueRange {
    type V = ValueRangeModel;

    open spec fn deep_view(&self) -> ValueRangeModel {
        ValueRangeModel {
            low: self.low.deep_view(),
            high: self.high.deep_view(),
        }
    }
}

/// One level-88 condition name and the values that make it true.
#[derive(Debug, Clone, Default, PartialEq, Eq)]
pub struct ConditionName {
    /// The condition name as it was declared.
    pub name: String,
    /// The values, each range written as `low THRU high`.
    pub values: Vec<String>,
    /// The values, with the bounds of a range apart.
    pub ranges: Vec<ValueRange>,
}

/// [`ConditionName`] as contracts speak of it.
#[verifier::ext_equal]
pub struct ConditionNameModel {
    /// See [`ConditionName::name`].
    pub name: Seq<char>,
    /// See [`ConditionName::values`].
    pub values: Seq<Seq<char>>,
    /// See [`ConditionName::ranges`].
    pub ranges: Seq<ValueRangeModel>,
}

impl DeepView for ConditionName {
    type V = ConditionNameModel;

    open spec fn deep_view(&self) -> ConditionNameModel {
        ConditionNameModel {
            name: self.name.deep_view(),
            values: self.values.deep_view(),
            ranges: self.ranges.deep_view(),
        }
    }
}

/// One field of a record schema, as a parse reports it.
#[derive(Debug, Clone, Default, PartialEq)]
pub struct FieldSchema {
    /// Column name.
    pub name: String,
    /// Byte offset within the record body.
    pub offset: u32,
    /// Width in bytes.
    pub size: u32,
    /// The [`FieldType`] number.
    pub field_type: i32,
    /// Implied decimal digits.
    pub scale: u32,
    /// COBOL picture clause.
    pub picture: String,
    /// COBOL level number, when the source had levels.
    pub level: Option<u32>,
    /// Dotted qualification path, record name first.
    pub path: String,
    /// One-based occurrence of an `OCCURS` item.
    pub occurs_index: Option<u32>,
    /// Unsubscripted name of the repeating item.
    pub occurs_group: Option<String>,
    /// Level-88 condition names declared under the field.
    pub conditions: Vec<ConditionName>,
}

/// [`FieldSchema`] as contracts speak of it.
#[verifier::ext_equal]
pub struct FieldSchemaModel {
    /// See [`FieldSchema::name`].
    pub name: Seq<char>,
    /// See [`FieldSchema::offset`].
    pub offset: u32,
    /// See [`FieldSchema::size`].
    pub size: u32,
    /// See [`FieldSchema::field_type`].
    pub field_type: i32,
    /// See [`FieldSchema::scale`].
    pub scale: u32,
    /// See [`FieldSchema::picture`].
    pub picture: Seq<char>,
    /// See [`FieldSchema::level`].
    pub level: Option<u32>,
    /// See [`FieldSchema::path`].
    pub path: Seq<char>,
    /// See [`FieldSchema::occurs_index`].
    pub occurs_index: Option<u32>,
    /// See [`FieldSchema::occurs_group`].
    pub occurs_group: Option<Seq<char>>,
    /// See [`FieldSchema::conditions`].
    pub conditions: Seq<ConditionNameModel>,
}

impl DeepView for FieldSchema {
    type V = FieldSchemaModel;

    open spec fn deep_view(&self) -> FieldSchemaModel {
        FieldSchemaModel {
            name: self.name.deep_view(),
            offset: self.offset,
            size: self.size,
            field_type: self.field_type,
            scale: self.scale,
            picture: self.picture.deep_view(),
            level: self.level.deep_view(),
            path: self.path.deep_view(),
            occurs_index: self.occurs_index.deep_view(),
            occurs_group: self.occurs_group.deep_view(),
            conditions: self.conditions.deep_view(),
        }
    }
}

/// One record schema, as a parse reports it.
#[derive(Debug, Clone, Default, PartialEq)]
pub struct RecordSchema {
    /// Schema name.
    pub name: String,
    /// Body length in bytes.
    pub record_length: u32,
    /// Fields in physical order, fillers among them.
    pub fields: Vec<FieldSchema>,
    /// Record-type value that selects the schema.
    pub selector: Option<String>,
}

/// [`RecordSchema`] as contracts speak of it.
#[verifier::ext_equal]
pub struct RecordSchemaModel {
    /// See [`RecordSchema::name`].
    pub name: Seq<char>,
    /// See [`RecordSchema::record_length`].
    pub record_length: u32,
    /// See [`RecordSchema::fields`].
    pub fields: Seq<FieldSchemaModel>,
    /// See [`RecordSchema::selector`].
    pub selector: Option<Seq<char>>,
}

impl DeepView for RecordSchema {
    type V = RecordSchemaModel;

    open spec fn deep_view(&self) -> RecordSchemaModel {
        RecordSchemaModel {
            name: self.name.deep_view(),
            record_length: self.record_length,
            fields: self.fields.deep_view(),
            selector: self.selector.deep_view(),
        }
    }
}

/// The opening event of a parse: the layout it decodes with.
#[derive(Debug, Clone, Default, PartialEq)]
pub struct LayoutInfo {
    /// Canonical name of the code page.
    pub encoding: String,
    /// Record schemas in layout order.
    pub records: Vec<RecordSchema>,
    /// Free-text description.
    pub description: String,
    /// Bytes skipped at the start of the input.
    pub header_size: u32,
    /// Bytes skipped at the end of the input.
    pub footer_size: u32,
    /// Width of the prefix ahead of every record.
    pub prefix_size: u32,
    /// The [`LayoutSource`] number.
    pub source: i32,
}

/// [`LayoutInfo`] as contracts speak of it.
#[verifier::ext_equal]
pub struct LayoutInfoModel {
    /// See [`LayoutInfo::encoding`].
    pub encoding: Seq<char>,
    /// See [`LayoutInfo::records`].
    pub records: Seq<RecordSchemaModel>,
    /// See [`LayoutInfo::description`].
    pub description: Seq<char>,
    /// See [`LayoutInfo::header_size`].
    pub header_size: u32,
    /// See [`LayoutInfo::footer_size`].
    pub footer_size: u32,
    /// See [`LayoutInfo::prefix_size`].
    pub prefix_size: u32,
    /// See [`LayoutInfo::source`].
    pub source: i32,
}

impl DeepView for LayoutInfo {
    type V = LayoutInfoModel;

    open spec fn deep_view(&self) -> LayoutInfoModel {
        LayoutInfoModel {
            encoding: self.encoding.deep_view(),
            records: self.records.deep_view(),
            description: self.description.deep_view(),
            header_size: self.header_size,
            footer_size: self.footer_size,
            prefix_size: self.prefix_size,
            source: self.source,
        }
    }
}

/// An exact base-10 number.
#[derive(Debug, Clone, Default, PartialEq)]
pub struct Decimal {
    /// The canonical rendering.
    pub text: String,
    /// Number of fractional digits.
    pub scale: u32,
    /// The number with the point removed, when 64 bits hold it.
    pub unscaled: Option<i64>,
}

/// [`Decimal`] as contracts speak of it.
#[verifier::ext_equal]
pub struct DecimalModel {
    /// See [`Decimal::text`].
    pub text: Seq<char>,
    /// See [`Decimal::scale`].
    pub scale: u32,
    /// See [`Decimal::unscaled`].
    pub unscaled: Option<i64>,
}

impl DeepView for Decimal {
    type V = DecimalModel;

    open spec fn deep_view(&self) -> DecimalModel {
        DecimalModel {
            text: self.text.deep_view(),
            scale: self.scale,
            unscaled: self.unscaled.deep_view(),
        }
    }
}

/// One decoded field of a record.
#[derive(Debug, Clone, Default, PartialEq)]
pub struct Cell {
    /// Column name.
    pub name: String,
    /// The [`FieldType`] number.
    pub field_type: i32,
    /// The decoded value.
    pub value: Option<cell::Value>,
}

/// [`Cell`] as contracts speak of it.
#[verifier::ext_equal]
pub struct CellModel {
    /// See [`Cell::name`].
    pub name: Seq<char>,
    /// See [`Cell::field_type`].
    pub field_type: i32,
    /// See [`Cell::value`].
    pub value: Option<cell::ValueModel>,
}

impl DeepView for Cell {
    type V = CellModel;

    open spec fn deep_view(&self) -> CellModel {
        CellModel {
            name: self.name.deep_view(),
            field_type: self.field_type,
            value: self.value.deep_view(),
        }
    }
}

/// One decoded record.
#[derive(Debug, Clone, Default, PartialEq)]
pub struct RecordRow {
    /// Name of the record's schema.
    pub record_type: String,
    /// Zero-based index among the rows of its schema.
    pub row_index: u64,
    /// Zero-based index among all records.
    pub record_index: u64,
    /// Where the record starts in the input.
    pub byte_offset: u64,
    /// How many bytes the record takes, prefix included.
    pub byte_length: u64,
    /// The decoded fields, fillers left out.
    pub cells: Vec<Cell>,
}

/// [`RecordRow`] as contracts speak of it.
#[verifier::ext_equal]
pub struct RecordRowModel {
    /// See [`RecordRow::record_type`].
    pub record_type: Seq<char>,
    /// See [`RecordRow::row_index`].
    pub row_index: u64,
    /// See [`RecordRow::record_index`].
    pub record_index: u64,
    /// See [`RecordRow::byte_offset`].
    pub byte_offset: u64,
    /// See [`RecordRow::byte_length`].
    pub byte_length: u64,
    /// See [`RecordRow::cells`].
    pub cells: Seq<CellModel>,
}

impl DeepView for RecordRow {
    type V = RecordRowModel;

    open spec fn deep_view(&self) -> RecordRowModel {
        RecordRowModel {
            record_type: self.record_type.deep_view(),
            row_index: self.row_index,
            record_index: self.record_index,
            byte_offset: self.byte_offset,
            byte_length: self.byte_length,
            cells: self.cells.deep_view(),
        }
    }
}

/// Something the parse survived but the caller should know.
#[derive(Debug, Clone, Default, PartialEq)]
pub struct ParseWarning {
    /// The [`WarningCode`] number.
    pub code: i32,
    /// The warning in words.
    pub message: String,
    /// Where in the input it applies.
    pub byte_offset: u64,
}

/// [`ParseWarning`] as contracts speak of it.
#[verifier::ext_equal]
pub struct ParseWarningModel {
    /// See [`ParseWarning::code`].
    pub code: i32,
    /// See [`ParseWarning::message`].
    pub message: Seq<char>,
    /// See [`ParseWarning::byte_offset`].
    pub byte_offset: u64,
}

impl DeepView for ParseWarning {
    type V = ParseWarningModel;

    open spec fn deep_view(&self) -> ParseWarningModel {
        ParseWarningModel {
            code: self.code,
            message: self.message.deep_view(),
            byte_offset: self.byte_offset,
        }
    }
}

/// How many rows one record schema produced.
#[derive(Debug, Clone, Default, PartialEq)]
pub struct RowCount {
    /// Name of the schema.
    pub record_type: String,
    /// The number of its rows.
    pub rows: u64,
}

/// [`RowCount`] as contracts speak of it.
#[verifier::ext_equal]
pub struct RowCountModel {
    /// See [`RowCount::record_type`].
    pub record_type: Seq<char>,
    /// See [`RowCount::rows`].
    pub rows: u64,
}

impl DeepView for RowCount {
    type V = RowCountModel;

    open spec fn deep_view(&self) -> RowCountModel {
        RowCountModel {
            record_type: self.record_type.deep_view(),
            rows: self.rows,
        }
    }
}

/// The closing event of a parse: its counts and warnings.
#[derive(Debug, Clone, Default, PartialEq)]
pub struct ParseStatus {
    /// Records emitted.
    pub records_kept: u64,
    /// Bytes received.
    pub bytes_received: u64,
    /// Bytes decoded or skipped.
    pub bytes_consumed: u64,
    /// Bytes left over in front of the footer.
    pub trailing_bytes: u64,
    /// Whether the walk stopped at the requested number of records.
    pub truncated: bool,
    /// Warnings, in order.
    pub warnings: Vec<ParseWarning>,
    /// Rows per schema, every schema name once.
    pub rows_per_record_type: Vec<RowCount>,
}

/// [`ParseStatus`] as contracts speak of it.
#[verifier::ext_equal]
pub struct ParseStatusModel {
    /// See [`ParseStatus::records_kept`].
    pub records_kept: u64,
    /// See [`ParseStatus::bytes_received`].
    pub bytes_received: u64,
    /// See [`ParseStatus::bytes_consumed`].
    pub bytes_consumed: u64,
    /// See [`ParseStatus::trailing_bytes`].
    pub trailing_bytes: u64,
    /// See [`ParseStatus::truncated`].
    pub truncated: bool,
    /// See [`ParseStatus::warnings`].
    pub warnings: Seq<ParseWarningModel>,
    /// See [`ParseStatus::rows_per_record_type`].
    pub rows_per_record_type: Seq<RowCountModel>,
}

impl DeepView for ParseStatus {
    type V = ParseStatusModel;

    open spec fn deep_view(&self) -> ParseStatusModel {
        ParseStatusModel {
            records_kept: self.records_kept,
            bytes_received: self.bytes_received,
            bytes_consumed: self.bytes_consumed,
            trailing_bytes: self.trailing_bytes,
            truncated: self.truncated,
            warnings: self.warnings.deep_view(),
            rows_per_record_type: self.rows_per_record_type.deep_view(),
        }
    }
}

/// What the service can do.
#[derive(Debug, Clone, Default, PartialEq)]
pub struct GetServiceInfoResponse {
    /// Service name.
    pub service: String,
    /// Service version.
    pub version: String,
    /// Canonical code page names.
    pub encodings: Vec<String>,
    /// The code page used when none is requested.
    pub default_encoding: String,
    /// Byte cap of a stream, in mebibytes.
    pub default_max_document_mib: u32,
    /// Parse streams admitted at once.
    pub max_concurrent_parses: u32,
    /// The [`FieldType`] numbers this build decodes.
    pub supported_field_types: Vec<i32>,
    /// Whether copybook source is accepted.
    pub copybook_compiler: bool,
}

/// [`GetServiceInfoResponse`] as contracts speak of it.
#[verifier::ext_equal]
pub struct GetServiceInfoResponseModel {
    /// See [`GetServiceInfoResponse::service`].
    pub service: Seq<char>,
    /// See [`GetServiceInfoResponse::version`].
    pub version: Seq<char>,
    /// See [`GetServiceInfoResponse::encodings`].
    pub encodings: Seq<Seq<char>>,
    /// See [`GetServiceInfoResponse::default_encoding`].
    pub default_encoding: Seq<char>,
    /// See [`GetServiceInfoResponse::default_max_document_mib`].
    pub default_max_document_mib: u32,
    /// See [`GetServiceInfoResponse::max_concurrent_parses`].
    pub max_concurrent_parses: u32,
    /// See [`GetServiceInfoResponse::supported_field_types`].
    pub supported_field_types: Seq<i32>,
    /// See [`GetServiceInfoResponse::copybook_compiler`].
    pub copybook_compiler: bool,
}

impl DeepView for GetServiceInfoResponse {
    type V = GetServiceInfoResponseModel;

    open spec fn deep_view(&self) -> GetServiceInfoResponseModel {
        GetServiceInfoResponseModel {
            service: self.service.deep_view(),
            version: self.version.deep_view(),
            encodings: self.encodings.deep_view(),
            default_encoding: self.default_encoding.deep_view(),
            default_max_document_mib: self.default_max_document_mib,
            max_concurrent_parses: self.max_concurrent_parses,
            supported_field_types: self.supported_field_types.deep_view(),
            copybook_compiler: self.copybook_compiler,
        }
    }
}

} // verus!
