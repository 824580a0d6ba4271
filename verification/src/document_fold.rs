//! The document fold: this collector's own event stream projected into a
//! single document.
//!
//! The typed event stream is the product and stays lossless; this is the lossy
//! structural projection for callers that want a document. It is a fold rather
//! than a second parser: it consumes exactly the events the service writes to
//! the wire, in the order it writes them, so there is no way for the document
//! to describe a parse that did not happen.
//!
//! The document is flat, with no groups at all:
//!
//! - the layout description, when there is one, is the first item: a plain
//!   text on `#/body`;
//! - then, per record schema in layout order, a section header naming the
//!   schema, only when the layout declares more than one, followed by the
//!   schema's table. Both hang directly off `#/body`: the table is the
//!   heading's *sibling*, not its child;
//! - a schema that matched no record produces nothing, so a document never
//!   shows a table a reader would find empty;
//! - each table's first grid row is the schema's field names, then one grid row
//!   per record, cells in field order, decimals carried across as their exact
//!   canonical text. What the layout declares of each column, where each row
//!   was in the input, and the layout itself stand beside the grid.
//!
//! A document is one message and a mainframe extract is not. The fold holds
//! every row it folds, so it caps the rows per schema at [`DEFAULT_ROW_CAP`]
//! and reports what it dropped through the parse's own warnings rather than
//! quietly shortening a table.

pub mod integrity;
pub mod laws;
pub mod links;
pub mod meaning;
pub mod runs;
pub mod tables;

pub use crate::document_fold::integrity::integrity_errors;
use vstd::prelude::*;
use vstd::hash_map::StringHashMap;
use crate::document_fold::tables::{build_columns, build_header, build_row, clamp, clamped, columns_of,
    flat_cells, flatten_grid, grid_row_of, header_row_of, index_columns, indexes, locate,
    place_of_row, unplaced, Column, ColumnModel};
use crate::layout::copy_text;
use crate::proto::document::v1::{BaseMeta, BaseMetaModel, BaseTextItem, BaseTextItemModel,
    CollectorSource, CollectorSourceModel, ContentLayer, CustomField, CustomFieldModel, CustomValue,
    CustomValueModel, DocItemLabel, Document, DocumentModel, FloatingMeta, FloatingMetaModel,
    GroupItem, GroupItemModel, ProvenanceItem, ProvenanceItemModel, RecordLayoutMeta,
    RecordLayoutMetaModel, RefItem, RefItemModel, SectionHeaderItem, SectionHeaderItemModel,
    SourceType, SourceTypeModel, TableCell, TableColumnSchema, TableData, TableDataModel, TableItem,
    TableItemModel, TableRow, TableRowModel, TextItem, TextItemBase, TextItemBaseModel,
    TextItemModel};
use crate::proto::document::v1::base_text_item::{Item, ItemModel};
use crate::proto::document::v1::source_type::{Source, SourceModel};
use crate::proto::v1::{LayoutInfo, LayoutInfoModel, LayoutSource, ParseWarning, ParseWarningModel,
    RecordRow, RecordRowModel, RecordSchema, RecordSchemaModel, WarningCode};
use crate::proto::v1::parse_ebcdic_response::{Event, EventModel};
use crate::text::{cat2, cat4, cat7, decimal, decimal_text, quote, quoted};

verus! {

/// Value of the collector name on every item this fold creates.
pub const COLLECTOR: &'static str = "ebcdic";

/// The document schema this shape follows.
pub const SCHEMA_NAME: &'static str = "docling_document_v2";

/// Rows folded per record schema before the fold starts counting instead.
///
/// Clients commonly cap a received message at 4 MiB and a document cannot be
/// streamed, so "fold every row" is not an option a ten-million-row extract
/// leaves open. The cap exists so the failure is a counted, reported truncation
/// rather than a message nobody can receive.
pub const DEFAULT_ROW_CAP: u64 = 100_000;

/// One record schema's rows, and the counters the document needs.
///
/// The rows are held here because a schema that matches no record is not
/// written to the document at all: nothing can be written until the last event
/// has been seen and the empty schemas are known.
struct TableState {
    /// Schema name, as it appears on every row and in the warning message.
    name: String,
    /// Non-filler columns in field order.
    columns: Vec<Column>,
    /// Column position by field name, so a row's named cells can be placed
    /// without trusting their order.
    column_index: StringHashMap<usize>,
    /// Body length the layout resolved for this schema, in bytes.
    record_length: u32,
    /// Record-type value that selects this schema, when the layout has more
    /// than one.
    selector: Option<String>,
    /// Data rows folded so far, header row excluded.
    rows: u64,
    /// Rows seen past the cap and therefore not folded.
    dropped: u64,
    /// Input offset of the first dropped record, for the warning.
    first_dropped_offset: u64,
    /// The folded data rows, in arrival order, header row excluded.
    grid: Vec<TableRow>,
    /// Where each folded row sat in the input, index-aligned with `grid`.
    row_prov: Vec<ProvenanceItem>,
}

/// One record schema's rows as contracts speak of them.
#[verifier::ext_equal]
pub struct FoldedTable {
    /// Schema name.
    pub name: Seq<char>,
    /// Non-filler columns in field order.
    pub columns: Seq<ColumnModel>,
    /// Body length in bytes.
    pub record_length: u32,
    /// Record-type value that selects the schema.
    pub selector: Option<Seq<char>>,
    /// Data rows folded so far.
    pub rows: u64,
    /// Rows seen past the cap.
    pub dropped: u64,
    /// Input offset of the first dropped record.
    pub first_dropped_offset: u64,
    /// The folded data rows.
    pub grid: Seq<TableRowModel>,
    /// Where each folded row sat in the input.
    pub row_prov: Seq<ProvenanceItemModel>,
}

impl DeepView for TableState {
    type V = FoldedTable;

    closed spec fn deep_view(&self) -> FoldedTable {
        FoldedTable {
            name: self.name@,
            columns: self.columns.deep_view(),
            record_length: self.record_length,
            selector: self.selector.deep_view(),
            rows: self.rows,
            dropped: self.dropped,
            first_dropped_offset: self.first_dropped_offset,
            grid: self.grid.deep_view(),
            row_prov: self.row_prov.deep_view(),
        }
    }
}

/// The state of a fold.
#[verifier::ext_equal]
pub struct Fold {
    /// Server version, stamped on every item.
    pub version: Seq<char>,
    /// Rows folded per schema before the surplus is counted instead.
    pub row_cap: u64,
    /// The layout the parse opened with, once it has.
    pub info: Option<LayoutInfoModel>,
    /// Per-schema state, in layout order.
    pub tables: Seq<FoldedTable>,
}

/// The state of a fold that has seen no event.
pub open spec fn fresh_fold(version: Seq<char>) -> Fold {
    Fold { version, row_cap: DEFAULT_ROW_CAP, info: None, tables: Seq::empty() }
}

/// The state of a schema that has seen no record.
pub open spec fn empty_table(schema: RecordSchemaModel) -> FoldedTable {
    FoldedTable {
        name: schema.name,
        columns: columns_of(schema.fields, schema.fields.len() as int),
        record_length: schema.record_length,
        selector: schema.selector,
        rows: 0,
        dropped: 0,
        first_dropped_offset: 0,
        grid: Seq::empty(),
        row_prov: Seq::empty(),
    }
}

/// A fold that has seen the opening event. Only the first one counts.
pub open spec fn opened(fold: Fold, info: LayoutInfoModel) -> Fold {
    if fold.info is Some {
        fold
    } else {
        Fold {
            info: Some(info),
            tables: Seq::new(info.records.len(), |i: int| empty_table(info.records[i])),
            ..fold
        }
    }
}

/// The last of the first `k` tables with a name, if there is one.
pub open spec fn table_named(tables: Seq<FoldedTable>, name: Seq<char>, k: int) -> Option<int>
    decreases k,
{
    if k <= 0 {
        None
    } else if tables[k - 1].name == name {
        Some(k - 1)
    } else {
        table_named(tables, name, k - 1)
    }
}

/// A table that has seen a record: a grid row more, or, past the cap, one more
/// row counted as dropped.
pub open spec fn with_row(table: FoldedTable, row: RecordRowModel, row_cap: u64) -> FoldedTable {
    if table.rows >= row_cap {
        FoldedTable {
            first_dropped_offset: if table.dropped == 0 {
                row.byte_offset
            } else {
                table.first_dropped_offset
            },
            dropped: (table.dropped + 1) as u64,
            ..table
        }
    } else {
        FoldedTable {
            rows: (table.rows + 1) as u64,
            grid: table.grid.push(grid_row_of(table.columns, row.cells, table.rows + 1)),
            row_prov: table.row_prov.push(place_of_row(row)),
            ..table
        }
    }
}

/// A fold that has seen a record. One of a schema the layout does not declare
/// is not folded.
pub open spec fn recorded(fold: Fold, row: RecordRowModel) -> Fold {
    match table_named(fold.tables, row.record_type, fold.tables.len() as int) {
        None => fold,
        Some(at) => Fold {
            tables: fold.tables.update(at, with_row(fold.tables[at], row, fold.row_cap)),
            ..fold
        },
    }
}

/// A fold that has seen an event. The trailer and the document change nothing:
/// the trailer's numbers count the parse, not what is in the document.
pub open spec fn folded(fold: Fold, event: EventModel) -> Fold {
    match event {
        EventModel::LayoutInfo(info) => opened(fold, info),
        EventModel::Record(row) => recorded(fold, row),
        _ => fold,
    }
}

/// Whether one more row can still be counted in every table.
pub open spec fn can_count(fold: Fold) -> bool {
    forall|i: int| 0 <= i < fold.tables.len() ==> (#[trigger] fold.tables[i]).dropped < u64::MAX
}

/// What holds of a table between two events.
pub open spec fn table_sound(table: FoldedTable) -> bool {
    &&& table.grid.len() == table.rows
    &&& table.row_prov.len() == table.rows
    &&& forall|i: int|
        0 <= i < table.grid.len() ==> (#[trigger] table.grid[i]).cells.len() == table.columns.len()
    &&& unplaced(table.grid)
}

/// What holds of a fold between two events.
pub open spec fn fold_sound(fold: Fold) -> bool {
    forall|i: int| 0 <= i < fold.tables.len() ==> table_sound(#[trigger] fold.tables[i])
}

/// Whether a map holds, for each name among the first `k` tables, the last of
/// them with that name.
spec fn indexes_tables(map: Map<Seq<char>, usize>, tables: Seq<FoldedTable>, k: int) -> bool {
    forall|name: Seq<char>| #[trigger]
        map.contains_key(name) == (table_named(tables, name, k) is Some) && (
        map.contains_key(name) ==> table_named(tables, name, k) == Some(map[name] as int))
}

/// An index by name goes by the names alone.
proof fn lemma_index_goes_by_names(
    map: Map<Seq<char>, usize>,
    before: Seq<FoldedTable>,
    after: Seq<FoldedTable>,
    k: int,
)
    requires
        0 <= k <= before.len(),
        k <= after.len(),
        forall|i: int| 0 <= i < k ==> (#[trigger] before[i]).name == after[i].name,
        indexes_tables(map, before, k),
    ensures
        indexes_tables(map, after, k),
{
    assert forall|name: Seq<char>| #[trigger]
        map.contains_key(name) == (table_named(after, name, k) is Some) && (map.contains_key(name)
            ==> table_named(after, name, k) == Some(map[name] as int)) by {
        lemma_names_decide(before, after, name, k);
    }
}

/// The name of a layout form, when it is stated.
pub open spec fn source_name(source: i32) -> Option<Seq<char>> {
    match LayoutSource::from_number(source) {
        Some(LayoutSource::Proto) => Some("proto"@),
        Some(LayoutSource::Json) => Some("json"@),
        Some(LayoutSource::Copybook) => Some("copybook"@),
        _ => None,
    }
}

/// The form of the layout a fold opened with, when it is stated.
pub open spec fn model_of(fold: Fold) -> Option<Seq<char>> {
    match fold.info {
        Some(info) => source_name(info.source),
        None => None,
    }
}

/// The attribution stamped on every item of a document.
pub open spec fn attribution(fold: Fold) -> SourceTypeModel {
    SourceTypeModel {
        source: Some(
            SourceModel::Collector(
                CollectorSourceModel {
                    collector: "ebcdic"@,
                    model: model_of(fold),
                    version: Some(fold.version),
                    confidence: None,
                },
            ),
        ),
    }
}

/// A reference to an item.
pub open spec fn to(reference: Seq<char>) -> RefItemModel {
    RefItemModel { reference }
}

/// A custom field with a text.
pub open spec fn text_field(key: Seq<char>, text: Seq<char>) -> CustomFieldModel {
    CustomFieldModel { key, value: Some(CustomValueModel::StringValue(text)) }
}

/// A custom field with a count.
pub open spec fn count_field(key: Seq<char>, count: u64) -> CustomFieldModel {
    CustomFieldModel { key, value: Some(CustomValueModel::NumberValue(count)) }
}

/// A custom field with a text, when there is one.
pub open spec fn optional_field(key: Seq<char>, text: Option<Seq<char>>) -> Seq<CustomFieldModel> {
    match text {
        Some(text) => seq![text_field(key, text)],
        None => Seq::empty(),
    }
}

/// The custom fields of the body.
pub open spec fn body_fields(info: LayoutInfoModel) -> Seq<CustomFieldModel> {
    seq![text_field("ebcdic.encoding"@, info.encoding)] + optional_field(
        "ebcdic.layout_source"@,
        source_name(info.source),
    ) + seq![
        count_field("ebcdic.header_size"@, info.header_size as u64),
        count_field("ebcdic.footer_size"@, info.footer_size as u64),
        count_field("ebcdic.prefix_size"@, info.prefix_size as u64),
    ]
}

/// The custom fields of a table. The number of dropped rows is among them only
/// where rows were dropped.
pub open spec fn table_fields(table: FoldedTable) -> Seq<CustomFieldModel> {
    seq![
        text_field("ebcdic.schema"@, table.name),
        count_field("ebcdic.record_length"@, table.record_length as u64),
    ] + optional_field("ebcdic.selector"@, table.selector) + seq![
        count_field("ebcdic.rows"@, table.rows),
    ] + if table.dropped > 0 {
        seq![count_field("ebcdic.rows_truncated"@, table.dropped)]
    } else {
        Seq::empty()
    }
}

/// The base of a text item on the body.
pub open spec fn text_base_of(
    fold: Fold,
    label: DocItemLabel,
    text: Seq<char>,
    index: nat,
) -> TextItemBaseModel {
    TextItemBaseModel {
        self_ref: "#/texts/"@ + decimal(index),
        parent: Some(to("#/body"@)),
        children: Seq::empty(),
        content_layer: ContentLayer::Body.number(),
        label: label.number(),
        prov: Seq::empty(),
        orig: text,
        text,
        source: seq![attribution(fold)],
    }
}

/// The layout description as a text item.
pub open spec fn description_of(fold: Fold, text: Seq<char>, index: nat) -> BaseTextItemModel {
    BaseTextItemModel {
        item: Some(
            ItemModel::Text(
                TextItemModel { base: Some(text_base_of(fold, DocItemLabel::Text, text, index)) },
            ),
        ),
    }
}

/// A section header naming a record schema.
pub open spec fn heading_of(fold: Fold, text: Seq<char>, index: nat) -> BaseTextItemModel {
    BaseTextItemModel {
        item: Some(
            ItemModel::SectionHeader(
                SectionHeaderItemModel {
                    base: Some(text_base_of(fold, DocItemLabel::SectionHeader, text, index)),
                    level: 1,
                },
            ),
        ),
    }
}

/// The layout a table was decoded with: the code page and the byte trims that
/// every schema shares, the schema's own record length, and the number of rows
/// the cap dropped, which is stated also when it is zero.
pub open spec fn layout_meta(fold: Fold, table: FoldedTable) -> RecordLayoutMetaModel {
    let shared = match fold.info {
        Some(info) => RecordLayoutMetaModel {
            encoding: Some(info.encoding),
            record_length: None,
            header_bytes: Some(info.header_size as u64),
            footer_bytes: Some(info.footer_size as u64),
            prefix_bytes: Some(info.prefix_size as u64),
            rows_truncated: None,
        },
        None => RecordLayoutMetaModel {
            encoding: None,
            record_length: None,
            header_bytes: None,
            footer_bytes: None,
            prefix_bytes: None,
            rows_truncated: None,
        },
    };
    RecordLayoutMetaModel {
        record_length: Some(table.record_length as u64),
        rows_truncated: Some(table.dropped),
        ..shared
    }
}

/// The grid of a table: the header row, then the data rows.
pub open spec fn grid_of(table: FoldedTable) -> Seq<TableRowModel> {
    seq![header_row_of(table.columns)] + table.grid
}

/// A schema's table. Row provenance is index-aligned with the grid; the header
/// came from the layout and not from the input, so its entry names no place.
pub open spec fn table_of(fold: Fold, table: FoldedTable, index: nat) -> TableItemModel {
    let grid = grid_of(table);
    TableItemModel {
        self_ref: "#/tables/"@ + decimal(index),
        parent: Some(to("#/body"@)),
        children: Seq::empty(),
        content_layer: ContentLayer::Body.number(),
        label: DocItemLabel::Table.number(),
        prov: Seq::empty(),
        meta: Some(FloatingMetaModel { custom_fields: table_fields(table) }),
        data: Some(
            TableDataModel {
                table_cells: flat_cells(grid, grid.len() as int),
                num_rows: clamped(table.rows + 1),
                num_cols: clamped(table.columns.len() as int),
                grid,
                columns: Seq::new(table.columns.len(), |i: int| table.columns[i].schema),
                row_prov: seq![ProvenanceItemModel { byte_range: None }] + table.row_prov,
                record_layout: Some(layout_meta(fold, table)),
            },
        ),
        source: seq![attribution(fold)],
    }
}

/// What a document holds so far.
#[verifier::ext_equal]
pub struct Written {
    /// The texts.
    pub texts: Seq<BaseTextItemModel>,
    /// The tables.
    pub tables: Seq<TableItemModel>,
    /// The children of the body.
    pub children: Seq<RefItemModel>,
}

/// Whether a schema matched no record. One whose rows were all dropped by the
/// cap did occur.
pub open spec fn is_empty_table(table: FoldedTable) -> bool {
    table.rows == 0 && table.dropped == 0
}

/// The layout description of a fold.
pub open spec fn description(fold: Fold) -> Seq<char> {
    match fold.info {
        Some(info) => info.description,
        None => Seq::empty(),
    }
}

/// What a document holds in front of the schemas: the layout description, when
/// there is one.
pub open spec fn opening(fold: Fold) -> Written {
    let text = description(fold);
    if text.len() == 0 {
        Written { texts: Seq::empty(), tables: Seq::empty(), children: Seq::empty() }
    } else {
        Written {
            texts: seq![description_of(fold, text, 0)],
            tables: Seq::empty(),
            children: seq![to("#/texts/"@ + decimal(0))],
        }
    }
}

/// What a document holds with a schema's heading added, when the layout
/// declares more than one schema.
pub open spec fn with_heading(fold: Fold, written: Written, name: Seq<char>) -> Written {
    if fold.tables.len() > 1 {
        Written {
            texts: written.texts.push(heading_of(fold, name, written.texts.len())),
            children: written.children.push(to("#/texts/"@ + decimal(written.texts.len()))),
            ..written
        }
    } else {
        written
    }
}

/// What a document holds with a schema's table added.
pub open spec fn with_table(fold: Fold, written: Written, table: FoldedTable) -> Written {
    Written {
        tables: written.tables.push(table_of(fold, table, written.tables.len())),
        children: written.children.push(to("#/tables/"@ + decimal(written.tables.len()))),
        ..written
    }
}

/// What a document holds after the first `k` schemas.
pub open spec fn written(fold: Fold, k: int) -> Written
    decreases k,
{
    if k <= 0 {
        opening(fold)
    } else {
        let before = written(fold, k - 1);
        let table = fold.tables[k - 1];
        if is_empty_table(table) {
            before
        } else {
            with_table(fold, with_heading(fold, before, table.name), table)
        }
    }
}

/// The name of the document: the layout's description, or failing that the
/// name of the first record schema.
pub open spec fn document_name(fold: Fold) -> Seq<char> {
    match fold.info {
        None => Seq::empty(),
        Some(info) => if info.description.len() > 0 {
            info.description
        } else if info.records.len() > 0 {
            info.records[0].name
        } else {
            Seq::empty()
        },
    }
}

/// The document a fold ends in.
pub open spec fn document_of(fold: Fold) -> DocumentModel {
    let content = written(fold, fold.tables.len() as int);
    DocumentModel {
        schema_name: Some("docling_document_v2"@),
        name: document_name(fold),
        origin: None,
        body: Some(
            GroupItemModel {
                self_ref: "#/body"@,
                parent: None,
                children: content.children,
                content_layer: ContentLayer::Body.number(),
                meta: match fold.info {
                    Some(info) => Some(BaseMetaModel { custom_fields: body_fields(info) }),
                    None => None,
                },
            },
        ),
        furniture: Some(
            GroupItemModel {
                self_ref: "#/furniture"@,
                parent: None,
                children: Seq::empty(),
                content_layer: ContentLayer::Furniture.number(),
                meta: None,
            },
        ),
        groups: Seq::empty(),
        texts: content.texts,
        pictures: Seq::empty(),
        tables: content.tables,
        field_regions: Seq::empty(),
        field_items: Seq::empty(),
        pages: Seq::empty(),
    }
}

/// The warning about a schema whose rows did not all fit.
pub open spec fn truncation_warning(table: FoldedTable, row_cap: u64) -> ParseWarningModel {
    ParseWarningModel {
        code: WarningCode::DocumentRowsTruncated.number(),
        message: "record schema "@ + quoted(table.name) + " produced "@ + decimal(
            table.dropped as nat,
        ) + " rows past the "@ + decimal(row_cap as nat)
            + "-row Document fold cap; its table holds the first "@ + decimal(table.rows as nat)
            + " and "@ + decimal(table.dropped as nat)
            + " were dropped. Every row was sent as a `record` event, so re-run with a smaller max_records for a whole Document."@,
        byte_offset: table.first_dropped_offset,
    }
}

/// The warnings about the first `k` schemas.
pub open spec fn warnings_of(fold: Fold, k: int) -> Seq<ParseWarningModel>
    decreases k,
{
    if k <= 0 {
        Seq::empty()
    } else if fold.tables[k - 1].dropped > 0 {
        warnings_of(fold, k - 1).push(truncation_warning(fold.tables[k - 1], fold.row_cap))
    } else {
        warnings_of(fold, k - 1)
    }
}

/// The layout facts of the opening event that the document repeats.
struct Opening {
    /// Layout form, when it is stated.
    model: Option<String>,
    /// Document name.
    name: String,
    /// Layout description.
    description: String,
    /// Code page.
    encoding: String,
    /// Bytes skipped at the start of the input.
    header_size: u32,
    /// Bytes skipped at the end of the input.
    footer_size: u32,
    /// Width of the prefix ahead of every record.
    prefix_size: u32,
}

impl Opening {
    /// Whether these are the facts of an opening event.
    spec fn matches(&self, info: LayoutInfoModel) -> bool {
        &&& self.model.deep_view() == source_name(info.source)
        &&& self.name@ == (if info.description.len() > 0 {
            info.description
        } else if info.records.len() > 0 {
            info.records[0].name
        } else {
            Seq::empty()
        })
        &&& self.description@ == info.description
        &&& self.encoding@ == info.encoding
        &&& self.header_size == info.header_size
        &&& self.footer_size == info.footer_size
        &&& self.prefix_size == info.prefix_size
    }
}

/// A single-pass fold from parse events to one document.
///
/// Feed it every outbound event in wire order with [`consume`](Self::consume),
/// take the truncation warnings with
/// [`truncation_warnings`](Self::truncation_warnings) so they can be merged
/// into the trailer, then finish with [`take`](Self::take).
pub struct DocumentFold {
    /// Server version, stamped on every item.
    version: String,
    /// Rows folded per schema before the surplus is counted instead.
    row_cap: u64,
    /// What the opening event said, once it has been folded.
    opening: Option<Opening>,
    /// Per-schema state, in layout order.
    tables: Vec<TableState>,
    /// Table state index by schema name.
    index_by_schema: StringHashMap<usize>,
    /// The opening event itself.
    info: Ghost<Option<LayoutInfoModel>>,
}

impl View for DocumentFold {
    type V = Fold;

    closed spec fn view(&self) -> Fold {
        Fold {
            version: self.version@,
            row_cap: self.row_cap,
            info: self.info@,
            tables: self.tables.deep_view(),
        }
    }
}

/// The name of a layout form, when it is stated.
fn layout_source_name(source: i32) -> (r: Option<String>)
    ensures
        r.deep_view() == source_name(source),
{
    match LayoutSource::from_number(source) {
        Some(LayoutSource::Proto) => Some("proto".to_owned()),
        Some(LayoutSource::Json) => Some("json".to_owned()),
        Some(LayoutSource::Copybook) => Some("copybook".to_owned()),
        _ => None,
    }
}

fn ref_item(reference: &str) -> (r: RefItem)
    ensures
        r.deep_view() == to(reference@),
{
    RefItem { reference: reference.to_owned() }
}

fn string_field(key: &str, text: &str) -> (r: CustomField)
    ensures
        r.deep_view() == text_field(key@, text@),
{
    CustomField {
        key: key.to_owned(),
        value: Some(CustomValue::StringValue(text.to_owned())),
    }
}

fn number_field(key: &str, count: u64) -> (r: CustomField)
    ensures
        r.deep_view() == count_field(key@, count),
{
    CustomField { key: key.to_owned(), value: Some(CustomValue::NumberValue(count)) }
}

/// A table found is one of those searched.
pub proof fn lemma_table_named(tables: Seq<FoldedTable>, name: Seq<char>, k: int)
    requires
        0 <= k <= tables.len(),
    ensures
        table_named(tables, name, k) matches Some(at) ==> 0 <= at < k && tables[at].name == name,
    decreases k,
{
    if k > 0 && tables[k - 1].name != name {
        lemma_table_named(tables, name, k - 1);
    }
}

/// Tables with the same names are found in the same places.
proof fn lemma_names_decide(a: Seq<FoldedTable>, b: Seq<FoldedTable>, name: Seq<char>, k: int)
    requires
        0 <= k <= a.len(),
        k <= b.len(),
        forall|i: int| 0 <= i < k ==> (#[trigger] a[i]).name == b[i].name,
    ensures
        table_named(a, name, k) == table_named(b, name, k),
    decreases k,
{
    if k > 0 {
        lemma_names_decide(a, b, name, k - 1);
    }
}

/// No cell of a folded row has a place on a page.
proof fn lemma_rows_are_unplaced(grid: Seq<TableRowModel>, row: TableRowModel)
    requires
        unplaced(grid),
        forall|j: int| 0 <= j < row.cells.len() ==> (#[trigger] row.cells[j]).bbox is None,
    ensures
        unplaced(grid.push(row)),
{
    assert forall|i: int, j: int|
        0 <= i < grid.push(row).len() && 0 <= j < grid.push(row)[i].cells.len() implies (
    #[trigger] grid.push(row)[i].cells[j]).bbox is None by {
        if i < grid.len() {
            assert(grid[i].cells[j].bbox is None);
        } else {
            assert(row.cells[j].bbox is None);
        }
    }
}

impl TableState {
    /// What holds of a table's state between two events.
    spec fn wf(&self) -> bool {
        &&& indexes(self.column_index@, self.columns.deep_view(), self.columns@.len() as int)
        &&& table_sound(self.deep_view())
    }

    /// Start the state of a schema.
    fn new(schema: &RecordSchema) -> (r: Self)
        ensures
            r.wf(),
            r.deep_view() == empty_table(schema.deep_view()),
    {
        let columns: Vec<Column> = build_columns(&schema.fields);
        let column_index: StringHashMap<usize> = index_columns(&columns);
        let r: TableState = TableState {
            name: schema.name.clone(),
            columns,
            column_index,
            record_length: schema.record_length,
            selector: copy_text(&schema.selector),
            rows: 0,
            dropped: 0,
            first_dropped_offset: 0,
            grid: Vec::new(),
            row_prov: Vec::new(),
        };
        proof {
            assert(r.deep_view() =~= empty_table(schema.deep_view()));
        }
        r
    }

    /// Append one decoded record as a grid row, or count it as dropped.
    fn add_row(&mut self, row: &RecordRow, row_cap: u64)
        requires
            old(self).wf(),
            old(self).deep_view().dropped < u64::MAX,
        ensures
            final(self).wf(),
            final(self).deep_view() == with_row(old(self).deep_view(), row.deep_view(), row_cap),
    {
        let ghost before = self.deep_view();
        let ghost model = row.deep_view();
        if self.rows >= row_cap {
            if self.dropped == 0 {
                self.first_dropped_offset = row.byte_offset;
            }
            self.dropped = self.dropped + 1;
            proof {
                assert(self.deep_view() =~= with_row(before, model, row_cap));
            }
            return;
        }
        let number: u64 = self.rows + 1;
        let grid_row: TableRow = build_row(&self.columns, &self.column_index, &row.cells, number);
        let ghost added = grid_row.deep_view();
        self.rows = number;
        self.grid.push(grid_row);
        let place: ProvenanceItem = locate(row);
        let ghost located = place.deep_view();
        self.row_prov.push(place);
        proof {
            assert(self.grid.deep_view() =~= before.grid.push(added));
            assert(self.row_prov.deep_view() =~= before.row_prov.push(located));
            lemma_rows_are_unplaced(before.grid, added);
            assert(self.deep_view() =~= with_row(before, model, row_cap));
        }
    }

    /// The custom fields of this schema's table.
    fn custom_fields(&self) -> (r: Vec<CustomField>)
        ensures
            r.deep_view() == table_fields(self.deep_view()),
    {
        let mut out: Vec<CustomField> = Vec::new();
        out.push(string_field("ebcdic.schema", &self.name));
        out.push(number_field("ebcdic.record_length", self.record_length as u64));
        match &self.selector {
            Some(selector) => {
                out.push(string_field("ebcdic.selector", selector));
            },
            None => {},
        }
        out.push(number_field("ebcdic.rows", self.rows));
        if self.dropped > 0 {
            out.push(number_field("ebcdic.rows_truncated", self.dropped));
        }
        proof {
            assert(out.deep_view() =~= table_fields(self.deep_view()));
        }
        out
    }
}

impl DocumentFold {
    /// What holds of every fold between two calls.
    pub closed spec fn wf(&self) -> bool {
        &&& fold_sound(self@)
        &&& forall|i: int| 0 <= i < self.tables@.len() ==> (#[trigger] self.tables@[i]).wf()
        &&& indexes_tables(
            self.index_by_schema@,
            self.tables.deep_view(),
            self.tables@.len() as int,
        )
        &&& self.info@ is None ==> self.tables@.len() == 0
        &&& self.stamped()
    }

    /// Whether the opening facts are those of the opening event.
    spec fn stamped(&self) -> bool {
        match (self.info@, self.opening) {
            (None, None) => true,
            (Some(info), Some(opening)) => opening.matches(info),
            _ => false,
        }
    }

    /// A fold is sound between any two calls: of every schema the folded rows,
    /// their places in the input and their number agree, and each row has one
    /// cell per column.
    pub proof fn law_a_fold_stays_sound(&self)
        requires
            self.wf(),
        ensures
            fold_sound(self@),
    {
    }

    /// Start a fold that stamps `version` on every item it creates.
    pub fn new(version: &str) -> (r: Self)
        ensures
            r.wf(),
            r@ == fresh_fold(version@),
    {
        let r: DocumentFold = DocumentFold {
            version: version.to_owned(),
            row_cap: DEFAULT_ROW_CAP,
            opening: None,
            tables: Vec::new(),
            index_by_schema: StringHashMap::new(),
            info: Ghost(None),
        };
        proof {
            assert(r.tables.deep_view() =~= Seq::<FoldedTable>::empty());
            assert(r@ =~= fresh_fold(version@));
        }
        r
    }

    /// Override how many rows per schema are folded.
    pub fn with_row_cap(self, rows: u64) -> (r: Self)
        requires
            self.wf(),
        ensures
            r.wf(),
            r@ == (Fold { row_cap: rows, ..self@ }),
    {
        let mut fold: DocumentFold = self;
        fold.row_cap = rows;
        fold
    }

    /// Fold one outbound event.
    ///
    /// The opening event works out the columns of every record schema; each
    /// record appends one grid row to its schema's rows or counts itself as
    /// dropped.
    pub fn consume(&mut self, event: &Event)
        requires
            old(self).wf(),
            can_count(old(self)@),
        ensures
            final(self).wf(),
            final(self)@ == folded(old(self)@, event.deep_view()),
    {
        match event {
            Event::LayoutInfo(info) => self.begin(info),
            Event::Record(row) => self.row(row),
            Event::Document(_) => {},
            Event::Status(_) => {},
        }
    }

    /// Work out the columns of every record schema and the document's facts.
    fn begin(&mut self, info: &LayoutInfo)
        requires
            old(self).wf(),
        ensures
            final(self).wf(),
            final(self)@ == opened(old(self)@, info.deep_view()),
    {
        let ghost before = self@;
        let ghost model = info.deep_view();
        if self.opening.is_some() {
            return;
        }
        proof {
            assert(self.tables.deep_view() =~= Seq::<FoldedTable>::empty());
        }
        let name: String = if !info.description.as_str().is_empty() {
            info.description.clone()
        } else if info.records.len() > 0 {
            proof {
                assert(model.records[0] == info.records@[0].deep_view());
            }
            info.records[0].name.clone()
        } else {
            String::new()
        };
        self.opening = Some(
            Opening {
                model: layout_source_name(info.source),
                name,
                description: info.description.clone(),
                encoding: info.encoding.clone(),
                header_size: info.header_size,
                footer_size: info.footer_size,
                prefix_size: info.prefix_size,
            },
        );
        self.info = Ghost(Some(model));
        let ghost wanted = opened(before, model).tables;
        let mut i: usize = 0;
        while i < info.records.len()
            invariant
                i <= info.records@.len(),
                model == info.deep_view(),
                wanted == Seq::new(model.records.len(), |i: int| empty_table(model.records[i])),
                self.version@ == before.version,
                self.row_cap == before.row_cap,
                self.info@ == Some(model),
                self.opening matches Some(opening) && opening.matches(model),
                self.tables@.len() == i,
                self.tables.deep_view() == wanted.take(i as int),
                forall|j: int| 0 <= j < i ==> (#[trigger] self.tables@[j]).wf(),
                indexes_tables(self.index_by_schema@, self.tables.deep_view(), i as int),
            decreases info.records@.len() - i,
        {
            let ghost tables = self.tables.deep_view();
            let ghost index = self.index_by_schema@;
            proof {
                assert(model.records[i as int] == info.records@[i as int].deep_view());
            }
            let state: TableState = TableState::new(&info.records[i]);
            let ghost added = state.deep_view();
            self.index_by_schema.insert(info.records[i].name.clone(), i);
            self.tables.push(state);
            proof {
                let now = self.tables.deep_view();
                assert(now =~= tables.push(added));
                assert(now =~= wanted.take(i + 1));
                lemma_index_goes_by_names(index, tables, now, i as int);
                assert forall|name: Seq<char>| #[trigger]
                    self.index_by_schema@.contains_key(name) == (table_named(
                        now,
                        name,
                        i + 1,
                    ) is Some) && (self.index_by_schema@.contains_key(name) ==> table_named(
                        now,
                        name,
                        i + 1,
                    ) == Some(self.index_by_schema@[name] as int)) by {
                    assert(index.contains_key(name) == (table_named(now, name, i as int) is Some));
                }
            }
            i = i + 1;
        }
        proof {
            assert(wanted.take(i as int) =~= wanted);
            assert forall|j: int| 0 <= j < self@.tables.len() implies table_sound(
                #[trigger] self@.tables[j],
            ) by {
                assert(self.tables@[j].wf());
            }
            assert(self@ =~= opened(before, model));
        }
    }

    /// Append one decoded record as a grid row, or count it as dropped.
    fn row(&mut self, row: &RecordRow)
        requires
            old(self).wf(),
            can_count(old(self)@),
        ensures
            final(self).wf(),
            final(self)@ == recorded(old(self)@, row.deep_view()),
    {
        let ghost before = self@;
        let ghost model = row.deep_view();
        let ghost tables = self.tables.deep_view();
        let found: Option<&usize> = self.index_by_schema.get(&row.record_type);
        proof {
            let name = model.record_type;
            assert(self.index_by_schema@.contains_key(name) <==> table_named(
                tables,
                name,
                tables.len() as int,
            ) is Some);
            lemma_table_named(tables, name, tables.len() as int);
        }
        let at: usize = match found {
            // Unreachable through the service: the walk only emits rows for
            // schemas the layout declared, and the layout arrived first.
            None => {
                return;
            },
            Some(at) => *at,
        };
        proof {
            assert(self.tables@[at as int].wf());
            assert(tables[at as int] == self.tables@[at as int].deep_view());
        }
        let row_cap: u64 = self.row_cap;
        let ghost states = self.tables@;
        self.tables[at].add_row(row, row_cap);
        proof {
            let now = self.tables.deep_view();
            assert(now =~= tables.update(at as int, with_row(tables[at as int], model, row_cap)));
            assert(self@ =~= recorded(before, model));
            assert forall|j: int| 0 <= j < self.tables@.len() implies (
            #[trigger] self.tables@[j]).wf() by {
                if j != at {
                    assert(self.tables@[j] == states[j]);
                }
            }
            assert forall|j: int| 0 <= j < self@.tables.len() implies table_sound(
                #[trigger] self@.tables[j],
            ) by {
                assert(self.tables@[j].wf());
            }
            lemma_index_goes_by_names(self.index_by_schema@, tables, now, now.len() as int);
        }
    }

    /// Warnings for every schema whose rows did not all fit.
    ///
    /// Call before [`take`](Self::take) and merge the result into the trailer:
    /// a cap that shortens a table without saying so is the silent truncation
    /// this channel exists to avoid.
    pub fn truncation_warnings(&self) -> (r: Vec<ParseWarning>)
        requires
            self.wf(),
        ensures
            r.deep_view() == warnings_of(self@, self@.tables.len() as int),
    {
        let ghost fold = self@;
        let mut out: Vec<ParseWarning> = Vec::new();
        let mut k: usize = 0;
        proof {
            assert(out.deep_view() =~= warnings_of(fold, 0));
        }
        while k < self.tables.len()
            invariant
                k <= self.tables@.len(),
                fold == self@,
                out.deep_view() == warnings_of(fold, k as int),
            decreases self.tables@.len() - k,
        {
            let ghost before = out.deep_view();
            let state: &TableState = &self.tables[k];
            proof {
                assert(fold.tables[k as int] == state.deep_view());
            }
            if state.dropped > 0 {
                let start: String = cat7(
                    "record schema ",
                    &quote(&state.name),
                    " produced ",
                    &decimal_text(state.dropped as u128),
                    " rows past the ",
                    &decimal_text(self.row_cap as u128),
                    "-row Document fold cap; its table holds the first ",
                );
                let end: String = cat4(
                    &decimal_text(state.rows as u128),
                    " and ",
                    &decimal_text(state.dropped as u128),
                    " were dropped. Every row was sent as a `record` event, so re-run with a smaller max_records for a whole Document.",
                );
                let warning: ParseWarning = ParseWarning {
                    code: WarningCode::DocumentRowsTruncated.number(),
                    message: cat2(&start, &end),
                    byte_offset: state.first_dropped_offset,
                };
                let ghost model = warning.deep_view();
                proof {
                    assert(model.message =~= truncation_warning(
                        fold.tables[k as int],
                        fold.row_cap,
                    ).message);
                }
                out.push(warning);
                proof {
                    assert(out.deep_view() =~= before.push(model));
                }
            }
            k = k + 1;
        }
        out
    }

    /// The attribution stamped on every item this fold creates.
    fn collector_source(&self) -> (r: Vec<SourceType>)
        requires
            self.stamped(),
        ensures
            r.deep_view() == seq![attribution(self@)],
    {
        let model: Option<String> = match &self.opening {
            Some(opening) => copy_text(&opening.model),
            None => None,
        };
        let source: SourceType = SourceType {
            source: Some(
                Source::Collector(
                    CollectorSource {
                        collector: COLLECTOR.to_owned(),
                        model,
                        version: Some(self.version.clone()),
                        confidence: None,
                    },
                ),
            ),
        };
        let mut out: Vec<SourceType> = Vec::new();
        out.push(source);
        proof {
            assert(out.deep_view() =~= seq![attribution(self@)]);
        }
        out
    }

    /// The base of one text item on the body.
    fn text_base(&self, label: DocItemLabel, text: &str, self_ref: String, Ghost(index): Ghost<
        nat,
    >) -> (r: TextItemBase)
        requires
            self.stamped(),
            self_ref@ == "#/texts/"@ + decimal(index),
        ensures
            r.deep_view() == text_base_of(self@, label, text@, index),
    {
        let r: TextItemBase = TextItemBase {
            self_ref,
            parent: Some(ref_item("#/body")),
            children: Vec::new(),
            content_layer: ContentLayer::Body.number(),
            label: label.number(),
            prov: Vec::new(),
            orig: text.to_owned(),
            text: text.to_owned(),
            source: self.collector_source(),
        };
        proof {
            assert(r.deep_view() =~= text_base_of(self@, label, text@, index));
        }
        r
    }

    /// The layout a table was decoded with.
    fn record_layout(&self, state: &TableState) -> (r: RecordLayoutMeta)
        requires
            self.stamped(),
        ensures
            r.deep_view() == layout_meta(self@, state.deep_view()),
    {
        match &self.opening {
            Some(opening) => RecordLayoutMeta {
                encoding: Some(opening.encoding.clone()),
                record_length: Some(state.record_length as u64),
                header_bytes: Some(opening.header_size as u64),
                footer_bytes: Some(opening.footer_size as u64),
                prefix_bytes: Some(opening.prefix_size as u64),
                rows_truncated: Some(state.dropped),
            },
            None => RecordLayoutMeta {
                encoding: None,
                record_length: Some(state.record_length as u64),
                header_bytes: None,
                footer_bytes: None,
                prefix_bytes: None,
                rows_truncated: Some(state.dropped),
            },
        }
    }

    /// The custom fields of the body.
    fn body_meta(&self) -> (r: Option<BaseMeta>)
        requires
            self.stamped(),
        ensures
            r.deep_view() == (match self@.info {
                Some(info) => Some(BaseMetaModel { custom_fields: body_fields(info) }),
                None => None,
            }),
    {
        let opening: &Opening = match &self.opening {
            None => {
                return None;
            },
            Some(opening) => opening,
        };
        let ghost info = self.info@->Some_0;
        let mut out: Vec<CustomField> = Vec::new();
        out.push(string_field("ebcdic.encoding", &opening.encoding));
        match &opening.model {
            Some(model) => {
                out.push(string_field("ebcdic.layout_source", model));
            },
            None => {},
        }
        out.push(number_field("ebcdic.header_size", opening.header_size as u64));
        out.push(number_field("ebcdic.footer_size", opening.footer_size as u64));
        out.push(number_field("ebcdic.prefix_size", opening.prefix_size as u64));
        proof {
            assert(out.deep_view() =~= body_fields(info));
        }
        Some(BaseMeta { custom_fields: out })
    }

    /// One schema's table: header row, data rows, and the facts that are only
    /// knowable now the rows are all in.
    fn build_table(&self, state: TableState, self_ref: String, Ghost(index): Ghost<
        nat,
    >) -> (r: TableItem)
        requires
            self.stamped(),
            state.wf(),
            self_ref@ == "#/tables/"@ + decimal(index),
        ensures
            r.deep_view() == table_of(self@, state.deep_view(), index),
    {
        let ghost table = state.deep_view();
        let ghost fold = self@;
        let custom_fields: Vec<CustomField> = state.custom_fields();
        let record_layout: RecordLayoutMeta = self.record_layout(&state);
        let header: TableRow = build_header(&state.columns);
        let ghost header_model = header.deep_view();
        let TableState { columns, rows, grid: data_rows, row_prov: places, .. } = state;
        let mut grid: Vec<TableRow> = Vec::new();
        grid.push(header);
        let mut data: Vec<TableRow> = data_rows;
        let ghost data_models = data.deep_view();
        grid.append(&mut data);
        proof {
            assert(grid.deep_view() =~= grid_of(table));
            assert forall|i: int, j: int|
                0 <= i < grid_of(table).len() && 0 <= j < grid_of(table)[i].cells.len() implies (
            #[trigger] grid_of(table)[i].cells[j]).bbox is None by {
                if i > 0 {
                    assert(table.grid[i - 1].cells[j].bbox is None);
                }
            }
        }
        // Both arenas, always: a consumer may read the flat cells or walk the
        // grid, and a document where those two disagree is worse than one that
        // carries neither.
        let table_cells: Vec<TableCell> = flatten_grid(&grid);
        let mut row_prov: Vec<ProvenanceItem> = Vec::new();
        row_prov.push(ProvenanceItem { byte_range: None });
        let mut located: Vec<ProvenanceItem> = places;
        row_prov.append(&mut located);
        proof {
            assert(row_prov.deep_view() =~= seq![ProvenanceItemModel { byte_range: None }]
                + table.row_prov);
        }
        let num_cols: i32 = clamp(columns.len() as u64);
        let schemas: Vec<TableColumnSchema> = take_schemas(columns);
        let num_rows: i32 = if rows < u64::MAX {
            clamp(rows + 1)
        } else {
            i32::MAX
        };
        let r: TableItem = TableItem {
            self_ref,
            parent: Some(ref_item("#/body")),
            children: Vec::new(),
            content_layer: ContentLayer::Body.number(),
            label: DocItemLabel::Table.number(),
            prov: Vec::new(),
            meta: Some(FloatingMeta { custom_fields }),
            data: Some(
                TableData {
                    table_cells,
                    num_rows,
                    num_cols,
                    grid,
                    columns: schemas,
                    row_prov,
                    record_layout: Some(record_layout),
                },
            ),
            source: self.collector_source(),
        };
        proof {
            let wanted = table_of(fold, table, index);
            assert(r.deep_view().data->Some_0.columns =~= wanted.data->Some_0.columns);
            assert(r.deep_view().data->Some_0 =~= wanted.data->Some_0);
            assert(r.deep_view() =~= wanted);
        }
        r
    }

    /// Finish the fold and hand back the document.
    ///
    /// This is where the document is written: the description, then the
    /// schemas in layout order, each one a heading and a table or, when it
    /// matched no record, nothing at all. Which schemas those are is only
    /// knowable once the last row has been seen.
    pub fn take(self) -> (r: Document)
        requires
            self.wf(),
        ensures
            r.deep_view() == document_of(self@),
    {
        let ghost fold = self@;
        let mut base_fold: DocumentFold = self;
        let mut states: Vec<TableState> = Vec::new();
        std::mem::swap(&mut states, &mut base_fold.tables);
        let mut texts: Vec<BaseTextItem> = Vec::new();
        let mut tables: Vec<TableItem> = Vec::new();
        let mut children: Vec<RefItem> = Vec::new();
        let (name, text): (String, String) = match &base_fold.opening {
            Some(opening) => (opening.name.clone(), opening.description.clone()),
            None => (String::new(), String::new()),
        };
        if !text.as_str().is_empty() {
            let self_ref: String = cat2("#/texts/", &decimal_text(0));
            children.push(ref_item(&self_ref));
            let base: TextItemBase = base_fold.text_base(
                DocItemLabel::Text,
                &text,
                self_ref,
                Ghost(0nat),
            );
            texts.push(BaseTextItem { item: Some(Item::Text(TextItem { base: Some(base) })) });
        }
        proof {
            assert(texts.deep_view() =~= opening(fold).texts);
            assert(tables.deep_view() =~= opening(fold).tables);
            assert(children.deep_view() =~= opening(fold).children);
        }
        let meta: Option<BaseMeta> = base_fold.body_meta();
        // The headings go by the declared number of schemas, not by how many of
        // them matched a record, so a two-schema layout with one empty schema
        // still says which schema the surviving table is.
        let headings: bool = states.len() > 1;
        let ghost all = states@;
        for state in it: states
            invariant
                it.seq() == all,
                states.deep_view() == fold.tables,
                all == states@,
                forall|i: int| 0 <= i < all.len() ==> (#[trigger] all[i]).wf(),
                base_fold.stamped(),
                base_fold@.info == fold.info,
                base_fold@.version == fold.version,
                headings == (fold.tables.len() > 1),
                texts.deep_view() == written(fold, it.index() as int).texts,
                tables.deep_view() == written(fold, it.index() as int).tables,
                children.deep_view() == written(fold, it.index() as int).children,
        {
            let ghost k = it.index() as int;
            let ghost before = written(fold, k);
            let ghost table = state.deep_view();
            proof {
                assert(fold.tables[k] == table);
                assert(all[k].wf());
                assert(texts@.len() == before.texts.len());
                assert(tables@.len() == before.tables.len());
            }
            if !(state.rows == 0 && state.dropped == 0) {
                if headings {
                    let self_ref: String = cat2("#/texts/", &decimal_text(texts.len() as u128));
                    let child: RefItem = ref_item(&self_ref);
                    let ghost child_model = child.deep_view();
                    children.push(child);
                    let ghost index = texts@.len();
                    let base: TextItemBase = base_fold.text_base(
                        DocItemLabel::SectionHeader,
                        &state.name,
                        self_ref,
                        Ghost(index),
                    );
                    let item: BaseTextItem = BaseTextItem {
                        item: Some(
                            Item::SectionHeader(SectionHeaderItem { base: Some(base), level: 1 }),
                        ),
                    };
                    let ghost item_model = item.deep_view();
                    texts.push(item);
                    proof {
                        assert(texts.deep_view() =~= before.texts.push(item_model));
                        assert(children.deep_view() =~= before.children.push(child_model));
                    }
                }
                let ghost middle = with_heading(fold, before, table.name);
                proof {
                    assert(texts.deep_view() == middle.texts);
                    assert(children.deep_view() == middle.children);
                }
                let self_ref: String = cat2("#/tables/", &decimal_text(tables.len() as u128));
                let child: RefItem = ref_item(&self_ref);
                let ghost child_model = child.deep_view();
                children.push(child);
                let ghost index = tables@.len();
                let item: TableItem = base_fold.build_table(state, self_ref, Ghost(index));
                let ghost item_model = item.deep_view();
                tables.push(item);
                proof {
                    assert(tables.deep_view() =~= before.tables.push(item_model));
                    assert(children.deep_view() =~= middle.children.push(child_model));
                }
            }
        }
        let r: Document = Document {
            schema_name: Some(SCHEMA_NAME.to_owned()),
            name,
            // No origin: this stream carries bytes and a layout, never a
            // filename or a media type.
            origin: None,
            body: Some(
                GroupItem {
                    self_ref: "#/body".to_owned(),
                    parent: None,
                    children,
                    content_layer: ContentLayer::Body.number(),
                    meta,
                },
            ),
            furniture: Some(
                GroupItem {
                    self_ref: "#/furniture".to_owned(),
                    parent: None,
                    children: Vec::new(),
                    content_layer: ContentLayer::Furniture.number(),
                    meta: None,
                },
            ),
            groups: Vec::new(),
            texts,
            pictures: Vec::new(),
            tables,
            field_regions: Vec::new(),
            field_items: Vec::new(),
            pages: Vec::new(),
        };
        proof {
            assert(r.furniture->Some_0.deep_view() =~= document_of(fold).furniture->Some_0);
            assert(r.deep_view() =~= document_of(fold));
        }
        r
    }
}

/// The declarations of columns.
fn take_schemas(columns: Vec<Column>) -> (r: Vec<TableColumnSchema>)
    ensures
        r.deep_view() == Seq::new(columns@.len(), |i: int| columns@[i].schema.deep_view()),
{
    let mut out: Vec<TableColumnSchema> = Vec::new();
    for column in it: columns
        invariant
            it.seq() == columns@,
            out@.len() == it.index(),
            forall|j: int|
                0 <= j < out@.len() ==> (#[trigger] out@[j]).deep_view()
                    == columns@[j].schema.deep_view(),
    {
        out.push(column.schema);
    }
    proof {
        assert(out.deep_view() =~= Seq::new(
            columns@.len(),
            |i: int| columns@[i].schema.deep_view(),
        ));
    }
    out
}

} // verus!
