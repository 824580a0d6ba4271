//! What a folded document says of the layout and the records it was made from.

use vstd::prelude::*;
use crate::decode::laws::{law_a_signed_number_reads_back, spells};
use crate::document_fold::{attribution, body_fields, description_of, document_name, document_of,
    heading_of, table_fields, table_of, truncation_warning, Fold, FoldedTable};
use crate::document_fold::laws::{is_last_named, records_named, folded_rows};
use crate::document_fold::runs::{distinct_schemas, folded_parse, law_a_row_shows_its_record,
    lemma_table, lemma_table_of_schema, present};
use crate::document_fold::tables::{cell_number, cell_text, column_of, columns_of, grid_row_of,
    header_row_of, place_of_row, ColumnModel};
use crate::proto::document::v1::{CellValueModel, ContentLayer, CustomFieldModel, CustomValueModel,
    DocItemLabel, TableCellModel, TextItemBaseModel, ValueConditionModel};
use crate::proto::document::v1::base_text_item::ItemModel;
use crate::proto::document::v1::cell_value::KindModel;
use crate::proto::document::v1::source_type::SourceModel;
use crate::proto::v1::{CellModel, ConditionNameModel, FieldSchemaModel, FieldType, LayoutInfoModel,
    LayoutSource, RecordRowModel};
use crate::proto::v1::cell::ValueModel;
use crate::proto::v1::parse_ebcdic_response::EventModel;
use crate::text::{decimal, quoted};
use crate::text::laws::{lemma_mentions, mentions};

verus! {

/// Whether a text and a typed value show what a cell holds: an integer is
/// spelled out, sign and all, and held as a number beside the text; a decimal
/// is its text, character for character, in both; text is only text; and a cell
/// that holds nothing shows nothing.
pub open spec fn shows(text: Seq<char>, value: Option<CellValueModel>, cell: CellModel) -> bool {
    match cell.value {
        Some(ValueModel::Integer(n)) => {
            &&& spells(text, n as int)
            &&& value is Some
            &&& value->Some_0.kind == Some(KindModel::Integer(n))
            &&& value->Some_0.number_format is None
        },
        Some(ValueModel::Decimal(number)) => {
            &&& text == number.text
            &&& value is Some
            &&& value->Some_0.kind == Some(KindModel::Decimal(number.text))
            &&& value->Some_0.number_format is None
        },
        Some(ValueModel::Text(characters)) => text == characters && value is None,
        None => text.len() == 0 && value is None,
    }
}

/// The text of a table cell reads back as its typed value. Of an integer it
/// starts with a minus sign exactly when the integer is negative, and the
/// digits behind the sign spell the integer's distance from zero; of a decimal
/// it is the very text of the value; and a cell of characters has no value
/// beside its text.
pub proof fn law_a_cell_reads_back(cell: CellModel)
    ensures
        shows(cell_text(cell), cell_number(cell), cell),
{
    if let Some(ValueModel::Integer(n)) = cell.value {
        law_a_signed_number_reads_back(n as int);
    }
}

/// Two integers that differ are shown differently.
pub proof fn law_different_integers_look_different(a: CellModel, b: CellModel, m: i64, n: i64)
    requires
        a.value == Some(ValueModel::Integer(m)),
        b.value == Some(ValueModel::Integer(n)),
        m != n,
    ensures
        cell_text(a) != cell_text(b),
{
    law_a_cell_reads_back(a);
    law_a_cell_reads_back(b);
}

/// What stands in a document under a column reads back as what the record's
/// cell of that name holds.
pub proof fn law_a_table_reads_back(
    version: Seq<char>,
    row_cap: u64,
    info: LayoutInfoModel,
    events: Seq<EventModel>,
    t: int,
    i: int,
    c: int,
    k: int,
)
    requires
        distinct_schemas(info.records),
        events.len() <= u64::MAX,
        0 <= t < present(info, events).len(),
        ({
            let schema = info.records[present(info, events)[t]];
            let columns = columns_of(schema.fields, schema.fields.len() as int);
            let records = records_named(events, schema.name);
            &&& 0 <= i < folded_rows(records.len(), row_cap)
            &&& 0 <= c < columns.len()
            &&& forall|a: int, b: int|
                0 <= a < b < columns.len() ==> (#[trigger] columns[a]).name != (
                #[trigger] columns[b]).name
            &&& is_last_named(
                records[i].cells,
                columns[c].name,
                k,
                records[i].cells.len() as int,
            )
        }),
    ensures
        ({
            let document = document_of(folded_parse(version, row_cap, info, events));
            let schema = info.records[present(info, events)[t]];
            let shown = document.tables[t].data->Some_0.grid[i + 1].cells[c];
            shows(shown.text, shown.value, records_named(events, schema.name)[i].cells[k])
        }),
{
    let schema = info.records[present(info, events)[t]];
    law_a_row_shows_its_record(version, row_cap, info, events, t, i, c);
    law_a_cell_reads_back(records_named(events, schema.name)[i].cells[k]);
}

/// Whether a column declares a level of a field's declaration, or an
/// occurrence: the same number, or none where there is none or it is too large
/// to be stated.
pub open spec fn same_number(stated: Option<i32>, declared: Option<u32>) -> bool {
    match declared {
        Some(n) => if n < 0x8000_0000 {
            stated is Some && stated->Some_0 as int == n as int
        } else {
            stated is None
        },
        None => stated is None,
    }
}

/// Whether a document declares a condition name as a layout does.
pub open spec fn same_condition(
    stated: ValueConditionModel,
    declared: ConditionNameModel,
) -> bool {
    &&& stated.name == declared.name
    &&& stated.values.len() == declared.ranges.len()
    &&& forall|i: int|
        0 <= i < declared.ranges.len() ==> (#[trigger] stated.values[i]).low
            == declared.ranges[i].low && stated.values[i].high == declared.ranges[i].high
}

/// Whether a column is the column of a field: headed by the field's own name,
/// declared under its path where it has one, with its type, its picture, where
/// its bytes start and how many they are, its level, its occurrence and its
/// condition names.
pub open spec fn is_column_of(column: ColumnModel, field: FieldSchemaModel) -> bool {
    &&& column.name == field.name
    &&& field.path.len() > 0 ==> column.schema.name == Some(field.path)
    &&& field.path.len() == 0 ==> column.schema.name == Some(field.name)
    &&& field.field_type == FieldType::String.number() ==> column.schema.declared_type == Some(
        "string"@,
    )
    &&& field.field_type == FieldType::Integer.number() ==> column.schema.declared_type == Some(
        "integer"@,
    )
    &&& field.field_type == FieldType::UnsignedInteger.number() ==> column.schema.declared_type
        == Some("unsigned_integer"@)
    &&& field.field_type == FieldType::PackedDecimal.number() ==> column.schema.declared_type
        == Some("packed_decimal"@)
    &&& field.field_type == FieldType::ZonedDecimal.number() ==> column.schema.declared_type
        == Some("zoned_decimal"@)
    &&& field.picture.len() > 0 ==> column.schema.picture == Some(field.picture)
    &&& field.picture.len() == 0 ==> column.schema.picture is None
    &&& column.schema.byte_offset is Some && column.schema.byte_offset->Some_0 == field.offset
    &&& column.schema.byte_size is Some && column.schema.byte_size->Some_0 == field.size
    &&& same_number(column.schema.level, field.level)
    &&& same_number(column.schema.occurs_index, field.occurs_index)
    &&& column.schema.width is None
    &&& column.schema.conditions.len() == field.conditions.len()
    &&& forall|i: int|
        0 <= i < field.conditions.len() ==> same_condition(
            #[trigger] column.schema.conditions[i],
            field.conditions[i],
        )
}

/// How many of the first `k` fields are no fillers.
pub open spec fn named_fields(fields: Seq<FieldSchemaModel>, k: int) -> int
    decreases k,
{
    if k <= 0 {
        0
    } else if fields[k - 1].field_type == FieldType::Skip.number() {
        named_fields(fields, k - 1)
    } else {
        named_fields(fields, k - 1) + 1
    }
}

/// There are as many fields before a place as before one further on, or fewer.
proof fn lemma_named_fields(fields: Seq<FieldSchemaModel>, i: int, k: int)
    requires
        0 <= i <= k <= fields.len(),
    ensures
        0 <= named_fields(fields, i) <= named_fields(fields, k),
    decreases k,
{
    if i < k {
        lemma_named_fields(fields, i, k - 1);
    } else if k > 0 {
        lemma_named_fields(fields, k - 1, k - 1);
    }
}

/// A table has a column for each field that is no filler, in the order of the
/// fields, and no other column.
pub proof fn law_every_field_has_its_column(fields: Seq<FieldSchemaModel>, k: int)
    requires
        0 <= k <= fields.len(),
    ensures
        columns_of(fields, k).len() == named_fields(fields, k),
        forall|i: int|
            0 <= i < k && (#[trigger] fields[i]).field_type != FieldType::Skip.number() ==> 0
                <= named_fields(fields, i) < columns_of(fields, k).len() && is_column_of(
                columns_of(fields, k)[named_fields(fields, i)],
                fields[i],
            ),
    decreases k,
{
    if k > 0 {
        law_every_field_has_its_column(fields, k - 1);
        assert forall|i: int|
            0 <= i < k && (#[trigger] fields[i]).field_type != FieldType::Skip.number() implies 0
            <= named_fields(fields, i) < columns_of(fields, k).len() && is_column_of(
            columns_of(fields, k)[named_fields(fields, i)],
            fields[i],
        ) by {
            if i < k - 1 {
                lemma_named_fields(fields, i + 1, k - 1);
                lemma_named_fields(fields, 0, i);
                assert(named_fields(fields, i + 1) == named_fields(fields, i) + 1);
            } else {
                lemma_named_fields(fields, 0, k - 1);
                assert(is_column_of(column_of(fields[i]), fields[i]));
            }
        }
    }
}

/// Whether a cell stands at a place of a table, and is one place large.
pub open spec fn stands_at(cell: TableCellModel, row: int, column: int) -> bool {
    &&& cell.start_row_offset_idx == row
    &&& cell.end_row_offset_idx == row + 1
    &&& cell.start_col_offset_idx == column
    &&& cell.end_col_offset_idx == column + 1
    &&& cell.row_span == 1
    &&& cell.col_span == 1
    &&& cell.bbox is None
    &&& !cell.row_header
    &&& !cell.row_section
    &&& !cell.fillable
}

/// A table cell says where it stands. Those of the first row head their
/// columns, with the columns' names and no values; the others do not.
pub proof fn law_a_cell_says_where_it_stands(
    columns: Seq<ColumnModel>,
    cells: Seq<CellModel>,
    row: int,
    i: int,
)
    requires
        0 <= row < i32::MAX,
        0 <= i < columns.len(),
        columns.len() <= i32::MAX,
    ensures
        grid_row_of(columns, cells, row).cells.len() == columns.len(),
        stands_at(grid_row_of(columns, cells, row).cells[i], row, i),
        !grid_row_of(columns, cells, row).cells[i].column_header,
        header_row_of(columns).cells.len() == columns.len(),
        stands_at(header_row_of(columns).cells[i], 0, i),
        header_row_of(columns).cells[i].column_header,
        header_row_of(columns).cells[i].text == columns[i].name,
        header_row_of(columns).cells[i].value is None,
{
}

/// A place too far down or across for the numbers of a table is given as the
/// last one they have.
pub proof fn law_far_places_are_given_as_the_last(
    columns: Seq<ColumnModel>,
    cells: Seq<CellModel>,
    row: int,
    i: int,
)
    requires
        row >= i32::MAX,
        0 <= i < columns.len(),
    ensures
        grid_row_of(columns, cells, row).cells[i].start_row_offset_idx == i32::MAX,
        grid_row_of(columns, cells, row).cells[i].end_row_offset_idx == i32::MAX,
        i >= i32::MAX ==> grid_row_of(columns, cells, row).cells[i].start_col_offset_idx
            == i32::MAX && grid_row_of(columns, cells, row).cells[i].end_col_offset_idx == i32::MAX,
{
}

/// A row of a table says which bytes of the input it was made from: those of
/// its record, and no others, up to the last byte that can be numbered.
pub proof fn law_a_row_says_where_it_was(row: RecordRowModel)
    ensures
        place_of_row(row).byte_range is Some,
        place_of_row(row).byte_range->Some_0.start == row.byte_offset,
        row.byte_offset + row.byte_length <= u64::MAX ==> place_of_row(row).byte_range->Some_0.end
            - place_of_row(row).byte_range->Some_0.start == row.byte_length,
        row.byte_offset + row.byte_length > u64::MAX ==> place_of_row(row).byte_range->Some_0.end
            == u64::MAX,
{
}

/// Whether a number of custom fields gives a text under a key.
pub open spec fn states_text(
    fields: Seq<CustomFieldModel>,
    key: Seq<char>,
    text: Seq<char>,
) -> bool {
    exists|i: int|
        0 <= i < fields.len() && (#[trigger] fields[i]).key == key && fields[i].value == Some(
            CustomValueModel::StringValue(text),
        )
}

/// Whether a number of custom fields gives a count under a key.
pub open spec fn states_count(fields: Seq<CustomFieldModel>, key: Seq<char>, count: u64) -> bool {
    exists|i: int|
        0 <= i < fields.len() && (#[trigger] fields[i]).key == key && fields[i].value == Some(
            CustomValueModel::NumberValue(count),
        )
}

/// The body of a document says how the input was read: the code page, the
/// sizes of header, footer and prefix, each under its own key, and the form of
/// the layout where it is stated.
pub proof fn law_a_body_says_how_the_input_was_read(info: LayoutInfoModel)
    ensures
        states_text(body_fields(info), "ebcdic.encoding"@, info.encoding),
        states_count(body_fields(info), "ebcdic.header_size"@, info.header_size as u64),
        states_count(body_fields(info), "ebcdic.footer_size"@, info.footer_size as u64),
        states_count(body_fields(info), "ebcdic.prefix_size"@, info.prefix_size as u64),
        info.source == LayoutSource::Proto.number() ==> states_text(
            body_fields(info),
            "ebcdic.layout_source"@,
            "proto"@,
        ),
        info.source == LayoutSource::Json.number() ==> states_text(
            body_fields(info),
            "ebcdic.layout_source"@,
            "json"@,
        ),
        info.source == LayoutSource::Copybook.number() ==> states_text(
            body_fields(info),
            "ebcdic.layout_source"@,
            "copybook"@,
        ),
{
    let fields = body_fields(info);
    let n = fields.len() as int;
    assert(fields[0].key == "ebcdic.encoding"@);
    assert(fields[n - 3].key == "ebcdic.header_size"@);
    assert(fields[n - 2].key == "ebcdic.footer_size"@);
    assert(fields[n - 1].key == "ebcdic.prefix_size"@);
    if n == 5 {
        assert(fields[1].key == "ebcdic.layout_source"@);
    }
}

/// A table says what it holds: the schema's name, its record length and the
/// value that selects it, how many rows it shows, and how many it does not,
/// where there are such.
pub proof fn law_a_table_says_what_it_holds(table: FoldedTable)
    ensures
        states_text(table_fields(table), "ebcdic.schema"@, table.name),
        states_count(
            table_fields(table),
            "ebcdic.record_length"@,
            table.record_length as u64,
        ),
        states_count(table_fields(table), "ebcdic.rows"@, table.rows),
        table.selector is Some ==> states_text(
            table_fields(table),
            "ebcdic.selector"@,
            table.selector->Some_0,
        ),
        table.dropped > 0 ==> states_count(
            table_fields(table),
            "ebcdic.rows_truncated"@,
            table.dropped,
        ),
        table_fields(table).len() == 3 + if table.selector is Some {
            1int
        } else {
            0
        } + if table.dropped > 0 {
            1int
        } else {
            0
        },
{
    let fields = table_fields(table);
    let s: int = if table.selector is Some {
        1
    } else {
        0
    };
    assert(fields[0].key == "ebcdic.schema"@);
    assert(fields[1].key == "ebcdic.record_length"@);
    if table.selector is Some {
        assert(fields[2].key == "ebcdic.selector"@);
    }
    assert(fields[2 + s].key == "ebcdic.rows"@);
    if table.dropped > 0 {
        assert(fields[3 + s].key == "ebcdic.rows_truncated"@);
    }
}

/// A table states the layout that it was read with: the code page and the
/// sizes of header, footer and prefix that the layout says, each in its own
/// place, the record length of its own schema, and how many rows it does not
/// show.
pub proof fn law_a_table_states_its_layout(fold: Fold, table: FoldedTable, index: nat)
    ensures
        ({
            let item = table_of(fold, table, index);
            let stated = item.data->Some_0.record_layout->Some_0;
            &&& item.data is Some && item.data->Some_0.record_layout is Some
            &&& stated.record_length is Some
            &&& stated.record_length->Some_0 == table.record_length
            &&& stated.rows_truncated == Some(table.dropped)
            &&& fold.info matches Some(info) ==> {
                &&& stated.encoding == Some(info.encoding)
                &&& stated.header_bytes is Some && stated.header_bytes->Some_0 == info.header_size
                &&& stated.footer_bytes is Some && stated.footer_bytes->Some_0 == info.footer_size
                &&& stated.prefix_bytes is Some && stated.prefix_bytes->Some_0 == info.prefix_size
            }
            &&& item.label == DocItemLabel::Table.number()
            &&& item.content_layer == ContentLayer::Body.number()
            &&& item.parent is Some && item.parent->Some_0.reference == "#/body"@
            &&& item.children.len() == 0
            &&& item.prov.len() == 0
            &&& item.self_ref == "#/tables/"@ + decimal(index)
            &&& item.source == seq![attribution(fold)]
            &&& item.meta is Some && item.meta->Some_0.custom_fields == table_fields(table)
            &&& table.columns.len() <= i32::MAX ==> item.data->Some_0.num_cols
                == table.columns.len()
            &&& table.rows < i32::MAX ==> item.data->Some_0.num_rows == table.rows + 1
            &&& item.data->Some_0.columns.len() == table.columns.len()
            &&& forall|c: int|
                0 <= c < table.columns.len() ==> #[trigger] item.data->Some_0.columns[c]
                    == table.columns[c].schema
        }),
{
}

/// Every item says who made it: this collector, in the version that runs, from
/// a layout of the form that was given, where it is stated.
pub proof fn law_every_item_says_who_made_it(fold: Fold)
    ensures
        attribution(fold).source matches Some(SourceModel::Collector(maker)) && {
            &&& maker.collector == "ebcdic"@
            &&& maker.version == Some(fold.version)
            &&& maker.confidence is None
            &&& fold.info is None ==> maker.model is None
            &&& fold.info matches Some(info) ==> {
                &&& info.source == LayoutSource::Proto.number() ==> maker.model == Some("proto"@)
                &&& info.source == LayoutSource::Json.number() ==> maker.model == Some("json"@)
                &&& info.source == LayoutSource::Copybook.number() ==> maker.model == Some(
                    "copybook"@,
                )
                &&& info.source == LayoutSource::Unspecified.number() ==> maker.model is None
            }
        },
{
}

/// Whether a text item on the body says a text, in full and as it was, under a
/// label and by the reference of its place among the texts.
pub open spec fn says_on_the_body(
    base: Option<TextItemBaseModel>,
    fold: Fold,
    label: DocItemLabel,
    text: Seq<char>,
    index: nat,
) -> bool {
    &&& base matches Some(base)
    &&& base.self_ref == "#/texts/"@ + decimal(index)
    &&& base.label == label.number()
    &&& base.text == text
    &&& base.orig == text
    &&& base.content_layer == ContentLayer::Body.number()
    &&& base.parent is Some && base.parent->Some_0.reference == "#/body"@
    &&& base.children.len() == 0
    &&& base.prov.len() == 0
    &&& base.source == seq![attribution(fold)]
}

/// The description of a layout is a plain text of the document, and the name of
/// a schema a section header of the first level.
pub proof fn law_what_the_texts_of_a_document_say(fold: Fold, text: Seq<char>, index: nat)
    ensures
        description_of(fold, text, index).item matches Some(ItemModel::Text(item))
            && says_on_the_body(item.base, fold, DocItemLabel::Text, text, index),
        heading_of(fold, text, index).item matches Some(ItemModel::SectionHeader(item))
            && item.level == 1 && says_on_the_body(
            item.base,
            fold,
            DocItemLabel::SectionHeader,
            text,
            index,
        ),
{
}

/// The numbers that stand for layers and labels are different for different
/// ones, and stand for them in both directions.
pub proof fn law_layers_and_labels_have_numbers(
    layer: ContentLayer,
    label: DocItemLabel,
    number: i32,
)
    ensures
        ContentLayer::from_number(layer.number()) == Some(layer),
        DocItemLabel::from_number(label.number()) == Some(label),
        ContentLayer::from_number(number) matches Some(value) ==> value.number() == number,
        DocItemLabel::from_number(number) matches Some(value) ==> value.number() == number,
        ContentLayer::Unspecified.number() == 0,
        DocItemLabel::Unspecified.number() == 0,
{
}

/// A document goes by the description of its layout, and by the name of the
/// first schema where there is no description.
pub proof fn law_what_a_document_goes_by(fold: Fold, info: LayoutInfoModel)
    requires
        fold.info == Some(info),
    ensures
        document_of(fold).name == document_name(fold),
        info.description.len() > 0 ==> document_of(fold).name == info.description,
        info.description.len() == 0 && info.records.len() > 0 ==> document_of(fold).name
            == info.records[0].name,
        document_of(fold).schema_name == Some("docling_document_v2"@),
        document_of(fold).body matches Some(body) && body.self_ref == "#/body"@
            && body.content_layer == ContentLayer::Body.number() && body.parent is None
            && body.meta is Some && body.meta->Some_0.custom_fields == body_fields(info),
        document_of(fold).furniture matches Some(furniture) && furniture.self_ref
            == "#/furniture"@ && furniture.content_layer == ContentLayer::Furniture.number()
            && furniture.parent is None && furniture.children.len() == 0,
{
}

/// The warning about a table that does not show all rows names the schema, and
/// says how many rows it produced past the cap, what the cap is, and how many
/// rows the table holds.
pub proof fn law_a_warning_says_what_is_missing(table: FoldedTable, row_cap: u64)
    ensures
        ({
            let warning = truncation_warning(table, row_cap);
            &&& mentions(warning.message, "record schema "@ + quoted(table.name) + " produced "@)
            &&& mentions(
                warning.message,
                " produced "@ + decimal(table.dropped as nat) + " rows past the "@,
            )
            &&& mentions(
                warning.message,
                " rows past the "@ + decimal(row_cap as nat)
                    + "-row Document fold cap; its table holds the first "@,
            )
            &&& mentions(warning.message, " and "@ + decimal(table.dropped as nat))
            &&& mentions(
                warning.message,
                "-row Document fold cap; its table holds the first "@ + decimal(table.rows as nat)
                    + " and "@,
            )
            &&& warning.byte_offset == table.first_dropped_offset
        }),
{
    let a = "record schema "@;
    let name = quoted(table.name);
    let b = " produced "@;
    let dropped = decimal(table.dropped as nat);
    let c = " rows past the "@;
    let cap = decimal(row_cap as nat);
    let d = "-row Document fold cap; its table holds the first "@;
    let rows = decimal(table.rows as nat);
    let e = " and "@;
    let f = " were dropped. Every row was sent as a `record` event, so re-run with a smaller max_records for a whole Document."@;
    let message = truncation_warning(table, row_cap).message;
    assert(message =~= Seq::empty() + (a + name + b) + (dropped + c + cap + d + rows + e + dropped
        + f));
    lemma_mentions(Seq::empty(), a + name + b, dropped + c + cap + d + rows + e + dropped + f);
    assert(message =~= (a + name) + (b + dropped + c) + (cap + d + rows + e + dropped + f));
    lemma_mentions(a + name, b + dropped + c, cap + d + rows + e + dropped + f);
    assert(message =~= (a + name + b + dropped) + (c + cap + d) + (rows + e + dropped + f));
    lemma_mentions(a + name + b + dropped, c + cap + d, rows + e + dropped + f);
    assert(message =~= (a + name + b + dropped + c + cap) + (d + rows + e) + (dropped + f));
    lemma_mentions(a + name + b + dropped + c + cap, d + rows + e, dropped + f);
    assert(message =~= (a + name + b + dropped + c + cap + d + rows) + (e + dropped) + f);
    lemma_mentions(a + name + b + dropped + c + cap + d + rows, e + dropped, f);
}

/// After a parse the table of a schema tells of the schema and of how the input
/// was read: its name, its record length and the value that selects it, the code
/// page, the sizes of header, footer and prefix, how many records it shows and
/// how many it does not, its columns, and the version that made it.
pub proof fn law_a_table_tells_of_its_schema(
    version: Seq<char>,
    row_cap: u64,
    info: LayoutInfoModel,
    events: Seq<EventModel>,
    t: int,
)
    requires
        distinct_schemas(info.records),
        events.len() <= u64::MAX,
        0 <= t < present(info, events).len(),
    ensures
        ({
            let document = document_of(folded_parse(version, row_cap, info, events));
            let schema = info.records[present(info, events)[t]];
            let records = records_named(events, schema.name);
            let rows = folded_rows(records.len(), row_cap);
            let item = document.tables[t];
            let fields = item.meta->Some_0.custom_fields;
            let data = item.data->Some_0;
            let stated = data.record_layout->Some_0;
            &&& states_text(fields, "ebcdic.schema"@, schema.name)
            &&& states_count(fields, "ebcdic.record_length"@, schema.record_length as u64)
            &&& schema.selector is Some ==> states_text(
                fields,
                "ebcdic.selector"@,
                schema.selector->Some_0,
            )
            &&& states_count(fields, "ebcdic.rows"@, rows as u64)
            &&& records.len() > rows ==> states_count(
                fields,
                "ebcdic.rows_truncated"@,
                (records.len() - rows) as u64,
            )
            &&& stated.encoding == Some(info.encoding)
            &&& stated.record_length == Some(schema.record_length as u64)
            &&& stated.header_bytes == Some(info.header_size as u64)
            &&& stated.footer_bytes == Some(info.footer_size as u64)
            &&& stated.prefix_bytes == Some(info.prefix_size as u64)
            &&& data.columns.len() == named_fields(schema.fields, schema.fields.len() as int)
            &&& item.source.len() == 1
            &&& item.source[0].source matches Some(SourceModel::Collector(maker))
                && maker.collector == "ebcdic"@ && maker.version == Some(version)
        }),
{
    let fold = folded_parse(version, row_cap, info, events);
    let at = present(info, events)[t];
    lemma_table_of_schema(version, row_cap, info, events, t);
    lemma_table(version, row_cap, info, events, at);
    let table = fold.tables[at];
    let schema = info.records[at];
    law_a_table_says_what_it_holds(table);
    law_a_table_states_its_layout(fold, table, t as nat);
    law_every_field_has_its_column(schema.fields, schema.fields.len() as int);
    law_every_item_says_who_made_it(fold);
}

} // verus!
