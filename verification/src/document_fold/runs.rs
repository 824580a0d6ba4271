//! What holds of a fold over a whole parse: the opening event, then any events
//! behind it.

use vstd::prelude::*;
use crate::document_fold::{description_of, document_of, fresh_fold, heading_of, is_empty_table,
    lemma_table_named, opened, table_named, table_of, table_sound, text_field, to,
    truncation_warning, warnings_of, written, Fold, FoldedTable, Written};
use crate::document_fold::laws::{folded_all, folded_rows, is_last_named, law_a_table_is_aligned,
    law_cells_are_placed_by_name, lemma_counts, records_named};
use crate::document_fold::tables::{cell_number, cell_text, clamped, column_named, columns_of,
    flat_cells, grid_row_of, place_of_row, ColumnModel};
use crate::proto::v1::{LayoutInfoModel, RecordSchemaModel, WarningCode};
use crate::proto::v1::parse_ebcdic_response::EventModel;
use crate::text::decimal;

verus! {

/// A fold that has seen a parse: with a row cap set, the opening event, then
/// the events behind it.
pub open spec fn folded_parse(
    version: Seq<char>,
    row_cap: u64,
    info: LayoutInfoModel,
    events: Seq<EventModel>,
) -> Fold {
    folded_all(opened(Fold { row_cap, ..fresh_fold(version) }, info), events)
}

/// Whether the schemas of a layout all have names of their own.
pub open spec fn distinct_schemas(records: Seq<RecordSchemaModel>) -> bool {
    forall|i: int, j: int|
        0 <= i < j < records.len() ==> (#[trigger] records[i]).name != (#[trigger] records[j]).name
}

/// Which of the first `k` schemas have more than a number of records among
/// events, in layout order.
pub open spec fn schemas_past(
    records: Seq<RecordSchemaModel>,
    events: Seq<EventModel>,
    number: nat,
    k: int,
) -> Seq<int>
    decreases k,
{
    if k <= 0 {
        Seq::empty()
    } else if records_named(events, records[k - 1].name).len() > number {
        schemas_past(records, events, number, k - 1).push(k - 1)
    } else {
        schemas_past(records, events, number, k - 1)
    }
}

/// Which schemas have a record among events, in layout order.
pub open spec fn present(info: LayoutInfoModel, events: Seq<EventModel>) -> Seq<int> {
    schemas_past(info.records, events, 0, info.records.len() as int)
}

/// Which schemas have more records than the row cap among events, in layout
/// order.
pub open spec fn over_cap(info: LayoutInfoModel, events: Seq<EventModel>, row_cap: u64) -> Seq<
    int,
> {
    schemas_past(info.records, events, row_cap as nat, info.records.len() as int)
}

/// The schemas found are some of those searched, in layout order, and each has
/// as many records as it takes.
proof fn lemma_schemas_past(
    records: Seq<RecordSchemaModel>,
    events: Seq<EventModel>,
    number: nat,
    k: int,
)
    requires
        0 <= k <= records.len(),
    ensures
        ({
            let found = schemas_past(records, events, number, k);
            &&& found.len() <= k
            &&& forall|t: int|
                0 <= t < found.len() ==> 0 <= #[trigger] found[t] < k && records_named(
                    events,
                    records[found[t]].name,
                ).len() > number
        }),
    decreases k,
{
    if k > 0 {
        lemma_schemas_past(records, events, number, k - 1);
    }
}

/// The schemas found are all that have as many records as it takes, each once
/// and in layout order.
pub proof fn law_no_schema_is_passed_over(
    records: Seq<RecordSchemaModel>,
    events: Seq<EventModel>,
    number: nat,
    k: int,
)
    requires
        0 <= k <= records.len(),
    ensures
        ({
            let found = schemas_past(records, events, number, k);
            &&& forall|i: int|
                found.contains(i) <==> 0 <= i < k && #[trigger] records_named(
                    events,
                    records[i].name,
                ).len() > number
            &&& forall|s: int, t: int|
                0 <= s < t < found.len() ==> #[trigger] found[s] < #[trigger] found[t]
        }),
    decreases k,
{
    if k > 0 {
        law_no_schema_is_passed_over(records, events, number, k - 1);
        let before = schemas_past(records, events, number, k - 1);
        let found = schemas_past(records, events, number, k);
        lemma_schemas_past(records, events, number, k - 1);
        assert forall|i: int|
            found.contains(i) <==> 0 <= i < k && #[trigger] records_named(
                events,
                records[i].name,
            ).len() > number by {
            if found.len() > before.len() {
                assert(found == before.push(k - 1));
                if i == k - 1 {
                    assert(found[before.len() as int] == i);
                }
                if before.contains(i) {
                    let t = choose|t: int| 0 <= t < before.len() && before[t] == i;
                    assert(found[t] == i);
                }
                if found.contains(i) && i != k - 1 {
                    let t = choose|t: int| 0 <= t < found.len() && found[t] == i;
                    assert(before[t] == i);
                }
            }
        }
    }
}

/// What a parse makes of the table of a schema.
pub proof fn lemma_table(
    version: Seq<char>,
    row_cap: u64,
    info: LayoutInfoModel,
    events: Seq<EventModel>,
    at: int,
)
    requires
        distinct_schemas(info.records),
        events.len() <= u64::MAX,
        0 <= at < info.records.len(),
    ensures
        ({
            let fold = folded_parse(version, row_cap, info, events);
            let schema = info.records[at];
            let columns = columns_of(schema.fields, schema.fields.len() as int);
            let records = records_named(events, schema.name);
            let rows = folded_rows(records.len(), row_cap);
            let table = fold.tables[at];
            &&& fold.info == Some(info)
            &&& fold.row_cap == row_cap
            &&& fold.version == version
            &&& fold.tables.len() == info.records.len()
            &&& table.name == schema.name
            &&& table.columns == columns
            &&& table.record_length == schema.record_length
            &&& table.selector == schema.selector
            &&& table.rows == rows
            &&& table.dropped == records.len() - rows
            &&& table.grid.len() == rows
            &&& table.row_prov.len() == rows
            &&& forall|i: int|
                0 <= i < rows ==> #[trigger] table.grid[i] == grid_row_of(
                    columns,
                    records[i].cells,
                    i + 1,
                )
            &&& forall|i: int|
                0 <= i < rows ==> #[trigger] table.row_prov[i] == place_of_row(records[i])
            &&& table.dropped > 0 ==> table.first_dropped_offset == records[rows as int].byte_offset
            &&& is_empty_table(table) <==> records.len() == 0
        }),
{
    let start = opened(Fold { row_cap, ..fresh_fold(version) }, info);
    lemma_found_at(start.tables, at, start.tables.len() as int);
    lemma_counts(start, events, at);
}

/// What a parse leaves of the fold besides its tables.
proof fn lemma_fold(
    version: Seq<char>,
    row_cap: u64,
    info: LayoutInfoModel,
    events: Seq<EventModel>,
)
    ensures
        ({
            let fold = folded_parse(version, row_cap, info, events);
            &&& fold.info == Some(info)
            &&& fold.row_cap == row_cap
            &&& fold.tables.len() == info.records.len()
        }),
    decreases events.len(),
{
    if events.len() > 0 {
        lemma_fold(version, row_cap, info, events.drop_last());
        let before = folded_parse(version, row_cap, info, events.drop_last());
        if let EventModel::Record(row) = events.last() {
            lemma_table_named(before.tables, row.record_type, before.tables.len() as int);
        }
    }
}

/// With distinct names a table is found where it stands.
proof fn lemma_found_at(tables: Seq<FoldedTable>, at: int, k: int)
    requires
        0 <= at < k <= tables.len(),
        forall|j: int| at < j < tables.len() ==> (#[trigger] tables[j]).name != tables[at].name,
    ensures
        table_named(tables, tables[at].name, k) == Some(at),
    decreases k,
{
    if k - 1 > at {
        assert(tables[k - 1].name != tables[at].name);
        lemma_found_at(tables, at, k - 1);
    }
}

/// With distinct names a column is found where it stands.
proof fn lemma_column_at(columns: Seq<ColumnModel>, at: int, k: int)
    requires
        0 <= at < k <= columns.len(),
        forall|j: int| at < j < columns.len() ==> (#[trigger] columns[j]).name != columns[at].name,
    ensures
        column_named(columns, columns[at].name, k) == Some(at),
    decreases k,
{
    if k - 1 > at {
        assert(columns[k - 1].name != columns[at].name);
        lemma_column_at(columns, at, k - 1);
    }
}

/// How many items a document has in front of its schemas.
pub open spec fn lead(info: LayoutInfoModel) -> nat {
    if info.description.len() > 0 {
        1
    } else {
        0
    }
}

/// Whether a document has the texts, the tables and the children of the body
/// that some schemas of a fold make: the description first; a heading for each
/// of them when the layout declares more than one schema; a table for each of
/// them; and on the body the description, then each heading with its table
/// behind it.
pub open spec fn has_shape(
    fold: Fold,
    info: LayoutInfoModel,
    schemas: Seq<int>,
    content: Written,
) -> bool {
    let n = schemas.len();
    let first = lead(info);
    &&& content.tables.len() == n
    &&& forall|t: int|
        0 <= t < n ==> #[trigger] content.tables[t] == table_of(
            fold,
            fold.tables[schemas[t]],
            t as nat,
        )
    &&& first == 1 ==> {
        &&& content.texts.len() > 0
        &&& content.texts[0] == description_of(fold, info.description, 0)
        &&& content.children.len() > 0
        &&& content.children[0] == to("#/texts/"@ + decimal(0))
    }
    &&& if info.records.len() > 1 {
        &&& content.texts.len() == first + n
        &&& forall|t: int|
            0 <= t < n ==> content.texts[first + t] == heading_of(
                fold,
                info.records[#[trigger] schemas[t]].name,
                (first + t) as nat,
            )
        &&& content.children.len() == first + 2 * n
        &&& forall|t: int|
            0 <= t < n ==> {
                &&& content.children[first + 2 * t] == to(
                    "#/texts/"@ + #[trigger] decimal((first + t) as nat),
                )
                &&& content.children[first + 2 * t + 1] == to("#/tables/"@ + decimal(t as nat))
            }
    } else {
        &&& content.texts.len() == first
        &&& content.children.len() == first + n
        &&& forall|t: int|
            0 <= t < n ==> content.children[first + t] == to(
                "#/tables/"@ + #[trigger] decimal(t as nat),
            )
    }
}

/// What a document holds after the first `k` schemas of a parse.
#[verifier::rlimit(40)]
#[verifier::spinoff_prover]
proof fn lemma_shape(
    version: Seq<char>,
    row_cap: u64,
    info: LayoutInfoModel,
    events: Seq<EventModel>,
    k: int,
)
    requires
        distinct_schemas(info.records),
        events.len() <= u64::MAX,
        0 <= k <= info.records.len(),
    ensures
        ({
            let fold = folded_parse(version, row_cap, info, events);
            has_shape(fold, info, schemas_past(info.records, events, 0, k), written(fold, k))
        }),
    decreases k,
{
    let fold = folded_parse(version, row_cap, info, events);
    lemma_fold(version, row_cap, info, events);
    if k > 0 {
        lemma_shape(version, row_cap, info, events, k - 1);
        lemma_table(version, row_cap, info, events, k - 1);
    }
}

/// The shape of a document after a parse. There is one table per schema that
/// has a record, in layout order, which names its schema among its custom
/// fields. The texts are the layout description, if there is one, and then a
/// section header per table if the layout declares more than one schema. The
/// body lists the description, and then per table its heading and the table.
/// Everything hangs off the body; there are no groups, pictures or pages, and
/// no origin.
pub proof fn law_the_shape_of_a_document(
    version: Seq<char>,
    row_cap: u64,
    info: LayoutInfoModel,
    events: Seq<EventModel>,
)
    requires
        distinct_schemas(info.records),
        events.len() <= u64::MAX,
    ensures
        ({
            let fold = folded_parse(version, row_cap, info, events);
            let document = document_of(fold);
            let schemas = present(info, events);
            &&& has_shape(
                fold,
                info,
                schemas,
                (Written {
                    texts: document.texts,
                    tables: document.tables,
                    children: document.body->Some_0.children,
                }),
            )
            &&& forall|t: int|
                0 <= t < document.tables.len() ==> {
                    let table = #[trigger] document.tables[t];
                    &&& table.parent == Some(to("#/body"@))
                    &&& table.meta->Some_0.custom_fields[0] == text_field(
                        "ebcdic.schema"@,
                        info.records[schemas[t]].name,
                    )
                }
            &&& document.groups.len() == 0
            &&& document.pictures.len() == 0
            &&& document.pages.len() == 0
            &&& document.origin is None
        }),
{
    let fold = folded_parse(version, row_cap, info, events);
    let schemas = present(info, events);
    lemma_fold(version, row_cap, info, events);
    lemma_shape(version, row_cap, info, events, info.records.len() as int);
    lemma_schemas_past(info.records, events, 0, info.records.len() as int);
    assert forall|t: int| 0 <= t < document_of(fold).tables.len() implies {
        let table = #[trigger] document_of(fold).tables[t];
        &&& table.parent == Some(to("#/body"@))
        &&& table.meta->Some_0.custom_fields[0] == text_field(
            "ebcdic.schema"@,
            info.records[schemas[t]].name,
        )
    } by {
        lemma_table(version, row_cap, info, events, schemas[t]);
    }
}

/// The table of a schema after a parse. Of the schema's records it holds the
/// first ones, up to the row cap, and states how many it does not hold. Its
/// grid is the names of the columns and then a row per record it holds; beside
/// the grid stand, row by row, where each record was in the input, none for
/// the names, and the cells of all rows one after another.
pub proof fn law_the_table_of_a_schema(
    version: Seq<char>,
    row_cap: u64,
    info: LayoutInfoModel,
    events: Seq<EventModel>,
    t: int,
)
    requires
        distinct_schemas(info.records),
        events.len() <= u64::MAX,
        0 <= t < present(info, events).len(),
    ensures
        ({
            let document = document_of(folded_parse(version, row_cap, info, events));
            let schema = info.records[present(info, events)[t]];
            let columns = columns_of(schema.fields, schema.fields.len() as int);
            let records = records_named(events, schema.name);
            let rows = folded_rows(records.len(), row_cap);
            let data = document.tables[t].data->Some_0;
            &&& records.len() > 0
            &&& data.grid.len() == 1 + rows
            &&& data.row_prov.len() == 1 + rows
            &&& data.num_rows == clamped(1 + rows as int)
            &&& data.record_layout->Some_0.rows_truncated == Some((records.len() - rows) as u64)
            &&& data.table_cells == flat_cells(data.grid, data.grid.len() as int)
            &&& data.table_cells.len() == (1 + rows) * columns.len()
            &&& data.row_prov[0].byte_range is None
            &&& forall|i: int|
                0 <= i < rows ==> data.row_prov[i + 1] == #[trigger] place_of_row(records[i])
            &&& data.grid[0].cells.len() == columns.len()
            &&& forall|c: int|
                0 <= c < columns.len() ==> (#[trigger] data.grid[0].cells[c]).text
                    == columns[c].name && data.grid[0].cells[c].column_header
            &&& forall|i: int|
                0 <= i < rows ==> data.grid[i + 1] == #[trigger] grid_row_of(
                    columns,
                    records[i].cells,
                    i + 1,
                )
        }),
{
    let fold = folded_parse(version, row_cap, info, events);
    let at = present(info, events)[t];
    lemma_fold(version, row_cap, info, events);
    lemma_schemas_past(info.records, events, 0, info.records.len() as int);
    lemma_shape(version, row_cap, info, events, info.records.len() as int);
    lemma_table(version, row_cap, info, events, at);
    let table = fold.tables[at];
    assert(document_of(fold).tables[t] == table_of(fold, table, t as nat));
    assert(table_sound(table)) by {
        assert forall|i: int| 0 <= i < table.grid.len() implies (
        #[trigger] table.grid[i]).cells.len() == table.columns.len() by {}
        assert forall|i: int, j: int|
            0 <= i < table.grid.len() && 0 <= j < table.grid[i].cells.len() implies (
        #[trigger] table.grid[i].cells[j]).bbox is None by {
            assert(table.grid[i] == grid_row_of(
                table.columns,
                records_named(events, table.name)[i].cells,
                i + 1,
            ));
        }
    }
    law_a_table_is_aligned(fold, table, t as nat);
    let data = document_of(fold).tables[t].data->Some_0;
    let records = records_named(events, table.name);
    assert forall|i: int| 0 <= i < table.rows implies data.row_prov[i + 1]
        == #[trigger] place_of_row(records[i]) by {
        assert(data.row_prov[i + 1] == table.row_prov[i]);
    }
    assert forall|i: int| 0 <= i < table.rows implies data.grid[i + 1] == #[trigger] grid_row_of(
        table.columns,
        records[i].cells,
        i + 1,
    ) by {
        assert(data.grid[i + 1] == table.grid[i]);
    }
}

/// The table of a schema after a parse is the one that its state in the fold
/// makes.
pub proof fn lemma_table_of_schema(
    version: Seq<char>,
    row_cap: u64,
    info: LayoutInfoModel,
    events: Seq<EventModel>,
    t: int,
)
    requires
        distinct_schemas(info.records),
        events.len() <= u64::MAX,
        0 <= t < present(info, events).len(),
    ensures
        ({
            let fold = folded_parse(version, row_cap, info, events);
            let at = present(info, events)[t];
            &&& 0 <= at < info.records.len()
            &&& 0 <= t < document_of(fold).tables.len()
            &&& document_of(fold).tables[t] == table_of(fold, fold.tables[at], t as nat)
        }),
{
    lemma_fold(version, row_cap, info, events);
    lemma_schemas_past(info.records, events, 0, info.records.len() as int);
    lemma_shape(version, row_cap, info, events, info.records.len() as int);
    let schemas = present(info, events);
    assert(schemas.contains(schemas[t]));
}

/// What a row of a table shows after a parse, when the columns of its schema
/// have names of their own: under each column the text and the number of the
/// record's cell of that name, a decimal's text verbatim, and nothing where
/// the record has none.
pub proof fn law_a_row_shows_its_record(
    version: Seq<char>,
    row_cap: u64,
    info: LayoutInfoModel,
    events: Seq<EventModel>,
    t: int,
    i: int,
    c: int,
)
    requires
        distinct_schemas(info.records),
        events.len() <= u64::MAX,
        0 <= t < present(info, events).len(),
        ({
            let schema = info.records[present(info, events)[t]];
            let columns = columns_of(schema.fields, schema.fields.len() as int);
            &&& 0 <= i < folded_rows(records_named(events, schema.name).len(), row_cap)
            &&& 0 <= c < columns.len()
            &&& forall|a: int, b: int|
                0 <= a < b < columns.len() ==> (#[trigger] columns[a]).name != (
                #[trigger] columns[b]).name
        }),
    ensures
        ({
            let document = document_of(folded_parse(version, row_cap, info, events));
            let schema = info.records[present(info, events)[t]];
            let columns = columns_of(schema.fields, schema.fields.len() as int);
            let cells = records_named(events, schema.name)[i].cells;
            let shown = document.tables[t].data->Some_0.grid[i + 1].cells[c];
            &&& forall|k: int|
                #[trigger] is_last_named(cells, columns[c].name, k, cells.len() as int)
                    ==> shown.text == cell_text(cells[k]) && shown.value == cell_number(cells[k])
            &&& (forall|k: int|
                0 <= k < cells.len() ==> (#[trigger] cells[k]).name != columns[c].name) ==> (
            shown.text.len() == 0 && shown.value is None)
        }),
{
    let schema = info.records[present(info, events)[t]];
    let columns = columns_of(schema.fields, schema.fields.len() as int);
    let cells = records_named(events, schema.name)[i].cells;
    law_the_table_of_a_schema(version, row_cap, info, events, t);
    lemma_column_at(columns, c, columns.len() as int);
    law_cells_are_placed_by_name(columns, cells, i + 1, c);
    let data = document_of(folded_parse(version, row_cap, info, events)).tables[t].data->Some_0;
    assert(data.grid[i + 1] == grid_row_of(columns, cells, i + 1));
}

/// The warnings about the first `k` schemas of a parse.
proof fn lemma_warned(
    version: Seq<char>,
    row_cap: u64,
    info: LayoutInfoModel,
    events: Seq<EventModel>,
    k: int,
)
    requires
        distinct_schemas(info.records),
        events.len() <= u64::MAX,
        0 <= k <= info.records.len(),
    ensures
        ({
            let fold = folded_parse(version, row_cap, info, events);
            let schemas = schemas_past(info.records, events, row_cap as nat, k);
            let warnings = warnings_of(fold, k);
            &&& warnings.len() == schemas.len()
            &&& forall|w: int|
                0 <= w < schemas.len() ==> #[trigger] warnings[w] == truncation_warning(
                    fold.tables[schemas[w]],
                    row_cap,
                )
        }),
    decreases k,
{
    if k > 0 {
        lemma_warned(version, row_cap, info, events, k - 1);
        lemma_table(version, row_cap, info, events, k - 1);
    }
}

/// There is no silent cap. After a parse there is one warning, in layout order,
/// for each schema with more records than the row cap, and none for any other.
/// It names the schema and how many of its records were dropped, and carries
/// the offset of the first of those, the record behind the last one that fit.
pub proof fn law_every_drop_is_warned_about_where_it_starts(
    version: Seq<char>,
    row_cap: u64,
    info: LayoutInfoModel,
    events: Seq<EventModel>,
)
    requires
        distinct_schemas(info.records),
        events.len() <= u64::MAX,
    ensures
        ({
            let fold = folded_parse(version, row_cap, info, events);
            let schemas = over_cap(info, events, row_cap);
            let warnings = warnings_of(fold, fold.tables.len() as int);
            &&& warnings.len() == schemas.len()
            &&& forall|w: int|
                0 <= w < schemas.len() ==> {
                    let name = info.records[schemas[w]].name;
                    let records = records_named(events, name);
                    let table = fold.tables[schemas[w]];
                    &&& #[trigger] warnings[w] == truncation_warning(table, row_cap)
                    &&& warnings[w].code == WarningCode::DocumentRowsTruncated.number()
                    &&& warnings[w].byte_offset == records[row_cap as int].byte_offset
                    &&& table.name == name
                    &&& table.rows == row_cap
                    &&& table.dropped == records.len() - row_cap
                }
        }),
{
    let fold = folded_parse(version, row_cap, info, events);
    let schemas = over_cap(info, events, row_cap);
    lemma_fold(version, row_cap, info, events);
    lemma_warned(version, row_cap, info, events, info.records.len() as int);
    lemma_schemas_past(info.records, events, row_cap as nat, info.records.len() as int);
    assert forall|w: int| 0 <= w < schemas.len() implies {
        let name = info.records[schemas[w]].name;
        let records = records_named(events, name);
        let table = fold.tables[schemas[w]];
        &&& #[trigger] warnings_of(fold, fold.tables.len() as int)[w] == truncation_warning(
            table,
            row_cap,
        )
        &&& table.first_dropped_offset == records[row_cap as int].byte_offset
        &&& table.name == name
        &&& table.rows == row_cap
        &&& table.dropped == records.len() - row_cap
    } by {
        lemma_table(version, row_cap, info, events, schemas[w]);
    }
}

} // verus!
