//! What holds of every fold and of every document it ends in.

use vstd::prelude::*;
use crate::decode::lemma_decimal_is_numeral;
use crate::document_fold::{description, document_of, folded, is_empty_table, lemma_table_named,
    table_named, table_of, table_sound, to, warnings_of, with_heading, written, Fold, FoldedTable,
    Written};
use crate::document_fold::integrity::{all_listings, child_errors, claims, faults, in_order,
    is_named, item_errors, item_listings, items_of, known, lemma_order_exists, listings,
    parent_errors, table_links, text_links, Links, Listing};
use crate::document_fold::tables::{cell_number, cell_text, clamped, column_named, flat_cells,
    grid_row_of, lemma_column_named, place_of_row, placed, ColumnModel};
use crate::proto::document::v1::{BaseTextItemModel, CellValueModel, RefItemModel, TableItemModel};
use crate::proto::v1::{CellModel, LayoutInfoModel, RecordRowModel};
use crate::proto::v1::parse_ebcdic_response::EventModel;
use crate::text::decimal;

verus! {

/// Only the first opening event counts: a fold that has seen one is not
/// changed by another.
pub proof fn law_only_the_first_opening_counts(
    fold: Fold,
    first: LayoutInfoModel,
    second: LayoutInfoModel,
)
    ensures
        folded(folded(fold, EventModel::LayoutInfo(first)), EventModel::LayoutInfo(second))
            == folded(fold, EventModel::LayoutInfo(first)),
{
}

/// The trailer and the document itself change nothing.
pub proof fn law_the_trailer_changes_nothing(fold: Fold, event: EventModel)
    requires
        event is Status || event is Document,
    ensures
        folded(fold, event) == fold,
{
}

/// A fold that has seen events in order.
pub open spec fn folded_all(fold: Fold, events: Seq<EventModel>) -> Fold
    decreases events.len(),
{
    if events.len() == 0 {
        fold
    } else {
        folded(folded_all(fold, events.drop_last()), events.last())
    }
}

/// The records of a schema among events, in order.
pub open spec fn records_named(events: Seq<EventModel>, name: Seq<char>) -> Seq<RecordRowModel>
    decreases events.len(),
{
    if events.len() == 0 {
        Seq::empty()
    } else {
        let earlier = records_named(events.drop_last(), name);
        match events.last() {
            EventModel::Record(row) => if row.record_type == name {
                earlier.push(row)
            } else {
                earlier
            },
            _ => earlier,
        }
    }
}

/// The number of rows that are folded of a number of records.
pub open spec fn folded_rows(records: nat, row_cap: u64) -> nat {
    if records <= row_cap {
        records
    } else {
        row_cap as nat
    }
}

/// Every record is folded or counted: after any events, the table of a schema
/// holds its first records up to the row cap, in order, each as a grid row with
/// its place in the input, and the rest of them are its dropped rows, of which
/// it remembers where the first one was. No record is lost in silence.
pub proof fn law_every_record_is_folded_or_counted(
    fold: Fold,
    events: Seq<EventModel>,
    at: int,
)
    requires
        fold.info is Some,
        0 <= at < fold.tables.len(),
        table_named(fold.tables, fold.tables[at].name, fold.tables.len() as int) == Some(at),
        is_empty_table(fold.tables[at]),
        table_sound(fold.tables[at]),
        events.len() <= u64::MAX,
    ensures
        ({
            let start = fold.tables[at];
            let table = folded_all(fold, events).tables[at];
            let records = records_named(events, start.name);
            let rows = folded_rows(records.len(), fold.row_cap);
            &&& table.name == start.name
            &&& table.columns == start.columns
            &&& table.record_length == start.record_length
            &&& table.selector == start.selector
            &&& table.rows == rows
            &&& table.dropped == records.len() - rows
            &&& table.grid.len() == rows
            &&& table.row_prov.len() == rows
            &&& forall|i: int|
                0 <= i < rows ==> #[trigger] table.grid[i] == grid_row_of(
                    start.columns,
                    records[i].cells,
                    i + 1,
                )
            &&& forall|i: int|
                0 <= i < rows ==> #[trigger] table.row_prov[i] == place_of_row(records[i])
            &&& table.dropped > 0 ==> table.first_dropped_offset
                == records[rows as int].byte_offset
        }),
{
    lemma_counts(fold, events, at);
}

/// The state of a table after events, besides what keeps its name findable.
pub proof fn lemma_counts(fold: Fold, events: Seq<EventModel>, at: int)
    requires
        fold.info is Some,
        0 <= at < fold.tables.len(),
        table_named(fold.tables, fold.tables[at].name, fold.tables.len() as int) == Some(at),
        is_empty_table(fold.tables[at]),
        table_sound(fold.tables[at]),
        events.len() <= u64::MAX,
    ensures
        ({
            let start = fold.tables[at];
            let now = folded_all(fold, events);
            let table = now.tables[at];
            let records = records_named(events, start.name);
            let rows = folded_rows(records.len(), fold.row_cap);
            &&& now.info == fold.info
            &&& now.row_cap == fold.row_cap
            &&& now.version == fold.version
            &&& now.tables.len() == fold.tables.len()
            &&& forall|i: int|
                0 <= i < now.tables.len() ==> (#[trigger] now.tables[i]).name
                    == fold.tables[i].name
            &&& records.len() <= events.len()
            &&& table.columns == start.columns
            &&& table.record_length == start.record_length
            &&& table.selector == start.selector
            &&& table.rows == rows
            &&& table.dropped == records.len() - rows
            &&& table.grid.len() == rows
            &&& table.row_prov.len() == rows
            &&& forall|i: int|
                0 <= i < rows ==> #[trigger] table.grid[i] == grid_row_of(
                    start.columns,
                    records[i].cells,
                    i + 1,
                )
            &&& forall|i: int|
                0 <= i < rows ==> #[trigger] table.row_prov[i] == place_of_row(records[i])
            &&& table.dropped > 0 ==> table.first_dropped_offset
                == records[rows as int].byte_offset
        }),
    decreases events.len(),
{
    if events.len() > 0 {
        let earlier = events.drop_last();
        lemma_counts(fold, earlier, at);
        let before = folded_all(fold, earlier);
        match events.last() {
            EventModel::Record(row) => {
                let n = before.tables.len() as int;
                lemma_table_named(before.tables, row.record_type, n);
                lemma_same_names(before.tables, fold.tables, row.record_type, n);
                lemma_table_named(fold.tables, row.record_type, n);
            },
            _ => {},
        }
    }
}

/// Tables with the same names are found in the same places.
proof fn lemma_same_names(a: Seq<FoldedTable>, b: Seq<FoldedTable>, name: Seq<char>, k: int)
    requires
        0 <= k <= a.len(),
        a.len() == b.len(),
        forall|i: int| 0 <= i < a.len() ==> (#[trigger] a[i]).name == b[i].name,
    ensures
        table_named(a, name, k) == table_named(b, name, k),
    decreases k,
{
    if k > 0 {
        lemma_same_names(a, b, name, k - 1);
    }
}

/// Whether cell `k` is the last one of a name among the first `n` cells.
pub open spec fn is_last_named(cells: Seq<CellModel>, name: Seq<char>, k: int, n: int) -> bool {
    &&& 0 <= k < n
    &&& cells[k].name == name
    &&& forall|j: int| k < j < n ==> (#[trigger] cells[j]).name != name
}

/// Cells are placed by name rather than by position: a column shows the cell
/// of its name, and stays empty when the record has none, so that a short
/// record shifts no value into another column.
pub proof fn law_cells_are_placed_by_name(
    columns: Seq<ColumnModel>,
    cells: Seq<CellModel>,
    row: int,
    i: int,
)
    requires
        0 <= i < columns.len(),
        column_named(columns, columns[i].name, columns.len() as int) == Some(i),
    ensures
        ({
            let name = columns[i].name;
            let shown = grid_row_of(columns, cells, row).cells[i];
            &&& forall|k: int|
                #[trigger] is_last_named(cells, name, k, cells.len() as int) ==> shown.text
                    == cell_text(cells[k]) && shown.value == cell_number(cells[k])
            &&& (forall|k: int| 0 <= k < cells.len() ==> (#[trigger] cells[k]).name != name) ==> (
            shown.text.len() == 0 && shown.value is None)
        }),
{
    let n = cells.len() as int;
    let name = columns[i].name;
    lemma_placed(columns, cells, n, i);
    assert forall|k: int| #[trigger] is_last_named(cells, name, k, n) implies placed(
        columns,
        cells,
        n,
    )[i] == (cell_text(cells[k]), cell_number(cells[k])) by {}
}

/// What the first `n` cells put into a column.
proof fn lemma_placed(columns: Seq<ColumnModel>, cells: Seq<CellModel>, n: int, i: int)
    requires
        0 <= i < columns.len(),
        0 <= n <= cells.len(),
        column_named(columns, columns[i].name, columns.len() as int) == Some(i),
    ensures
        placed(columns, cells, n).len() == columns.len(),
        forall|k: int| #[trigger]
            is_last_named(cells, columns[i].name, k, n) ==> placed(columns, cells, n)[i] == (
                cell_text(cells[k]),
                cell_number(cells[k]),
            ),
        (forall|k: int| 0 <= k < n ==> (#[trigger] cells[k]).name != columns[i].name) ==> placed(
            columns,
            cells,
            n,
        )[i] == (Seq::<char>::empty(), None::<CellValueModel>),
    decreases n,
{
    if n > 0 {
        let name = columns[i].name;
        let added = cells[n - 1];
        lemma_placed(columns, cells, n - 1, i);
        lemma_column_named(columns, added.name, columns.len() as int);
        assert forall|k: int| #[trigger] is_last_named(cells, name, k, n) implies placed(
            columns,
            cells,
            n,
        )[i] == (cell_text(cells[k]), cell_number(cells[k])) by {
            if k < n - 1 {
                assert(cells[n - 1].name != name);
                assert(is_last_named(cells, name, k, n - 1));
            }
        }
    }
}

/// A record of a schema the layout does not declare changes nothing.
pub proof fn law_an_undeclared_record_is_not_folded(fold: Fold, row: RecordRowModel)
    requires
        forall|i: int|
            0 <= i < fold.tables.len() ==> (#[trigger] fold.tables[i]).name != row.record_type,
    ensures
        folded(fold, EventModel::Record(row)) == fold,
{
    lemma_table_named(fold.tables, row.record_type, fold.tables.len() as int);
}

/// A truncation is reported, and only a truncation: there is a warning exactly
/// when some schema has dropped rows.
pub proof fn law_every_truncation_is_reported(fold: Fold)
    ensures
        warnings_of(fold, fold.tables.len() as int).len() > 0 <==> (exists|i: int|
            0 <= i < fold.tables.len() && (#[trigger] fold.tables[i]).dropped > 0),
{
    lemma_warnings(fold, fold.tables.len() as int);
}

/// There is a warning about the first `k` schemas exactly when one of them has
/// dropped rows.
proof fn lemma_warnings(fold: Fold, k: int)
    requires
        0 <= k <= fold.tables.len(),
    ensures
        warnings_of(fold, k).len() > 0 <==> (exists|i: int|
            0 <= i < k && (#[trigger] fold.tables[i]).dropped > 0),
    decreases k,
{
    if k > 0 {
        lemma_warnings(fold, k - 1);
        if fold.tables[k - 1].dropped > 0 {
            assert(warnings_of(fold, k).len() > 0);
        } else if exists|i: int| 0 <= i < k && (#[trigger] fold.tables[i]).dropped > 0 {
            let i = choose|i: int| 0 <= i < k && (#[trigger] fold.tables[i]).dropped > 0;
            assert(i < k - 1);
        }
    }
}

/// The number of the first `k` schemas that matched a record.
pub open spec fn occurring(tables: Seq<FoldedTable>, k: int) -> nat
    decreases k,
{
    if k <= 0 {
        0
    } else {
        occurring(tables, k - 1) + if is_empty_table(tables[k - 1]) {
            0nat
        } else {
            1nat
        }
    }
}

/// A schema that matched no record leaves no trace: a document has a table for
/// each schema that did, and no other; a heading for each of those when the
/// layout declares more than one schema, whether or not all of them occur; and
/// the layout description in front, when there is one.
pub proof fn law_only_occurring_schemas_are_written(fold: Fold)
    ensures
        ({
            let document = document_of(fold);
            let tables = occurring(fold.tables, fold.tables.len() as int);
            &&& document.tables.len() == tables
            &&& document.texts.len() == (if description(fold).len() > 0 {
                1nat
            } else {
                0nat
            }) + (if fold.tables.len() > 1 {
                tables
            } else {
                0nat
            })
            &&& document.groups.len() == 0
            &&& document.body->Some_0.children.len() == document.texts.len()
                + document.tables.len()
        }),
{
    lemma_written_lengths(fold, fold.tables.len() as int);
}

/// How much a document holds after the first `k` schemas.
proof fn lemma_written_lengths(fold: Fold, k: int)
    requires
        0 <= k <= fold.tables.len(),
    ensures
        ({
            let content = written(fold, k);
            let tables = occurring(fold.tables, k);
            &&& content.tables.len() == tables
            &&& content.texts.len() == (if description(fold).len() > 0 {
                1nat
            } else {
                0nat
            }) + (if fold.tables.len() > 1 {
                tables
            } else {
                0nat
            })
            &&& content.children.len() == content.texts.len() + content.tables.len()
        }),
    decreases k,
{
    if k > 0 {
        lemma_written_lengths(fold, k - 1);
    }
}

/// A table is a rectangle, and everything beside its grid is aligned with it:
/// each grid row has one cell per declared column, the row count includes the
/// header, there is one provenance entry per grid row with none for the
/// header, and the flat cells are the grid's rows one after another.
pub proof fn law_a_table_is_aligned(fold: Fold, table: FoldedTable, index: nat)
    requires
        table_sound(table),
    ensures
        ({
            let data = table_of(fold, table, index).data->Some_0;
            let columns = table.columns.len() as int;
            &&& data.grid.len() == table.rows + 1
            &&& data.num_rows == clamped(data.grid.len() as int)
            &&& data.num_cols == clamped(columns)
            &&& data.columns.len() == columns
            &&& data.row_prov.len() == data.grid.len()
            &&& data.row_prov[0].byte_range is None
            &&& forall|i: int|
                0 <= i < data.grid.len() ==> (#[trigger] data.grid[i]).cells.len() == columns
            &&& data.table_cells.len() == data.grid.len() * columns
            &&& forall|i: int, j: int|
                0 <= i < data.grid.len() && 0 <= j < columns ==> data.table_cells[i * columns + j]
                    == #[trigger] data.grid[i].cells[j]
        }),
{
    let data = table_of(fold, table, index).data->Some_0;
    let columns = table.columns.len() as int;
    assert forall|i: int| 0 <= i < data.grid.len() implies (#[trigger] data.grid[i]).cells.len()
        == columns by {
        if i > 0 {
            assert(table.grid[i - 1].cells.len() == columns);
        }
    }
    lemma_flat(data.grid, columns, data.grid.len() as int);
    assert forall|i: int, j: int|
        0 <= i < data.grid.len() && 0 <= j < columns implies data.table_cells[i * columns + j]
        == #[trigger] data.grid[i].cells[j] by {
        lemma_flat_cell(data.grid, columns, data.grid.len() as int, i, j);
    }
}

/// The number of cells in the first `k` rows of a rectangle.
proof fn lemma_flat(grid: Seq<crate::proto::document::v1::TableRowModel>, columns: int, k: int)
    requires
        0 <= k <= grid.len(),
        columns >= 0,
        forall|i: int| 0 <= i < grid.len() ==> (#[trigger] grid[i]).cells.len() == columns,
    ensures
        flat_cells(grid, k).len() == k * columns,
    decreases k,
{
    if k > 0 {
        lemma_flat(grid, columns, k - 1);
        assert(grid[k - 1].cells.len() == columns);
        assert((k - 1) * columns + columns == k * columns) by (nonlinear_arith);
    } else {
        assert(k * columns == 0) by (nonlinear_arith)
            requires
                k == 0,
        ;
    }
}

/// Where a cell of a rectangle is among the flat cells.
proof fn lemma_flat_cell(
    grid: Seq<crate::proto::document::v1::TableRowModel>,
    columns: int,
    k: int,
    i: int,
    j: int,
)
    requires
        0 <= i < k <= grid.len(),
        0 <= j < columns,
        forall|i: int| 0 <= i < grid.len() ==> (#[trigger] grid[i]).cells.len() == columns,
    ensures
        flat_cells(grid, k)[i * columns + j] == grid[i].cells[j],
    decreases k,
{
    lemma_flat(grid, columns, k - 1);
    assert(0 <= i * columns) by (nonlinear_arith)
        requires
            0 <= i,
            0 < columns,
    ;
    if i < k - 1 {
        assert(i * columns + columns <= (k - 1) * columns) by (nonlinear_arith)
            requires
                i < k - 1,
                0 < columns,
        ;
        lemma_flat_cell(grid, columns, k - 1, i, j);
    } else {
        assert(grid[k - 1].cells.len() == columns);
    }
}

/// The reference of a text.
spec fn text_ref(i: nat) -> Seq<char> {
    "#/texts/"@ + decimal(i)
}

/// The reference of a table.
spec fn table_ref(i: nat) -> Seq<char> {
    "#/tables/"@ + decimal(i)
}

/// The links of an item of the body.
spec fn body_item(self_ref: Seq<char>) -> Option<Links> {
    Some(Links { self_ref, children: Seq::empty(), parent: Some(to("#/body"@)) })
}

/// Whether everything written so far is linked to the body in both directions.
spec fn is_linked(content: Written) -> bool {
    &&& forall|i: int|
        0 <= i < content.texts.len() ==> text_links(#[trigger] content.texts[i]) == body_item(
            text_ref(i as nat),
        )
    &&& forall|i: int|
        0 <= i < content.tables.len() ==> table_links(#[trigger] content.tables[i]) == body_item(
            table_ref(i as nat),
        )
    &&& forall|i: int|
        0 <= i < content.texts.len() ==> content.children.contains(
            to(#[trigger] text_ref(i as nat)),
        )
    &&& forall|i: int|
        0 <= i < content.tables.len() ==> content.children.contains(
            to(#[trigger] table_ref(i as nat)),
        )
    &&& forall|i: int|
        0 <= i < content.children.len() ==> is_reference(
            content,
            (#[trigger] content.children[i]).reference,
        )
}

/// Whether a reference is one of an item written so far.
spec fn is_reference(content: Written, reference: Seq<char>) -> bool {
    ||| exists|i: int| 0 <= i < content.texts.len() && reference == #[trigger] text_ref(i as nat)
    ||| exists|i: int|
        0 <= i < content.tables.len() && reference == #[trigger] table_ref(i as nat)
}

/// A reference stays one when more is written.
proof fn lemma_reference_stays(content: Written, after: Written, reference: Seq<char>)
    requires
        is_reference(content, reference),
        content.texts.len() <= after.texts.len(),
        content.tables.len() <= after.tables.len(),
    ensures
        is_reference(after, reference),
{
    if exists|i: int| 0 <= i < content.texts.len() && reference == #[trigger] text_ref(i as nat) {
        let i = choose|i: int|
            0 <= i < content.texts.len() && reference == #[trigger] text_ref(i as nat);
        assert(i < after.texts.len() && reference == text_ref(i as nat));
    } else {
        let i = choose|i: int|
            0 <= i < content.tables.len() && reference == #[trigger] table_ref(i as nat);
        assert(i < after.tables.len() && reference == table_ref(i as nat));
    }
}

/// Adding a text with its link keeps everything linked.
proof fn lemma_text_is_linked(content: Written, item: BaseTextItemModel)
    requires
        is_linked(content),
        text_links(item) == body_item(text_ref(content.texts.len())),
    ensures
        is_linked(
            Written {
                texts: content.texts.push(item),
                children: content.children.push(to(text_ref(content.texts.len()))),
                ..content
            },
        ),
{
    let n = content.texts.len();
    let after = Written {
        texts: content.texts.push(item),
        children: content.children.push(to(text_ref(n))),
        ..content
    };
    lemma_children_stay(content, after);
    assert(after.children[content.children.len() as int] == to(text_ref(n)));
    assert forall|i: int| 0 <= i < after.texts.len() implies text_links(
        #[trigger] after.texts[i],
    ) == body_item(text_ref(i as nat)) by {
        if i < n {
            assert(text_links(content.texts[i]) == body_item(text_ref(i as nat)));
        }
    }
    assert forall|i: int| 0 <= i < after.children.len() implies is_reference(
        after,
        (#[trigger] after.children[i]).reference,
    ) by {
        if i < content.children.len() {
            assert(is_reference(content, content.children[i].reference));
            lemma_reference_stays(content, after, content.children[i].reference);
        } else {
            let last = n as int;
            assert(0 <= last < after.texts.len() && after.children[i].reference == text_ref(
                last as nat,
            ));
        }
    }
}

/// Adding a table with its link keeps everything linked.
proof fn lemma_table_is_linked(content: Written, item: TableItemModel)
    requires
        is_linked(content),
        table_links(item) == body_item(table_ref(content.tables.len())),
    ensures
        is_linked(
            Written {
                tables: content.tables.push(item),
                children: content.children.push(to(table_ref(content.tables.len()))),
                ..content
            },
        ),
{
    let n = content.tables.len();
    let after = Written {
        tables: content.tables.push(item),
        children: content.children.push(to(table_ref(n))),
        ..content
    };
    lemma_children_stay(content, after);
    assert(after.children[content.children.len() as int] == to(table_ref(n)));
    assert forall|i: int| 0 <= i < after.tables.len() implies table_links(
        #[trigger] after.tables[i],
    ) == body_item(table_ref(i as nat)) by {
        if i < n {
            assert(table_links(content.tables[i]) == body_item(table_ref(i as nat)));
        }
    }
    assert forall|i: int| 0 <= i < after.children.len() implies is_reference(
        after,
        (#[trigger] after.children[i]).reference,
    ) by {
        if i < content.children.len() {
            assert(is_reference(content, content.children[i].reference));
            lemma_reference_stays(content, after, content.children[i].reference);
        } else {
            let last = n as int;
            assert(0 <= last < after.tables.len() && after.children[i].reference == table_ref(
                last as nat,
            ));
        }
    }
}

/// A list of children that grows keeps those it has.
proof fn lemma_children_stay(content: Written, after: Written)
    requires
        after.children.len() == content.children.len() + 1,
        after.children.drop_last() =~= content.children,
    ensures
        forall|child: RefItemModel| #[trigger]
            content.children.contains(child) ==> after.children.contains(child),
{
    assert forall|child: RefItemModel| #[trigger] content.children.contains(
        child,
    ) implies after.children.contains(child) by {
        let i = choose|i: int| 0 <= i < content.children.len() && content.children[i] == child;
        assert(after.children.drop_last()[i] == child);
        assert(after.children[i] == child);
    }
}

/// Everything written after the first `k` schemas is linked.
proof fn lemma_written_is_linked(fold: Fold, k: int)
    requires
        0 <= k <= fold.tables.len(),
    ensures
        is_linked(written(fold, k)),
    decreases k,
{
    if k <= 0 {
        let text = description(fold);
        let bare = Written { texts: Seq::empty(), tables: Seq::empty(), children: Seq::empty() };
        assert(is_linked(bare));
        if text.len() > 0 {
            let item = crate::document_fold::description_of(fold, text, 0);
            lemma_text_is_linked(bare, item);
            assert(written(fold, k) =~= (Written {
                texts: bare.texts.push(item),
                children: bare.children.push(to(text_ref(0))),
                ..bare
            }));
        } else {
            assert(written(fold, k) =~= bare);
        }
    } else {
        lemma_written_is_linked(fold, k - 1);
        let before = written(fold, k - 1);
        let table = fold.tables[k - 1];
        if !is_empty_table(table) {
            if fold.tables.len() > 1 {
                lemma_text_is_linked(
                    before,
                    crate::document_fold::heading_of(fold, table.name, before.texts.len()),
                );
            }
            let middle = with_heading(fold, before, table.name);
            lemma_table_is_linked(middle, table_of(fold, table, middle.tables.len()));
        }
    }
}

/// The items of a document are numbered densely and hang off the body: the
/// text at place `i` is `#/texts/i`, the table at place `i` is `#/tables/i`,
/// and each of them is a child of `#/body` with no children of its own.
pub proof fn law_items_are_numbered_densely(fold: Fold)
    ensures
        ({
            let document = document_of(fold);
            let body = Some(to("#/body"@));
            &&& forall|i: int|
                0 <= i < document.texts.len() ==> text_links(#[trigger] document.texts[i]) == Some(
                    Links {
                        self_ref: "#/texts/"@ + decimal(i as nat),
                        children: Seq::empty(),
                        parent: body,
                    },
                )
            &&& forall|i: int|
                0 <= i < document.tables.len() ==> table_links(#[trigger] document.tables[i])
                    == Some(
                    Links {
                        self_ref: "#/tables/"@ + decimal(i as nat),
                        children: Seq::empty(),
                        parent: body,
                    },
                )
        }),
{
    lemma_written_is_linked(fold, fold.tables.len() as int);
}

/// References to different texts differ, and so do those to different tables.
proof fn lemma_refs_differ(i: nat, j: nat)
    ensures
        text_ref(i) == text_ref(j) ==> i == j,
        table_ref(i) == table_ref(j) ==> i == j,
        text_ref(i) != table_ref(j),
        text_ref(i) != "#/body"@,
        text_ref(i) != "#/furniture"@,
        table_ref(i) != "#/body"@,
        table_ref(i) != "#/furniture"@,
        text_ref(i).len() > 0,
        table_ref(i).len() > 0,
{
    reveal_strlit("#/texts/");
    reveal_strlit("#/tables/");
    reveal_strlit("#/body");
    reveal_strlit("#/furniture");
    lemma_decimal_is_numeral(i);
    lemma_decimal_is_numeral(j);
    if text_ref(i) == text_ref(j) {
        assert(text_ref(i).skip(8) =~= decimal(i));
        assert(text_ref(j).skip(8) =~= decimal(j));
    }
    if table_ref(i) == table_ref(j) {
        assert(table_ref(i).skip(9) =~= decimal(i));
        assert(table_ref(j).skip(9) =~= decimal(j));
    }
    assert(text_ref(i)[3] == 'e');
    assert(table_ref(j)[3] == 'a');
    assert(text_ref(i)[2] == 't');
    assert(table_ref(i)[2] == 't');
    assert("#/body"@[2] == 'b');
    assert("#/furniture"@[2] == 'f');
}

/// The items of a linked document are the texts and the tables, each by its
/// own reference and each a child of the body.
spec fn links_at(content: Written, i: int) -> Option<Links> {
    if i < content.texts.len() {
        body_item(text_ref(i as nat))
    } else {
        body_item(table_ref((i - content.texts.len()) as nat))
    }
}

/// Whether items are the first ones of a linked document.
spec fn are_first(content: Written, items: Seq<Option<Links>>) -> bool {
    &&& items.len() <= content.texts.len() + content.tables.len()
    &&& forall|i: int| 0 <= i < items.len() ==> #[trigger] items[i] == links_at(content, i)
}

/// What the first items of a linked document resolve, claim and list.
proof fn lemma_first_items(content: Written, items: Seq<Option<Links>>)
    requires
        are_first(content, items),
    ensures
        item_errors(items) == Seq::<Seq<char>>::empty(),
        item_listings(items) == Seq::<Listing>::empty(),
        forall|i: int|
            0 <= i < items.len() ==> known(items).contains(
                (#[trigger] items[i])->Some_0.self_ref,
            ),
        known(items).contains("#/body"@),
        forall|reference: Seq<char>| #[trigger]
            known(items).contains(reference) ==> reference == "#/body"@ || reference
                == "#/furniture"@ || exists|i: int|
                0 <= i < items.len() && (#[trigger] items[i])->Some_0.self_ref == reference,
        claims(items).len() == items.len(),
        forall|i: int|
            0 <= i < items.len() ==> #[trigger] claims(items)[i] == (Listing {
                parent: "#/body"@,
                child: items[i]->Some_0.self_ref,
            }),
    decreases items.len(),
{
    if items.len() > 0 {
        let earlier = items.drop_last();
        let n = items.len() - 1;
        assert forall|i: int| 0 <= i < earlier.len() implies #[trigger] earlier[i] == links_at(
            content,
            i,
        ) by {
            assert(items[i] == links_at(content, i));
        }
        lemma_first_items(content, earlier);
        let last = items[n];
        assert(last == links_at(content, n));
        assert(items.last() == last);
        let reference = last->Some_0.self_ref;
        let t = content.texts.len();
        lemma_refs_differ(
            if n < t {
                n as nat
            } else {
                (n - t) as nat
            },
            0,
        );
        assert(is_named(last));
        if known(earlier).contains(reference) {
            let i = choose|i: int|
                0 <= i < earlier.len() && (#[trigger] earlier[i])->Some_0.self_ref == reference;
            assert(earlier[i] == links_at(content, i));
            if n < t {
                lemma_refs_differ(i as nat, n as nat);
            } else if i < t {
                lemma_refs_differ(i as nat, (n - t) as nat);
            } else {
                lemma_refs_differ((i - t) as nat, (n - t) as nat);
            }
        }
        assert(item_errors(items) =~= Seq::<Seq<char>>::empty());
        assert(item_listings(items) =~= Seq::<Listing>::empty());
        assert forall|i: int| 0 <= i < items.len() implies known(items).contains(
            (#[trigger] items[i])->Some_0.self_ref,
        ) by {
            if i < n {
                assert(earlier[i] == items[i]);
            }
        }
        assert forall|r: Seq<char>| #[trigger] known(items).contains(r) implies r == "#/body"@ || r
            == "#/furniture"@ || exists|i: int|
            0 <= i < items.len() && (#[trigger] items[i])->Some_0.self_ref == r by {
            if r == reference {
                assert(items[n]->Some_0.self_ref == r);
            } else if r != "#/body"@ && r != "#/furniture"@ {
                let i = choose|i: int|
                    0 <= i < earlier.len() && (#[trigger] earlier[i])->Some_0.self_ref == r;
                assert(items[i]->Some_0.self_ref == r);
            }
        }
        assert forall|i: int| 0 <= i < items.len() implies #[trigger] claims(items)[i] == (Listing {
            parent: "#/body"@,
            child: items[i]->Some_0.self_ref,
        }) by {
            if i < n {
                assert(claims(items)[i] == claims(earlier)[i]);
                assert(earlier[i] == items[i]);
            }
        }
    }
}

/// No child is reported when every one resolves.
proof fn lemma_no_child_errors(ordered: Seq<Listing>, known: Set<Seq<char>>, k: int)
    requires
        0 <= k <= ordered.len(),
        forall|i: int| 0 <= i < k ==> known.contains((#[trigger] ordered[i]).child),
    ensures
        child_errors(ordered, known, k) == Seq::<Seq<char>>::empty(),
    decreases k,
{
    if k > 0 {
        lemma_no_child_errors(ordered, known, k - 1);
    }
}

/// No parent is reported when every one resolves and lists its item.
proof fn lemma_no_parent_errors(
    claims: Seq<Listing>,
    known: Set<Seq<char>>,
    listings: Seq<Listing>,
    k: int,
)
    requires
        0 <= k <= claims.len(),
        forall|i: int|
            0 <= i < k ==> known.contains((#[trigger] claims[i]).parent) && listings.contains(
                claims[i],
            ),
    ensures
        parent_errors(claims, known, listings, k) == Seq::<Seq<char>>::empty(),
    decreases k,
{
    if k > 0 {
        lemma_no_parent_errors(claims, known, listings, k - 1);
    }
}

/// Every document a fold ends in is sound: whatever events it has seen, every
/// item names itself once, every child and every parent resolves, and every
/// parent lists the child that claims it.
pub proof fn law_every_folded_document_is_sound(fold: Fold)
    ensures
        faults(document_of(fold)) == Seq::<Seq<char>>::empty(),
{
    let document = document_of(fold);
    let content = written(fold, fold.tables.len() as int);
    lemma_written_is_linked(fold, fold.tables.len() as int);
    let items = items_of(document);
    let t = content.texts.len();
    assert(items.len() == t + content.tables.len());
    assert forall|i: int| 0 <= i < items.len() implies #[trigger] items[i] == links_at(
        content,
        i,
    ) by {
        if i < t {
            assert(items[i] == text_links(content.texts[i]));
        } else {
            assert(items[i] == table_links(content.tables[i - t]));
        }
    }
    lemma_first_items(content, items);
    let body = listings("#/body"@, content.children);
    let listed = all_listings(document);
    assert(listings("#/furniture"@, Seq::<RefItemModel>::empty()) =~= Seq::<Listing>::empty());
    assert(listed =~= body);
    let ordered = in_order(listed);
    lemma_order_exists(listed);
    assert forall|i: int| 0 <= i < ordered.len() implies known(items).contains(
        (#[trigger] ordered[i]).child,
    ) by {
        assert(ordered.contains(ordered[i]));
        assert(listed.contains(ordered[i]));
        let j = choose|j: int| 0 <= j < body.len() && body[j] == ordered[i];
        assert(is_reference(content, content.children[j].reference));
        let reference = content.children[j].reference;
        if exists|i: int| 0 <= i < content.texts.len() && reference == #[trigger] text_ref(
            i as nat,
        ) {
            let a = choose|i: int|
                0 <= i < content.texts.len() && reference == #[trigger] text_ref(i as nat);
            assert(items[a] == links_at(content, a));
            assert(known(items).contains(items[a]->Some_0.self_ref));
        } else {
            let a = choose|i: int|
                0 <= i < content.tables.len() && reference == #[trigger] table_ref(i as nat);
            assert(items[t + a] == links_at(content, t + a));
            assert(known(items).contains(items[t + a]->Some_0.self_ref));
        }
    }
    lemma_no_child_errors(ordered, known(items), ordered.len() as int);
    let claimed = claims(items);
    assert forall|i: int| 0 <= i < claimed.len() implies known(items).contains(
        (#[trigger] claimed[i]).parent,
    ) && listed.contains(claimed[i]) by {
        assert(items[i] == links_at(content, i));
        let child = if i < t {
            to(text_ref(i as nat))
        } else {
            to(table_ref((i - t) as nat))
        };
        assert(content.children.contains(child));
        let j = choose|j: int| 0 <= j < content.children.len() && content.children[j] == child;
        assert(body[j] == claimed[i]);
    }
    lemma_no_parent_errors(claimed, known(items), listed, claimed.len() as int);
    assert(faults(document) =~= Seq::<Seq<char>>::empty());
}

} // verus!
