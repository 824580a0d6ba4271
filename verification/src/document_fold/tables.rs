//! The tables of a folded document: what a column declares, and what one
//! record makes of it.

use vstd::prelude::*;
use vstd::hash_map::StringHashMap;
use crate::proto::document::v1::{ByteSpan, ByteSpanModel, CellValue, CellValueModel, ProvenanceItem,
    ProvenanceItemModel, TableCell, TableCellModel, TableColumnSchema, TableColumnSchemaModel,
    TableRow, TableRowModel, ValueCondition, ValueConditionModel, ValueRange, ValueRangeModel};
use crate::proto::document::v1::cell_value::{Kind, KindModel};
use crate::proto::v1::{Cell, CellModel, ConditionName, ConditionNameModel, FieldSchema,
    FieldSchemaModel, FieldType, RecordRow, RecordRowModel};
use crate::proto::v1::cell::{Value, ValueModel};
use crate::text::{signed_decimal, signed_text};

verus! {

/// The name of a field type, in the vocabulary the layout forms use: the same
/// spelling the JSON form accepts. Nothing for a number that names no type.
pub open spec fn named_type(number: i32) -> Option<Seq<char>> {
    match FieldType::from_number(number) {
        Some(FieldType::String) => Some("string"@),
        Some(FieldType::Integer) => Some("integer"@),
        Some(FieldType::UnsignedInteger) => Some("unsigned_integer"@),
        Some(FieldType::PackedDecimal) => Some("packed_decimal"@),
        Some(FieldType::ZonedDecimal) => Some("zoned_decimal"@),
        Some(FieldType::Skip) => Some("skip"@),
        _ => None,
    }
}

/// A number as 32 signed bits hold it, when they do.
pub open spec fn narrowed(number: Option<u32>) -> Option<i32> {
    match number {
        Some(n) => if n <= i32::MAX {
            Some(n as i32)
        } else {
            None
        },
        None => None,
    }
}

/// A count as 32 signed bits hold it, and their largest where they do not.
pub open spec fn clamped(count: int) -> i32 {
    if count <= i32::MAX {
        count as i32
    } else {
        i32::MAX
    }
}

/// One more than an index, where 32 signed bits hold it.
pub open spec fn stepped(index: i32) -> i32 {
    if index < i32::MAX {
        (index + 1) as i32
    } else {
        i32::MAX
    }
}

/// Text, unless it is empty.
pub open spec fn unless_empty(text: Seq<char>) -> Option<Seq<char>> {
    if text.len() == 0 {
        None
    } else {
        Some(text)
    }
}

/// A condition name as a document declares it: a bare literal is a range with
/// only a lower bound, and a `THRU` pair keeps both bounds apart.
pub open spec fn condition_of(declared: ConditionNameModel) -> ValueConditionModel {
    ValueConditionModel {
        name: declared.name,
        values: Seq::new(
            declared.ranges.len(),
            |i: int|
                ValueRangeModel { low: declared.ranges[i].low, high: declared.ranges[i].high },
        ),
    }
}

/// One column of a folded table: what its header cell says, and what the
/// layout declared about the bytes behind it.
pub struct Column {
    /// Field name as the layout declared it, which is the header cell's text
    /// and the name a row's cells are placed by.
    pub name: String,
    /// The declaration behind it.
    pub schema: TableColumnSchema,
}

/// [`Column`] as contracts speak of it.
#[verifier::ext_equal]
pub struct ColumnModel {
    /// See [`Column::name`].
    pub name: Seq<char>,
    /// See [`Column::schema`].
    pub schema: TableColumnSchemaModel,
}

impl DeepView for Column {
    type V = ColumnModel;

    open spec fn deep_view(&self) -> ColumnModel {
        ColumnModel { name: self.name@, schema: self.schema.deep_view() }
    }
}

/// The column of a field. The header keeps the flat field name, which is what a
/// row's cells are placed by; the declaration carries the qualification path
/// the copybook gives the field. The byte offset is measured from the start of
/// the record body.
pub open spec fn column_of(field: FieldSchemaModel) -> ColumnModel {
    ColumnModel {
        name: field.name,
        schema: TableColumnSchemaModel {
            name: Some(
                if field.path.len() == 0 {
                    field.name
                } else {
                    field.path
                },
            ),
            declared_type: named_type(field.field_type),
            picture: unless_empty(field.picture),
            byte_offset: Some(field.offset as u64),
            byte_size: Some(field.size as u64),
            level: narrowed(field.level),
            occurs_index: narrowed(field.occurs_index),
            width: None,
            conditions: Seq::new(
                field.conditions.len(),
                |i: int| condition_of(field.conditions[i]),
            ),
        },
    }
}

/// The columns of the first `k` fields of a schema. Fillers are not columns:
/// they name nothing and decode to nothing.
pub open spec fn columns_of(fields: Seq<FieldSchemaModel>, k: int) -> Seq<ColumnModel>
    decreases k,
{
    if k <= 0 {
        Seq::empty()
    } else if fields[k - 1].field_type == FieldType::Skip.number() {
        columns_of(fields, k - 1)
    } else {
        columns_of(fields, k - 1).push(column_of(fields[k - 1]))
    }
}

/// The last of the first `k` columns with a name, if there is one.
pub open spec fn column_named(columns: Seq<ColumnModel>, name: Seq<char>, k: int) -> Option<int>
    decreases k,
{
    if k <= 0 {
        None
    } else if columns[k - 1].name == name {
        Some(k - 1)
    } else {
        column_named(columns, name, k - 1)
    }
}

/// The text of a cell: text as it is, a decimal as its canonical rendering,
/// character for character, and an integer in decimal.
pub open spec fn cell_text(cell: CellModel) -> Seq<char> {
    match cell.value {
        Some(ValueModel::Text(text)) => text,
        Some(ValueModel::Decimal(decimal)) => decimal.text,
        Some(ValueModel::Integer(integer)) => signed_decimal(integer as int),
        None => Seq::empty(),
    }
}

/// The typed value of a cell, when it has one. Text cells have none: the text
/// is already the whole of a character field.
pub open spec fn cell_number(cell: CellModel) -> Option<CellValueModel> {
    match cell.value {
        Some(ValueModel::Decimal(decimal)) => Some(
            CellValueModel { kind: Some(KindModel::Decimal(decimal.text)), number_format: None },
        ),
        Some(ValueModel::Integer(integer)) => Some(
            CellValueModel { kind: Some(KindModel::Integer(integer)), number_format: None },
        ),
        _ => None,
    }
}

/// What stands in each column once the first `k` cells of a row are placed by
/// name. A short row leaves its columns empty instead of shifting every later
/// value one column to the left.
pub open spec fn placed(columns: Seq<ColumnModel>, cells: Seq<CellModel>, k: int) -> Seq<
    (Seq<char>, Option<CellValueModel>),
>
    decreases k,
{
    if k <= 0 {
        Seq::new(columns.len(), |i: int| (Seq::empty(), None))
    } else {
        let before = placed(columns, cells, k - 1);
        match column_named(columns, cells[k - 1].name, columns.len() as int) {
            Some(at) => before.update(at, (cell_text(cells[k - 1]), cell_number(cells[k - 1]))),
            None => before,
        }
    }
}

/// One table cell. Spans are always one: a record layout is a rectangle by
/// construction.
pub open spec fn table_cell_of(
    text: Seq<char>,
    value: Option<CellValueModel>,
    row: int,
    column: int,
    column_header: bool,
) -> TableCellModel {
    TableCellModel {
        bbox: None,
        row_span: 1,
        col_span: 1,
        start_row_offset_idx: clamped(row),
        end_row_offset_idx: stepped(clamped(row)),
        start_col_offset_idx: clamped(column),
        end_col_offset_idx: stepped(clamped(column)),
        text,
        column_header,
        row_header: false,
        row_section: false,
        fillable: false,
        value,
    }
}

/// The grid row of a record.
pub open spec fn grid_row_of(columns: Seq<ColumnModel>, cells: Seq<CellModel>, row: int) -> TableRowModel {
    let values = placed(columns, cells, cells.len() as int);
    TableRowModel {
        cells: Seq::new(
            columns.len(),
            |i: int| table_cell_of(values[i].0, values[i].1, row, i, false),
        ),
    }
}

/// The grid row of the header.
pub open spec fn header_row_of(columns: Seq<ColumnModel>) -> TableRowModel {
    TableRowModel {
        cells: Seq::new(
            columns.len(),
            |i: int| table_cell_of(columns[i].name, None, 0, i, true),
        ),
    }
}

/// Where a record was in the input.
pub open spec fn place_of_row(row: RecordRowModel) -> ProvenanceItemModel {
    ProvenanceItemModel {
        byte_range: Some(
            ByteSpanModel {
                start: row.byte_offset,
                end: if row.byte_offset + row.byte_length <= u64::MAX {
                    (row.byte_offset + row.byte_length) as u64
                } else {
                    u64::MAX
                },
            },
        ),
    }
}

/// The name of a field type.
fn field_type_name(number: i32) -> (r: Option<String>)
    ensures
        r.deep_view() == named_type(number),
{
    match FieldType::from_number(number) {
        Some(FieldType::String) => Some("string".to_owned()),
        Some(FieldType::Integer) => Some("integer".to_owned()),
        Some(FieldType::UnsignedInteger) => Some("unsigned_integer".to_owned()),
        Some(FieldType::PackedDecimal) => Some("packed_decimal".to_owned()),
        Some(FieldType::ZonedDecimal) => Some("zoned_decimal".to_owned()),
        Some(FieldType::Skip) => Some("skip".to_owned()),
        _ => None,
    }
}

fn narrow(number: Option<u32>) -> (r: Option<i32>)
    ensures
        r == narrowed(number),
{
    match number {
        Some(n) => if n <= i32::MAX as u32 {
            Some(n as i32)
        } else {
            None
        },
        None => None,
    }
}

/// Narrow a count to the 32 bits the document uses for table indices.
pub fn clamp(count: u64) -> (r: i32)
    ensures
        r == clamped(count as int),
{
    if count <= i32::MAX as u64 {
        count as i32
    } else {
        i32::MAX
    }
}

fn step(index: i32) -> (r: i32)
    ensures
        r == stepped(index),
{
    if index < i32::MAX {
        index + 1
    } else {
        i32::MAX
    }
}

/// One level-88 condition name as the document declares it.
fn condition(declared: &ConditionName) -> (r: ValueCondition)
    ensures
        r.deep_view() == condition_of(declared.deep_view()),
{
    let mut values: Vec<ValueRange> = Vec::new();
    let mut i: usize = 0;
    while i < declared.ranges.len()
        invariant
            i <= declared.ranges@.len(),
            values@.len() == i,
            forall|j: int|
                0 <= j < i ==> (#[trigger] values@[j]).deep_view() == condition_of(
                    declared.deep_view(),
                ).values[j],
        decreases declared.ranges@.len() - i,
    {
        let high: Option<String> = match &declared.ranges[i].high {
            Some(high) => Some(high.clone()),
            None => None,
        };
        values.push(ValueRange { low: declared.ranges[i].low.clone(), high });
        i = i + 1;
    }
    let r: ValueCondition = ValueCondition { name: declared.name.clone(), values };
    proof {
        assert(r.deep_view().values =~= condition_of(declared.deep_view()).values);
    }
    r
}

/// One column of a folded table, from the field schema behind it.
fn column(field: &FieldSchema) -> (r: Column)
    ensures
        r.deep_view() == column_of(field.deep_view()),
{
    let ghost model = field.deep_view();
    let path: String = if field.path.as_str().is_empty() {
        field.name.clone()
    } else {
        field.path.clone()
    };
    let picture: Option<String> = if field.picture.as_str().is_empty() {
        None
    } else {
        Some(field.picture.clone())
    };
    let mut conditions: Vec<ValueCondition> = Vec::new();
    let mut i: usize = 0;
    while i < field.conditions.len()
        invariant
            i <= field.conditions@.len(),
            model == field.deep_view(),
            conditions@.len() == i,
            forall|j: int|
                0 <= j < i ==> (#[trigger] conditions@[j]).deep_view() == condition_of(
                    model.conditions[j],
                ),
        decreases field.conditions@.len() - i,
    {
        proof {
            assert(model.conditions[i as int] == field.conditions@[i as int].deep_view());
        }
        conditions.push(condition(&field.conditions[i]));
        i = i + 1;
    }
    let r: Column = Column {
        name: field.name.clone(),
        schema: TableColumnSchema {
            name: Some(path),
            declared_type: field_type_name(field.field_type),
            picture,
            byte_offset: Some(field.offset as u64),
            byte_size: Some(field.size as u64),
            level: narrow(field.level),
            occurs_index: narrow(field.occurs_index),
            width: None,
            conditions,
        },
    };
    proof {
        assert(r.deep_view().schema.conditions =~= column_of(model).schema.conditions);
    }
    r
}

/// The columns of a schema.
pub fn build_columns(fields: &Vec<FieldSchema>) -> (r: Vec<Column>)
    ensures
        r.deep_view() == columns_of(fields.deep_view(), fields@.len() as int),
{
    let ghost models = fields.deep_view();
    let mut out: Vec<Column> = Vec::new();
    let mut k: usize = 0;
    proof {
        assert(out.deep_view() =~= columns_of(models, 0));
    }
    while k < fields.len()
        invariant
            k <= fields@.len(),
            models == fields.deep_view(),
            out.deep_view() == columns_of(models, k as int),
        decreases fields@.len() - k,
    {
        let ghost before = out.deep_view();
        proof {
            assert(models[k as int] == fields@[k as int].deep_view());
        }
        if fields[k].field_type != FieldType::Skip.number() {
            let built: Column = column(&fields[k]);
            let ghost model = built.deep_view();
            out.push(built);
            proof {
                assert(out.deep_view() =~= before.push(model));
            }
        }
        k = k + 1;
    }
    out
}

/// Whether a map holds, for each name among the first `k` columns, the last of
/// them with that name.
pub open spec fn indexes(map: Map<Seq<char>, usize>, columns: Seq<ColumnModel>, k: int) -> bool {
    forall|name: Seq<char>|
        match column_named(columns, name, k) {
            Some(at) => #[trigger] map.contains_key(name) && map[name] == at,
            None => !map.contains_key(name),
        }
}

/// Index columns by name.
pub fn index_columns(columns: &Vec<Column>) -> (r: StringHashMap<usize>)
    ensures
        indexes(r@, columns.deep_view(), columns@.len() as int),
{
    let ghost models = columns.deep_view();
    let mut out: StringHashMap<usize> = StringHashMap::new();
    let mut k: usize = 0;
    while k < columns.len()
        invariant
            k <= columns@.len(),
            models == columns.deep_view(),
            indexes(out@, models, k as int),
        decreases columns@.len() - k,
    {
        let ghost before = out@;
        proof {
            assert(models[k as int] == columns@[k as int].deep_view());
        }
        out.insert(columns[k].name.clone(), k);
        proof {
            assert forall|name: Seq<char>|
                match column_named(models, name, k + 1) {
                    Some(at) => #[trigger] out@.contains_key(name) && out@[name] == at,
                    None => !out@.contains_key(name),
                } by {
                assert(before.contains_key(name) == before.contains_key(name));
            }
        }
        k = k + 1;
    }
    out
}

/// A column found is one of those searched.
pub proof fn lemma_column_named(columns: Seq<ColumnModel>, name: Seq<char>, k: int)
    requires
        0 <= k <= columns.len(),
    ensures
        column_named(columns, name, k) matches Some(at) ==> 0 <= at < k && columns[at].name == name,
    decreases k,
{
    if k > 0 && columns[k - 1].name != name {
        lemma_column_named(columns, name, k - 1);
    }
}

/// Render one decoded cell as table text.
fn render_cell(cell: &Cell) -> (r: String)
    ensures
        r@ == cell_text(cell.deep_view()),
{
    match &cell.value {
        Some(Value::Text(text)) => text.clone(),
        Some(Value::Decimal(decimal)) => decimal.text.clone(),
        Some(Value::Integer(integer)) => signed_text(*integer as i128),
        None => String::new(),
    }
}

/// The typed value of one decoded cell, when it has one.
fn value_cell(cell: &Cell) -> (r: Option<CellValue>)
    ensures
        r.deep_view() == cell_number(cell.deep_view()),
{
    match &cell.value {
        Some(Value::Decimal(decimal)) => Some(
            CellValue { kind: Some(Kind::Decimal(decimal.text.clone())), number_format: None },
        ),
        Some(Value::Integer(integer)) => Some(
            CellValue { kind: Some(Kind::Integer(*integer)), number_format: None },
        ),
        _ => None,
    }
}

/// Copy the typed value of a cell.
fn copy_value(value: &Option<CellValue>) -> (r: Option<CellValue>)
    ensures
        r.deep_view() == value.deep_view(),
{
    match value {
        None => None,
        Some(value) => {
            let kind: Option<Kind> = match &value.kind {
                Some(Kind::Decimal(text)) => Some(Kind::Decimal(text.clone())),
                Some(Kind::Integer(integer)) => Some(Kind::Integer(*integer)),
                None => None,
            };
            let number_format: Option<String> = match &value.number_format {
                Some(format) => Some(format.clone()),
                None => None,
            };
            Some(CellValue { kind, number_format })
        },
    }
}

/// One table cell at a row and a column.
fn table_cell(
    text: String,
    value: Option<CellValue>,
    row: u64,
    column: usize,
    column_header: bool,
) -> (r: TableCell)
    ensures
        r.deep_view() == table_cell_of(
            text@,
            value.deep_view(),
            row as int,
            column as int,
            column_header,
        ),
{
    let row_at: i32 = clamp(row);
    let column_at: i32 = clamp(column as u64);
    TableCell {
        bbox: None,
        row_span: 1,
        col_span: 1,
        start_row_offset_idx: row_at,
        end_row_offset_idx: step(row_at),
        start_col_offset_idx: column_at,
        end_col_offset_idx: step(column_at),
        text,
        column_header,
        row_header: false,
        row_section: false,
        fillable: false,
        value,
    }
}

/// Copy a table cell that the fold built.
fn copy_cell(cell: &TableCell) -> (r: TableCell)
    requires
        cell.bbox is None,
    ensures
        r.deep_view() == cell.deep_view(),
{
    TableCell {
        bbox: None,
        row_span: cell.row_span,
        col_span: cell.col_span,
        start_row_offset_idx: cell.start_row_offset_idx,
        end_row_offset_idx: cell.end_row_offset_idx,
        start_col_offset_idx: cell.start_col_offset_idx,
        end_col_offset_idx: cell.end_col_offset_idx,
        text: cell.text.clone(),
        column_header: cell.column_header,
        row_header: cell.row_header,
        row_section: cell.row_section,
        fillable: cell.fillable,
        value: copy_value(&cell.value),
    }
}

/// What stands in one column of a row.
struct Placed {
    /// The rendering.
    text: String,
    /// The typed value.
    value: Option<CellValue>,
}

impl Placed {
    spec fn model(self) -> (Seq<char>, Option<CellValueModel>) {
        (self.text@, self.value.deep_view())
    }
}

/// Place the cells of a row by name.
fn place_cells(columns: usize, index: &StringHashMap<usize>, cells: &Vec<Cell>, Ghost(models): Ghost<
    Seq<ColumnModel>,
>) -> (r: Vec<Placed>)
    requires
        columns == models.len(),
        indexes(index@, models, models.len() as int),
    ensures
        r@.len() == models.len(),
        forall|i: int|
            0 <= i < r@.len() ==> (#[trigger] r@[i]).model() == placed(
                models,
                cells.deep_view(),
                cells@.len() as int,
            )[i],
{
    let ghost given = cells.deep_view();
    let mut out: Vec<Placed> = Vec::new();
    let mut i: usize = 0;
    while i < columns
        invariant
            i <= columns,
            out@.len() == i,
            forall|j: int|
                0 <= j < i ==> (#[trigger] out@[j]).model() == (
                    Seq::<char>::empty(),
                    None::<CellValueModel>,
                ),
        decreases columns - i,
    {
        out.push(Placed { text: String::new(), value: None });
        i = i + 1;
    }
    let mut k: usize = 0;
    while k < cells.len()
        invariant
            k <= cells@.len(),
            given == cells.deep_view(),
            columns == models.len(),
            indexes(index@, models, models.len() as int),
            out@.len() == models.len(),
            placed(models, given, k as int).len() == models.len(),
            forall|j: int|
                0 <= j < out@.len() ==> (#[trigger] out@[j]).model() == placed(
                    models,
                    given,
                    k as int,
                )[j],
        decreases cells@.len() - k,
    {
        proof {
            assert(given[k as int] == cells@[k as int].deep_view());
            lemma_column_named(models, given[k as int].name, models.len() as int);
        }
        let at: Option<&usize> = index.get(&cells[k].name);
        proof {
            let name = given[k as int].name;
            assert(index@.contains_key(name) <==> column_named(models, name, models.len() as int) is Some);
        }
        match at {
            Some(at) => {
                let placed_cell: Placed = Placed {
                    text: render_cell(&cells[k]),
                    value: value_cell(&cells[k]),
                };
                out.set(*at, placed_cell);
            },
            None => {},
        }
        k = k + 1;
    }
    out
}

/// Build the grid row of a record.
pub fn build_row(
    columns: &Vec<Column>,
    index: &StringHashMap<usize>,
    cells: &Vec<Cell>,
    row: u64,
) -> (r: TableRow)
    requires
        indexes(index@, columns.deep_view(), columns@.len() as int),
    ensures
        r.deep_view() == grid_row_of(columns.deep_view(), cells.deep_view(), row as int),
{
    let ghost models = columns.deep_view();
    let ghost wanted = grid_row_of(models, cells.deep_view(), row as int).cells;
    let values: Vec<Placed> = place_cells(columns.len(), index, cells, Ghost(models));
    let mut out: Vec<TableCell> = Vec::new();
    let mut i: usize = 0;
    while i < values.len()
        invariant
            i <= values@.len(),
            values@.len() == models.len(),
            wanted == grid_row_of(models, cells.deep_view(), row as int).cells,
            forall|i: int|
                0 <= i < values@.len() ==> (#[trigger] values@[i]).model() == placed(
                    models,
                    cells.deep_view(),
                    cells@.len() as int,
                )[i],
            out@.len() == i,
            forall|j: int| 0 <= j < i ==> (#[trigger] out@[j]).deep_view() == wanted[j],
        decreases values@.len() - i,
    {
        proof {
            assert(values@[i as int].model() == placed(
                models,
                cells.deep_view(),
                cells@.len() as int,
            )[i as int]);
        }
        out.push(
            table_cell(values[i].text.clone(), copy_value(&values[i].value), row, i, false),
        );
        i = i + 1;
    }
    let r: TableRow = TableRow { cells: out };
    proof {
        assert(r.deep_view().cells =~= wanted);
    }
    r
}

/// Build the header row.
pub fn build_header(columns: &Vec<Column>) -> (r: TableRow)
    ensures
        r.deep_view() == header_row_of(columns.deep_view()),
{
    let ghost models = columns.deep_view();
    let mut out: Vec<TableCell> = Vec::new();
    let mut i: usize = 0;
    while i < columns.len()
        invariant
            i <= columns@.len(),
            models == columns.deep_view(),
            out@.len() == i,
            forall|j: int|
                0 <= j < i ==> (#[trigger] out@[j]).deep_view() == header_row_of(models).cells[j],
        decreases columns@.len() - i,
    {
        proof {
            assert(models[i as int] == columns@[i as int].deep_view());
        }
        out.push(table_cell(columns[i].name.clone(), None, 0, i, true));
        i = i + 1;
    }
    let r: TableRow = TableRow { cells: out };
    proof {
        assert(r.deep_view().cells =~= header_row_of(models).cells);
    }
    r
}

/// The cells of the first `k` rows, row by row.
pub open spec fn flat_cells(grid: Seq<TableRowModel>, k: int) -> Seq<TableCellModel>
    decreases k,
{
    if k <= 0 {
        Seq::empty()
    } else {
        flat_cells(grid, k - 1) + grid[k - 1].cells
    }
}

/// Whether no cell of a grid has a place on a page.
pub open spec fn unplaced(grid: Seq<TableRowModel>) -> bool {
    forall|i: int, j: int|
        0 <= i < grid.len() && 0 <= j < grid[i].cells.len() ==> (
        #[trigger] grid[i].cells[j]).bbox is None
}

/// Copy the cells of a grid into one list, row by row.
pub fn flatten_grid(grid: &Vec<TableRow>) -> (r: Vec<TableCell>)
    requires
        unplaced(grid.deep_view()),
    ensures
        r.deep_view() == flat_cells(grid.deep_view(), grid@.len() as int),
{
    let ghost models = grid.deep_view();
    let mut out: Vec<TableCell> = Vec::new();
    let mut i: usize = 0;
    proof {
        assert(out.deep_view() =~= flat_cells(models, 0));
    }
    while i < grid.len()
        invariant
            i <= grid@.len(),
            models == grid.deep_view(),
            unplaced(models),
            out.deep_view() == flat_cells(models, i as int),
        decreases grid@.len() - i,
    {
        let ghost before = out.deep_view();
        let row: &TableRow = &grid[i];
        let ghost cells = models[i as int].cells;
        proof {
            assert(models[i as int] == row.deep_view());
            assert(before + cells.take(0) =~= before);
        }
        let mut j: usize = 0;
        while j < row.cells.len()
            invariant
                j <= row.cells@.len(),
                i < grid@.len(),
                models == grid.deep_view(),
                unplaced(models),
                cells == row.deep_view().cells,
                cells == models[i as int].cells,
                out.deep_view() == before + cells.take(j as int),
            decreases row.cells@.len() - j,
        {
            let ghost so_far = out.deep_view();
            proof {
                assert(cells[j as int] == row.cells@[j as int].deep_view());
                assert(models[i as int].cells[j as int].bbox is None);
            }
            let copy: TableCell = copy_cell(&row.cells[j]);
            let ghost model = copy.deep_view();
            out.push(copy);
            proof {
                assert(out.deep_view() =~= so_far.push(model));
                assert(so_far.push(cells[j as int]) =~= before + cells.take(j + 1));
            }
            j = j + 1;
        }
        proof {
            assert(cells.take(j as int) =~= cells);
        }
        i = i + 1;
    }
    out
}

/// Where a record was in the input.
pub fn locate(row: &RecordRow) -> (r: ProvenanceItem)
    ensures
        r.deep_view() == place_of_row(row.deep_view()),
{
    let end: u64 = if row.byte_length <= u64::MAX - row.byte_offset {
        row.byte_offset + row.byte_length
    } else {
        u64::MAX
    };
    ProvenanceItem { byte_range: Some(ByteSpan { start: row.byte_offset, end }) }
}

} // verus!
