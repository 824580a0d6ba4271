//! What a fold makes of any events.

use grpc_ebcdic::document_fold::{integrity_errors, DocumentFold, DEFAULT_ROW_CAP};
use grpc_ebcdic::proto::document::v1 as doc;
use grpc_ebcdic::proto::v1 as pb;
use grpc_ebcdic::proto::v1::parse_ebcdic_response::Event;
use grpc_ebcdic::proto::v1::FieldType;

/// A field of a schema.
fn field(name: &str, kind: FieldType) -> pb::FieldSchema {
    pb::FieldSchema {
        name: name.to_string(),
        offset: 0,
        size: 1,
        field_type: kind.number(),
        scale: 0,
        picture: String::new(),
        level: None,
        path: name.to_string(),
        occurs_index: None,
        occurs_group: None,
        conditions: vec![],
    }
}

/// The opening event of a layout with the given schemas, of two columns each.
fn opening(description: &str, names: &[&str]) -> Event {
    Event::LayoutInfo(pb::LayoutInfo {
        encoding: "cp037".to_string(),
        records: names
            .iter()
            .map(|name| pb::RecordSchema {
                name: (*name).to_string(),
                record_length: 3,
                fields: vec![
                    field("A", FieldType::String),
                    field("", FieldType::Skip),
                    field("B", FieldType::ZonedDecimal),
                ],
                selector: None,
            })
            .collect(),
        description: description.to_string(),
        header_size: 0,
        footer_size: 0,
        prefix_size: 0,
        source: pb::LayoutSource::Proto.number(),
    })
}

/// A record of a schema at an offset, with cells of the given names.
fn record(schema: &str, offset: u64, cells: &[(&str, &str)]) -> Event {
    Event::Record(pb::RecordRow {
        record_type: schema.to_string(),
        row_index: 0,
        record_index: 0,
        byte_offset: offset,
        byte_length: 3,
        cells: cells
            .iter()
            .map(|(name, text)| pb::Cell {
                name: (*name).to_string(),
                field_type: FieldType::String.number(),
                value: Some(pb::cell::Value::Text((*text).to_string())),
            })
            .collect(),
    })
}

/// The document of events.
fn folded(row_cap: u64, events: &[Event]) -> (doc::Document, Vec<pb::ParseWarning>) {
    let mut fold = DocumentFold::new("1.2.3").with_row_cap(row_cap);
    for event in events {
        fold.consume(event);
    }
    let warnings = fold.truncation_warnings();
    let document = fold.take();
    assert_eq!(integrity_errors(&document), Vec::<String>::new());
    (document, warnings)
}

/// The texts of a grid row.
fn texts(table: &doc::TableItem, row: usize) -> Vec<&str> {
    table.data.as_ref().unwrap().grid[row]
        .cells
        .iter()
        .map(|cell| cell.text.as_str())
        .collect()
}

#[test]
fn cells_go_to_the_column_of_their_name() {
    let (document, _) = folded(
        DEFAULT_ROW_CAP,
        &[
            opening("", &["R"]),
            record("R", 0, &[("B", "b"), ("A", "a")]),
            record("R", 3, &[("B", "only")]),
            record("R", 6, &[("X", "nowhere"), ("A", "first"), ("A", "last")]),
        ],
    );
    let table = &document.tables[0];
    assert_eq!(texts(table, 0), vec!["A", "B"]);
    assert_eq!(texts(table, 1), vec!["a", "b"]);
    assert_eq!(texts(table, 2), vec!["", "only"]);
    assert_eq!(texts(table, 3), vec!["last", ""]);
}

#[test]
fn the_first_opening_counts_and_undeclared_records_do_not() {
    let (document, warnings) = folded(
        DEFAULT_ROW_CAP,
        &[
            record("R", 0, &[("A", "early")]),
            opening("", &["R"]),
            opening("late", &["S", "T"]),
            record("S", 3, &[("A", "undeclared")]),
            record("R", 6, &[("A", "kept")]),
        ],
    );
    assert_eq!(document.name, "R");
    assert_eq!(document.tables.len(), 1);
    assert_eq!(document.texts, vec![]);
    assert_eq!(texts(&document.tables[0], 1), vec!["kept", ""]);
    assert_eq!(warnings, vec![]);
}

#[test]
fn a_schema_whose_rows_were_all_dropped_still_has_its_table() {
    let (document, warnings) = folded(
        0,
        &[
            opening("d", &["R", "S"]),
            record("R", 9, &[("A", "a")]),
            record("R", 12, &[("A", "b")]),
        ],
    );
    assert_eq!(document.tables.len(), 1);
    let data = document.tables[0].data.as_ref().unwrap();
    assert_eq!(data.grid.len(), 1);
    assert_eq!(data.num_rows, 1);
    assert_eq!(data.record_layout.as_ref().unwrap().rows_truncated, Some(2));
    assert_eq!(warnings.len(), 1);
    assert_eq!(warnings[0].byte_offset, 9);
    assert_eq!(
        warnings[0].message,
        "record schema \"R\" produced 2 rows past the 0-row Document fold cap; its table holds \
         the first 0 and 2 were dropped. Every row was sent as a `record` event, so re-run with a \
         smaller max_records for a whole Document."
    );
}

#[test]
fn items_are_numbered_densely_on_the_body() {
    let (document, _) = folded(
        DEFAULT_ROW_CAP,
        &[
            opening("d", &["R", "S", "T"]),
            record("T", 0, &[]),
            record("R", 3, &[]),
        ],
    );
    let children: Vec<&str> = document
        .body
        .as_ref()
        .unwrap()
        .children
        .iter()
        .map(|child| child.reference.as_str())
        .collect();
    assert_eq!(
        children,
        vec!["#/texts/0", "#/texts/1", "#/tables/0", "#/texts/2", "#/tables/1"]
    );
    assert_eq!(document.tables[1].self_ref, "#/tables/1");
    assert_eq!(document.tables[1].parent.as_ref().unwrap().reference, "#/body");
}

#[test]
fn a_place_past_the_last_offset_stops_there() {
    let (document, _) = folded(
        DEFAULT_ROW_CAP,
        &[opening("", &["R"]), record("R", u64::MAX - 1, &[])],
    );
    let data = document.tables[0].data.as_ref().unwrap();
    let span = data.row_prov[1].byte_range.as_ref().unwrap();
    assert_eq!((span.start, span.end), (u64::MAX - 1, u64::MAX));
}

#[test]
fn a_parse_is_shaped_by_the_schemas_that_occur() {
    let (document, warnings) = folded(
        2,
        &[
            opening("Accounts", &["ONE", "TWO", "THREE"]),
            record("THREE", 0, &[("A", "a"), ("B", "1")]),
            record("ONE", 3, &[("B", "2")]),
            record("THREE", 6, &[("A", "c")]),
            record("THREE", 9, &[("A", "d")]),
            record("THREE", 12, &[("A", "e")]),
        ],
    );
    // One table per schema that occurs, in layout order, with its heading.
    let schemas: Vec<&doc::CustomField> = document
        .tables
        .iter()
        .map(|table| &table.meta.as_ref().unwrap().custom_fields[0])
        .collect();
    assert_eq!(schemas.len(), 2);
    for (field, name) in schemas.iter().zip(["ONE", "THREE"]) {
        assert_eq!(field.key, "ebcdic.schema");
        assert_eq!(field.value, Some(doc::CustomValue::StringValue(name.to_string())));
    }
    let children: Vec<&str> = document
        .body
        .as_ref()
        .unwrap()
        .children
        .iter()
        .map(|child| child.reference.as_str())
        .collect();
    assert_eq!(
        children,
        vec!["#/texts/0", "#/texts/1", "#/tables/0", "#/texts/2", "#/tables/1"]
    );
    // The first two records fit; the third is where the rest starts.
    let three = &document.tables[1];
    let data = three.data.as_ref().unwrap();
    assert_eq!(data.num_rows, 3);
    assert_eq!(data.grid.len(), 3);
    assert_eq!(data.row_prov.len(), 3);
    assert_eq!(texts(three, 0), vec!["A", "B"]);
    assert_eq!(texts(three, 1), vec!["a", "1"]);
    assert_eq!(texts(three, 2), vec!["c", ""]);
    assert_eq!(data.record_layout.as_ref().unwrap().rows_truncated, Some(2));
    assert_eq!(warnings.len(), 1);
    assert_eq!(warnings[0].byte_offset, 9);
    assert!(warnings[0].message.contains("THREE"));
    assert!(warnings[0].message.contains("2 were dropped"));
}
