//! The document fold.

use grpc_ebcdic::codec::Codec;
use grpc_ebcdic::document_fold::{integrity_errors, DocumentFold, COLLECTOR, SCHEMA_NAME};
use grpc_ebcdic::layout;
use grpc_ebcdic::proto::document::v1 as doc;
use grpc_ebcdic::proto::v1 as pb;
use grpc_ebcdic::stream::{DecodeOptions, RecordStream};

/// This build's version, which every item is stamped with.
const VERSION: &str = "9.9.9-test";

/// A two-schema layout: a customer with text and a scaled packed decimal
/// behind a filler, and an order with one zoned integer.
fn two_schema_layout() -> pb::EbcdicLayout {
    pb::EbcdicLayout {
        description: "ACCOUNTS EXTRACT".into(),
        record_type_field: Some(pb::EbcdicField {
            name: "RECTYPE".into(),
            size: 1,
            field_type: pb::FieldType::String.number(),
            ..Default::default()
        }),
        records: vec![
            pb::EbcdicRecordLayout {
                name: "CUSTOMER".into(),
                selector: Some("C".into()),
                fields: vec![
                    pb::EbcdicField {
                        name: "NAME".into(),
                        size: 4,
                        field_type: pb::FieldType::String.number(),
                        ..Default::default()
                    },
                    pb::EbcdicField {
                        name: "BALANCE".into(),
                        size: 3,
                        field_type: pb::FieldType::PackedDecimal.number(),
                        scale: 2,
                        ..Default::default()
                    },
                    pb::EbcdicField {
                        name: String::new(),
                        size: 2,
                        field_type: pb::FieldType::Skip.number(),
                        ..Default::default()
                    },
                ],
            },
            pb::EbcdicRecordLayout {
                name: "ORDER".into(),
                selector: Some("O".into()),
                fields: vec![pb::EbcdicField {
                    name: "QTY".into(),
                    size: 3,
                    field_type: pb::FieldType::ZonedDecimal.number(),
                    ..Default::default()
                }],
            },
        ],
        ..Default::default()
    }
}

/// Wrap a layout in the options message.
fn options(layout: pb::EbcdicLayout) -> pb::ParseOptions {
    pb::ParseOptions {
        layout_source: Some(pb::parse_options::LayoutSource::Layout(layout)),
        ..Default::default()
    }
}

/// Decoder settings for these tests: cp037, strip controls, no caps.
fn decode_options() -> DecodeOptions {
    DecodeOptions {
        codec: Codec::resolve("cp037").unwrap(),
        strip_control_characters: true,
        max_records: 0,
        abort_on_error: false,
    }
}

/// A customer record: `C`, a four-character name, a packed balance, filler.
fn customer(name: &str, packed: [u8; 3]) -> Vec<u8> {
    let codec = Codec::resolve("cp037").unwrap();
    let mut bytes = codec.encode("C").unwrap();
    bytes.extend(codec.encode(name).unwrap());
    bytes.extend_from_slice(&packed);
    bytes.extend_from_slice(&[0x40, 0x40]);
    bytes
}

/// An order record: `O` and three zoned digits.
fn order(quantity: &str) -> Vec<u8> {
    Codec::resolve("cp037")
        .unwrap()
        .encode(&format!("O{quantity}"))
        .unwrap()
}

/// Run a real walk over `data` and fold every event it produces, exactly
/// as the service does.
fn fold(options: &pb::ParseOptions, data: &[u8], fold: DocumentFold) -> doc::Document {
    let mut fold = fold;
    let layout = layout::resolve(options).expect("the layout resolves");
    let info = layout.to_layout_info("cp037");
    fold.consume(&pb::parse_ebcdic_response::Event::LayoutInfo(info));
    let mut walk = RecordStream::new(layout, decode_options());
    walk.push(data);
    while let Some(row) = walk.next_record().expect("no decode failure") {
        fold.consume(&pb::parse_ebcdic_response::Event::Record(row));
    }
    walk.finish_input();
    let mut status = walk.status().expect("the walk ends cleanly");
    status.warnings.extend(fold.truncation_warnings());
    fold.consume(&pb::parse_ebcdic_response::Event::Status(status));
    let document = fold.take();
    assert!(
        integrity_errors(&document).is_empty(),
        "{:?}",
        integrity_errors(&document)
    );
    document
}

/// The text of every cell of one grid row.
fn row_text(table: &doc::TableItem, row: usize) -> Vec<String> {
    table.data.as_ref().unwrap().grid[row]
        .cells
        .iter()
        .map(|cell| cell.text.clone())
        .collect()
}

/// The column declarations of a table.
fn columns(table: &doc::TableItem) -> &[doc::TableColumnSchema] {
    &table.data.as_ref().unwrap().columns
}

/// The fixed-record layout a table declares it was decoded with.
fn record_layout(table: &doc::TableItem) -> &doc::RecordLayoutMeta {
    table
        .data
        .as_ref()
        .unwrap()
        .record_layout
        .as_ref()
        .expect("every table this fold writes declares its record layout")
}

/// The byte extent one grid row reports, or `None` when it reports none.
fn row_span(table: &doc::TableItem, row: usize) -> Option<(u64, u64)> {
    table.data.as_ref().unwrap().row_prov[row]
        .byte_range
        .as_ref()
        .map(|span| (span.start, span.end))
}

/// The typed value of one grid cell, which for this collector is a number
/// or nothing at all.
fn cell_number(table: &doc::TableItem, row: usize, column: usize) -> Option<f64> {
    let value = table.data.as_ref().unwrap().grid[row].cells[column]
        .value
        .as_ref()?;
    match value.kind.as_ref().expect("a value with no arm set") {
        doc::cell_value::Kind::Decimal(text) => text.parse::<f64>().ok(),
        doc::cell_value::Kind::Integer(number) => Some(*number as f64),
    }
}

/// The base of a text item, whichever variant it is.
fn text_base(item: &doc::BaseTextItem) -> &doc::TextItemBase {
    match item.item.as_ref().expect("the variant is set") {
        doc::base_text_item::Item::Text(value) => value.base.as_ref(),
        doc::base_text_item::Item::SectionHeader(value) => value.base.as_ref(),
        other => panic!("this fold only writes text and section headers, not {other:?}"),
    }
    .expect("the base is set")
}

/// The `DocItemLabel` of a text item.
fn text_label(item: &doc::BaseTextItem) -> i32 {
    text_base(item).label
}

/// The text of a text item, which is also its `orig`.
fn text_of(item: &doc::BaseTextItem) -> String {
    let base = text_base(item);
    assert_eq!(base.orig, base.text, "orig and text say the same thing");
    base.text.clone()
}

/// The collector attribution of one item's source list.
fn collector(source: &[doc::SourceType]) -> doc::CollectorSource {
    assert_eq!(source.len(), 1, "exactly one attribution per item");
    let Some(doc::source_type::Source::Collector(collector)) = source[0].source.as_ref() else {
        panic!("the source is a collector attribution");
    };
    collector.clone()
}

/// A custom field, when there is one.
fn custom<'a>(fields: &'a [doc::CustomField], key: &str) -> Option<&'a doc::CustomValue> {
    fields
        .iter()
        .find(|field| field.key == key)
        .and_then(|field| field.value.as_ref())
}

/// A custom field, as a string.
fn custom_string(fields: &[doc::CustomField], key: &str) -> String {
    match custom(fields, key) {
        Some(doc::CustomValue::StringValue(text)) => text.clone(),
        other => panic!("{key} is {other:?}, not a string"),
    }
}

/// A custom field, as a number.
fn custom_number(fields: &[doc::CustomField], key: &str) -> f64 {
    match custom(fields, key) {
        Some(doc::CustomValue::NumberValue(number)) => *number as f64,
        other => panic!("{key} is {other:?}, not a number"),
    }
}

#[test]
fn a_multi_schema_layout_is_a_flat_run_of_headings_and_their_tables() {
    let mut data = customer("JANE", [0x12, 0x34, 0x5d]);
    data.extend(order("042"));
    data.extend(customer("BOB!", [0x00, 0x10, 0x0c]));
    let document = fold(
        &options(two_schema_layout()),
        &data,
        DocumentFold::new(VERSION),
    );

    assert_eq!(document.schema_name.as_deref(), Some(SCHEMA_NAME));
    // The layout's description names the document and opens it.
    assert_eq!(document.name, "ACCOUNTS EXTRACT");
    assert!(document.origin.is_none(), "the stream carries no filename");
    assert!(document.pictures.is_empty());
    assert!(
        document.field_regions.is_empty() && document.field_items.is_empty(),
        "the coordinator's merge drops these silently"
    );
    assert!(document.pages.is_empty(), "an EBCDIC file has no pages");

    assert!(
        document.groups.is_empty(),
        "the document uses no groups"
    );
    assert_eq!(document.tables.len(), 2);
    // Description, then heading and table per schema, all siblings on the
    // body, in layout order.
    let body = document.body.as_ref().unwrap();
    assert_eq!(
        body.children
            .iter()
            .map(|child| child.reference.as_str())
            .collect::<Vec<_>>(),
        vec![
            "#/texts/0",
            "#/texts/1",
            "#/tables/0",
            "#/texts/2",
            "#/tables/1"
        ]
    );
    assert_eq!(
        document
            .texts
            .iter()
            .map(|item| (text_label(item), text_of(item)))
            .collect::<Vec<_>>(),
        vec![
            (
                doc::DocItemLabel::Text.number(),
                "ACCOUNTS EXTRACT".to_string()
            ),
            (
                doc::DocItemLabel::SectionHeader.number(),
                "CUSTOMER".to_string()
            ),
            (doc::DocItemLabel::SectionHeader.number(), "ORDER".to_string()),
        ]
    );
    for (index, name) in ["CUSTOMER", "ORDER"].iter().enumerate() {
        let table = &document.tables[index];
        assert_eq!(
            table.parent.as_ref().unwrap().reference,
            "#/body",
            "a table is the heading's sibling, not its child"
        );
        let fields = &table.meta.as_ref().unwrap().custom_fields;
        assert_eq!(custom_string(fields, "ebcdic.schema"), *name);
    }

    // The filler is not a column: it has no name and no cell.
    let customers = &document.tables[0];
    assert_eq!(row_text(customers, 0), vec!["NAME", "BALANCE"]);
    assert!(
        customers.data.as_ref().unwrap().grid[0]
            .cells
            .iter()
            .all(|cell| cell.column_header),
        "the first grid row is the header"
    );
    assert_eq!(row_text(customers, 1), vec!["JANE", "-123.45"]);
    assert_eq!(row_text(customers, 2), vec!["BOB!", "1.00"]);
    let orders = &document.tables[1];
    assert_eq!(row_text(orders, 0), vec!["QTY"]);
    assert_eq!(row_text(orders, 1), vec!["42"]);
}

#[test]
fn a_decimal_keeps_the_exact_text_the_decoder_produced() {
    // 1.00 must not come back as 1, and -123.45 must keep its sign: the
    // fold copies `Decimal.text` and never re-renders it.
    let mut data = customer("ONE!", [0x00, 0x10, 0x0c]);
    data.extend(customer("NEG!", [0x12, 0x34, 0x5d]));
    data.extend(customer("ZERO", [0x00, 0x00, 0x0c]));
    let document = fold(
        &options(two_schema_layout()),
        &data,
        DocumentFold::new(VERSION),
    );
    let table = &document.tables[0];
    assert_eq!(
        (1..=3)
            .map(|row| row_text(table, row)[1].clone())
            .collect::<Vec<_>>(),
        vec!["1.00", "-123.45", "0.00"]
    );
}

#[test]
fn the_columns_declare_what_the_grid_only_renders() {
    let document = fold(
        &options(two_schema_layout()),
        &customer("JANE", [0x12, 0x34, 0x5d]),
        DocumentFold::new(VERSION),
    );
    let table = &document.tables[0];
    let declared = columns(table);
    assert_eq!(
        declared.len(),
        usize::try_from(table.data.as_ref().unwrap().num_cols).unwrap(),
        "one declaration per grid column, or the alignment means nothing"
    );
    assert_eq!(
        declared
            .iter()
            .map(|column| (
                column.name.as_deref().unwrap_or(""),
                column.declared_type.as_deref(),
                column.byte_offset,
                column.byte_size,
            ))
            .collect::<Vec<_>>(),
        vec![
            ("NAME", Some("string"), Some(0), Some(4)),
            ("BALANCE", Some("packed_decimal"), Some(4), Some(3)),
        ]
    );
    // A protobuf layout is flat and carries no picture clauses, and the
    // fold declares neither rather than inventing them.
    assert!(
        declared
            .iter()
            .all(|column| column.level.is_none() && column.picture.is_none())
    );
    // The header row renders the same columns, in the same order.
    assert_eq!(
        declared
            .iter()
            .map(|column| column.name.clone().unwrap_or_default())
            .collect::<Vec<_>>(),
        row_text(table, 0)
    );
}

#[test]
fn a_filler_is_the_gap_the_column_offsets_leave() {
    let options = pb::ParseOptions {
        layout_source: Some(pb::parse_options::LayoutSource::Copybook(
            "01 REC.\n05 A PIC X(2).\n05 FILLER PIC X(3).\n05 B PIC X(2).\n".into(),
        )),
        ..Default::default()
    };
    let document = fold(
        &options,
        &Codec::resolve("cp037").unwrap().encode("AAxxxBB").unwrap(),
        DocumentFold::new(VERSION),
    );
    let table = &document.tables[0];
    // The filler is not a column, and it did not have to be: the three
    // bytes between the end of A and the start of B are the whole of it.
    assert_eq!(
        columns(table)
            .iter()
            .map(|column| (
                column.name.as_deref().unwrap_or(""),
                column.byte_offset,
                column.byte_size
            ))
            .collect::<Vec<_>>(),
        vec![("REC.A", Some(0), Some(2)), ("REC.B", Some(5), Some(2)),]
    );
    assert_eq!(row_text(table, 1), vec!["AA", "BB"]);
}

#[test]
fn a_copybook_column_carries_its_path_its_level_and_its_picture() {
    let options = pb::ParseOptions {
        layout_source: Some(pb::parse_options::LayoutSource::Copybook(
            "01 REC.\n05 ADDRESS.\n10 STREET PIC X(4).\n05 MONTH PIC 9(2) OCCURS 2.\n".into(),
        )),
        ..Default::default()
    };
    let document = fold(
        &options,
        &Codec::resolve("cp037").unwrap().encode("MAIN0102").unwrap(),
        DocumentFold::new(VERSION),
    );
    let table = &document.tables[0];
    // The header keeps the flat name a reader sees; the declaration keeps
    // the name the copybook gives the field, subscript and all, so an
    // occurrence is no longer a sibling column with an index buried in a
    // string.
    assert_eq!(row_text(table, 0), vec!["STREET", "MONTH(1)", "MONTH(2)"]);
    assert_eq!(
        columns(table)
            .iter()
            .map(|column| (
                column.name.as_deref().unwrap_or(""),
                column.level,
                column.picture.as_deref(),
                column.declared_type.as_deref(),
            ))
            .collect::<Vec<_>>(),
        vec![
            ("REC.ADDRESS.STREET", Some(10), Some("X(4)"), Some("string")),
            ("REC.MONTH(1)", Some(5), Some("9(2)"), Some("zoned_decimal")),
            ("REC.MONTH(2)", Some(5), Some("9(2)"), Some("zoned_decimal")),
        ]
    );
    assert_eq!(row_text(table, 1), vec!["MAIN", "1", "2"]);
}

#[test]
fn a_numeric_cell_carries_a_number_and_a_text_cell_carries_none() {
    let mut data = customer("JANE", [0x12, 0x34, 0x5d]);
    data.extend(order("042"));
    let document = fold(
        &options(two_schema_layout()),
        &data,
        DocumentFold::new(VERSION),
    );

    let customers = &document.tables[0];
    // `CellValue` has no text arm and needs none: a character field is
    // already the whole of `TableCell.text`.
    assert_eq!(cell_number(customers, 1, 0), None);
    assert_eq!(row_text(customers, 1)[0], "JANE");
    // The scaled packed decimal is a number a consumer can compute with,
    // and the exact rendering is still there beside it.
    let balance = cell_number(customers, 1, 1).expect("a packed decimal is a number");
    assert!((balance - -123.45).abs() < 1e-9, "{balance}");
    assert_eq!(row_text(customers, 1)[1], "-123.45");
    // The scale lives on the column, once, rather than on every cell.
    assert_eq!(
        columns(customers)[1].declared_type.as_deref(),
        Some("packed_decimal")
    );

    let orders = &document.tables[1];
    let quantity = cell_number(orders, 1, 0).expect("a zoned integer is a number");
    assert!((quantity - 42.0).abs() < f64::EPSILON, "{quantity}");
    // A header cell is a label, not a value.
    assert_eq!(cell_number(orders, 0, 0), None);
}

#[test]
fn every_row_says_where_its_record_was_and_the_header_says_nothing() {
    // A customer is ten bytes on the wire (a one-byte selector prefix, a
    // four-byte name, three packed bytes, two filler) and an order is four.
    let mut data = customer("JANE", [0x12, 0x34, 0x5d]);
    data.extend(order("042"));
    data.extend(customer("BOB!", [0x00, 0x10, 0x0c]));
    let document = fold(
        &options(two_schema_layout()),
        &data,
        DocumentFold::new(VERSION),
    );

    for table in &document.tables {
        let data = table.data.as_ref().unwrap();
        assert_eq!(
            data.row_prov.len(),
            data.grid.len(),
            "row provenance is index-aligned with the grid or it is useless"
        );
        assert_eq!(
            row_span(table, 0),
            None,
            "the header row was assembled from the copybook, not read from the input"
        );
    }
    let customers = &document.tables[0];
    assert_eq!(row_span(customers, 1), Some((0, 10)));
    assert_eq!(row_span(customers, 2), Some((14, 24)));
    // The interleaved order record sits between the two customers, which
    // is why a table spans no single range and its rows each carry one.
    assert_eq!(row_span(&document.tables[1], 1), Some((10, 14)));
    assert!(
        document.tables.iter().all(|table| table.prov.is_empty()),
        "a table of interleaved records has no one location"
    );
}

#[test]
fn cells_are_indexed_in_both_arenas_and_the_two_agree() {
    let mut data = customer("JANE", [0x12, 0x34, 0x5d]);
    data.extend(customer("BOB!", [0x00, 0x10, 0x0c]));
    let document = fold(
        &options(two_schema_layout()),
        &data,
        DocumentFold::new(VERSION),
    );
    let data_ = document.tables[0].data.as_ref().unwrap();
    assert_eq!(data_.num_rows, 3, "two rows plus the header");
    assert_eq!(data_.num_cols, 2);
    let flat: Vec<_> = data_
        .grid
        .iter()
        .flat_map(|row| row.cells.iter().cloned())
        .collect();
    assert_eq!(flat, data_.table_cells, "the flat arena mirrors the grid");
    for (row, grid_row) in data_.grid.iter().enumerate() {
        for (column, cell) in grid_row.cells.iter().enumerate() {
            assert_eq!(cell.row_span, 1);
            assert_eq!(cell.col_span, 1);
            assert_eq!(
                (
                    cell.start_row_offset_idx,
                    cell.end_row_offset_idx,
                    cell.start_col_offset_idx,
                    cell.end_col_offset_idx
                ),
                (
                    i32::try_from(row).unwrap(),
                    i32::try_from(row).unwrap() + 1,
                    i32::try_from(column).unwrap(),
                    i32::try_from(column).unwrap() + 1
                )
            );
            assert!(cell.bbox.is_none(), "nothing here was ever on a page");
        }
    }
    assert!(
        document.tables.iter().all(|table| table.prov.is_empty()),
        "no prov: an EBCDIC record has a byte offset, not a page"
    );
}

#[test]
fn every_item_is_stamped_with_the_collector_the_dialect_and_the_version() {
    let mut data = customer("JANE", [0x12, 0x34, 0x5d]);
    data.extend(order("042"));
    let document = fold(
        &options(two_schema_layout()),
        &data,
        DocumentFold::new(VERSION),
    );
    // The description, both headings, and both tables: every item this
    // fold creates is attributed, not just the ones carrying rows.
    let sources: Vec<_> = document
        .texts
        .iter()
        .map(|item| collector(&text_base(item).source))
        .chain(document.tables.iter().map(|table| collector(&table.source)))
        .collect();
    assert_eq!(sources.len(), 5);
    for collector in sources {
        assert_eq!(collector.collector, COLLECTOR);
        assert_eq!(collector.model.as_deref(), Some("proto"));
        assert_eq!(collector.version.as_deref(), Some(VERSION));
        assert!(
            collector.confidence.is_none(),
            "a declarative mapping has no confidence to report"
        );
    }
}

#[test]
fn the_layout_form_is_the_model_and_a_copybook_says_so() {
    let options = pb::ParseOptions {
        layout_source: Some(pb::parse_options::LayoutSource::Copybook(
            "01 R.\n05 CODE PIC X(2).\n".into(),
        )),
        ..Default::default()
    };
    let document = fold(
        &options,
        &Codec::resolve("cp037").unwrap().encode("AB").unwrap(),
        DocumentFold::new(VERSION),
    );
    // No description in a copybook, so the schema name names the document.
    assert_eq!(document.name, "R");
    assert_eq!(
        collector(&document.tables[0].source).model.as_deref(),
        Some("copybook")
    );
    let body = document.body.as_ref().unwrap();
    let fields = &body.meta.as_ref().unwrap().custom_fields;
    assert_eq!(custom_string(fields, "ebcdic.layout_source"), "copybook");
}

#[test]
fn one_schema_gets_no_heading_and_the_table_still_names_it() {
    let options = pb::ParseOptions {
        layout_source: Some(pb::parse_options::LayoutSource::Copybook(
            "01 R.\n05 CODE PIC X(2).\n".into(),
        )),
        ..Default::default()
    };
    let document = fold(
        &options,
        &Codec::resolve("cp037").unwrap().encode("AB").unwrap(),
        DocumentFold::new(VERSION),
    );
    // There is a heading only when there is more than one schema, and there
    // is nothing else to write here: no description, no groups.
    assert!(document.texts.is_empty(), "{:?}", document.texts);
    assert!(document.groups.is_empty());
    assert_eq!(document.tables.len(), 1);
    assert_eq!(
        document
            .body
            .as_ref()
            .unwrap()
            .children
            .iter()
            .map(|child| child.reference.as_str())
            .collect::<Vec<_>>(),
        vec!["#/tables/0"]
    );
    // The name that would be lost with the heading.
    let fields = &document.tables[0].meta.as_ref().unwrap().custom_fields;
    assert_eq!(custom_string(fields, "ebcdic.schema"), "R");
}

#[test]
fn the_description_opens_the_document_as_a_plain_text_item() {
    let mut layout = two_schema_layout();
    layout.records.truncate(1);
    layout.record_type_field = None;
    layout.records[0].selector = None;
    let document = fold(
        &options(layout),
        &customer("JANE", [0x12, 0x34, 0x5d])[1..],
        DocumentFold::new(VERSION),
    );
    // One schema, so the only text is the description, and it comes first.
    assert_eq!(document.texts.len(), 1);
    assert_eq!(
        text_label(&document.texts[0]),
        doc::DocItemLabel::Text.number()
    );
    assert_eq!(text_of(&document.texts[0]), "ACCOUNTS EXTRACT");
    assert_eq!(
        document
            .body
            .as_ref()
            .unwrap()
            .children
            .iter()
            .map(|child| child.reference.as_str())
            .collect::<Vec<_>>(),
        vec!["#/texts/0", "#/tables/0"]
    );
}

#[test]
fn a_schema_that_matched_no_record_is_left_out_of_the_document() {
    // Two schemas declared, only one of them in the input.
    let document = fold(
        &options(two_schema_layout()),
        &customer("JANE", [0x12, 0x34, 0x5d]),
        DocumentFold::new(VERSION),
    );
    assert_eq!(
        document.tables.len(),
        1,
        "an empty schema is not an empty table"
    );
    let fields = &document.tables[0].meta.as_ref().unwrap().custom_fields;
    assert_eq!(custom_string(fields, "ebcdic.schema"), "CUSTOMER");
    // The heading survives the pruning: the layout still declared two
    // schemas, so the one table that is here says which one it is.
    assert_eq!(
        document.texts.iter().map(text_of).collect::<Vec<_>>(),
        vec!["ACCOUNTS EXTRACT", "CUSTOMER"]
    );
    assert_eq!(
        document
            .body
            .as_ref()
            .unwrap()
            .children
            .iter()
            .map(|child| child.reference.as_str())
            .collect::<Vec<_>>(),
        vec!["#/texts/0", "#/texts/1", "#/tables/0"]
    );
}

#[test]
fn the_body_and_the_tables_carry_the_layout_facts_as_custom_fields() {
    let mut layout = two_schema_layout();
    layout.header_size = 3;
    layout.footer_size = 5;
    let mut data = b"HDR".to_vec();
    data.extend(customer("JANE", [0x12, 0x34, 0x5d]));
    data.extend(b"TRAIL");
    let document = fold(&options(layout), &data, DocumentFold::new(VERSION));

    let body = document.body.as_ref().unwrap();
    let fields = &body.meta.as_ref().unwrap().custom_fields;
    assert_eq!(custom_string(fields, "ebcdic.encoding"), "cp037");
    assert_eq!(custom_string(fields, "ebcdic.layout_source"), "proto");
    assert!((custom_number(fields, "ebcdic.header_size") - 3.0).abs() < f64::EPSILON);
    assert!((custom_number(fields, "ebcdic.footer_size") - 5.0).abs() < f64::EPSILON);
    assert!((custom_number(fields, "ebcdic.prefix_size") - 1.0).abs() < f64::EPSILON);

    let fields = &document.tables[0].meta.as_ref().unwrap().custom_fields;
    assert_eq!(custom_string(fields, "ebcdic.schema"), "CUSTOMER");
    assert_eq!(custom_string(fields, "ebcdic.selector"), "C");
    assert!((custom_number(fields, "ebcdic.record_length") - 9.0).abs() < f64::EPSILON);
    assert!((custom_number(fields, "ebcdic.rows") - 1.0).abs() < f64::EPSILON);
    assert!(custom(fields, "ebcdic.rows_truncated").is_none());
}

#[test]
fn every_table_declares_the_record_layout_it_was_decoded_with() {
    let mut layout = two_schema_layout();
    layout.header_size = 3;
    layout.footer_size = 5;
    let mut data = b"HDR".to_vec();
    data.extend(customer("JANE", [0x12, 0x34, 0x5d]));
    data.extend(order("042"));
    data.extend(b"TRAIL");
    let document = fold(&options(layout), &data, DocumentFold::new(VERSION));

    // Numbers, not the decimal strings a custom field would have had to
    // carry them as, and the code page under its own name.
    let customers = record_layout(&document.tables[0]);
    assert_eq!(customers.encoding.as_deref(), Some("cp037"));
    assert_eq!(customers.record_length, Some(9));
    assert_eq!(customers.header_bytes, Some(3));
    assert_eq!(customers.footer_bytes, Some(5));
    assert_eq!(customers.prefix_bytes, Some(1));
    // Nothing was dropped, and zero says so: the field is set either way,
    // because an unset count is not a claim that a table is complete.
    assert_eq!(customers.rows_truncated, Some(0));

    // The trims are the layout's and every schema shares them; only the
    // record length is the schema's own.
    let orders = record_layout(&document.tables[1]);
    assert_eq!(orders.record_length, Some(3));
    assert_eq!(orders.encoding.as_deref(), Some("cp037"));
    assert_eq!(orders.header_bytes, Some(3));
    assert_eq!(orders.footer_bytes, Some(5));
    assert_eq!(orders.prefix_bytes, Some(1));
    assert_eq!(orders.rows_truncated, Some(0));
}

#[test]
fn a_layout_with_no_trims_declares_them_as_zero_rather_than_leaving_them_out() {
    let document = fold(
        &options(two_schema_layout()),
        &customer("JANE", [0x12, 0x34, 0x5d]),
        DocumentFold::new(VERSION),
    );
    let declared = record_layout(&document.tables[0]);
    assert_eq!(declared.header_bytes, Some(0));
    assert_eq!(declared.footer_bytes, Some(0));
    // The record-type prefix is one byte even when nothing is trimmed at
    // the file boundaries, and it is what stands between the record extent
    // in `row_prov` and the byte offsets the columns declare.
    assert_eq!(declared.prefix_bytes, Some(1));
}

#[test]
fn the_deprecated_layout_custom_fields_are_still_emitted_beside_the_typed_ones() {
    let mut layout = two_schema_layout();
    layout.header_size = 3;
    layout.footer_size = 5;
    let mut data = b"HDR".to_vec();
    data.extend(customer("JANE", [0x12, 0x34, 0x5d]));
    data.extend(b"TRAIL");
    let document = fold(&options(layout), &data, DocumentFold::new(VERSION));

    // The deprecation window: both halves are written this release, and
    // they agree. Delete either half and this fails, which is how the
    // window ends deliberately rather than by accident.
    let body = document.body.as_ref().unwrap();
    let fields = &body.meta.as_ref().unwrap().custom_fields;
    let table = &document.tables[0];
    let declared = record_layout(table);
    assert_eq!(
        custom_string(fields, "ebcdic.encoding"),
        declared.encoding.clone().unwrap()
    );
    assert!(
        (custom_number(fields, "ebcdic.header_size") - 3.0).abs() < f64::EPSILON
            && declared.header_bytes == Some(3)
    );
    assert!(
        (custom_number(fields, "ebcdic.footer_size") - 5.0).abs() < f64::EPSILON
            && declared.footer_bytes == Some(5)
    );
    assert!(
        (custom_number(fields, "ebcdic.prefix_size") - 1.0).abs() < f64::EPSILON
            && declared.prefix_bytes == Some(1)
    );

    let fields = &table.meta.as_ref().unwrap().custom_fields;
    assert!(
        (custom_number(fields, "ebcdic.record_length") - 9.0).abs() < f64::EPSILON
            && declared.record_length == Some(9)
    );
    // These two never had a typed home and are not deprecated with the
    // rest: a schema name and a record selector are this collector's, not
    // the document schema's.
    assert_eq!(custom_string(fields, "ebcdic.schema"), "CUSTOMER");
    assert_eq!(custom_string(fields, "ebcdic.selector"), "C");
}

#[test]
fn a_column_declares_the_level_88_conditions_of_the_field_behind_it() {
    let options = pb::ParseOptions {
        layout_source: Some(pb::parse_options::LayoutSource::Copybook(
            "01 REC.\n\
             05 STATUS-CODE PIC X.\n\
             88 STATUS-OPEN VALUE 'O'.\n\
             05 GRADE PIC 9.\n\
             88 PASSING VALUE 1 THRU 3.\n\
             05 REGION PIC X.\n\
             88 DOMESTIC VALUES ARE 'N' 'S' 'E'.\n\
             05 PLAIN PIC X.\n"
                .into(),
        )),
        ..Default::default()
    };
    let document = fold(
        &options,
        &Codec::resolve("cp037").unwrap().encode("O2NX").unwrap(),
        DocumentFold::new(VERSION),
    );
    let declared = columns(&document.tables[0]);

    // One literal: a range with a low bound and no high one. `high` unset
    // is the difference between "equals O" and "anything from O upwards".
    assert_eq!(declared[0].conditions.len(), 1);
    assert_eq!(declared[0].conditions[0].name, "STATUS-OPEN");
    assert_eq!(declared[0].conditions[0].values.len(), 1);
    assert_eq!(declared[0].conditions[0].values[0].low, "O");
    assert_eq!(declared[0].conditions[0].values[0].high, None);

    // THRU: one range carrying both bounds, still spelled the way the
    // copybook spelled them even though the field is numeric.
    assert_eq!(declared[1].conditions[0].name, "PASSING");
    assert_eq!(declared[1].conditions[0].values.len(), 1);
    assert_eq!(declared[1].conditions[0].values[0].low, "1");
    assert_eq!(
        declared[1].conditions[0].values[0].high.as_deref(),
        Some("3")
    );

    // Several literals: several ranges under the one condition name, in
    // declaration order, rather than one joined string.
    assert_eq!(declared[2].conditions[0].name, "DOMESTIC");
    assert_eq!(
        declared[2]
            .conditions
            .iter()
            .flat_map(|condition| condition.values.iter())
            .map(|range| (range.low.as_str(), range.high.as_deref()))
            .collect::<Vec<_>>(),
        vec![("N", None), ("S", None), ("E", None)]
    );

    // A field with no level-88 under it declares no conditions, which is
    // not the same as declaring an empty one.
    assert!(declared[3].conditions.is_empty());
}

#[test]
fn an_occurs_column_declares_its_occurrence_as_a_number() {
    let options = pb::ParseOptions {
        layout_source: Some(pb::parse_options::LayoutSource::Copybook(
            "01 REC.\n05 NAME PIC X(2).\n05 MONTH PIC 9(2) OCCURS 3.\n".into(),
        )),
        ..Default::default()
    };
    let document = fold(
        &options,
        &Codec::resolve("cp037").unwrap().encode("AB010203").unwrap(),
        DocumentFold::new(VERSION),
    );
    let declared = columns(&document.tables[0]);
    assert_eq!(
        declared
            .iter()
            .map(|column| (column.name.as_deref().unwrap_or(""), column.occurs_index))
            .collect::<Vec<_>>(),
        vec![
            // A field that occurs once is not occurrence one.
            ("REC.NAME", None),
            ("REC.MONTH(1)", Some(1)),
            ("REC.MONTH(2)", Some(2)),
            ("REC.MONTH(3)", Some(3)),
        ]
    );
    // A byte width is not a display width, and this collector has no page
    // to measure one on.
    assert!(declared.iter().all(|column| column.width.is_none()));
}

#[test]
fn rows_past_the_cap_are_counted_warned_about_and_left_out() {
    let mut data = Vec::new();
    for name in ["AAAA", "BBBB", "CCCC", "DDDD"] {
        data.extend(customer(name, [0x00, 0x10, 0x0c]));
    }
    data.extend(order("007"));

    // The cap is a parameter so this test costs five records rather than a
    // hundred thousand and one.
    let layout = layout::resolve(&options(two_schema_layout())).unwrap();
    let mut fold = DocumentFold::new(VERSION).with_row_cap(2);
    fold.consume(&pb::parse_ebcdic_response::Event::LayoutInfo(
        layout.to_layout_info("cp037"),
    ));
    let mut walk = RecordStream::new(layout, decode_options());
    walk.push(&data);
    while let Some(row) = walk.next_record().unwrap() {
        fold.consume(&pb::parse_ebcdic_response::Event::Record(row));
    }
    let warnings = fold.truncation_warnings();
    let document = fold.take();
    assert!(integrity_errors(&document).is_empty());

    assert_eq!(
        warnings.len(),
        1,
        "only the capped schema warns: {warnings:?}"
    );
    assert_eq!(
        warnings[0].code,
        pb::WarningCode::DocumentRowsTruncated.number()
    );
    assert!(warnings[0].message.contains("CUSTOMER"), "{warnings:?}");
    assert!(warnings[0].message.contains('2'), "{warnings:?}");
    // The third customer is where the fold stopped folding.
    assert_eq!(warnings[0].byte_offset, 20);

    let table = &document.tables[0];
    assert_eq!(table.data.as_ref().unwrap().num_rows, 3, "header plus two");
    assert_eq!(row_text(table, 1)[0], "AAAA");
    assert_eq!(row_text(table, 2)[0], "BBBB");
    // A dropped row leaves no provenance behind either: what is in the
    // grid and what claims a location are the same rows.
    let data_ = table.data.as_ref().unwrap();
    assert_eq!(data_.row_prov.len(), data_.grid.len());
    assert_eq!(row_span(table, 1), Some((0, 10)));
    assert_eq!(row_span(table, 2), Some((10, 20)));
    // The typed count is the truth: two rows dropped, as a number.
    assert_eq!(record_layout(table).rows_truncated, Some(2));
    let fields = &table.meta.as_ref().unwrap().custom_fields;
    assert!((custom_number(fields, "ebcdic.rows") - 2.0).abs() < f64::EPSILON);
    // Still written beside it for one release, and still only when rows
    // were actually dropped, which is what this key has always meant.
    assert!((custom_number(fields, "ebcdic.rows_truncated") - 2.0).abs() < f64::EPSILON);
    // The other schema is under the cap. The typed count says so with a
    // zero; the custom field says so by being absent.
    assert_eq!(record_layout(&document.tables[1]).rows_truncated, Some(0));
    let fields = &document.tables[1].meta.as_ref().unwrap().custom_fields;
    assert!(custom(fields, "ebcdic.rows_truncated").is_none());
    assert_eq!(row_text(&document.tables[1], 1), vec!["7"]);
}

#[test]
fn the_integrity_check_catches_a_link_written_in_one_direction_only() {
    let mut document = fold(
        &options(two_schema_layout()),
        &customer("JANE", [0x12, 0x34, 0x5d]),
        DocumentFold::new(VERSION),
    );
    // A table that names a parent which does not list it back is exactly
    // what the coordinator's merge loses without saying so.
    document
        .body
        .as_mut()
        .unwrap()
        .children
        .retain(|child| child.reference != "#/tables/0");
    let errors = integrity_errors(&document);
    assert_eq!(errors.len(), 1, "{errors:?}");
    assert!(errors[0].contains("does not list"), "{errors:?}");

    let mut document = fold(
        &options(two_schema_layout()),
        &customer("JANE", [0x12, 0x34, 0x5d]),
        DocumentFold::new(VERSION),
    );
    // Two text items with the same self_ref: the description and the
    // heading are separate items and the merge has to be able to tell
    // them apart.
    let first = text_base(&document.texts[0]).self_ref.clone();
    match document.texts[1].item.as_mut().unwrap() {
        doc::base_text_item::Item::SectionHeader(heading) => {
            heading.base.as_mut().unwrap().self_ref = first;
        }
        other => panic!("the second text is the schema heading, not {other:?}"),
    }
    let errors = integrity_errors(&document);
    assert!(
        errors
            .iter()
            .any(|error| error.contains("duplicate self_ref")),
        "{errors:?}"
    );
}
