//! The walk over a byte stream.

use grpc_ebcdic::codec::Codec;
use grpc_ebcdic::error::ParseError;
use grpc_ebcdic::layout;
use grpc_ebcdic::proto::v1 as pb;
use grpc_ebcdic::stream::{DecodeOptions, RecordStream};

/// The rows a trailer counts for a schema.
fn rows_of(status: &pb::ParseStatus, name: &str) -> u64 {
    status
        .rows_per_record_type
        .iter()
        .find(|count| count.record_type == name)
        .expect("the schema is counted")
        .rows
}

/// Default decoder settings for the tests: cp037, strip controls, no caps.
fn options() -> DecodeOptions {
    DecodeOptions {
        codec: Codec::resolve("cp037").unwrap(),
        strip_control_characters: true,
        max_records: 0,
        abort_on_error: false,
    }
}

/// A four-byte fixed record: two characters and a two-digit zoned number.
fn simple_layout() -> layout::Layout {
    layout::resolve(&pb::ParseOptions {
        layout_source: Some(pb::parse_options::LayoutSource::Copybook(
            "01 R.\n05 CODE PIC X(2).\n05 QTY PIC 9(2).\n".into(),
        )),
        ..Default::default()
    })
    .expect("the copybook compiles")
}

/// Encode one four-byte record.
fn record(code: &str, qty: &str) -> Vec<u8> {
    let codec = Codec::resolve("cp037").unwrap();
    let mut bytes = codec.encode(code).unwrap();
    bytes.extend(codec.encode(qty).unwrap());
    bytes
}

/// Drain every record the stream can produce right now.
fn drain(stream: &mut RecordStream) -> Vec<pb::RecordRow> {
    let mut rows = Vec::new();
    while let Some(row) = stream.next_record().expect("no decode failure") {
        rows.push(row);
    }
    rows
}

#[test]
fn a_record_is_emitted_the_moment_its_last_byte_arrives() {
    let mut stream = RecordStream::new(simple_layout(), options());
    let bytes = record("AB", "42");
    // Three of four bytes: nothing can be decoded yet.
    stream.push(&bytes[..3]);
    assert!(
        drain(&mut stream).is_empty(),
        "a partial record yields nothing"
    );
    // The fourth byte completes it, with no further input and no end of
    // stream. This is the property the whole service exists for.
    stream.push(&bytes[3..]);
    let rows = drain(&mut stream);
    assert_eq!(rows.len(), 1);
    assert_eq!(
        rows[0].cells[0].value,
        Some(pb::cell::Value::Text("AB".into()))
    );
    assert_eq!(rows[0].cells[1].value, Some(pb::cell::Value::Integer(42)));
    assert_eq!(rows[0].byte_offset, 0);
}

#[test]
fn rows_carry_their_own_index_and_offset() {
    let mut stream = RecordStream::new(simple_layout(), options());
    for (index, code) in ["AA", "BB", "CC"].iter().enumerate() {
        stream.push(&record(code, "01"));
        let rows = drain(&mut stream);
        assert_eq!(rows.len(), 1);
        assert_eq!(rows[0].record_index, index as u64);
        assert_eq!(rows[0].row_index, index as u64);
        assert_eq!(rows[0].byte_offset, index as u64 * 4);
    }
}

#[test]
fn a_trailing_partial_record_warns_and_is_not_an_error() {
    let mut stream = RecordStream::new(simple_layout(), options());
    stream.push(&record("AB", "42"));
    stream.push(&record("CD", "07")[..2]);
    drain(&mut stream);
    stream.finish_input();
    let status = stream.status().expect("a short tail is recoverable");
    assert_eq!(status.records_kept, 1);
    assert_eq!(status.bytes_received, 6);
    assert_eq!(status.bytes_consumed, 4);
    assert_eq!(status.trailing_bytes, 2);
    assert_eq!(status.warnings.len(), 1);
    assert_eq!(
        status.warnings[0].code,
        pb::WarningCode::TrailingPartialRecord.number()
    );
}

#[test]
fn abort_on_error_turns_the_same_tail_into_invalid_argument() {
    let mut stream = RecordStream::new(
        simple_layout(),
        DecodeOptions {
            abort_on_error: true,
            ..options()
        },
    );
    stream.push(&record("AB", "42"));
    stream.push(&[0xc3, 0xc4]);
    drain(&mut stream);
    stream.finish_input();
    let err = stream.status().unwrap_err();
    assert!(matches!(err, ParseError::Invalid(_)), "got {err:?}");
}

#[test]
fn max_records_stops_the_walk_and_stops_buffering() {
    let mut stream = RecordStream::new(
        simple_layout(),
        DecodeOptions {
            max_records: 2,
            ..options()
        },
    );
    for code in ["AA", "BB", "CC", "DD"] {
        stream.push(&record(code, "01"));
    }
    let rows = drain(&mut stream);
    assert_eq!(rows.len(), 2);
    stream.finish_input();
    let status = stream.status().unwrap();
    assert!(status.truncated);
    assert_eq!(status.records_kept, 2);
    assert_eq!(status.bytes_received, 16);
    assert_eq!(
        status.warnings[0].code,
        pb::WarningCode::MaxRecordsReached.number()
    );
}

#[test]
fn headers_and_footers_are_skipped_without_buffering_the_file() {
    let mut layout = simple_layout();
    layout.header_size = 3;
    layout.footer_size = 5;
    let mut stream = RecordStream::new(layout, options());
    stream.push(b"HDR");
    stream.push(&record("AB", "42"));
    // The footer's bytes are indistinguishable from data until the input
    // ends, so they must not be decoded early.
    stream.push(b"TRAIL");
    let rows = drain(&mut stream);
    assert_eq!(rows.len(), 1, "the footer is held back, not decoded");
    assert_eq!(
        rows[0].cells[0].value,
        Some(pb::cell::Value::Text("AB".into()))
    );
    stream.finish_input();
    let status = stream.status().unwrap();
    assert_eq!(status.records_kept, 1);
    assert!(status.warnings.is_empty(), "{:?}", status.warnings);
    assert_eq!(status.trailing_bytes, 0);
}

#[test]
fn an_input_shorter_than_its_own_boundaries_warns_rather_than_failing() {
    let mut layout = simple_layout();
    layout.header_size = 8;
    layout.footer_size = 8;
    let mut stream = RecordStream::new(layout, options());
    stream.push(b"tiny");
    drain(&mut stream);
    stream.finish_input();
    let status = stream.status().unwrap();
    assert_eq!(status.records_kept, 0);
    assert_eq!(
        status.warnings[0].code,
        pb::WarningCode::InputShorterThanBoundaries.number()
    );
}

#[test]
fn a_bad_packed_nibble_fails_the_stream_with_invalid_argument() {
    let layout = layout::resolve(&pb::ParseOptions {
        layout_source: Some(pb::parse_options::LayoutSource::Copybook(
            "01 R.\n05 AMOUNT PIC S9(5)V99 COMP-3.\n".into(),
        )),
        ..Default::default()
    })
    .unwrap();
    let mut stream = RecordStream::new(layout, options());
    // 0xa in a digit position rather than the sign position.
    stream.push(&[0x1a, 0x23, 0x45, 0x6c]);
    let err = stream.next_record().unwrap_err();
    let ParseError::Invalid(message) = &err else {
        panic!("got {err:?}")
    };
    assert!(message.contains("AMOUNT"), "the field is named: {message}");
    assert!(message.contains("nibble"), "{message}");
}

#[test]
fn selectors_route_records_to_their_own_schema() {
    let layout = layout::resolve(&pb::ParseOptions {
        layout_source: Some(pb::parse_options::LayoutSource::Layout(pb::EbcdicLayout {
            record_type_field: Some(pb::EbcdicField {
                name: "RECTYPE".into(),
                size: 1,
                field_type: pb::FieldType::String.number(),
                ..Default::default()
            }),
            records: vec![
                pb::EbcdicRecordLayout {
                    name: "CUSTOMER".into(),
                    selector: Some("C".into()),
                    fields: vec![pb::EbcdicField {
                        name: "NAME".into(),
                        size: 4,
                        field_type: pb::FieldType::String.number(),
                        ..Default::default()
                    }],
                },
                pb::EbcdicRecordLayout {
                    name: "ORDER".into(),
                    selector: Some("O".into()),
                    fields: vec![pb::EbcdicField {
                        name: "QTY".into(),
                        size: 2,
                        field_type: pb::FieldType::ZonedDecimal.number(),
                        ..Default::default()
                    }],
                },
            ],
            ..Default::default()
        })),
        ..Default::default()
    })
    .unwrap();
    let codec = Codec::resolve("cp037").unwrap();
    let mut stream = RecordStream::new(layout, options());
    stream.push(&codec.encode("CJane").unwrap());
    stream.push(&codec.encode("O12").unwrap());
    stream.push(&codec.encode("CBob!").unwrap());
    let rows = drain(&mut stream);
    assert_eq!(
        rows.iter()
            .map(|r| (r.record_type.as_str(), r.row_index))
            .collect::<Vec<_>>(),
        vec![("CUSTOMER", 0), ("ORDER", 0), ("CUSTOMER", 1)]
    );
    stream.finish_input();
    let status = stream.status().unwrap();
    assert_eq!(rows_of(&status, "CUSTOMER"), 2);
    assert_eq!(rows_of(&status, "ORDER"), 1);
}

#[test]
fn an_unmatched_selector_is_invalid_argument_because_the_length_is_unknown() {
    let layout = layout::resolve(&pb::ParseOptions {
        layout_source: Some(pb::parse_options::LayoutSource::Layout(pb::EbcdicLayout {
            record_type_field: Some(pb::EbcdicField {
                name: "RECTYPE".into(),
                size: 1,
                field_type: pb::FieldType::String.number(),
                ..Default::default()
            }),
            records: vec![pb::EbcdicRecordLayout {
                name: "CUSTOMER".into(),
                selector: Some("C".into()),
                fields: vec![pb::EbcdicField {
                    name: "NAME".into(),
                    size: 4,
                    field_type: pb::FieldType::String.number(),
                    ..Default::default()
                }],
            }],
            ..Default::default()
        })),
        ..Default::default()
    })
    .unwrap();
    let codec = Codec::resolve("cp037").unwrap();
    let mut stream = RecordStream::new(layout, options());
    stream.push(&codec.encode("XJane").unwrap());
    let err = stream.next_record().unwrap_err();
    assert!(
        matches!(&err, ParseError::Invalid(m) if m.contains("selector")),
        "got {err:?}"
    );
}

#[test]
fn a_length_prefix_makes_records_variable_length() {
    let layout = layout::resolve(&pb::ParseOptions {
        layout_source: Some(pb::parse_options::LayoutSource::Layout(pb::EbcdicLayout {
            record_length_field: Some(pb::EbcdicField {
                name: "RECLEN".into(),
                size: 2,
                field_type: pb::FieldType::ZonedDecimal.number(),
                ..Default::default()
            }),
            records: vec![pb::EbcdicRecordLayout {
                name: "NOTE".into(),
                selector: None,
                fields: vec![pb::EbcdicField {
                    name: "TEXT".into(),
                    size: 4,
                    field_type: pb::FieldType::String.number(),
                    ..Default::default()
                }],
            }],
            ..Default::default()
        })),
        ..Default::default()
    })
    .unwrap();
    let codec = Codec::resolve("cp037").unwrap();
    let mut stream = RecordStream::new(layout, options());
    // Length 06 = a 2-byte prefix plus the schema's 4 bytes exactly.
    stream.push(&codec.encode("06ABCD").unwrap());
    // Length 09 = the same 4 bytes plus 3 bytes of inter-record slack,
    // which the prefix exists to let the walk step over.
    stream.push(&codec.encode("09WXYZ...").unwrap());
    stream.push(&codec.encode("06LAST").unwrap());
    let rows = drain(&mut stream);
    assert_eq!(
        rows.iter()
            .map(|r| r.cells[0].value.clone().unwrap())
            .collect::<Vec<_>>(),
        vec![
            pb::cell::Value::Text("ABCD".into()),
            pb::cell::Value::Text("WXYZ".into()),
            pb::cell::Value::Text("LAST".into()),
        ]
    );
    assert_eq!(
        rows.iter().map(|r| r.byte_offset).collect::<Vec<_>>(),
        vec![0, 6, 15]
    );
}

#[test]
fn a_declared_length_shorter_than_the_schema_is_invalid_argument() {
    // Truncating a field silently is how a balance comes back off by three
    // digits, so it is refused.
    let layout = layout::resolve(&pb::ParseOptions {
        layout_source: Some(pb::parse_options::LayoutSource::Layout(pb::EbcdicLayout {
            record_length_field: Some(pb::EbcdicField {
                name: "RECLEN".into(),
                size: 2,
                field_type: pb::FieldType::ZonedDecimal.number(),
                ..Default::default()
            }),
            records: vec![pb::EbcdicRecordLayout {
                name: "NOTE".into(),
                selector: None,
                fields: vec![pb::EbcdicField {
                    name: "TEXT".into(),
                    size: 8,
                    field_type: pb::FieldType::String.number(),
                    ..Default::default()
                }],
            }],
            ..Default::default()
        })),
        ..Default::default()
    })
    .unwrap();
    let codec = Codec::resolve("cp037").unwrap();
    let mut stream = RecordStream::new(layout, options());
    stream.push(&codec.encode("05ABC").unwrap());
    let err = stream.next_record().unwrap_err();
    assert!(
        matches!(&err, ParseError::Invalid(m) if m.contains("TEXT")),
        "got {err:?}"
    );
}

#[test]
fn a_length_shorter_than_the_prefix_is_invalid_argument() {
    let layout = layout::resolve(&pb::ParseOptions {
        layout_source: Some(pb::parse_options::LayoutSource::Layout(pb::EbcdicLayout {
            record_length_field: Some(pb::EbcdicField {
                name: "RECLEN".into(),
                size: 2,
                field_type: pb::FieldType::ZonedDecimal.number(),
                ..Default::default()
            }),
            records: vec![pb::EbcdicRecordLayout {
                name: "NOTE".into(),
                selector: None,
                fields: vec![pb::EbcdicField {
                    name: "TEXT".into(),
                    size: 4,
                    field_type: pb::FieldType::String.number(),
                    ..Default::default()
                }],
            }],
            ..Default::default()
        })),
        ..Default::default()
    })
    .unwrap();
    let codec = Codec::resolve("cp037").unwrap();
    let mut stream = RecordStream::new(layout, options());
    stream.push(&codec.encode("01ABCD").unwrap());
    let err = stream.next_record().unwrap_err();
    assert!(
        matches!(&err, ParseError::Invalid(m) if m.contains("shorter than its own")),
        "got {err:?}"
    );
}

#[test]
fn wide_packed_values_stay_exact_as_decimals_rather_than_integers() {
    let layout = layout::resolve(&pb::ParseOptions {
        layout_source: Some(pb::parse_options::LayoutSource::Layout(pb::EbcdicLayout {
            records: vec![pb::EbcdicRecordLayout {
                name: "BIG".into(),
                selector: None,
                fields: vec![pb::EbcdicField {
                    name: "HUGE".into(),
                    size: 12,
                    field_type: pb::FieldType::PackedDecimal.number(),
                    ..Default::default()
                }],
            }],
            ..Default::default()
        })),
        ..Default::default()
    })
    .unwrap();
    let mut stream = RecordStream::new(layout, options());
    // 23 digits of 9 with a positive sign: past i64 by five orders.
    let mut bytes = vec![0x99; 11];
    bytes.push(0x9c);
    stream.push(&bytes);
    let row = stream.next_record().unwrap().unwrap();
    let Some(pb::cell::Value::Decimal(decimal)) = &row.cells[0].value else {
        panic!(
            "a 23-digit number cannot be an int64 cell: {:?}",
            row.cells[0].value
        );
    };
    assert_eq!(decimal.text, "9".repeat(23));
    assert_eq!(decimal.scale, 0);
    assert!(decimal.unscaled.is_none(), "no lossy int64 is offered");
}
