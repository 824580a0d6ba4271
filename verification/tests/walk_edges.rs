//! The walk at its edges.

use grpc_ebcdic::codec::Codec;
use grpc_ebcdic::error::Code;
use grpc_ebcdic::layout::{resolve, Layout};
use grpc_ebcdic::proto::v1 as pb;
use grpc_ebcdic::proto::v1::FieldType;
use grpc_ebcdic::stream::{DecodeOptions, RecordStream};

/// Decoder settings: cp037, strip controls, no caps.
fn settings() -> DecodeOptions {
    DecodeOptions {
        codec: Codec::resolve("cp037").unwrap(),
        strip_control_characters: true,
        max_records: 0,
        abort_on_error: false,
    }
}

/// Text in cp037.
fn ebcdic(text: &str) -> Vec<u8> {
    Codec::resolve("cp037").unwrap().encode(text).unwrap()
}

/// A field of a type.
fn field(name: &str, size: u32, kind: FieldType) -> pb::EbcdicField {
    pb::EbcdicField {
        name: name.to_string(),
        size,
        field_type: kind.number(),
        ..Default::default()
    }
}

/// A layout of one record with a length in front of it.
fn with_length(length: pb::EbcdicField) -> Layout {
    resolve(&pb::ParseOptions {
        layout_source: Some(pb::parse_options::LayoutSource::Layout(pb::EbcdicLayout {
            record_length_field: Some(length),
            records: vec![pb::EbcdicRecordLayout {
                name: "R".to_string(),
                fields: vec![field("A", 2, FieldType::String)],
                selector: None,
            }],
            ..Default::default()
        })),
        ..Default::default()
    })
    .unwrap()
}

/// A layout of two schemas, a header and a footer.
fn framed() -> Layout {
    let record = |name: &str, selector: &str, size: u32| pb::EbcdicRecordLayout {
        name: name.to_string(),
        fields: vec![field("V", size, FieldType::String)],
        selector: Some(selector.to_string()),
    };
    resolve(&pb::ParseOptions {
        layout_source: Some(pb::parse_options::LayoutSource::Layout(pb::EbcdicLayout {
            header_size: 3,
            footer_size: 2,
            record_type_field: Some(field("KIND", 1, FieldType::String)),
            records: vec![record("ONE", "1", 2), record("TWO", "2", 4)],
            ..Default::default()
        })),
        ..Default::default()
    })
    .unwrap()
}

/// The rows and the trailer of an input that arrives in pieces.
fn walk(layout: Layout, pieces: &[&[u8]]) -> (Vec<pb::RecordRow>, pb::ParseStatus) {
    let mut stream = RecordStream::new(layout, settings());
    let mut rows = Vec::new();
    for piece in pieces {
        stream.push(piece);
        while let Some(row) = stream.next_record().unwrap() {
            rows.push(row);
        }
    }
    stream.finish_input();
    (rows, stream.status().unwrap())
}

#[test]
fn any_chunking_gives_the_same_rows_and_the_same_trailer() {
    let input = [ebcdic("HDR"), ebcdic("1AB2CDEF1GH"), ebcdic("ZZ")].concat();
    let (whole, trailer) = walk(framed(), &[&input]);
    assert_eq!(whole.len(), 3);
    assert_eq!(trailer.warnings, vec![]);
    for size in 1..input.len() {
        let pieces: Vec<&[u8]> = input.chunks(size).collect();
        let (rows, status) = walk(framed(), &pieces);
        assert_eq!(rows, whole, "{size}");
        assert_eq!(status, trailer, "{size}");
    }
}

#[test]
fn records_adjoin_and_stop_in_front_of_the_footer() {
    let input = [ebcdic("HDR"), ebcdic("1AB2CDEF1GH"), ebcdic("ZZ")].concat();
    let (rows, status) = walk(framed(), &[&input]);
    assert_eq!(
        rows.iter()
            .map(|row| (row.byte_offset, row.byte_length, row.record_index, row.row_index))
            .collect::<Vec<_>>(),
        vec![(3, 3, 0, 0), (6, 5, 1, 0), (11, 3, 2, 1)]
    );
    assert_eq!(status.bytes_received, 16);
    assert_eq!(status.bytes_consumed, 14);
    assert_eq!(status.trailing_bytes, 0);
    assert_eq!(
        status
            .rows_per_record_type
            .iter()
            .map(|count| (count.record_type.as_str(), count.rows))
            .collect::<Vec<_>>(),
        vec![("ONE", 2), ("TWO", 1)]
    );
}

#[test]
fn a_failure_is_the_same_however_the_input_arrives() {
    let input = [ebcdic("HDR"), ebcdic("1AB9CD"), ebcdic("ZZ")].concat();
    for size in 1..input.len() {
        let mut stream = RecordStream::new(framed(), settings());
        let mut seen = None;
        for piece in input.chunks(size) {
            stream.push(piece);
            while seen.is_none() {
                match stream.next_record() {
                    Ok(Some(_)) => {}
                    Ok(None) => break,
                    Err(error) => seen = Some(error),
                }
            }
        }
        let error = seen.expect("there is no schema for 9");
        assert_eq!(error.code(), Code::InvalidArgument);
        assert_eq!(
            error.to_string(),
            "no record schema has selector \"9\" (record at byte 6)"
        );
    }
}

#[test]
fn a_length_that_is_not_a_number_is_quoted() {
    let mut stream = RecordStream::new(with_length(field("LEN", 2, FieldType::String)), settings());
    stream.push(&ebcdic("X AB"));
    let error = stream.next_record().unwrap_err();
    assert_eq!(error.code(), Code::InvalidArgument);
    assert_eq!(
        error.to_string(),
        "record length field \"LEN\" holds \"X\" at byte 0, which is not a number"
    );
}

#[test]
fn a_length_in_text_is_read_like_any_number() {
    let mut stream = RecordStream::new(with_length(field("LEN", 2, FieldType::String)), settings());
    stream.push(&ebcdic("4 AB"));
    let row = stream.next_record().unwrap().expect("a whole record");
    assert_eq!(row.byte_length, 4);
    assert_eq!(row.cells[0].value, Some(pb::cell::Value::Text("AB".to_string())));
}

#[test]
fn a_length_past_the_limit_is_unimplemented() {
    let mut stream = RecordStream::new(with_length(field("LEN", 4, FieldType::Integer)), settings());
    stream.push(&[0x7f, 0xff, 0xff, 0xff]);
    let error = stream.next_record().unwrap_err();
    assert_eq!(error.code(), Code::Unimplemented);
    assert_eq!(
        error.to_string(),
        "record at byte 0 declares a 2147483643-byte body; this build decodes records up to \
         16777216 bytes"
    );
    let mut stream = RecordStream::new(with_length(field("LEN", 1, FieldType::Integer)), settings());
    stream.push(&[0xff]);
    assert_eq!(
        stream.next_record().unwrap_err().to_string(),
        "record at byte 0 declares length -1, shorter than its own 1-byte prefix"
    );
    let mut stream =
        RecordStream::new(with_length(field("LEN", 16, FieldType::UnsignedInteger)), settings());
    stream.push(&[0x7f; 16]);
    let error = stream.next_record().unwrap_err();
    assert_eq!(error.code(), Code::InvalidArgument);
    assert!(error.to_string().contains("declares an unusable length"), "{error:?}");
}

#[test]
fn a_walk_that_has_all_it_asked_for_drops_the_rest() {
    let layout = resolve(&pb::ParseOptions {
        layout_source: Some(pb::parse_options::LayoutSource::Copybook(
            "01 R.\n05 A PIC X(2).\n".to_string(),
        )),
        ..Default::default()
    })
    .unwrap();
    let mut stream = RecordStream::new(layout, DecodeOptions { max_records: 1, ..settings() });
    stream.push(&ebcdic("ABCD"));
    assert!(stream.next_record().unwrap().is_some());
    assert!(stream.next_record().unwrap().is_none());
    stream.push(&ebcdic("EF"));
    assert!(stream.next_record().unwrap().is_none());
    assert_eq!(stream.received(), 6);
    stream.finish_input();
    let status = stream.status().unwrap();
    assert!(status.truncated);
    assert_eq!(status.records_kept, 1);
    assert_eq!(status.trailing_bytes, 0);
    assert_eq!(status.warnings[0].code, pb::WarningCode::MaxRecordsReached.number());
}

/// A plain file: one schema of three bytes, a header of two and a footer of one.
fn plain() -> Layout {
    resolve(&pb::ParseOptions {
        layout_source: Some(pb::parse_options::LayoutSource::Layout(pb::EbcdicLayout {
            header_size: 2,
            footer_size: 1,
            records: vec![pb::EbcdicRecordLayout {
                name: "R".to_string(),
                fields: vec![field("A", 3, FieldType::String)],
                selector: None,
            }],
            ..Default::default()
        })),
        ..Default::default()
    })
    .unwrap()
}

#[test]
fn records_of_one_length_divide_the_input() {
    for total in 3_usize..=20 {
        for chunk in 1_usize..=5 {
            let mut stream = RecordStream::new(plain(), settings());
            let bytes = ebcdic(&"X".repeat(total));
            let mut rows: Vec<pb::RecordRow> = Vec::new();
            for piece in bytes.chunks(chunk) {
                stream.push(piece);
                while let Some(row) = stream.next_record().unwrap() {
                    rows.push(row);
                }
            }
            stream.finish_input();
            let status = stream.status().unwrap();
            let data = total - 3;
            assert_eq!(status.records_kept, (data / 3) as u64);
            assert_eq!(status.trailing_bytes, (data % 3) as u64);
            assert_eq!(status.bytes_received, total as u64);
            assert_eq!(status.bytes_consumed, (2 + data / 3 * 3) as u64);
            assert_eq!(rows.len(), data / 3);
            for (k, row) in rows.iter().enumerate() {
                assert_eq!(row.record_index, k as u64);
                assert_eq!(row.row_index, k as u64);
                assert_eq!(row.byte_offset, (2 + 3 * k) as u64);
                assert_eq!(row.byte_length, 3);
            }
            assert_eq!(status.rows_per_record_type.len(), 1);
            assert_eq!(status.rows_per_record_type[0].record_type, "R");
            assert_eq!(status.rows_per_record_type[0].rows, rows.len() as u64);
            if data % 3 == 0 {
                assert_eq!(status.warnings.len(), 0);
            } else {
                assert_eq!(status.warnings.len(), 1);
                assert_eq!(
                    status.warnings[0].code,
                    pb::WarningCode::TrailingPartialRecord.number()
                );
                assert_eq!(status.warnings[0].byte_offset, status.bytes_consumed);
            }
        }
    }
}

#[test]
fn a_walk_gives_no_more_records_than_were_asked_for() {
    let mut stream = RecordStream::new(plain(), DecodeOptions { max_records: 2, ..settings() });
    stream.push(&ebcdic(&"X".repeat(30)));
    assert!(stream.next_record().unwrap().is_some());
    assert!(stream.next_record().unwrap().is_some());
    assert!(stream.next_record().unwrap().is_none());
    stream.push(&ebcdic("XXXXXX"));
    assert!(stream.next_record().unwrap().is_none());
    stream.finish_input();
    let status = stream.status().unwrap();
    assert!(status.truncated);
    assert_eq!(status.records_kept, 2);
    assert_eq!(status.bytes_received, 36);
}

#[test]
fn only_a_partial_record_and_the_footer_are_held() {
    let mut stream = RecordStream::new(plain(), settings());
    for _ in 0..1000 {
        stream.push(&ebcdic("XXXXXXX"));
        while stream.next_record().unwrap().is_some() {}
        // Two bytes of a record at most, and the footer.
        assert!(stream.buffered() <= 3, "{}", stream.buffered());
    }
    assert_eq!(stream.received(), 7000);
}
