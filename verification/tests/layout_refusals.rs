//! What a layout is refused for.

use grpc_ebcdic::error::{Code, ParseError};
use grpc_ebcdic::layout::{
    check_options, resolve, JsonField, JsonFieldType, JsonForm, JsonLayout, JsonRecord,
    MAX_FOOTER_BYTES, MAX_RECORD_BYTES,
};
use grpc_ebcdic::proto::v1 as pb;
use grpc_ebcdic::proto::v1::FieldType;

/// A field of a type.
fn field(name: &str, size: u32, kind: FieldType) -> pb::EbcdicField {
    pb::EbcdicField {
        name: name.to_string(),
        size,
        field_type: kind.number(),
        ..Default::default()
    }
}

/// A record of fields.
fn record(name: &str, fields: Vec<pb::EbcdicField>) -> pb::EbcdicRecordLayout {
    pb::EbcdicRecordLayout {
        name: name.to_string(),
        fields,
        selector: None,
    }
}

/// Options that carry a layout.
fn with_layout(layout: pb::EbcdicLayout) -> pb::ParseOptions {
    pb::ParseOptions {
        layout_source: Some(pb::parse_options::LayoutSource::Layout(layout)),
        ..Default::default()
    }
}

/// A layout of one record.
fn single(fields: Vec<pb::EbcdicField>) -> pb::EbcdicLayout {
    pb::EbcdicLayout {
        records: vec![record("R", fields)],
        ..Default::default()
    }
}

/// A layout that is refused with a code and a message.
fn refused(layout: pb::EbcdicLayout, code: Code, message: &str) {
    let error: ParseError = match resolve(&with_layout(layout)) {
        Ok(_) => panic!("resolves instead of: {message}"),
        Err(error) => error,
    };
    assert_eq!(error.code(), code, "{error:?}");
    assert_eq!(error.to_string(), message);
}

#[test]
fn a_layout_needs_records_and_a_record_fields() {
    refused(
        pb::EbcdicLayout::default(),
        Code::InvalidArgument,
        "a layout needs at least one record schema",
    );
    refused(
        single(vec![]),
        Code::InvalidArgument,
        "record schema \"R\" has no fields",
    );
}

#[test]
fn fields_are_refused_one_by_one() {
    refused(
        single(vec![field("A", 0, FieldType::String)]),
        Code::InvalidArgument,
        "field \"A\" of record \"R\" has zero width",
    );
    refused(
        single(vec![field("", 2, FieldType::String)]),
        Code::InvalidArgument,
        "a field of record \"R\" has no name; only fillers may be anonymous",
    );
    let mut scaled = field("A", 2, FieldType::String);
    scaled.scale = 1;
    refused(
        single(vec![scaled]),
        Code::InvalidArgument,
        "field \"A\" of record \"R\" has scale 1 but is not a numeric field",
    );
    refused(
        single(vec![field("A", 2, FieldType::String), field("A", 2, FieldType::String)]),
        Code::InvalidArgument,
        "record \"R\" has two fields named \"A\"; cells are addressed by name, so qualify one of \
         them or mark it as a filler",
    );
    let mut behind = field("B", 2, FieldType::String);
    behind.offset = Some(1);
    refused(
        single(vec![field("A", 2, FieldType::String), behind]),
        Code::InvalidArgument,
        "field \"B\" of record \"R\" declares offset 1 but the fields before it already reach 2; \
         fields may not overlap",
    );
    let mut unknown = field("A", 2, FieldType::String);
    unknown.field_type = 99;
    refused(
        single(vec![unknown]),
        Code::Unimplemented,
        "field type 99 is not one this build decodes",
    );
}

#[test]
fn records_are_refused_for_their_size() {
    let error = resolve(&with_layout(single(vec![field(
        "A",
        MAX_RECORD_BYTES + 1,
        FieldType::String,
    )])))
    .unwrap_err();
    assert_eq!(error.code(), Code::Unimplemented, "{error:?}");
    resolve(&with_layout(single(vec![field("A", MAX_RECORD_BYTES, FieldType::String)])))
        .expect("the widest record resolves");
    let mut far = field("B", 2, FieldType::String);
    far.offset = Some(u32::MAX);
    refused(
        single(vec![field("A", 2, FieldType::String), far]),
        Code::InvalidArgument,
        "record \"R\" overflows a 32-bit record length",
    );
    refused(
        pb::EbcdicLayout {
            footer_size: MAX_FOOTER_BYTES + 1,
            ..single(vec![field("A", 2, FieldType::String)])
        },
        Code::Unimplemented,
        "footer_size 16777217 exceeds the 16777216-byte limit; footer bytes are held in memory \
         for the whole parse",
    );
}

#[test]
fn prefixes_are_refused_for_what_they_cannot_say() {
    let base = || single(vec![field("A", 2, FieldType::String)]);
    refused(
        pb::EbcdicLayout {
            record_length_field: Some(field("LEN", 0, FieldType::Integer)),
            ..base()
        },
        Code::InvalidArgument,
        "the record_length field must be at least one byte",
    );
    refused(
        pb::EbcdicLayout {
            record_type_field: Some(field("KIND", 2, FieldType::Skip)),
            ..base()
        },
        Code::InvalidArgument,
        "the record_type field cannot be a filler: its value is what it is there for",
    );
    let mut scaled = field("LEN", 2, FieldType::PackedDecimal);
    scaled.scale = 1;
    refused(
        pb::EbcdicLayout {
            record_length_field: Some(scaled),
            ..base()
        },
        Code::InvalidArgument,
        "the record_length field must have scale 0: a record cannot be a fraction of a byte long",
    );
}

#[test]
fn schemas_are_told_apart_or_refused() {
    let fields = || vec![field("A", 2, FieldType::String)];
    refused(
        pb::EbcdicLayout {
            records: vec![record("R", fields()), record("S", fields())],
            ..Default::default()
        },
        Code::InvalidArgument,
        "a layout with more than one record schema needs a record_type_field to choose between \
         them",
    );
    let select = |name: &str, selector: Option<&str>| pb::EbcdicRecordLayout {
        selector: selector.map(str::to_string),
        ..record(name, fields())
    };
    let typed = |records| pb::EbcdicLayout {
        record_type_field: Some(field("KIND", 1, FieldType::String)),
        records,
        ..Default::default()
    };
    refused(
        typed(vec![select("R", None)]),
        Code::InvalidArgument,
        "record schema \"R\" needs a selector: the layout has a record_type_field and every \
         schema must say which value picks it",
    );
    refused(
        typed(vec![select("R", Some("1")), select("S", Some("1"))]),
        Code::InvalidArgument,
        "record selector \"1\" matches two schemas; a record must resolve to exactly one layout",
    );
    refused(
        typed(vec![select("R", Some("1")), select("R", Some("2"))]),
        Code::InvalidArgument,
        "two record schemas are both named \"R\"; schema names identify the rows they produce and \
         must be unique",
    );
}

#[test]
fn a_gap_in_front_of_a_field_is_a_skip() {
    let mut later = field("B", 2, FieldType::String);
    later.offset = Some(5);
    let layout = resolve(&with_layout(single(vec![
        field("A", 2, FieldType::String),
        later,
        field("C", 1, FieldType::String),
    ])))
    .unwrap();
    assert_eq!(
        layout.records[0]
            .fields
            .iter()
            .map(|f| f.offset)
            .collect::<Vec<_>>(),
        vec![0, 5, 7]
    );
    assert_eq!(layout.records[0].size, 8);
}

#[test]
fn the_three_forms_of_one_layout_resolve_alike() {
    let fields = || vec![field("A", 3, FieldType::String), field("N", 4, FieldType::ZonedDecimal)];
    let from_message = resolve(&with_layout(single(fields()))).unwrap();
    let json = |name: &str, size: u32, field_type: JsonFieldType| JsonField {
        name: name.to_string(),
        size,
        field_type,
        scale: 0,
        offset: None,
        picture: None,
    };
    let from_json = resolve(&pb::ParseOptions {
        layout_source: Some(pb::parse_options::LayoutSource::LayoutJson(JsonForm::Parsed(
            JsonLayout {
                records: vec![JsonRecord {
                    fields: vec![
                        json("A", 3, JsonFieldType::String),
                        json("N", 4, JsonFieldType::ZonedDecimal),
                    ],
                    name: Some("R".to_string()),
                    selector: None,
                }],
                description: String::new(),
                header_size: 0,
                footer_size: 0,
                record_length_field: None,
                record_type_field: None,
            },
        ))),
        ..Default::default()
    })
    .unwrap();
    let from_copybook = resolve(&pb::ParseOptions {
        layout_source: Some(pb::parse_options::LayoutSource::Copybook(
            "01 R.\n05 A PIC X(3).\n05 N PIC 9(4).\n".to_string(),
        )),
        ..Default::default()
    })
    .unwrap();
    for layout in [&from_json, &from_copybook] {
        assert_eq!(layout.records[0].name, "R");
        assert_eq!(layout.records[0].size, from_message.records[0].size);
        for (one, other) in layout.records[0]
            .fields
            .iter()
            .zip(from_message.records[0].fields.iter())
        {
            assert_eq!(
                (&one.name, one.offset, one.size, one.kind, one.scale),
                (&other.name, other.offset, other.size, other.kind, other.scale)
            );
        }
    }
}

#[test]
fn a_malformed_json_layout_says_why() {
    let error = resolve(&pb::ParseOptions {
        layout_source: Some(pb::parse_options::LayoutSource::LayoutJson(
            JsonForm::Malformed("EOF while parsing".to_string()),
        )),
        ..Default::default()
    })
    .unwrap_err();
    assert_eq!(error.code(), Code::InvalidArgument);
    assert!(error.to_string().ends_with(": EOF while parsing"), "{error:?}");
}

#[test]
fn a_character_astride_column_72_is_told_in_advance() {
    let copybook = |line: String| pb::ParseOptions {
        layout_source: Some(pb::parse_options::LayoutSource::Copybook(line)),
        ..Default::default()
    };
    // 71 bytes of code, then a character of two bytes.
    let astride = format!("       {:<64}\u{e9}\n", "01  R.");
    assert!(!check_options(&copybook(astride)));
    let clean = format!("       {:<65}\u{e9}\n", "01  R.");
    assert!(check_options(&copybook(clean)));
}

#[test]
fn nothing_behind_an_unclosed_literal_is_read() {
    let copybook = |source: String| pb::ParseOptions {
        layout_source: Some(pb::parse_options::LayoutSource::Copybook(source)),
        ..Default::default()
    };
    let astride = format!("       {:<64}\u{e9}\n", "05 A PIC X.");
    // The literal is refused before the line behind it is looked at.
    let behind = copybook(format!("01 R.\n05 B PIC X VALUE 'open.\n{astride}"));
    assert!(check_options(&behind));
    let error = resolve(&behind).unwrap_err();
    assert_eq!(error.code(), Code::InvalidArgument);
    assert_eq!(
        error.to_string(),
        "unterminated literal in copybook line \"05 B PIC X VALUE 'open.\""
    );
    // In front of the literal, or behind a closed one, it counts.
    assert!(!check_options(&copybook(format!("{astride}05 B PIC X VALUE 'open.\n"))));
    assert!(!check_options(&copybook(format!("05 B PIC X VALUE 'shut'.\n{astride}"))));
    // A comment is not read either.
    let comment = format!("      *{:<64}\u{e9}\n", "");
    assert!(check_options(&copybook(comment)));
}
