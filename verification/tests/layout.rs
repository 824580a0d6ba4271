//! Layouts in each of their forms.

use grpc_ebcdic::error::ParseError;
use grpc_ebcdic::layout::{
    resolve, FieldKind, JsonField, JsonFieldType, JsonForm, JsonLayout, JsonRecord,
};
use grpc_ebcdic::proto::v1 as pb;
use serde_json::Value;

/// The text of a JSON value.
fn text(value: &Value) -> String {
    value.as_str().expect("a string").to_string()
}

/// A count of a JSON value.
fn count(value: &Value) -> u32 {
    u32::try_from(value.as_u64().expect("a number")).expect("a small number")
}

/// A field of a JSON layout.
fn json_field(value: &Value) -> JsonField {
    JsonField {
        name: text(&value["name"]),
        size: count(&value["size"]),
        field_type: match value.get("type").map(text).as_deref() {
            None | Some("string") => JsonFieldType::String,
            Some("integer") => JsonFieldType::Integer,
            Some("unsigned_integer") => JsonFieldType::UnsignedInteger,
            Some("packed_decimal") => JsonFieldType::PackedDecimal,
            Some("zoned_decimal") => JsonFieldType::ZonedDecimal,
            Some("skip") => JsonFieldType::Skip,
            Some(other) => panic!("no such type: {other}"),
        },
        scale: value.get("scale").map_or(0, count),
        offset: value.get("offset").map(count),
        picture: value.get("picture").map(text),
    }
}

/// The layout that JSON bytes spell, or why they spell none.
fn json_form(bytes: &[u8]) -> JsonForm {
    let value: Value = match serde_json::from_slice(bytes) {
        Ok(value) => value,
        Err(error) => return JsonForm::Malformed(error.to_string()),
    };
    JsonForm::Parsed(JsonLayout {
        records: value["records"]
            .as_array()
            .expect("a list of records")
            .iter()
            .map(|record| JsonRecord {
                fields: record["fields"]
                    .as_array()
                    .expect("a list of fields")
                    .iter()
                    .map(json_field)
                    .collect(),
                name: record.get("name").map(text),
                selector: record.get("selector").map(text),
            })
            .collect(),
        description: value.get("description").map(text).unwrap_or_default(),
        header_size: value.get("header_size").map_or(0, count),
        footer_size: value.get("footer_size").map_or(0, count),
        record_length_field: value.get("record_length_field").map(json_field),
        record_type_field: value.get("record_type_field").map(json_field),
    })
}

/// A three-field layout: text, packed, filler.
fn sample_layout() -> pb::EbcdicLayout {
    pb::EbcdicLayout {
        records: vec![pb::EbcdicRecordLayout {
            name: "CUSTOMER".into(),
            selector: None,
            fields: vec![
                pb::EbcdicField {
                    name: "NAME".into(),
                    size: 8,
                    field_type: pb::FieldType::String.number(),
                    ..Default::default()
                },
                pb::EbcdicField {
                    name: "BALANCE".into(),
                    size: 5,
                    field_type: pb::FieldType::PackedDecimal.number(),
                    scale: 2,
                    ..Default::default()
                },
                pb::EbcdicField {
                    name: String::new(),
                    size: 3,
                    field_type: pb::FieldType::Skip.number(),
                    ..Default::default()
                },
            ],
        }],
        ..Default::default()
    }
}

/// Wrap a layout in the options message.
fn options(layout: pb::EbcdicLayout) -> pb::ParseOptions {
    pb::ParseOptions {
        layout_source: Some(pb::parse_options::LayoutSource::Layout(layout)),
        ..Default::default()
    }
}

#[test]
fn offsets_are_the_running_sum_of_the_sizes() {
    let layout = resolve(&options(sample_layout())).expect("valid layout");
    let record = &layout.records[0];
    assert_eq!(record.size, 16);
    assert_eq!(
        record
            .fields
            .iter()
            .map(|f| (f.offset, f.size))
            .collect::<Vec<_>>(),
        vec![(0, 8), (8, 5), (13, 3)]
    );
    assert_eq!(record.fields[2].kind, FieldKind::Skip);
}

#[test]
fn a_flat_layout_form_still_gives_every_field_a_path() {
    // The protobuf and JSON forms have no groups and no levels, so a
    // consumer of the schema reads `path` unconditionally and gets the
    // field name when that is all there is.
    let layout = resolve(&options(sample_layout())).expect("valid layout");
    let record = &layout.records[0];
    assert_eq!(
        record
            .fields
            .iter()
            .map(|f| f.declaration.path.as_str())
            .collect::<Vec<_>>(),
        vec!["NAME", "BALANCE", ""]
    );
    assert!(
        record.fields.iter().all(|f| f.declaration.level.is_none()
            && f.declaration.occurs_index.is_none()
            && f.declaration.conditions.is_empty()),
        "a flat form declares no hierarchy and must not invent one"
    );
}

#[test]
fn a_missing_layout_is_invalid_argument_and_says_why() {
    let err = resolve(&pb::ParseOptions::default()).unwrap_err();
    let ParseError::Invalid(message) = &err else {
        panic!("got {err:?}")
    };
    assert!(message.contains("copybook"), "{message}");
    assert!(message.contains("layout_json"), "{message}");
}

#[test]
fn an_explicit_offset_may_leave_a_gap_but_never_overlap() {
    let mut layout = sample_layout();
    layout.records[0].fields[1].offset = Some(10);
    let resolved = resolve(&options(layout.clone())).expect("a gap is a legal skip");
    assert_eq!(resolved.records[0].fields[1].offset, 10);
    assert_eq!(resolved.records[0].size, 18);

    layout.records[0].fields[1].offset = Some(4);
    let err = resolve(&options(layout)).unwrap_err();
    let ParseError::Invalid(message) = &err else {
        panic!("got {err:?}")
    };
    assert!(message.contains("overlap"), "{message}");
}

#[test]
fn several_schemas_need_a_record_type_field_and_unique_selectors() {
    let mut layout = sample_layout();
    let mut second = layout.records[0].clone();
    second.name = "ORDER".into();
    layout.records.push(second);

    let err = resolve(&options(layout.clone())).unwrap_err();
    assert!(
        matches!(&err, ParseError::Invalid(m) if m.contains("record_type_field")),
        "got {err:?}"
    );

    layout.record_type_field = Some(pb::EbcdicField {
        name: "RECTYPE".into(),
        size: 1,
        field_type: pb::FieldType::String.number(),
        ..Default::default()
    });
    let err = resolve(&options(layout.clone())).unwrap_err();
    assert!(
        matches!(&err, ParseError::Invalid(m) if m.contains("selector")),
        "got {err:?}"
    );

    layout.records[0].selector = Some("C".into());
    layout.records[1].selector = Some("C".into());
    let err = resolve(&options(layout.clone())).unwrap_err();
    assert!(
        matches!(&err, ParseError::Invalid(m) if m.contains("matches two schemas")),
        "got {err:?}"
    );

    layout.records[1].selector = Some("O".into());
    let resolved = resolve(&options(layout)).expect("distinct selectors resolve");
    assert_eq!(resolved.prefix_size, 1);
    assert_eq!(
        resolved.select(Some("O")).map(|r| r.name.as_str()),
        Some("ORDER")
    );
    assert!(resolved.select(Some("Z")).is_none());
}

#[test]
fn duplicate_field_names_are_rejected_but_fillers_may_repeat() {
    let mut layout = sample_layout();
    layout.records[0].fields[1].name = "NAME".into();
    let err = resolve(&options(layout)).unwrap_err();
    assert!(
        matches!(&err, ParseError::Invalid(m) if m.contains("two fields named")),
        "got {err:?}"
    );

    let mut layout = sample_layout();
    let filler = layout.records[0].fields[2].clone();
    layout.records[0].fields.push(filler);
    resolve(&options(layout)).expect("two anonymous fillers are fine");
}

#[test]
fn a_field_wider_than_its_decoder_is_unimplemented() {
    let mut layout = sample_layout();
    layout.records[0].fields[1].size = 64;
    let err = resolve(&options(layout)).unwrap_err();
    assert!(matches!(err, ParseError::Unsupported(_)), "got {err:?}");
}

#[test]
fn the_docling_json_shape_loads_and_matches_the_protobuf_one() {
    let json = br#"{
        "records": [{
            "name": "CUSTOMER",
            "fields": [
                {"name": "NAME", "size": 8, "type": "string"},
                {"name": "BALANCE", "size": 5, "type": "packed_decimal", "scale": 2},
                {"name": "", "size": 3, "type": "skip"}
            ]
        }]
    }"#;
    let from_json = resolve(&pb::ParseOptions {
        layout_source: Some(pb::parse_options::LayoutSource::LayoutJson(json_form(json))),
        ..Default::default()
    })
    .expect("Docling JSON loads");
    let from_proto = resolve(&options(sample_layout())).unwrap();
    assert_eq!(from_json.records, from_proto.records);
    assert_eq!(from_json.source, pb::LayoutSource::Json);
    assert_eq!(from_proto.source, pb::LayoutSource::Proto);
}

#[test]
fn a_json_field_without_a_type_defaults_to_character_data() {
    let json = br#"{"records": [{"fields": [{"name": "F", "size": 4}]}]}"#;
    let layout = resolve(&pb::ParseOptions {
        layout_source: Some(pb::parse_options::LayoutSource::LayoutJson(json_form(json))),
        ..Default::default()
    })
    .unwrap();
    assert_eq!(layout.records[0].name, "record");
    assert_eq!(layout.records[0].fields[0].kind, FieldKind::Text);
}

#[test]
fn malformed_json_is_invalid_argument_not_a_panic() {
    let err = resolve(&pb::ParseOptions {
        layout_source: Some(pb::parse_options::LayoutSource::LayoutJson(json_form(b"{"))),
        ..Default::default()
    })
    .unwrap_err();
    assert!(matches!(err, ParseError::Invalid(_)), "got {err:?}");
}
