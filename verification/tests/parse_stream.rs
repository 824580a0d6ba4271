//! Whole parses, driven frame by frame.
//!
//! There are no fixture files. Every record in here is assembled from a
//! copybook written as a string literal plus bytes encoded by [`Encoder`], so
//! the assertions read as "these values, written this way, come back as these
//! values".

use grpc_ebcdic::codec::Codec;
use grpc_ebcdic::error::{Code, ParseError};
use grpc_ebcdic::layout::{JsonField, JsonFieldType, JsonForm, JsonLayout, JsonRecord};
use grpc_ebcdic::proto::v1 as pb;
use grpc_ebcdic::proto::v1::parse_ebcdic_response::Event;
use grpc_ebcdic::service::ParseSession;
use grpc_ebcdic::{EbcdicGrpc, Metrics};
use serde_json::Value;

/// A service with its defaults.
fn service() -> EbcdicGrpc {
    EbcdicGrpc::new(Metrics::new())
}

/// The text of a JSON value.
fn text(value: &Value) -> String {
    value.as_str().expect("a string").to_string()
}

/// A count of a JSON value.
fn count(value: &Value) -> u32 {
    u32::try_from(value.as_u64().expect("a number")).expect("a small number")
}

/// A field of a JSON layout.
fn json_field(value: &Value) -> JsonField {
    JsonField {
        name: text(&value["name"]),
        size: count(&value["size"]),
        field_type: match value.get("type").map(text).as_deref() {
            None | Some("string") => JsonFieldType::String,
            Some("integer") => JsonFieldType::Integer,
            Some("unsigned_integer") => JsonFieldType::UnsignedInteger,
            Some("packed_decimal") => JsonFieldType::PackedDecimal,
            Some("zoned_decimal") => JsonFieldType::ZonedDecimal,
            Some("skip") => JsonFieldType::Skip,
            Some(other) => panic!("no such type: {other}"),
        },
        scale: value.get("scale").map_or(0, count),
        offset: value.get("offset").map(count),
        picture: value.get("picture").map(text),
    }
}

/// The layout that JSON bytes spell, or why they spell none.
fn json_form(bytes: &[u8]) -> JsonForm {
    let value: Value = match serde_json::from_slice(bytes) {
        Ok(value) => value,
        Err(error) => return JsonForm::Malformed(error.to_string()),
    };
    JsonForm::Parsed(JsonLayout {
        records: value["records"]
            .as_array()
            .expect("a list of records")
            .iter()
            .map(|record| JsonRecord {
                fields: record["fields"]
                    .as_array()
                    .expect("a list of fields")
                    .iter()
                    .map(json_field)
                    .collect(),
                name: record.get("name").map(text),
                selector: record.get("selector").map(text),
            })
            .collect(),
        description: value.get("description").map(text).unwrap_or_default(),
        header_size: value.get("header_size").map_or(0, count),
        footer_size: value.get("footer_size").map_or(0, count),
        record_length_field: value.get("record_length_field").map(json_field),
        record_type_field: value.get("record_type_field").map(json_field),
    })
}

/// Builds EBCDIC record bytes from readable values.
///
/// Text goes through the code page tables; the numeric encoders are written
/// from the COBOL definitions, so a round trip is a real check.
struct Encoder {
    /// Code page for character data.
    codec: Codec,
    /// Bytes accumulated so far.
    bytes: Vec<u8>,
}

impl Encoder {
    /// Start an encoder for a named code page.
    fn new(encoding: &str) -> Self {
        Self {
            codec: Codec::resolve(encoding).expect("known code page"),
            bytes: Vec::new(),
        }
    }

    /// Append `text` padded with EBCDIC spaces to `width` bytes.
    fn text(mut self, text: &str, width: usize) -> Self {
        assert!(
            text.len() <= width,
            "{text:?} does not fit in {width} bytes"
        );
        let mut encoded = self.codec.encode(text).expect("representable");
        encoded.resize(width, 0x40);
        self.bytes.extend(encoded);
        self
    }

    /// Append raw bytes, for the deliberately corrupt cases.
    fn raw(mut self, bytes: &[u8]) -> Self {
        self.bytes.extend_from_slice(bytes);
        self
    }

    /// Append a zoned decimal of `digits` digits.
    ///
    /// Each digit becomes `0xF<digit>`; a negative value overpunches the last
    /// zone nibble to `0xD`.
    fn zoned(mut self, value: i64, digits: usize) -> Self {
        let text = format!("{:0>width$}", value.unsigned_abs(), width = digits);
        assert_eq!(
            text.len(),
            digits,
            "{value} needs more than {digits} digits"
        );
        let mut encoded: Vec<u8> = text.bytes().map(|digit| 0xF0 | (digit - b'0')).collect();
        if value < 0 {
            let last = encoded.len() - 1;
            encoded[last] = 0xD0 | (encoded[last] & 0x0F);
        }
        self.bytes.extend(encoded);
        self
    }

    /// Append a COMP-3 packed decimal of `digits` digits.
    ///
    /// `digits` counts stored digits, so the field occupies
    /// `digits / 2 + 1` bytes: two digits per byte with the sign in the final
    /// nibble.
    fn packed(mut self, value: i64, digits: usize) -> Self {
        let text = format!("{:0>width$}", value.unsigned_abs(), width = digits);
        assert_eq!(
            text.len(),
            digits,
            "{value} needs more than {digits} digits"
        );
        let mut nibbles: Vec<u8> = Vec::with_capacity(digits + 2);
        // An even digit count needs a leading zero nibble to fill the byte.
        if digits % 2 == 0 {
            nibbles.push(0);
        }
        nibbles.extend(text.bytes().map(|digit| digit - b'0'));
        nibbles.push(if value < 0 { 0x0d } else { 0x0c });
        let bytes: Vec<u8> = nibbles
            .chunks(2)
            .map(|pair| (pair[0] << 4) | pair[1])
            .collect();
        assert_eq!(bytes.len(), digits / 2 + 1);
        self.bytes.extend(bytes);
        self
    }

    /// Append a big-endian binary field of `width` bytes.
    fn binary(mut self, value: i64, width: usize) -> Self {
        let full = value.to_be_bytes();
        self.bytes.extend_from_slice(&full[full.len() - width..]);
        self
    }

    /// Finish and return the bytes.
    fn build(self) -> Vec<u8> {
        self.bytes
    }
}

/// The worked example copybook, shared by most of these tests.
///
/// Fixed-format columns on purpose: this is what a copybook looks like when it
/// comes off a mainframe, sequence numbers and all.
const CUSTOMER_COPYBOOK: &str = "\
000100* Customer master record.
000200 01  CUSTOMER-RECORD.
000300     05  CUST-ID              PIC 9(6).
000400     05  CUST-NAME            PIC X(20).
000500     05  CUST-BALANCE         PIC S9(7)V99 COMP-3.
000600     05  CUST-ORDER-COUNT     PIC S9(4) COMP.
000700     05  FILLER               PIC X(4).
";

/// Width of one `CUSTOMER-RECORD`: 6 + 20 + 5 + 2 + 4.
const CUSTOMER_RECORD_BYTES: u32 = 37;

/// Encode one customer record.
fn customer(id: i64, name: &str, balance_cents: i64, orders: i64) -> Vec<u8> {
    customer_in("cp037", id, name, balance_cents, orders)
}

/// Encode one customer record with an explicit code page.
fn customer_in(encoding: &str, id: i64, name: &str, balance_cents: i64, orders: i64) -> Vec<u8> {
    let bytes = Encoder::new(encoding)
        .zoned(id, 6)
        .text(name, 20)
        .packed(balance_cents, 9)
        .binary(orders, 2)
        .text("", 4)
        .build();
    assert_eq!(bytes.len(), CUSTOMER_RECORD_BYTES as usize);
    bytes
}

/// Options that parse `CUSTOMER_COPYBOOK` with the defaults.
fn customer_options() -> pb::ParseOptions {
    pb::ParseOptions {
        layout_source: Some(pb::parse_options::LayoutSource::Copybook(
            CUSTOMER_COPYBOOK.to_string(),
        )),
        ..Default::default()
    }
}

/// Wrap options in the first request frame.
fn options_frame(options: pb::ParseOptions) -> pb::ParseEbcdicRequest {
    pb::ParseEbcdicRequest {
        frame: Some(pb::parse_ebcdic_request::Frame::Options(options)),
    }
}

/// Wrap bytes in a data frame.
fn chunk_frame(bytes: &[u8]) -> pb::ParseEbcdicRequest {
    pb::ParseEbcdicRequest {
        frame: Some(pb::parse_ebcdic_request::Frame::Chunk(bytes.to_vec())),
    }
}

/// Everything one parse produced, split by event kind.
#[derive(Debug)]
struct Parsed {
    /// The opening layout event.
    layout: pb::LayoutInfo,
    /// Row events in arrival order.
    rows: Vec<pb::RecordRow>,
    /// The trailer.
    status: pb::ParseStatus,
}

/// Add the events the session can give right now.
fn drain(
    session: &mut ParseSession,
    metrics: &mut Metrics,
    events: &mut Vec<Event>,
) -> Result<(), ParseError> {
    while let Some(event) = session.next_event(metrics)? {
        events.push(event);
    }
    Ok(())
}

/// Run an opened parse to its end.
fn run(
    mut session: ParseSession,
    metrics: &mut Metrics,
    data: &[u8],
    events: &mut Vec<Event>,
) -> Result<(), ParseError> {
    for chunk in data.chunks(64 * 1024) {
        session.accept(&chunk_frame(chunk), metrics)?;
        drain(&mut session, metrics, events)?;
    }
    session.end_input();
    drain(&mut session, metrics, events)?;
    events.extend(session.finish()?);
    Ok(())
}

/// Run one parse to completion and sort the events.
fn parse(
    service: &mut EbcdicGrpc,
    options: pb::ParseOptions,
    data: &[u8],
) -> Result<Parsed, ParseError> {
    service.enter()?;
    let (session, opening) = match service.open(&Some(options_frame(options))) {
        Ok(opened) => opened,
        Err(error) => {
            service.release();
            return Err(error);
        }
    };
    let mut events = vec![opening];
    let outcome = run(session, &mut service.metrics, data, &mut events);
    service.metrics.conclude(&outcome);
    service.release();
    outcome?;

    let mut layout = None;
    let mut rows = Vec::new();
    let mut status = None;
    for event in events {
        match event {
            Event::LayoutInfo(info) => {
                assert!(layout.is_none(), "layout_info arrives exactly once");
                assert!(rows.is_empty(), "layout_info arrives before any row");
                layout = Some(info);
            }
            Event::Record(row) => {
                assert!(status.is_none(), "no row may follow the trailer");
                rows.push(row);
            }
            Event::Document(_) => panic!("no document was asked for"),
            Event::Status(trailer) => {
                assert!(status.is_none(), "the trailer arrives exactly once");
                status = Some(trailer);
            }
        }
    }
    Ok(Parsed {
        layout: layout.expect("a successful parse always opens with layout_info"),
        rows,
        status: status.expect("a successful parse always ends with a trailer"),
    })
}

/// The rows a trailer counts for a schema.
fn rows_of(status: &pb::ParseStatus, name: &str) -> u64 {
    status
        .rows_per_record_type
        .iter()
        .find(|count| count.record_type == name)
        .expect("the schema is counted")
        .rows
}

/// The value of a named cell.
fn cell<'a>(row: &'a pb::RecordRow, name: &str) -> &'a pb::cell::Value {
    row.cells
        .iter()
        .find(|cell| cell.name == name)
        .unwrap_or_else(|| panic!("row has no cell {name:?}: {:?}", row.cells))
        .value
        .as_ref()
        .expect("every cell carries a value")
}

#[test]
fn a_copybook_and_three_records_round_trip_with_their_types_intact() {
    let mut service = service();
    let mut data = Vec::new();
    data.extend(customer(1, "ACME SUPPLY", -123_456_789, 42));
    data.extend(customer(2, "BETA WORKS", 0, 0));
    data.extend(customer(999_999, "GAMMA LTD", 987_654_321, -7));

    let parsed = parse(&mut service, customer_options(), &data)
        .expect("parse succeeds");

    assert_eq!(parsed.layout.encoding, "cp037");
    assert_eq!(parsed.layout.source, pb::LayoutSource::Copybook.number());
    assert_eq!(parsed.layout.records.len(), 1);
    let schema = &parsed.layout.records[0];
    assert_eq!(schema.name, "CUSTOMER-RECORD");
    assert_eq!(schema.record_length, CUSTOMER_RECORD_BYTES);
    assert_eq!(
        schema
            .fields
            .iter()
            .map(|f| (f.name.as_str(), f.offset, f.size))
            .collect::<Vec<_>>(),
        vec![
            ("CUST-ID", 0, 6),
            ("CUST-NAME", 6, 20),
            ("CUST-BALANCE", 26, 5),
            ("CUST-ORDER-COUNT", 31, 2),
            ("", 33, 4),
        ]
    );

    assert_eq!(parsed.rows.len(), 3);
    // The filler is consumed and never emitted, so a row is four cells.
    assert_eq!(parsed.rows[0].cells.len(), 4);

    assert_eq!(
        cell(&parsed.rows[0], "CUST-ID"),
        &pb::cell::Value::Integer(1)
    );
    assert_eq!(
        cell(&parsed.rows[0], "CUST-NAME"),
        &pb::cell::Value::Text("ACME SUPPLY".into()),
        "trailing EBCDIC blanks are padding, not value"
    );
    assert_eq!(
        cell(&parsed.rows[0], "CUST-BALANCE"),
        &pb::cell::Value::Decimal(pb::Decimal {
            text: "-1234567.89".into(),
            scale: 2,
            unscaled: Some(-123_456_789),
        }),
        "COMP-3 keeps its sign, its scale, and every digit"
    );
    assert_eq!(
        cell(&parsed.rows[0], "CUST-ORDER-COUNT"),
        &pb::cell::Value::Integer(42)
    );

    assert_eq!(
        cell(&parsed.rows[1], "CUST-BALANCE"),
        &pb::cell::Value::Decimal(pb::Decimal {
            text: "0.00".into(),
            scale: 2,
            unscaled: Some(0),
        })
    );
    assert_eq!(
        cell(&parsed.rows[2], "CUST-ID"),
        &pb::cell::Value::Integer(999_999)
    );
    assert_eq!(
        cell(&parsed.rows[2], "CUST-ORDER-COUNT"),
        &pb::cell::Value::Integer(-7),
        "a signed COMP field is two's complement, not a magnitude"
    );

    assert_eq!(parsed.status.records_kept, 3);
    assert_eq!(parsed.status.bytes_received, data.len() as u64);
    assert_eq!(parsed.status.bytes_consumed, data.len() as u64);
    assert_eq!(parsed.status.trailing_bytes, 0);
    assert!(!parsed.status.truncated);
    assert!(
        parsed.status.warnings.is_empty(),
        "{:?}",
        parsed.status.warnings
    );
    assert_eq!(rows_of(&parsed.status, "CUSTOMER-RECORD"), 3);
}

/// The test that fails if anyone turns this stream back into a batch.
///
/// The client sends the options and exactly one record, then stops without
/// ending its half of the stream. Records here are fixed-length, so "the first
/// record is complete" is a property of the bytes and not of the upload
/// finishing.
#[test]
fn rows_arrive_before_the_input_is_finished() {
    let mut service = service();
    let mut metrics = Metrics::new();
    let (mut session, first) = service
        .open(&Some(options_frame(customer_options())))
        .expect("open the call");
    assert!(
        matches!(first, Event::LayoutInfo(_)),
        "the layout is known before any data byte, got {first:?}"
    );
    session
        .accept(&chunk_frame(&customer(1, "FIRST", 100, 1)), &mut metrics)
        .unwrap();

    // Nothing else has been sent and the request stream is still open.
    let second = session.next_event(&mut metrics).unwrap();
    let Some(Event::Record(row)) = second else {
        panic!("expected a row while the upload is still open, got {second:?}");
    };
    assert_eq!(
        cell(&row, "CUST-NAME"),
        &pb::cell::Value::Text("FIRST".into())
    );
    assert!(session.next_event(&mut metrics).unwrap().is_none());

    // A second record, still mid-stream, still one event per record.
    session
        .accept(&chunk_frame(&customer(2, "SECOND", 200, 2)), &mut metrics)
        .unwrap();
    let third = session.next_event(&mut metrics).unwrap();
    let Some(Event::Record(row)) = third else {
        panic!("expected the second row, got {third:?}");
    };
    assert_eq!(row.record_index, 1);
    assert_eq!(
        cell(&row, "CUST-NAME"),
        &pb::cell::Value::Text("SECOND".into())
    );

    session.end_input();
    assert!(session.next_event(&mut metrics).unwrap().is_none());
    let trailer = session.finish().unwrap();
    let [Event::Status(status)] = trailer.as_slice() else {
        panic!("expected the trailer, got {trailer:?}");
    };
    assert_eq!(status.records_kept, 2);
}

/// Half a record is not a record: the row appears only when its last byte does.
#[test]
fn a_row_waits_for_its_last_byte_and_not_a_moment_longer() {
    let mut service = service();
    let mut metrics = Metrics::new();
    let record = customer(7, "SPLIT", 5, 1);
    let (mut session, layout) = service
        .open(&Some(options_frame(customer_options())))
        .expect("open the call");
    assert!(matches!(layout, Event::LayoutInfo(_)));
    session
        .accept(
            &chunk_frame(&record[..CUSTOMER_RECORD_BYTES as usize - 1]),
            &mut metrics,
        )
        .unwrap();

    // One byte short. Nothing may be emitted.
    let early = session.next_event(&mut metrics).unwrap();
    assert!(
        early.is_none(),
        "a partial record must not produce a row: {early:?}"
    );

    session
        .accept(
            &chunk_frame(&record[CUSTOMER_RECORD_BYTES as usize - 1..]),
            &mut metrics,
        )
        .unwrap();
    let event = session.next_event(&mut metrics).unwrap();
    let Some(Event::Record(row)) = event else {
        panic!("expected the completed row, got {event:?}");
    };
    assert_eq!(
        cell(&row, "CUST-NAME"),
        &pb::cell::Value::Text("SPLIT".into())
    );
}

#[test]
fn a_request_without_a_layout_is_invalid_argument() {
    let mut service = service();
    let status = parse(&mut service, pb::ParseOptions::default(), b"anything")
        .expect_err("bytes without a copybook are an opaque code page");
    assert_eq!(status.code(), Code::InvalidArgument);
    assert!(status.to_string().contains("layout"), "{}", status.to_string());
}

#[test]
fn a_trailing_partial_record_is_a_warning_and_the_whole_rows_still_arrive() {
    let mut service = service();
    let mut data = customer(1, "WHOLE", 1, 1);
    data.extend_from_slice(&customer(2, "PARTIAL", 2, 2)[..10]);

    let parsed = parse(&mut service, customer_options(), &data)
        .expect("a short tail is not fatal");
    assert_eq!(parsed.rows.len(), 1);
    assert_eq!(parsed.status.records_kept, 1);
    assert_eq!(parsed.status.trailing_bytes, 10);
    assert_eq!(parsed.status.warnings.len(), 1);
    assert_eq!(
        parsed.status.warnings[0].code,
        pb::WarningCode::TrailingPartialRecord.number()
    );
    assert_eq!(
        parsed.status.warnings[0].byte_offset,
        u64::from(CUSTOMER_RECORD_BYTES)
    );

    // The same input with abort_on_error is a refusal instead.
    let strict = pb::ParseOptions {
        abort_on_error: true,
        ..customer_options()
    };
    let status = parse(&mut service, strict, &data)
        .expect_err("abort_on_error refuses the tail");
    assert_eq!(status.code(), Code::InvalidArgument);
}

#[test]
fn a_bad_nibble_in_a_comp_3_field_is_invalid_argument() {
    let mut service = service();
    // A well-formed record, then one whose balance carries 0xa in a digit
    // position. This is what a layout with drifted offsets looks like.
    let mut data = customer(1, "GOOD", 100, 1);
    data.extend(
        Encoder::new("cp037")
            .zoned(2, 6)
            .text("CORRUPT", 20)
            .raw(&[0x1a, 0x23, 0x45, 0x67, 0x8c])
            .binary(1, 2)
            .text("", 4)
            .build(),
    );

    let status = parse(&mut service, customer_options(), &data)
        .expect_err("a packed field with a bad nibble has no value to report");
    assert_eq!(status.code(), Code::InvalidArgument);
    assert!(
        status.to_string().contains("CUST-BALANCE"),
        "{}",
        status.to_string()
    );
    assert!(status.to_string().contains("nibble"), "{}", status.to_string());
}

#[test]
fn a_non_decimal_zoned_digit_is_invalid_argument() {
    let mut service = service();
    // 0xfa in the id: the zone is right, the digit nibble is not.
    let data = Encoder::new("cp037")
        .raw(&[0xf0, 0xf0, 0xf0, 0xf0, 0xf0, 0xfa])
        .text("BAD ZONE", 20)
        .packed(1, 9)
        .binary(1, 2)
        .text("", 4)
        .build();

    let status = parse(&mut service, customer_options(), &data)
        .expect_err("0xa is not a digit");
    assert_eq!(status.code(), Code::InvalidArgument);
    assert!(status.to_string().contains("CUST-ID"), "{}", status.to_string());
}

/// The same bytes, three code pages, three different strings.
///
/// The characters chosen are the ones cp037 and cp500 disagree about; a layout
/// decoded with the wrong page produces text that looks fine and is wrong,
/// which is exactly why `encoding` is a request option.
#[test]
fn the_code_page_changes_what_the_same_bytes_say() {
    let mut service = service();
    let copybook = "01 R.\n05 MARKS PIC X(3).\n05 EURO PIC X(1).\n";
    let options = |encoding: &str| pb::ParseOptions {
        encoding: encoding.to_string(),
        layout_source: Some(pb::parse_options::LayoutSource::Copybook(
            copybook.to_string(),
        )),
        ..Default::default()
    };
    // 0x4a 0x5a 0x5f differ between cp037 and cp500; 0x9f differs between
    // cp037 and cp1140.
    let data = [0x4a, 0x5a, 0x5f, 0x9f];

    let us = parse(&mut service, options("cp037"), &data).unwrap();
    assert_eq!(us.layout.encoding, "cp037");
    assert_eq!(
        cell(&us.rows[0], "MARKS"),
        &pb::cell::Value::Text("\u{a2}!\u{ac}".into())
    );
    assert_eq!(
        cell(&us.rows[0], "EURO"),
        &pb::cell::Value::Text("\u{a4}".into())
    );

    let international = parse(&mut service, options("cp500"), &data).unwrap();
    assert_eq!(international.layout.encoding, "cp500");
    assert_eq!(
        cell(&international.rows[0], "MARKS"),
        &pb::cell::Value::Text("[]^".into()),
        "the same three bytes, a different alphabet"
    );

    let euro = parse(&mut service, options("cp1140"), &data).unwrap();
    assert_eq!(
        cell(&euro.rows[0], "EURO"),
        &pb::cell::Value::Text("\u{20ac}".into()),
        "cp1140 is cp037 with the euro at 0x9f"
    );

    // An alias resolves to the same canonical name.
    let alias = parse(&mut service, options("IBM-037"), &data).unwrap();
    assert_eq!(alias.layout.encoding, "cp037");

    // And a code page this build does not carry is refused by name.
    let status = parse(&mut service, options("utf-8"), &data)
        .expect_err("utf-8 is not EBCDIC");
    assert_eq!(status.code(), Code::InvalidArgument);
    assert!(status.to_string().contains("utf-8"), "{}", status.to_string());
}

#[test]
fn control_characters_are_stripped_only_when_the_option_is_on() {
    let mut service = service();
    let copybook = "01 R.\n05 NOTE PIC X(6).\n";
    let build = |strip: Option<bool>| pb::ParseOptions {
        layout_source: Some(pb::parse_options::LayoutSource::Copybook(
            copybook.to_string(),
        )),
        strip_control_characters: strip,
        ..Default::default()
    };
    // "AB", shift-out (0x0e), "C", then two blanks.
    let data = [0xc1, 0xc2, 0x0e, 0xc3, 0x40, 0x40];

    let stripped = parse(&mut service, build(None), &data).unwrap();
    assert_eq!(
        cell(&stripped.rows[0], "NOTE"),
        &pb::cell::Value::Text("ABC".into()),
        "unset means true"
    );

    let kept = parse(&mut service, build(Some(false)), &data).unwrap();
    assert_eq!(
        cell(&kept.rows[0], "NOTE"),
        &pb::cell::Value::Text("AB\u{e}C".into())
    );
}

#[test]
fn max_records_truncates_and_says_so() {
    let mut service = service();
    let mut data = Vec::new();
    for id in 1..=5 {
        data.extend(customer(id, "BULK", 0, 0));
    }
    let options = pb::ParseOptions {
        max_records: 2,
        ..customer_options()
    };
    let parsed = parse(&mut service, options, &data).unwrap();
    assert_eq!(parsed.rows.len(), 2);
    assert!(parsed.status.truncated);
    assert_eq!(
        parsed.status.warnings[0].code,
        pb::WarningCode::MaxRecordsReached.number()
    );
    assert_eq!(parsed.status.bytes_received, data.len() as u64);
}

#[test]
fn the_byte_cap_is_resource_exhausted() {
    let mut service = EbcdicGrpc::new(Metrics::new()).with_max_document_mib(1);
    let mut data = Vec::new();
    while data.len() <= 1024 * 1024 {
        data.extend(customer(1, "BIG", 0, 0));
    }
    let status = parse(&mut service, customer_options(), &data)
        .expect_err("past the cap");
    assert_eq!(status.code(), Code::ResourceExhausted);

    // The per-request cap is honoured too, and it is the tighter of the two.
    let options = pb::ParseOptions {
        max_document_mib: 1,
        ..customer_options()
    };
    let mut generous = EbcdicGrpc::new(Metrics::new()).with_max_document_mib(512);
    let status = parse(&mut generous, options, &data)
        .expect_err("past the request cap");
    assert_eq!(status.code(), Code::ResourceExhausted);
}

#[test]
fn an_unsupported_copybook_feature_is_unimplemented() {
    let mut service = service();
    let options = pb::ParseOptions {
        layout_source: Some(pb::parse_options::LayoutSource::Copybook(
            "01 R.\n05 A PIC X(4).\n05 B REDEFINES A PIC 9(4).\n".into(),
        )),
        ..Default::default()
    };
    let status = parse(&mut service, options, b"")
        .expect_err("REDEFINES is out of scope");
    assert_eq!(status.code(), Code::Unimplemented);
    assert!(
        status.to_string().contains("REDEFINES"),
        "{}",
        status.to_string()
    );
}

#[test]
fn a_malformed_copybook_is_invalid_argument() {
    let mut service = service();
    let options = pb::ParseOptions {
        layout_source: Some(pb::parse_options::LayoutSource::Copybook(
            "this is a haiku\nnot a data description\nthe bytes stay opaque\n".into(),
        )),
        ..Default::default()
    };
    let status = parse(&mut service, options, b"")
        .expect_err("prose is not a copybook");
    assert_eq!(status.code(), Code::InvalidArgument);
}

#[test]
fn a_multi_schema_file_routes_records_by_their_selector() {
    let mut service = service();
    let layout = pb::EbcdicLayout {
        description: "Mixed customer and order extract".into(),
        record_type_field: Some(pb::EbcdicField {
            name: "RECTYPE".into(),
            size: 1,
            field_type: pb::FieldType::String.number(),
            ..Default::default()
        }),
        records: vec![
            pb::EbcdicRecordLayout {
                name: "CUSTOMER".into(),
                selector: Some("C".into()),
                fields: vec![pb::EbcdicField {
                    name: "NAME".into(),
                    size: 10,
                    field_type: pb::FieldType::String.number(),
                    ..Default::default()
                }],
            },
            pb::EbcdicRecordLayout {
                name: "ORDER".into(),
                selector: Some("O".into()),
                fields: vec![pb::EbcdicField {
                    name: "AMOUNT".into(),
                    size: 4,
                    field_type: pb::FieldType::PackedDecimal.number(),
                    scale: 2,
                    ..Default::default()
                }],
            },
        ],
        ..Default::default()
    };
    let options = pb::ParseOptions {
        layout_source: Some(pb::parse_options::LayoutSource::Layout(layout)),
        ..Default::default()
    };

    let mut data = Encoder::new("cp037").text("C", 1).text("ACME", 10).build();
    data.extend(Encoder::new("cp037").text("O", 1).packed(-4250, 7).build());
    data.extend(Encoder::new("cp037").text("C", 1).text("BETA", 10).build());

    let parsed = parse(&mut service, options, &data).unwrap();
    assert_eq!(parsed.layout.prefix_size, 1);
    assert_eq!(
        parsed.layout.description,
        "Mixed customer and order extract"
    );
    assert_eq!(
        parsed
            .rows
            .iter()
            .map(|r| (r.record_type.as_str(), r.row_index))
            .collect::<Vec<_>>(),
        vec![("CUSTOMER", 0), ("ORDER", 0), ("CUSTOMER", 1)]
    );
    assert_eq!(
        cell(&parsed.rows[1], "AMOUNT"),
        &pb::cell::Value::Decimal(pb::Decimal {
            text: "-42.50".into(),
            scale: 2,
            unscaled: Some(-4250),
        })
    );
    assert_eq!(rows_of(&parsed.status, "CUSTOMER"), 2);
    assert_eq!(rows_of(&parsed.status, "ORDER"), 1);
}

#[test]
fn the_docling_json_layout_decodes_the_same_bytes_as_the_copybook() {
    let mut service = service();
    let json = br#"{
        "description": "Customer master",
        "records": [{
            "name": "CUSTOMER-RECORD",
            "fields": [
                {"name": "CUST-ID", "size": 6, "type": "zoned_decimal"},
                {"name": "CUST-NAME", "size": 20, "type": "string"},
                {"name": "CUST-BALANCE", "size": 5, "type": "packed_decimal", "scale": 2},
                {"name": "CUST-ORDER-COUNT", "size": 2, "type": "integer"},
                {"name": "FILLER", "size": 4, "type": "skip"}
            ]
        }]
    }"#;
    let data = customer(4242, "JSON ROUTE", -50, 3);

    let from_json = parse(
        &mut service,
        pb::ParseOptions {
            layout_source: Some(pb::parse_options::LayoutSource::LayoutJson(json_form(json))),
            ..Default::default()
        },
        &data,
    )
    .unwrap();
    let from_copybook = parse(&mut service, customer_options(), &data).unwrap();

    assert_eq!(from_json.layout.source, pb::LayoutSource::Json.number());
    assert_eq!(from_json.layout.description, "Customer master");
    assert_eq!(from_json.rows[0].cells, from_copybook.rows[0].cells);
    assert_eq!(
        cell(&from_json.rows[0], "CUST-BALANCE"),
        &pb::cell::Value::Decimal(pb::Decimal {
            text: "-0.50".into(),
            scale: 2,
            unscaled: Some(-50),
        })
    );
}

#[test]
fn setting_two_layouts_at_once_is_impossible_by_construction() {
    // The three forms are a protobuf `oneof`, so "both" cannot be expressed on
    // the wire: assigning the second clears the first. The mutual exclusion is
    // structural rather than validated, and there is no "two layouts" error.
    let mut options = customer_options();
    options.layout_source = Some(pb::parse_options::LayoutSource::LayoutJson(
        json_form(br#"{"records":[]}"#),
    ));
    assert!(matches!(
        options.layout_source,
        Some(pb::parse_options::LayoutSource::LayoutJson(_))
    ));
}

#[test]
fn get_service_info_reports_what_this_build_can_do() {
    let info = service().get_service_info();
    assert_eq!(info.service, "grpc-ebcdic");
    assert_eq!(info.default_encoding, "cp037");
    assert!(
        info.encodings.contains(&"cp500".to_string()),
        "{:?}",
        info.encodings
    );
    assert!(
        info.encodings.contains(&"cp1140".to_string()),
        "{:?}",
        info.encodings
    );
    assert!(info.copybook_compiler);
    assert!(info.max_concurrent_parses >= 1);
    assert!(
        info.supported_field_types
            .contains(&(pb::FieldType::PackedDecimal.number()))
    );
    assert!(!info.version.is_empty());
}

#[test]
fn the_concurrency_cap_refuses_rather_than_queues() {
    let mut service = EbcdicGrpc::new(Metrics::new()).with_max_concurrent_parses(1);

    // Hold one parse open by never ending its request stream.
    service.enter().expect("the first parse is admitted");
    let (held, _) = service
        .open(&Some(options_frame(customer_options())))
        .expect("open the call");

    let status = parse(
        &mut service,
        customer_options(),
        &customer(1, "SECOND", 0, 0),
    )
    .expect_err("the second parse is over the cap");
    assert_eq!(status.code(), Code::ResourceExhausted);
    assert_eq!(service.metrics.parses_rejected, 1);

    // Once the first ends, its place comes back.
    let mut held = held;
    held.end_input();
    held.finish().expect("an empty input has a trailer");
    service.release();
    let parsed = parse(
        &mut service,
        customer_options(),
        &customer(2, "THIRD", 0, 0),
    )
    .expect("the place is free again");
    assert_eq!(parsed.rows.len(), 1);
}

#[test]
fn a_data_frame_before_the_options_frame_is_invalid_argument() {
    let mut service = service();
    let Err(status) = service.open(&Some(chunk_frame(b"bytes first"))) else {
        panic!("the server cannot decode before it has a layout");
    };
    assert_eq!(status.code(), Code::InvalidArgument);
}

#[test]
fn an_empty_input_produces_a_layout_and_an_empty_trailer() {
    let mut service = service();
    let parsed = parse(&mut service, customer_options(), b"")
        .expect("no records is not an error");
    assert!(parsed.rows.is_empty());
    assert_eq!(parsed.status.records_kept, 0);
    assert_eq!(parsed.status.bytes_received, 0);
    assert!(
        parsed.status.warnings.is_empty(),
        "{:?}",
        parsed.status.warnings
    );
    assert_eq!(rows_of(&parsed.status, "CUSTOMER-RECORD"), 0);
}

#[test]
fn a_header_and_footer_are_skipped_around_the_records() {
    let mut service = service();
    let layout = pb::EbcdicLayout {
        header_size: 8,
        footer_size: 8,
        records: vec![pb::EbcdicRecordLayout {
            name: "ROW".into(),
            selector: None,
            fields: vec![pb::EbcdicField {
                name: "VALUE".into(),
                size: 4,
                field_type: pb::FieldType::String.number(),
                ..Default::default()
            }],
        }],
        ..Default::default()
    };
    let options = pb::ParseOptions {
        layout_source: Some(pb::parse_options::LayoutSource::Layout(layout)),
        ..Default::default()
    };
    let data = Encoder::new("cp037")
        .text("HEADER01", 8)
        .text("AAAA", 4)
        .text("BBBB", 4)
        .text("TRAILER1", 8)
        .build();

    let parsed = parse(&mut service, options, &data).unwrap();
    assert_eq!(parsed.layout.header_size, 8);
    assert_eq!(parsed.layout.footer_size, 8);
    assert_eq!(
        parsed
            .rows
            .iter()
            .map(|r| cell(r, "VALUE").clone())
            .collect::<Vec<_>>(),
        vec![
            pb::cell::Value::Text("AAAA".into()),
            pb::cell::Value::Text("BBBB".into()),
        ]
    );
    assert!(
        parsed.status.warnings.is_empty(),
        "{:?}",
        parsed.status.warnings
    );
}
