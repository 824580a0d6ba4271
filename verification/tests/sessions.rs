//! Sessions and the service around them.

use grpc_ebcdic::codec::Codec;
use grpc_ebcdic::document_fold::integrity_errors;
use grpc_ebcdic::error::{Code, ParseError};
use grpc_ebcdic::proto::v1 as pb;
use grpc_ebcdic::proto::v1::parse_ebcdic_request::Frame;
use grpc_ebcdic::proto::v1::parse_ebcdic_response::Event;
use grpc_ebcdic::service::{ParseSession, DEFAULT_MAX_CONCURRENT_PARSES, VERSION};
use grpc_ebcdic::{EbcdicGrpc, Metrics};

/// Text in cp037.
fn ebcdic(text: &str) -> Vec<u8> {
    Codec::resolve("cp037").unwrap().encode(text).unwrap()
}

/// Options for records of two characters.
fn options() -> pb::ParseOptions {
    pb::ParseOptions {
        layout_source: Some(pb::parse_options::LayoutSource::Copybook(
            "01 R.\n05 A PIC X(2).\n".to_string(),
        )),
        ..Default::default()
    }
}

/// A message with a frame.
fn message(frame: Frame) -> pb::ParseEbcdicRequest {
    pb::ParseEbcdicRequest { frame: Some(frame) }
}

/// Open a session.
fn open(service: &mut EbcdicGrpc, options: pb::ParseOptions) -> (ParseSession, Event) {
    match service.open(&Some(message(Frame::Options(options)))) {
        Ok(opened) => opened,
        Err(error) => panic!("{error:?}"),
    }
}

/// Every event of a parse whose input arrives in pieces.
fn events(options: pb::ParseOptions, pieces: &[&[u8]]) -> Result<Vec<Event>, ParseError> {
    let mut service = EbcdicGrpc::new(Metrics::new());
    let mut metrics = Metrics::new();
    let (mut session, first) = open(&mut service, options);
    let mut sent = vec![first];
    for piece in pieces {
        session.accept(&message(Frame::Chunk(piece.to_vec())), &mut metrics)?;
        while let Some(event) = session.next_event(&mut metrics)? {
            sent.push(event);
        }
    }
    session.end_input();
    while let Some(event) = session.next_event(&mut metrics)? {
        sent.push(event);
    }
    sent.extend(session.finish()?);
    Ok(sent)
}

#[test]
fn a_stream_opens_with_options_or_not_at_all() {
    let mut service = EbcdicGrpc::new(Metrics::new());
    for (first, text) in [
        (None, "the request stream ended before its options frame"),
        (
            Some(pb::ParseEbcdicRequest { frame: None }),
            "the first frame is empty",
        ),
        (
            Some(message(Frame::Chunk(vec![1]))),
            "the first frame must carry options, not data: the server cannot decode bytes before \
             it has the layout",
        ),
    ] {
        let Err(error) = service.open(&first) else {
            panic!("opens instead of: {text}");
        };
        assert_eq!(error.code(), Code::InvalidArgument);
        assert_eq!(error.to_string(), text);
    }
    let Err(error) = service.open(&Some(message(Frame::Options(pb::ParseOptions {
        encoding: "ascii".to_string(),
        ..options()
    })))) else {
        panic!("ascii is no EBCDIC code page");
    };
    assert_eq!(error.code(), Code::InvalidArgument);
    assert_eq!(service.metrics.parses_started, 0);
    open(&mut service, options());
    assert_eq!(service.metrics.parses_started, 1);
}

#[test]
fn a_copybook_is_looked_at_once_the_code_page_is_known() {
    let mut service = EbcdicGrpc::new(Metrics::new());
    let astride = pb::ParseOptions {
        layout_source: Some(pb::parse_options::LayoutSource::Copybook(format!(
            "       {:<64}\u{e9}\n",
            "01  R."
        ))),
        ..Default::default()
    };
    assert!(service
        .try_open(&Some(message(Frame::Options(astride.clone()))))
        .is_none());
    let unknown = pb::ParseOptions { encoding: "ascii".to_string(), ..astride };
    match service.try_open(&Some(message(Frame::Options(unknown)))) {
        Some(Err(error)) => assert_eq!(error.code(), Code::InvalidArgument),
        _ => panic!("ascii is no EBCDIC code page"),
    }
    assert!(matches!(service.try_open(&None), Some(Err(_))));
    assert_eq!(service.metrics.parses_started, 0);
    assert!(matches!(
        service.try_open(&Some(message(Frame::Options(options())))),
        Some(Ok(_))
    ));
    assert_eq!(service.metrics.parses_started, 1);
}

#[test]
fn options_come_once_and_an_empty_message_is_nothing() {
    let mut service = EbcdicGrpc::new(Metrics::new());
    let mut metrics = Metrics::new();
    let (mut session, _) = open(&mut service, options());
    session
        .accept(&pb::ParseEbcdicRequest { frame: None }, &mut metrics)
        .expect("an empty message is ignored");
    assert!(session.next_event(&mut metrics).unwrap().is_none());
    let error = session
        .accept(&message(Frame::Options(options())), &mut metrics)
        .unwrap_err();
    assert_eq!(error.code(), Code::InvalidArgument);
    assert_eq!(
        error.to_string(),
        "options may only appear in the first frame of a parse stream"
    );
    assert_eq!(metrics, Metrics::new());
}

#[test]
fn the_byte_cap_counts_every_byte_and_refuses_the_one_past_it() {
    let mut service = EbcdicGrpc::new(Metrics::new()).with_max_document_mib(0);
    let mut metrics = Metrics::new();
    let (mut session, _) = open(&mut service, options());
    let half = vec![0x40; 1 << 19];
    for _ in 0..2 {
        session
            .accept(&message(Frame::Chunk(half.clone())), &mut metrics)
            .expect("one mebibyte is within the cap");
    }
    assert_eq!(metrics.bytes_received, 1 << 20);
    let error = session
        .accept(&message(Frame::Chunk(vec![0x40])), &mut metrics)
        .unwrap_err();
    assert_eq!(error.code(), Code::ResourceExhausted);
    assert_eq!(
        error.to_string(),
        "the input exceeds the 1048576-byte cap for this stream"
    );
    assert_eq!(metrics.bytes_received, 1 << 20);
}

#[test]
fn how_the_input_is_cut_changes_no_event() {
    let asked = || pb::ParseOptions {
        emit_document: true,
        ..options()
    };
    let input = ebcdic("AABBCCD");
    let whole = events(asked(), &[&input]).unwrap();
    assert_eq!(events(asked(), &[]).unwrap().len(), 3);
    for size in 1..=input.len() {
        let pieces: Vec<&[u8]> = input.chunks(size).collect();
        assert_eq!(events(asked(), &pieces).unwrap(), whole, "{size}");
    }
}

#[test]
fn the_document_goes_right_before_the_trailer() {
    let sent = events(
        pb::ParseOptions {
            emit_document: true,
            ..options()
        },
        &[&ebcdic("AABBCC")],
    )
    .unwrap();
    let [Event::LayoutInfo(_), Event::Record(_), Event::Record(_), Event::Record(_), Event::Document(document), Event::Status(status)] =
        sent.as_slice()
    else {
        panic!("{sent:?}");
    };
    assert_eq!(integrity_errors(document), Vec::<String>::new());
    assert_eq!(document.tables.len(), 1);
    assert_eq!(document.tables[0].data.as_ref().unwrap().num_rows, 4);
    assert_eq!(status.records_kept, 3);
    assert_eq!(status.warnings, vec![]);

    let plain = events(options(), &[&ebcdic("AA")]).unwrap();
    assert!(
        matches!(plain.as_slice(), [Event::LayoutInfo(_), Event::Record(_), Event::Status(_)]),
        "{plain:?}"
    );
}

#[test]
fn a_failed_parse_has_no_trailer() {
    let error = events(
        pb::ParseOptions {
            abort_on_error: true,
            ..options()
        },
        &[&ebcdic("AAB")],
    )
    .unwrap_err();
    assert_eq!(error.code(), Code::InvalidArgument);
    assert_eq!(
        error.to_string(),
        "the input ends inside a record: 1 bytes after the last whole record at byte 2"
    );
}

#[test]
fn places_are_counted_and_given_back() {
    let mut service = EbcdicGrpc::new(Metrics::new()).with_max_concurrent_parses(2);
    service.enter().unwrap();
    service.enter().unwrap();
    let error = service.enter().unwrap_err();
    assert_eq!(error.code(), Code::ResourceExhausted);
    assert_eq!(
        error.to_string(),
        "2 parses are already running; retry when one finishes"
    );
    assert_eq!(service.metrics.parses_rejected, 1);
    service.release();
    service.enter().expect("a place was given back");
    let mut least = EbcdicGrpc::new(Metrics::new()).with_max_concurrent_parses(0);
    least.enter().expect("there is one place at the least");
    assert!(least.enter().is_err());
}

#[test]
fn ends_are_counted_by_how_they_came() {
    let mut metrics = Metrics::new();
    metrics.conclude(&Ok(()));
    metrics.conclude(&Err(ParseError::invalid("bad".to_string())));
    metrics.conclude(&Err(ParseError::exhausted("full".to_string())));
    assert_eq!(metrics.parses_completed, 1);
    assert_eq!(metrics.parses_failed, 2);
    assert_eq!(metrics.byte_cap_hits, 1);
    assert_eq!(
        metrics.line(),
        "grpc-ebcdic metrics: parses{started=0,completed=1,failed=2,rejected=0} records=0 bytes=0 \
         byte_cap_hits=1"
    );
    let mut counter = u64::MAX;
    Metrics::bump(&mut counter);
    assert_eq!(counter, 0, "a counter starts over");
}

#[test]
fn the_service_says_what_it_was_built_with() {
    let info = EbcdicGrpc::new(Metrics::new()).get_service_info();
    assert_eq!(info.version, VERSION);
    assert_eq!(info.default_max_document_mib, 512);
    assert_eq!(info.max_concurrent_parses as usize, DEFAULT_MAX_CONCURRENT_PARSES);
    assert_eq!(info.supported_field_types, vec![1, 2, 3, 4, 5, 6]);
    let service = EbcdicGrpc::new(Metrics::new())
        .with_max_document_mib(7)
        .with_max_concurrent_parses(3);
    assert_eq!(service.byte_cap(&options()), 7 << 20);
    assert_eq!(
        service.byte_cap(&pb::ParseOptions {
            max_document_mib: 9,
            ..options()
        }),
        9 << 20
    );
    let info = service.get_service_info();
    assert_eq!(info.default_max_document_mib, 7);
    assert_eq!(info.max_concurrent_parses, 3);
}
