//! The parse service: who is admitted, how a stream opens, and what each of
//! its frames leads to.
//!
//! One parse has one shape: read a frame, decode whatever records that frame
//! completed, send them, repeat. There is no collecting phase and no place
//! where a whole document exists, which is both the streaming contract and the
//! memory bound. A server drives a [`ParseSession`] with the frames it
//! receives and sends what the session hands it.
//!
//! The one exception is asked for explicitly: with `emit_document` set, every
//! outbound event also goes through a [`DocumentFold`], which does accumulate,
//! since that is what a document is, and is therefore off by default and
//! capped when on.

pub mod laws;
pub mod meaning;

use vstd::prelude::*;
use crate::codec::{all_names, page_name, selected_page, supported_encodings, unknown_message,
    Codec, CodePage, DEFAULT_ENCODING};
use crate::copybook::reads_ascii;
use crate::document_fold::{can_count, document_of, folded, fresh_fold, warnings_of, DocumentFold,
    Fold};
use crate::document_fold::laws::folded_all;
use crate::error::{outcome, Failure, ParseError};
use crate::layout::{check_options, columns_are_sound, layout_info, resolve, resolved, Layout, LayoutModel};
use crate::metrics::{with_input, with_record, with_rejection, with_start, Metrics};
use crate::proto::document::v1::Document;
use crate::proto::v1::{FieldType, GetServiceInfoResponse, GetServiceInfoResponseModel, LayoutInfo,
    ParseEbcdicRequest, ParseOptions, ParseStatus, ParseStatusModel, ParseWarning, RecordRow};
use crate::proto::v1::parse_ebcdic_request::Frame;
use crate::proto::v1::parse_ebcdic_response::{Event, EventModel};
use crate::proto::v1::parse_options::LayoutSource as FormSource;
use crate::stream::{accounted, fresh, next, pushed, sound, status_of, DecodeOptions, RecordStream,
    Walk};
use crate::text::{cat2, cat3, decimal, decimal_text};

verus! {

/// Version of the service, stamped on every document item.
pub const VERSION: &'static str = "0.1.0";

/// Default byte cap on one parse, in mebibytes.
///
/// Not a limit on how much the service can decode, since the walk is
/// incremental, but on how much one caller may push through one stream before
/// the operator has said it is expected.
pub const DEFAULT_MAX_DOCUMENT_MIB: u32 = 512;

/// Default number of parse streams admitted at once.
///
/// Past it a call is refused rather than queued: a queued parse that
/// eventually runs is worse for a live view than one that fails fast.
pub const DEFAULT_MAX_CONCURRENT_PARSES: usize = 64;

/// Bytes in a mebibyte.
const MEBIBYTE: u64 = 1_048_576;

/// The service: its limits, its counters, and how many parses are running.
pub struct EbcdicGrpc {
    /// Byte cap applied when the request does not set one.
    max_document_bytes: u64,
    /// How many parses may run at once.
    max_concurrent_parses: usize,
    /// How many parses are running.
    running: usize,
    /// Process counters.
    pub metrics: Metrics,
}

/// The service as contracts speak of it.
pub struct Service {
    /// Byte cap applied when the request does not set one.
    pub max_document_bytes: u64,
    /// How many parses may run at once.
    pub max_concurrent_parses: usize,
    /// How many parses are running.
    pub running: usize,
    /// Process counters.
    pub metrics: Metrics,
}

impl View for EbcdicGrpc {
    type V = Service;

    closed spec fn view(&self) -> Service {
        Service {
            max_document_bytes: self.max_document_bytes,
            max_concurrent_parses: self.max_concurrent_parses,
            running: self.running,
            metrics: self.metrics,
        }
    }
}

/// A number of mebibytes in bytes.
pub open spec fn mebibytes(mib: u32) -> u64 {
    (mib * 1_048_576) as u64
}

/// The byte cap of a parse: the request's, or the service's where the request
/// sets none.
pub open spec fn cap_of(service: Service, options: ParseOptions) -> u64 {
    if options.max_document_mib == 0 {
        service.max_document_bytes
    } else {
        mebibytes(options.max_document_mib)
    }
}

/// A service with another byte cap, in mebibytes, one at the least.
pub open spec fn with_mib(service: Service, mib: u32) -> Service {
    Service { max_document_bytes: mebibytes(if mib == 0 { 1 } else { mib }), ..service }
}

/// A service that may run another number of parses at once, one at the least,
/// and runs none.
pub open spec fn with_parses(service: Service, parses: usize) -> Service {
    Service {
        max_concurrent_parses: if parses == 0 { 1 } else { parses },
        running: 0,
        ..service
    }
}

/// A service asked to let one more parse in.
pub open spec fn entered(service: Service) -> Service {
    if service.running < service.max_concurrent_parses {
        Service { running: (service.running + 1) as usize, ..service }
    } else {
        Service { metrics: with_rejection(service.metrics), ..service }
    }
}

/// A service that one parse has left.
pub open spec fn released(service: Service) -> Service {
    Service { running: (service.running - 1) as usize, ..service }
}

/// What the service says of itself.
pub open spec fn service_info(service: Service) -> GetServiceInfoResponseModel {
    GetServiceInfoResponseModel {
        service: "grpc-ebcdic"@,
        version: "0.1.0"@,
        encodings: all_names(),
        default_encoding: "cp037"@,
        default_max_document_mib: if service.max_document_bytes / 1_048_576 <= u32::MAX {
            (service.max_document_bytes / 1_048_576) as u32
        } else {
            u32::MAX
        },
        max_concurrent_parses: if service.max_concurrent_parses <= u32::MAX {
            service.max_concurrent_parses as u32
        } else {
            u32::MAX
        },
        supported_field_types: seq![
            FieldType::String.number(),
            FieldType::Integer.number(),
            FieldType::UnsignedInteger.number(),
            FieldType::PackedDecimal.number(),
            FieldType::ZonedDecimal.number(),
            FieldType::Skip.number(),
        ],
        copybook_compiler: true,
    }
}

/// The options a stream opens with: its first frame has to carry them.
pub open spec fn opening_options(first: Option<ParseEbcdicRequest>) -> Result<
    ParseOptions,
    Failure,
> {
    match first {
        None => Err(Failure::Invalid("the request stream ended before its options frame"@)),
        Some(message) => match message.frame {
            Some(Frame::Options(options)) => Ok(options),
            Some(Frame::Chunk(_)) => Err(
                Failure::Invalid(
                    "the first frame must carry options, not data: the server cannot decode bytes before it has the layout"@,
                ),
            ),
            None => Err(Failure::Invalid("the first frame is empty"@)),
        },
    }
}

/// The code page and the layout that a stream's options ask for.
pub open spec fn opening_terms(options: ParseOptions) -> Result<(CodePage, LayoutModel), Failure> {
    match selected_page(options.encoding@) {
        None => Err(Failure::Invalid(unknown_message(options.encoding@))),
        Some(page) => match resolved(options) {
            Err(failure) => Err(failure),
            Ok(layout) => Ok((page, layout)),
        },
    }
}

/// Whether a parse can be opened with a first message. The copybook is read
/// only once the code page is known, and its lines have to align then.
pub open spec fn can_open(first: Option<ParseEbcdicRequest>) -> bool {
    opening_options(first) matches Ok(options) ==> selected_page(options.encoding@) is Some
        ==> columns_are_sound(options)
}

/// Whether the ASCII words of the copybook in a first message, if it is read,
/// are read with their ASCII capitals.
pub open spec fn copybook_reads_ascii(first: Option<ParseEbcdicRequest>) -> bool {
    opening_options(first) matches Ok(options) ==> selected_page(options.encoding@) is Some ==> (
    options.layout_source matches Some(FormSource::Copybook(source)) ==> reads_ascii(source@))
}

/// Whether a result is that of opening a parse with a first message: the
/// failure that its options end in, or the session they ask for with the layout
/// as its first event.
pub open spec fn opens(
    before: Service,
    first: Option<ParseEbcdicRequest>,
    r: Result<(ParseSession, Event), ParseError>,
) -> bool {
    match opening_options(first) {
        Err(failure) => r matches Err(error) && error@ == failure,
        Ok(options) => match opening_terms(options) {
            Err(failure) => r matches Err(error) && error@ == failure,
            Ok((page, layout)) => {
                &&& r matches Ok((session, event))
                &&& session.wf()
                &&& is_opened(session@, before, options, page, layout)
                &&& event.deep_view() == EventModel::LayoutInfo(
                    layout_info(layout, page_name(page)),
                )
            },
        },
    }
}

/// Whether decoder settings are those that a stream's options ask for. Control
/// characters are dropped unless the options say otherwise.
pub open spec fn asked_for(
    settings: DecodeOptions,
    options: ParseOptions,
    page: CodePage,
) -> bool {
    &&& settings.codec.page() == page
    &&& settings.strip_control_characters == (options.strip_control_characters != Some(false))
    &&& settings.max_records == options.max_records
    &&& settings.abort_on_error == options.abort_on_error
}

/// The state of one parse.
#[verifier::ext_equal]
pub struct Session {
    /// The walk over the input.
    pub walk: Walk,
    /// The document fold, when the request asked for a document.
    pub fold: Option<Fold>,
    /// Bytes the stream may carry.
    pub byte_cap: u64,
    /// The events sent so far.
    pub sent: Seq<EventModel>,
}

/// A session that has sent an event. The fold sees exactly what the client
/// sees.
pub open spec fn with_event(session: Session, event: EventModel) -> Session {
    Session {
        fold: match session.fold {
            Some(fold) => Some(folded(fold, event)),
            None => None,
        },
        sent: session.sent.push(event),
        ..session
    }
}

/// Whether a session has just been opened: nothing has been read, and the
/// layout has been sent.
pub open spec fn is_opened(
    session: Session,
    service: Service,
    options: ParseOptions,
    page: CodePage,
    layout: LayoutModel,
) -> bool {
    let event = EventModel::LayoutInfo(layout_info(layout, page_name(page)));
    &&& asked_for(session.walk.options, options, page)
    &&& session == with_event(
        Session {
            walk: fresh(layout, session.walk.options),
            fold: if options.emit_document {
                Some(fresh_fold("0.1.0"@))
            } else {
                None
            },
            byte_cap: cap_of(service, options),
            sent: Seq::empty(),
        },
        event,
    )
}

/// What one message of the request stream does to a session, and what it is
/// answered.
pub open spec fn accepted(session: Session, message: ParseEbcdicRequest) -> (
    Session,
    Result<(), Failure>,
) {
    match message.frame {
        None => (session, Ok(())),
        Some(Frame::Options(_)) => (
            session,
            Err(
                Failure::Invalid(
                    "options may only appear in the first frame of a parse stream"@,
                ),
            ),
        ),
        Some(Frame::Chunk(chunk)) => if session.walk.received + chunk@.len() > session.byte_cap {
            (
                session,
                Err(
                    Failure::Exhausted(
                        "the input exceeds the "@ + decimal(session.byte_cap as nat)
                            + "-byte cap for this stream"@,
                    ),
                ),
            )
        } else {
            (Session { walk: pushed(session.walk, chunk@), ..session }, Ok(()))
        },
    }
}

/// What a message does to the counters.
pub open spec fn counted_input(
    metrics: Metrics,
    session: Session,
    message: ParseEbcdicRequest,
) -> Metrics {
    match message.frame {
        Some(Frame::Chunk(chunk)) => if session.walk.received + chunk@.len() > session.byte_cap {
            metrics
        } else {
            with_input(metrics, chunk@.len() as u64)
        },
        _ => metrics,
    }
}

/// What asking for the next event does and gives: the row of the next record
/// whose bytes are all there, if there is one.
pub open spec fn stepped(session: Session) -> (Session, Result<Option<EventModel>, Failure>) {
    let (walk, result) = next(session.walk);
    let moved = Session { walk, ..session };
    match result {
        Err(failure) => (moved, Err(failure)),
        Ok(None) => (moved, Ok(None)),
        Ok(Some(row)) => {
            let event = EventModel::Record(row);
            (with_event(moved, event), Ok(Some(event)))
        },
    }
}

/// The events a session ends with: the document, when one was asked for, and
/// the trailer last, with the warnings of the fold among its own.
pub open spec fn closing(session: Session) -> Result<Seq<EventModel>, Failure> {
    match status_of(session.walk) {
        Err(failure) => Err(failure),
        Ok(status) => Ok(
            match session.fold {
                None => seq![EventModel::Status(status)],
                Some(fold) => seq![
                    EventModel::Document(document_of(fold)),
                    EventModel::Status(
                        ParseStatusModel {
                            warnings: status.warnings + warnings_of(
                                fold,
                                fold.tables.len() as int,
                            ),
                            ..status
                        },
                    ),
                ],
            },
        ),
    }
}

/// The number of rows among events.
pub open spec fn rows_among(events: Seq<EventModel>) -> nat
    decreases events.len(),
{
    if events.len() == 0 {
        0
    } else {
        rows_among(events.drop_last()) + if events.last() is Record {
            1nat
        } else {
            0nat
        }
    }
}

/// What holds of every session: the walk is sound and within the byte cap, the
/// layout was sent first and only rows after it, one for each record the walk
/// emitted, and the fold has seen what was sent.
pub open spec fn session_sound(session: Session) -> bool {
    &&& sound(session.walk)
    &&& accounted(session.walk)
    &&& session.walk.received <= session.byte_cap
    &&& session.sent.len() > 0
    &&& session.sent[0] is LayoutInfo
    &&& forall|i: int| 0 < i < session.sent.len() ==> (#[trigger] session.sent[i]) is Record
    &&& rows_among(session.sent) == session.walk.kept
    &&& session.fold matches Some(fold) ==> {
        &&& fold == folded_all(fresh_fold("0.1.0"@), session.sent)
        &&& forall|i: int|
            0 <= i < fold.tables.len() ==> (#[trigger] fold.tables[i]).dropped
                <= session.walk.kept
    }
}

/// One parse, from its layout to its trailer.
///
/// Hand it every message of the request stream with
/// [`accept`](Self::accept), and after each one take the events it completed
/// with [`next_event`](Self::next_event) until there is none. When the request
/// stream ends, call [`end_input`](Self::end_input), take the events that are
/// left, and end with [`finish`](Self::finish).
pub struct ParseSession {
    /// The walk over the input.
    walk: RecordStream,
    /// The document fold, when the request asked for a document.
    fold: Option<DocumentFold>,
    /// Bytes the stream may carry.
    byte_cap: u64,
    /// The events sent so far.
    sent: Ghost<Seq<EventModel>>,
}

impl View for ParseSession {
    type V = Session;

    closed spec fn view(&self) -> Session {
        Session {
            walk: self.walk@,
            fold: match self.fold {
                Some(fold) => Some(fold@),
                None => None,
            },
            byte_cap: self.byte_cap,
            sent: self.sent@,
        }
    }
}

/// An event more is an event more for the fold.
proof fn lemma_folded_event(session: Session, event: EventModel)
    requires
        session.fold matches Some(fold) ==> fold == folded_all(
            fresh_fold("0.1.0"@),
            session.sent,
        ),
    ensures
        with_event(session, event).fold matches Some(fold) ==> fold == folded_all(
            fresh_fold("0.1.0"@),
            with_event(session, event).sent,
        ),
        rows_among(with_event(session, event).sent) == rows_among(session.sent) + if event is Record {
            1nat
        } else {
            0nat
        },
{
    assert(session.sent.push(event).drop_last() =~= session.sent);
}

impl EbcdicGrpc {
    /// What holds of the service: it never runs more parses than it may.
    pub closed spec fn wf(&self) -> bool {
        self.running <= self.max_concurrent_parses
    }

    /// Between any two calls the service runs no more parses than it may.
    pub proof fn law_the_service_stays_within_its_cap(&self)
        requires
            self.wf(),
        ensures
            self@.running <= self@.max_concurrent_parses,
    {
    }

    /// Build the service with its defaults.
    pub fn new(metrics: Metrics) -> (r: Self)
        ensures
            r.wf(),
            r@ == (Service {
                max_document_bytes: mebibytes(DEFAULT_MAX_DOCUMENT_MIB),
                max_concurrent_parses: DEFAULT_MAX_CONCURRENT_PARSES,
                running: 0,
                metrics,
            }),
    {
        EbcdicGrpc {
            max_document_bytes: DEFAULT_MAX_DOCUMENT_MIB as u64 * MEBIBYTE,
            max_concurrent_parses: DEFAULT_MAX_CONCURRENT_PARSES,
            running: 0,
            metrics,
        }
    }

    /// Override the default byte cap, in mebibytes. It is one at the least.
    pub fn with_max_document_mib(self, mib: u32) -> (r: Self)
        requires
            self.wf(),
        ensures
            r.wf(),
            r@ == with_mib(self@, mib),
            r@ == (Service {
                max_document_bytes: mebibytes(if mib == 0 { 1 } else { mib }),
                ..self@
            }),
    {
        let mut service: EbcdicGrpc = self;
        service.max_document_bytes = if mib == 0 {
            MEBIBYTE
        } else {
            mib as u64 * MEBIBYTE
        };
        service
    }

    /// Override how many parses may run at once, one at the least. The count
    /// starts over.
    pub fn with_max_concurrent_parses(self, parses: usize) -> (r: Self)
        ensures
            r.wf(),
            r@ == with_parses(self@, parses),
            r@ == (Service {
                max_concurrent_parses: if parses == 0 { 1 } else { parses },
                running: 0,
                ..self@
            }),
    {
        let mut service: EbcdicGrpc = self;
        service.max_concurrent_parses = if parses == 0 {
            1
        } else {
            parses
        };
        service.running = 0;
        service
    }

    /// Resolve the byte cap for one request.
    pub fn byte_cap(&self, options: &ParseOptions) -> (r: u64)
        ensures
            r == cap_of(self@, *options),
    {
        if options.max_document_mib == 0 {
            self.max_document_bytes
        } else {
            options.max_document_mib as u64 * MEBIBYTE
        }
    }

    /// Let one more parse in, or refuse it. A refused one is not queued.
    pub fn enter(&mut self) -> (r: Result<(), ParseError>)
        requires
            old(self).wf(),
        ensures
            final(self).wf(),
            r is Ok <==> old(self)@.running < old(self)@.max_concurrent_parses,
            final(self)@ == entered(old(self)@),
            r is Ok ==> final(self)@ == (Service {
                running: (old(self)@.running + 1) as usize,
                ..old(self)@
            }),
            r matches Err(error) ==> {
                &&& error@ == Failure::Exhausted(
                    decimal(old(self)@.max_concurrent_parses as nat)
                        + " parses are already running; retry when one finishes"@,
                )
                &&& final(self)@ == (Service {
                    metrics: with_rejection(old(self)@.metrics),
                    ..old(self)@
                })
            },
    {
        if self.running >= self.max_concurrent_parses {
            Metrics::bump(&mut self.metrics.parses_rejected);
            return Err(
                ParseError::exhausted(
                    cat2(
                        &decimal_text(self.max_concurrent_parses as u128),
                        " parses are already running; retry when one finishes",
                    ),
                ),
            );
        }
        self.running = self.running + 1;
        Ok(())
    }

    /// Give back the place of a parse that was let in, however it ended.
    pub fn release(&mut self)
        requires
            old(self).wf(),
            old(self)@.running > 0,
        ensures
            final(self).wf(),
            final(self)@ == released(old(self)@),
            final(self)@ == (Service { running: (old(self)@.running - 1) as usize, ..old(self)@ }),
    {
        self.running = self.running - 1;
    }

    /// Open a parse with the first message of its request stream, whatever it
    /// holds. Gives nothing, and changes nothing, where [`open`](Self::open)
    /// does not apply: when the copybook would be read and has a character
    /// astride the end of column 72.
    pub fn try_open(&mut self, first: &Option<ParseEbcdicRequest>) -> (r: Option<
        Result<(ParseSession, Event), ParseError>,
    >)
        requires
            old(self).wf(),
        ensures
            final(self).wf(),
            r is Some <==> can_open(*first),
            r is Some ==> copybook_reads_ascii(*first),
            r matches Some(result) ==> opens(old(self)@, *first, result),
            final(self)@ == (Service {
                metrics: if r matches Some(Ok(_)) {
                    with_start(old(self)@.metrics)
                } else {
                    old(self)@.metrics
                },
                ..old(self)@
            }),
    {
        if let Some(message) = first {
            if let Some(Frame::Options(options)) = &message.frame {
                if Codec::resolve(&options.encoding).is_ok() && !check_options(options) {
                    return None;
                }
            }
        }
        Some(self.open(first))
    }

    /// Open a parse with the first message of its request stream.
    ///
    /// The options are settled before the response stream opens, so a bad
    /// layout is a plain error with no half-open stream behind it. The event
    /// that comes with the session is the first to send.
    pub fn open(&mut self, first: &Option<ParseEbcdicRequest>) -> (r: Result<
        (ParseSession, Event),
        ParseError,
    >)
        requires
            old(self).wf(),
            can_open(*first),
        ensures
            final(self).wf(),
            copybook_reads_ascii(*first),
            opens(old(self)@, *first, r),
            final(self)@ == (Service {
                metrics: if r is Ok {
                    with_start(old(self)@.metrics)
                } else {
                    old(self)@.metrics
                },
                ..old(self)@
            }),
    {
        let message: &ParseEbcdicRequest = match first {
            None => {
                return Err(
                    ParseError::invalid(
                        "the request stream ended before its options frame".to_owned(),
                    ),
                );
            },
            Some(message) => message,
        };
        let options: &ParseOptions = match &message.frame {
            Some(Frame::Options(options)) => options,
            Some(Frame::Chunk(_)) => {
                return Err(
                    ParseError::invalid(
                        "the first frame must carry options, not data: the server cannot decode bytes before it has the layout".to_owned(),
                    ),
                );
            },
            None => {
                return Err(ParseError::invalid("the first frame is empty".to_owned()));
            },
        };
        let codec: Codec = match Codec::resolve(&options.encoding) {
            Ok(codec) => codec,
            Err(error) => {
                return Err(ParseError::from_codec(&error));
            },
        };
        let layout: Layout = match resolve(options) {
            Ok(layout) => layout,
            Err(error) => {
                return Err(error);
            },
        };
        let info: LayoutInfo = layout.to_layout_info(codec.name());
        let settings: DecodeOptions = DecodeOptions {
            codec,
            strip_control_characters: match options.strip_control_characters {
                Some(strip) => strip,
                None => true,
            },
            max_records: options.max_records,
            abort_on_error: options.abort_on_error,
        };
        let byte_cap: u64 = self.byte_cap(options);
        // Built here or not at all: with no document asked for there is no
        // fold, and the row path costs nothing more.
        let fold: Option<DocumentFold> = if options.emit_document {
            Some(DocumentFold::new(VERSION))
        } else {
            None
        };
        Metrics::bump(&mut self.metrics.parses_started);
        let walk: RecordStream = RecordStream::new(layout, settings);
        let mut session: ParseSession = ParseSession {
            walk,
            fold,
            byte_cap,
            sent: Ghost(Seq::empty()),
        };
        let event: Event = Event::LayoutInfo(info);
        proof {
            assert(session@.fold matches Some(fold) ==> fold == folded_all(
                fresh_fold("0.1.0"@),
                session@.sent,
            ));
            lemma_folded_event(session@, event.deep_view());
        }
        session.send(&event);
        Ok((session, event))
    }

    /// What this build can do.
    pub fn get_service_info(&self) -> (r: GetServiceInfoResponse)
        ensures
            r.deep_view() == service_info(self@),
    {
        let names: Vec<&'static str> = supported_encodings();
        let mut encodings: Vec<String> = Vec::new();
        let mut i: usize = 0;
        while i < names.len()
            invariant
                i <= names@.len(),
                names.deep_view() == all_names(),
                encodings@.len() == i,
                forall|j: int| 0 <= j < i ==> (#[trigger] encodings@[j])@ == all_names()[j],
            decreases names@.len() - i,
        {
            proof {
                assert(names.deep_view()[i as int] == names@[i as int]@);
            }
            encodings.push(names[i].to_owned());
            i = i + 1;
        }
        let mib: u64 = self.max_document_bytes / MEBIBYTE;
        let supported_field_types: Vec<i32> = vec![
            FieldType::String.number(),
            FieldType::Integer.number(),
            FieldType::UnsignedInteger.number(),
            FieldType::PackedDecimal.number(),
            FieldType::ZonedDecimal.number(),
            FieldType::Skip.number(),
        ];
        let r: GetServiceInfoResponse = GetServiceInfoResponse {
            service: "grpc-ebcdic".to_owned(),
            version: VERSION.to_owned(),
            encodings,
            default_encoding: DEFAULT_ENCODING.to_owned(),
            default_max_document_mib: if mib <= u32::MAX as u64 {
                mib as u32
            } else {
                u32::MAX
            },
            max_concurrent_parses: if self.max_concurrent_parses as u64 <= u32::MAX as u64 {
                self.max_concurrent_parses as u32
            } else {
                u32::MAX
            },
            supported_field_types,
            copybook_compiler: true,
        };
        proof {
            assert(r.encodings.deep_view() =~= all_names());
            assert(r.supported_field_types.deep_view() =~= service_info(
                self@,
            ).supported_field_types);
            assert(r.deep_view() =~= service_info(self@));
        }
        r
    }
}

impl ParseSession {
    /// What holds of every session between two calls.
    pub closed spec fn wf(&self) -> bool {
        &&& session_sound(self@)
        &&& self.walk.wf()
        &&& self.fold matches Some(fold) ==> fold.wf()
    }

    /// A session is sound between any two calls: its input is within the byte
    /// cap, the layout was sent first and a row for each record since, and the
    /// fold has seen exactly what was sent.
    pub proof fn law_a_session_stays_sound(&self)
        requires
            self.wf(),
        ensures
            session_sound(self@),
    {
    }

    /// Show the fold an event that is sent.
    fn send(&mut self, event: &Event)
        requires
            old(self).fold matches Some(fold) ==> fold.wf() && can_count(fold@),
        ensures
            final(self).walk == old(self).walk,
            final(self)@ == with_event(old(self)@, event.deep_view()),
            final(self).fold matches Some(fold) ==> fold.wf(),
    {
        match &mut self.fold {
            Some(fold) => fold.consume(event),
            None => {},
        }
        self.sent = Ghost(self.sent@.push(event.deep_view()));
    }

    /// Bytes received but not yet decoded. What a message adds to them has to
    /// fit in memory.
    pub fn buffered(&self) -> (r: usize)
        ensures
            r == self@.walk.buffer.len(),
    {
        self.walk.buffered()
    }

    /// Take one message of the request stream.
    pub fn accept(&mut self, message: &ParseEbcdicRequest, metrics: &mut Metrics) -> (r: Result<
        (),
        ParseError,
    >)
        requires
            old(self).wf(),
            message.frame matches Some(Frame::Chunk(chunk)) ==> old(self)@.walk.buffer.len()
                + chunk@.len() <= usize::MAX,
        ensures
            final(self).wf(),
            final(self)@ == accepted(old(self)@, *message).0,
            match accepted(old(self)@, *message).1 {
                Ok(_) => r is Ok,
                Err(failure) => r matches Err(error) && error@ == failure,
            },
            *final(metrics) == counted_input(*old(metrics), old(self)@, *message),
    {
        let chunk: &Vec<u8> = match &message.frame {
            Some(Frame::Chunk(chunk)) => chunk,
            Some(Frame::Options(_)) => {
                return Err(
                    ParseError::invalid(
                        "options may only appear in the first frame of a parse stream".to_owned(),
                    ),
                );
            },
            None => {
                return Ok(());
            },
        };
        let room: u64 = self.byte_cap - self.walk.received();
        if chunk.len() as u64 > room {
            return Err(
                ParseError::exhausted(
                    cat3(
                        "the input exceeds the ",
                        &decimal_text(self.byte_cap as u128),
                        "-byte cap for this stream",
                    ),
                ),
            );
        }
        Metrics::add(&mut metrics.bytes_received, chunk.len() as u64);
        self.walk.push(chunk);
        Ok(())
    }

    /// Take the next event that the input received so far completes.
    pub fn next_event(&mut self, metrics: &mut Metrics) -> (r: Result<Option<Event>, ParseError>)
        requires
            old(self).wf(),
        ensures
            final(self).wf(),
            (final(self)@, outcome(r)) == stepped(old(self)@),
            *final(metrics) == (if r matches Ok(Some(_)) {
                with_record(*old(metrics))
            } else {
                *old(metrics)
            }),
    {
        let ghost before = self@;
        let row: RecordRow = match self.walk.next_record() {
            Err(error) => {
                proof {
                    laws::lemma_kept_grows(before.walk);
                    assert(self@ =~= (Session { walk: next(before.walk).0, ..before }));
                }
                return Err(error);
            },
            Ok(None) => {
                proof {
                    laws::lemma_kept_grows(before.walk);
                    assert(self@ =~= (Session { walk: next(before.walk).0, ..before }));
                }
                return Ok(None);
            },
            Ok(Some(row)) => row,
        };
        Metrics::bump(&mut metrics.records_emitted);
        let event: Event = Event::Record(row);
        let ghost moved = Session { walk: next(before.walk).0, ..before };
        proof {
            laws::lemma_kept_grows(before.walk);
            assert(self@ =~= moved);
            lemma_folded_event(moved, event.deep_view());
        }
        self.send(&event);
        proof {
            laws::lemma_row_is_counted(before.fold, event.deep_view(), before.walk.kept);
        }
        Ok(Some(event))
    }

    /// Mark the request stream as ended.
    pub fn end_input(&mut self)
        requires
            old(self).wf(),
        ensures
            final(self).wf(),
            final(self)@ == (Session {
                walk: Walk { finished: true, ..old(self)@.walk },
                ..old(self)@
            }),
    {
        let ghost before = self@;
        self.walk.finish_input();
        proof {
            assert(self@ =~= (Session {
                walk: Walk { finished: true, ..before.walk },
                ..before
            }));
        }
    }

    /// The last events of the parse: the trailer, preceded by the document when
    /// one was asked for.
    ///
    /// The order is the contract: the fold's own truncation warnings are merged
    /// into the trailer before the fold sees it, the document goes out
    /// immediately before the trailer, and the trailer stays last.
    pub fn finish(self) -> (r: Result<Vec<Event>, ParseError>)
        requires
            self.wf(),
            self@.walk.finished,
        ensures
            outcome(r) == closing(self@),
    {
        let ghost session = self@;
        let ParseSession { walk, fold, .. } = self;
        let mut status: ParseStatus = match walk.status() {
            Ok(status) => status,
            Err(error) => {
                return Err(error);
            },
        };
        let mut out: Vec<Event> = Vec::new();
        match fold {
            None => {
                out.push(Event::Status(status));
                proof {
                    assert(out.deep_view() =~= closing(session)->Ok_0);
                }
            },
            Some(fold) => {
                let ghost before = status.deep_view();
                let mut warnings: Vec<ParseWarning> = fold.truncation_warnings();
                let ghost added = warnings.deep_view();
                status.warnings.append(&mut warnings);
                proof {
                    assert(status.warnings.deep_view() =~= before.warnings + added);
                }
                let document: Document = fold.take();
                out.push(Event::Document(document));
                out.push(Event::Status(status));
                proof {
                    assert(out.deep_view() =~= closing(session)->Ok_0);
                }
            },
        }
        Ok(out)
    }
}

} // verus!
