//! What a request asks for and what it gets, in plain terms.

use vstd::prelude::*;
use crate::codec::{page_name, selected_page, CodePage};
use crate::document_fold::{document_of, folded, warnings_of};
use crate::error::{Code, Failure};
use crate::layout::{layout_info, resolved, LayoutModel};
use crate::metrics::{line_of, with_end, with_input, with_record, with_rejection, with_start, Metrics};
use crate::proto::v1::{FieldType, ParseEbcdicRequest, ParseOptions};
use crate::proto::v1::parse_ebcdic_request::Frame;
use crate::proto::v1::parse_ebcdic_response::EventModel;
use crate::service::{accepted, cap_of, closing, counted_input, entered, is_opened,
    mebibytes, opening_options, opening_terms, released, service_info, stepped, with_mib, with_parses,
    Service, Session};
use crate::stream::{next, status_of};
use crate::text::decimal;
use crate::text::laws::{lemma_mentions, lemma_mentions_neighbours, mentions, run_together};

verus! {

/// The byte cap of a parse is the number of mebibytes that the request sets,
/// 1024 times 1024 bytes each, and the service's own where it sets none.
pub proof fn law_the_cap_is_what_was_asked_for(service: Service, options: ParseOptions)
    ensures
        options.max_document_mib > 0 ==> cap_of(service, options) == options.max_document_mib * 1024
            * 1024,
        options.max_document_mib == 0 ==> cap_of(service, options) == service.max_document_bytes,
{
}

/// The service states its own limits, in whole mebibytes, and offers every
/// type of field but an unset one, each once.
pub proof fn law_the_service_states_its_limits(service: Service, field_type: FieldType)
    ensures
        ({
            let info = service_info(service);
            &&& service.max_document_bytes <= mebibytes(u32::MAX) ==> info.default_max_document_mib
                * 1024 * 1024 <= service.max_document_bytes && service.max_document_bytes < (
            info.default_max_document_mib + 1) * 1024 * 1024
            &&& service.max_concurrent_parses <= u32::MAX ==> info.max_concurrent_parses
                == service.max_concurrent_parses
            &&& info.supported_field_types.contains(field_type.number()) <==> field_type
                != FieldType::Unspecified
            &&& info.supported_field_types.len() == 6
            &&& info.encodings.contains(info.default_encoding)
            &&& info.copybook_compiler
        }),
{
    let types = service_info(service).supported_field_types;
    assert(types[0] == FieldType::String.number());
    assert(types[1] == FieldType::Integer.number());
    assert(types[2] == FieldType::UnsignedInteger.number());
    assert(types[3] == FieldType::PackedDecimal.number());
    assert(types[4] == FieldType::ZonedDecimal.number());
    assert(types[5] == FieldType::Skip.number());
    assert(types.len() == 6);
    if types.contains(FieldType::Unspecified.number()) {
        let i = choose|i: int| 0 <= i < types.len() && types[i] == FieldType::Unspecified.number();
        assert(types[i] == 0);
    }
    assert(mebibytes(u32::MAX) == 4_294_967_295 * 1_048_576);
    let encodings = service_info(service).encodings;
    assert(encodings[0] == "cp037"@);
}

/// The limits that are set are the limits that are stated, where they are
/// limits at all.
pub proof fn law_limits_are_stated_as_set(service: Service, mib: u32, parses: usize)
    ensures
        mib > 0 ==> service_info(with_mib(service, mib)).default_max_document_mib == mib,
        mib == 0 ==> service_info(with_mib(service, mib)).default_max_document_mib == 1,
        with_mib(service, mib).max_concurrent_parses == service.max_concurrent_parses,
        with_mib(service, mib).running == service.running,
        with_mib(service, mib).metrics == service.metrics,
        0 < parses <= u32::MAX ==> service_info(with_parses(service, parses)).max_concurrent_parses
            == parses,
        parses == 0 ==> service_info(with_parses(service, parses)).max_concurrent_parses == 1,
        with_parses(service, parses).running == 0,
        with_parses(service, parses).max_document_bytes == service.max_document_bytes,
        with_parses(service, parses).metrics == service.metrics,
{
    let n: u32 = if mib == 0 {
        1
    } else {
        mib
    };
    assert(mebibytes(n) == n * 1_048_576);
    assert((n * 1_048_576) / 1_048_576 == n);
}

/// A place that a parse takes is a place less, and is given back whole when the
/// parse leaves; one that is turned away takes none, and is counted.
pub proof fn law_a_place_is_given_back(service: Service)
    ensures
        service.running < service.max_concurrent_parses ==> {
            &&& entered(service).running == service.running + 1
            &&& entered(service).metrics == service.metrics
            &&& released(entered(service)) == service
        },
        service.running >= service.max_concurrent_parses ==> {
            &&& entered(service).running == service.running
            &&& has_gone_up(
                entered(service).metrics.parses_rejected,
                service.metrics.parses_rejected,
                1,
            )
            &&& entered(service).metrics.parses_started == service.metrics.parses_started
        },
        entered(service).max_concurrent_parses == service.max_concurrent_parses,
        entered(service).max_document_bytes == service.max_document_bytes,
{
}

/// A stream opens with the options in its first frame, and with nothing else.
pub proof fn law_a_stream_opens_with_its_options(
    first: Option<ParseEbcdicRequest>,
    options: ParseOptions,
)
    ensures
        opening_options(first) == Ok::<ParseOptions, Failure>(options) <==> (first matches Some(
            message,
        ) && message.frame == Some(Frame::Options(options))),
        opening_options(first) matches Err(failure) ==> failure.code() == Code::InvalidArgument,
        selected_page(options.encoding@) is None ==> (opening_terms(options) matches Err(failure)
            && failure.code() == Code::InvalidArgument),
        opening_terms(options) matches Ok((page, layout)) ==> selected_page(options.encoding@)
            == Some(page) && resolved(options) == Ok::<LayoutModel, Failure>(layout),
        selected_page(options.encoding@) is Some ==> (resolved(options) is Ok <==> opening_terms(
            options,
        ) is Ok),
{
}

/// A parse is run as the request asks: with the code page it names, dropping
/// control characters unless it says not to, up to as many records and as many
/// bytes as it sets, failing on what it wants to fail on, and folding a
/// document exactly when it wants one. It starts with nothing read and the
/// layout sent.
pub proof fn law_a_parse_is_run_as_asked(
    session: Session,
    service: Service,
    options: ParseOptions,
    page: CodePage,
    layout: LayoutModel,
)
    requires
        is_opened(session, service, options, page, layout),
    ensures
        session.walk.options.codec.page() == page,
        options.strip_control_characters is None ==> session.walk.options.strip_control_characters,
        options.strip_control_characters matches Some(strip)
            ==> session.walk.options.strip_control_characters == strip,
        session.walk.options.max_records == options.max_records,
        session.walk.options.abort_on_error == options.abort_on_error,
        session.fold is Some <==> options.emit_document,
        options.max_document_mib > 0 ==> session.byte_cap == options.max_document_mib * 1024
            * 1024,
        options.max_document_mib == 0 ==> session.byte_cap == service.max_document_bytes,
        session.walk.layout == layout,
        session.walk.buffer.len() == 0,
        session.walk.received == 0,
        session.walk.kept == 0,
        session.sent == seq![EventModel::LayoutInfo(layout_info(layout, page_name(page)))],
        session.fold matches Some(fold) ==> {
            &&& fold.info == Some(layout_info(layout, page_name(page)))
            &&& fold.version == service_info(service).version
            &&& fold.row_cap == 100_000
        },
{
}

/// A message is taken or refused by what it carries: an empty one changes
/// nothing, options are refused, and input is taken exactly when it keeps the
/// parse within its cap. What is taken counts in full and sends nothing; what
/// is refused changes nothing.
pub proof fn law_a_message_is_taken_or_refused(session: Session, message: ParseEbcdicRequest)
    ensures
        ({
            let (after, answer) = accepted(session, message);
            match message.frame {
                None => after == session && answer is Ok,
                Some(Frame::Options(_)) => {
                    &&& after == session
                    &&& answer matches Err(failure)
                    &&& failure.code() == Code::InvalidArgument
                },
                Some(Frame::Chunk(chunk)) => {
                    &&& answer is Ok <==> session.walk.received + chunk@.len() <= session.byte_cap
                    &&& answer is Ok ==> {
                        &&& after.walk.received == session.walk.received + chunk@.len()
                        &&& !session.walk.truncated ==> after.walk.buffer == session.walk.buffer
                            + chunk@
                        &&& after.sent == session.sent
                        &&& after.fold == session.fold
                        &&& after.byte_cap == session.byte_cap
                    }
                    &&& answer matches Err(failure) ==> {
                        &&& failure.code() == Code::ResourceExhausted
                        &&& after == session
                        &&& mentions(failure.message(), decimal(session.byte_cap as nat))
                    }
                },
            }
        }),
{
    if let Some(Frame::Chunk(_)) = message.frame {
        lemma_mentions(
            "the input exceeds the "@,
            decimal(session.byte_cap as nat),
            "-byte cap for this stream"@,
        );
    }
}

/// Every row that the walk gives is sent, once, as it is, and the document
/// folds what was sent; when there is no row, nothing is sent.
pub proof fn law_every_row_is_sent_as_it_is(session: Session)
    ensures
        ({
            let (after, answer) = stepped(session);
            let (walk, given) = next(session.walk);
            &&& after.walk == walk
            &&& after.byte_cap == session.byte_cap
            &&& match given {
                Ok(Some(row)) => {
                    &&& answer == Ok::<Option<EventModel>, Failure>(Some(EventModel::Record(row)))
                    &&& after.sent == session.sent.push(EventModel::Record(row))
                    &&& session.fold is None ==> after.fold is None
                    &&& session.fold matches Some(fold) ==> after.fold == Some(
                        folded(fold, EventModel::Record(row)),
                    )
                },
                Ok(None) => {
                    &&& answer == Ok::<Option<EventModel>, Failure>(None)
                    &&& after.sent == session.sent
                    &&& after.fold == session.fold
                },
                Err(failure) => {
                    &&& answer == Err::<Option<EventModel>, Failure>(failure)
                    &&& after.sent == session.sent
                    &&& after.fold == session.fold
                },
            }
        }),
{
}

/// A parse ends with the trailer of its walk. A document in front of it adds
/// its warnings behind those of the walk, and changes nothing else in it.
pub proof fn law_the_trailer_is_that_of_the_walk(session: Session)
    ensures
        match status_of(session.walk) {
            Err(failure) => closing(session) == Err::<Seq<EventModel>, Failure>(failure),
            Ok(status) => {
                &&& closing(session) matches Ok(events)
                &&& events.len() == if session.fold is Some {
                    2int
                } else {
                    1
                }
                &&& events.last() matches EventModel::Status(last)
                &&& last.records_kept == status.records_kept
                &&& last.bytes_received == status.bytes_received
                &&& last.bytes_consumed == status.bytes_consumed
                &&& last.trailing_bytes == status.trailing_bytes
                &&& last.truncated == status.truncated
                &&& last.rows_per_record_type == status.rows_per_record_type
                &&& session.fold is None ==> last.warnings == status.warnings
                &&& session.fold matches Some(fold) ==> {
                    let own = status.warnings.len() as int;
                    &&& events[0] == EventModel::Document(document_of(fold))
                    &&& last.warnings.len() >= own
                    &&& last.warnings.take(own) == status.warnings
                    &&& last.warnings.skip(own) == warnings_of(fold, fold.tables.len() as int)
                }
            },
        },
{
    if let Ok(status) = status_of(session.walk) {
        if let Some(fold) = session.fold {
            let more = warnings_of(fold, fold.tables.len() as int);
            let own = status.warnings.len() as int;
            assert((status.warnings + more).take(own) =~= status.warnings);
            assert((status.warnings + more).skip(own) =~= more);
        }
    }
}

/// A failure of each kind has a status code of its own, and says what it was
/// made with.
pub proof fn law_each_kind_of_failure_has_its_code(failure: Failure, message: Seq<char>)
    ensures
        failure.code() == Code::InvalidArgument <==> failure is Invalid,
        failure.code() == Code::Unimplemented <==> failure is Unsupported,
        failure.code() == Code::ResourceExhausted <==> failure is Exhausted,
        failure.code() == Code::Internal <==> failure is Internal,
        Failure::Invalid(message).message() == message,
        Failure::Unsupported(message).message() == message,
        Failure::Exhausted(message).message() == message,
        Failure::Internal(message).message() == message,
{
}

/// Whether a counter has gone up by an amount, starting over behind the largest
/// number it can hold.
pub open spec fn has_gone_up(after: u64, before: u64, amount: u64) -> bool {
    after == before + amount || after + 0x1_0000_0000_0000_0000 == before + amount
}

/// The counters go up by what happened and by nothing else: a parse that opens
/// is started, one that is turned away rejected, input counts by the byte and
/// records one by one; a parse that ends is completed or failed, and hit the
/// byte cap when it ran out of a resource.
pub proof fn law_the_counters_count_what_happened(
    m: Metrics,
    bytes: u64,
    failure: Failure,
)
    ensures
        ({
            let after = with_start(m);
            &&& has_gone_up(after.parses_started, m.parses_started, 1)
            &&& after == (Metrics { parses_started: after.parses_started, ..m })
        }),
        ({
            let after = with_rejection(m);
            &&& has_gone_up(after.parses_rejected, m.parses_rejected, 1)
            &&& after == (Metrics { parses_rejected: after.parses_rejected, ..m })
        }),
        ({
            let after = with_input(m, bytes);
            &&& has_gone_up(after.bytes_received, m.bytes_received, bytes)
            &&& after == (Metrics { bytes_received: after.bytes_received, ..m })
        }),
        ({
            let after = with_record(m);
            &&& has_gone_up(after.records_emitted, m.records_emitted, 1)
            &&& after == (Metrics { records_emitted: after.records_emitted, ..m })
        }),
        ({
            let after = with_end(m, Ok(()));
            &&& has_gone_up(after.parses_completed, m.parses_completed, 1)
            &&& after == (Metrics { parses_completed: after.parses_completed, ..m })
        }),
        ({
            let after = with_end(m, Err(failure));
            &&& has_gone_up(after.parses_failed, m.parses_failed, 1)
            &&& failure is Exhausted ==> has_gone_up(after.byte_cap_hits, m.byte_cap_hits, 1)
            &&& !(failure is Exhausted) ==> after.byte_cap_hits == m.byte_cap_hits
            &&& after == (Metrics {
                parses_failed: after.parses_failed,
                byte_cap_hits: after.byte_cap_hits,
                ..m
            })
        }),
{
}

/// Input counts when it is taken, and not when it is refused.
pub proof fn law_only_input_that_is_taken_counts(
    m: Metrics,
    session: Session,
    message: ParseEbcdicRequest,
)
    ensures
        ({
            let after = counted_input(m, session, message);
            match message.frame {
                Some(Frame::Chunk(chunk)) => {
                    &&& accepted(session, message).1 is Ok && chunk@.len() <= u64::MAX
                        ==> has_gone_up(after.bytes_received, m.bytes_received, chunk@.len() as u64)
                    &&& accepted(session, message).1 is Err ==> after == m
                    &&& after == (Metrics { bytes_received: after.bytes_received, ..m })
                },
                _ => after == m,
            }
        }),
{
}

/// The line of the counters gives each of them under its own name.
pub proof fn law_the_line_gives_every_counter(m: Metrics)
    ensures
        mentions(
            line_of(m),
            "grpc-ebcdic metrics: parses{started="@ + decimal(m.parses_started as nat)
                + ",completed="@,
        ),
        mentions(line_of(m), ",completed="@ + decimal(m.parses_completed as nat) + ",failed="@),
        mentions(line_of(m), ",failed="@ + decimal(m.parses_failed as nat) + ",rejected="@),
        mentions(line_of(m), ",rejected="@ + decimal(m.parses_rejected as nat) + "} records="@),
        mentions(line_of(m), "} records="@ + decimal(m.records_emitted as nat) + " bytes="@),
        mentions(line_of(m), " bytes="@ + decimal(m.bytes_received as nat) + " byte_cap_hits="@),
        mentions(
            line_of(m),
            decimal(m.bytes_received as nat) + " byte_cap_hits="@ + decimal(m.byte_cap_hits as nat),
        ),
{
    let parts = seq![
        "grpc-ebcdic metrics: parses{started="@,
        decimal(m.parses_started as nat),
        ",completed="@,
        decimal(m.parses_completed as nat),
        ",failed="@,
        decimal(m.parses_failed as nat),
        ",rejected="@,
        decimal(m.parses_rejected as nat),
        "} records="@,
        decimal(m.records_emitted as nat),
        " bytes="@,
        decimal(m.bytes_received as nat),
        " byte_cap_hits="@,
        decimal(m.byte_cap_hits as nat),
    ];
    assert(run_together(parts, 14) == line_of(m)) by {
        reveal_with_fuel(run_together, 15);
        assert(Seq::<char>::empty() + parts[0] =~= parts[0]);
    }
    lemma_mentions_neighbours(parts, 0, 14);
    lemma_mentions_neighbours(parts, 2, 14);
    lemma_mentions_neighbours(parts, 4, 14);
    lemma_mentions_neighbours(parts, 6, 14);
    lemma_mentions_neighbours(parts, 8, 14);
    lemma_mentions_neighbours(parts, 10, 14);
    lemma_mentions_neighbours(parts, 11, 14);
}

} // verus!
