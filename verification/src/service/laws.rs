//! What holds of every parse.

use vstd::prelude::*;
use crate::document_fold::{folded, lemma_table_named, Fold};
use crate::document_fold::integrity::faults;
use crate::document_fold::laws::law_every_folded_document_is_sound;
use crate::error::Failure;
use crate::proto::v1::{ParseEbcdicRequest, RecordRowModel};
use crate::proto::v1::parse_ebcdic_request::Frame;
use crate::proto::v1::parse_ebcdic_response::EventModel;
use crate::service::{accepted, closing, rows_among, session_sound, stepped, with_event, Session};
use crate::stream::{next, pushed, sound, Walk};
use crate::stream::laws::{all_bytes, drained, law_any_chunking_gives_the_same_rows,
    lemma_drained_is_sound, lemma_next_is_sound, lemma_pushed_is_sound, lemma_pushing_nothing,
    walked};

verus! {

/// Asking a walk for a record adds one to the records it has emitted exactly
/// when it gives one, and leaves what it has received as it was.
pub proof fn lemma_kept_grows(walk: Walk)
    ensures
        ({
            let (after, result) = next(walk);
            &&& after.received == walk.received
            &&& after.kept == walk.kept + if result matches Ok(Some(_)) {
                1int
            } else {
                0int
            }
        }),
{
}

/// One more record is one more dropped row at the most.
pub proof fn lemma_row_is_counted(fold: Option<Fold>, event: EventModel, kept: int)
    requires
        event is Record,
        0 <= kept < u64::MAX,
        fold matches Some(fold) ==> forall|i: int|
            0 <= i < fold.tables.len() ==> (#[trigger] fold.tables[i]).dropped <= kept,
    ensures
        fold matches Some(fold) ==> forall|i: int|
            0 <= i < folded(fold, event).tables.len() ==> (#[trigger] folded(
                fold,
                event,
            ).tables[i]).dropped <= kept + 1,
{
    if let Some(fold) = fold {
        lemma_table_named(fold.tables, event->Record_0.record_type, fold.tables.len() as int);
    }
}

/// A parse is a layout, rows, and a trailer: the layout is sent first and the
/// trailer last, the document goes immediately before the trailer when one was
/// asked for, everything else is a row, and the trailer counts the rows.
pub proof fn law_a_parse_is_a_layout_rows_and_a_trailer(session: Session)
    requires
        session_sound(session),
        closing(session) is Ok,
    ensures
        ({
            let events = session.sent + closing(session)->Ok_0;
            let n = events.len() as int;
            let end = if session.fold is Some {
                n - 2
            } else {
                n - 1
            };
            &&& events[0] is LayoutInfo
            &&& events[n - 1] is Status
            &&& session.fold is Some ==> events[n - 2] is Document
            &&& forall|i: int| 0 < i < end ==> (#[trigger] events[i]) is Record
            &&& events[n - 1]->Status_0.records_kept == end - 1
            &&& events[n - 1]->Status_0.records_kept == rows_among(session.sent)
        }),
{
    lemma_rows_follow_the_layout(session.sent);
}

/// A layout followed by rows has one row less than it has events.
proof fn lemma_rows_follow_the_layout(events: Seq<EventModel>)
    requires
        events.len() > 0,
        events[0] is LayoutInfo,
        forall|i: int| 0 < i < events.len() ==> (#[trigger] events[i]) is Record,
    ensures
        rows_among(events) == events.len() - 1,
    decreases events.len(),
{
    if events.len() > 1 {
        lemma_rows_follow_the_layout(events.drop_last());
    } else {
        assert(rows_among(events.drop_last()) == 0);
    }
}

/// A document that is sent is sound: every item of it is linked in both
/// directions.
pub proof fn law_a_sent_document_is_sound(session: Session)
    requires
        closing(session) is Ok,
        session.fold is Some,
    ensures
        closing(session)->Ok_0[0] is Document,
        faults(closing(session)->Ok_0[0]->Document_0) == Seq::<Seq<char>>::empty(),
{
    law_every_folded_document_is_sound(session.fold->Some_0);
}

/// A message that is refused changes nothing, and one that is taken keeps the
/// input within the byte cap.
pub proof fn law_the_byte_cap_holds(session: Session, message: ParseEbcdicRequest)
    requires
        session.walk.received <= session.byte_cap,
    ensures
        accepted(session, message).1 is Err ==> accepted(session, message).0 == session,
        accepted(session, message).0.walk.received <= session.byte_cap,
        accepted(session, message).0.byte_cap == session.byte_cap,
{
}

/// Every event a session can give right now, with the session behind them and
/// the failure that stopped it, if one did.
pub open spec fn emptied(session: Session) -> (Session, Option<Failure>)
    decreases session.walk.buffer.len(),
{
    let (after, given) = stepped(session);
    match given {
        Err(failure) => (after, Some(failure)),
        Ok(None) => (after, None),
        Ok(Some(_)) => if after.walk.buffer.len() >= session.walk.buffer.len() {
            (after, None)
        } else {
            emptied(after)
        },
    }
}

/// A session that has taken messages in order and given its events after each,
/// with the failure that stopped it, if one did.
pub open spec fn served(session: Session, messages: Seq<ParseEbcdicRequest>) -> (
    Session,
    Option<Failure>,
)
    decreases messages.len(),
{
    if messages.len() == 0 {
        (session, None)
    } else {
        let (before, failure) = served(session, messages.drop_last());
        if failure is Some {
            (before, failure)
        } else {
            match accepted(before, messages.last()) {
                (after, Err(failure)) => (after, Some(failure)),
                (after, Ok(_)) => emptied(after),
            }
        }
    }
}

/// Every event of a parse from here on, whose request stream holds the given
/// messages: what it sends, and the failure it ends with instead of a trailer,
/// if it does.
pub open spec fn run(session: Session, messages: Seq<ParseEbcdicRequest>) -> (
    Seq<EventModel>,
    Option<Failure>,
) {
    match served(session, messages) {
        (last, Some(failure)) => (last.sent, Some(failure)),
        (last, None) => match emptied(
            Session { walk: Walk { finished: true, ..last.walk }, ..last },
        ) {
            (end, Some(failure)) => (end.sent, Some(failure)),
            (end, None) => match closing(end) {
                Err(failure) => (end.sent, Some(failure)),
                Ok(events) => (end.sent + events, None),
            },
        },
    }
}

/// The input bytes of a message. An empty one has none.
pub open spec fn bytes_of(message: ParseEbcdicRequest) -> Seq<u8> {
    match message.frame {
        Some(Frame::Chunk(chunk)) => chunk@,
        _ => Seq::empty(),
    }
}

/// The input bytes of messages, each by itself.
pub open spec fn chunks_of(messages: Seq<ParseEbcdicRequest>) -> Seq<Seq<u8>> {
    messages.map_values(|message: ParseEbcdicRequest| bytes_of(message))
}

/// Whether no message carries options.
pub open spec fn is_data(messages: Seq<ParseEbcdicRequest>) -> bool {
    forall|i: int|
        0 <= i < messages.len() ==> !((#[trigger] messages[i]).frame matches Some(
            Frame::Options(_),
        ))
}

/// A session that has sent rows.
spec fn with_rows(session: Session, rows: Seq<RecordRowModel>) -> Session
    decreases rows.len(),
{
    if rows.len() == 0 {
        session
    } else {
        with_event(with_rows(session, rows.drop_last()), EventModel::Record(rows.last()))
    }
}

/// Rows sent in two goes are the rows sent in one.
proof fn lemma_rows_join(session: Session, first: Seq<RecordRowModel>, second: Seq<RecordRowModel>)
    ensures
        with_rows(with_rows(session, first), second) == with_rows(session, first + second),
    decreases second.len(),
{
    if second.len() == 0 {
        assert(first + second =~= first);
    } else {
        lemma_rows_join(session, first, second.drop_last());
        assert((first + second).drop_last() =~= first + second.drop_last());
        assert((first + second).last() == second.last());
    }
}

/// Sending rows leaves the walk alone, and goes by what was sent and folded.
proof fn lemma_rows_leave_the_walk(session: Session, walk: Walk, rows: Seq<RecordRowModel>)
    ensures
        with_rows(session, rows).walk == session.walk,
        with_rows(session, rows).byte_cap == session.byte_cap,
        with_rows(Session { walk, ..session }, rows) == (Session {
            walk,
            ..with_rows(session, rows)
        }),
    decreases rows.len(),
{
    if rows.len() > 0 {
        lemma_rows_leave_the_walk(session, walk, rows.drop_last());
    }
}

/// What a session gives is what its walk gives.
proof fn lemma_emptied_drains(session: Session)
    requires
        sound(session.walk),
    ensures
        ({
            let (end, rows, failure) = drained(session.walk);
            emptied(session) == (with_rows(Session { walk: end, ..session }, rows), failure)
        }),
    decreases session.walk.buffer.len(),
{
    lemma_next_is_sound(session.walk);
    let (after, given) = next(session.walk);
    let moved = Session { walk: after, ..session };
    if let Ok(Some(row)) = given {
        let event = EventModel::Record(row);
        let sent = with_event(moved, event);
        lemma_emptied_drains(sent);
        let (end, rows, failure) = drained(after);
        let start = Session { walk: end, ..session };
        assert(seq![row].drop_last() =~= Seq::<RecordRowModel>::empty());
        assert(with_rows(start, seq![row]) == with_event(start, event)) by {
            assert(with_rows(start, Seq::<RecordRowModel>::empty()) == start);
        }
        lemma_rows_join(start, seq![row], rows);
        assert(Session { walk: end, ..sent } == with_event(start, event));
    }
}

/// What a session has sent after messages is what its walk gives for their
/// bytes.
proof fn lemma_served_walks(session: Session, messages: Seq<ParseEbcdicRequest>)
    requires
        sound(session.walk),
        is_data(messages),
        session.walk.received + all_bytes(chunks_of(messages)).len() <= session.byte_cap,
        session.walk.buffer.len() + all_bytes(chunks_of(messages)).len() <= usize::MAX,
    ensures
        ({
            let (end, rows, failure) = walked(session.walk, chunks_of(messages));
            &&& served(session, messages) == (
                with_rows(Session { walk: end, ..session }, rows),
                failure,
            )
            &&& sound(end)
            &&& end.buffer.len() <= session.walk.buffer.len() + all_bytes(
                chunks_of(messages),
            ).len()
            &&& failure is None ==> end.received == session.walk.received + all_bytes(
                chunks_of(messages),
            ).len()
        }),
    decreases messages.len(),
{
    let chunks = chunks_of(messages);
    if messages.len() > 0 {
        let front = messages.drop_last();
        let message = messages.last();
        assert(chunks.drop_last() =~= chunks_of(front));
        assert(chunks.last() == bytes_of(message));
        assert forall|i: int| 0 <= i < front.len() implies !((#[trigger] front[i]).frame matches Some(
            Frame::Options(_),
        )) by {
            assert(!(messages[i].frame matches Some(Frame::Options(_))));
        }
        assert(!(messages[messages.len() - 1].frame matches Some(Frame::Options(_))));
        lemma_served_walks(session, front);
        let (middle, rows, failure) = walked(session.walk, chunks_of(front));
        if failure is None {
            let before = with_rows(Session { walk: middle, ..session }, rows);
            let later = pushed(middle, chunks.last());
            lemma_rows_leave_the_walk(Session { walk: middle, ..session }, later, rows);
            lemma_pushed_is_sound(middle, chunks.last());
            lemma_pushing_nothing(middle);
            assert(accepted(before, message) == (
                Session { walk: later, ..before },
                Ok::<(), Failure>(()),
            ));
            lemma_emptied_drains(Session { walk: later, ..before });
            lemma_drained_is_sound(later);
            let (end, more, stopped) = drained(later);
            let start = Session { walk: end, ..session };
            lemma_rows_leave_the_walk(Session { walk: middle, ..session }, end, rows);
            lemma_rows_join(start, rows, more);
        }
    }
}

/// A walk gives the same whether or not its input has ended.
proof fn lemma_ending_changes_no_row(walk: Walk)
    requires
        sound(walk),
    ensures
        ({
            let (end, rows, failure) = drained(walk);
            drained(Walk { finished: true, ..walk }) == (
                Walk { finished: true, ..end },
                rows,
                failure,
            )
        }),
    decreases walk.buffer.len(),
{
    let ended = Walk { finished: true, ..walk };
    lemma_next_is_sound(walk);
    lemma_next_of_ended(walk);
    if let Ok(Some(row)) = next(walk).1 {
        lemma_ending_changes_no_row(next(walk).0);
    }
}

/// The next record is the same whether or not the input has ended.
proof fn lemma_next_of_ended(walk: Walk)
    ensures
        next(Walk { finished: true, ..walk }) == (
            Walk { finished: true, ..next(walk).0 },
            next(walk).1,
        ),
{
    let ended = Walk { finished: true, ..walk };
    let ready = crate::stream::past_header(walk);
    assert(crate::stream::past_header(ended) == (Walk { finished: true, ..ready }));
    lemma_prefix_of_ended(ready);
}

/// The prefix of a record reads the same whether or not the input has ended.
proof fn lemma_prefix_of_ended(walk: Walk)
    ensures
        crate::stream::prefix_of(Walk { finished: true, ..walk }) == crate::stream::prefix_of(walk),
{
    let ended = Walk { finished: true, ..walk };
    assert(crate::stream::declared_length(ended) == crate::stream::declared_length(walk));
    assert(crate::stream::record_type(ended) == crate::stream::record_type(walk));
    assert forall|schema: int, declared: Option<int>| #[trigger] crate::stream::body_size(
        ended,
        schema,
        declared,
    ) == crate::stream::body_size(walk, schema, declared) by {}
}

/// Everything a parse sends is settled by its input in one piece.
proof fn lemma_run_goes_by_the_bytes(session: Session, messages: Seq<ParseEbcdicRequest>)
    requires
        sound(session.walk),
        is_data(messages),
        session.walk.received + all_bytes(chunks_of(messages)).len() <= session.byte_cap,
        session.walk.buffer.len() + all_bytes(chunks_of(messages)).len() <= usize::MAX,
    ensures
        ({
            let (end, rows, failure) = drained(
                pushed(session.walk, all_bytes(chunks_of(messages))),
            );
            let last = with_rows(
                Session { walk: Walk { finished: true, ..end }, ..session },
                rows,
            );
            run(session, messages) == match failure {
                Some(failure) => (last.sent, Some(failure)),
                None => match closing(last) {
                    Err(failure) => (last.sent, Some(failure)),
                    Ok(events) => (last.sent + events, None),
                },
            }
        }),
{
    let chunks = chunks_of(messages);
    let (middle, rows, failure) = walked(session.walk, chunks);
    let (end, all, stopped) = drained(pushed(session.walk, all_bytes(chunks)));
    lemma_served_walks(session, messages);
    law_any_chunking_gives_the_same_rows(session.walk, chunks);
    let ended = Walk { finished: true, ..end };
    lemma_rows_leave_the_walk(session, ended, all);
    match failure {
        Some(failure) => {
            lemma_rows_leave_the_walk(session, middle, all);
        },
        None => {
            let start = Session { walk: middle, ..session };
            let closed = Walk { finished: true, ..middle };
            lemma_rows_leave_the_walk(start, closed, rows);
            lemma_ending_changes_no_row(middle);
            let last = Session { walk: closed, ..with_rows(start, rows) };
            lemma_emptied_drains(last);
            let (late_end, rest, late) = drained(middle);
            lemma_rows_leave_the_walk(start, ended, rows);
            lemma_rows_join(Session { walk: ended, ..session }, rows, rest);
        },
    }
}

/// How an input is cut into messages changes no event: two request streams
/// that carry the same bytes, within the byte cap, have the same response.
pub proof fn law_chunking_changes_no_event(
    session: Session,
    one: Seq<ParseEbcdicRequest>,
    other: Seq<ParseEbcdicRequest>,
)
    requires
        session_sound(session),
        is_data(one),
        is_data(other),
        all_bytes(chunks_of(one)) == all_bytes(chunks_of(other)),
        session.walk.received + all_bytes(chunks_of(one)).len() <= session.byte_cap,
        session.walk.buffer.len() + all_bytes(chunks_of(one)).len() <= usize::MAX,
    ensures
        run(session, one) == run(session, other),
{
    lemma_run_goes_by_the_bytes(session, one);
    lemma_run_goes_by_the_bytes(session, other);
}

} // verus!
