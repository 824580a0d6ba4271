//! What holds of every walk, however its input arrives.

use vstd::prelude::*;
use crate::error::Failure;
use crate::layout::{decodable, optional_width, proto_type, FieldKind, FieldModel, LayoutModel,
    RecordLayoutModel, MAX_RECORD_BYTES};
use crate::proto::v1::{RecordRowModel, RowCountModel};
use crate::stream::{accounted, available, body_size, count_of, counted, counts_schemas,
    declared_length, emitted, ends_inside_a_record, fresh, lemma_count_of, next, past_header,
    prefix_of, pushed, record_type, row_sum, sound, status_of, zero_counts, DecodeOptions, Walk};
use crate::stream::cells::cells_of;

verus! {

/// Two chunks one after the other are one chunk.
pub proof fn law_pushes_join(walk: Walk, first: Seq<u8>, second: Seq<u8>)
    ensures
        pushed(pushed(walk, first), second) == pushed(walk, first + second),
{
    assert(walk.buffer + first + second =~= walk.buffer + (first + second));
    assert(pushed(pushed(walk, first), second) =~= pushed(walk, first + second));
}

/// Bytes behind a run do not change what is in it.
proof fn lemma_front_stays(buffer: Seq<u8>, more: Seq<u8>, from: int, to: int)
    requires
        0 <= from <= to <= buffer.len(),
    ensures
        (buffer + more).subrange(from, to) == buffer.subrange(from, to),
{
    assert((buffer + more).subrange(from, to) =~= buffer.subrange(from, to));
}

/// A walk behind its header is so whatever else arrives.
proof fn lemma_header_stays_past(walk: Walk, more: Seq<u8>)
    requires
        sound(walk),
        !walk.truncated,
        past_header(walk).header_left == 0,
    ensures
        past_header(pushed(walk, more)) == pushed(past_header(walk), more),
{
    let later = pushed(walk, more);
    assert(available(walk) <= available(later));
    assert((walk.buffer + more).skip(walk.header_left) =~= walk.buffer.skip(walk.header_left)
        + more);
    assert(past_header(later) =~= pushed(past_header(walk), more));
}

/// The prefix of the record at the front reads the same whatever else arrives.
proof fn lemma_prefix_stays(walk: Walk, more: Seq<u8>)
    requires
        decodable(walk.layout),
        !walk.truncated,
        walk.layout.prefix_size <= walk.buffer.len(),
    ensures
        prefix_of(pushed(walk, more)) == prefix_of(walk),
{
    let later = pushed(walk, more);
    let length = optional_width(walk.layout.record_length_field) as int;
    let width = optional_width(walk.layout.record_type_field) as int;
    lemma_front_stays(walk.buffer, more, 0, length);
    lemma_front_stays(walk.buffer, more, length, length + width);
    assert(declared_length(later) == declared_length(walk));
    assert(record_type(later) == record_type(walk));
    assert forall|schema: int, declared: Option<int>|
        #[trigger] body_size(later, schema, declared) == body_size(walk, schema, declared) by {}
}

/// A soundly walked record takes up some of the input.
pub proof fn lemma_record_takes_bytes(walk: Walk)
    requires
        decodable(walk.layout),
    ensures
        prefix_of(walk) matches Ok((schema, size)) ==> {
            &&& 0 <= schema < walk.layout.records.len()
            &&& 0 <= size
            &&& walk.layout.prefix_size + size > 0
        },
{
    if let Ok((schema, size)) = prefix_of(walk) {
        let value = record_type(walk)->Ok_0;
        lemma_schema_is_not_negative(walk.layout, value);
        if walk.layout.prefix_size == 0 {
            assert(walk.layout.records[schema].size > 0);
        }
    }
}

proof fn lemma_schema_is_not_negative(layout: LayoutModel, value: Option<Seq<char>>)
    ensures
        0 <= crate::layout::selected_schema(layout, value),
{
    if layout.record_type_field is Some {
        lemma_found_is_not_negative(layout.records, value, 0);
    }
}

proof fn lemma_found_is_not_negative(
    records: Seq<RecordLayoutModel>,
    value: Option<Seq<char>>,
    from: int,
)
    requires
        0 <= from,
    ensures
        0 <= crate::layout::schema_with_selector(records, value, from),
    decreases records.len() - from,
{
    if from < records.len() && records[from].selector != value {
        lemma_found_is_not_negative(records, value, from + 1);
    }
}

/// A record is emitted the moment its last byte is there, and nothing that
/// arrives later changes it: if a walk has a row to give, then after any more
/// input it gives the same row, and is where it would be had it given the row
/// first. The same holds of a failure.
#[verifier::rlimit(60)]
#[verifier::spinoff_prover]
pub proof fn law_a_row_does_not_wait_for_more_input(walk: Walk, more: Seq<u8>)
    requires
        sound(walk),
    ensures
        next(walk).1 matches Ok(Some(row)) ==> next(pushed(walk, more)) == (
            pushed(next(walk).0, more),
            Ok::<_, Failure>(Some(row)),
        ),
        next(walk).1 matches Err(failure) ==> next(pushed(walk, more)) == (
            pushed(next(walk).0, more),
            Err::<Option<RecordRowModel>, _>(failure),
        ),
{
    let ready = past_header(walk);
    let later = pushed(walk, more);
    let prefix = walk.layout.prefix_size as int;
    if !(next(walk).1 == Ok::<_, Failure>(None::<RecordRowModel>)) {
        lemma_header_stays_past(walk, more);
        assert(past_header(later) == pushed(ready, more));
        assert(available(ready) <= available(pushed(ready, more)));
        assert(available(ready) <= ready.buffer.len());
        lemma_prefix_stays(ready, more);
        lemma_record_takes_bytes(ready);
        if let Ok((schema, size)) = prefix_of(ready) {
            let total = prefix + size;
            lemma_front_stays(ready.buffer, more, prefix, total);
            assert((ready.buffer + more).skip(total) =~= ready.buffer.skip(total) + more);
            assert(emitted(pushed(ready, more), schema, total) =~= pushed(
                emitted(ready, schema, total),
                more,
            ));
        }
    }
}

/// Asking too early costs nothing: if a walk has no row to give, then asking
/// before more input arrives and asking only after it come to the same.
#[verifier::rlimit(60)]
#[verifier::spinoff_prover]
pub proof fn law_asking_early_changes_nothing(walk: Walk, more: Seq<u8>)
    requires
        sound(walk),
        next(walk).1 == Ok::<_, Failure>(None::<RecordRowModel>),
    ensures
        next(pushed(next(walk).0, more)) == next(pushed(walk, more)),
{
    if !walk.truncated {
        lemma_header_in_two(walk, more);
        lemma_next_goes_by_the_header(pushed(past_header(walk), more), pushed(walk, more));
    }
}

/// Skipping the header in two goes comes to the same as in one.
proof fn lemma_header_in_two(walk: Walk, more: Seq<u8>)
    requires
        sound(walk),
        !walk.truncated,
    ensures
        past_header(pushed(past_header(walk), more)) == past_header(pushed(walk, more)),
{
    let ready = past_header(walk);
    let later = pushed(walk, more);
    let skip = walk.header_left - ready.header_left;
    assert(skip <= available(walk) <= available(later));
    assert((walk.buffer + more).skip(skip) =~= walk.buffer.skip(skip) + more);
    let again = past_header(pushed(ready, more));
    let once = past_header(later);
    let rest = once.base - later.base - skip;
    assert(0 <= rest);
    assert((walk.buffer.skip(skip) + more).skip(rest) =~= (walk.buffer + more).skip(skip + rest));
    assert(again =~= once);
}

/// What a walk gives next goes by where it stands behind its header.
proof fn lemma_next_goes_by_the_header(one: Walk, other: Walk)
    requires
        !one.truncated,
        !other.truncated,
        past_header(one) == past_header(other),
    ensures
        next(one) == next(other),
{
    assert(one.layout == past_header(one).layout);
    assert(other.layout == past_header(other).layout);
}

/// Every row a walk can give right now, in order, with the walk behind them
/// and the failure that stopped it, if one did.
pub open spec fn drained(walk: Walk) -> (Walk, Seq<RecordRowModel>, Option<Failure>)
    decreases walk.buffer.len(),
{
    let (after, given) = next(walk);
    match given {
        Err(failure) => (after, Seq::empty(), Some(failure)),
        Ok(None) => (after, Seq::empty(), None),
        Ok(Some(row)) => if after.buffer.len() >= walk.buffer.len() {
            (after, seq![row], None)
        } else {
            let (end, rows, failure) = drained(after);
            (end, seq![row] + rows, failure)
        },
    }
}

/// A walk stays sound when it is asked for a record, and giving one leaves it
/// with less.
pub proof fn lemma_next_is_sound(walk: Walk)
    requires
        sound(walk),
    ensures
        sound(next(walk).0),
        next(walk).1 matches Ok(Some(row)) ==> next(walk).0.buffer.len() < walk.buffer.len(),
        next(walk).0.layout == walk.layout,
        next(walk).0.received == walk.received,
{
    let ready = past_header(walk);
    if !walk.truncated {
        assert(sound(ready));
        lemma_record_takes_bytes(ready);
        if let Ok((schema, size)) = prefix_of(ready) {
            let total = walk.layout.prefix_size + size;
            let name = ready.layout.records[schema].name;
            lemma_count_of(ready.rows, name, 0);
            if available(ready) >= total {
                let now = counted(ready.rows, name);
                assert forall|i: int| 0 <= i < walk.layout.records.len() implies count_of(
                    now,
                    (#[trigger] walk.layout.records[i]).name,
                    0,
                ) < now.len() by {
                    crate::stream::lemma_same_names(
                        ready.rows,
                        now,
                        walk.layout.records[i].name,
                        0,
                    );
                }
                assert(sound(emitted(ready, schema, total)));
            }
        }
    }
}

/// A walk stays sound when it receives bytes that can be counted.
pub proof fn lemma_pushed_is_sound(walk: Walk, chunk: Seq<u8>)
    requires
        sound(walk),
        walk.received + chunk.len() <= u64::MAX,
        walk.buffer.len() + chunk.len() <= usize::MAX,
    ensures
        sound(pushed(walk, chunk)),
{
}

/// The rows of a walk do not depend on how its input is cut into chunks:
/// taking the rows of a first chunk and then those of a second gives the rows
/// of both together, ends where they end, and fails as they fail.
#[verifier::rlimit(60)]
#[verifier::spinoff_prover]
pub proof fn law_chunking_does_not_change_the_rows(walk: Walk, more: Seq<u8>)
    requires
        sound(walk),
        walk.received + more.len() <= u64::MAX,
        walk.buffer.len() + more.len() <= usize::MAX,
    ensures
        ({
            let (middle, rows, failure) = drained(walk);
            match failure {
                Some(failure) => drained(pushed(walk, more)) == (
                    pushed(middle, more),
                    rows,
                    Some(failure),
                ),
                None => {
                    let (end, rest, failure) = drained(pushed(middle, more));
                    drained(pushed(walk, more)) == (end, rows + rest, failure)
                },
            }
        }),
    decreases walk.buffer.len(),
{
    let (after, given) = next(walk);
    let later = pushed(walk, more);
    lemma_next_is_sound(walk);
    lemma_pushed_is_sound(walk, more);
    lemma_next_is_sound(later);
    law_a_row_does_not_wait_for_more_input(walk, more);
    match given {
        Err(failure) => {},
        Ok(None) => {
            law_asking_early_changes_nothing(walk, more);
            let (end, rest, failure) = drained(pushed(after, more));
            assert(Seq::<RecordRowModel>::empty() + rest =~= rest);
            lemma_drained_follows_next(pushed(after, more), later);
        },
        Ok(Some(row)) => {
            law_chunking_does_not_change_the_rows(after, more);
            let (middle, rows, failure) = drained(after);
            if failure is None {
                let (end, rest, ended) = drained(pushed(middle, more));
                assert(seq![row] + (rows + rest) =~= (seq![row] + rows) + rest);
            }
        },
    }
}

/// The bytes of chunks, one after another.
pub open spec fn all_bytes(chunks: Seq<Seq<u8>>) -> Seq<u8>
    decreases chunks.len(),
{
    if chunks.len() == 0 {
        Seq::empty()
    } else {
        all_bytes(chunks.drop_last()) + chunks.last()
    }
}

/// What a walk gives that receives chunks in order and is drained after each:
/// the walk behind them, its rows, and the failure that stopped it, if one did.
pub open spec fn walked(walk: Walk, chunks: Seq<Seq<u8>>) -> (
    Walk,
    Seq<RecordRowModel>,
    Option<Failure>,
)
    decreases chunks.len(),
{
    if chunks.len() == 0 {
        (walk, Seq::empty(), None)
    } else {
        let (middle, rows, failure) = walked(walk, chunks.drop_last());
        if failure is Some {
            (middle, rows, failure)
        } else {
            let (end, more, failure) = drained(pushed(middle, chunks.last()));
            (end, rows + more, failure)
        }
    }
}

/// Draining keeps a walk sound and leaves it with no more than it had.
pub proof fn lemma_drained_is_sound(walk: Walk)
    requires
        sound(walk),
    ensures
        sound(drained(walk).0),
        drained(walk).0.buffer.len() <= walk.buffer.len(),
        drained(walk).0.received == walk.received,
        drained(walk).0.layout == walk.layout,
    decreases walk.buffer.len(),
{
    lemma_next_is_sound(walk);
    let (after, given) = next(walk);
    if let Ok(Some(row)) = given {
        lemma_drained_is_sound(after);
    } else if !walk.truncated {
        assert(after == past_header(walk));
    }
}

/// A drained walk has nothing left to give.
pub proof fn lemma_drained_is_empty(walk: Walk)
    requires
        sound(walk),
        drained(walk).2 is None,
    ensures
        drained(drained(walk).0) == (drained(walk).0, Seq::<RecordRowModel>::empty(), None::<Failure>),
    decreases walk.buffer.len(),
{
    lemma_next_is_sound(walk);
    let (after, given) = next(walk);
    match given {
        Ok(Some(row)) => {
            lemma_drained_is_empty(after);
        },
        Ok(None) => {
            let nothing = Seq::<u8>::empty();
            law_asking_early_changes_nothing(walk, nothing);
            lemma_pushing_nothing(walk);
            lemma_pushing_nothing(after);
        },
        Err(failure) => {},
    }
}

/// An empty chunk changes nothing.
pub proof fn lemma_pushing_nothing(walk: Walk)
    requires
        sound(walk),
    ensures
        pushed(walk, Seq::<u8>::empty()) == walk,
{
    assert(walk.buffer + Seq::<u8>::empty() =~= walk.buffer);
    assert(walk.truncated ==> walk.buffer =~= Seq::<u8>::empty());
    assert(pushed(walk, Seq::<u8>::empty()) =~= walk);
}

/// However an input is cut into chunks, a walk that is drained after each of
/// them, and once more at the end, gives the rows of the whole input in one
/// piece, ends where that ends, and fails as that fails.
pub proof fn law_any_chunking_gives_the_same_rows(walk: Walk, chunks: Seq<Seq<u8>>)
    requires
        sound(walk),
        walk.received + all_bytes(chunks).len() <= u64::MAX,
        walk.buffer.len() + all_bytes(chunks).len() <= usize::MAX,
    ensures
        ({
            let (middle, rows, failure) = walked(walk, chunks);
            let (end, all, stopped) = drained(pushed(walk, all_bytes(chunks)));
            match failure {
                Some(failure) => all == rows && stopped == Some(failure),
                None => {
                    let (last, rest, late) = drained(middle);
                    end == last && all == rows + rest && stopped == late
                },
            }
        }),
{
    lemma_any_chunking(walk, chunks);
}

/// Walking keeps a walk sound and within its input.
pub proof fn lemma_walked_is_sound(walk: Walk, chunks: Seq<Seq<u8>>)
    requires
        sound(walk),
        walk.received + all_bytes(chunks).len() <= u64::MAX,
        walk.buffer.len() + all_bytes(chunks).len() <= usize::MAX,
    ensures
        sound(walked(walk, chunks).0),
        walked(walk, chunks).0.received <= walk.received + all_bytes(chunks).len(),
        walked(walk, chunks).0.buffer.len() <= walk.buffer.len() + all_bytes(chunks).len(),
{
    lemma_any_chunking(walk, chunks);
}

/// The law above, with what its proof carries along.
#[verifier::rlimit(60)]
#[verifier::spinoff_prover]
proof fn lemma_any_chunking(walk: Walk, chunks: Seq<Seq<u8>>)
    requires
        sound(walk),
        walk.received + all_bytes(chunks).len() <= u64::MAX,
        walk.buffer.len() + all_bytes(chunks).len() <= usize::MAX,
    ensures
        ({
            let (middle, rows, failure) = walked(walk, chunks);
            let (end, all, stopped) = drained(pushed(walk, all_bytes(chunks)));
            &&& sound(middle)
            &&& middle.received <= walk.received + all_bytes(chunks).len()
            &&& middle.buffer.len() <= walk.buffer.len() + all_bytes(chunks).len()
            &&& match failure {
                Some(failure) => all == rows && stopped == Some(failure),
                None => {
                    let (last, rest, late) = drained(middle);
                    end == last && all == rows + rest && stopped == late
                },
            }
        }),
    decreases chunks.len(),
{
    if chunks.len() == 0 {
        lemma_pushing_nothing(walk);
        let rest = drained(walk).1;
        assert(Seq::<RecordRowModel>::empty() + rest =~= rest);
    } else {
        let front = chunks.drop_last();
        let more = chunks.last();
        lemma_any_chunking(walk, front);
        let (middle, rows, failure) = walked(walk, front);
        let before = pushed(walk, all_bytes(front));
        lemma_pushed_is_sound(walk, all_bytes(front));
        law_pushes_join(walk, all_bytes(front), more);
        law_chunking_does_not_change_the_rows(before, more);
        if failure is None {
            lemma_pushed_is_sound(middle, more);
            law_chunking_does_not_change_the_rows(middle, more);
            lemma_drained_is_sound(pushed(middle, more));
            lemma_one_more_chunk(before, middle, rows, more);
        }
    }
}

/// A walk that has come as far as another one with some rows given does so
/// with one more chunk.
#[verifier::rlimit(60)]
#[verifier::spinoff_prover]
proof fn lemma_one_more_chunk(
    before: Walk,
    middle: Walk,
    rows: Seq<RecordRowModel>,
    more: Seq<u8>,
)
    requires
        sound(before),
        sound(middle),
        sound(pushed(before, more)),
        sound(pushed(middle, more)),
        before.received + more.len() <= u64::MAX,
        before.buffer.len() + more.len() <= usize::MAX,
        middle.received + more.len() <= u64::MAX,
        middle.buffer.len() + more.len() <= usize::MAX,
        drained(before).0 == drained(middle).0,
        drained(before).1 == rows + drained(middle).1,
        drained(before).2 == drained(middle).2,
    ensures
        ({
            let (middle, given, failure) = drained(pushed(middle, more));
            let (end, all, stopped) = drained(pushed(before, more));
            match failure {
                Some(failure) => all == rows + given && stopped == Some(failure),
                None => {
                    let (last, rest, late) = drained(middle);
                    end == last && all == rows + given + rest && stopped == late
                },
            }
        }),
{
    law_chunking_does_not_change_the_rows(before, more);
    law_chunking_does_not_change_the_rows(middle, more);
    let (end, rest, late) = drained(middle);
    let given = drained(pushed(middle, more)).1;
    if late is None {
        let further = drained(pushed(end, more)).1;
        assert((rows + rest) + further =~= rows + (rest + further));
    }
    if drained(pushed(middle, more)).2 is None {
        lemma_drained_is_empty(pushed(middle, more));
        assert((rows + given) + Seq::<RecordRowModel>::empty() =~= rows + given);
    }
}

/// Walks that give the same next give the same rows.
proof fn lemma_drained_follows_next(one: Walk, other: Walk)
    requires
        next(one) == next(other),
        next(one).1 matches Ok(Some(row)) ==> next(one).0.buffer.len() < other.buffer.len(),
        sound(one),
    ensures
        drained(one) == drained(other),
{
    lemma_next_is_sound(one);
}

/// The records of a walk adjoin: the record at the front starts where the walk
/// stands and ends where the walk stands behind it, unless it is the last one
/// asked for. None of it is footer.
pub proof fn law_records_adjoin_and_leave_the_footer(walk: Walk)
    requires
        sound(walk),
    ensures
        next(walk).1 matches Ok(Some(row)) ==> {
            &&& row.byte_offset == past_header(walk).base
            &&& row.byte_length > 0
            &&& row.byte_offset + row.byte_length + walk.layout.footer_size <= walk.received
            &&& !next(walk).0.truncated ==> next(walk).0.base == row.byte_offset + row.byte_length
        },
{
    let ready = past_header(walk);
    lemma_record_takes_bytes(ready);
    lemma_next_is_sound(walk);
}

/// Each row carries its own place: its index among all records, and its index
/// among the rows of its schema, which both go up by one.
pub proof fn law_rows_are_numbered_in_order(walk: Walk)
    requires
        sound(walk),
    ensures
        next(walk).1 matches Ok(Some(row)) ==> {
            let after = next(walk).0;
            let at = count_of(walk.rows, row.record_type, 0);
            &&& row.record_index == walk.kept
            &&& after.kept == walk.kept + 1
            &&& at < walk.rows.len()
            &&& row.row_index == walk.rows[at].rows
            &&& after.rows == walk.rows.update(
                at,
                RowCountModel {
                    record_type: row.record_type,
                    rows: (row.row_index + 1) as u64,
                },
            )
        },
{
    let ready = past_header(walk);
    lemma_record_takes_bytes(ready);
}

proof fn lemma_sum_update(rows: Seq<RowCountModel>, at: int, now: RowCountModel, k: int)
    requires
        0 <= at < rows.len(),
        0 <= k <= rows.len(),
    ensures
        row_sum(rows.update(at, now), k) == row_sum(rows, k) + if at < k {
            now.rows - rows[at].rows
        } else {
            0
        },
    decreases k,
{
    if k > 0 {
        lemma_sum_update(rows, at, now, k - 1);
    }
}

proof fn lemma_zero_sum(records: Seq<RecordLayoutModel>, n: int, k: int)
    requires
        0 <= n <= records.len(),
        0 <= k <= zero_counts(records, n).len(),
    ensures
        row_sum(zero_counts(records, n), k) == 0,
    decreases n, k,
{
    if k > 0 {
        lemma_zero_sum(records, n, k - 1);
        lemma_zeros(records, n, k - 1);
    }
}

pub proof fn lemma_zeros(records: Seq<RecordLayoutModel>, n: int, i: int)
    requires
        0 <= n <= records.len(),
        0 <= i < zero_counts(records, n).len(),
    ensures
        zero_counts(records, n)[i].rows == 0,
    decreases n,
{
    if n > 0 {
        if i < zero_counts(records, n - 1).len() {
            lemma_zeros(records, n - 1, i);
        }
    }
}

/// A walk that has not received a byte is sound.
pub proof fn lemma_fresh_is_sound(layout: LayoutModel, options: DecodeOptions)
    requires
        decodable(layout),
    ensures
        sound(fresh(layout, options)),
{
    crate::stream::lemma_zero_counts(layout.records, layout.records.len() as int);
}

/// A walk that has not received a byte is accounted for.
pub proof fn lemma_fresh_is_accounted(layout: LayoutModel, options: DecodeOptions)
    ensures
        accounted(fresh(layout, options)),
{
    let records = layout.records;
    lemma_zero_sum(
        records,
        records.len() as int,
        zero_counts(records, records.len() as int).len() as int,
    );
}

/// Input keeps a walk accounted for.
pub proof fn lemma_pushed_is_accounted(walk: Walk, chunk: Seq<u8>)
    requires
        accounted(walk),
    ensures
        accounted(pushed(walk, chunk)),
{
}

/// Asking for a record keeps a walk accounted for.
pub proof fn lemma_next_is_accounted(walk: Walk)
    requires
        sound(walk),
        accounted(walk),
    ensures
        accounted(next(walk).0),
{
    let after = next(walk).0;
    lemma_next_is_sound(walk);
    lemma_record_takes_bytes(past_header(walk));
    if let Ok(Some(row)) = next(walk).1 {
        law_rows_are_numbered_in_order(walk);
        let at = count_of(walk.rows, row.record_type, 0);
        lemma_count_of(walk.rows, row.record_type, 0);
        assert(walk.rows[at].rows <= walk.kept);
        lemma_sum_update(walk.rows, at, after.rows[at], walk.rows.len() as int);
        assert(counts_schemas(after.rows, walk.layout.records));
    }
}

/// Memory is bounded by the record size and not by the file size: a walk that
/// has no row to give holds no more than the footer and a partial record, which
/// is shorter than the prefix, or than the record that the prefix announces.
pub proof fn law_only_a_partial_record_and_the_footer_are_held(walk: Walk)
    requires
        sound(walk),
        accounted(walk),
        next(walk).1 == Ok::<_, Failure>(None::<RecordRowModel>),
    ensures
        ({
            let after = next(walk).0;
            let prefix = walk.layout.prefix_size as int;
            let part = after.buffer.len() - walk.layout.footer_size;
            &&& after.buffer.len() <= prefix + MAX_RECORD_BYTES + walk.layout.footer_size
            &&& part > 0 ==> {
                ||| part < prefix
                ||| prefix_of(after) matches Ok((schema, size)) && part < prefix + size
            }
        }),
{
    let ready = past_header(walk);
    lemma_record_takes_bytes(ready);
}

/// Draining a walk keeps it accounted for, and leaves no more in it than the
/// footer and a partial record.
pub proof fn lemma_drained_holds_little(walk: Walk)
    requires
        sound(walk),
        accounted(walk),
    ensures
        accounted(drained(walk).0),
        drained(walk).2 is None ==> drained(walk).0.buffer.len() <= walk.layout.prefix_size
            + MAX_RECORD_BYTES + walk.layout.footer_size,
    decreases walk.buffer.len(),
{
    lemma_next_is_sound(walk);
    lemma_next_is_accounted(walk);
    match next(walk).1 {
        Ok(Some(row)) => {
            lemma_drained_holds_little(next(walk).0);
        },
        Ok(None) => {
            law_only_a_partial_record_and_the_footer_are_held(walk);
        },
        Err(failure) => {},
    }
}

/// The fields of a record that make cells.
pub open spec fn cell_fields(fields: Seq<FieldModel>, k: int) -> Seq<FieldModel>
    decreases k,
{
    if k <= 0 {
        Seq::empty()
    } else if fields[k - 1].kind == FieldKind::Skip {
        cell_fields(fields, k - 1)
    } else {
        cell_fields(fields, k - 1).push(fields[k - 1])
    }
}

/// A record has one cell per field that is no filler, in field order, under
/// the field's name and type; fillers never make cells.
pub proof fn law_fillers_make_no_cells(
    record: RecordLayoutModel,
    body: Seq<u8>,
    options: DecodeOptions,
    k: int,
)
    requires
        0 <= k <= record.fields.len(),
    ensures
        cells_of(record, body, options, k) matches Ok(cells) ==> {
            let fields = cell_fields(record.fields, k);
            &&& cells.len() == fields.len()
            &&& forall|i: int|
                0 <= i < cells.len() ==> (#[trigger] cells[i]).name == fields[i].name
                    && cells[i].field_type == proto_type(fields[i].kind).number()
                    && cells[i].value is Some
        },
    decreases k,
{
    if k > 0 {
        law_fillers_make_no_cells(record, body, options, k - 1);
    }
}

/// The trailer accounts for every byte: what was consumed, what was left over
/// and the footer are all that was received, unless the walk stopped early or
/// the input was shorter than its header and footer.
pub proof fn law_the_trailer_accounts_for_every_byte(walk: Walk)
    requires
        sound(walk),
        accounted(walk),
        !walk.truncated,
        walk.layout.footer_size <= walk.received,
    ensures
        status_of(walk) matches Ok(status) ==> status.bytes_consumed + status.trailing_bytes
            + walk.layout.footer_size == status.bytes_received,
{
}

/// An input that ends inside a record is survived with a warning, and fails
/// the parse exactly when the caller asked for that. Nothing else fails a
/// trailer.
pub proof fn law_a_partial_record_fails_only_on_request(walk: Walk)
    ensures
        status_of(walk) is Err <==> ends_inside_a_record(walk) && walk.options.abort_on_error,
        status_of(walk) matches Ok(status) ==> status.warnings.len() <= 1,
        status_of(walk) matches Ok(status) ==> (ends_inside_a_record(walk)
            ==> status.warnings.len() == 1),
{
}

} // verus!
