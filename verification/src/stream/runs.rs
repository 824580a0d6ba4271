//! What holds of a walk over any run of calls, from the first byte to the
//! trailer.

use vstd::prelude::*;
use crate::error::Failure;
use crate::layout::{decodable, LayoutModel, RecordLayoutModel, MAX_RECORD_BYTES};
use crate::proto::v1::{ParseWarningModel, RecordRowModel, RowCountModel, WarningCode};
use crate::stream::{accounted, available, count_of, fresh, lemma_count_of, next, past_header,
    prefix_of, pushed, row_sum, sound, status_of, zero_counts, DecodeOptions, Walk};
use crate::stream::laws::{all_bytes, drained, law_any_chunking_gives_the_same_rows,
    law_records_adjoin_and_leave_the_footer, law_rows_are_numbered_in_order,
    law_the_trailer_accounts_for_every_byte, lemma_drained_holds_little, lemma_drained_is_empty,
    lemma_drained_is_sound, lemma_fresh_is_accounted, lemma_fresh_is_sound, lemma_next_is_accounted, lemma_next_is_sound, lemma_pushed_is_accounted,
    lemma_pushed_is_sound, lemma_record_takes_bytes, lemma_walked_is_sound, walked};

verus! {

/// One call on a walk.
pub enum Call {
    /// A chunk of input arrives.
    Push(Seq<u8>),
    /// The next record is asked for.
    Ask,
}

/// A walk behind a run of calls, and the rows it gave, in order.
pub open spec fn run(walk: Walk, calls: Seq<Call>) -> (Walk, Seq<RecordRowModel>)
    decreases calls.len(),
{
    if calls.len() == 0 {
        (walk, Seq::empty())
    } else {
        let (before, rows) = run(walk, calls.drop_last());
        match calls.last() {
            Call::Push(chunk) => (pushed(before, chunk), rows),
            Call::Ask => match next(before) {
                (after, Ok(Some(row))) => (after, rows.push(row)),
                (after, _) => (after, rows),
            },
        }
    }
}

/// How many bytes a run of calls pushes.
pub open spec fn bytes_pushed(calls: Seq<Call>) -> nat
    decreases calls.len(),
{
    if calls.len() == 0 {
        0
    } else {
        bytes_pushed(calls.drop_last()) + match calls.last() {
            Call::Push(chunk) => chunk.len(),
            Call::Ask => 0,
        }
    }
}

/// Whether every chunk of a run of calls can be counted and held when it
/// arrives.
pub open spec fn can_run(walk: Walk, calls: Seq<Call>) -> bool
    decreases calls.len(),
{
    calls.len() > 0 ==> {
        let before = run(walk, calls.drop_last()).0;
        &&& can_run(walk, calls.drop_last())
        &&& calls.last() matches Call::Push(chunk) ==> {
            &&& before.received + chunk.len() <= u64::MAX
            &&& before.buffer.len() + chunk.len() <= usize::MAX
        }
    }
}

/// A walk whose input is over.
pub open spec fn ended(walk: Walk) -> Walk {
    Walk { finished: true, ..walk }
}

/// How many rows of a schema there are.
pub open spec fn tally(rows: Seq<RecordRowModel>, name: Seq<char>) -> nat
    decreases rows.len(),
{
    if rows.len() == 0 {
        0
    } else if rows.last().record_type == name {
        tally(rows.drop_last(), name) + 1
    } else {
        tally(rows.drop_last(), name)
    }
}

/// Whether rows are numbered: each by its place among all of them, and by its
/// place among those of its schema.
pub open spec fn numbered(rows: Seq<RecordRowModel>) -> bool {
    forall|k: int|
        0 <= k < rows.len() ==> {
            &&& (#[trigger] rows[k]).record_index == k
            &&& rows[k].row_index == tally(rows.take(k), rows[k].record_type)
        }
}

/// Whether rows lie one behind another, the first of them at `start`.
pub open spec fn adjoining(rows: Seq<RecordRowModel>, start: int) -> bool {
    &&& rows.len() > 0 ==> rows[0].byte_offset == start
    &&& forall|k: int|
        0 < k < rows.len() ==> (#[trigger] rows[k]).byte_offset == rows[k - 1].byte_offset
            + rows[k - 1].byte_length
}

/// What a run of calls keeps.
spec fn kept_up(end: Walk, rows: Seq<RecordRowModel>) -> bool {
    &&& sound(end)
    &&& accounted(end)
    &&& rows.len() == end.kept
    &&& numbered(rows)
    &&& adjoining(rows, end.layout.header_size as int)
    &&& forall|i: int|
        0 <= i < end.rows.len() ==> (#[trigger] end.rows[i]).rows == tally(
            rows,
            end.rows[i].record_type,
        )
    &&& rows.len() > 0 && !end.truncated ==> end.base == rows.last().byte_offset
        + rows.last().byte_length
}

/// Every run of calls keeps what [`kept_up`] says.
proof fn lemma_run(layout: LayoutModel, options: DecodeOptions, calls: Seq<Call>)
    requires
        decodable(layout),
        can_run(fresh(layout, options), calls),
    ensures
        ({
            let (end, rows) = run(fresh(layout, options), calls);
            &&& kept_up(end, rows)
            &&& end.layout == layout
            &&& end.options == options
            &&& end.received == bytes_pushed(calls)
        }),
    decreases calls.len(),
{
    let start = fresh(layout, options);
    if calls.len() == 0 {
        lemma_fresh_is_sound(layout, options);
        lemma_fresh_is_accounted(layout, options);
        assert forall|i: int| 0 <= i < start.rows.len() implies (#[trigger] start.rows[i]).rows
            == tally(Seq::empty(), start.rows[i].record_type) by {
            crate::stream::laws::lemma_zeros(layout.records, layout.records.len() as int, i);
        }
    } else {
        lemma_run(layout, options, calls.drop_last());
        let (before, rows) = run(start, calls.drop_last());
        match calls.last() {
            Call::Push(chunk) => {
                lemma_pushed_is_sound(before, chunk);
                lemma_pushed_is_accounted(before, chunk);
            },
            Call::Ask => {
                lemma_asked(before, rows);
            },
        }
    }
}

/// One more call for a record keeps what [`kept_up`] says.
proof fn lemma_asked(before: Walk, rows: Seq<RecordRowModel>)
    requires
        kept_up(before, rows),
    ensures
        next(before).0.layout == before.layout,
        next(before).0.options == before.options,
        next(before).0.received == before.received,
        match next(before) {
            (after, Ok(Some(row))) => kept_up(after, rows.push(row)),
            (after, _) => kept_up(after, rows),
        },
{
    let (after, given) = next(before);
    let ready = past_header(before);
    lemma_next_is_sound(before);
    lemma_next_is_accounted(before);
    lemma_record_takes_bytes(ready);
    if let Ok(Some(row)) = given {
        let now = rows.push(row);
        law_rows_are_numbered_in_order(before);
        law_records_adjoin_and_leave_the_footer(before);
        let at = count_of(before.rows, row.record_type, 0);
        lemma_count_of(before.rows, row.record_type, 0);
        assert(now.drop_last() =~= rows);
        assert forall|k: int| 0 <= k < now.len() implies {
            &&& (#[trigger] now[k]).record_index == k
            &&& now[k].row_index == tally(now.take(k), now[k].record_type)
        } by {
            if k < rows.len() {
                assert(now.take(k) =~= rows.take(k));
                assert(now[k] == rows[k]);
            } else {
                assert(now.take(k) =~= rows);
                assert(before.rows[at].rows == tally(rows, row.record_type));
            }
        }
        assert forall|k: int| 0 < k < now.len() implies (#[trigger] now[k]).byte_offset == now[k
            - 1].byte_offset + now[k - 1].byte_length by {
            if k < rows.len() {
                assert(now[k] == rows[k]);
            } else {
                assert(now[k - 1] == rows.last());
            }
        }
        assert forall|i: int| 0 <= i < after.rows.len() implies (#[trigger] after.rows[i]).rows
            == tally(now, after.rows[i].record_type) by {
            assert(before.rows[i].rows == tally(rows, before.rows[i].record_type));
            if i != at {
                lemma_names_are_distinct(before, i, at);
            }
        }
    }
}

/// The row counts of a walk are those of the schemas of its layout.
proof fn lemma_counts_name_schemas(walk: Walk)
    requires
        accounted(walk),
    ensures
        names_exactly(walk.rows, walk.layout.records),
{
    let counts = walk.rows;
    let records = walk.layout.records;
    let start = zero_counts(records, records.len() as int);
    lemma_zero_names(records, records.len() as int);
    assert forall|i: int, j: int| 0 <= i < j < counts.len() implies (
    #[trigger] counts[i]).record_type != (#[trigger] counts[j]).record_type by {
        lemma_names_are_distinct(walk, i, j);
    }
    assert forall|i: int| 0 <= i < counts.len() implies is_schema(
        records,
        (#[trigger] counts[i]).record_type,
    ) by {
        assert(is_schema(records, start[i].record_type));
    }
    assert forall|r: int| 0 <= r < records.len() implies is_counted(
        counts,
        (#[trigger] records[r]).name,
    ) by {
        assert(is_counted(start, records[r].name));
        let i = choose|i: int|
            0 <= i < start.len() && (#[trigger] start[i]).record_type == records[r].name;
        assert(counts[i].record_type == records[r].name);
    }
}

/// No two row counts of a walk have the same name.
proof fn lemma_names_are_distinct(walk: Walk, i: int, j: int)
    requires
        accounted(walk),
        0 <= i < walk.rows.len(),
        0 <= j < walk.rows.len(),
        i != j,
    ensures
        walk.rows[i].record_type != walk.rows[j].record_type,
{
    let records = walk.layout.records;
    let start = zero_counts(records, records.len() as int);
    lemma_zero_names(records, records.len() as int);
    if i < j {
        assert(start[i].record_type != start[j].record_type);
    } else {
        assert(start[j].record_type != start[i].record_type);
    }
}

/// Whether a name is that of a schema.
pub open spec fn is_schema(records: Seq<RecordLayoutModel>, name: Seq<char>) -> bool {
    exists|r: int| 0 <= r < records.len() && (#[trigger] records[r]).name == name
}

/// Whether there is a count under a name.
pub open spec fn is_counted(counts: Seq<RowCountModel>, name: Seq<char>) -> bool {
    exists|i: int| 0 <= i < counts.len() && (#[trigger] counts[i]).record_type == name
}

/// Whether counts are those of exactly the schemas of a layout: every name is
/// there, once, and nothing else is.
pub open spec fn names_exactly(
    counts: Seq<RowCountModel>,
    records: Seq<RecordLayoutModel>,
) -> bool {
    &&& forall|i: int, j: int|
        0 <= i < j < counts.len() ==> (#[trigger] counts[i]).record_type
            != (#[trigger] counts[j]).record_type
    &&& forall|i: int|
        0 <= i < counts.len() ==> is_schema(records, (#[trigger] counts[i]).record_type)
    &&& forall|r: int|
        0 <= r < records.len() ==> is_counted(counts, (#[trigger] records[r]).name)
}

/// The counts that a walk starts with are those of the schemas.
proof fn lemma_zero_names(records: Seq<RecordLayoutModel>, k: int)
    requires
        0 <= k <= records.len(),
    ensures
        names_exactly(zero_counts(records, k), records.take(k)),
        forall|i: int|
            0 <= i < zero_counts(records, k).len() ==> is_schema(
                records,
                (#[trigger] zero_counts(records, k)[i]).record_type,
            ),
        forall|r: int|
            0 <= r < k ==> is_counted(zero_counts(records, k), (#[trigger] records[r]).name),
    decreases k,
{
    if k > 0 {
        lemma_zero_names(records, k - 1);
        let before = zero_counts(records, k - 1);
        let now = zero_counts(records, k);
        let front = records.take(k - 1);
        let all = records.take(k);
        let name = records[k - 1].name;
        assert(all[k - 1].name == name);
        lemma_count_of(before, name, 0);
        if count_of(before, name, 0) >= before.len() {
            lemma_not_counted(before, name, 0);
        }
        assert forall|i: int| 0 <= i < now.len() implies is_schema(
            all,
            (#[trigger] now[i]).record_type,
        ) && is_schema(records, now[i].record_type) by {
            if i < before.len() {
                assert(is_schema(front, before[i].record_type));
                let r = choose|r: int|
                    0 <= r < front.len() && (#[trigger] front[r]).name == before[i].record_type;
                assert(all[r] == front[r]);
                assert(records[r] == front[r]);
            }
        }
        assert forall|r: int| 0 <= r < k implies is_counted(now, (#[trigger] records[r]).name) by {
            if r < k - 1 {
                assert(is_counted(before, records[r].name));
                let i = choose|i: int|
                    0 <= i < before.len() && (#[trigger] before[i]).record_type
                        == records[r].name;
                assert(now[i] == before[i]);
            } else if count_of(before, name, 0) < before.len() {
                assert(now[count_of(before, name, 0)].record_type == name);
            } else {
                assert(now[before.len() as int].record_type == name);
            }
        }
        assert forall|r: int| 0 <= r < all.len() implies is_counted(
            now,
            (#[trigger] all[r]).name,
        ) by {
            assert(all[r] == records[r]);
        }
    }
}

/// A name that is not found stands nowhere.
proof fn lemma_not_counted(rows: Seq<RowCountModel>, name: Seq<char>, from: int)
    requires
        0 <= from <= rows.len(),
        count_of(rows, name, from) == rows.len(),
    ensures
        forall|i: int| from <= i < rows.len() ==> (#[trigger] rows[i]).record_type != name,
    decreases rows.len() - from,
{
    if from < rows.len() {
        if rows[from].record_type == name {
            assert(count_of(rows, name, from) == from);
        } else {
            lemma_not_counted(rows, name, from + 1);
        }
    }
}

/// Rows come numbered and in place: over any run of calls the `k`-th row that a
/// walk gives has the index `k`, its number among the rows of its schema, and
/// the offset where the row before it ends, the first one that of the end of
/// the header.
pub proof fn law_rows_come_numbered_and_adjoin(
    layout: LayoutModel,
    options: DecodeOptions,
    calls: Seq<Call>,
)
    requires
        decodable(layout),
        can_run(fresh(layout, options), calls),
    ensures
        ({
            let rows = run(fresh(layout, options), calls).1;
            &&& numbered(rows)
            &&& adjoining(rows, layout.header_size as int)
        }),
{
    lemma_run(layout, options, calls);
}

/// The trailer counts what happened: over any run of calls, the records it
/// reports are the rows that were given, its counts per schema are those of
/// exactly the schemas of the layout, each the number of the rows given of it,
/// and add up to the rows; the bytes it reports are the bytes pushed; it says
/// that the walk was cut short exactly when as many records came as were asked
/// for; and otherwise what was consumed, what was left over and the footer are
/// all the bytes.
pub proof fn law_the_trailer_counts_what_happened(
    layout: LayoutModel,
    options: DecodeOptions,
    calls: Seq<Call>,
)
    requires
        decodable(layout),
        can_run(fresh(layout, options), calls),
    ensures
        ({
            let (end, rows) = run(fresh(layout, options), calls);
            status_of(ended(end)) matches Ok(status) ==> {
                let counts = status.rows_per_record_type;
                &&& status.records_kept == rows.len()
                &&& row_sum(counts, counts.len() as int) == rows.len()
                &&& forall|i: int|
                    0 <= i < counts.len() ==> (#[trigger] counts[i]).rows == tally(
                        rows,
                        counts[i].record_type,
                    )
                &&& names_exactly(counts, layout.records)
                &&& status.bytes_received == bytes_pushed(calls)
                &&& status.truncated <==> options.max_records != 0 && status.records_kept
                    == options.max_records
                &&& options.max_records != 0 ==> status.records_kept <= options.max_records
                &&& !status.truncated && layout.footer_size <= status.bytes_received
                    ==> status.bytes_consumed + status.trailing_bytes + layout.footer_size
                    == status.bytes_received
            }
        }),
{
    lemma_run(layout, options, calls);
    let (end, rows) = run(fresh(layout, options), calls);
    lemma_counts_name_schemas(end);
    if let Ok(status) = status_of(ended(end)) {
        assert(status.rows_per_record_type == end.rows);
        if !status.truncated && layout.footer_size <= status.bytes_received {
            law_the_trailer_accounts_for_every_byte(ended(end));
        }
    }
}

/// A walk never gives more records than were asked for, and gives none once it
/// has given them all.
pub proof fn law_no_more_records_than_asked_for(
    layout: LayoutModel,
    options: DecodeOptions,
    calls: Seq<Call>,
)
    requires
        decodable(layout),
        can_run(fresh(layout, options), calls),
        options.max_records != 0,
    ensures
        ({
            let (end, rows) = run(fresh(layout, options), calls);
            &&& rows.len() <= options.max_records
            &&& rows.len() == options.max_records ==> next(end) == (
                end,
                Ok::<_, Failure>(None::<RecordRowModel>),
            )
        }),
{
    lemma_run(layout, options, calls);
}

/// Whether a layout is a plain file of records of one length: one schema and no
/// prefix fields.
pub open spec fn is_one_length(layout: LayoutModel) -> bool {
    &&& layout.records.len() == 1
    &&& layout.record_length_field is None
    &&& layout.record_type_field is None
}

/// Each record of a plain file takes the length of its schema.
proof fn lemma_one_length(layout: LayoutModel, options: DecodeOptions, calls: Seq<Call>)
    requires
        decodable(layout),
        is_one_length(layout),
        options.max_records == 0,
        can_run(fresh(layout, options), calls),
    ensures
        ({
            let end = run(fresh(layout, options), calls).0;
            end.base == layout.header_size - end.header_left + end.kept * layout.records[0].size
        }),
    decreases calls.len(),
{
    let start = fresh(layout, options);
    let size = layout.records[0].size as int;
    assert(0 * size == 0);
    if calls.len() > 0 {
        let front = calls.drop_last();
        lemma_run(layout, options, front);
        lemma_one_length(layout, options, front);
        let before = run(start, front).0;
        if let Call::Ask = calls.last() {
            lemma_one_record(before);
        }
    }
}

/// A record of a plain file takes the length of its schema.
proof fn lemma_one_record(before: Walk)
    requires
        sound(before),
        accounted(before),
        is_one_length(before.layout),
        before.options.max_records == 0,
        before.base == before.layout.header_size - before.header_left + before.kept
            * before.layout.records[0].size,
    ensures
        ({
            let after = next(before).0;
            &&& after.base == after.layout.header_size - after.header_left + after.kept
                * after.layout.records[0].size
            &&& next(before).1 == Ok::<_, Failure>(None::<RecordRowModel>)
                && before.layout.header_size + before.layout.footer_size <= before.received ==> {
                &&& after.header_left == 0
                &&& available(after) < before.layout.records[0].size
            }
        }),
{
    let ready = past_header(before);
    let size = before.layout.records[0].size as int;
    lemma_next_is_accounted(before);
    lemma_record_takes_bytes(ready);
    assert(ready.base - before.base == before.header_left - ready.header_left);
    let (after, given) = next(before);
    if let Ok(Some(row)) = given {
        assert(prefix_of(ready) == Ok::<_, Failure>((0int, size)));
        assert((before.kept + 1) * size == before.kept * size + size) by (nonlinear_arith);
    } else if given is Ok {
        assert(after == ready);
        if ready.header_left == 0 && available(ready) > 0 {
            assert(prefix_of(ready) is Ok ==> prefix_of(ready)->Ok_0 == (0int, size));
        }
    }
}

/// The records of a plain file are a division: when all there is has been asked
/// for, the records kept and the bytes left over are the quotient and the
/// remainder of the bytes between header and footer by the record length. What
/// is left over is warned about where it starts.
pub proof fn law_records_of_one_length_divide_the_input(
    layout: LayoutModel,
    options: DecodeOptions,
    calls: Seq<Call>,
)
    requires
        decodable(layout),
        is_one_length(layout),
        options.max_records == 0,
        !options.abort_on_error,
        can_run(fresh(layout, options), calls),
        next(run(fresh(layout, options), calls).0).1 == Ok::<_, Failure>(None::<RecordRowModel>),
        layout.header_size + layout.footer_size <= bytes_pushed(calls),
    ensures
        ({
            let end = next(run(fresh(layout, options), calls).0).0;
            let size = layout.records[0].size as int;
            let data = bytes_pushed(calls) - layout.header_size - layout.footer_size;
            &&& status_of(ended(end)) matches Ok(status)
            &&& status.records_kept == data / size
            &&& status.trailing_bytes == data % size
            &&& status.bytes_received == bytes_pushed(calls)
            &&& status.bytes_consumed == layout.header_size + status.records_kept * size
            &&& status.trailing_bytes == 0 ==> status.warnings == Seq::<ParseWarningModel>::empty()
            &&& status.trailing_bytes > 0 ==> {
                &&& status.warnings.len() == 1
                &&& status.warnings[0].code == WarningCode::TrailingPartialRecord.number()
                &&& status.warnings[0].byte_offset == status.bytes_consumed
            }
        }),
{
    let before = run(fresh(layout, options), calls).0;
    let end = next(before).0;
    let size = layout.records[0].size as int;
    let data = bytes_pushed(calls) - layout.header_size - layout.footer_size;
    lemma_run(layout, options, calls);
    lemma_one_length(layout, options, calls);
    lemma_one_record(before);
    lemma_next_is_sound(before);
    lemma_next_is_accounted(before);
    assert(available(end) == data - end.kept * size);
    lemma_quotient(data, size, end.kept, available(end));
}

/// What is left below the divisor is the remainder.
proof fn lemma_quotient(data: int, size: int, count: int, rest: int)
    requires
        size > 0,
        data == count * size + rest,
        0 <= rest < size,
    ensures
        data / size == count,
        data % size == rest,
{
    vstd::arithmetic::div_mod::lemma_fundamental_div_mod_converse(data, size, count, rest);
}

/// How an input was cut into chunks never shows: two walks of one layout that
/// get the same bytes in different chunks, and are drained after each of them,
/// give the same rows and fail alike.
pub proof fn law_how_input_was_chunked_never_shows(
    layout: LayoutModel,
    options: DecodeOptions,
    one: Seq<Seq<u8>>,
    other: Seq<Seq<u8>>,
)
    requires
        decodable(layout),
        all_bytes(one) == all_bytes(other),
        all_bytes(one).len() <= usize::MAX,
    ensures
        walked(fresh(layout, options), one).1 == walked(fresh(layout, options), other).1,
        walked(fresh(layout, options), one).2 == walked(fresh(layout, options), other).2,
{
    lemma_walked_as_one(layout, options, one);
    lemma_walked_as_one(layout, options, other);
}

/// A walk that was drained after each chunk gave what it gives of all of them
/// at once.
proof fn lemma_walked_as_one(layout: LayoutModel, options: DecodeOptions, chunks: Seq<Seq<u8>>)
    requires
        decodable(layout),
        all_bytes(chunks).len() <= usize::MAX,
    ensures
        ({
            let once = drained(pushed(fresh(layout, options), all_bytes(chunks)));
            let (end, rows, failure) = walked(fresh(layout, options), chunks);
            rows == once.1 && failure == once.2
        }),
{
    let start = fresh(layout, options);
    lemma_fresh_is_sound(layout, options);
    law_any_chunking_gives_the_same_rows(start, chunks);
    let (end, rows, failure) = walked(start, chunks);
    if failure is None {
        lemma_nothing_left(layout, options, chunks);
        assert(rows + Seq::<RecordRowModel>::empty() =~= rows);
    }
}

/// However much input a walk is given, in whatever chunks, what it holds between
/// two chunks is no more than the footer and one record: drained after each of
/// them it keeps within a bound that the layout sets and the input does not.
pub proof fn law_memory_does_not_grow_with_the_input(
    layout: LayoutModel,
    options: DecodeOptions,
    chunks: Seq<Seq<u8>>,
)
    requires
        decodable(layout),
        all_bytes(chunks).len() <= usize::MAX,
        walked(fresh(layout, options), chunks).2 is None,
    ensures
        walked(fresh(layout, options), chunks).0.buffer.len() <= layout.prefix_size
            + MAX_RECORD_BYTES + layout.footer_size,
{
    lemma_walked_holds_little(layout, options, chunks);
}

/// The law above, with what its proof carries along.
proof fn lemma_walked_holds_little(
    layout: LayoutModel,
    options: DecodeOptions,
    chunks: Seq<Seq<u8>>,
)
    requires
        decodable(layout),
        all_bytes(chunks).len() <= usize::MAX,
    ensures
        ({
            let (end, rows, failure) = walked(fresh(layout, options), chunks);
            &&& sound(end)
            &&& accounted(end)
            &&& end.layout == layout
            &&& failure is None ==> end.buffer.len() <= layout.prefix_size + MAX_RECORD_BYTES
                + layout.footer_size
        }),
    decreases chunks.len(),
{
    let start = fresh(layout, options);
    lemma_fresh_is_sound(layout, options);
    if chunks.len() == 0 {
        lemma_fresh_is_accounted(layout, options);
    } else {
        let front = chunks.drop_last();
        lemma_walked_holds_little(layout, options, front);
        lemma_walked_is_sound(start, front);
        let (middle, rows, failure) = walked(start, front);
        if failure is None {
            let later = pushed(middle, chunks.last());
            lemma_pushed_is_sound(middle, chunks.last());
            lemma_pushed_is_accounted(middle, chunks.last());
            lemma_drained_is_sound(later);
            lemma_drained_holds_little(later);
        }
    }
}

/// A walk that was drained after each chunk has nothing left to give.
proof fn lemma_nothing_left(layout: LayoutModel, options: DecodeOptions, chunks: Seq<Seq<u8>>)
    requires
        decodable(layout),
        all_bytes(chunks).len() <= usize::MAX,
        walked(fresh(layout, options), chunks).2 is None,
    ensures
        drained(walked(fresh(layout, options), chunks).0).1 == Seq::<RecordRowModel>::empty(),
        drained(walked(fresh(layout, options), chunks).0).2 is None,
{
    let start = fresh(layout, options);
    lemma_fresh_is_sound(layout, options);
    if chunks.len() == 0 {
        lemma_record_takes_bytes(past_header(start));
    } else {
        let front = chunks.drop_last();
        lemma_walked_is_sound(start, front);
        let middle = walked(start, front).0;
        lemma_pushed_is_sound(middle, chunks.last());
        lemma_drained_is_empty(pushed(middle, chunks.last()));
    }
}

} // verus!
