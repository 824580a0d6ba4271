//! The incremental record walker.
//!
//! This is where "the live stream is the product" is implemented, and it is a
//! state machine rather than a loop over a buffer so that it can be true:
//! [`RecordStream::push`] appends whatever bytes have arrived and
//! [`RecordStream::next_record`] hands back one record at a time, as soon as
//! that record's last byte is present and never later. The caller awaits the
//! send of each row before asking for the next, so a slow consumer applies
//! backpressure to the parse instead of building a queue.
//!
//! Nothing here is async and nothing here touches the network, which is what
//! makes the streaming contract testable without a socket. A walk's state is
//! modelled by [`Walk`], and each method's contract is a function on it.

pub mod cells;
pub mod laws;
pub mod meaning;
pub mod runs;

use vstd::prelude::*;
use vstd::slice::slice_subrange;
use crate::codec::Codec;
use crate::decode::{FieldContent, FieldValue};
use crate::error::{outcome, Failure, ParseError};
use crate::layout::{decodable, field_decodable, optional_width, selected_schema, Field, Layout,
    LayoutModel, RecordLayout, RecordLayoutModel, MAX_RECORD_BYTES};
use crate::proto::v1::{Cell, CellModel, ParseStatus, ParseStatusModel, ParseWarning,
    ParseWarningModel, RecordRow, RecordRowModel, RowCount, RowCountModel, WarningCode};
use crate::stream::cells::{cells_of, decode_cells, decode_field, field_content};
use crate::stream::laws::{lemma_fresh_is_accounted, lemma_next_is_accounted,
    lemma_pushed_is_accounted};
use crate::text::{cat4, cat5, cat7, decimal, decimal_text, parse_signed, quote, quoted, same,
    signed_decimal, signed_number, signed_text, trim, trimmed};

verus! {

/// Decoder settings that do not come from the layout.
#[derive(Debug, Clone, Copy)]
pub struct DecodeOptions {
    /// Code page character data is decoded with.
    pub codec: Codec,
    /// Whether to drop Unicode control characters from character data.
    pub strip_control_characters: bool,
    /// Stop after this many records; zero reads them all.
    pub max_records: u64,
    /// Fail the stream on a trailing partial record instead of warning.
    pub abort_on_error: bool,
}

/// The state of a walk.
#[verifier::ext_equal]
pub struct Walk {
    /// The validated layout.
    pub layout: LayoutModel,
    /// Decoder settings.
    pub options: DecodeOptions,
    /// Bytes received but not yet consumed.
    pub buffer: Seq<u8>,
    /// Absolute offset of the first byte of the buffer within the input.
    pub base: int,
    /// Total bytes received so far.
    pub received: int,
    /// Header bytes still to skip.
    pub header_left: int,
    /// Records emitted so far.
    pub kept: int,
    /// Rows emitted per schema name.
    pub rows: Seq<RowCountModel>,
    /// Whether the requested number of records has been reached.
    pub truncated: bool,
    /// Whether the client's half of the stream has ended.
    pub finished: bool,
}

/// Where a name stands in a list of row counts, from `from` on.
pub open spec fn count_of(rows: Seq<RowCountModel>, name: Seq<char>, from: int) -> int
    decreases rows.len() - from,
{
    if from >= rows.len() {
        rows.len() as int
    } else if rows[from].record_type == name {
        from
    } else {
        count_of(rows, name, from + 1)
    }
}

/// A zero count for each name of the first `k` schemas, every name once.
pub open spec fn zero_counts(records: Seq<RecordLayoutModel>, k: int) -> Seq<RowCountModel>
    decreases k,
{
    if k <= 0 {
        Seq::empty()
    } else {
        let before = zero_counts(records, k - 1);
        let name = records[k - 1].name;
        if count_of(before, name, 0) < before.len() {
            before
        } else {
            before.push(RowCountModel { record_type: name, rows: 0 })
        }
    }
}

/// The state of a walk that has not received a byte.
pub open spec fn fresh(layout: LayoutModel, options: DecodeOptions) -> Walk {
    Walk {
        layout,
        options,
        buffer: Seq::empty(),
        base: 0,
        received: 0,
        header_left: layout.header_size as int,
        kept: 0,
        rows: zero_counts(layout.records, layout.records.len() as int),
        truncated: false,
        finished: false,
    }
}

/// A walk that has received a chunk of input. Once the requested number of
/// records has been reached the bytes are counted and dropped.
pub open spec fn pushed(walk: Walk, chunk: Seq<u8>) -> Walk {
    let received = walk.received + chunk.len();
    if walk.truncated {
        Walk { received, base: received, buffer: Seq::empty(), ..walk }
    } else {
        Walk { received, buffer: walk.buffer + chunk, ..walk }
    }
}

/// The absolute offset one past the last byte that is certainly not part of
/// the trailing footer: the footer is the last bytes of the input, so any byte
/// further than its size from the end received so far is data.
pub open spec fn data_end(walk: Walk) -> int {
    if walk.received <= walk.layout.footer_size {
        0
    } else {
        walk.received - walk.layout.footer_size
    }
}

/// How many bytes of the buffer can be decoded right now.
pub open spec fn available(walk: Walk) -> int {
    if data_end(walk) <= walk.base {
        0
    } else {
        data_end(walk) - walk.base
    }
}

/// A walk that has consumed bytes from the front of the buffer.
pub open spec fn consumed(walk: Walk, count: int) -> Walk {
    Walk { buffer: walk.buffer.skip(count), base: walk.base + count, ..walk }
}

/// A walk that has skipped as much of the header as has arrived.
pub open spec fn past_header(walk: Walk) -> Walk {
    let skip = if walk.header_left < available(walk) {
        walk.header_left
    } else {
        available(walk)
    };
    Walk { header_left: walk.header_left - skip, ..consumed(walk, skip) }
}

/// The total length the prefix of the record at the front declares, when the
/// layout has a record-length field.
pub open spec fn declared_length(walk: Walk) -> Result<Option<int>, Failure> {
    match walk.layout.record_length_field {
        None => Ok(None),
        Some(field) => match field_content(
            field,
            walk.buffer.subrange(0, field.size as int),
            walk.options,
        ) {
            Err(failure) => Err(failure),
            Ok(FieldContent::Number { unscaled, .. }) => Ok(Some(unscaled)),
            Ok(FieldContent::Text(text)) => {
                let number = signed_number(trimmed(text));
                if number matches Some(n) && i128::MIN <= n <= i128::MAX {
                    Ok(number)
                } else {
                    Err(
                        Failure::Invalid(
                            "record length field "@ + quoted(field.name) + " holds "@ + quoted(text)
                                + " at byte "@ + decimal(walk.base as nat)
                                + ", which is not a number"@,
                        ),
                    )
                }
            },
        },
    }
}

/// The record type the prefix of the record at the front holds, when the
/// layout has a record-type field.
pub open spec fn record_type(walk: Walk) -> Result<Option<Seq<char>>, Failure> {
    match walk.layout.record_type_field {
        None => Ok(None),
        Some(field) => {
            let start = optional_width(walk.layout.record_length_field);
            match field_content(
                field,
                walk.buffer.subrange(start as int, start + field.size),
                walk.options,
            ) {
                Err(failure) => Err(failure),
                Ok(content) => Ok(Some(content.display())),
            }
        },
    }
}

/// The text of an optional record type.
pub open spec fn type_text(value: Option<Seq<char>>) -> Seq<char> {
    match value {
        Some(text) => text,
        None => Seq::empty(),
    }
}

/// How long the body of a record is, given the length its prefix declares.
pub open spec fn body_size(walk: Walk, schema: int, declared: Option<int>) -> Result<int, Failure> {
    let at = "record at byte "@ + decimal(walk.base as nat);
    let size = match declared {
        None => walk.layout.records[schema].size as int,
        Some(length) => length - walk.layout.prefix_size,
    };
    if size < 0 {
        Err(
            Failure::Invalid(
                at + " declares length "@ + signed_decimal(declared->Some_0)
                    + ", shorter than its own "@ + decimal(walk.layout.prefix_size as nat)
                    + "-byte prefix"@,
            ),
        )
    } else if size > usize::MAX {
        Err(Failure::Invalid(at + " declares an unusable length "@ + decimal(size as nat)))
    } else if size > MAX_RECORD_BYTES {
        Err(
            Failure::Unsupported(
                at + " declares a "@ + decimal(size as nat)
                    + "-byte body; this build decodes records up to 16777216 bytes"@,
            ),
        )
    } else {
        Ok(size)
    }
}

/// What the prefix of the record at the front says: which schema the record
/// has, and how long its body is.
pub open spec fn prefix_of(walk: Walk) -> Result<(int, int), Failure> {
    match declared_length(walk) {
        Err(failure) => Err(failure),
        Ok(declared) => match record_type(walk) {
            Err(failure) => Err(failure),
            Ok(value) => {
                let schema = selected_schema(walk.layout, value);
                if schema >= walk.layout.records.len() {
                    Err(
                        Failure::Invalid(
                            "no record schema has selector "@ + quoted(type_text(value))
                                + " (record at byte "@ + decimal(walk.base as nat) + ")"@,
                        ),
                    )
                } else {
                    match body_size(walk, schema, declared) {
                        Err(failure) => Err(failure),
                        Ok(size) => Ok((schema, size)),
                    }
                }
            },
        },
    }
}

/// The row of the record at the front, given its cells.
pub open spec fn row_of(walk: Walk, schema: int, total: int, cells: Seq<CellModel>) -> RecordRowModel {
    let name = walk.layout.records[schema].name;
    RecordRowModel {
        record_type: name,
        row_index: walk.rows[count_of(walk.rows, name, 0)].rows,
        record_index: walk.kept as u64,
        byte_offset: walk.base as u64,
        byte_length: total as u64,
        cells,
    }
}

/// Row counts with one more row for a name.
pub open spec fn counted(rows: Seq<RowCountModel>, name: Seq<char>) -> Seq<RowCountModel> {
    let at = count_of(rows, name, 0);
    rows.update(at, RowCountModel { record_type: name, rows: (rows[at].rows + 1) as u64 })
}

/// A walk that has emitted the record at the front. With the requested number
/// of records the walk is over and drops what it holds.
pub open spec fn emitted(walk: Walk, schema: int, total: int) -> Walk {
    let kept = walk.kept + 1;
    let rows = counted(walk.rows, walk.layout.records[schema].name);
    if walk.options.max_records != 0 && kept >= walk.options.max_records {
        Walk {
            kept,
            rows,
            truncated: true,
            base: walk.received,
            buffer: Seq::empty(),
            ..walk
        }
    } else {
        Walk { kept, rows, ..consumed(walk, total) }
    }
}

/// What asking for the next record does and gives: the walk behind the header,
/// with the record at its front emitted when all of its bytes are there.
pub open spec fn next(walk: Walk) -> (Walk, Result<Option<RecordRowModel>, Failure>) {
    let ready = past_header(walk);
    let prefix = walk.layout.prefix_size as int;
    if walk.truncated {
        (walk, Ok(None))
    } else if ready.header_left > 0 || available(ready) < prefix || available(ready) == 0 {
        (ready, Ok(None))
    } else {
        match prefix_of(ready) {
            Err(failure) => (ready, Err(failure)),
            Ok((schema, size)) => {
                let total = prefix + size;
                let record = ready.layout.records[schema];
                if available(ready) < total {
                    (ready, Ok(None))
                } else {
                    match cells_of(
                        record,
                        ready.buffer.subrange(prefix, total),
                        ready.options,
                        record.fields.len() as int,
                    ) {
                        Err(failure) => (ready, Err(failure)),
                        Ok(cells) => (
                            emitted(ready, schema, total),
                            Ok(Some(row_of(ready, schema, total, cells))),
                        ),
                    }
                }
            },
        }
    }
}

/// How many bytes in front of the footer are left over.
pub open spec fn leftover(walk: Walk) -> int {
    available(walk)
}

/// The one thing the trailer warns about, if any.
pub open spec fn warning_of(walk: Walk) -> Option<ParseWarningModel> {
    if walk.received < walk.layout.header_size + walk.layout.footer_size {
        Some(
            ParseWarningModel {
                code: WarningCode::InputShorterThanBoundaries.number(),
                message: "the input is "@ + decimal(walk.received as nat)
                    + " bytes, shorter than the "@ + decimal(walk.layout.header_size as nat)
                    + "-byte header plus "@ + decimal(walk.layout.footer_size as nat)
                    + "-byte footer the layout declares"@,
                byte_offset: walk.received as u64,
            },
        )
    } else if walk.truncated {
        Some(
            ParseWarningModel {
                code: WarningCode::MaxRecordsReached.number(),
                message: "stopped after "@ + decimal(walk.kept as nat) + " records; "@ + decimal(
                    (walk.received - walk.base) as nat,
                ) + " bytes of input were not decoded"@,
                byte_offset: walk.base as u64,
            },
        )
    } else if leftover(walk) > 0 {
        Some(
            ParseWarningModel {
                code: WarningCode::TrailingPartialRecord.number(),
                message: partial_message(walk),
                byte_offset: walk.base as u64,
            },
        )
    } else {
        None
    }
}

/// What is said of an input that ends inside a record.
pub open spec fn partial_message(walk: Walk) -> Seq<char> {
    "the input ends inside a record: "@ + decimal(leftover(walk) as nat)
        + " bytes after the last whole record at byte "@ + decimal(walk.base as nat)
}

/// Whether the input ends inside a record.
pub open spec fn ends_inside_a_record(walk: Walk) -> bool {
    &&& walk.received >= walk.layout.header_size + walk.layout.footer_size
    &&& !walk.truncated
    &&& leftover(walk) > 0
}

/// The trailer of a walk, or the failure it ends with instead.
pub open spec fn status_of(walk: Walk) -> Result<ParseStatusModel, Failure> {
    if ends_inside_a_record(walk) && walk.options.abort_on_error {
        Err(Failure::Invalid(partial_message(walk)))
    } else {
        Ok(
            ParseStatusModel {
                records_kept: walk.kept as u64,
                bytes_received: walk.received as u64,
                bytes_consumed: walk.base as u64,
                trailing_bytes: leftover(walk) as u64,
                truncated: walk.truncated,
                warnings: match warning_of(walk) {
                    Some(warning) => seq![warning],
                    None => Seq::empty(),
                },
                rows_per_record_type: walk.rows,
            },
        )
    }
}

/// What holds of every walk.
pub open spec fn sound(walk: Walk) -> bool {
    &&& decodable(walk.layout)
    &&& 0 <= walk.base
    &&& walk.base + walk.buffer.len() == walk.received
    &&& walk.received <= u64::MAX
    &&& walk.buffer.len() <= usize::MAX
    &&& 0 <= walk.header_left <= walk.layout.header_size
    &&& 0 <= walk.kept <= walk.base
    &&& walk.truncated ==> walk.buffer.len() == 0
    &&& forall|i: int| 0 <= i < walk.rows.len() ==> (#[trigger] walk.rows[i]).rows <= walk.kept
    &&& forall|i: int|
        0 <= i < walk.layout.records.len() ==> count_of(
            walk.rows,
            (#[trigger] walk.layout.records[i]).name,
            0,
        ) < walk.rows.len()
}

/// How many rows the counts add up to, over the first `k` of them.
pub open spec fn row_sum(rows: Seq<RowCountModel>, k: int) -> int
    decreases k,
{
    if k <= 0 {
        0
    } else {
        row_sum(rows, k - 1) + rows[k - 1].rows
    }
}

/// Whether row counts are kept under the names of schemas, as they were
/// started.
pub open spec fn counts_schemas(rows: Seq<RowCountModel>, records: Seq<RecordLayoutModel>) -> bool {
    let start = zero_counts(records, records.len() as int);
    &&& rows.len() == start.len()
    &&& forall|i: int|
        0 <= i < rows.len() ==> (#[trigger] rows[i]).record_type == start[i].record_type
}

/// How the parts of every walk hang together between two calls: the row counts
/// add up to the records emitted, the walk is over exactly when the requested
/// number of them was reached, and it stands behind the header, or as far in it
/// as it got, and never in the footer.
pub open spec fn accounted(walk: Walk) -> bool {
    &&& counts_schemas(walk.rows, walk.layout.records)
    &&& row_sum(walk.rows, walk.rows.len() as int) == walk.kept
    &&& walk.truncated <==> walk.options.max_records != 0 && walk.kept
        == walk.options.max_records
    &&& walk.options.max_records != 0 ==> walk.kept <= walk.options.max_records
    &&& !walk.truncated ==> {
        &&& walk.base <= data_end(walk)
        &&& walk.kept == 0 ==> walk.base == walk.layout.header_size - walk.header_left
        &&& walk.kept > 0 ==> walk.header_left == 0
    }
}

/// An incremental walk over an EBCDIC byte stream.
pub struct RecordStream {
    /// The validated layout.
    layout: Layout,
    /// Decoder settings.
    options: DecodeOptions,
    /// Bytes received but not yet consumed.
    buffer: Vec<u8>,
    /// Absolute offset of `buffer[0]` within the input.
    buffer_base: u64,
    /// Total bytes received so far.
    received: u64,
    /// Header bytes still to skip.
    header_left: u64,
    /// Records emitted so far.
    records_kept: u64,
    /// Rows emitted per schema name.
    rows_per_type: Vec<RowCount>,
    /// Whether `max_records` has been reached.
    truncated: bool,
    /// Whether the client's half of the stream has ended.
    input_finished: bool,
}

impl View for RecordStream {
    type V = Walk;

    closed spec fn view(&self) -> Walk {
        Walk {
            layout: self.layout.deep_view(),
            options: self.options,
            buffer: self.buffer@,
            base: self.buffer_base as int,
            received: self.received as int,
            header_left: self.header_left as int,
            kept: self.records_kept as int,
            rows: self.rows_per_type.deep_view(),
            truncated: self.truncated,
            finished: self.input_finished,
        }
    }
}

/// A place found lies within the list, and holds the name.
pub proof fn lemma_count_of(rows: Seq<RowCountModel>, name: Seq<char>, from: int)
    requires
        0 <= from <= rows.len(),
    ensures
        from <= count_of(rows, name, from) <= rows.len(),
        count_of(rows, name, from) < rows.len() ==> rows[count_of(rows, name, from)].record_type
            == name,
    decreases rows.len() - from,
{
    if from < rows.len() && rows[from].record_type != name {
        lemma_count_of(rows, name, from + 1);
    }
}

/// Lists with the same names have them in the same places.
pub proof fn lemma_same_names(
    a: Seq<RowCountModel>,
    b: Seq<RowCountModel>,
    name: Seq<char>,
    from: int,
)
    requires
        0 <= from <= a.len() <= b.len(),
        forall|i: int|
            0 <= i < a.len() ==> (#[trigger] a[i]).record_type == b[i].record_type,
    ensures
        count_of(a, name, from) < a.len() ==> count_of(b, name, from) == count_of(a, name, from),
        a.len() == b.len() ==> count_of(b, name, from) == count_of(a, name, from),
    decreases a.len() - from,
{
    if from < a.len() {
        if a[from].record_type != name {
            lemma_same_names(a, b, name, from + 1);
        }
    }
}

/// Every schema of the first `k` has a count of zero.
pub proof fn lemma_zero_counts(records: Seq<RecordLayoutModel>, k: int)
    requires
        0 <= k <= records.len(),
    ensures
        forall|i: int| 0 <= i < zero_counts(records, k).len() ==> (#[trigger] zero_counts(
            records,
            k,
        )[i]).rows == 0,
        forall|i: int|
            0 <= i < k ==> count_of(zero_counts(records, k), (#[trigger] records[i]).name, 0)
                < zero_counts(records, k).len(),
    decreases k,
{
    if k > 0 {
        lemma_zero_counts(records, k - 1);
        let before = zero_counts(records, k - 1);
        let now = zero_counts(records, k);
        let name = records[k - 1].name;
        assert forall|i: int| 0 <= i < k implies count_of(now, (#[trigger] records[i]).name, 0)
            < now.len() by {
            lemma_same_names(before, now, records[i].name, 0);
            if i == k - 1 && count_of(before, name, 0) >= before.len() {
                lemma_count_past(now, name, 0, before.len() as int);
            }
        }
    }
}

/// A name is found at or before a place that holds it.
proof fn lemma_count_past(rows: Seq<RowCountModel>, name: Seq<char>, from: int, at: int)
    requires
        0 <= from <= at < rows.len(),
        rows[at].record_type == name,
    ensures
        count_of(rows, name, from) <= at,
    decreases at - from,
{
    if from < at && rows[from].record_type != name {
        lemma_count_past(rows, name, from + 1, at);
    }
}

/// Find a name in a list of row counts.
fn find_count(rows: &Vec<RowCount>, name: &str) -> (r: usize)
    ensures
        r == count_of(rows.deep_view(), name@, 0),
        r <= rows@.len(),
{
    let ghost models = rows.deep_view();
    let mut i: usize = 0;
    while i < rows.len()
        invariant
            i <= rows@.len(),
            models == rows.deep_view(),
            count_of(models, name@, 0) == count_of(models, name@, i as int),
        decreases rows@.len() - i,
    {
        proof {
            assert(models[i as int] == rows@[i as int].deep_view());
        }
        if same(&rows[i].record_type, name) {
            return i;
        }
        i = i + 1;
    }
    i
}

/// Start the row counts of a layout.
fn start_counts(records: &Vec<RecordLayout>) -> (r: Vec<RowCount>)
    ensures
        r.deep_view() == zero_counts(records.deep_view(), records@.len() as int),
{
    let ghost models = records.deep_view();
    let mut out: Vec<RowCount> = Vec::new();
    let mut k: usize = 0;
    proof {
        assert(out.deep_view() =~= zero_counts(models, 0));
    }
    while k < records.len()
        invariant
            k <= records@.len(),
            models == records.deep_view(),
            out.deep_view() == zero_counts(models, k as int),
        decreases records@.len() - k,
    {
        let ghost before = out.deep_view();
        let name: &String = &records[k].name;
        proof {
            assert(models[k as int] == records@[k as int].deep_view());
        }
        if find_count(&out, name) == out.len() {
            out.push(RowCount { record_type: name.clone(), rows: 0 });
            proof {
                assert(out.deep_view() =~= before.push(
                    RowCountModel { record_type: name@, rows: 0 },
                ));
            }
        }
        k = k + 1;
    }
    out
}

impl RecordStream {
    /// What holds of every walk between two calls.
    pub open spec fn wf(&self) -> bool {
        &&& sound(self@)
        &&& accounted(self@)
    }

    /// Start a walk over a validated layout.
    pub fn new(layout: Layout, options: DecodeOptions) -> (r: Self)
        requires
            decodable(layout.deep_view()),
        ensures
            r.wf(),
            r@ == fresh(layout.deep_view(), options),
    {
        let rows_per_type: Vec<RowCount> = start_counts(&layout.records);
        let header_left: u64 = layout.header_size as u64;
        proof {
            lemma_zero_counts(layout.deep_view().records, layout.records@.len() as int);
            lemma_fresh_is_accounted(layout.deep_view(), options);
        }
        RecordStream {
            layout,
            options,
            buffer: Vec::new(),
            buffer_base: 0,
            received: 0,
            header_left,
            records_kept: 0,
            rows_per_type,
            truncated: false,
            input_finished: false,
        }
    }

    /// Append a chunk of input.
    ///
    /// Once `max_records` has been reached the bytes are counted and dropped
    /// rather than buffered: the parse is over, and holding the rest of a
    /// ten-gigabyte extract to report a byte count would be absurd.
    pub fn push(&mut self, chunk: &[u8])
        requires
            old(self).wf(),
            old(self)@.received + chunk@.len() <= u64::MAX,
            old(self)@.buffer.len() + chunk@.len() <= usize::MAX,
        ensures
            final(self).wf(),
            final(self)@ == pushed(old(self)@, chunk@),
    {
        let ghost before = self@;
        proof {
            lemma_pushed_is_accounted(before, chunk@);
        }
        self.received = self.received + chunk.len() as u64;
        if self.truncated {
            self.buffer_base = self.received;
            self.buffer.clear();
            proof {
                assert(self@ =~= pushed(before, chunk@));
            }
            return;
        }
        self.buffer.extend_from_slice(chunk);
        proof {
            assert(self.buffer@ =~= before.buffer + chunk@);
            assert(self@ =~= pushed(before, chunk@));
        }
    }

    /// Note that the client will send no more bytes.
    pub fn finish_input(&mut self)
        requires
            old(self).wf(),
        ensures
            final(self).wf(),
            final(self)@ == (Walk { finished: true, ..old(self)@ }),
    {
        self.input_finished = true;
    }

    /// Total bytes received so far.
    pub fn received(&self) -> (r: u64)
        ensures
            r == self@.received,
    {
        self.received
    }

    /// Bytes received but not yet consumed.
    pub fn buffered(&self) -> (r: usize)
        ensures
            r == self@.buffer.len(),
    {
        self.buffer.len()
    }

    /// The absolute offset one past the last byte that is certainly *not* part
    /// of the trailing footer.
    ///
    /// Correct at every point in the stream, not only at the end, which is what
    /// lets a layout with a footer still stream instead of buffering the file.
    fn decodable_end(&self) -> (r: u64)
        ensures
            r == data_end(self@),
    {
        let footer: u64 = self.layout.footer_size as u64;
        if self.received <= footer {
            0
        } else {
            self.received - footer
        }
    }

    /// Bytes available for decoding right now, starting at `buffer_base`.
    fn available(&self) -> (r: usize)
        requires
            sound(self@),
        ensures
            r == available(self@),
            r <= self.buffer@.len(),
    {
        let end: u64 = self.decodable_end();
        if end <= self.buffer_base {
            0
        } else {
            (end - self.buffer_base) as usize
        }
    }

    /// Drop consumed bytes from the front of the buffer.
    fn consume(&mut self, count: usize)
        requires
            sound(old(self)@),
            count <= old(self).buffer@.len(),
        ensures
            sound(final(self)@),
            final(self)@ == consumed(old(self)@, count as int),
    {
        let ghost before = self@;
        let rest: Vec<u8> = self.buffer.split_off(count);
        self.buffer = rest;
        self.buffer_base = self.buffer_base + count as u64;
        proof {
            assert(self@ =~= consumed(before, count as int));
        }
    }

    /// Skip as much of the header as has arrived.
    fn skip_header(&mut self)
        requires
            sound(old(self)@),
        ensures
            sound(final(self)@),
            final(self)@ == past_header(old(self)@),
    {
        let ghost before = self@;
        let here: usize = self.available();
        let skip: usize = if self.header_left < here as u64 {
            self.header_left as usize
        } else {
            here
        };
        self.consume(skip);
        self.header_left = self.header_left - skip as u64;
        proof {
            assert(self@ =~= past_header(before));
        }
    }

    /// Read the length the prefix of the record at the front declares.
    fn read_length(&self) -> (r: Result<Option<i128>, ParseError>)
        requires
            sound(self@),
            self@.buffer.len() >= self@.layout.prefix_size,
        ensures
            match r {
                Ok(length) => declared_length(self@) == Ok::<_, Failure>(
                    match length {
                        Some(n) => Some(n as int),
                        None => None,
                    },
                ),
                Err(error) => declared_length(self@) == Err::<Option<int>, _>(error@),
            },
    {
        let field: &Field = match &self.layout.record_length_field {
            None => {
                return Ok(None);
            },
            Some(field) => field,
        };
        let bytes: &[u8] = slice_subrange(self.buffer.as_slice(), 0, field.size as usize);
        match decode_field(field, bytes, &self.options) {
            Err(error) => Err(error),
            Ok(FieldValue::Number { unscaled, .. }) => Ok(Some(unscaled)),
            Ok(FieldValue::Text(text)) => match parse_signed(&trim(&text)) {
                Some(length) => Ok(Some(length)),
                None => Err(
                    ParseError::invalid(
                        cat7(
                            "record length field ",
                            &quote(&field.name),
                            " holds ",
                            &quote(&text),
                            " at byte ",
                            &decimal_text(self.buffer_base as u128),
                            ", which is not a number",
                        ),
                    ),
                ),
            },
        }
    }

    /// Read the record type the prefix of the record at the front holds.
    fn read_type(&self) -> (r: Result<Option<String>, ParseError>)
        requires
            sound(self@),
            self@.buffer.len() >= self@.layout.prefix_size,
        ensures
            outcome(r) == record_type(self@),
    {
        let field: &Field = match &self.layout.record_type_field {
            None => {
                return Ok(None);
            },
            Some(field) => field,
        };
        let start: usize = match &self.layout.record_length_field {
            None => 0,
            Some(length) => length.size as usize,
        };
        let bytes: &[u8] = slice_subrange(
            self.buffer.as_slice(),
            start,
            start + field.size as usize,
        );
        match decode_field(field, bytes, &self.options) {
            Err(error) => Err(error),
            Ok(value) => Ok(Some(value.to_display_string())),
        }
    }

    /// Work out how long the body of the record at the front is.
    fn read_body_size(&self, schema: usize, declared: Option<i128>) -> (r: Result<
        usize,
        ParseError,
    >)
        requires
            sound(self@),
            schema < self@.layout.records.len(),
        ensures
            ({
                let length = match declared {
                    Some(n) => Some(n as int),
                    None => None,
                };
                match r {
                    Ok(size) => {
                        &&& body_size(self@, schema as int, length) == Ok::<_, Failure>(size as int)
                        &&& size <= MAX_RECORD_BYTES
                    },
                    Err(error) => body_size(self@, schema as int, length) == Err::<int, _>(error@),
                }
            }),
    {
        proof {
            assert(self@.layout.records[schema as int] == self.layout.records@[schema as int].deep_view());
        }
        let prefix: i128 = self.layout.prefix_size as i128;
        let base: String = decimal_text(self.buffer_base as u128);
        let size: i128 = match declared {
            None => self.layout.records[schema].size as i128,
            Some(length) => {
                if length < prefix {
                    return Err(
                        ParseError::invalid(
                            crate::text::cat7(
                                "record at byte ",
                                &base,
                                " declares length ",
                                &signed_text(length),
                                ", shorter than its own ",
                                &decimal_text(prefix as u128),
                                "-byte prefix",
                            ),
                        ),
                    );
                }
                length - prefix
            },
        };
        if size as u128 > usize::MAX as u128 {
            return Err(
                ParseError::invalid(
                    cat4(
                        "record at byte ",
                        &base,
                        " declares an unusable length ",
                        &decimal_text(size as u128),
                    ),
                ),
            );
        }
        if size > MAX_RECORD_BYTES as i128 {
            return Err(
                ParseError::unsupported(
                    cat5(
                        "record at byte ",
                        &base,
                        " declares a ",
                        &decimal_text(size as u128),
                        "-byte body; this build decodes records up to 16777216 bytes",
                    ),
                ),
            );
        }
        Ok(size as usize)
    }

    /// Read the record prefix and resolve the schema plus the body length.
    ///
    /// Does not consume: the caller may still be short of the body, in which
    /// case the prefix has to be re-read after the next chunk.
    fn read_prefix(&self) -> (r: Result<(usize, usize), ParseError>)
        requires
            sound(self@),
            self@.buffer.len() >= self@.layout.prefix_size,
        ensures
            match r {
                Ok(found) => {
                    &&& prefix_of(self@) == Ok::<_, Failure>((found.0 as int, found.1 as int))
                    &&& found.0 < self.layout.records@.len()
                    &&& found.1 <= MAX_RECORD_BYTES
                },
                Err(error) => prefix_of(self@) == Err::<(int, int), _>(error@),
            },
    {
        let declared: Option<i128> = match self.read_length() {
            Err(error) => {
                return Err(error);
            },
            Ok(declared) => declared,
        };
        let value: Option<String> = match self.read_type() {
            Err(error) => {
                return Err(error);
            },
            Ok(value) => value,
        };
        let found: Option<usize> = match &value {
            Some(text) => self.layout.select_index(Some(text.as_str())),
            None => self.layout.select_index(None),
        };
        let schema: usize = match found {
            None => {
                let shown: String = match value {
                    Some(text) => text,
                    None => String::new(),
                };
                return Err(
                    ParseError::invalid(
                        cat5(
                            "no record schema has selector ",
                            &quote(&shown),
                            " (record at byte ",
                            &decimal_text(self.buffer_base as u128),
                            ")",
                        ),
                    ),
                );
            },
            Some(schema) => schema,
        };
        match self.read_body_size(schema, declared) {
            Err(error) => Err(error),
            Ok(size) => Ok((schema, size)),
        }
    }

    /// Decode the next record, if all of its bytes have arrived.
    ///
    /// Gives nothing when more input is needed, when the input is over, or when
    /// `max_records` has been reached. Call it in a loop after every
    /// [`Self::push`] until it gives nothing.
    pub fn next_record(&mut self) -> (r: Result<Option<RecordRow>, ParseError>)
        requires
            old(self).wf(),
        ensures
            final(self).wf(),
            (final(self)@, outcome(r)) == next(old(self)@),
    {
        proof {
            lemma_next_is_accounted(self@);
        }
        if self.truncated {
            return Ok(None);
        }
        self.skip_header();
        let ghost ready = self@;
        if self.header_left > 0 {
            return Ok(None);
        }
        let prefix: usize = self.layout.prefix_size as usize;
        let here: usize = self.available();
        // An input that ends exactly on a record boundary has nothing left, and
        // a zero-length prefix must not be mistaken for one more record.
        if here < prefix || here == 0 {
            return Ok(None);
        }
        let (schema, size): (usize, usize) = match self.read_prefix() {
            Err(error) => {
                return Err(error);
            },
            Ok(found) => found,
        };
        if size > here || prefix > here - size {
            return Ok(None);
        }
        let total: usize = prefix + size;
        let ghost record = ready.layout.records[schema as int];
        proof {
            assert(record == self.layout.records@[schema as int].deep_view());
            assert forall|k: int|
                0 <= k < self.layout.records@[schema as int].fields@.len() implies field_decodable(
                (#[trigger] self.layout.records@[schema as int].fields@[k]).deep_view(),
            ) by {
                assert(ready.layout.records[schema as int].fields[k]
                    == self.layout.records@[schema as int].fields@[k].deep_view());
            }
        }
        let body: &[u8] = slice_subrange(self.buffer.as_slice(), prefix, total);
        let cells: Vec<Cell> = match decode_cells(
            &self.layout.records[schema],
            body,
            &self.options,
        ) {
            Err(error) => {
                return Err(error);
            },
            Ok(cells) => cells,
        };
        let name: String = self.layout.records[schema].name.clone();
        let at: usize = find_count(&self.rows_per_type, &name);
        proof {
            assert(self.rows_per_type.deep_view()[at as int]
                == self.rows_per_type@[at as int].deep_view());
        }
        let row: RecordRow = RecordRow {
            record_type: name.clone(),
            row_index: self.rows_per_type[at].rows,
            record_index: self.records_kept,
            byte_offset: self.buffer_base,
            byte_length: total as u64,
            cells,
        };
        self.count_record(schema, at, name, total);
        Ok(Some(row))
    }

    /// Step over the record at the front and count it.
    fn count_record(&mut self, schema: usize, at: usize, name: String, total: usize)
        requires
            sound(old(self)@),
            schema < old(self)@.layout.records.len(),
            name@ == old(self)@.layout.records[schema as int].name,
            at == count_of(old(self)@.rows, name@, 0),
            0 < total <= old(self)@.buffer.len(),
        ensures
            sound(final(self)@),
            final(self)@ == emitted(old(self)@, schema as int, total as int),
    {
        let ghost before = self@;
        let ghost rows = before.rows;
        proof {
            lemma_count_of(rows, name@, 0);
            assert(rows[at as int] == self.rows_per_type@[at as int].deep_view());
        }
        self.consume(total);
        self.records_kept = self.records_kept + 1;
        let counted_rows: u64 = self.rows_per_type[at].rows + 1;
        self.rows_per_type.set(at, RowCount { record_type: name, rows: counted_rows });
        proof {
            let now = self.rows_per_type.deep_view();
            assert(now =~= counted(rows, name@));
            assert forall|i: int| 0 <= i < before.layout.records.len() implies count_of(
                now,
                (#[trigger] before.layout.records[i]).name,
                0,
            ) < now.len() by {
                lemma_same_names(rows, now, before.layout.records[i].name, 0);
            }
        }
        if self.options.max_records != 0 && self.records_kept >= self.options.max_records {
            self.truncated = true;
            self.buffer_base = self.received;
            self.buffer.clear();
        }
        proof {
            assert(self@ =~= emitted(before, schema as int, total as int));
        }
    }

    /// Build the trailer once the input is over and no record is left.
    pub fn status(&self) -> (r: Result<ParseStatus, ParseError>)
        requires
            self.wf(),
            self@.finished,
        ensures
            outcome(r) == status_of(self@),
    {
        let left: usize = self.available();
        let mut warnings: Vec<ParseWarning> = Vec::new();
        let ghost walk = self@;
        proof {
            assert(warnings.deep_view() =~= Seq::<ParseWarningModel>::empty());
        }
        let boundaries: u64 = self.layout.header_size as u64 + self.layout.footer_size as u64;
        if self.received < boundaries {
            warnings.push(
                ParseWarning {
                    code: WarningCode::InputShorterThanBoundaries.number(),
                    message: cat7(
                        "the input is ",
                        &decimal_text(self.received as u128),
                        " bytes, shorter than the ",
                        &decimal_text(self.layout.header_size as u128),
                        "-byte header plus ",
                        &decimal_text(self.layout.footer_size as u128),
                        "-byte footer the layout declares",
                    ),
                    byte_offset: self.received,
                },
            );
        } else if self.truncated {
            warnings.push(
                ParseWarning {
                    code: WarningCode::MaxRecordsReached.number(),
                    message: cat5(
                        "stopped after ",
                        &decimal_text(self.records_kept as u128),
                        " records; ",
                        &decimal_text((self.received - self.buffer_base) as u128),
                        " bytes of input were not decoded",
                    ),
                    byte_offset: self.buffer_base,
                },
            );
        } else if left > 0 {
            let message: String = cat4(
                "the input ends inside a record: ",
                &decimal_text(left as u128),
                " bytes after the last whole record at byte ",
                &decimal_text(self.buffer_base as u128),
            );
            if self.options.abort_on_error {
                return Err(ParseError::invalid(message));
            }
            warnings.push(
                ParseWarning {
                    code: WarningCode::TrailingPartialRecord.number(),
                    message,
                    byte_offset: self.buffer_base,
                },
            );
        }
        proof {
            match warning_of(walk) {
                Some(warning) => {
                    assert(warnings.deep_view() =~= seq![warning]);
                },
                None => {},
            }
        }
        Ok(
            ParseStatus {
                records_kept: self.records_kept,
                bytes_received: self.received,
                bytes_consumed: self.buffer_base,
                trailing_bytes: left as u64,
                truncated: self.truncated,
                warnings,
                rows_per_record_type: copy_counts(&self.rows_per_type),
            },
        )
    }
}

/// Copy row counts.
fn copy_counts(rows: &Vec<RowCount>) -> (r: Vec<RowCount>)
    ensures
        r.deep_view() == rows.deep_view(),
{
    let mut out: Vec<RowCount> = Vec::new();
    let mut i: usize = 0;
    while i < rows.len()
        invariant
            i <= rows@.len(),
            out@.len() == i,
            forall|j: int|
                0 <= j < i ==> (#[trigger] out@[j]).deep_view() == rows@[j].deep_view(),
        decreases rows@.len() - i,
    {
        out.push(RowCount { record_type: rows[i].record_type.clone(), rows: rows[i].rows });
        i = i + 1;
    }
    proof {
        assert(out.deep_view() =~= rows.deep_view());
    }
    out
}

} // verus!
