//! What a row says about the bytes it was read from.

use vstd::prelude::*;
use crate::decode::{distance, FieldContent};
use crate::decode::laws::{halves, is_scientific, is_text, is_written_out, law_binary_is_big_endian,
    law_how_a_number_is_written, law_packed_is_decimal, law_text_is_its_characters,
    law_zoned_is_decimal, low_halves, numbers, power, weighed};
use crate::error::Failure;
use crate::layout::{optional_width, selected_schema, FieldKind, FieldModel, RecordLayoutModel};
use crate::proto::v1::{CellModel, FieldType, ParseWarningModel, RecordRowModel, WarningCode};
use crate::proto::v1::cell::ValueModel;
use crate::stream::{accounted, available, body_size, declared_length, next, past_header, prefix_of,
    record_type, sound, status_of, warning_of, DecodeOptions, Walk};
use crate::stream::cells::{cell_of, cell_value, cells_of, field_content};
use crate::stream::laws::{cell_fields, lemma_record_takes_bytes};
use crate::text::{decimal, quoted, signed_number, trimmed};
use crate::text::laws::{lemma_mentions, lemma_mentions_neighbours, mentions, run_together};

verus! {

/// The number that the bytes of a numeric field hold: the sum of the bytes by
/// place, as two's complement where the kind is signed binary, or the sum of
/// the decimal digits by place, with the sign that stands among them.
pub open spec fn number_in(kind: FieldKind, bytes: Seq<u8>) -> int {
    match kind {
        FieldKind::UnsignedInteger => weighed(numbers(bytes), 256),
        FieldKind::Integer => weighed(numbers(bytes), 256) - if bytes[0] >= 128 {
            power(256, bytes.len()) as int
        } else {
            0
        },
        FieldKind::PackedDecimal => {
            let sum = weighed(halves(bytes).drop_last(), 10);
            let sign = halves(bytes).last();
            if sign == 11 || sign == 13 {
                -sum
            } else {
                sum
            }
        },
        FieldKind::ZonedDecimal => {
            let sum = weighed(low_halves(bytes), 10);
            let sign = bytes.last() as int / 16;
            if sign == 11 || sign == 13 {
                -sum
            } else {
                sum
            }
        },
        _ => 0,
    }
}

/// Whether a text is a number of a scale as people write it.
pub open spec fn is_number(text: Seq<char>, unscaled: int, scale: nat) -> bool {
    if scale >= 7 && distance(unscaled) < power(10, (scale - 6) as nat) {
        is_scientific(text, unscaled, scale)
    } else {
        is_written_out(text, unscaled, scale)
    }
}

/// Whether the value of a cell is a number of a scale: a whole number that 64
/// bits hold as an integer, and any other one as a decimal, whose text is the
/// number and which carries the number without its point where 64 bits hold it.
pub open spec fn is_valued(value: ValueModel, unscaled: int, scale: u32) -> bool {
    let fits = -0x8000_0000_0000_0000 <= unscaled <= 0x7fff_ffff_ffff_ffff;
    match value {
        ValueModel::Integer(integer) => scale == 0 && integer == unscaled,
        ValueModel::Decimal(decimal) => {
            &&& !(scale == 0 && fits)
            &&& decimal.scale == scale
            &&& is_number(decimal.text, unscaled, scale as nat)
            &&& fits ==> decimal.unscaled == Some(unscaled as i64)
            &&& !fits ==> decimal.unscaled is None
        },
        ValueModel::Text(_) => false,
    }
}

/// Whether a cell says what the bytes of its field hold: text for a text field,
/// and for each kind of numeric field the number that its bytes are.
pub open spec fn says(
    cell: CellModel,
    field: FieldModel,
    bytes: Seq<u8>,
    options: DecodeOptions,
) -> bool {
    &&& cell.name == field.name
    &&& match field.kind {
        FieldKind::Text => {
            &&& cell.value matches Some(ValueModel::Text(text))
            &&& is_text(options.codec.page(), bytes, options.strip_control_characters, text)
            &&& cell.field_type == FieldType::String.number()
        },
        FieldKind::Skip => false,
        kind => {
            &&& cell.value matches Some(value)
            &&& is_valued(value, number_in(kind, bytes), field.scale)
            &&& cell.field_type == (match kind {
                FieldKind::UnsignedInteger => FieldType::UnsignedInteger.number(),
                FieldKind::Integer => FieldType::Integer.number(),
                FieldKind::PackedDecimal => FieldType::PackedDecimal.number(),
                _ => FieldType::ZonedDecimal.number(),
            })
        },
    }
}

/// Whether a cell says what the bytes of its field in a record body hold: those
/// from the field's offset on, as many as the field is wide.
pub open spec fn says_of(
    cell: CellModel,
    field: FieldModel,
    body: Seq<u8>,
    options: DecodeOptions,
) -> bool {
    &&& field.offset + field.size <= body.len()
    &&& says(
        cell,
        field,
        body.subrange(field.offset as int, field.offset + field.size),
        options,
    )
}

/// What the bytes of a field hold.
proof fn lemma_field_content(field: FieldModel, bytes: Seq<u8>, options: DecodeOptions)
    requires
        field_content(field, bytes, options) is Ok,
    ensures
        match field_content(field, bytes, options)->Ok_0 {
            FieldContent::Text(text) => {
                ||| field.kind == FieldKind::Skip && text.len() == 0
                ||| field.kind == FieldKind::Text && is_text(
                    options.codec.page(),
                    bytes,
                    options.strip_control_characters,
                    text,
                )
            },
            FieldContent::Number { unscaled, scale } => {
                &&& field.kind != FieldKind::Text && field.kind != FieldKind::Skip
                &&& unscaled == number_in(field.kind, bytes)
                &&& scale == field.scale
            },
        },
{
    law_text_is_its_characters(options.codec.page(), bytes, options.strip_control_characters);
    law_binary_is_big_endian(bytes, true);
    law_binary_is_big_endian(bytes, false);
    law_packed_is_decimal(bytes);
    law_zoned_is_decimal(bytes);
}

/// A cell says what the bytes of its field hold: those from the field's offset
/// in the record body on, as many as the field is wide. In particular an
/// unsigned field is never negative, whatever its first byte.
pub proof fn law_a_cell_says_what_its_bytes_hold(
    record: RecordLayoutModel,
    field: FieldModel,
    body: Seq<u8>,
    options: DecodeOptions,
)
    requires
        field.kind != FieldKind::Skip,
    ensures
        cell_of(record, field, body, options) matches Ok(cell) ==> says_of(
            cell,
            field,
            body,
            options,
        ),
{
    if cell_of(record, field, body, options) is Ok {
        let bytes = body.subrange(field.offset as int, field.offset + field.size);
        lemma_field_content(field, bytes, options);
        if let FieldContent::Number { unscaled, scale } = field_content(field, bytes, options)->Ok_0 {
            law_how_a_number_is_written(unscaled, scale as nat);
            assert(is_valued(cell_value(FieldContent::Number { unscaled, scale }), unscaled, scale));
        }
    }
}

/// The cells of a record say, one by one, what the bytes of its fields hold,
/// those of its fillers left out.
pub proof fn law_cells_say_what_the_record_holds(
    record: RecordLayoutModel,
    body: Seq<u8>,
    options: DecodeOptions,
    k: int,
)
    requires
        0 <= k <= record.fields.len(),
    ensures
        cells_of(record, body, options, k) matches Ok(cells) ==> {
            let fields = cell_fields(record.fields, k);
            &&& cells.len() == fields.len()
            &&& forall|j: int|
                0 <= j < cells.len() ==> says_of(#[trigger] cells[j], fields[j], body, options)
        },
    decreases k,
{
    if k > 0 {
        law_cells_say_what_the_record_holds(record, body, options, k - 1);
        if record.fields[k - 1].kind != FieldKind::Skip {
            law_a_cell_says_what_its_bytes_hold(record, record.fields[k - 1], body, options);
        }
        if let Ok(cells) = cells_of(record, body, options, k) {
            let before = cells_of(record, body, options, k - 1)->Ok_0;
            let fields = cell_fields(record.fields, k);
            assert forall|j: int| 0 <= j < cells.len() implies says_of(
                #[trigger] cells[j],
                fields[j],
                body,
                options,
            ) by {
                if j < before.len() {
                    assert(cells[j] == before[j]);
                    assert(fields[j] == cell_fields(record.fields, k - 1)[j]);
                }
            }
        }
    }
}

/// The fields of a record that make cells are all but its fillers, in order.
pub proof fn law_all_but_the_fillers_make_cells(fields: Seq<FieldModel>, k: int)
    requires
        0 <= k <= fields.len(),
    ensures
        cell_fields(fields, k) == fields.take(k).filter(
            |field: FieldModel| field.kind != FieldKind::Skip,
        ),
    decreases k,
{
    reveal(Seq::filter);
    if k > 0 {
        law_all_but_the_fillers_make_cells(fields, k - 1);
        assert(fields.take(k).drop_last() =~= fields.take(k - 1));
        assert(fields.take(k).last() == fields[k - 1]);
    }
}

/// The bytes that a row was read from.
pub open spec fn bytes_of(walk: Walk, row: RecordRowModel) -> Seq<u8> {
    let from = row.byte_offset - walk.base;
    walk.buffer.subrange(from, from + row.byte_length)
}

/// Whether a row is of a schema and says what the record behind its prefix
/// holds.
pub open spec fn tells(
    walk: Walk,
    row: RecordRowModel,
    schema: int,
) -> bool {
    let record = walk.layout.records[schema];
    let prefix = walk.layout.prefix_size as int;
    let raw = bytes_of(walk, row);
    let body = raw.skip(prefix);
    let fields = record.fields.filter(|field: FieldModel| field.kind != FieldKind::Skip);
    &&& 0 <= schema < walk.layout.records.len()
    &&& row.record_type == record.name
    &&& row.cells.len() == fields.len()
    &&& forall|j: int|
        0 <= j < row.cells.len() ==> says_of(#[trigger] row.cells[j], fields[j], body, walk.options)
}

/// Whether the length in front of a record is the one it has, all told. Without
/// a length field every record is as long as its schema and the prefix.
pub open spec fn is_as_long_as_declared(walk: Walk, row: RecordRowModel, schema: int) -> bool {
    let raw = bytes_of(walk, row);
    match walk.layout.record_length_field {
        None => row.byte_length == walk.layout.prefix_size + walk.layout.records[schema].size,
        Some(field) => {
            let bytes = raw.take(field.size as int);
            if field.kind == FieldKind::Text {
                exists|text: Seq<char>|
                    {
                        &&& #[trigger] is_text(
                            walk.options.codec.page(),
                            bytes,
                            walk.options.strip_control_characters,
                            text,
                        )
                        &&& signed_number(trimmed(text)) == Some(row.byte_length as int)
                    }
            } else {
                field.kind != FieldKind::Skip ==> number_in(field.kind, bytes) == row.byte_length
            }
        },
    }
}

/// Whether the record type in front of a record, behind its length, is the one
/// that selects its schema. Without a type field the first schema has every
/// record.
pub open spec fn is_selected(walk: Walk, row: RecordRowModel, schema: int) -> bool {
    let raw = bytes_of(walk, row);
    match walk.layout.record_type_field {
        None => schema == 0,
        Some(field) => {
            let start = optional_width(walk.layout.record_length_field) as int;
            let bytes = raw.subrange(start, start + field.size);
            &&& walk.layout.records[schema].selector matches Some(text)
            &&& field.kind == FieldKind::Text ==> is_text(
                walk.options.codec.page(),
                bytes,
                walk.options.strip_control_characters,
                text,
            )
            &&& field.kind != FieldKind::Text && field.kind != FieldKind::Skip ==> is_number(
                text,
                number_in(field.kind, bytes),
                field.scale as nat,
            )
        },
    }
}

/// A row tells of the bytes it was read from: it is of the schema that the
/// record type in front selects, it is as long as the length in front says, and
/// each of its cells says what the bytes of its field behind the prefix hold.
#[verifier::rlimit(60)]
#[verifier::spinoff_prover]
pub proof fn law_a_row_tells_of_its_bytes(walk: Walk)
    requires
        sound(walk),
        accounted(walk),
    ensures
        next(walk).1 matches Ok(Some(row)) ==> {
            &&& walk.base <= row.byte_offset
            &&& row.byte_offset + row.byte_length <= walk.base + walk.buffer.len()
            &&& exists|schema: int|
                {
                    &&& #[trigger] tells(walk, row, schema)
                    &&& is_as_long_as_declared(walk, row, schema)
                    &&& is_selected(walk, row, schema)
                }
        },
{
    if let Ok(Some(row)) = next(walk).1 {
        let ready = past_header(walk);
        let prefix = walk.layout.prefix_size as int;
        lemma_record_takes_bytes(ready);
        let (schema, size) = prefix_of(ready)->Ok_0;
        let total = prefix + size;
        let record = walk.layout.records[schema];
        let raw = bytes_of(walk, row);
        assert(available(ready) <= ready.buffer.len());
        assert(row.byte_length == total);
        assert(raw =~= ready.buffer.subrange(0, total));
        assert(raw.skip(prefix) =~= ready.buffer.subrange(prefix, total));
        let body = raw.skip(prefix);
        let n = record.fields.len() as int;
        law_cells_say_what_the_record_holds(record, body, walk.options, n);
        law_all_but_the_fillers_make_cells(record.fields, n);
        assert(record.fields.take(n) =~= record.fields);
        assert(tells(walk, row, schema));
        lemma_declared(walk, ready, row, schema);
        lemma_selected(walk, ready, row, schema);
    }
}

/// The length in front of a record.
proof fn lemma_declared(walk: Walk, ready: Walk, row: RecordRowModel, schema: int)
    requires
        sound(walk),
        ready.layout == walk.layout,
        ready.options == walk.options,
        prefix_of(ready) is Ok,
        prefix_of(ready)->Ok_0.0 == schema,
        row.byte_length == walk.layout.prefix_size + prefix_of(ready)->Ok_0.1,
        0 <= row.byte_length <= ready.buffer.len(),
        bytes_of(walk, row) == ready.buffer.subrange(0, row.byte_length as int),
        walk.layout.prefix_size <= row.byte_length,
    ensures
        is_as_long_as_declared(walk, row, schema),
{
    let raw = bytes_of(walk, row);
    if let Some(field) = walk.layout.record_length_field {
        let bytes = raw.take(field.size as int);
        assert(bytes =~= ready.buffer.subrange(0, field.size as int));
        lemma_field_content(field, bytes, walk.options);
        let declared = declared_length(ready)->Ok_0;
        assert(body_size(ready, schema, declared) == Ok::<int, Failure>(prefix_of(ready)->Ok_0.1));
    }
}

/// The record type in front of a record.
proof fn lemma_selected(walk: Walk, ready: Walk, row: RecordRowModel, schema: int)
    requires
        sound(walk),
        ready.layout == walk.layout,
        ready.options == walk.options,
        prefix_of(ready) is Ok,
        prefix_of(ready)->Ok_0.0 == schema,
        0 <= schema < walk.layout.records.len(),
        0 <= row.byte_length <= ready.buffer.len(),
        bytes_of(walk, row) == ready.buffer.subrange(0, row.byte_length as int),
        walk.layout.prefix_size <= row.byte_length,
    ensures
        is_selected(walk, row, schema),
{
    let raw = bytes_of(walk, row);
    if let Some(field) = walk.layout.record_type_field {
        let start = optional_width(walk.layout.record_length_field) as int;
        let bytes = raw.subrange(start, start + field.size);
        assert(bytes =~= ready.buffer.subrange(start, start + field.size));
        lemma_field_content(field, bytes, walk.options);
        let value = record_type(ready)->Ok_0;
        assert(selected_schema(walk.layout, value) == schema);
        lemma_has_selector(walk.layout.records, value, 0);
        if let FieldContent::Number { unscaled, scale } = field_content(
            field,
            bytes,
            walk.options,
        )->Ok_0 {
            law_how_a_number_is_written(unscaled, scale as nat);
        }
    }
}

/// A schema found by its selector has it.
proof fn lemma_has_selector(records: Seq<RecordLayoutModel>, value: Option<Seq<char>>, from: int)
    requires
        0 <= from <= records.len(),
    ensures
        ({
            let found = crate::layout::schema_with_selector(records, value, from);
            &&& from <= found
            &&& found < records.len() ==> records[found].selector == value
        }),
    decreases records.len() - from,
{
    if from < records.len() && records[from].selector != value {
        lemma_has_selector(records, value, from + 1);
    }
}

/// Whether a field of a record can be read: its bytes are there, and hold what
/// a field of its kind can.
pub open spec fn is_readable(field: FieldModel, body: Seq<u8>, options: DecodeOptions) -> bool {
    let start = field.offset as int;
    let end = field.offset + field.size;
    end <= body.len() && field_content(field, body.subrange(start, end), options) is Ok
}

/// A record is read exactly when every field of it can be, fillers aside. One
/// that cannot is refused for the first field that cannot be: as invalid where
/// the record is too short for it, and otherwise as its bytes are.
pub proof fn law_a_record_fails_by_its_first_bad_field(
    record: RecordLayoutModel,
    body: Seq<u8>,
    options: DecodeOptions,
    k: int,
)
    requires
        0 <= k <= record.fields.len(),
    ensures
        match cells_of(record, body, options, k) {
            Ok(_) => forall|i: int|
                0 <= i < k && (#[trigger] record.fields[i]).kind != FieldKind::Skip ==> is_readable(
                    record.fields[i],
                    body,
                    options,
                ),
            Err(failure) => exists|i: int|
                {
                    &&& 0 <= i < k
                    &&& (#[trigger] record.fields[i]).kind != FieldKind::Skip
                    &&& !is_readable(record.fields[i], body, options)
                    &&& forall|j: int|
                        0 <= j < i && (#[trigger] record.fields[j]).kind != FieldKind::Skip
                            ==> is_readable(record.fields[j], body, options)
                    &&& is_blamed_on(failure, record, record.fields[i], body, options)
                },
        },
    decreases k,
{
    if k > 0 {
        law_a_record_fails_by_its_first_bad_field(record, body, options, k - 1);
        let field = record.fields[k - 1];
        if cells_of(record, body, options, k - 1) is Ok && field.kind != FieldKind::Skip {
            if let Err(failure) = cell_of(record, field, body, options) {
                lemma_is_blamed(failure, record, field, body, options);
                assert(!is_readable(record.fields[k - 1], body, options));
            }
        }
    }
}

/// Whether a failure is that of a field: one of the input names the record and
/// the field.
pub open spec fn is_blamed_on(
    failure: Failure,
    record: RecordLayoutModel,
    field: FieldModel,
    body: Seq<u8>,
    options: DecodeOptions,
) -> bool {
    let start = field.offset as int;
    let end = field.offset + field.size;
    if end > body.len() {
        &&& failure is Invalid
        &&& mentions(failure.message(), "record "@ + quoted(record.name) + " is "@)
        &&& mentions(
            failure.message(),
            " bytes but field "@ + quoted(field.name) + " needs bytes "@,
        )
        &&& mentions(
            failure.message(),
            decimal(start as nat) + ".."@ + decimal(end as nat),
        )
    } else {
        &&& field_content(field, body.subrange(start, end), options) matches Err(cause)
        &&& failure.code() == cause.code()
        &&& mentions(failure.message(), cause.message())
        &&& failure is Invalid ==> mentions(
            failure.message(),
            "field "@ + quoted(field.name) + " of record "@,
        ) && mentions(failure.message(), " of record "@ + quoted(record.name) + ": "@)
    }
}

/// The failure of a field is blamed on it.
proof fn lemma_is_blamed(
    failure: Failure,
    record: RecordLayoutModel,
    field: FieldModel,
    body: Seq<u8>,
    options: DecodeOptions,
)
    requires
        cell_of(record, field, body, options) == Err::<CellModel, Failure>(failure),
    ensures
        is_blamed_on(failure, record, field, body, options),
{
    let start = field.offset as int;
    let end = field.offset + field.size;
    let none = Seq::<char>::empty();
    if end > body.len() {
        let parts = seq![
            "record "@,
            quoted(record.name),
            " is "@,
            decimal(body.len()),
            " bytes but field "@,
            quoted(field.name),
            " needs bytes "@,
            decimal(start as nat),
            ".."@,
            decimal(end as nat),
        ];
        assert(run_together(parts, 10) == failure.message()) by {
            reveal_with_fuel(run_together, 11);
            assert(none + parts[0] =~= parts[0]);
        }
        lemma_mentions_neighbours(parts, 0, 10);
        lemma_mentions_neighbours(parts, 4, 10);
        lemma_mentions_neighbours(parts, 7, 10);
    } else {
        let cause = field_content(field, body.subrange(start, end), options)->Err_0;
        if cause is Invalid {
            let parts = seq![
                "field "@,
                quoted(field.name),
                " of record "@,
                quoted(record.name),
                ": "@,
                cause.message(),
            ];
            assert(run_together(parts, 6) == failure.message()) by {
                reveal_with_fuel(run_together, 7);
                assert(none + parts[0] =~= parts[0]);
            }
            lemma_mentions_neighbours(parts, 0, 6);
            lemma_mentions_neighbours(parts, 2, 6);
            assert(failure.message() =~= run_together(parts, 5) + cause.message() + none);
            lemma_mentions(run_together(parts, 5), cause.message(), none);
        } else {
            assert(cause.message() =~= none + cause.message() + none);
            lemma_mentions(none, cause.message(), none);
        }
    }
}

/// The trailer warns of one thing at the most. An input shorter than header and
/// footer together is that, at its end; a walk that stopped at the records
/// asked for is that, where it stopped; and bytes left over in front of the
/// footer are those, where they start. Nothing else is warned about.
pub proof fn law_what_the_trailer_warns_about(walk: Walk)
    requires
        sound(walk),
        accounted(walk),
    ensures
        ({
            let header = walk.layout.header_size as int;
            let footer = walk.layout.footer_size as int;
            let short = walk.received < header + footer;
            let left = walk.received - footer - walk.base;
            status_of(walk) matches Ok(status) ==> {
                let warnings = status.warnings;
                &&& short ==> {
                    &&& warnings.len() == 1
                    &&& warnings[0].code == WarningCode::InputShorterThanBoundaries.number()
                    &&& warnings[0].byte_offset == walk.received
                }
                &&& !short && walk.truncated ==> {
                    &&& warnings.len() == 1
                    &&& warnings[0].code == WarningCode::MaxRecordsReached.number()
                    &&& warnings[0].byte_offset == walk.base
                }
                &&& !short && !walk.truncated && left > 0 ==> {
                    &&& warnings.len() == 1
                    &&& warnings[0].code == WarningCode::TrailingPartialRecord.number()
                    &&& warnings[0].byte_offset == walk.base
                    &&& !walk.options.abort_on_error
                }
                &&& !short && !walk.truncated && left <= 0 ==> warnings.len() == 0
            }
        }),
        status_of(walk) matches Err(failure) ==> {
            &&& failure is Invalid
            &&& walk.options.abort_on_error
            &&& walk.received >= walk.layout.header_size + walk.layout.footer_size
            &&& !walk.truncated
            &&& walk.received - walk.layout.footer_size > walk.base
        },
{
}

/// What the trailer says of an input that ends too early gives the numbers: how
/// long it is and how long header and footer are, or how many bytes are left
/// over and where.
pub proof fn law_the_trailer_gives_the_numbers(walk: Walk, warning: ParseWarningModel)
    requires
        sound(walk),
        accounted(walk),
        warning_of(walk) == Some(warning),
    ensures
        warning.code == WarningCode::InputShorterThanBoundaries.number() ==> {
            &&& mentions(
                warning.message,
                "the input is "@ + decimal(walk.received as nat) + " bytes, shorter than the "@,
            )
            &&& mentions(
                warning.message,
                " bytes, shorter than the "@ + decimal(walk.layout.header_size as nat)
                    + "-byte header plus "@,
            )
            &&& mentions(
                warning.message,
                "-byte header plus "@ + decimal(walk.layout.footer_size as nat)
                    + "-byte footer the layout declares"@,
            )
        },
        warning.code == WarningCode::MaxRecordsReached.number() ==> mentions(
            warning.message,
            "stopped after "@ + decimal(walk.kept as nat) + " records; "@,
        ),
        warning.code == WarningCode::TrailingPartialRecord.number() ==> {
            &&& mentions(
                warning.message,
                "the input ends inside a record: "@ + decimal(
                    (walk.received - walk.layout.footer_size - walk.base) as nat,
                ) + " bytes after the last whole record at byte "@,
            )
            &&& mentions(
                warning.message,
                decimal((walk.received - walk.layout.footer_size - walk.base) as nat)
                    + " bytes after the last whole record at byte "@ + decimal(walk.base as nat),
            )
        },
{
    let none = Seq::<char>::empty();
    if warning.code == WarningCode::InputShorterThanBoundaries.number() {
        let parts = seq![
            "the input is "@,
            decimal(walk.received as nat),
            " bytes, shorter than the "@,
            decimal(walk.layout.header_size as nat),
            "-byte header plus "@,
            decimal(walk.layout.footer_size as nat),
            "-byte footer the layout declares"@,
        ];
        assert(run_together(parts, 7) == warning.message) by {
            reveal_with_fuel(run_together, 8);
            assert(none + parts[0] =~= parts[0]);
        }
        lemma_mentions_neighbours(parts, 0, 7);
        lemma_mentions_neighbours(parts, 2, 7);
        lemma_mentions_neighbours(parts, 4, 7);
    } else if warning.code == WarningCode::MaxRecordsReached.number() {
        let parts = seq![
            "stopped after "@,
            decimal(walk.kept as nat),
            " records; "@,
            decimal((walk.received - walk.base) as nat),
            " bytes of input were not decoded"@,
        ];
        assert(run_together(parts, 5) == warning.message) by {
            reveal_with_fuel(run_together, 6);
            assert(none + parts[0] =~= parts[0]);
        }
        lemma_mentions_neighbours(parts, 0, 5);
    } else {
        let parts = seq![
            "the input ends inside a record: "@,
            decimal((walk.received - walk.layout.footer_size - walk.base) as nat),
            " bytes after the last whole record at byte "@,
            decimal(walk.base as nat),
        ];
        assert(run_together(parts, 4) == warning.message) by {
            reveal_with_fuel(run_together, 5);
            assert(none + parts[0] =~= parts[0]);
        }
        lemma_mentions_neighbours(parts, 0, 4);
        lemma_mentions_neighbours(parts, 1, 4);
    }
}

/// A record is held to the length in front of it: all told it has to be as long
/// as its prefix at the least, and no body may be longer than 16 mebibytes. The
/// body is what is left of the length behind the prefix; without a length it is
/// as long as its schema says.
pub proof fn law_a_record_is_held_to_its_length(
    walk: Walk,
    schema: int,
    length: int,
)
    requires
        0 <= schema < walk.layout.records.len(),
        walk.layout.records[schema].size <= 16 * 1024 * 1024,
    ensures
        body_size(walk, schema, None) == Ok::<int, Failure>(
            walk.layout.records[schema].size as int,
        ),
        match body_size(walk, schema, Some(length)) {
            Ok(size) => {
                &&& size + walk.layout.prefix_size == length
                &&& 0 <= size <= 16 * 1024 * 1024
            },
            Err(failure) => {
                &&& length < walk.layout.prefix_size ==> failure is Invalid
                &&& length >= walk.layout.prefix_size ==> length - walk.layout.prefix_size > 16
                    * 1024 * 1024
                &&& length >= walk.layout.prefix_size && length - walk.layout.prefix_size
                    <= usize::MAX ==> failure is Unsupported
                &&& mentions(
                    failure.message(),
                    "record at byte "@ + decimal(walk.base as nat),
                )
            },
        },
{
    if let Err(failure) = body_size(walk, schema, Some(length)) {
        let none = Seq::<char>::empty();
        let at = "record at byte "@ + decimal(walk.base as nat);
        let n = at.len() as int;
        assert(failure.message().subrange(0, n) =~= at);
        let rest = failure.message().skip(n);
        assert(failure.message() =~= none + at + rest);
        lemma_mentions(none, at, rest);
    }
}

/// A record whose type no schema has is refused, with the type and the place it
/// stands at.
pub proof fn law_an_unknown_record_type_is_refused(walk: Walk, value: Option<Seq<char>>)
    requires
        declared_length(walk) is Ok,
        record_type(walk) == Ok::<Option<Seq<char>>, Failure>(value),
        value matches Some(text) && forall|i: int|
            0 <= i < walk.layout.records.len() ==> (#[trigger] walk.layout.records[i]).selector
                != Some(text),
        walk.layout.record_type_field is Some,
    ensures
        prefix_of(walk) matches Err(failure) && failure is Invalid && mentions(
            failure.message(),
            quoted(value->Some_0),
        ) && mentions(
            failure.message(),
            " (record at byte "@ + decimal(walk.base as nat) + ")"@,
        ),
{
    lemma_has_selector(walk.layout.records, value, 0);
    let none = Seq::<char>::empty();
    let parts = seq![
        "no record schema has selector "@,
        quoted(value->Some_0),
        " (record at byte "@,
        decimal(walk.base as nat),
        ")"@,
    ];
    let message = prefix_of(walk)->Err_0.message();
    assert(run_together(parts, 5) == message) by {
        reveal_with_fuel(run_together, 6);
        assert(none + parts[0] =~= parts[0]);
    }
    lemma_mentions_neighbours(parts, 2, 5);
    let rest = parts[2] + parts[3] + parts[4];
    assert(message =~= parts[0] + parts[1] + rest);
    lemma_mentions(parts[0], parts[1], rest);
}

} // verus!
