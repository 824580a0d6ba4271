//! Decoding the fields of one record.

use vstd::prelude::*;
use vstd::slice::slice_subrange;
use crate::decode::{binary_content, decode_binary, decode_packed, decode_text, decode_zoned,
    law_packed_width_suffices, law_zoned_width_suffices, packed_content, render_decimal, rendered,
    text_content, zoned_content, FieldContent, FieldValue};
use crate::error::{Failure, ParseError};
use crate::layout::{field_decodable, proto_type, Field, FieldKind, FieldModel, RecordLayout,
    RecordLayoutModel};
use crate::proto::v1::{Cell, CellModel, Decimal, DecimalModel};
use crate::proto::v1::cell::{Value, ValueModel};
use crate::stream::DecodeOptions;
use crate::text::{cat6, decimal, decimal_text, quote, quoted};

verus! {

/// A number of a scale, or the failure to read one.
pub open spec fn number_content(number: Result<int, Failure>, scale: u32) -> Result<
    FieldContent,
    Failure,
> {
    match number {
        Ok(unscaled) => Ok(FieldContent::Number { unscaled, scale }),
        Err(failure) => Err(failure),
    }
}

/// What a field's bytes hold, or why they hold nothing the field can be.
pub open spec fn field_content(field: FieldModel, bytes: Seq<u8>, options: DecodeOptions) -> Result<
    FieldContent,
    Failure,
> {
    match field.kind {
        FieldKind::Text => match text_content(
            options.codec.page(),
            bytes,
            options.strip_control_characters,
        ) {
            Ok(text) => Ok(FieldContent::Text(text)),
            Err(failure) => Err(failure),
        },
        FieldKind::Integer => number_content(binary_content(bytes, true), field.scale),
        FieldKind::UnsignedInteger => number_content(binary_content(bytes, false), field.scale),
        FieldKind::PackedDecimal => number_content(packed_content(bytes), field.scale),
        FieldKind::ZonedDecimal => number_content(zoned_content(bytes), field.scale),
        FieldKind::Skip => Ok(FieldContent::Text(Seq::empty())),
    }
}

/// A number as 64 bits hold it, when they do.
pub open spec fn as_i64(n: int) -> Option<i64> {
    if i64::MIN <= n <= i64::MAX {
        Some(n as i64)
    } else {
        None
    }
}

/// The value of a cell: text as it is, a whole number as an integer where 64
/// bits hold it, and every other number as an exact decimal.
pub open spec fn cell_value(content: FieldContent) -> ValueModel {
    match content {
        FieldContent::Text(text) => ValueModel::Text(text),
        FieldContent::Number { unscaled, scale } => if scale == 0 && as_i64(unscaled) is Some {
            ValueModel::Integer(unscaled as i64)
        } else {
            ValueModel::Decimal(
                DecimalModel {
                    text: rendered(unscaled, scale as nat),
                    scale,
                    unscaled: as_i64(unscaled),
                },
            )
        },
    }
}

/// A failure to decode a field, with the field named where the failure is the
/// input's.
pub open spec fn in_field(failure: Failure, field: Seq<char>, record: Seq<char>) -> Failure {
    match failure {
        Failure::Invalid(message) => Failure::Invalid(
            "field "@ + quoted(field) + " of record "@ + quoted(record) + ": "@ + message,
        ),
        other => other,
    }
}

/// The cell of a field, or why it has none. A body that ends before the field
/// does is the record's fault.
pub open spec fn cell_of(
    record: RecordLayoutModel,
    field: FieldModel,
    body: Seq<u8>,
    options: DecodeOptions,
) -> Result<CellModel, Failure> {
    let start = field.offset as int;
    let end = field.offset + field.size;
    if end > body.len() {
        Err(
            Failure::Invalid(
                "record "@ + quoted(record.name) + " is "@ + decimal(body.len())
                    + " bytes but field "@ + quoted(field.name) + " needs bytes "@ + decimal(
                    start as nat,
                ) + ".."@ + decimal(end as nat),
            ),
        )
    } else {
        match field_content(field, body.subrange(start, end), options) {
            Err(failure) => Err(in_field(failure, field.name, record.name)),
            Ok(content) => Ok(
                CellModel {
                    name: field.name,
                    field_type: proto_type(field.kind).number(),
                    value: Some(cell_value(content)),
                },
            ),
        }
    }
}

/// The cells of the first `k` fields of a record, fillers left out. The first
/// field that cannot be decoded fails the record.
pub open spec fn cells_of(
    record: RecordLayoutModel,
    body: Seq<u8>,
    options: DecodeOptions,
    k: int,
) -> Result<Seq<CellModel>, Failure>
    decreases k,
{
    if k <= 0 {
        Ok(Seq::empty())
    } else {
        match cells_of(record, body, options, k - 1) {
            Err(failure) => Err(failure),
            Ok(before) => if record.fields[k - 1].kind == FieldKind::Skip {
                Ok(before)
            } else {
                match cell_of(record, record.fields[k - 1], body, options) {
                    Err(failure) => Err(failure),
                    Ok(cell) => Ok(before.push(cell)),
                }
            },
        }
    }
}

/// A failure among the first fields is the failure of all.
proof fn lemma_cells_fail(
    record: RecordLayoutModel,
    body: Seq<u8>,
    options: DecodeOptions,
    k: int,
    n: int,
)
    requires
        0 <= k <= n,
        cells_of(record, body, options, k) is Err,
    ensures
        cells_of(record, body, options, n) == cells_of(record, body, options, k),
    decreases n,
{
    if k < n {
        lemma_cells_fail(record, body, options, k, n - 1);
    }
}

fn number(read: Result<i128, ParseError>, scale: u32) -> (r: Result<FieldValue, ParseError>)
    ensures
        match (r, read) {
            (Ok(value), Ok(unscaled)) => value@ == (FieldContent::Number {
                unscaled: unscaled as int,
                scale,
            }),
            (Err(error), Err(cause)) => error@ == cause@,
            _ => false,
        },
{
    match read {
        Ok(unscaled) => Ok(FieldValue::Number { unscaled, scale }),
        Err(error) => Err(error),
    }
}

/// Decode one field's bytes into a value.
pub fn decode_field(field: &Field, bytes: &[u8], options: &DecodeOptions) -> (r: Result<
    FieldValue,
    ParseError,
>)
    requires
        bytes@.len() == field.size,
        field_decodable(field.deep_view()),
    ensures
        match r {
            Ok(value) => field_content(field.deep_view(), bytes@, *options) == Ok::<_, Failure>(
                value@,
            ),
            Err(error) => field_content(field.deep_view(), bytes@, *options) == Err::<
                FieldContent,
                _,
            >(error@),
        },
{
    match field.kind {
        FieldKind::Text => match decode_text(
            options.codec,
            bytes,
            options.strip_control_characters,
        ) {
            Ok(text) => Ok(FieldValue::Text(text)),
            Err(error) => Err(error),
        },
        FieldKind::Integer => number(decode_binary(bytes, true), field.scale),
        FieldKind::UnsignedInteger => number(decode_binary(bytes, false), field.scale),
        FieldKind::PackedDecimal => {
            proof {
                if bytes@.len() > 0 {
                    law_packed_width_suffices(bytes@);
                }
            }
            number(decode_packed(bytes), field.scale)
        },
        FieldKind::ZonedDecimal => {
            proof {
                law_zoned_width_suffices(bytes@);
            }
            number(decode_zoned(bytes), field.scale)
        },
        FieldKind::Skip => Ok(FieldValue::Text(String::new())),
    }
}

fn fit_i64(n: i128) -> (r: Option<i64>)
    ensures
        r == as_i64(n as int),
{
    if i64::MIN as i128 <= n && n <= i64::MAX as i128 {
        Some(n as i64)
    } else {
        None
    }
}

/// Shape a decoded value into the value of a cell.
///
/// A scale of zero yields an integer when it fits in 64 bits. Everything else
/// is an exact decimal, never a float: a `PIC S9(18)V99 COMP-3` has twenty
/// significant digits and an IEEE double has fifteen.
fn to_cell_value(value: FieldValue) -> (r: Value)
    ensures
        r.deep_view() == cell_value(value@),
{
    match value {
        FieldValue::Text(text) => Value::Text(text),
        FieldValue::Number { unscaled, scale } => match (scale == 0, fit_i64(unscaled)) {
            (true, Some(fits)) => Value::Integer(fits),
            (_, fits) => Value::Decimal(
                Decimal { text: render_decimal(unscaled, scale), scale, unscaled: fits },
            ),
        },
    }
}

/// Name the field in a failure of the input's.
fn name_field(error: ParseError, field: &str, record: &str) -> (r: ParseError)
    ensures
        r@ == in_field(error@, field@, record@),
{
    match error {
        ParseError::Invalid(message) => ParseError::Invalid(
            cat6("field ", &quote(field), " of record ", &quote(record), ": ", &message),
        ),
        other => other,
    }
}

/// Decode one field of a record body into a cell.
fn decode_cell(record: &RecordLayout, field: &Field, body: &[u8], options: &DecodeOptions) -> (r: Result<
    Cell,
    ParseError,
>)
    requires
        field_decodable(field.deep_view()),
    ensures
        crate::error::outcome(r) == cell_of(
            record.deep_view(),
            field.deep_view(),
            body@,
            *options,
        ),
{
    let start: u64 = field.offset as u64;
    let end: u64 = start + field.size as u64;
    if end > body.len() as u64 {
        // Only reachable with a length-prefixed record whose declared length
        // is shorter than the schema it selected.
        let place: String = crate::text::cat3(
            &decimal_text(start as u128),
            "..",
            &decimal_text(end as u128),
        );
        let message: String = crate::text::cat7(
            "record ",
            &quote(&record.name),
            " is ",
            &decimal_text(body.len() as u128),
            " bytes but field ",
            &quote(&field.name),
            " needs bytes ",
        );
        let full: String = crate::text::cat2(&message, &place);
        proof {
            assert(full@ =~= "record "@ + quoted(record.name@) + " is "@ + decimal(body@.len())
                + " bytes but field "@ + quoted(field.name@) + " needs bytes "@ + decimal(
                start as nat,
            ) + ".."@ + decimal(end as nat));
        }
        return Err(ParseError::invalid(full));
    }
    let bytes: &[u8] = slice_subrange(body, start as usize, end as usize);
    match decode_field(field, bytes, options) {
        Err(error) => Err(name_field(error, &field.name, &record.name)),
        Ok(value) => Ok(
            Cell {
                name: field.name.clone(),
                field_type: field.kind.to_proto().number(),
                value: Some(to_cell_value(value)),
            },
        ),
    }
}

/// Decode every non-filler field of one record body into a cell.
pub fn decode_cells(record: &RecordLayout, body: &[u8], options: &DecodeOptions) -> (r: Result<
    Vec<Cell>,
    ParseError,
>)
    requires
        forall|k: int|
            0 <= k < record.fields@.len() ==> field_decodable(
                (#[trigger] record.fields@[k]).deep_view(),
            ),
    ensures
        crate::error::outcome(r) == cells_of(
            record.deep_view(),
            body@,
            *options,
            record.fields@.len() as int,
        ),
{
    let ghost model = record.deep_view();
    let mut cells: Vec<Cell> = Vec::new();
    let mut k: usize = 0;
    proof {
        assert(cells.deep_view() =~= Seq::<CellModel>::empty());
    }
    while k < record.fields.len()
        invariant
            k <= record.fields@.len(),
            model == record.deep_view(),
            cells_of(model, body@, *options, k as int) == Ok::<_, Failure>(cells.deep_view()),
            forall|k: int|
                0 <= k < record.fields@.len() ==> field_decodable(
                    (#[trigger] record.fields@[k]).deep_view(),
                ),
        decreases record.fields@.len() - k,
    {
        let field: &Field = &record.fields[k];
        proof {
            assert(model.fields[k as int] == field.deep_view());
        }
        if field.kind != FieldKind::Skip {
            let ghost before = cells.deep_view();
            match decode_cell(record, field, body, options) {
                Err(error) => {
                    proof {
                        lemma_cells_fail(
                            model,
                            body@,
                            *options,
                            k + 1,
                            record.fields@.len() as int,
                        );
                    }
                    return Err(error);
                },
                Ok(cell) => {
                    let ghost added = cell.deep_view();
                    cells.push(cell);
                    proof {
                        assert(cells.deep_view() =~= before.push(added));
                    }
                },
            }
        }
        k = k + 1;
    }
    Ok(cells)
}

} // verus!
