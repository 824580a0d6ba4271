//! What a layout says, held against the form it arrived in.

use vstd::prelude::*;
use crate::error::Failure;
use crate::layout::{kind_of, layout_info, proto_type, resolved, schema_with_selector,
    selected_schema, FieldKind, FieldModel, JsonField, JsonFieldType, JsonForm, JsonLayout,
    JsonRecord, LayoutModel, RawFieldModel, RawLayoutModel, RawRecordModel, RecordLayoutModel};
use crate::layout::laws::{lemma_no_field_fault, lemma_no_record_fault, lemma_reach};
use crate::layout::lifting::{json_field, json_form, json_layout, json_record, lifted_field,
    lifted_fields, lifted_layout, lifted_record, lifted_records};
use crate::layout::validation::{field_fault, fields_fault, layout_fault, reach, record_fault,
    records_fault, repeats_name, repeats_schema, repeats_selector, resolved_layout, schema_name,
    start, validated, width_fault};
use crate::proto::v1::{EbcdicField, EbcdicLayout, EbcdicRecordLayout, FieldType, LayoutSource,
    ParseOptions, WarningCode};
use crate::proto::v1::parse_options::LayoutSource as FormSource;
use crate::text::quoted;
use crate::text::laws::mentions;

verus! {

/// A type number and a kind name the same thing: the kind that a type stands
/// for reports as that type, and an unset type is character data. Numbers that
/// stand for no type are refused.
pub proof fn law_types_and_kinds_correspond(number: i32)
    ensures
        kind_of(FieldType::Unspecified.number()) == Ok::<FieldKind, Failure>(FieldKind::Text),
        kind_of(FieldType::String.number()) == Ok::<FieldKind, Failure>(FieldKind::Text),
        kind_of(FieldType::Integer.number()) == Ok::<FieldKind, Failure>(FieldKind::Integer),
        kind_of(FieldType::UnsignedInteger.number()) == Ok::<FieldKind, Failure>(
            FieldKind::UnsignedInteger,
        ),
        kind_of(FieldType::PackedDecimal.number()) == Ok::<FieldKind, Failure>(
            FieldKind::PackedDecimal,
        ),
        kind_of(FieldType::ZonedDecimal.number()) == Ok::<FieldKind, Failure>(
            FieldKind::ZonedDecimal,
        ),
        kind_of(FieldType::Skip.number()) == Ok::<FieldKind, Failure>(FieldKind::Skip),
        match kind_of(number) {
            Ok(kind) => number == 0 && kind == FieldKind::Text || proto_type(kind).number()
                == number,
            Err(failure) => failure is Unsupported && FieldType::from_number(number) is None,
        },
{
}

/// The numbers of types, sources and warnings in a message: 0 is for what is not
/// stated, and the others follow in the order in which the message declares
/// them.
pub proof fn law_numbers_in_a_message(number: i32)
    ensures
        FieldType::from_number(number) is Some <==> 0 <= number <= 6,
        LayoutSource::from_number(number) is Some <==> 0 <= number <= 3,
        WarningCode::from_number(number) is Some <==> 0 <= number <= 4,
        FieldType::Unspecified.number() == 0,
        FieldType::String.number() == FieldType::Unspecified.number() + 1,
        FieldType::Integer.number() == FieldType::String.number() + 1,
        FieldType::UnsignedInteger.number() == FieldType::Integer.number() + 1,
        FieldType::PackedDecimal.number() == FieldType::UnsignedInteger.number() + 1,
        FieldType::ZonedDecimal.number() == FieldType::PackedDecimal.number() + 1,
        FieldType::Skip.number() == FieldType::ZonedDecimal.number() + 1,
        LayoutSource::Unspecified.number() == 0,
        LayoutSource::Proto.number() == LayoutSource::Unspecified.number() + 1,
        LayoutSource::Json.number() == LayoutSource::Proto.number() + 1,
        LayoutSource::Copybook.number() == LayoutSource::Json.number() + 1,
        WarningCode::Unspecified.number() == 0,
        WarningCode::TrailingPartialRecord.number() == WarningCode::Unspecified.number() + 1,
        WarningCode::MaxRecordsReached.number() == WarningCode::TrailingPartialRecord.number() + 1,
        WarningCode::InputShorterThanBoundaries.number() == WarningCode::MaxRecordsReached.number()
            + 1,
        WarningCode::DocumentRowsTruncated.number()
            == WarningCode::InputShorterThanBoundaries.number() + 1,
{
}

/// Numbers and the values they stand for go back and forth without loss.
pub proof fn law_numbers_stand_for_one_value_each(
    number: i32,
    field_type: FieldType,
    source: LayoutSource,
    code: WarningCode,
)
    ensures
        FieldType::from_number(field_type.number()) == Some(field_type),
        LayoutSource::from_number(source.number()) == Some(source),
        WarningCode::from_number(code.number()) == Some(code),
        FieldType::from_number(number) matches Some(value) ==> value.number() == number,
        LayoutSource::from_number(number) matches Some(value) ==> value.number() == number,
        WarningCode::from_number(number) matches Some(value) ==> value.number() == number,
{
}

/// Whether a type of the JSON form is the type that a number stands for.
pub open spec fn same_type(json: JsonFieldType, number: i32) -> bool {
    match json {
        JsonFieldType::String => number == FieldType::String.number() || number
            == FieldType::Unspecified.number(),
        JsonFieldType::Integer => number == FieldType::Integer.number(),
        JsonFieldType::UnsignedInteger => number == FieldType::UnsignedInteger.number(),
        JsonFieldType::PackedDecimal => number == FieldType::PackedDecimal.number(),
        JsonFieldType::ZonedDecimal => number == FieldType::ZonedDecimal.number(),
        JsonFieldType::Skip => number == FieldType::Skip.number(),
    }
}

/// Whether optional text is a text, the empty one when it is absent.
pub open spec fn same_text(json: Option<String>, text: Seq<char>) -> bool {
    match json {
        Some(json) => json@ == text,
        None => text.len() == 0,
    }
}

/// Whether a field states the same in both forms.
pub open spec fn same_field(json: JsonField, message: EbcdicField) -> bool {
    &&& json.name@ == message.name@
    &&& json.size == message.size
    &&& same_type(json.field_type, message.field_type)
    &&& json.scale == message.scale
    &&& same_text(json.picture, message.picture@)
    &&& json.offset == message.offset
}

/// Whether an optional field states the same in both forms.
pub open spec fn same_prefix(json: Option<JsonField>, message: Option<EbcdicField>) -> bool {
    match (json, message) {
        (Some(json), Some(message)) => same_field(json, message),
        (None, None) => true,
        _ => false,
    }
}

/// Whether a record schema states the same in both forms.
pub open spec fn same_record(json: JsonRecord, message: EbcdicRecordLayout) -> bool {
    &&& same_text(json.name, message.name@)
    &&& json.selector.deep_view() == message.selector.deep_view()
    &&& json.fields@.len() == message.fields@.len()
    &&& forall|k: int|
        0 <= k < message.fields@.len() ==> same_field(
            json.fields@[k],
            #[trigger] message.fields@[k],
        )
}

/// Whether a layout states the same in both forms.
pub open spec fn same_layout(json: JsonLayout, message: EbcdicLayout) -> bool {
    &&& json.description@ == message.description@
    &&& json.header_size == message.header_size
    &&& json.footer_size == message.footer_size
    &&& same_prefix(json.record_length_field, message.record_length_field)
    &&& same_prefix(json.record_type_field, message.record_type_field)
    &&& json.records@.len() == message.records@.len()
    &&& forall|i: int|
        0 <= i < message.records@.len() ==> same_record(
            json.records@[i],
            #[trigger] message.records@[i],
        )
}

/// Fields that state the same lift to the same.
proof fn lemma_same_fields(json: Seq<JsonField>, message: Seq<EbcdicField>, from: int)
    requires
        0 <= from <= message.len(),
        json.len() == message.len(),
        forall|k: int| 0 <= k < message.len() ==> same_field(json[k], #[trigger] message[k]),
    ensures
        lifted_fields(message, from) == Ok::<Seq<RawFieldModel>, Failure>(
            Seq::new((message.len() - from) as nat, |k: int| json_field(json[from + k])),
        ),
    decreases message.len() - from,
{
    let wanted = Seq::new((message.len() - from) as nat, |k: int| json_field(json[from + k]));
    if from < message.len() {
        lemma_same_fields(json, message, from + 1);
        lemma_same_field(json[from], message[from]);
        let rest = Seq::new(
            (message.len() - from - 1) as nat,
            |k: int| json_field(json[from + 1 + k]),
        );
        assert(seq![json_field(json[from])] + rest =~= wanted);
    } else {
        assert(wanted =~= Seq::<RawFieldModel>::empty());
    }
}

/// Fields that state the same lift to the same.
proof fn lemma_same_field(json: JsonField, message: EbcdicField)
    requires
        same_field(json, message),
    ensures
        lifted_field(message) == Ok::<RawFieldModel, Failure>(json_field(json)),
{
    law_types_and_kinds_correspond(message.field_type);
    assert(json_field(json).picture =~= message.picture@);
}

/// Record schemas that state the same lift to the same.
proof fn lemma_same_records(json: Seq<JsonRecord>, message: Seq<EbcdicRecordLayout>, from: int)
    requires
        0 <= from <= message.len(),
        json.len() == message.len(),
        forall|i: int| 0 <= i < message.len() ==> same_record(json[i], #[trigger] message[i]),
    ensures
        lifted_records(message, from) == Ok::<Seq<RawRecordModel>, Failure>(
            Seq::new((message.len() - from) as nat, |i: int| json_record(json[from + i])),
        ),
    decreases message.len() - from,
{
    let wanted = Seq::new((message.len() - from) as nat, |i: int| json_record(json[from + i]));
    if from < message.len() {
        lemma_same_records(json, message, from + 1);
        assert(same_record(json[from], message[from]));
        lemma_same_fields(json[from].fields@, message[from].fields@, 0);
        let one = json_record(json[from]);
        assert(lifted_fields(message[from].fields@, 0)->Ok_0 =~= one.fields);
        assert(one.name =~= message[from].name@);
        assert(lifted_record(message[from]) == Ok::<RawRecordModel, Failure>(one));
        let rest = Seq::new(
            (message.len() - from - 1) as nat,
            |i: int| json_record(json[from + 1 + i]),
        );
        assert(seq![one] + rest =~= wanted);
    } else {
        assert(wanted =~= Seq::<RawRecordModel>::empty());
    }
}

/// The form does not matter: a JSON layout and a layout message that state the
/// same header and footer, the same prefix fields and the same records lift to
/// the same raw layout, and resolve, or are refused, alike.
pub proof fn law_json_and_message_agree(
    json: JsonLayout,
    message: EbcdicLayout,
    first: ParseOptions,
    second: ParseOptions,
)
    requires
        same_layout(json, message),
        first.layout_source == Some(FormSource::LayoutJson(JsonForm::Parsed(json))),
        second.layout_source == Some(FormSource::Layout(message)),
    ensures
        lifted_layout(message) == json_form(JsonForm::Parsed(json)),
        match resolved(first) {
            Ok(layout) => {
                &&& layout.source == LayoutSource::Json
                &&& resolved(second) == Ok::<LayoutModel, Failure>(
                    LayoutModel { source: LayoutSource::Proto, ..layout },
                )
            },
            Err(failure) => resolved(second) == Err::<LayoutModel, Failure>(failure),
        },
{
    lemma_same_records(json.records@, message.records@, 0);
    assert(lifted_records(message.records@, 0)->Ok_0 =~= json_layout(json).records);
    if let (Some(json), Some(message)) = (json.record_length_field, message.record_length_field) {
        lemma_same_field(json, message);
    }
    if let (Some(json), Some(message)) = (json.record_type_field, message.record_type_field) {
        lemma_same_field(json, message);
    }
    assert(lifted_layout(message)->Ok_0 =~= json_layout(json));
    crate::layout::laws::law_every_form_resolves_alike(
        json_layout(json),
        LayoutSource::Json,
        LayoutSource::Proto,
    );
}

/// Whether a raw field states what a field of the layout message does.
pub open spec fn states_field(raw: RawFieldModel, message: EbcdicField) -> bool {
    &&& raw.name == message.name@
    &&& raw.size == message.size
    &&& raw.scale == message.scale
    &&& raw.picture == message.picture@
    &&& raw.offset == message.offset
    &&& proto_type(raw.kind).number() == message.field_type || message.field_type == 0 && raw.kind
        == FieldKind::Text
    &&& raw.declaration.level is None
    &&& raw.declaration.path.len() == 0
    &&& raw.declaration.occurs_index is None
    &&& raw.declaration.occurs_group is None
    &&& raw.declaration.conditions.len() == 0
}

/// Whether an optional raw field states what one of the layout message does.
pub open spec fn states_prefix(raw: Option<RawFieldModel>, message: Option<EbcdicField>) -> bool {
    match (raw, message) {
        (Some(raw), Some(message)) => states_field(raw, message),
        (None, None) => true,
        _ => false,
    }
}

/// Lifted fields state what the message does, one by one.
proof fn lemma_fields_state(fields: Seq<EbcdicField>, from: int)
    requires
        0 <= from <= fields.len(),
    ensures
        lifted_fields(fields, from) matches Ok(raw) ==> {
            &&& raw.len() == fields.len() - from
            &&& forall|k: int|
                from <= k < fields.len() ==> states_field(raw[k - from], #[trigger] fields[k])
        },
    decreases fields.len() - from,
{
    if from < fields.len() {
        lemma_fields_state(fields, from + 1);
        law_types_and_kinds_correspond(fields[from].field_type);
        if let Ok(raw) = lifted_fields(fields, from) {
            let rest = lifted_fields(fields, from + 1)->Ok_0;
            assert forall|k: int| from <= k < fields.len() implies states_field(
                raw[k - from],
                #[trigger] fields[k],
            ) by {
                if k > from {
                    assert(raw[k - from] == rest[k - (from + 1)]);
                }
            }
        }
    }
}

/// Lifted record schemas state what the message does, one by one.
proof fn lemma_records_state(records: Seq<EbcdicRecordLayout>, from: int)
    requires
        0 <= from <= records.len(),
    ensures
        lifted_records(records, from) matches Ok(raw) ==> {
            &&& raw.len() == records.len() - from
            &&& forall|i: int|
                from <= i < records.len() ==> states_record(raw[i - from], #[trigger] records[i])
        },
    decreases records.len() - from,
{
    if from < records.len() {
        lemma_records_state(records, from + 1);
        lemma_fields_state(records[from].fields@, 0);
        if let Ok(raw) = lifted_records(records, from) {
            let rest = lifted_records(records, from + 1)->Ok_0;
            assert forall|i: int| from <= i < records.len() implies states_record(
                raw[i - from],
                #[trigger] records[i],
            ) by {
                if i > from {
                    assert(raw[i - from] == rest[i - (from + 1)]);
                }
            }
        }
    }
}

/// Whether a raw record schema states what one of the layout message does.
pub open spec fn states_record(raw: RawRecordModel, message: EbcdicRecordLayout) -> bool {
    &&& raw.name == message.name@
    &&& raw.selector == message.selector.deep_view()
    &&& raw.fields.len() == message.fields@.len()
    &&& forall|k: int|
        0 <= k < message.fields@.len() ==> states_field(raw.fields[k], #[trigger] message.fields@[k])
}

/// A layout message is taken as it stands: its header and footer, its prefix
/// fields, its records and their fields in order, each with the name, size,
/// type, scale, picture and offset that it states. It is refused only for a type
/// number that stands for no type.
pub proof fn law_a_message_is_taken_as_it_stands(message: EbcdicLayout)
    ensures
        match lifted_layout(message) {
            Ok(raw) => {
                &&& raw.description == message.description@
                &&& raw.header_size == message.header_size
                &&& raw.footer_size == message.footer_size
                &&& states_prefix(raw.record_length_field, message.record_length_field)
                &&& states_prefix(raw.record_type_field, message.record_type_field)
                &&& raw.records.len() == message.records@.len()
                &&& forall|i: int|
                    0 <= i < message.records@.len() ==> states_record(
                        raw.records[i],
                        #[trigger] message.records@[i],
                    )
            },
            Err(failure) => failure is Unsupported,
        },
{
    lemma_records_state(message.records@, 0);
    lemma_records_fail(message.records@, 0);
    if let Some(field) = message.record_length_field {
        law_types_and_kinds_correspond(field.field_type);
    }
    if let Some(field) = message.record_type_field {
        law_types_and_kinds_correspond(field.field_type);
    }
}

proof fn lemma_fields_fail(fields: Seq<EbcdicField>, from: int)
    requires
        0 <= from <= fields.len(),
    ensures
        lifted_fields(fields, from) matches Err(failure) ==> failure is Unsupported && exists|k: int|
            from <= k < fields.len() && FieldType::from_number(
                (#[trigger] fields[k]).field_type,
            ) is None,
    decreases fields.len() - from,
{
    if from < fields.len() {
        lemma_fields_fail(fields, from + 1);
        law_types_and_kinds_correspond(fields[from].field_type);
    }
}

proof fn lemma_records_fail(records: Seq<EbcdicRecordLayout>, from: int)
    requires
        0 <= from <= records.len(),
    ensures
        lifted_records(records, from) matches Err(failure) ==> failure is Unsupported,
    decreases records.len() - from,
{
    if from < records.len() {
        lemma_records_fail(records, from + 1);
        lemma_fields_fail(records[from].fields@, 0);
    }
}

/// Whether a field resolved from a raw one: everything it states is kept, and so
/// is the offset that it declares.
pub open spec fn keeps_field(field: FieldModel, raw: RawFieldModel) -> bool {
    &&& field.name == raw.name
    &&& field.size == raw.size
    &&& field.kind == raw.kind
    &&& field.scale == raw.scale
    &&& field.picture == raw.picture
    &&& raw.offset matches Some(offset) ==> field.offset == offset
    &&& field.declaration.level == raw.declaration.level
    &&& field.declaration.occurs_index == raw.declaration.occurs_index
    &&& field.declaration.occurs_group == raw.declaration.occurs_group
    &&& field.declaration.conditions == raw.declaration.conditions
    &&& field.declaration.path == (if raw.declaration.path.len() > 0 {
        raw.declaration.path
    } else {
        raw.name
    })
}

/// Whether a prefix field resolved from a raw one, at an offset and under its
/// own name or that of its role.
pub open spec fn keeps_prefix(
    field: Option<FieldModel>,
    raw: Option<RawFieldModel>,
    role: Seq<char>,
    offset: int,
) -> bool {
    match (field, raw) {
        (Some(field), Some(raw)) => {
            &&& field.name == (if raw.name.len() > 0 {
                raw.name
            } else {
                role
            })
            &&& field.offset == offset
            &&& field.size == raw.size
            &&& field.kind == raw.kind
            &&& field.scale == raw.scale
            &&& field.picture == raw.picture
            &&& field.declaration.path == field.name
        },
        (None, None) => true,
        _ => false,
    }
}

/// Whether a record schema resolved from a raw one.
pub open spec fn keeps_record(record: RecordLayoutModel, raw: RawRecordModel) -> bool {
    &&& record.name == (if raw.name.len() > 0 {
        raw.name
    } else {
        "record"@
    })
    &&& record.selector == raw.selector
    &&& record.fields.len() == raw.fields.len()
    &&& forall|k: int|
        0 <= k < raw.fields.len() ==> keeps_field(record.fields[k], #[trigger] raw.fields[k])
}

/// The width of an optional raw field.
pub open spec fn raw_width(field: Option<RawFieldModel>) -> int {
    match field {
        Some(field) => field.size as int,
        None => 0,
    }
}

/// A validated layout is what its raw layout states: the same header, footer and
/// description, the same prefix fields, the type behind the length, and the same
/// records with the same fields in the same order.
pub proof fn law_a_layout_keeps_what_was_stated(raw: RawLayoutModel, source: LayoutSource)
    ensures
        validated(raw, source) matches Ok(layout) ==> {
            &&& layout.source == source
            &&& layout.description == raw.description
            &&& layout.header_size == raw.header_size
            &&& layout.footer_size == raw.footer_size
            &&& keeps_prefix(
                layout.record_length_field,
                raw.record_length_field,
                "record_length"@,
                0,
            )
            &&& keeps_prefix(
                layout.record_type_field,
                raw.record_type_field,
                "record_type"@,
                raw_width(raw.record_length_field),
            )
            &&& layout.prefix_size == raw_width(raw.record_length_field) + raw_width(
                raw.record_type_field,
            )
            &&& layout.records.len() == raw.records.len()
            &&& forall|i: int|
                0 <= i < raw.records.len() ==> keeps_record(
                    layout.records[i],
                    #[trigger] raw.records[i],
                )
        },
{
    if layout_fault(raw) is None {
        let layout = resolved_layout(raw, source);
        assert(raw_width(raw.record_length_field) <= 0x1_000_000);
        assert(raw_width(raw.record_type_field) <= 0x1_000_000);
        assert forall|i: int| 0 <= i < raw.records.len() implies keeps_record(
            layout.records[i],
            #[trigger] raw.records[i],
        ) by {
            let record = raw.records[i];
            assert forall|k: int| 0 <= k < record.fields.len() implies keeps_field(
                layout.records[i].fields[k],
                #[trigger] record.fields[k],
            ) by {}
        }
    }
}

/// The resolved layout has the header and the footer that its form states, and
/// reports which form that was. A copybook states neither, nor any prefix field.
pub proof fn law_a_form_states_its_header_and_footer(options: ParseOptions)
    ensures
        resolved(options) matches Ok(layout) ==> match options.layout_source {
            None => false,
            Some(FormSource::Layout(message)) => {
                &&& layout.header_size == message.header_size
                &&& layout.footer_size == message.footer_size
                &&& layout.description == message.description@
                &&& layout.records.len() == message.records@.len()
                &&& layout.source == LayoutSource::Proto
            },
            Some(FormSource::LayoutJson(JsonForm::Parsed(json))) => {
                &&& layout.header_size == json.header_size
                &&& layout.footer_size == json.footer_size
                &&& layout.description == json.description@
                &&& layout.records.len() == json.records@.len()
                &&& layout.source == LayoutSource::Json
            },
            Some(FormSource::LayoutJson(JsonForm::Malformed(_))) => false,
            Some(FormSource::Copybook(source)) => {
                &&& layout.header_size == 0
                &&& layout.footer_size == 0
                &&& layout.prefix_size == 0
                &&& layout.records.len() == 1
                &&& layout.source == LayoutSource::Copybook
            },
        },
        options.layout_source is None ==> (resolved(options) matches Err(failure) && failure is Invalid),
        options.layout_source matches Some(FormSource::LayoutJson(JsonForm::Malformed(_))) ==> (
        resolved(options) matches Err(failure) && failure is Invalid),
{
    match options.layout_source {
        Some(FormSource::Layout(message)) => {
            law_a_message_is_taken_as_it_stands(message);
        },
        Some(FormSource::Copybook(source)) => {
            crate::copybook::laws::law_a_copybook_is_one_bare_record(source@);
        },
        _ => {},
    }
}

/// Where a field of a record starts: at the offset it declares, or right behind
/// the field in front of it.
pub open spec fn place(fields: Seq<RawFieldModel>, k: int) -> int
    decreases k,
{
    match fields[k].offset {
        Some(offset) => offset as int,
        None => if k <= 0 {
            0
        } else {
            place(fields, k - 1) + fields[k - 1].size
        },
    }
}

/// Whether a field is one its decoder takes: nineteen bytes of packed decimal,
/// thirty-seven of zoned, sixteen of binary, and sixteen mebibytes of anything
/// else at most, and not empty.
pub open spec fn is_taken(field: RawFieldModel) -> bool {
    0 < field.size <= (match field.kind {
        FieldKind::PackedDecimal => 19u32,
        FieldKind::ZonedDecimal => 37u32,
        FieldKind::Integer => 16u32,
        FieldKind::UnsignedInteger => 16u32,
        _ => 0x1_000_000u32,
    })
}

/// Whether a field of a record is in order: it is one its decoder takes, it
/// starts at or behind the end of the one in front, it ends within sixteen
/// mebibytes, it has a name of its own unless it is a filler, and only a number
/// has decimals.
pub open spec fn is_in_order(fields: Seq<RawFieldModel>, k: int) -> bool {
    let field = fields[k];
    let at = place(fields, k);
    &&& is_taken(field)
    &&& k > 0 ==> place(fields, k - 1) + fields[k - 1].size <= at
    &&& at + field.size <= 0x1_000_000
    &&& field.kind != FieldKind::Skip ==> {
        &&& field.name.len() > 0
        &&& forall|j: int|
            0 <= j < k && (#[trigger] fields[j]).kind != FieldKind::Skip ==> fields[j].name
                != field.name
    }
    &&& field.kind == FieldKind::Text || field.kind == FieldKind::Skip ==> field.scale == 0
}

/// The name that a record schema goes by.
pub open spec fn goes_by(record: RawRecordModel) -> Seq<char> {
    if record.name.len() > 0 {
        record.name
    } else {
        "record"@
    }
}

/// Whether a prefix field is in order: one its decoder takes, and no filler.
pub open spec fn is_prefix_in_order(field: Option<RawFieldModel>) -> bool {
    field matches Some(field) ==> is_taken(field) && field.kind != FieldKind::Skip
}

/// Whether a record schema is in order: it has fields, all in order, a name that
/// no schema in front has, and, where records have a type, a selector that no
/// schema in front has.
pub open spec fn is_record_in_order(raw: RawLayoutModel, i: int) -> bool {
    let record = raw.records[i];
    &&& record.fields.len() > 0
    &&& forall|k: int| 0 <= k < record.fields.len() ==> #[trigger] is_in_order(record.fields, k)
    &&& forall|j: int| 0 <= j < i ==> goes_by(#[trigger] raw.records[j]) != goes_by(record)
    &&& raw.record_type_field is Some ==> {
        &&& record.selector is Some
        &&& forall|j: int| 0 <= j < i ==> (#[trigger] raw.records[j]).selector != record.selector
    }
}

/// Whether a layout is in order.
pub open spec fn is_layout_in_order(raw: RawLayoutModel) -> bool {
    &&& raw.records.len() > 0
    &&& raw.records.len() > 1 ==> raw.record_type_field is Some
    &&& raw.footer_size <= 0x1_000_000
    &&& is_prefix_in_order(raw.record_length_field)
    &&& is_prefix_in_order(raw.record_type_field)
    &&& raw.record_length_field matches Some(field) ==> field.scale == 0
    &&& forall|i: int| 0 <= i < raw.records.len() ==> #[trigger] is_record_in_order(raw, i)
}

/// A field starts where it stands and the ones in front of it reach there.
proof fn lemma_place(fields: Seq<RawFieldModel>, k: int)
    requires
        0 <= k < fields.len(),
    ensures
        start(fields, k) == place(fields, k),
        reach(fields, k) == (if k == 0 {
            0
        } else {
            place(fields, k - 1) + fields[k - 1].size
        }),
    decreases k,
{
    if k > 0 {
        lemma_place(fields, k - 1);
    }
}

/// A field has a fault exactly when it is not in order, provided that the ones
/// in front have none.
proof fn lemma_field_in_order(name: Seq<char>, fields: Seq<RawFieldModel>, k: int)
    requires
        0 <= k < fields.len(),
    ensures
        field_fault(name, fields, k) is None <==> is_in_order(fields, k),
{
    lemma_place(fields, k);
    let field = fields[k];
    if is_in_order(fields, k) {
        assert(!(field.kind != FieldKind::Skip && repeats_name(fields, k)));
    }
    if field_fault(name, fields, k) is None && field.kind != FieldKind::Skip {
        assert(!repeats_name(fields, k));
        assert forall|j: int| 0 <= j < k && (#[trigger] fields[j]).kind != FieldKind::Skip implies
            fields[j].name != field.name by {}
    }
}

/// Fields have no fault exactly when all of them are in order.
proof fn lemma_fields_in_order(name: Seq<char>, fields: Seq<RawFieldModel>, from: int)
    requires
        0 <= from <= fields.len(),
    ensures
        fields_fault(name, fields, from) is None <==> forall|k: int|
            from <= k < fields.len() ==> #[trigger] is_in_order(fields, k),
    decreases fields.len() - from,
{
    if from < fields.len() {
        lemma_field_in_order(name, fields, from);
        lemma_fields_in_order(name, fields, from + 1);
        assert forall|k: int|
            fields_fault(name, fields, from) is None && from <= k < fields.len() implies
            #[trigger] is_in_order(fields, k) by {
            lemma_no_field_fault(name, fields, from, k);
            lemma_field_in_order(name, fields, k);
        }
    }
}

/// A schema has a fault exactly when it is not in order.
proof fn lemma_record_in_order(raw: RawLayoutModel, i: int)
    requires
        0 <= i < raw.records.len(),
    ensures
        record_fault(raw.records, raw.record_type_field is Some, i) is None
            <==> is_record_in_order(raw, i),
{
    let record = raw.records[i];
    lemma_fields_in_order(schema_name(record), record.fields, 0);
    if is_record_in_order(raw, i) {
        assert(!repeats_schema(raw.records, i));
        assert(raw.record_type_field is Some ==> !repeats_selector(raw.records, i));
    }
    if record_fault(raw.records, raw.record_type_field is Some, i) is None {
        assert forall|j: int| 0 <= j < i implies goes_by(#[trigger] raw.records[j]) != goes_by(
            record,
        ) by {
            assert(!repeats_schema(raw.records, i));
        }
    }
}

/// Schemas have no fault exactly when all of them are in order.
proof fn lemma_records_in_order(raw: RawLayoutModel, from: int)
    requires
        0 <= from <= raw.records.len(),
    ensures
        records_fault(raw.records, raw.record_type_field is Some, from) is None <==> forall|i: int|
            from <= i < raw.records.len() ==> #[trigger] is_record_in_order(raw, i),
    decreases raw.records.len() - from,
{
    if from < raw.records.len() {
        lemma_record_in_order(raw, from);
        lemma_records_in_order(raw, from + 1);
        assert forall|i: int|
            records_fault(raw.records, raw.record_type_field is Some, from) is None && from <= i
                < raw.records.len() implies #[trigger] is_record_in_order(raw, i) by {
            lemma_no_record_fault(raw.records, raw.record_type_field is Some, from, i);
            lemma_record_in_order(raw, i);
        }
    }
}

/// A layout is accepted exactly when it is in order.
pub proof fn law_a_layout_is_accepted_when_it_is_in_order(
    raw: RawLayoutModel,
    source: LayoutSource,
)
    ensures
        validated(raw, source) is Ok <==> is_layout_in_order(raw),
{
    lemma_records_in_order(raw, 0);
}

/// Each field of an accepted layout is where it is declared, or right behind the
/// one in front, and a record ends with its last field.
pub proof fn law_fields_are_where_they_are_declared(
    raw: RawLayoutModel,
    source: LayoutSource,
    i: int,
    k: int,
)
    requires
        is_layout_in_order(raw),
        0 <= i < raw.records.len(),
        0 <= k < raw.records[i].fields.len(),
    ensures
        validated(raw, source) matches Ok(layout) && {
            let record = layout.records[i];
            let fields = raw.records[i].fields;
            &&& record.fields[k].offset == place(fields, k)
            &&& record.size == place(fields, fields.len() - 1) + fields.last().size
        },
{
    law_a_layout_is_accepted_when_it_is_in_order(raw, source);
    let fields = raw.records[i].fields;
    let name = schema_name(raw.records[i]);
    assert(is_record_in_order(raw, i));
    lemma_fields_in_order(name, fields, 0);
    lemma_place(fields, k);
    lemma_place(fields, fields.len() - 1);
    lemma_reach(name, fields, k);
    lemma_reach(name, fields, fields.len() as int);
}

/// A record type selects the first schema that has it as its selector, and none
/// when no schema has it. Without a record-type field the first schema has every
/// record.
pub proof fn law_a_record_type_selects_by_the_selector(
    layout: LayoutModel,
    value: Option<Seq<char>>,
)
    ensures
        ({
            let found = selected_schema(layout, value);
            if layout.record_type_field is None {
                found == 0
            } else {
                &&& 0 <= found <= layout.records.len()
                &&& found < layout.records.len() ==> layout.records[found].selector == value
                &&& forall|i: int| 0 <= i < found ==> (#[trigger] layout.records[i]).selector != value
            }
        }),
{
    lemma_selects(layout.records, value, 0);
}

proof fn lemma_selects(records: Seq<RecordLayoutModel>, value: Option<Seq<char>>, from: int)
    requires
        0 <= from <= records.len(),
    ensures
        ({
            let found = schema_with_selector(records, value, from);
            &&& from <= found <= records.len()
            &&& found < records.len() ==> records[found].selector == value
            &&& forall|i: int| from <= i < found ==> (#[trigger] records[i]).selector != value
        }),
    decreases records.len() - from,
{
    if from < records.len() && records[from].selector != value {
        lemma_selects(records, value, from + 1);
    }
}

/// The opening event says what the layout is: where its header, footer and
/// prefix end, and of every record and every field, fillers included, its name,
/// place, size, type, scale, picture and declaration.
pub proof fn law_the_opening_says_what_the_layout_is(
    layout: LayoutModel,
    encoding: Seq<char>,
    i: int,
    k: int,
)
    requires
        0 <= i < layout.records.len(),
        0 <= k < layout.records[i].fields.len(),
    ensures
        ({
            let info = layout_info(layout, encoding);
            let record = info.records[i];
            let shown = record.fields[k];
            let field = layout.records[i].fields[k];
            &&& info.encoding == encoding
            &&& info.description == layout.description
            &&& info.header_size == layout.header_size
            &&& info.footer_size == layout.footer_size
            &&& info.prefix_size == layout.prefix_size
            &&& LayoutSource::from_number(info.source) == Some(layout.source)
            &&& info.records.len() == layout.records.len()
            &&& record.name == layout.records[i].name
            &&& record.record_length == layout.records[i].size
            &&& record.selector == layout.records[i].selector
            &&& record.fields.len() == layout.records[i].fields.len()
            &&& shown.name == field.name
            &&& shown.offset == field.offset
            &&& shown.size == field.size
            &&& shown.scale == field.scale
            &&& shown.picture == field.picture
            &&& kind_of(shown.field_type) == Ok::<FieldKind, Failure>(field.kind)
            &&& shown.level == field.declaration.level
            &&& shown.path == field.declaration.path
            &&& shown.occurs_index == field.declaration.occurs_index
            &&& shown.occurs_group == field.declaration.occurs_group
            &&& shown.conditions == field.declaration.conditions
        }),
{
}

/// Whether a field asks for more than this build decodes: more bytes than its
/// decoder takes, or a place behind the first sixteen mebibytes of a record.
pub open spec fn is_too_large(fields: Seq<RawFieldModel>, k: int) -> bool {
    let field = fields[k];
    let end = place(fields, k) + field.size;
    &&& field.size > 0
    &&& !is_taken(field) || (0x1_000_000 < end <= u32::MAX && (k > 0 ==> place(fields, k - 1)
        + fields[k - 1].size <= place(fields, k)) && place(fields, k) >= 0)
}

/// A field that is refused is refused as unsupported when it asks for more than
/// this build decodes, and as invalid when the layout is wrong. What is said of
/// it names the record.
pub proof fn law_why_a_field_is_refused(name: Seq<char>, fields: Seq<RawFieldModel>, k: int)
    requires
        0 <= k < fields.len(),
    ensures
        field_fault(name, fields, k) matches Some(failure) ==> {
            &&& failure is Unsupported <==> is_too_large(fields, k)
            &&& failure is Invalid <==> !is_too_large(fields, k)
            &&& mentions(failure.message(), "record "@ + quoted(name))
        },
{
    lemma_place(fields, k);
    if let Some(failure) = field_fault(name, fields, k) {
        let field = fields[k];
        let part = "record "@ + quoted(name);
        let message = failure.message();
        reveal_strlit(" of record ");
        reveal_strlit(" of ");
        reveal_strlit("record ");
        reveal_strlit("a field of record ");
        reveal_strlit("a field of ");
        assert(" of record "@ =~= " of "@ + "record "@);
        assert("a field of record "@ =~= "a field of "@ + "record "@);
        let inner = "field "@ + quoted(field.name) + " of "@;
        let n = if field.size == 0 || (width_fault(field, part) is None && (start(fields, k)
            < reach(fields, k))) {
            inner.len() as int
        } else if width_fault(field, part) is Some || start(fields, k) + field.size > 0x1_000_000 {
            0
        } else if field.kind != FieldKind::Skip && repeats_name(fields, k) {
            0
        } else if field.kind != FieldKind::Skip && field.name.len() == 0 {
            "a field of "@.len() as int
        } else {
            inner.len() as int
        };
        assert(message.subrange(n, n + part.len()) =~= part);
        assert(mentions(message, part));
    }
}

/// Of the parts of a layout only those that are too large are unsupported: a
/// layout whose footer, prefix fields and fields are all of sizes that this
/// build takes is refused as invalid, if it is refused.
pub proof fn law_only_what_is_too_large_is_unsupported(raw: RawLayoutModel, source: LayoutSource)
    requires
        raw.footer_size <= 0x1_000_000,
        raw.record_length_field matches Some(field) ==> is_taken(field),
        raw.record_type_field matches Some(field) ==> is_taken(field),
        forall|i: int, k: int|
            0 <= i < raw.records.len() && 0 <= k < raw.records[i].fields.len()
                ==> !#[trigger] is_too_large(raw.records[i].fields, k),
    ensures
        validated(raw, source) matches Err(failure) ==> failure is Invalid,
{
    lemma_records_are_invalid(raw, 0);
}

/// Schemas without anything too large are refused as invalid.
proof fn lemma_records_are_invalid(raw: RawLayoutModel, from: int)
    requires
        0 <= from <= raw.records.len(),
        forall|i: int, k: int|
            0 <= i < raw.records.len() && 0 <= k < raw.records[i].fields.len()
                ==> !#[trigger] is_too_large(raw.records[i].fields, k),
    ensures
        records_fault(raw.records, raw.record_type_field is Some, from) matches Some(failure)
            ==> failure is Invalid,
    decreases raw.records.len() - from,
{
    if from < raw.records.len() {
        lemma_records_are_invalid(raw, from + 1);
        let record = raw.records[from];
        assert forall|k: int| 0 <= k < record.fields.len() implies !#[trigger] is_too_large(
            record.fields,
            k,
        ) by {
            assert(!is_too_large(raw.records[from].fields, k));
        }
        lemma_fields_are_invalid(schema_name(record), record.fields, 0);
    }
}

/// Fields none of which is too large are refused as invalid.
proof fn lemma_fields_are_invalid(name: Seq<char>, fields: Seq<RawFieldModel>, from: int)
    requires
        0 <= from <= fields.len(),
        forall|k: int| 0 <= k < fields.len() ==> !#[trigger] is_too_large(fields, k),
    ensures
        fields_fault(name, fields, from) matches Some(failure) ==> failure is Invalid,
    decreases fields.len() - from,
{
    if from < fields.len() {
        law_why_a_field_is_refused(name, fields, from);
        lemma_fields_are_invalid(name, fields, from + 1);
        assert(!is_too_large(fields, from));
    }
}

/// A footer that is too large is unsupported, and so is a prefix field that is
/// too wide, where nothing in front of it is wrong.
pub proof fn law_what_is_too_large_is_unsupported(raw: RawLayoutModel, source: LayoutSource)
    requires
        raw.records.len() > 0,
    ensures
        raw.footer_size > 0x1_000_000 ==> (validated(raw, source) matches Err(failure) && failure
            is Unsupported),
        raw.footer_size <= 0x1_000_000 ==> (raw.record_length_field matches Some(field) ==> (
        field.size > 0 && field.kind != FieldKind::Skip && !is_taken(field) ==> (validated(
            raw,
            source,
        ) matches Err(failure) && failure is Unsupported))),
{
}

} // verus!
