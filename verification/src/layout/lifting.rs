//! Lifting the layout message and the JSON form into the raw shape that
//! validation takes.
//!
//! Both are flat field lists: no levels, no groups, no `OCCURS`. Validation
//! fills each field's path in from its name.

use vstd::prelude::*;
use vstd::string::StringExecFns;
use crate::error::{outcome, Failure, ParseError};
use crate::layout::{copy_text, kind_of, Declaration, DeclarationModel, FieldKind, JsonField,
    JsonFieldType, JsonForm, JsonLayout, JsonRecord, RawField, RawFieldModel, RawLayout,
    RawLayoutModel, RawRecord, RawRecordModel};
use crate::proto::v1::{EbcdicField, EbcdicLayout, EbcdicRecordLayout};
use crate::text::cat2;

verus! {

/// The declaration of a field of a flat form.
pub open spec fn flat_declaration() -> DeclarationModel {
    DeclarationModel {
        level: None,
        path: Seq::empty(),
        occurs_index: None,
        occurs_group: None,
        conditions: Seq::empty(),
    }
}

/// The declaration of a field of a flat form.
fn flat() -> (r: Declaration)
    ensures
        r.deep_view() == flat_declaration(),
{
    let r: Declaration = Declaration {
        level: None,
        path: String::new(),
        occurs_index: None,
        occurs_group: None,
        conditions: Vec::new(),
    };
    proof {
        assert(r.deep_view() =~= flat_declaration());
    }
    r
}

/// A field of the layout message, lifted. A type number this build does not
/// know is refused.
pub open spec fn lifted_field(field: EbcdicField) -> Result<RawFieldModel, Failure> {
    match kind_of(field.field_type) {
        Err(failure) => Err(failure),
        Ok(kind) => Ok(
            RawFieldModel {
                name: field.name@,
                size: field.size,
                kind,
                scale: field.scale,
                picture: field.picture@,
                offset: field.offset,
                declaration: flat_declaration(),
            },
        ),
    }
}

/// The fields of a record from `from` on, lifted in order.
pub open spec fn lifted_fields(fields: Seq<EbcdicField>, from: int) -> Result<
    Seq<RawFieldModel>,
    Failure,
>
    decreases fields.len() - from,
{
    if from >= fields.len() {
        Ok(Seq::empty())
    } else {
        match lifted_field(fields[from]) {
            Err(failure) => Err(failure),
            Ok(field) => match lifted_fields(fields, from + 1) {
                Err(failure) => Err(failure),
                Ok(rest) => Ok(seq![field] + rest),
            },
        }
    }
}

/// A record schema of the layout message, lifted.
pub open spec fn lifted_record(record: EbcdicRecordLayout) -> Result<RawRecordModel, Failure> {
    match lifted_fields(record.fields@, 0) {
        Err(failure) => Err(failure),
        Ok(fields) => Ok(
            RawRecordModel {
                name: record.name@,
                fields,
                selector: record.selector.deep_view(),
            },
        ),
    }
}

/// The record schemas from `from` on, lifted in order.
pub open spec fn lifted_records(records: Seq<EbcdicRecordLayout>, from: int) -> Result<
    Seq<RawRecordModel>,
    Failure,
>
    decreases records.len() - from,
{
    if from >= records.len() {
        Ok(Seq::empty())
    } else {
        match lifted_record(records[from]) {
            Err(failure) => Err(failure),
            Ok(record) => match lifted_records(records, from + 1) {
                Err(failure) => Err(failure),
                Ok(rest) => Ok(seq![record] + rest),
            },
        }
    }
}

/// An optional prefix field, lifted.
pub open spec fn lifted_prefix(field: Option<EbcdicField>) -> Result<
    Option<RawFieldModel>,
    Failure,
> {
    match field {
        None => Ok(None),
        Some(field) => match lifted_field(field) {
            Err(failure) => Err(failure),
            Ok(field) => Ok(Some(field)),
        },
    }
}

/// A layout message, lifted: the first unknown type number of its records, its
/// record-length field and its record-type field, in this order, is refused.
pub open spec fn lifted_layout(layout: EbcdicLayout) -> Result<RawLayoutModel, Failure> {
    match lifted_records(layout.records@, 0) {
        Err(failure) => Err(failure),
        Ok(records) => match lifted_prefix(layout.record_length_field) {
            Err(failure) => Err(failure),
            Ok(record_length_field) => match lifted_prefix(layout.record_type_field) {
                Err(failure) => Err(failure),
                Ok(record_type_field) => Ok(
                    RawLayoutModel {
                        records,
                        description: layout.description@,
                        header_size: layout.header_size,
                        footer_size: layout.footer_size,
                        record_length_field,
                        record_type_field,
                    },
                ),
            },
        },
    }
}

fn lift_field(field: &EbcdicField) -> (r: Result<RawField, ParseError>)
    ensures
        outcome(r) == lifted_field(*field),
{
    match FieldKind::from_proto(field.field_type) {
        Err(error) => Err(error),
        Ok(kind) => Ok(
            RawField {
                name: field.name.clone(),
                size: field.size,
                kind,
                scale: field.scale,
                picture: field.picture.clone(),
                offset: field.offset,
                declaration: flat(),
            },
        ),
    }
}

fn lift_fields(fields: &Vec<EbcdicField>) -> (r: Result<Vec<RawField>, ParseError>)
    ensures
        outcome(r) == lifted_fields(fields@, 0),
{
    let mut out: Vec<RawField> = Vec::new();
    let mut i: usize = 0;
    let ghost all = lifted_fields(fields@, 0);
    proof {
        if all is Ok {
            assert(Seq::<RawFieldModel>::empty() + all->Ok_0 =~= all->Ok_0);
        }
    }
    while i < fields.len()
        invariant
            i <= fields@.len(),
            all == lifted_fields(fields@, 0),
            lifted_fields(fields@, i as int) is Err ==> all == lifted_fields(fields@, i as int),
            lifted_fields(fields@, i as int) matches Ok(rest) ==> all == Ok::<_, Failure>(
                out.deep_view() + rest,
            ),
        decreases fields@.len() - i,
    {
        let ghost before = out.deep_view();
        match lift_field(&fields[i]) {
            Err(error) => {
                return Err(error);
            },
            Ok(field) => {
                let ghost model = field.deep_view();
                out.push(field);
                proof {
                    assert(out.deep_view() =~= before.push(model));
                    if let Ok(rest) = lifted_fields(fields@, i + 1) {
                        assert(before + (seq![model] + rest) =~= before.push(model) + rest);
                    }
                }
            },
        }
        i = i + 1;
    }
    proof {
        assert(out.deep_view() + Seq::<RawFieldModel>::empty() =~= out.deep_view());
    }
    Ok(out)
}

fn lift_record(record: &EbcdicRecordLayout) -> (r: Result<RawRecord, ParseError>)
    ensures
        outcome(r) == lifted_record(*record),
{
    match lift_fields(&record.fields) {
        Err(error) => Err(error),
        Ok(fields) => Ok(
            RawRecord {
                name: record.name.clone(),
                fields,
                selector: copy_text(&record.selector),
            },
        ),
    }
}

fn lift_records(records: &Vec<EbcdicRecordLayout>) -> (r: Result<Vec<RawRecord>, ParseError>)
    ensures
        outcome(r) == lifted_records(records@, 0),
{
    let mut out: Vec<RawRecord> = Vec::new();
    let mut i: usize = 0;
    let ghost all = lifted_records(records@, 0);
    proof {
        if all is Ok {
            assert(Seq::<RawRecordModel>::empty() + all->Ok_0 =~= all->Ok_0);
        }
    }
    while i < records.len()
        invariant
            i <= records@.len(),
            all == lifted_records(records@, 0),
            lifted_records(records@, i as int) is Err ==> all == lifted_records(
                records@,
                i as int,
            ),
            lifted_records(records@, i as int) matches Ok(rest) ==> all == Ok::<_, Failure>(
                out.deep_view() + rest,
            ),
        decreases records@.len() - i,
    {
        let ghost before = out.deep_view();
        match lift_record(&records[i]) {
            Err(error) => {
                return Err(error);
            },
            Ok(record) => {
                let ghost model = record.deep_view();
                out.push(record);
                proof {
                    assert(out.deep_view() =~= before.push(model));
                    if let Ok(rest) = lifted_records(records@, i + 1) {
                        assert(before + (seq![model] + rest) =~= before.push(model) + rest);
                    }
                }
            },
        }
        i = i + 1;
    }
    proof {
        assert(out.deep_view() + Seq::<RawRecordModel>::empty() =~= out.deep_view());
    }
    Ok(out)
}

fn lift_prefix(field: &Option<EbcdicField>) -> (r: Result<Option<RawField>, ParseError>)
    ensures
        outcome(r) == lifted_prefix(*field),
{
    match field {
        None => Ok(None),
        Some(field) => match lift_field(field) {
            Err(error) => Err(error),
            Ok(field) => Ok(Some(field)),
        },
    }
}

/// Lift a layout message into the raw shape.
pub fn from_proto(layout: &EbcdicLayout) -> (r: Result<RawLayout, ParseError>)
    ensures
        outcome(r) == lifted_layout(*layout),
{
    let records: Vec<RawRecord> = match lift_records(&layout.records) {
        Err(error) => {
            return Err(error);
        },
        Ok(records) => records,
    };
    let record_length_field: Option<RawField> = match lift_prefix(&layout.record_length_field) {
        Err(error) => {
            return Err(error);
        },
        Ok(field) => field,
    };
    let record_type_field: Option<RawField> = match lift_prefix(&layout.record_type_field) {
        Err(error) => {
            return Err(error);
        },
        Ok(field) => field,
    };
    Ok(
        RawLayout {
            records,
            description: layout.description.clone(),
            header_size: layout.header_size,
            footer_size: layout.footer_size,
            record_length_field,
            record_type_field,
        },
    )
}

/// The kind a JSON field type stands for.
pub open spec fn json_kind(field_type: JsonFieldType) -> FieldKind {
    match field_type {
        JsonFieldType::String => FieldKind::Text,
        JsonFieldType::Integer => FieldKind::Integer,
        JsonFieldType::UnsignedInteger => FieldKind::UnsignedInteger,
        JsonFieldType::PackedDecimal => FieldKind::PackedDecimal,
        JsonFieldType::ZonedDecimal => FieldKind::ZonedDecimal,
        JsonFieldType::Skip => FieldKind::Skip,
    }
}

/// Optional text, empty when it is absent.
pub open spec fn text_or_empty(text: Option<String>) -> Seq<char> {
    match text {
        Some(text) => text@,
        None => Seq::empty(),
    }
}

/// A field of the JSON form, lifted.
pub open spec fn json_field(field: JsonField) -> RawFieldModel {
    RawFieldModel {
        name: field.name@,
        size: field.size,
        kind: json_kind(field.field_type),
        scale: field.scale,
        picture: text_or_empty(field.picture),
        offset: field.offset,
        declaration: flat_declaration(),
    }
}

/// A record schema of the JSON form, lifted.
pub open spec fn json_record(record: JsonRecord) -> RawRecordModel {
    RawRecordModel {
        name: text_or_empty(record.name),
        fields: Seq::new(record.fields@.len(), |i: int| json_field(record.fields@[i])),
        selector: record.selector.deep_view(),
    }
}

/// An optional prefix field of the JSON form, lifted.
pub open spec fn json_prefix(field: Option<JsonField>) -> Option<RawFieldModel> {
    match field {
        Some(field) => Some(json_field(field)),
        None => None,
    }
}

/// A layout in its JSON form, lifted.
pub open spec fn json_layout(layout: JsonLayout) -> RawLayoutModel {
    RawLayoutModel {
        records: Seq::new(layout.records@.len(), |i: int| json_record(layout.records@[i])),
        description: layout.description@,
        header_size: layout.header_size,
        footer_size: layout.footer_size,
        record_length_field: json_prefix(layout.record_length_field),
        record_type_field: json_prefix(layout.record_type_field),
    }
}

/// What reading the bytes of a JSON layout gave, lifted: bytes that spell no
/// layout are refused with the reader's reason.
pub open spec fn json_form(form: JsonForm) -> Result<RawLayoutModel, Failure> {
    match form {
        JsonForm::Parsed(layout) => Ok(json_layout(layout)),
        JsonForm::Malformed(reason) => Err(
            Failure::Invalid("layout_json is not a Docling EbcdicLayout: "@ + reason@),
        ),
    }
}

impl JsonFieldType {
    /// The kind this type stands for.
    pub fn kind(self) -> (r: FieldKind)
        ensures
            r == json_kind(self),
    {
        match self {
            JsonFieldType::String => FieldKind::Text,
            JsonFieldType::Integer => FieldKind::Integer,
            JsonFieldType::UnsignedInteger => FieldKind::UnsignedInteger,
            JsonFieldType::PackedDecimal => FieldKind::PackedDecimal,
            JsonFieldType::ZonedDecimal => FieldKind::ZonedDecimal,
            JsonFieldType::Skip => FieldKind::Skip,
        }
    }
}

fn text_of(text: &Option<String>) -> (r: String)
    ensures
        r@ == text_or_empty(*text),
{
    match text {
        Some(text) => text.clone(),
        None => String::new(),
    }
}

fn lift_json_field(field: &JsonField) -> (r: RawField)
    ensures
        r.deep_view() == json_field(*field),
{
    RawField {
        name: field.name.clone(),
        size: field.size,
        kind: field.field_type.kind(),
        scale: field.scale,
        picture: text_of(&field.picture),
        offset: field.offset,
        declaration: flat(),
    }
}

fn lift_json_record(record: &JsonRecord) -> (r: RawRecord)
    ensures
        r.deep_view() == json_record(*record),
{
    let mut fields: Vec<RawField> = Vec::new();
    let mut i: usize = 0;
    while i < record.fields.len()
        invariant
            i <= record.fields@.len(),
            fields@.len() == i,
            forall|j: int|
                0 <= j < i ==> (#[trigger] fields@[j]).deep_view() == json_field(
                    record.fields@[j],
                ),
        decreases record.fields@.len() - i,
    {
        fields.push(lift_json_field(&record.fields[i]));
        i = i + 1;
    }
    let r: RawRecord = RawRecord {
        name: text_of(&record.name),
        fields,
        selector: copy_text(&record.selector),
    };
    proof {
        assert(r.deep_view().fields =~= json_record(*record).fields);
    }
    r
}

fn lift_json_prefix(field: &Option<JsonField>) -> (r: Option<RawField>)
    ensures
        r.deep_view() == json_prefix(*field),
{
    match field {
        Some(field) => Some(lift_json_field(field)),
        None => None,
    }
}

/// Lift a layout in its JSON form into the raw shape.
pub fn from_json(form: &JsonForm) -> (r: Result<RawLayout, ParseError>)
    ensures
        outcome(r) == json_form(*form),
{
    let layout: &JsonLayout = match form {
        JsonForm::Parsed(layout) => layout,
        JsonForm::Malformed(reason) => {
            return Err(
                ParseError::invalid(cat2("layout_json is not a Docling EbcdicLayout: ", reason)),
            );
        },
    };
    let mut records: Vec<RawRecord> = Vec::new();
    let mut i: usize = 0;
    while i < layout.records.len()
        invariant
            i <= layout.records@.len(),
            records@.len() == i,
            forall|j: int|
                0 <= j < i ==> (#[trigger] records@[j]).deep_view() == json_record(
                    layout.records@[j],
                ),
        decreases layout.records@.len() - i,
    {
        records.push(lift_json_record(&layout.records[i]));
        i = i + 1;
    }
    let r: RawLayout = RawLayout {
        records,
        description: layout.description.clone(),
        header_size: layout.header_size,
        footer_size: layout.footer_size,
        record_length_field: lift_json_prefix(&layout.record_length_field),
        record_type_field: lift_json_prefix(&layout.record_type_field),
    };
    proof {
        assert(r.deep_view().records =~= json_layout(*layout).records);
    }
    Ok(r)
}

} // verus!
