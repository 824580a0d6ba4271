//! Turning a raw layout into a validated one, or saying exactly why it cannot
//! be.
//!
//! What validation refuses is stated as faults: a layout has the fault of its
//! first faulty part, a record that of its first faulty field. A layout
//! without a fault resolves, and what it resolves to is stated part by part.

use vstd::prelude::*;
use vstd::hash_set::StringHashSet;
use crate::decode::{MAX_BINARY_BYTES, MAX_PACKED_BYTES, MAX_ZONED_BYTES};
use crate::error::{outcome, Failure, ParseError};
use crate::layout::{copy_conditions, copy_text, numeric, Declaration, DeclarationModel, Field,
    FieldKind, FieldModel, Layout, LayoutModel, RawField, RawFieldModel, RawLayout, RawLayoutModel,
    RawRecord, RawRecordModel, RecordLayout, RecordLayoutModel};
use crate::proto::v1::LayoutSource;
use crate::text::{cat2, cat3, cat5, cat7, cat9, decimal, decimal_text, quote, quoted};

verus! {

/// Widest record body the server will assemble, in bytes.
///
/// A record is the unit that must be buffered whole before it can be decoded,
/// so this is the real memory bound of a parse. Sixteen mebibytes is far past
/// any copybook and small enough that a thousand concurrent streams still fit
/// in a container.
pub const MAX_RECORD_BYTES: u32 = 16_777_216;

/// Largest footer the server will hold back, in bytes.
///
/// Footer bytes cannot be decoded until the input ends, so they are buffered
/// for the whole parse. Same reasoning and same number as
/// [`MAX_RECORD_BYTES`].
pub const MAX_FOOTER_BYTES: u32 = 16_777_216;

/// The widest field of a kind that the decoders handle, in bytes.
pub open spec fn width_limit(kind: FieldKind) -> u32 {
    match kind {
        FieldKind::PackedDecimal => MAX_PACKED_BYTES,
        FieldKind::ZonedDecimal => MAX_ZONED_BYTES,
        FieldKind::Integer => MAX_BINARY_BYTES,
        FieldKind::UnsignedInteger => MAX_BINARY_BYTES,
        FieldKind::Text => MAX_RECORD_BYTES,
        FieldKind::Skip => MAX_RECORD_BYTES,
    }
}

/// The fault of a field that is wider than its decoder handles.
pub open spec fn width_fault(field: RawFieldModel, context: Seq<char>) -> Option<Failure> {
    if field.size > width_limit(field.kind) {
        Some(
            Failure::Unsupported(
                context + " field "@ + quoted(field.name) + " is "@ + decimal(field.size as nat)
                    + " bytes; this build decodes at most "@ + decimal(
                    width_limit(field.kind) as nat,
                ),
            ),
        )
    } else {
        None
    }
}

/// The fault of a prefix field: it is read ahead of every record, so it has to
/// be something a length or a selector can be made of.
pub open spec fn prefix_fault(field: RawFieldModel, role: Seq<char>) -> Option<Failure> {
    if field.size == 0 {
        Some(Failure::Invalid("the "@ + role + " field must be at least one byte"@))
    } else if field.kind == FieldKind::Skip {
        Some(
            Failure::Invalid(
                "the "@ + role + " field cannot be a filler: its value is what it is there for"@,
            ),
        )
    } else {
        width_fault(field, role)
    }
}

/// The name of a prefix field: its role when it declares none.
pub open spec fn prefix_name(field: RawFieldModel, role: Seq<char>) -> Seq<char> {
    if field.name.len() == 0 {
        role
    } else {
        field.name
    }
}

/// What a prefix field resolves to.
pub open spec fn resolved_prefix(field: RawFieldModel, role: Seq<char>, offset: u32) -> FieldModel {
    FieldModel {
        name: prefix_name(field, role),
        offset,
        size: field.size,
        kind: field.kind,
        scale: field.scale,
        picture: field.picture,
        declaration: DeclarationModel { path: prefix_name(field, role), ..field.declaration },
    }
}

/// Where the first `k` fields of a record end: each starts at its declared
/// offset, or where the one before it ends.
pub open spec fn reach(fields: Seq<RawFieldModel>, k: int) -> int
    decreases k, 0int,
{
    if k <= 0 {
        0
    } else {
        start(fields, k - 1) + fields[k - 1].size
    }
}

/// Where field `k` of a record starts.
pub open spec fn start(fields: Seq<RawFieldModel>, k: int) -> int
    decreases k, 1int,
{
    match fields[k].offset {
        Some(declared) => declared as int,
        None => reach(fields, k),
    }
}

/// Whether field `k` of a record repeats the name of a field before it.
/// Fillers have no name to repeat.
pub open spec fn repeats_name(fields: Seq<RawFieldModel>, k: int) -> bool {
    exists|j: int|
        0 <= j < k && #[trigger] fields[j].kind != FieldKind::Skip && fields[j].name
            == fields[k].name
}

/// The fault of field `k` of a record, when the fields before it have none.
pub open spec fn field_fault(name: Seq<char>, fields: Seq<RawFieldModel>, k: int) -> Option<
    Failure,
> {
    let field = fields[k];
    let end = start(fields, k) + field.size;
    if field.size == 0 {
        Some(
            Failure::Invalid(
                "field "@ + quoted(field.name) + " of record "@ + quoted(name)
                    + " has zero width"@,
            ),
        )
    } else if width_fault(field, "record "@ + quoted(name)) is Some {
        width_fault(field, "record "@ + quoted(name))
    } else if start(fields, k) < reach(fields, k) {
        Some(
            Failure::Invalid(
                "field "@ + quoted(field.name) + " of record "@ + quoted(name)
                    + " declares offset "@ + decimal(start(fields, k) as nat)
                    + " but the fields before it already reach "@ + decimal(
                    reach(fields, k) as nat,
                ) + "; fields may not overlap"@,
            ),
        )
    } else if end > u32::MAX {
        Some(
            Failure::Invalid(
                "record "@ + quoted(name) + " overflows a 32-bit record length"@,
            ),
        )
    } else if end > MAX_RECORD_BYTES {
        Some(
            Failure::Unsupported(
                "record "@ + quoted(name) + " is at least "@ + decimal(end as nat)
                    + " bytes; this build decodes records up to 16777216 bytes"@,
            ),
        )
    } else if field.kind != FieldKind::Skip && repeats_name(fields, k) {
        Some(
            Failure::Invalid(
                "record "@ + quoted(name) + " has two fields named "@ + quoted(field.name)
                    + "; cells are addressed by name, so qualify one of them or mark it as a filler"@,
            ),
        )
    } else if field.kind != FieldKind::Skip && field.name.len() == 0 {
        Some(
            Failure::Invalid(
                "a field of record "@ + quoted(name)
                    + " has no name; only fillers may be anonymous"@,
            ),
        )
    } else if field.scale != 0 && !numeric(field.kind) {
        Some(
            Failure::Invalid(
                "field "@ + quoted(field.name) + " of record "@ + quoted(name) + " has scale "@
                    + decimal(field.scale as nat) + " but is not a numeric field"@,
            ),
        )
    } else {
        None
    }
}

/// The fault of the first faulty field at or after `from`.
pub open spec fn fields_fault(name: Seq<char>, fields: Seq<RawFieldModel>, from: int) -> Option<
    Failure,
>
    decreases fields.len() - from,
{
    if from >= fields.len() {
        None
    } else if field_fault(name, fields, from) is Some {
        field_fault(name, fields, from)
    } else {
        fields_fault(name, fields, from + 1)
    }
}

/// What a field's declaration resolves to: the name is the whole path where
/// the form has no hierarchy.
pub open spec fn resolved_declaration(field: RawFieldModel) -> DeclarationModel {
    if field.declaration.path.len() == 0 {
        DeclarationModel { path: field.name, ..field.declaration }
    } else {
        field.declaration
    }
}

/// What field `k` of a record resolves to.
pub open spec fn resolved_field(fields: Seq<RawFieldModel>, k: int) -> FieldModel {
    FieldModel {
        name: fields[k].name,
        offset: start(fields, k) as u32,
        size: fields[k].size,
        kind: fields[k].kind,
        scale: fields[k].scale,
        picture: fields[k].picture,
        declaration: resolved_declaration(fields[k]),
    }
}

/// The name of a record schema, with its default.
pub open spec fn schema_name(record: RawRecordModel) -> Seq<char> {
    if record.name.len() == 0 {
        "record"@
    } else {
        record.name
    }
}

/// What a record schema resolves to.
pub open spec fn resolved_record(record: RawRecordModel) -> RecordLayoutModel {
    RecordLayoutModel {
        name: schema_name(record),
        fields: Seq::new(record.fields.len(), |k: int| resolved_field(record.fields, k)),
        size: reach(record.fields, record.fields.len() as int) as u32,
        selector: record.selector,
    }
}

/// Whether schema `i` repeats the name of a schema before it.
pub open spec fn repeats_schema(records: Seq<RawRecordModel>, i: int) -> bool {
    exists|j: int| 0 <= j < i && schema_name(#[trigger] records[j]) == schema_name(records[i])
}

/// Whether schema `i` repeats the selector of a schema before it.
pub open spec fn repeats_selector(records: Seq<RawRecordModel>, i: int) -> bool {
    exists|j: int| 0 <= j < i && (#[trigger] records[j]).selector == records[i].selector
}

/// The fault of schema `i`, when the schemas before it have none. With a
/// record-type field every schema needs a selector of its own.
pub open spec fn record_fault(
    records: Seq<RawRecordModel>,
    has_type_field: bool,
    i: int,
) -> Option<Failure> {
    let record = records[i];
    let name = schema_name(record);
    if repeats_schema(records, i) {
        Some(
            Failure::Invalid(
                "two record schemas are both named "@ + quoted(name)
                    + "; schema names identify the rows they produce and must be unique"@,
            ),
        )
    } else if has_type_field && record.selector is None {
        Some(
            Failure::Invalid(
                "record schema "@ + quoted(name)
                    + " needs a selector: the layout has a record_type_field and every schema must say which value picks it"@,
            ),
        )
    } else if has_type_field && repeats_selector(records, i) {
        Some(
            Failure::Invalid(
                "record selector "@ + quoted(record.selector->Some_0)
                    + " matches two schemas; a record must resolve to exactly one layout"@,
            ),
        )
    } else if record.fields.len() == 0 {
        Some(Failure::Invalid("record schema "@ + quoted(name) + " has no fields"@))
    } else {
        fields_fault(name, record.fields, 0)
    }
}

/// The fault of the first faulty schema at or after `from`.
pub open spec fn records_fault(
    records: Seq<RawRecordModel>,
    has_type_field: bool,
    from: int,
) -> Option<Failure>
    decreases records.len() - from,
{
    if from >= records.len() {
        None
    } else if record_fault(records, has_type_field, from) is Some {
        record_fault(records, has_type_field, from)
    } else {
        records_fault(records, has_type_field, from + 1)
    }
}

/// The width of an optional prefix field.
pub open spec fn prefix_width(field: Option<RawFieldModel>) -> u32 {
    match field {
        Some(field) => field.size,
        None => 0,
    }
}

/// The fault of an optional prefix field.
pub open spec fn optional_prefix_fault(field: Option<RawFieldModel>, role: Seq<char>) -> Option<
    Failure,
> {
    match field {
        Some(field) => prefix_fault(field, role),
        None => None,
    }
}

/// What an optional prefix field resolves to.
pub open spec fn optional_prefix(field: Option<RawFieldModel>, role: Seq<char>, offset: u32) -> Option<
    FieldModel,
> {
    match field {
        Some(field) => Some(resolved_prefix(field, role, offset)),
        None => None,
    }
}

/// The fault of a layout: that of its first faulty part.
pub open spec fn layout_fault(raw: RawLayoutModel) -> Option<Failure> {
    if raw.records.len() == 0 {
        Some(Failure::Invalid("a layout needs at least one record schema"@))
    } else if raw.footer_size > MAX_FOOTER_BYTES {
        Some(
            Failure::Unsupported(
                "footer_size "@ + decimal(raw.footer_size as nat)
                    + " exceeds the 16777216-byte limit; footer bytes are held in memory for the whole parse"@,
            ),
        )
    } else if optional_prefix_fault(raw.record_length_field, "record_length"@) is Some {
        optional_prefix_fault(raw.record_length_field, "record_length"@)
    } else if raw.record_length_field matches Some(field) && field.scale != 0 {
        Some(
            Failure::Invalid(
                "the record_length field must have scale 0: a record cannot be a fraction of a byte long"@,
            ),
        )
    } else if optional_prefix_fault(raw.record_type_field, "record_type"@) is Some {
        optional_prefix_fault(raw.record_type_field, "record_type"@)
    } else if raw.records.len() > 1 && raw.record_type_field is None {
        Some(
            Failure::Invalid(
                "a layout with more than one record schema needs a record_type_field to choose between them"@,
            ),
        )
    } else {
        records_fault(raw.records, raw.record_type_field is Some, 0)
    }
}

/// What a layout without a fault resolves to.
pub open spec fn resolved_layout(raw: RawLayoutModel, source: LayoutSource) -> LayoutModel {
    LayoutModel {
        records: Seq::new(raw.records.len(), |i: int| resolved_record(raw.records[i])),
        description: raw.description,
        header_size: raw.header_size,
        footer_size: raw.footer_size,
        record_length_field: optional_prefix(raw.record_length_field, "record_length"@, 0),
        record_type_field: optional_prefix(
            raw.record_type_field,
            "record_type"@,
            prefix_width(raw.record_length_field),
        ),
        prefix_size: (prefix_width(raw.record_length_field) + prefix_width(
            raw.record_type_field,
        )) as u32,
        source,
    }
}

/// The outcome of validation.
pub open spec fn validated(raw: RawLayoutModel, source: LayoutSource) -> Result<
    LayoutModel,
    Failure,
> {
    match layout_fault(raw) {
        Some(failure) => Err(failure),
        None => Ok(resolved_layout(raw, source)),
    }
}

/// A check as contracts speak of it: the fault it found, if any.
pub open spec fn found(result: Result<(), ParseError>) -> Option<Failure> {
    match result {
        Ok(_) => None,
        Err(error) => Some(error@),
    }
}

/// Check the widths a decoder can actually handle.
fn check_width(field: &RawField, context: &str) -> (r: Result<(), ParseError>)
    ensures
        found(r) == width_fault(field.deep_view(), context@),
{
    let limit: u32 = match field.kind {
        FieldKind::PackedDecimal => MAX_PACKED_BYTES,
        FieldKind::ZonedDecimal => MAX_ZONED_BYTES,
        FieldKind::Integer => MAX_BINARY_BYTES,
        FieldKind::UnsignedInteger => MAX_BINARY_BYTES,
        FieldKind::Text => MAX_RECORD_BYTES,
        FieldKind::Skip => MAX_RECORD_BYTES,
    };
    if field.size > limit {
        return Err(
            ParseError::unsupported(
                cat7(
                    context,
                    " field ",
                    &quote(&field.name),
                    " is ",
                    &decimal_text(field.size as u128),
                    " bytes; this build decodes at most ",
                    &decimal_text(limit as u128),
                ),
            ),
        );
    }
    Ok(())
}

/// Copy a declaration with another path.
fn with_path(declaration: &Declaration, path: String) -> (r: Declaration)
    ensures
        r.deep_view() == (DeclarationModel { path: path@, ..declaration.deep_view() }),
{
    Declaration {
        level: declaration.level,
        path,
        occurs_index: declaration.occurs_index,
        occurs_group: copy_text(&declaration.occurs_group),
        conditions: copy_conditions(&declaration.conditions),
    }
}

/// Validate a prefix field.
fn prefix_field(raw: &Option<RawField>, role: &str, offset: u32) -> (r: Result<
    Option<Field>,
    ParseError,
>)
    ensures
        match r {
            Ok(field) => {
                &&& optional_prefix_fault(raw.deep_view(), role@) is None
                &&& field.deep_view() == optional_prefix(raw.deep_view(), role@, offset)
            },
            Err(error) => optional_prefix_fault(raw.deep_view(), role@) == Some(error@),
        },
{
    let raw: &RawField = match raw {
        None => {
            return Ok(None);
        },
        Some(raw) => raw,
    };
    if raw.size == 0 {
        return Err(
            ParseError::invalid(cat3("the ", role, " field must be at least one byte")),
        );
    }
    if raw.kind == FieldKind::Skip {
        return Err(
            ParseError::invalid(
                cat3(
                    "the ",
                    role,
                    " field cannot be a filler: its value is what it is there for",
                ),
            ),
        );
    }
    match check_width(raw, role) {
        Err(error) => {
            return Err(error);
        },
        Ok(_) => {},
    }
    let name: String = if raw.name.as_str().is_empty() {
        role.to_owned()
    } else {
        raw.name.clone()
    };
    Ok(
        Some(
            Field {
                name: name.clone(),
                offset,
                size: raw.size,
                kind: raw.kind,
                scale: raw.scale,
                picture: raw.picture.clone(),
                declaration: with_path(&raw.declaration, name),
            },
        ),
    )
}

/// The names of the fields before `k` that a row's cells are addressed by.
pub open spec fn names_before(fields: Seq<RawFieldModel>, k: int) -> Set<Seq<char>> {
    Set::new(
        |name: Seq<char>|
            exists|j: int|
                0 <= j < k && #[trigger] fields[j].kind != FieldKind::Skip && fields[j].name == name,
    )
}

/// Validate one field of a record that starts no earlier than `cursor`, and
/// note its name. What comes back is the field and where it ends.
fn validate_field(
    name: &str,
    fields: &Vec<RawField>,
    k: usize,
    cursor: u32,
    names: &mut StringHashSet,
) -> (r: Result<(Field, u32), ParseError>)
    requires
        k < fields@.len(),
        cursor == reach(fields.deep_view(), k as int),
        old(names)@ == names_before(fields.deep_view(), k as int),
    ensures
        match r {
            Ok(validated) => {
                &&& field_fault(name@, fields.deep_view(), k as int) is None
                &&& validated.0.deep_view() == resolved_field(fields.deep_view(), k as int)
                &&& validated.1 == reach(fields.deep_view(), k + 1)
                &&& final(names)@ == names_before(fields.deep_view(), k + 1)
            },
            Err(error) => field_fault(name@, fields.deep_view(), k as int) == Some(error@),
        },
{
    let ghost all = fields.deep_view();
    let raw: &RawField = &fields[k];
    proof {
        assert(all[k as int] == raw.deep_view());
    }
    if raw.size == 0 {
        return Err(
            ParseError::invalid(
                cat5("field ", &quote(&raw.name), " of record ", &quote(name), " has zero width"),
            ),
        );
    }
    let context: String = cat2("record ", &quote(name));
    match check_width(raw, &context) {
        Err(error) => {
            return Err(error);
        },
        Ok(_) => {},
    }
    let offset: u32 = match raw.offset {
        None => cursor,
        Some(declared) => {
            if declared < cursor {
                return Err(
                    ParseError::invalid(
                        cat9(
                            "field ",
                            &quote(&raw.name),
                            " of record ",
                            &quote(name),
                            " declares offset ",
                            &decimal_text(declared as u128),
                            " but the fields before it already reach ",
                            &decimal_text(cursor as u128),
                            "; fields may not overlap",
                        ),
                    ),
                );
            }
            declared
        },
    };
    proof {
        assert(offset == start(all, k as int));
    }
    let end: u32 = match offset.checked_add(raw.size) {
        None => {
            return Err(
                ParseError::invalid(
                    cat3("record ", &quote(name), " overflows a 32-bit record length"),
                ),
            );
        },
        Some(end) => end,
    };
    if end > MAX_RECORD_BYTES {
        return Err(
            ParseError::unsupported(
                cat5(
                    "record ",
                    &quote(name),
                    " is at least ",
                    &decimal_text(end as u128),
                    " bytes; this build decodes records up to 16777216 bytes",
                ),
            ),
        );
    }
    if raw.kind != FieldKind::Skip {
        proof {
            assert(names@.contains(raw.name@) <==> repeats_name(all, k as int));
        }
        if !names.insert(raw.name.clone()) {
            return Err(
                ParseError::invalid(
                    cat5(
                        "record ",
                        &quote(name),
                        " has two fields named ",
                        &quote(&raw.name),
                        "; cells are addressed by name, so qualify one of them or mark it as a filler",
                    ),
                ),
            );
        }
        if raw.name.as_str().is_empty() {
            return Err(
                ParseError::invalid(
                    cat3(
                        "a field of record ",
                        &quote(name),
                        " has no name; only fillers may be anonymous",
                    ),
                ),
            );
        }
    }
    if raw.scale != 0 && !raw.kind.is_numeric() {
        return Err(
            ParseError::invalid(
                cat7(
                    "field ",
                    &quote(&raw.name),
                    " of record ",
                    &quote(name),
                    " has scale ",
                    &decimal_text(raw.scale as u128),
                    " but is not a numeric field",
                ),
            ),
        );
    }
    let path: String = if raw.declaration.path.as_str().is_empty() {
        raw.name.clone()
    } else {
        raw.declaration.path.clone()
    };
    let field: Field = Field {
        name: raw.name.clone(),
        offset,
        size: raw.size,
        kind: raw.kind,
        scale: raw.scale,
        picture: raw.picture.clone(),
        declaration: with_path(&raw.declaration, path),
    };
    proof {
        assert(names@ =~= names_before(all, k + 1));
        assert(field.deep_view().declaration =~= resolved_declaration(all[k as int]));
    }
    Ok((field, end))
}

/// Validate the fields of one record. What comes back is the fields and where
/// the last of them ends.
fn validate_fields(name: &str, fields: &Vec<RawField>) -> (r: Result<
    (Vec<Field>, u32),
    ParseError,
>)
    ensures
        match r {
            Ok(validated) => {
                &&& fields_fault(name@, fields.deep_view(), 0) is None
                &&& validated.0.deep_view() == Seq::new(
                    fields@.len(),
                    |k: int| resolved_field(fields.deep_view(), k),
                )
                &&& validated.1 == reach(fields.deep_view(), fields@.len() as int)
            },
            Err(error) => fields_fault(name@, fields.deep_view(), 0) == Some(error@),
        },
{
    let ghost all = fields.deep_view();
    let mut cursor: u32 = 0;
    let mut out: Vec<Field> = Vec::new();
    let mut names: StringHashSet = StringHashSet::new();
    let mut k: usize = 0;
    proof {
        assert(names@ =~= names_before(all, 0));
    }
    while k < fields.len()
        invariant
            k <= fields@.len(),
            all == fields.deep_view(),
            cursor == reach(all, k as int),
            names@ == names_before(all, k as int),
            fields_fault(name@, all, 0) == fields_fault(name@, all, k as int),
            out@.len() == k,
            forall|j: int|
                0 <= j < k ==> (#[trigger] out@[j]).deep_view() == resolved_field(all, j),
        decreases fields@.len() - k,
    {
        match validate_field(name, fields, k, cursor, &mut names) {
            Err(error) => {
                return Err(error);
            },
            Ok(validated) => {
                out.push(validated.0);
                cursor = validated.1;
            },
        }
        k = k + 1;
    }
    proof {
        assert(out.deep_view() =~= Seq::new(fields@.len(), |k: int| resolved_field(all, k)));
    }
    Ok((out, cursor))
}

/// The names of the schemas before `i`.
pub open spec fn schemas_before(records: Seq<RawRecordModel>, i: int) -> Set<Seq<char>> {
    Set::new(
        |name: Seq<char>|
            exists|j: int| 0 <= j < i && schema_name(#[trigger] records[j]) == name,
    )
}

/// The selectors of the schemas before `i`.
pub open spec fn selectors_before(records: Seq<RawRecordModel>, i: int) -> Set<Seq<char>> {
    Set::new(
        |selector: Seq<char>|
            exists|j: int| 0 <= j < i && (#[trigger] records[j]).selector == Some(selector),
    )
}

/// Validate one record schema, and note its name and its selector.
fn validate_record(
    records: &Vec<RawRecord>,
    i: usize,
    has_type_field: bool,
    names: &mut StringHashSet,
    selectors: &mut StringHashSet,
) -> (r: Result<RecordLayout, ParseError>)
    requires
        i < records@.len(),
        old(names)@ == schemas_before(records.deep_view(), i as int),
        has_type_field ==> old(selectors)@ == selectors_before(records.deep_view(), i as int),
    ensures
        match r {
            Ok(record) => {
                &&& record_fault(records.deep_view(), has_type_field, i as int) is None
                &&& record.deep_view() == resolved_record(records.deep_view()[i as int])
                &&& final(names)@ == schemas_before(records.deep_view(), i + 1)
                &&& has_type_field ==> final(selectors)@ == selectors_before(
                    records.deep_view(),
                    i + 1,
                )
            },
            Err(error) => record_fault(records.deep_view(), has_type_field, i as int) == Some(
                error@,
            ),
        },
{
    let ghost all = records.deep_view();
    let raw: &RawRecord = &records[i];
    proof {
        assert(all[i as int] == raw.deep_view());
    }
    let name: String = if raw.name.as_str().is_empty() {
        "record".to_owned()
    } else {
        raw.name.clone()
    };
    proof {
        assert(name@ == schema_name(all[i as int]));
        assert(names@.contains(name@) <==> repeats_schema(all, i as int));
    }
    if !names.insert(name.clone()) {
        return Err(
            ParseError::invalid(
                cat3(
                    "two record schemas are both named ",
                    &quote(&name),
                    "; schema names identify the rows they produce and must be unique",
                ),
            ),
        );
    }
    if has_type_field {
        match &raw.selector {
            None => {
                return Err(
                    ParseError::invalid(
                        cat3(
                            "record schema ",
                            &quote(&name),
                            " needs a selector: the layout has a record_type_field and every schema must say which value picks it",
                        ),
                    ),
                );
            },
            Some(selector) => {
                proof {
                    assert(all[i as int].selector == Some(selector@));
                    assert(selectors@.contains(selector@) <==> repeats_selector(all, i as int));
                }
                if !selectors.insert(selector.clone()) {
                    return Err(
                        ParseError::invalid(
                            cat3(
                                "record selector ",
                                &quote(selector),
                                " matches two schemas; a record must resolve to exactly one layout",
                            ),
                        ),
                    );
                }
            },
        }
    }
    if raw.fields.len() == 0 {
        return Err(
            ParseError::invalid(cat3("record schema ", &quote(&name), " has no fields")),
        );
    }
    let validated: (Vec<Field>, u32) = match validate_fields(&name, &raw.fields) {
        Err(error) => {
            return Err(error);
        },
        Ok(validated) => validated,
    };
    let record: RecordLayout = RecordLayout {
        name,
        fields: validated.0,
        size: validated.1,
        selector: copy_text(&raw.selector),
    };
    proof {
        assert(names@ =~= schemas_before(all, i + 1));
        assert(has_type_field ==> selectors@ =~= selectors_before(all, i + 1));
        assert(record.deep_view() =~= resolved_record(all[i as int]));
    }
    Ok(record)
}

/// Validate the record schemas of a layout.
fn validate_records(records: &Vec<RawRecord>, has_type_field: bool) -> (r: Result<
    Vec<RecordLayout>,
    ParseError,
>)
    ensures
        match r {
            Ok(validated) => {
                &&& records_fault(records.deep_view(), has_type_field, 0) is None
                &&& validated.deep_view() == Seq::new(
                    records@.len(),
                    |i: int| resolved_record(records.deep_view()[i]),
                )
            },
            Err(error) => records_fault(records.deep_view(), has_type_field, 0) == Some(error@),
        },
{
    let ghost all = records.deep_view();
    let mut names: StringHashSet = StringHashSet::new();
    let mut selectors: StringHashSet = StringHashSet::new();
    let mut out: Vec<RecordLayout> = Vec::new();
    let mut i: usize = 0;
    proof {
        assert(names@ =~= schemas_before(all, 0));
        assert(selectors@ =~= selectors_before(all, 0));
    }
    while i < records.len()
        invariant
            i <= records@.len(),
            all == records.deep_view(),
            names@ == schemas_before(all, i as int),
            has_type_field ==> selectors@ == selectors_before(all, i as int),
            records_fault(all, has_type_field, 0) == records_fault(all, has_type_field, i as int),
            out@.len() == i,
            forall|j: int|
                0 <= j < i ==> (#[trigger] out@[j]).deep_view() == resolved_record(all[j]),
        decreases records@.len() - i,
    {
        match validate_record(records, i, has_type_field, &mut names, &mut selectors) {
            Err(error) => {
                return Err(error);
            },
            Ok(record) => out.push(record),
        }
        i = i + 1;
    }
    proof {
        assert(out.deep_view() =~= Seq::new(records@.len(), |i: int| resolved_record(all[i])));
    }
    Ok(out)
}

/// Turn a raw layout into a validated one, or say exactly why it cannot be.
pub fn validate(raw: RawLayout, source: LayoutSource) -> (r: Result<Layout, ParseError>)
    ensures
        outcome(r) == validated(raw.deep_view(), source),
{
    if raw.records.len() == 0 {
        return Err(ParseError::invalid("a layout needs at least one record schema".to_owned()));
    }
    if raw.footer_size > MAX_FOOTER_BYTES {
        return Err(
            ParseError::unsupported(
                cat3(
                    "footer_size ",
                    &decimal_text(raw.footer_size as u128),
                    " exceeds the 16777216-byte limit; footer bytes are held in memory for the whole parse",
                ),
            ),
        );
    }
    let record_length_field: Option<Field> = match prefix_field(
        &raw.record_length_field,
        "record_length",
        0,
    ) {
        Err(error) => {
            return Err(error);
        },
        Ok(field) => field,
    };
    let length_width: u32 = match &record_length_field {
        None => 0,
        Some(field) => {
            if field.scale != 0 {
                return Err(
                    ParseError::invalid(
                        "the record_length field must have scale 0: a record cannot be a fraction of a byte long".to_owned(),
                    ),
                );
            }
            field.size
        },
    };
    let record_type_field: Option<Field> = match prefix_field(
        &raw.record_type_field,
        "record_type",
        length_width,
    ) {
        Err(error) => {
            return Err(error);
        },
        Ok(field) => field,
    };
    let type_width: u32 = match &record_type_field {
        None => 0,
        Some(field) => field.size,
    };
    if raw.records.len() > 1 && record_type_field.is_none() {
        return Err(
            ParseError::invalid(
                "a layout with more than one record schema needs a record_type_field to choose between them".to_owned(),
            ),
        );
    }
    let records: Vec<RecordLayout> = match validate_records(
        &raw.records,
        record_type_field.is_some(),
    ) {
        Err(error) => {
            return Err(error);
        },
        Ok(records) => records,
    };
    Ok(
        Layout {
            records,
            description: raw.description,
            header_size: raw.header_size,
            footer_size: raw.footer_size,
            record_length_field,
            record_type_field,
            prefix_size: length_width + type_width,
            source,
        },
    )
}

} // verus!
