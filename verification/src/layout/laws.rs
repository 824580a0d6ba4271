//! What holds of every layout that validation accepts.

use vstd::prelude::*;
use crate::error::Failure;
use crate::layout::{decodable, field_decodable, schema_with_selector, selected_schema, FieldKind,
    LayoutModel, RawFieldModel, RawLayoutModel, RawRecordModel};
use crate::layout::validation::{field_fault, fields_fault, layout_fault, reach, record_fault,
    records_fault, repeats_name, repeats_schema, repeats_selector, resolved_field, resolved_layout,
    schema_name, start, validated, MAX_RECORD_BYTES};
use crate::proto::v1::LayoutSource;

verus! {

/// When no field at or after `from` has a fault, none of them has.
pub proof fn lemma_no_field_fault(name: Seq<char>, fields: Seq<RawFieldModel>, from: int, k: int)
    requires
        0 <= from <= k < fields.len(),
        fields_fault(name, fields, from) is None,
    ensures
        field_fault(name, fields, k) is None,
    decreases k - from,
{
    if from < k {
        lemma_no_field_fault(name, fields, from + 1, k);
    }
}

/// When no schema at or after `from` has a fault, none of them has.
pub proof fn lemma_no_record_fault(
    records: Seq<RawRecordModel>,
    has_type_field: bool,
    from: int,
    i: int,
)
    requires
        0 <= from <= i < records.len(),
        records_fault(records, has_type_field, from) is None,
    ensures
        record_fault(records, has_type_field, i) is None,
    decreases i - from,
{
    if from < i {
        lemma_no_record_fault(records, has_type_field, from + 1, i);
    }
}

/// The fields of an accepted record stand one behind the other, inside the
/// largest record.
pub proof fn lemma_reach(name: Seq<char>, fields: Seq<RawFieldModel>, k: int)
    requires
        0 <= k <= fields.len(),
        fields_fault(name, fields, 0) is None,
    ensures
        0 <= reach(fields, k) <= MAX_RECORD_BYTES,
        k > 0 ==> reach(fields, k) > 0,
        k < fields.len() ==> reach(fields, k) <= start(fields, k),
    decreases k,
{
    if k > 0 {
        lemma_reach(name, fields, k - 1);
        lemma_no_field_fault(name, fields, 0, k - 1);
    }
    if k < fields.len() {
        lemma_no_field_fault(name, fields, 0, k);
    }
}

/// An input can be walked with every layout that validation accepts.
pub proof fn law_validated_layouts_are_decodable(raw: RawLayoutModel, source: LayoutSource)
    ensures
        validated(raw, source) matches Ok(layout) ==> decodable(layout),
{
    if layout_fault(raw) is None {
        let layout = resolved_layout(raw, source);
        let has_type_field = raw.record_type_field is Some;
        assert forall|i: int, k: int|
            0 <= i < layout.records.len() && 0 <= k < layout.records[i].fields.len() implies field_decodable(
            #[trigger] layout.records[i].fields[k],
        ) by {
            let record = raw.records[i];
            lemma_no_record_fault(raw.records, has_type_field, 0, i);
            lemma_no_field_fault(schema_name(record), record.fields, 0, k);
        }
        assert forall|i: int| 0 <= i < layout.records.len() implies (
        #[trigger] layout.records[i]).size > 0 by {
            let record = raw.records[i];
            lemma_no_record_fault(raw.records, has_type_field, 0, i);
            lemma_reach(schema_name(record), record.fields, record.fields.len() as int);
        }
    }
}

/// In an accepted record the fields follow one another without overlap: each
/// starts at or after the end of the one before it, and the last ends where the
/// record does.
pub proof fn law_fields_never_overlap(raw: RawLayoutModel, source: LayoutSource, i: int, k: int)
    requires
        layout_fault(raw) is None,
        0 <= i < raw.records.len(),
        0 <= k < raw.records[i].fields.len(),
    ensures
        ({
            let record = resolved_layout(raw, source).records[i];
            let field = record.fields[k];
            &&& field.offset + field.size <= record.size <= MAX_RECORD_BYTES
            &&& k > 0 ==> record.fields[k - 1].offset + record.fields[k - 1].size <= field.offset
            &&& k + 1 == record.fields.len() ==> field.offset + field.size == record.size
        }),
{
    let fields = raw.records[i].fields;
    let name = schema_name(raw.records[i]);
    lemma_no_record_fault(raw.records, raw.record_type_field is Some, 0, i);
    lemma_reach(name, fields, k);
    lemma_reach(name, fields, k + 1);
    lemma_reach(name, fields, fields.len() as int);
    if k > 0 {
        lemma_reach(name, fields, k - 1);
    }
    lemma_reach_grows(name, fields, k + 1, fields.len() as int);
}

/// Later fields end later.
proof fn lemma_reach_grows(name: Seq<char>, fields: Seq<RawFieldModel>, j: int, k: int)
    requires
        0 <= j <= k <= fields.len(),
        fields_fault(name, fields, 0) is None,
    ensures
        reach(fields, j) <= reach(fields, k),
    decreases k,
{
    if j < k {
        lemma_reach_grows(name, fields, j, k - 1);
        lemma_reach(name, fields, k - 1);
    }
}

/// The sum of the sizes of the first `k` fields.
pub open spec fn size_sum(fields: Seq<RawFieldModel>, k: int) -> int
    decreases k,
{
    if k <= 0 {
        0
    } else {
        size_sum(fields, k - 1) + fields[k - 1].size
    }
}

/// Where no field declares an offset, each field's offset is the running sum
/// of the sizes before it, and the record is as long as all of them together.
pub proof fn law_offsets_are_the_running_sum_of_the_sizes(
    raw: RawLayoutModel,
    source: LayoutSource,
    i: int,
    k: int,
)
    requires
        layout_fault(raw) is None,
        0 <= i < raw.records.len(),
        0 <= k < raw.records[i].fields.len(),
        forall|j: int|
            0 <= j < raw.records[i].fields.len() ==> (
            #[trigger] raw.records[i].fields[j]).offset is None,
    ensures
        ({
            let record = resolved_layout(raw, source).records[i];
            &&& record.fields[k].offset == size_sum(raw.records[i].fields, k)
            &&& record.size == size_sum(raw.records[i].fields, record.fields.len() as int)
        }),
{
    let fields = raw.records[i].fields;
    let name = schema_name(raw.records[i]);
    lemma_no_record_fault(raw.records, raw.record_type_field is Some, 0, i);
    lemma_reach_is_sum(fields, k);
    lemma_reach_is_sum(fields, fields.len() as int);
    lemma_reach(name, fields, k);
    lemma_reach(name, fields, fields.len() as int);
}

proof fn lemma_reach_is_sum(fields: Seq<RawFieldModel>, k: int)
    requires
        0 <= k <= fields.len(),
        forall|j: int| 0 <= j < fields.len() ==> (#[trigger] fields[j]).offset is None,
    ensures
        reach(fields, k) == size_sum(fields, k),
    decreases k,
{
    if k > 0 {
        lemma_reach_is_sum(fields, k - 1);
    }
}

/// In an accepted layout every name says which thing is meant: no two schemas
/// share a name, no two fields of a schema that make cells share one, and only
/// fillers are anonymous.
pub proof fn law_names_are_unique(
    raw: RawLayoutModel,
    source: LayoutSource,
    i: int,
    j: int,
    k: int,
    l: int,
)
    requires
        layout_fault(raw) is None,
        0 <= i < raw.records.len(),
        0 <= j < i,
        0 <= l < k < raw.records[i].fields.len(),
    ensures
        ({
            let layout = resolved_layout(raw, source);
            let fields = layout.records[i].fields;
            &&& layout.records[i].name != layout.records[j].name
            &&& fields[k].kind != FieldKind::Skip ==> fields[k].name.len() > 0
            &&& fields[k].kind != FieldKind::Skip && fields[l].kind != FieldKind::Skip
                ==> fields[k].name != fields[l].name
        }),
{
    let fields = raw.records[i].fields;
    lemma_no_record_fault(raw.records, raw.record_type_field is Some, 0, i);
    lemma_no_field_fault(schema_name(raw.records[i]), fields, 0, k);
    assert(!repeats_schema(raw.records, i));
    assert(schema_name(raw.records[j]) != schema_name(raw.records[i]));
    if fields[k].kind != FieldKind::Skip {
        assert(!repeats_name(fields, k));
        assert(fields[l].kind != FieldKind::Skip ==> fields[l].name != fields[k].name);
    }
}

/// In an accepted layout with a record-type field, the selector of a schema
/// selects that schema and no other.
pub proof fn law_a_selector_selects_its_schema(raw: RawLayoutModel, source: LayoutSource, i: int)
    requires
        layout_fault(raw) is None,
        raw.record_type_field is Some,
        0 <= i < raw.records.len(),
    ensures
        ({
            let layout = resolved_layout(raw, source);
            &&& layout.records[i].selector is Some
            &&& selected_schema(layout, layout.records[i].selector) == i
        }),
{
    let layout = resolved_layout(raw, source);
    lemma_no_record_fault(raw.records, true, 0, i);
    lemma_selector_found(raw, source, i, 0);
}

proof fn lemma_selector_found(raw: RawLayoutModel, source: LayoutSource, i: int, from: int)
    requires
        layout_fault(raw) is None,
        raw.record_type_field is Some,
        0 <= from <= i < raw.records.len(),
    ensures
        ({
            let layout = resolved_layout(raw, source);
            schema_with_selector(layout.records, layout.records[i].selector, from) == i
        }),
    decreases i - from,
{
    if from < i {
        lemma_no_record_fault(raw.records, true, 0, i);
        assert(!repeats_selector(raw.records, i));
        assert(raw.records[from].selector != raw.records[i].selector);
        lemma_selector_found(raw, source, i, from + 1);
    }
}

/// The form a layout arrives in does not matter: the same raw layout is
/// accepted or refused alike in every form, and resolves to the same records.
pub proof fn law_every_form_resolves_alike(
    raw: RawLayoutModel,
    one: LayoutSource,
    other: LayoutSource,
)
    ensures
        match validated(raw, one) {
            Ok(layout) => validated(raw, other) == Ok::<_, Failure>(
                LayoutModel { source: other, ..layout },
            ),
            Err(failure) => validated(raw, other) == Err::<LayoutModel, _>(failure),
        },
{
}

/// A form without hierarchy still gives every field a path: its name.
pub proof fn law_a_flat_field_has_its_name_for_a_path(fields: Seq<RawFieldModel>, k: int)
    requires
        0 <= k < fields.len(),
        fields[k].declaration.path.len() == 0,
    ensures
        resolved_field(fields, k).declaration.path == fields[k].name,
{
}

} // verus!
