//! What holds of every copybook.

use vstd::prelude::*;
use crate::copybook::{compiled, compiled_items, flattened, is_group, item_field, item_fields,
    roots_in, with_condition};
use crate::copybook::lexing::{byte_width, code_end, code_of, is_fixed};
use crate::copybook::picture::{described, Described};
use crate::copybook::statement::{label_of, ItemModel};
use crate::error::Failure;
use crate::layout::{DeclarationModel, FieldKind, RawFieldModel, RawLayoutModel};
use crate::proto::v1::ConditionNameModel;

verus! {

/// A copybook compiles to one bare record: no selector, no header or footer,
/// no prefix, and fields that adjoin.
pub proof fn law_a_copybook_is_one_bare_record(source: Seq<char>)
    ensures
        compiled(source) matches Ok(layout) ==> {
            &&& layout.records.len() == 1
            &&& layout.records[0].fields.len() > 0
            &&& layout.records[0].selector is None
            &&& layout.header_size == 0
            &&& layout.footer_size == 0
            &&& layout.record_length_field is None
            &&& layout.record_type_field is None
            &&& layout.description.len() == 0
            &&& forall|i: int|
                0 <= i < layout.records[0].fields.len() ==> (
                #[trigger] layout.records[0].fields[i]).offset is None
        },
{
    if let Ok(layout) = compiled(source) {
        let all = crate::copybook::lexing::statements_of(source)->Ok_0;
        let items = crate::copybook::items_of(all, all.len() as int)->Ok_0;
        lemma_no_offsets(items, items.len() as int);
    }
}

/// No field of a copybook states its offset.
proof fn lemma_no_offsets(items: Seq<ItemModel>, k: int)
    ensures
        flattened(items, k) matches Ok(fields) ==> forall|i: int|
            0 <= i < fields.len() ==> (#[trigger] fields[i]).offset is None,
    decreases k,
{
    if k > 0 {
        lemma_no_offsets(items, k - 1);
    }
}

/// A field without the condition names that stand under it.
pub open spec fn bare(field: RawFieldModel) -> RawFieldModel {
    RawFieldModel {
        declaration: DeclarationModel { conditions: Seq::empty(), ..field.declaration },
        ..field
    }
}

/// Fields without their condition names.
pub open spec fn bare_fields(fields: Result<Seq<RawFieldModel>, Failure>) -> Result<
    Seq<RawFieldModel>,
    Failure,
> {
    match fields {
        Ok(fields) => Ok(fields.map_values(|field: RawFieldModel| bare(field))),
        Err(failure) => Err(failure),
    }
}

/// The fields of the one record a copybook compiles to, without their
/// condition names, or why there are none.
pub open spec fn storage(layout: Result<RawLayoutModel, Failure>) -> Result<
    (Seq<char>, Seq<RawFieldModel>),
    Failure,
> {
    match layout {
        Ok(layout) => Ok(
            (
                layout.records[0].name,
                layout.records[0].fields.map_values(|field: RawFieldModel| bare(field)),
            ),
        ),
        Err(failure) => Err(failure),
    }
}

/// A level-88 condition name declares no storage: adding one to a copybook
/// changes neither the record nor the bytes of any field, nor what is wrong
/// with the copybook.
pub proof fn law_conditions_declare_no_storage(
    items: Seq<ItemModel>,
    condition: ConditionNameModel,
)
    ensures
        storage(compiled_items(with_condition(items, condition))) == storage(
            compiled_items(items),
        ),
{
    let after = with_condition(items, condition);
    if items.len() > 0 {
        assert(after.len() == items.len());
        assert forall|i: int| 0 <= i < items.len() implies #[trigger] after[i] == (ItemModel {
            conditions: after[i].conditions,
            ..items[i]
        }) by {}
        lemma_same_roots(items, after, items.len() as int);
        lemma_same_storage(items, after, items.len() as int);
        let fields = flattened(items, items.len() as int);
        let now = flattened(after, items.len() as int);
        assert(bare_fields(fields) == bare_fields(now));
        if let Ok(f) = fields {
            let g = now->Ok_0;
            let a = f.map_values(|field: RawFieldModel| bare(field));
            let b = g.map_values(|field: RawFieldModel| bare(field));
            assert(a == b);
            assert(a.len() == f.len() && b.len() == g.len());
        }
    }
}

/// Items that differ in their conditions alone have the same roots.
proof fn lemma_same_roots(items: Seq<ItemModel>, after: Seq<ItemModel>, k: int)
    requires
        0 <= k <= items.len(),
        after.len() == items.len(),
        forall|i: int|
            0 <= i < items.len() ==> #[trigger] after[i] == (ItemModel {
                conditions: after[i].conditions,
                ..items[i]
            }),
    ensures
        roots_in(after, k) == roots_in(items, k),
    decreases k,
{
    if k > 0 {
        lemma_same_roots(items, after, k - 1);
        assert(after[k - 1].level == items[k - 1].level);
    }
}

/// Items that differ in their conditions alone enclose alike.
proof fn lemma_same_enclosing(items: Seq<ItemModel>, after: Seq<ItemModel>, i: int, level: u8)
    requires
        0 <= i <= items.len(),
        after.len() == items.len(),
        forall|i: int|
            0 <= i < items.len() ==> #[trigger] after[i] == (ItemModel {
                conditions: after[i].conditions,
                ..items[i]
            }),
    ensures
        crate::copybook::enclosing(after, i, level) == crate::copybook::enclosing(items, i, level),
    decreases i,
{
    if i > 1 {
        assert(after[i - 1].level == items[i - 1].level);
        assert(after[i - 1].name == items[i - 1].name);
        lemma_same_enclosing(items, after, i - 1, level);
        lemma_same_enclosing(items, after, i - 1, items[i - 1].level);
    }
}

/// Items that differ in their conditions alone have the same fields, but for
/// the conditions.
proof fn lemma_same_storage(items: Seq<ItemModel>, after: Seq<ItemModel>, k: int)
    requires
        0 <= k <= items.len(),
        after.len() == items.len(),
        forall|i: int|
            0 <= i < items.len() ==> #[trigger] after[i] == (ItemModel {
                conditions: after[i].conditions,
                ..items[i]
            }),
    ensures
        bare_fields(flattened(after, k)) == bare_fields(flattened(items, k)),
    decreases k,
{
    if k > 0 {
        lemma_same_storage(items, after, k - 1);
        lemma_same_fields(items, after, k - 1);
        if let (Ok(a), Ok(b)) = (flattened(after, k - 1), item_fields(after, k - 1)) {
            let c = flattened(items, k - 1)->Ok_0;
            let d = item_fields(items, k - 1)->Ok_0;
            let strip = |field: RawFieldModel| bare(field);
            assert((a + b).map_values(strip) =~= a.map_values(strip) + b.map_values(strip));
            assert((c + d).map_values(strip) =~= c.map_values(strip) + d.map_values(strip));
        }
    }
}

/// Items that differ in their conditions alone give the same fields, but for
/// the conditions.
proof fn lemma_same_fields(items: Seq<ItemModel>, after: Seq<ItemModel>, i: int)
    requires
        0 <= i < items.len(),
        after.len() == items.len(),
        forall|i: int|
            0 <= i < items.len() ==> #[trigger] after[i] == (ItemModel {
                conditions: after[i].conditions,
                ..items[i]
            }),
    ensures
        bare_fields(item_fields(after, i)) == bare_fields(item_fields(items, i)),
{
    let one = after[i];
    let other = items[i];
    assert(one.level == other.level && one.name == other.name && one.picture == other.picture
        && one.usage == other.usage && one.occurs == other.occurs);
    assert(after[0].name == items[0].name);
    if i + 1 < items.len() {
        assert(after[i + 1].level == items[i + 1].level);
    }
    lemma_same_enclosing(items, after, i, other.level);
    assert(is_group(after, i) == is_group(items, i));
    assert forall|description: Described, occurrence: Option<u32>| #[trigger]
        bare(item_field(after, i, description, occurrence)) == bare(
            item_field(items, i, description, occurrence),
        ) by {}
    if let (Ok(a), Ok(b)) = (item_fields(after, i), item_fields(items, i)) {
        let strip = |field: RawFieldModel| bare(field);
        if !is_group(items, i) {
            let description = described(other.picture->Some_0, other.usage, label_of(other.name));
            assert(a.len() == b.len());
            assert forall|o: int| 0 <= o < a.len() implies bare(#[trigger] a[o]) == bare(b[o]) by {
                let occurrence = if other.occurs is Some {
                    Some((o + 1) as u32)
                } else {
                    None
                };
                assert(a[o] == item_field(after, i, description->Ok_0, occurrence));
                assert(b[o] == item_field(items, i, description->Ok_0, occurrence));
            }
        }
        assert(a.map_values(strip) =~= b.map_values(strip));
    }
}

/// The number of bytes of fields.
pub open spec fn bytes_in(fields: Seq<RawFieldModel>) -> nat
    decreases fields.len(),
{
    if fields.len() == 0 {
        0
    } else {
        bytes_in(fields.drop_last()) + fields.last().size as nat
    }
}

/// The number of bytes an item takes by itself: a group none, an elementary
/// item what its picture describes, as often as it occurs.
pub open spec fn item_bytes(items: Seq<ItemModel>, i: int) -> nat {
    let item = items[i];
    if is_group(items, i) {
        0
    } else {
        match described(item.picture->Some_0, item.usage, label_of(item.name)) {
            Ok(described) => described.size as nat * (match item.occurs {
                Some(count) => count as nat,
                None => 1,
            }),
            Err(_) => 0,
        }
    }
}

/// The number of bytes that the first `k` items take.
pub open spec fn storage_bytes(items: Seq<ItemModel>, k: int) -> nat
    decreases k,
{
    if k <= 0 {
        0
    } else {
        storage_bytes(items, k - 1) + item_bytes(items, k - 1)
    }
}

/// A record is as long as its elementary items together: groups are flattened
/// and contribute no bytes of their own, and a repeating item takes its size
/// as often as it occurs.
pub proof fn law_a_record_is_its_elementary_items(items: Seq<ItemModel>)
    ensures
        compiled_items(items) matches Ok(layout) ==> bytes_in(layout.records[0].fields)
            == storage_bytes(items, items.len() as int),
{
    lemma_storage_bytes(items, items.len() as int);
}

/// The bytes of the fields of the first `k` items.
proof fn lemma_storage_bytes(items: Seq<ItemModel>, k: int)
    requires
        0 <= k <= items.len(),
    ensures
        flattened(items, k) matches Ok(fields) ==> bytes_in(fields) == storage_bytes(items, k),
    decreases k,
{
    if k > 0 {
        lemma_storage_bytes(items, k - 1);
        if let (Ok(before), Ok(fields)) = (flattened(items, k - 1), item_fields(items, k - 1)) {
            lemma_bytes_join(before, fields);
            let item = items[k - 1];
            if !is_group(items, k - 1) {
                let description = described(
                    item.picture->Some_0,
                    item.usage,
                    label_of(item.name),
                )->Ok_0;
                assert forall|o: int| 0 <= o < fields.len() implies (#[trigger] fields[o]).size
                    == description.size by {}
                lemma_equal_sizes(fields, description.size as nat);
                assert(fields.len() * description.size as nat == description.size as nat
                    * fields.len()) by (nonlinear_arith);
            }
        }
    }
}

/// The bytes of fields in two runs are those of both.
proof fn lemma_bytes_join(first: Seq<RawFieldModel>, second: Seq<RawFieldModel>)
    ensures
        bytes_in(first + second) == bytes_in(first) + bytes_in(second),
    decreases second.len(),
{
    if second.len() == 0 {
        assert(first + second =~= first);
    } else {
        lemma_bytes_join(first, second.drop_last());
        assert((first + second).drop_last() =~= first + second.drop_last());
        assert((first + second).last() == second.last());
    }
}

/// The bytes of fields of one size.
proof fn lemma_equal_sizes(fields: Seq<RawFieldModel>, size: nat)
    requires
        forall|i: int| 0 <= i < fields.len() ==> (#[trigger] fields[i]).size == size,
    ensures
        bytes_in(fields) == fields.len() * size,
    decreases fields.len(),
{
    if fields.len() == 0 {
        assert(fields.len() * size == 0) by (nonlinear_arith)
            requires
                fields.len() == 0,
        ;
    } else {
        lemma_equal_sizes(fields.drop_last(), size);
        assert(fields.last().size == size);
        let n = fields.len();
        assert((n - 1) * size + size == n * size) by (nonlinear_arith);
        assert(fields.drop_last().len() == n - 1);
    }
}

/// `OCCURS n` expands to `n` fields of the same kind and size, which carry
/// their number in their names and as a number.
pub proof fn law_occurs_expands_to_numbered_fields(items: Seq<ItemModel>, i: int)
    requires
        0 <= i < items.len(),
        items[i].occurs is Some,
        items[i].name is Some,
        item_fields(items, i) is Ok,
    ensures
        ({
            let item = items[i];
            let fields = item_fields(items, i)->Ok_0;
            &&& fields.len() == item.occurs->Some_0
            &&& forall|o: int|
                0 <= o < fields.len() ==> {
                    &&& (#[trigger] fields[o]).name == crate::copybook::occurrence_name(
                        item.name->Some_0,
                        (o + 1) as nat,
                    )
                    &&& fields[o].declaration.occurs_index == Some((o + 1) as u32)
                    &&& fields[o].declaration.occurs_group == item.name
                    &&& fields[o].size == fields[0].size
                    &&& fields[o].kind == fields[0].kind
                    &&& fields[o].scale == fields[0].scale
                }
        }),
{
}

/// An unnamed item is a gap of its size and nothing else, whatever its picture:
/// a skip with neither a name nor decimals.
pub proof fn law_an_unnamed_item_is_a_gap(
    items: Seq<ItemModel>,
    i: int,
    described: Described,
    occurrence: Option<u32>,
)
    requires
        0 <= i < items.len(),
        items[i].name is None,
    ensures
        ({
            let field = item_field(items, i, described, occurrence);
            &&& field.kind == FieldKind::Skip
            &&& field.name.len() == 0
            &&& field.scale == 0
            &&& field.size == described.size
        }),
{
}

/// The identification area is not code: whatever stands behind the 72 columns
/// of a fixed-format line is left out.
pub proof fn law_the_identification_area_is_not_code(line: Seq<char>, tail: Seq<char>)
    requires
        is_fixed(line),
        byte_width(line) == 72,
    ensures
        code_of(line + tail) == code_of(line),
{
    let all = line + tail;
    assert forall|i: int| 0 <= i < 6 implies crate::text::is_digit(#[trigger] all[i]) || all[i]
        == ' ' by {
        assert(crate::text::is_digit(line[i]) || line[i] == ' ');
    }
    assert(all[6] == line[6]);
    lemma_code_ends(line, tail, 0);
    assert(all.subrange(6, line.len() as int) =~= line.subrange(6, line.len() as int));
}

/// A run of characters is at least as wide as its front.
proof fn lemma_width_grows(s: Seq<char>, k: int)
    requires
        0 <= k <= s.len(),
    ensures
        byte_width(s.take(k)) <= byte_width(s),
        k < s.len() ==> byte_width(s.take(k)) < byte_width(s),
    decreases s.len(),
{
    if k == s.len() {
        assert(s.take(k) =~= s);
    } else {
        lemma_width_grows(s.drop_last(), k);
        assert(s.drop_last().take(k) =~= s.take(k));
    }
}

/// The code of a line of 72 columns ends with them, whatever follows.
proof fn lemma_code_ends(line: Seq<char>, tail: Seq<char>, e: int)
    requires
        byte_width(line) == 72,
        0 <= e <= line.len(),
    ensures
        code_end(line + tail, e) == line.len(),
        code_end(line, e) == line.len(),
    decreases line.len() - e,
{
    let all = line + tail;
    if e < line.len() {
        lemma_code_ends(line, tail, e + 1);
        lemma_width_grows(line, e + 1);
        assert(all.take(e + 1) =~= line.take(e + 1));
    } else if e < all.len() {
        assert(all.take(e + 1).drop_last() =~= line);
    }
}

/// The sequence area is not code: lines in fixed format that agree from column
/// 7 on have the same code, whatever numbers stand in columns 1-6.
pub proof fn law_the_sequence_area_is_not_code(line: Seq<char>, renumbered: Seq<char>)
    requires
        is_fixed(line),
        is_fixed(renumbered),
        line.len() == renumbered.len(),
        forall|i: int| 6 <= i < line.len() ==> #[trigger] line[i] == renumbered[i],
    ensures
        code_of(line) == code_of(renumbered),
{
    lemma_renumbered_ends(line, renumbered, 0);
    let end = code_end(line, 0);
    lemma_code_holds_the_columns(line, 0);
    assert(line.subrange(6, end) =~= renumbered.subrange(6, end));
}

/// The fronts of two lines that differ in their sequence areas alone are
/// equally wide.
proof fn lemma_renumbered_width(line: Seq<char>, renumbered: Seq<char>, k: int)
    requires
        is_fixed(line),
        is_fixed(renumbered),
        line.len() == renumbered.len(),
        forall|i: int| 6 <= i < line.len() ==> #[trigger] line[i] == renumbered[i],
        0 <= k <= line.len(),
    ensures
        byte_width(line.take(k)) == byte_width(renumbered.take(k)),
        k <= 6 ==> byte_width(line.take(k)) == k,
    decreases k,
{
    if k > 0 {
        lemma_renumbered_width(line, renumbered, k - 1);
        assert(line.take(k).drop_last() =~= line.take(k - 1));
        assert(renumbered.take(k).drop_last() =~= renumbered.take(k - 1));
        if k <= 6 {
            assert(crate::text::is_digit(line[k - 1]) || line[k - 1] == ' ');
            assert(crate::text::is_digit(renumbered[k - 1]) || renumbered[k - 1] == ' ');
        } else {
            assert(line[k - 1] == renumbered[k - 1]);
        }
    }
}

/// The code of two lines that differ in their sequence areas alone ends at the
/// same column.
proof fn lemma_renumbered_ends(line: Seq<char>, renumbered: Seq<char>, e: int)
    requires
        is_fixed(line),
        is_fixed(renumbered),
        line.len() == renumbered.len(),
        forall|i: int| 6 <= i < line.len() ==> #[trigger] line[i] == renumbered[i],
        0 <= e <= line.len(),
    ensures
        code_end(line, e) == code_end(renumbered, e),
    decreases line.len() - e,
{
    lemma_renumbered_width(line, renumbered, e);
    if e < line.len() {
        lemma_renumbered_width(line, renumbered, e + 1);
        lemma_renumbered_ends(line, renumbered, e + 1);
    }
}

/// The code of a line in fixed format ends behind its sequence area.
proof fn lemma_code_holds_the_columns(line: Seq<char>, e: int)
    requires
        is_fixed(line),
        0 <= e <= line.len(),
    ensures
        6 <= code_end(line, e) <= line.len(),
    decreases line.len() - e,
{
    if e < line.len() {
        if e < 6 {
            lemma_renumbered_width(line, line, e + 1);
        }
        lemma_code_holds_the_columns(line, e + 1);
    }
}

} // verus!
