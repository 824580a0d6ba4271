//! A compiler for the flat subset of COBOL data descriptions that a record
//! copybook is made of.
//!
//! This is not a COBOL compiler: it has no `PROCEDURE DIVISION`, no
//! copy-replacing, no `REDEFINES`, and no `OCCURS DEPENDING ON`. What it does
//! is turn the flat `level / name / PIC / USAGE` subset, the only part of a
//! copybook that describes bytes, into the same raw layout the other forms
//! produce. Everything outside that subset is refused with `UNIMPLEMENTED` and
//! names the clause that did it: a caller finds out that their copybook needs
//! hand-normalizing before they ship it, not after a table of garbage arrives.
//!
//! ## Supported subset
//!
//! - Level numbers 01-49 and 77. Level 88 condition names declare no storage
//!   and are carried along with the item they stand under; level 66 `RENAMES`
//!   is refused.
//! - Group items, nested to any depth, flattened to their leaf fields.
//! - `PIC X`/`A` character items, `PIC 9` numeric items with optional leading
//!   `S` and a single `V` implied point.
//! - `USAGE DISPLAY` (the default), `COMP-3`/`COMPUTATIONAL-3`/
//!   `PACKED-DECIMAL`, and `COMP`/`COMP-4`/`COMPUTATIONAL`/`BINARY`.
//! - `OCCURS n [TIMES]` on an elementary item, expanded to `NAME(1)` up to
//!   `NAME(n)`.
//! - `FILLER`, and anonymous items, which become gaps of their size, whatever
//!   their picture.
//! - Clauses that do not change the bytes (`VALUE`, `JUSTIFIED`, `BLANK WHEN
//!   ZERO`, `GLOBAL`, `EXTERNAL`) are accepted and ignored.
//! - Both fixed-format (sequence area in columns 1-6, indicator in column 7,
//!   code through column 72) and free-format source.
//!
//! Anything else is `UNIMPLEMENTED`. Source that is not a data description at
//! all is `INVALID_ARGUMENT`.

pub mod cards;
pub mod entries;
pub mod laws;
pub mod lexing;
pub mod meaning;
pub mod picture;
pub mod statement;

use vstd::prelude::*;
use vstd::string::StringExecFns;
use crate::copybook::lexing::{columns_align, lexed_lines, statements, statements_of,
    whole_statements, LexemeModel};
use crate::copybook::picture::{describe, described, Described};
use crate::copybook::statement::{ascii_capitals, entry_of, label_of, parse_item, uppercased, Entry,
    EntryModel, Item, ItemModel};
use crate::error::{outcome, Failure, ParseError};
use crate::layout::{copy_conditions, ConditionName, Declaration, DeclarationModel, FieldKind,
    RawField, RawFieldModel, RawLayout, RawLayoutModel, RawRecord, RawRecordModel};
use crate::proto::v1::ConditionNameModel;
use crate::text::{cat3, cat4, decimal, decimal_text, is_ascii_text, join, joined, lines, quote,
    quoted};

verus! {

/// The items the first `k` statements declare, each with the condition names
/// that stand under it. The first statement that cannot be read is refused.
pub open spec fn items_of(all: Seq<Seq<Seq<char>>>, k: int) -> Result<Seq<ItemModel>, Failure>
    decreases k,
{
    if k <= 0 {
        Ok(Seq::empty())
    } else {
        match items_of(all, k - 1) {
            Err(failure) => Err(failure),
            Ok(before) => match entry_of(all[k - 1]) {
                Err(failure) => Err(failure),
                Ok(EntryModel::Storage(item)) => Ok(before.push(item)),
                Ok(EntryModel::Condition(condition)) => Ok(with_condition(before, condition)),
                Ok(EntryModel::Nothing) => Ok(before),
            },
        }
    }
}

/// Items with a condition name added to the last of them. In front of the
/// first item a condition name applies to nothing.
pub open spec fn with_condition(items: Seq<ItemModel>, condition: ConditionNameModel) -> Seq<
    ItemModel,
> {
    if items.len() == 0 {
        items
    } else {
        items.drop_last().push(
            ItemModel { conditions: items.last().conditions.push(condition), ..items.last() },
        )
    }
}

/// Whether an item is the root of a record description.
pub open spec fn is_root(item: ItemModel) -> bool {
    item.level == 1 || item.level == 77
}

/// How many of the first `k` items are roots.
pub open spec fn roots_in(items: Seq<ItemModel>, k: int) -> nat
    decreases k,
{
    if k <= 0 {
        0
    } else if is_root(items[k - 1]) {
        roots_in(items, k - 1) + 1
    } else {
        roots_in(items, k - 1)
    }
}

/// The name of the record a copybook describes.
pub open spec fn record_name(items: Seq<ItemModel>) -> Seq<char> {
    match items[0].name {
        Some(name) => name,
        None => "record"@,
    }
}

/// Whether an item is a group: the item behind it has a higher level number.
/// A level-77 item stands alone.
pub open spec fn is_group(items: Seq<ItemModel>, i: int) -> bool {
    i + 1 < items.len() && items[i + 1].level > items[i].level && items[i].level != 77
}

/// The names of the groups that enclose an item of a level behind the first
/// `i` items, outermost first. The record itself and anonymous groups are left
/// out.
pub open spec fn enclosing(items: Seq<ItemModel>, i: int, level: u8) -> Seq<Seq<char>>
    decreases i,
{
    if i <= 1 {
        Seq::empty()
    } else if items[i - 1].level < level {
        let outer = enclosing(items, i - 1, items[i - 1].level);
        match items[i - 1].name {
            Some(name) => outer.push(name),
            None => outer,
        }
    } else {
        enclosing(items, i - 1, level)
    }
}

/// The qualification path of a field of item `i` under a name: the record, the
/// enclosing groups, and the name, with dots between them.
pub open spec fn path_of(items: Seq<ItemModel>, i: int, name: Seq<char>) -> Seq<char> {
    if i == 0 {
        name
    } else {
        joined(
            (seq![record_name(items)] + enclosing(items, i, items[i].level)).push(name),
            "."@,
        )
    }
}

/// The name of an occurrence of a repeating item.
pub open spec fn occurrence_name(name: Seq<char>, occurrence: nat) -> Seq<char> {
    name + "("@ + decimal(occurrence) + ")"@
}

/// The name of the field an item has: with its occurrence in brackets when the
/// item repeats, and empty when it is anonymous.
pub open spec fn field_name(item: ItemModel, occurrence: Option<u32>) -> Seq<char> {
    match item.name {
        None => Seq::empty(),
        Some(name) => match occurrence {
            None => name,
            Some(occurrence) => occurrence_name(name, occurrence as nat),
        },
    }
}

/// One field of an item. Of an unnamed one only the size counts.
pub open spec fn item_field(
    items: Seq<ItemModel>,
    i: int,
    described: Described,
    occurrence: Option<u32>,
) -> RawFieldModel {
    let item = items[i];
    let name = field_name(item, occurrence);
    RawFieldModel {
        name,
        size: described.size,
        kind: if item.name is None {
            FieldKind::Skip
        } else {
            described.kind
        },
        scale: if item.name is None {
            0
        } else {
            described.scale
        },
        picture: item.picture->Some_0,
        offset: None,
        declaration: DeclarationModel {
            level: Some(item.level as u32),
            path: if item.name is None {
                Seq::empty()
            } else {
                path_of(items, i, name)
            },
            occurs_index: occurrence,
            occurs_group: if occurrence is None {
                None
            } else {
                item.name
            },
            conditions: item.conditions,
        },
    }
}

/// The fields of item `i`. A group has none of its own; an elementary item has
/// one, or one per occurrence.
pub open spec fn item_fields(items: Seq<ItemModel>, i: int) -> Result<Seq<RawFieldModel>, Failure> {
    let item = items[i];
    let label = label_of(item.name);
    if is_group(items, i) {
        if item.picture is Some {
            Err(
                Failure::Invalid(
                    "item "@ + quoted(label)
                        + " has both a PICTURE clause and subordinate items"@,
                ),
            )
        } else if item.occurs is Some {
            Err(
                Failure::Unsupported(
                    "OCCURS on the group item "@ + quoted(label)
                        + " is not supported; put it on the elementary items instead"@,
                ),
            )
        } else {
            Ok(Seq::empty())
        }
    } else {
        match item.picture {
            None => Err(
                Failure::Invalid("elementary item "@ + quoted(label) + " has no PICTURE clause"@),
            ),
            Some(picture) => match described(picture, item.usage, label) {
                Err(failure) => Err(failure),
                Ok(described) => match item.occurs {
                    None => Ok(seq![item_field(items, i, described, None)]),
                    Some(count) => Ok(
                        Seq::new(
                            count as nat,
                            |o: int| item_field(items, i, described, Some((o + 1) as u32)),
                        ),
                    ),
                },
            },
        }
    }
}

/// The fields of the first `k` items, in physical order.
pub open spec fn flattened(items: Seq<ItemModel>, k: int) -> Result<Seq<RawFieldModel>, Failure>
    decreases k,
{
    if k <= 0 {
        Ok(Seq::empty())
    } else {
        match flattened(items, k - 1) {
            Err(failure) => Err(failure),
            Ok(before) => match item_fields(items, k - 1) {
                Err(failure) => Err(failure),
                Ok(fields) => Ok(before + fields),
            },
        }
    }
}

/// A level number in two digits.
pub open spec fn two_digits(level: u8) -> Seq<char> {
    if level < 10 {
        "0"@ + decimal(level as nat)
    } else {
        decimal(level as nat)
    }
}

/// What the items of a copybook compile to.
pub open spec fn compiled_items(items: Seq<ItemModel>) -> Result<RawLayoutModel, Failure> {
    let roots = roots_in(items, items.len() as int);
    if items.len() == 0 {
        Err(
            Failure::Invalid(
                "the copybook declares no storage: every item in it is a level-88 condition name"@,
            ),
        )
    } else if roots == 0 {
        Err(Failure::Invalid("the copybook has no 01-level record description"@))
    } else if roots > 1 {
        Err(
            Failure::Unsupported(
                "the copybook describes more than one 01-level record. Multi-schema files need a record_type_field and per-schema selectors, which a copybook cannot express; send ParseOptions.layout instead"@,
            ),
        )
    } else if !is_root(items[0]) {
        Err(
            Failure::Invalid(
                "the copybook starts at level "@ + two_digits(items[0].level)
                    + " rather than 01"@,
            ),
        )
    } else {
        match flattened(items, items.len() as int) {
            Err(failure) => Err(failure),
            Ok(fields) => if fields.len() == 0 {
                Err(
                    Failure::Invalid(
                        "record "@ + quoted(record_name(items)) + " has no elementary fields"@,
                    ),
                )
            } else {
                Ok(
                    RawLayoutModel {
                        records: seq![
                            RawRecordModel { name: record_name(items), fields, selector: None },
                        ],
                        description: Seq::empty(),
                        header_size: 0,
                        footer_size: 0,
                        record_length_field: None,
                        record_type_field: None,
                    },
                )
            },
        }
    }
}

/// What copybook source compiles to, or why it does not.
pub open spec fn compiled(source: Seq<char>) -> Result<RawLayoutModel, Failure> {
    match statements_of(source) {
        Err(failure) => Err(failure),
        Ok(all) => if all.len() == 0 {
            Err(
                Failure::Invalid(
                    "the copybook has no data descriptions; a copybook is a list of level-numbered items such as `01 REC.  05 NAME PIC X(20).`"@,
                ),
            )
        } else {
            match items_of(all, all.len() as int) {
                Err(failure) => Err(failure),
                Ok(items) => compiled_items(items),
            }
        },
    }
}

/// A failure among the first statements is the failure of all.
proof fn lemma_items_fail(all: Seq<Seq<Seq<char>>>, k: int, n: int)
    requires
        0 <= k <= n,
        items_of(all, k) is Err,
    ensures
        items_of(all, n) == items_of(all, k),
    decreases n,
{
    if k < n {
        lemma_items_fail(all, k, n - 1);
    }
}

/// A failure among the first items is the failure of all.
proof fn lemma_flatten_fails(items: Seq<ItemModel>, k: int, n: int)
    requires
        0 <= k <= n,
        flattened(items, k) is Err,
    ensures
        flattened(items, n) == flattened(items, k),
    decreases n,
{
    if k < n {
        lemma_flatten_fails(items, k, n - 1);
    }
}

/// Every statement has a word.
proof fn lemma_statements_have_words(lexemes: Seq<LexemeModel>, k: int)
    requires
        0 <= k <= lexemes.len(),
    ensures
        forall|i: int|
            0 <= i < whole_statements(lexemes, k).len()
                ==> (#[trigger] whole_statements(lexemes, k)[i]).len() > 0,
    decreases k,
{
    if k > 0 {
        lemma_statements_have_words(lexemes, k - 1);
        let before = whole_statements(lexemes, k - 1);
        let now = whole_statements(lexemes, k);
        assert forall|i: int| 0 <= i < now.len() implies (#[trigger] now[i]).len() > 0 by {
            if i < before.len() {
                assert(now[i] == before[i]);
            }
        }
    }
}

/// Add a condition name to the last item.
fn add_condition(items: &mut Vec<Item>, condition: ConditionName)
    ensures
        final(items).deep_view() == with_condition(old(items).deep_view(), condition.deep_view()),
{
    let ghost before = items.deep_view();
    match items.pop() {
        None => {
            proof {
                assert(items.deep_view() =~= before);
            }
        },
        Some(mut item) => {
            let ghost last = item.deep_view();
            let ghost conditions = item.conditions.deep_view();
            let ghost added = condition.deep_view();
            item.conditions.push(condition);
            proof {
                assert(item.conditions.deep_view() =~= conditions.push(added));
                assert(before.last() == last);
                assert(items.deep_view() =~= before.drop_last());
            }
            let ghost rest = items.deep_view();
            let ghost model = item.deep_view();
            items.push(item);
            proof {
                assert(items.deep_view() =~= rest.push(model));
            }
        },
    }
}

/// Whether the ASCII words of statements are read with their ASCII capitals.
pub open spec fn in_ascii_capitals(all: Seq<Seq<Seq<char>>>) -> bool {
    forall|i: int, j: int|
        0 <= i < all.len() && 0 <= j < all[i].len() && is_ascii_text(#[trigger] all[i][j])
            ==> uppercased(all[i][j]) == ascii_capitals(all[i][j])
}

/// Whether the ASCII words of a copybook are read with their ASCII capitals.
pub open spec fn reads_ascii(source: Seq<char>) -> bool {
    statements_of(source) matches Ok(all) ==> in_ascii_capitals(all)
}

/// Read what each statement of a copybook declares.
fn read_entries(all: &Vec<Vec<String>>) -> (r: Vec<Result<Entry, ParseError>>)
    requires
        forall|i: int| 0 <= i < all@.len() ==> (#[trigger] all@[i])@.len() > 0,
    ensures
        r@.len() == all@.len(),
        forall|i: int|
            0 <= i < all@.len() ==> outcome(#[trigger] r@[i]) == entry_of(all.deep_view()[i]),
        in_ascii_capitals(all.deep_view()),
{
    let ghost words = all.deep_view();
    let mut entries: Vec<Result<Entry, ParseError>> = Vec::new();
    let mut k: usize = 0;
    while k < all.len()
        invariant
            k <= all@.len(),
            k == entries@.len(),
            words == all.deep_view(),
            forall|i: int| 0 <= i < all@.len() ==> (#[trigger] all@[i])@.len() > 0,
            forall|i: int| 0 <= i < k ==> outcome(#[trigger] entries@[i]) == entry_of(words[i]),
            forall|i: int, j: int|
                0 <= i < k && 0 <= j < words[i].len() && is_ascii_text(#[trigger] words[i][j])
                    ==> uppercased(words[i][j]) == ascii_capitals(words[i][j]),
        decreases all@.len() - k,
    {
        proof {
            assert(words[k as int] == all@[k as int].deep_view());
            assert forall|j: int| 0 <= j < words[k as int].len() implies
                #[trigger] words[k as int][j] == all@[k as int]@[j]@ by {}
        }
        entries.push(parse_item(&all[k]));
        k = k + 1;
    }
    entries
}

/// Read the items the statements of a copybook declare.
fn read_items(all: &Vec<Vec<String>>) -> (r: Result<Vec<Item>, ParseError>)
    requires
        forall|i: int| 0 <= i < all@.len() ==> (#[trigger] all@[i])@.len() > 0,
    ensures
        outcome(r) == items_of(all.deep_view(), all@.len() as int),
        in_ascii_capitals(all.deep_view()),
{
    let ghost words = all.deep_view();
    let entries: Vec<Result<Entry, ParseError>> = read_entries(all);
    let ghost read = entries@;
    let mut items: Vec<Item> = Vec::new();
    proof {
        assert(items.deep_view() =~= Seq::<ItemModel>::empty());
    }
    for entry in it: entries
        invariant
            it.seq() == read,
            read.len() == words.len(),
            forall|i: int|
                0 <= i < read.len() ==> outcome(#[trigger] read[i]) == entry_of(words[i]),
            items_of(words, it.index() as int) == Ok::<_, Failure>(items.deep_view()),
            in_ascii_capitals(words),
            words == all.deep_view(),
    {
        let ghost before = items.deep_view();
        let ghost k = it.index() as int;
        proof {
            assert(outcome(read[k]) == entry_of(words[k]));
        }
        match entry {
            Err(error) => {
                proof {
                    lemma_items_fail(words, k + 1, words.len() as int);
                }
                return Err(error);
            },
            Ok(Entry::Storage(item)) => {
                let ghost model = item.deep_view();
                items.push(item);
                proof {
                    assert(items.deep_view() =~= before.push(model));
                }
            },
            Ok(Entry::Condition(condition)) => {
                add_condition(&mut items, condition);
            },
            Ok(Entry::Nothing) => {},
        }
    }
    Ok(items)
}

/// The names of the groups that enclose an item, outermost first, behind the
/// name of the record.
fn find_path(items: &Vec<Item>, record: &str, i: usize, level: u8, name: &str) -> (r: String)
    requires
        0 < i < items@.len(),
        record@ == record_name(items.deep_view()),
        level == items@[i as int].level,
    ensures
        r@ == path_of(items.deep_view(), i as int, name@),
{
    let ghost models = items.deep_view();
    let ghost wanted = enclosing(models, i as int, level);
    // The names are found from the inside out.
    let mut inner: Vec<&str> = Vec::new();
    let mut at: usize = i;
    let mut below: u8 = level;
    let ghost mut tail: Seq<Seq<char>> = Seq::empty();
    proof {
        assert(wanted + tail =~= wanted);
    }
    while at > 1
        invariant
            1 <= at <= i < items@.len(),
            models == items.deep_view(),
            wanted == enclosing(models, at as int, below) + tail,
            tail.len() == inner@.len(),
            forall|j: int| 0 <= j < tail.len() ==> tail[j] == inner@[tail.len() - 1 - j]@,
        decreases at,
    {
        let item: &Item = &items[at - 1];
        proof {
            assert(models[at - 1] == item.deep_view());
        }
        if item.level < below {
            below = item.level;
            match &item.name {
                Some(name) => {
                    proof {
                        let outer = enclosing(models, at - 1, below);
                        assert(outer.push(name@) + tail =~= outer + (seq![name@] + tail));
                        tail = seq![name@] + tail;
                    }
                    inner.push(name.as_str());
                },
                None => {},
            }
        }
        at = at - 1;
    }
    proof {
        assert(Seq::<Seq<char>>::empty() + tail =~= tail);
    }
    let mut parts: Vec<&str> = Vec::new();
    parts.push(record);
    let mut j: usize = inner.len();
    while j > 0
        invariant
            j <= inner@.len(),
            tail.len() == inner@.len(),
            forall|j: int| 0 <= j < tail.len() ==> tail[j] == inner@[tail.len() - 1 - j]@,
            parts@.len() == 1 + inner@.len() - j,
            parts@[0]@ == record@,
            forall|k: int| 1 <= k < parts@.len() ==> (#[trigger] parts@[k])@ == tail[k - 1],
        decreases j,
    {
        j = j - 1;
        parts.push(inner[j]);
    }
    parts.push(name);
    proof {
        assert(parts.deep_view() =~= (seq![record@] + tail).push(name@));
    }
    join(&parts, ".")
}

/// Build one field of an item.
fn build_field(
    items: &Vec<Item>,
    record: &str,
    i: usize,
    found: Described,
    occurrence: Option<u32>,
) -> (r: RawField)
    requires
        i < items@.len(),
        record@ == record_name(items.deep_view()),
        items@[i as int].picture is Some,
    ensures
        r.deep_view() == item_field(items.deep_view(), i as int, found, occurrence),
{
    let ghost models = items.deep_view();
    let item: &Item = &items[i];
    proof {
        assert(models[i as int] == item.deep_view());
    }
    let name: String = match &item.name {
        None => String::new(),
        Some(name) => match occurrence {
            None => name.clone(),
            Some(occurrence) => cat4(name, "(", &decimal_text(occurrence as u128), ")"),
        },
    };
    let path: String = if item.name.is_none() {
        String::new()
    } else if i == 0 {
        name.clone()
    } else {
        find_path(items, record, i, item.level, &name)
    };
    let picture: String = match &item.picture {
        Some(picture) => picture.clone(),
        None => String::new(),
    };
    let occurs_group: Option<String> = match (occurrence, &item.name) {
        (Some(_), Some(name)) => Some(name.clone()),
        _ => None,
    };
    RawField {
        name,
        size: found.size,
        kind: if item.name.is_none() {
            FieldKind::Skip
        } else {
            found.kind
        },
        scale: if item.name.is_none() {
            0
        } else {
            found.scale
        },
        picture,
        offset: None,
        declaration: Declaration {
            level: Some(item.level as u32),
            path,
            occurs_index: occurrence,
            occurs_group,
            conditions: copy_conditions(&item.conditions),
        },
    }
}

/// How messages refer to an item.
fn find_label(name: &Option<String>) -> (r: String)
    ensures
        r@ == label_of(name.deep_view()),
{
    match name {
        Some(name) => name.clone(),
        None => "FILLER".to_owned(),
    }
}

/// Emit the fields of one item behind those already emitted.
fn emit_item(items: &Vec<Item>, record: &str, i: usize, out: &mut Vec<RawField>) -> (r: Result<
    (),
    ParseError,
>)
    requires
        i < items@.len(),
        record@ == record_name(items.deep_view()),
    ensures
        match r {
            Ok(_) => {
                &&& item_fields(items.deep_view(), i as int) is Ok
                &&& final(out).deep_view() == old(out).deep_view() + item_fields(
                    items.deep_view(),
                    i as int,
                )->Ok_0
            },
            Err(error) => item_fields(items.deep_view(), i as int) == Err::<
                Seq<RawFieldModel>,
                _,
            >(error@),
        },
{
    let ghost models = items.deep_view();
    let ghost before = out.deep_view();
    let item: &Item = &items[i];
    let total: usize = items.len();
    let label: String = find_label(&item.name);
    proof {
        assert(models[i as int] == item.deep_view());
        if i + 1 < items@.len() {
            assert(models[i + 1] == items@[i + 1].deep_view());
        }
    }
    let group: bool = i + 1 < total && items[i + 1].level > item.level && item.level != 77;
    if group {
        if item.picture.is_some() {
            return Err(
                ParseError::invalid(
                    cat3(
                        "item ",
                        &quote(&label),
                        " has both a PICTURE clause and subordinate items",
                    ),
                ),
            );
        }
        if item.occurs.is_some() {
            return Err(
                ParseError::unsupported(
                    cat3(
                        "OCCURS on the group item ",
                        &quote(&label),
                        " is not supported; put it on the elementary items instead",
                    ),
                ),
            );
        }
        proof {
            assert(before + Seq::<RawFieldModel>::empty() =~= before);
        }
        return Ok(());
    }
    let picture: &String = match &item.picture {
        None => {
            return Err(
                ParseError::invalid(
                    cat3("elementary item ", &quote(&label), " has no PICTURE clause"),
                ),
            );
        },
        Some(picture) => picture,
    };
    let found: Described = match describe(picture, item.usage, &label) {
        Err(error) => {
            return Err(error);
        },
        Ok(found) => found,
    };
    match item.occurs {
        None => {
            let field: RawField = build_field(items, record, i, found, None);
            let ghost model = field.deep_view();
            out.push(field);
            proof {
                assert(out.deep_view() =~= before + seq![model]);
            }
        },
        Some(count) => {
            let ghost wanted = item_fields(models, i as int)->Ok_0;
            let mut o: u32 = 0;
            proof {
                assert(before + wanted.take(0) =~= before);
            }
            while o < count
                invariant
                    o <= count,
                    i < items@.len(),
                    models == items.deep_view(),
                    record@ == record_name(models),
                    items@[i as int].picture is Some,
                    wanted == Seq::new(
                        count as nat,
                        |o: int| item_field(models, i as int, found, Some((o + 1) as u32)),
                    ),
                    out.deep_view() == before + wanted.take(o as int),
                decreases count - o,
            {
                let ghost so_far = out.deep_view();
                let field: RawField = build_field(items, record, i, found, Some(o + 1));
                let ghost model = field.deep_view();
                out.push(field);
                proof {
                    assert(out.deep_view() =~= so_far.push(model));
                    assert(so_far.push(wanted[o as int]) =~= before + wanted.take(o + 1));
                }
                o = o + 1;
            }
            proof {
                assert(wanted.take(count as int) =~= wanted);
            }
        },
    }
    Ok(())
}

/// Walk the level tree and emit the elementary fields in physical order.
fn flatten(items: &Vec<Item>, record: &str) -> (r: Result<Vec<RawField>, ParseError>)
    requires
        items@.len() > 0,
        record@ == record_name(items.deep_view()),
    ensures
        outcome(r) == flattened(items.deep_view(), items@.len() as int),
{
    let ghost models = items.deep_view();
    let mut out: Vec<RawField> = Vec::new();
    let mut k: usize = 0;
    proof {
        assert(out.deep_view() =~= Seq::<RawFieldModel>::empty());
    }
    while k < items.len()
        invariant
            k <= items@.len(),
            models == items.deep_view(),
            record@ == record_name(models),
            flattened(models, k as int) == Ok::<_, Failure>(out.deep_view()),
        decreases items@.len() - k,
    {
        match emit_item(items, record, k, &mut out) {
            Err(error) => {
                proof {
                    lemma_flatten_fails(models, k + 1, items@.len() as int);
                }
                return Err(error);
            },
            Ok(_) => {},
        }
        k = k + 1;
    }
    Ok(out)
}

/// Count the roots among the items.
fn count_roots(items: &Vec<Item>) -> (r: usize)
    ensures
        r == roots_in(items.deep_view(), items@.len() as int),
{
    let ghost models = items.deep_view();
    let mut roots: usize = 0;
    let mut k: usize = 0;
    while k < items.len()
        invariant
            k <= items@.len(),
            models == items.deep_view(),
            roots == roots_in(models, k as int),
            roots <= k,
        decreases items@.len() - k,
    {
        proof {
            assert(models[k as int] == items@[k as int].deep_view());
        }
        if items[k].level == 1 || items[k].level == 77 {
            roots = roots + 1;
        }
        k = k + 1;
    }
    roots
}

/// Compile the items of a copybook into the raw layout shape.
fn compile_items(items: &Vec<Item>) -> (r: Result<RawLayout, ParseError>)
    ensures
        outcome(r) == compiled_items(items.deep_view()),
{
    let ghost models = items.deep_view();
    if items.len() == 0 {
        return Err(
            ParseError::invalid(
                "the copybook declares no storage: every item in it is a level-88 condition name".to_owned(),
            ),
        );
    }
    proof {
        assert(models[0] == items@[0].deep_view());
    }
    let roots: usize = count_roots(items);
    if roots == 0 {
        return Err(
            ParseError::invalid("the copybook has no 01-level record description".to_owned()),
        );
    }
    if roots > 1 {
        return Err(
            ParseError::unsupported(
                "the copybook describes more than one 01-level record. Multi-schema files need a record_type_field and per-schema selectors, which a copybook cannot express; send ParseOptions.layout instead".to_owned(),
            ),
        );
    }
    let level: u8 = items[0].level;
    if level != 1 && level != 77 {
        let digits: String = if level < 10 {
            crate::text::cat2("0", &decimal_text(level as u128))
        } else {
            decimal_text(level as u128)
        };
        return Err(
            ParseError::invalid(
                cat3("the copybook starts at level ", &digits, " rather than 01"),
            ),
        );
    }
    let record: String = match &items[0].name {
        Some(name) => name.clone(),
        None => "record".to_owned(),
    };
    let fields: Vec<RawField> = match flatten(items, &record) {
        Err(error) => {
            return Err(error);
        },
        Ok(fields) => fields,
    };
    if fields.len() == 0 {
        return Err(
            ParseError::invalid(cat3("record ", &quote(&record), " has no elementary fields")),
        );
    }
    let mut records: Vec<RawRecord> = Vec::new();
    let only: RawRecord = RawRecord { name: record, fields, selector: None };
    let ghost model = only.deep_view();
    records.push(only);
    proof {
        assert(records.deep_view() =~= seq![model]);
    }
    Ok(
        RawLayout {
            records,
            description: String::new(),
            header_size: 0,
            footer_size: 0,
            record_length_field: None,
            record_type_field: None,
        },
    )
}

/// Compile copybook source into the raw layout shape.
pub fn compile(source: &str) -> (r: Result<RawLayout, ParseError>)
    requires
        columns_align(source@),
    ensures
        outcome(r) == compiled(source@),
        reads_ascii(source@),
{
    let all: Vec<Vec<String>> = match statements(source) {
        Err(error) => {
            return Err(error);
        },
        Ok(all) => all,
    };
    if all.len() == 0 {
        return Err(
            ParseError::invalid(
                "the copybook has no data descriptions; a copybook is a list of level-numbered items such as `01 REC.  05 NAME PIC X(20).`".to_owned(),
            ),
        );
    }
    proof {
        let lexemes = lexed_lines(lines(source@), 0)->Ok_0;
        lemma_statements_have_words(lexemes, lexemes.len() as int);
        assert forall|i: int| 0 <= i < all@.len() implies (#[trigger] all@[i])@.len() > 0 by {
            assert(all.deep_view()[i] == all@[i].deep_view());
        }
    }
    let items: Vec<Item> = match read_items(&all) {
        Err(error) => {
            return Err(error);
        },
        Ok(items) => items,
    };
    compile_items(&items)
}

} // verus!
