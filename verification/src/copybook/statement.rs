//! Reading one statement: a data-description item, or a condition name.

use vstd::prelude::*;
use crate::copybook::lexing::{is_quote, join_words};
use crate::copybook::picture::Usage;
use crate::error::{outcome, Failure, ParseError};
use crate::layout::ConditionName;
use crate::proto::v1::{ConditionNameModel, ValueRange, ValueRangeModel};
use crate::text::{bounded_number, cat3, cat4, cat6, chars_of, decimal, decimal_text,
    is_ascii_text, joined, parse_number, quote, quoted, same, string_of};

verus! {

/// Largest `OCCURS` count the compiler will expand.
///
/// Each occurrence becomes a real field with a real name, so this bounds the
/// work a one-line copybook can ask for.
pub const MAX_OCCURS: u32 = 4096;

/// What `str::to_uppercase` yields for a text.
pub uninterp spec fn uppercased(text: Seq<char>) -> Seq<char>;

/// The capital of an ASCII small letter; any other character is its own.
pub open spec fn ascii_uppered(c: char) -> char {
    if 'a' <= c <= 'z' {
        (c as u8 - 0x20) as char
    } else {
        c
    }
}

/// An ASCII text with each of its characters as its ASCII capital.
pub open spec fn ascii_capitals(text: Seq<char>) -> Seq<char> {
    Seq::new(text.len(), |i: int| ascii_uppered(text[i]))
}

/// `str::to_uppercase`: the result is the name [`uppercased`] of the text. For
/// a text that is ASCII throughout it is the ASCII capital of each character;
/// for other texts nothing more is said of it.
#[verifier::external_body]
fn uppercase(text: &str) -> (r: String)
    ensures
        r@ == uppercased(text@),
        is_ascii_text(text@) ==> r@ == ascii_capitals(text@),
{
    text.to_uppercase()
}

/// The words of a statement in capitals, as keywords are compared.
pub open spec fn capitals(statement: Seq<Seq<char>>) -> Seq<Seq<char>> {
    Seq::new(statement.len(), |i: int| uppercased(statement[i]))
}

/// One parsed data-description item, before the tree is flattened.
pub struct Item {
    /// Level number.
    pub level: u8,
    /// Item name, absent for anonymous items.
    pub name: Option<String>,
    /// Picture clause, absent for group items.
    pub picture: Option<String>,
    /// Declared usage.
    pub usage: Usage,
    /// `OCCURS` count, absent when the item is not a table.
    pub occurs: Option<u32>,
    /// Level-88 condition names declared under the item.
    pub conditions: Vec<ConditionName>,
}

/// [`Item`] as contracts speak of it.
#[verifier::ext_equal]
pub struct ItemModel {
    /// See [`Item::level`].
    pub level: u8,
    /// See [`Item::name`].
    pub name: Option<Seq<char>>,
    /// See [`Item::picture`].
    pub picture: Option<Seq<char>>,
    /// See [`Item::usage`].
    pub usage: Usage,
    /// See [`Item::occurs`].
    pub occurs: Option<u32>,
    /// See [`Item::conditions`].
    pub conditions: Seq<ConditionNameModel>,
}

impl DeepView for Item {
    type V = ItemModel;

    open spec fn deep_view(&self) -> ItemModel {
        ItemModel {
            level: self.level,
            name: self.name.deep_view(),
            picture: self.picture.deep_view(),
            usage: self.usage,
            occurs: self.occurs,
            conditions: self.conditions.deep_view(),
        }
    }
}

/// What one statement declares.
pub enum Entry {
    /// Storage.
    Storage(Item),
    /// A condition on the item in front of it.
    Condition(ConditionName),
    /// Nothing: a condition without a name.
    Nothing,
}

/// [`Entry`] as contracts speak of it.
#[verifier::ext_equal]
pub enum EntryModel {
    /// See [`Entry::Storage`].
    Storage(ItemModel),
    /// See [`Entry::Condition`].
    Condition(ConditionNameModel),
    /// See [`Entry::Nothing`].
    Nothing,
}

impl DeepView for Entry {
    type V = EntryModel;

    open spec fn deep_view(&self) -> EntryModel {
        match self {
            Entry::Storage(item) => EntryModel::Storage(item.deep_view()),
            Entry::Condition(condition) => EntryModel::Condition(condition.deep_view()),
            Entry::Nothing => EntryModel::Nothing,
        }
    }
}

/// The usage a keyword introduces.
pub open spec fn usage_named(token: Seq<char>) -> Option<Usage> {
    if token == "COMP"@ || token == "COMPUTATIONAL"@ || token == "COMP-4"@ || token
        == "COMPUTATIONAL-4"@ || token == "BINARY"@ {
        Some(Usage::Binary)
    } else if token == "COMP-3"@ || token == "COMPUTATIONAL-3"@ || token == "PACKED-DECIMAL"@ {
        Some(Usage::Packed)
    } else if token == "DISPLAY"@ {
        Some(Usage::Display)
    } else {
        None
    }
}

/// Why a count that varies is refused.
pub open spec fn varying_reason() -> Seq<char> {
    "OCCURS DEPENDING ON makes the record variable-length in a way the layout cannot describe"@
}

/// Why the compiler refuses a clause, for the clauses it refuses.
pub open spec fn refusal(token: Seq<char>) -> Option<Seq<char>> {
    if token == "REDEFINES"@ {
        Some(
            "REDEFINES gives one run of bytes two layouts; send the layout you actually want as ParseOptions.layout"@,
        )
    } else if token == "RENAMES"@ {
        Some("level-66 RENAMES regroups fields that are already described"@)
    } else if token == "COMP-1"@ || token == "COMPUTATIONAL-1"@ || token == "COMP-2"@ || token
        == "COMPUTATIONAL-2"@ {
        Some(
            "COMP-1 and COMP-2 are hexadecimal floating point, which this build does not decode"@,
        )
    } else if token == "COMP-5"@ || token == "COMPUTATIONAL-5"@ {
        Some(
            "COMP-5 is native-endian binary, so its bytes depend on the machine that wrote them; declare the field as COMP if it is big-endian"@,
        )
    } else if token == "SYNCHRONIZED"@ || token == "SYNC"@ {
        Some(
            "SYNCHRONIZED inserts compiler-chosen slack bytes, so the offsets in the copybook are no longer the offsets in the file"@,
        )
    } else if token == "SIGN"@ {
        Some(
            "an explicit SIGN clause moves or separates the sign; only the default trailing overpunch is decoded"@,
        )
    } else if token == "DEPENDING"@ {
        Some(varying_reason())
    } else if token == "POINTER"@ || token == "INDEX"@ || token == "PROCEDURE-POINTER"@ || token
        == "FUNCTION-POINTER"@ {
        Some("pointer and index items hold machine addresses, not data"@)
    } else {
        None
    }
}

/// Whether a keyword introduces the value of an item.
pub open spec fn is_value_keyword(token: Seq<char>) -> bool {
    token == "VALUE"@ || token == "VALUES"@
}

/// Whether a keyword describes something other than the bytes.
pub open spec fn is_ignorable(token: Seq<char>) -> bool {
    ||| is_value_keyword(token)
    ||| token == "JUSTIFIED"@
    ||| token == "JUST"@
    ||| token == "RIGHT"@
    ||| token == "LEFT"@
    ||| token == "GLOBAL"@
    ||| token == "EXTERNAL"@
    ||| token == "BLANK"@
    ||| token == "WHEN"@
    ||| token == "ZERO"@
    ||| token == "ZEROS"@
    ||| token == "ZEROES"@
    ||| token == "IS"@
    ||| token == "ARE"@
    ||| token == "TIMES"@
    ||| token == "CHARACTERS"@
}

/// Whether a word in the name position is really the start of a clause.
pub open spec fn is_clause_keyword(token: Seq<char>) -> bool {
    ||| token == "PIC"@
    ||| token == "PICTURE"@
    ||| token == "USAGE"@
    ||| token == "OCCURS"@
    ||| token == "REDEFINES"@
    ||| usage_named(token) is Some
    ||| is_ignorable(token)
    ||| refusal(token) is Some
}

/// What the clauses of an item say.
#[verifier::ext_equal]
pub struct Clauses {
    /// The picture string.
    pub picture: Option<Seq<char>>,
    /// The usage.
    pub usage: Option<Usage>,
    /// The repeat count.
    pub occurs: Option<u32>,
}

/// The message of a clause the compiler refuses.
pub open spec fn refused(label: Seq<char>, token: Seq<char>, reason: Seq<char>) -> Failure {
    Failure::Unsupported(
        "copybook item "@ + quoted(label) + " uses "@ + token + ": "@ + reason,
    )
}

/// Where the operand of the clause at `i` stands: behind its keyword and an
/// optional `IS`.
pub open spec fn operand(tokens: Seq<Seq<char>>, i: int) -> int {
    if i + 1 < tokens.len() && tokens[i + 1] == "IS"@ {
        i + 2
    } else {
        i + 1
    }
}

/// Whether the `OCCURS` clause at `i` goes on with an upper bound.
pub open spec fn has_upper_bound(tokens: Seq<Seq<char>>, i: int) -> bool {
    i + 2 < tokens.len() && tokens[i + 2] == "TO"@
}

/// Whether the `OCCURS` clause at `i` goes on with `DEPENDING ON`, behind its
/// count or in place of it.
pub open spec fn depends(tokens: Seq<Seq<char>>, i: int) -> bool {
    ||| i + 1 < tokens.len() && tokens[i + 1] == "DEPENDING"@
    ||| i + 2 < tokens.len() && tokens[i + 2] == "DEPENDING"@
    ||| i + 3 < tokens.len() && tokens[i + 2] == "TIMES"@ && tokens[i + 3] == "DEPENDING"@
}

/// What the clause at `i` adds to those before it, and where the clause after
/// it stands.
pub open spec fn clause_at(
    tokens: Seq<Seq<char>>,
    label: Seq<char>,
    i: int,
    before: Clauses,
) -> Result<(Clauses, int), Failure> {
    let token = tokens[i];
    let at = operand(tokens, i);
    if refusal(token) is Some {
        Err(refused(label, token, refusal(token)->Some_0))
    } else if token == "PIC"@ || token == "PICTURE"@ {
        if at >= tokens.len() {
            Err(
                Failure::Invalid(
                    "PICTURE clause of "@ + quoted(label) + " has no picture string"@,
                ),
            )
        } else {
            Ok((Clauses { picture: Some(tokens[at]), ..before }, at + 1))
        }
    } else if token == "USAGE"@ {
        if at >= tokens.len() {
            Err(Failure::Invalid("USAGE clause of "@ + quoted(label) + " names no usage"@))
        } else if refusal(tokens[at]) is Some {
            Err(refused(label, tokens[at], refusal(tokens[at])->Some_0))
        } else if usage_named(tokens[at]) is None {
            Err(
                Failure::Unsupported(
                    "USAGE "@ + tokens[at] + " is not a usage this build decodes"@,
                ),
            )
        } else {
            Ok((Clauses { usage: usage_named(tokens[at]), ..before }, at + 1))
        }
    } else if token == "OCCURS"@ {
        if depends(tokens, i) {
            Err(refused(label, "DEPENDING"@, varying_reason()))
        } else if has_upper_bound(tokens, i) {
            Err(refused(label, "OCCURS DEPENDING ON"@, varying_reason()))
        } else if i + 1 >= tokens.len() || bounded_number(tokens[i + 1], u32::MAX as nat) is None {
            Err(
                Failure::Invalid("OCCURS clause of "@ + quoted(label) + " has no repeat count"@),
            )
        } else {
            let count = bounded_number(tokens[i + 1], u32::MAX as nat)->Some_0;
            if count == 0 || count > MAX_OCCURS {
                Err(
                    Failure::Invalid(
                        "OCCURS "@ + decimal(count)
                            + " is outside the supported range 1..=4096"@,
                    ),
                )
            } else {
                Ok((Clauses { occurs: Some(count as u32), ..before }, i + 2))
            }
        }
    } else if usage_named(token) is Some {
        Ok((Clauses { usage: usage_named(token), ..before }, i + 1))
    } else if is_value_keyword(token) {
        // A value takes the rest of the statement: a figurative constant such
        // as `ALL SPACES` is several words.
        Ok((before, tokens.len() as int))
    } else if is_ignorable(token) {
        Ok((before, i + 1))
    } else {
        Err(
            Failure::Unsupported(
                "unrecognized clause "@ + quoted(token) + " in copybook item "@ + quoted(label),
            ),
        )
    }
}

/// What the clauses from `i` on say, behind those before them.
pub open spec fn clauses_from(
    tokens: Seq<Seq<char>>,
    label: Seq<char>,
    i: int,
    before: Clauses,
) -> Result<Clauses, Failure>
    decreases tokens.len() - i,
{
    if i >= tokens.len() {
        Ok(before)
    } else {
        match clause_at(tokens, label, i, before) {
            Err(failure) => Err(failure),
            Ok((clauses, next)) => if next <= i {
                Ok(clauses)
            } else {
                clauses_from(tokens, label, next, clauses)
            },
        }
    }
}

/// The name in a statement, if it has one. `FILLER` names nothing.
pub open spec fn declared_name(statement: Seq<Seq<char>>, tokens: Seq<Seq<char>>) -> Option<
    Seq<char>,
> {
    if tokens.len() > 1 && !is_clause_keyword(tokens[1]) && tokens[1] != "FILLER"@ {
        Some(statement[1])
    } else {
        None
    }
}

/// Where the clauses of a statement start.
pub open spec fn clauses_start(tokens: Seq<Seq<char>>) -> int {
    if tokens.len() > 1 && !is_clause_keyword(tokens[1]) {
        2
    } else {
        1
    }
}

/// How messages refer to an item.
pub open spec fn label_of(name: Option<Seq<char>>) -> Seq<char> {
    match name {
        Some(name) => name,
        None => "FILLER"@,
    }
}

/// What a data-description statement of a level declares, with its words in
/// capitals beside it.
pub open spec fn storage_of(
    statement: Seq<Seq<char>>,
    tokens: Seq<Seq<char>>,
    level: u8,
) -> Result<ItemModel, Failure> {
    let name = declared_name(statement, tokens);
    let none = Clauses { picture: None, usage: None, occurs: None };
    match clauses_from(tokens, label_of(name), clauses_start(tokens), none) {
        Err(failure) => Err(failure),
        Ok(clauses) => Ok(
            ItemModel {
                level,
                name,
                picture: clauses.picture,
                usage: match clauses.usage {
                    Some(usage) => usage,
                    None => Usage::Display,
                },
                occurs: clauses.occurs,
                conditions: Seq::empty(),
            },
        ),
    }
}

/// A literal as a condition carries it: without the comma behind it and the
/// quotes around it.
pub open spec fn literal_of(word: Seq<char>) -> Seq<char> {
    let bare = if word.len() > 0 && word.last() == ',' {
        word.drop_last()
    } else {
        word
    };
    if bare.len() >= 2 && is_quote(bare[0]) && bare.last() == bare[0] {
        bare.subrange(1, bare.len() - 1)
    } else {
        bare
    }
}

/// Whether a word joins the two bounds of a range.
pub open spec fn is_through(token: Seq<char>) -> bool {
    token == "THRU"@ || token == "THROUGH"@
}

/// The values a condition is true for, from the word at `i` on: a literal, or
/// two literals joined by `THRU`, each.
pub open spec fn ranges_from(
    statement: Seq<Seq<char>>,
    tokens: Seq<Seq<char>>,
    i: int,
) -> Seq<ValueRangeModel>
    decreases statement.len() - i,
{
    if i >= statement.len() {
        Seq::empty()
    } else if statement[i] == ","@ {
        ranges_from(statement, tokens, i + 1)
    } else if i + 1 < statement.len() && is_through(tokens[i + 1]) {
        if i + 2 < statement.len() {
            seq![
                ValueRangeModel {
                    low: literal_of(statement[i]),
                    high: Some(literal_of(statement[i + 2])),
                },
            ] + ranges_from(statement, tokens, i + 3)
        } else {
            seq![ValueRangeModel { low: literal_of(statement[i]), high: None }]
        }
    } else {
        seq![ValueRangeModel { low: literal_of(statement[i]), high: None }] + ranges_from(
            statement,
            tokens,
            i + 1,
        )
    }
}

/// Where the literals of a condition start: behind the first value keyword at
/// or after `i` and an optional `IS` or `ARE`.
pub open spec fn literals_start(tokens: Seq<Seq<char>>, i: int) -> int
    decreases tokens.len() - i,
{
    if i >= tokens.len() {
        tokens.len() as int
    } else if is_value_keyword(tokens[i]) {
        if i + 1 < tokens.len() && (tokens[i + 1] == "IS"@ || tokens[i + 1] == "ARE"@) {
            i + 2
        } else {
            i + 1
        }
    } else {
        literals_start(tokens, i + 1)
    }
}

/// A range written out.
pub open spec fn range_text(range: ValueRangeModel) -> Seq<char> {
    match range.high {
        Some(high) => range.low + " THRU "@ + high,
        None => range.low,
    }
}

/// What a level-88 statement declares: a condition, when it has a name.
pub open spec fn condition_of(statement: Seq<Seq<char>>, tokens: Seq<Seq<char>>) -> EntryModel {
    if tokens.len() > 1 && !is_clause_keyword(tokens[1]) {
        let ranges = ranges_from(statement, tokens, literals_start(tokens, 2));
        EntryModel::Condition(
            ConditionNameModel {
                name: statement[1],
                values: Seq::new(ranges.len(), |i: int| range_text(ranges[i])),
                ranges,
            },
        )
    } else {
        EntryModel::Nothing
    }
}

/// What a statement declares, with its words in capitals beside it, or why it
/// declares nothing the compiler takes.
pub open spec fn entry_with(statement: Seq<Seq<char>>, tokens: Seq<Seq<char>>) -> Result<
    EntryModel,
    Failure,
> {
    match bounded_number(tokens[0], 255) {
        None => Err(
            Failure::Invalid(
                "expected a level number at the start of "@ + quoted(joined(statement, " "@))
                    + ", found "@ + quoted(statement[0]),
            ),
        ),
        Some(level) => if level == 88 {
            Ok(condition_of(statement, tokens))
        } else if level == 66 {
            Err(
                Failure::Unsupported(
                    "level-66 RENAMES regroups fields that are already described"@,
                ),
            )
        } else if !(1 <= level <= 49 || level == 77) {
            Err(
                Failure::Invalid(
                    "level "@ + decimal(level) + " is not a data-description level number"@,
                ),
            )
        } else {
            match storage_of(statement, tokens, level as u8) {
                Err(failure) => Err(failure),
                Ok(item) => Ok(EntryModel::Storage(item)),
            }
        },
    }
}

/// What a statement declares, or why it declares nothing the compiler takes.
/// Keywords are compared in capitals.
pub open spec fn entry_of(statement: Seq<Seq<char>>) -> Result<EntryModel, Failure> {
    entry_with(statement, capitals(statement))
}

/// Find the usage a keyword introduces.
fn usage_of(token: &str) -> (r: Option<Usage>)
    ensures
        r == usage_named(token@),
{
    if same(token, "COMP") || same(token, "COMPUTATIONAL") || same(token, "COMP-4") || same(
        token,
        "COMPUTATIONAL-4",
    ) || same(token, "BINARY") {
        Some(Usage::Binary)
    } else if same(token, "COMP-3") || same(token, "COMPUTATIONAL-3") || same(
        token,
        "PACKED-DECIMAL",
    ) {
        Some(Usage::Packed)
    } else if same(token, "DISPLAY") {
        Some(Usage::Display)
    } else {
        None
    }
}

/// Find why the compiler refuses a clause, for the clauses it refuses.
fn refuse(token: &str) -> (r: Option<&'static str>)
    ensures
        r.deep_view() == refusal(token@),
{
    if same(token, "REDEFINES") {
        Some(
            "REDEFINES gives one run of bytes two layouts; send the layout you actually want as ParseOptions.layout",
        )
    } else if same(token, "RENAMES") {
        Some("level-66 RENAMES regroups fields that are already described")
    } else if same(token, "COMP-1") || same(token, "COMPUTATIONAL-1") || same(token, "COMP-2")
        || same(token, "COMPUTATIONAL-2") {
        Some("COMP-1 and COMP-2 are hexadecimal floating point, which this build does not decode")
    } else if same(token, "COMP-5") || same(token, "COMPUTATIONAL-5") {
        Some(
            "COMP-5 is native-endian binary, so its bytes depend on the machine that wrote them; declare the field as COMP if it is big-endian",
        )
    } else if same(token, "SYNCHRONIZED") || same(token, "SYNC") {
        Some(
            "SYNCHRONIZED inserts compiler-chosen slack bytes, so the offsets in the copybook are no longer the offsets in the file",
        )
    } else if same(token, "SIGN") {
        Some(
            "an explicit SIGN clause moves or separates the sign; only the default trailing overpunch is decoded",
        )
    } else if same(token, "DEPENDING") {
        Some(
            "OCCURS DEPENDING ON makes the record variable-length in a way the layout cannot describe",
        )
    } else if same(token, "POINTER") || same(token, "INDEX") || same(token, "PROCEDURE-POINTER")
        || same(token, "FUNCTION-POINTER") {
        Some("pointer and index items hold machine addresses, not data")
    } else {
        None
    }
}

fn value_keyword(token: &str) -> (r: bool)
    ensures
        r == is_value_keyword(token@),
{
    same(token, "VALUE") || same(token, "VALUES")
}

/// Whether a keyword describes something other than the bytes.
fn ignorable(token: &str) -> (r: bool)
    ensures
        r == is_ignorable(token@),
{
    value_keyword(token) || same(token, "JUSTIFIED") || same(token, "JUST") || same(token, "RIGHT")
        || same(token, "LEFT") || same(token, "GLOBAL") || same(token, "EXTERNAL") || same(
        token,
        "BLANK",
    ) || same(token, "WHEN") || same(token, "ZERO") || same(token, "ZEROS") || same(
        token,
        "ZEROES",
    ) || same(token, "IS") || same(token, "ARE") || same(token, "TIMES") || same(
        token,
        "CHARACTERS",
    )
}

/// Whether a word in the name position is really the start of a clause.
fn clause_keyword(token: &str) -> (r: bool)
    ensures
        r == is_clause_keyword(token@),
{
    same(token, "PIC") || same(token, "PICTURE") || same(token, "USAGE") || same(token, "OCCURS")
        || same(token, "REDEFINES") || usage_of(token).is_some() || ignorable(token) || refuse(
        token,
    ).is_some()
}

/// What the clauses of an item say so far.
struct ClausesSoFar {
    /// The picture string.
    picture: Option<String>,
    /// The usage.
    usage: Option<Usage>,
    /// The repeat count.
    occurs: Option<u32>,
}

impl ClausesSoFar {
    spec fn model(self) -> Clauses {
        Clauses { picture: self.picture.deep_view(), usage: self.usage, occurs: self.occurs }
    }
}

fn refused_error(label: &str, token: &str, reason: &str) -> (r: ParseError)
    ensures
        r@ == refused(label@, token@, reason@),
{
    ParseError::unsupported(
        cat6("copybook item ", &quote(label), " uses ", token, ": ", reason),
    )
}

fn find_operand(tokens: &Vec<String>, i: usize) -> (r: usize)
    requires
        i < tokens@.len(),
    ensures
        r == operand(tokens.deep_view(), i as int),
        i < r <= tokens@.len() + 1,
{
    let count: usize = tokens.len();
    if i + 1 < count {
        proof {
            assert(tokens.deep_view()[i + 1] == tokens@[i + 1]@);
        }
        if same(&tokens[i + 1], "IS") {
            return i + 2;
        }
    }
    i + 1
}

/// Whether the `OCCURS` clause at `i` goes on with an upper bound.
fn bounded_above(tokens: &Vec<String>, i: usize) -> (r: bool)
    requires
        i < tokens@.len(),
    ensures
        r == has_upper_bound(tokens.deep_view(), i as int),
{
    let left: usize = tokens.len() - i;
    left > 2 && same(&tokens[i + 2], "TO")
}

/// Whether the `OCCURS` clause at `i` goes on with `DEPENDING ON`.
fn depending(tokens: &Vec<String>, i: usize) -> (r: bool)
    requires
        i < tokens@.len(),
    ensures
        r == depends(tokens.deep_view(), i as int),
{
    let left: usize = tokens.len() - i;
    let ghost all = tokens.deep_view();
    proof {
        assert(forall|j: int| 0 <= j < all.len() ==> #[trigger] all[j] == tokens@[j]@);
    }
    (left > 1 && same(&tokens[i + 1], "DEPENDING")) || (left > 2 && same(
        &tokens[i + 2],
        "DEPENDING",
    )) || (left > 3 && same(&tokens[i + 2], "TIMES") && same(&tokens[i + 3], "DEPENDING"))
}

/// Read the clause at `i`. What comes back is where the next one stands.
fn read_clause(tokens: &Vec<String>, label: &str, i: usize, clauses: &mut ClausesSoFar) -> (r: Result<
    usize,
    ParseError,
>)
    requires
        i < tokens@.len(),
    ensures
        match r {
            Ok(next) => {
                &&& clause_at(tokens.deep_view(), label@, i as int, old(clauses).model())
                    == Ok::<_, Failure>((final(clauses).model(), next as int))
                &&& i < next <= tokens@.len()
            },
            Err(error) => clause_at(tokens.deep_view(), label@, i as int, old(clauses).model())
                == Err::<(Clauses, int), _>(error@),
        },
{
    let ghost all = tokens.deep_view();
    let total: usize = tokens.len();
    let token: &String = &tokens[i];
    proof {
        assert(all[i as int] == token@);
    }
    match refuse(token) {
        Some(reason) => {
            return Err(refused_error(label, token, reason));
        },
        None => {},
    }
    if same(token, "PIC") || same(token, "PICTURE") {
        let at: usize = find_operand(tokens, i);
        if at >= tokens.len() {
            return Err(
                ParseError::invalid(
                    cat3("PICTURE clause of ", &quote(label), " has no picture string"),
                ),
            );
        }
        proof {
            assert(all[at as int] == tokens@[at as int]@);
        }
        clauses.picture = Some(tokens[at].clone());
        return Ok(at + 1);
    }
    if same(token, "USAGE") {
        let at: usize = find_operand(tokens, i);
        if at >= tokens.len() {
            return Err(
                ParseError::invalid(cat3("USAGE clause of ", &quote(label), " names no usage")),
            );
        }
        let clause: &String = &tokens[at];
        proof {
            assert(all[at as int] == clause@);
        }
        match refuse(clause) {
            Some(reason) => {
                return Err(refused_error(label, clause, reason));
            },
            None => {},
        }
        match usage_of(clause) {
            None => {
                return Err(
                    ParseError::unsupported(
                        cat3("USAGE ", clause, " is not a usage this build decodes"),
                    ),
                );
            },
            Some(usage) => {
                clauses.usage = Some(usage);
                return Ok(at + 1);
            },
        }
    }
    if same(token, "OCCURS") {
        if depending(tokens, i) {
            return Err(
                refused_error(
                    label,
                    "DEPENDING",
                    "OCCURS DEPENDING ON makes the record variable-length in a way the layout cannot describe",
                ),
            );
        }
        if bounded_above(tokens, i) {
            return Err(
                refused_error(
                    label,
                    "OCCURS DEPENDING ON",
                    "OCCURS DEPENDING ON makes the record variable-length in a way the layout cannot describe",
                ),
            );
        }
        let count: Option<u128> = if i + 1 < total {
            proof {
                assert(all[i + 1] == tokens@[i + 1]@);
            }
            parse_number(&tokens[i + 1], u32::MAX as u128)
        } else {
            None
        };
        match count {
            None => {
                return Err(
                    ParseError::invalid(
                        cat3("OCCURS clause of ", &quote(label), " has no repeat count"),
                    ),
                );
            },
            Some(count) => {
                if count == 0 || count > MAX_OCCURS as u128 {
                    return Err(
                        ParseError::invalid(
                            cat3(
                                "OCCURS ",
                                &decimal_text(count),
                                " is outside the supported range 1..=4096",
                            ),
                        ),
                    );
                }
                clauses.occurs = Some(count as u32);
                return Ok(i + 2);
            },
        }
    }
    match usage_of(token) {
        Some(usage) => {
            clauses.usage = Some(usage);
            return Ok(i + 1);
        },
        None => {},
    }
    if value_keyword(token) {
        return Ok(tokens.len());
    }
    if ignorable(token) {
        return Ok(i + 1);
    }
    Err(
        ParseError::unsupported(
            cat4("unrecognized clause ", &quote(token), " in copybook item ", &quote(label)),
        ),
    )
}

/// Put the words of a statement in capitals.
fn in_capitals(statement: &Vec<String>) -> (r: Vec<String>)
    ensures
        r.deep_view() == capitals(statement.deep_view()),
        forall|i: int|
            0 <= i < statement@.len() && is_ascii_text(#[trigger] statement@[i]@) ==> uppercased(
                statement@[i]@,
            ) == ascii_capitals(statement@[i]@),
{
    let mut out: Vec<String> = Vec::new();
    let mut i: usize = 0;
    while i < statement.len()
        invariant
            i <= statement@.len(),
            out@.len() == i,
            forall|j: int| 0 <= j < i ==> (#[trigger] out@[j])@ == uppercased(statement@[j]@),
            forall|j: int|
                0 <= j < i && is_ascii_text(#[trigger] statement@[j]@) ==> uppercased(
                    statement@[j]@,
                ) == ascii_capitals(statement@[j]@),
        decreases statement@.len() - i,
    {
        out.push(uppercase(&statement[i]));
        i = i + 1;
    }
    proof {
        assert(out.deep_view() =~= capitals(statement.deep_view()));
    }
    out
}

/// Read the clauses of a data-description statement.
fn read_storage(statement: &Vec<String>, tokens: &Vec<String>, level: u8) -> (r: Result<
    Item,
    ParseError,
>)
    requires
        tokens@.len() == statement@.len(),
        statement@.len() > 0,
    ensures
        outcome(r) == storage_of(statement.deep_view(), tokens.deep_view(), level),
{
    let ghost words = statement.deep_view();
    let ghost all = tokens.deep_view();
    let mut index: usize = 1;
    let mut name: Option<String> = None;
    if tokens.len() > 1 {
        proof {
            assert(all[1] == tokens@[1]@);
            assert(words[1] == statement@[1]@);
        }
        if !clause_keyword(&tokens[1]) {
            if !same(&tokens[1], "FILLER") {
                name = Some(statement[1].clone());
            }
            index = 2;
        }
    }
    proof {
        assert(name.deep_view() == declared_name(words, all));
        assert(index == clauses_start(all));
    }
    let label: String = match &name {
        Some(name) => name.clone(),
        None => "FILLER".to_owned(),
    };
    let mut clauses: ClausesSoFar = ClausesSoFar { picture: None, usage: None, occurs: None };
    let ghost wanted = clauses_from(all, label@, index as int, clauses.model());
    while index < tokens.len()
        invariant
            index <= tokens@.len(),
            words == statement.deep_view(),
            all == tokens.deep_view(),
            name.deep_view() == declared_name(words, all),
            label@ == label_of(declared_name(words, all)),
            wanted == clauses_from(
                all,
                label@,
                clauses_start(all),
                (Clauses { picture: None, usage: None, occurs: None }),
            ),
            wanted == clauses_from(all, label@, index as int, clauses.model()),
        decreases tokens@.len() - index,
    {
        match read_clause(tokens, &label, index, &mut clauses) {
            Err(error) => {
                return Err(error);
            },
            Ok(next) => {
                index = next;
            },
        }
    }
    let item: Item = Item {
        level,
        name,
        picture: clauses.picture,
        usage: match clauses.usage {
            Some(usage) => usage,
            None => Usage::Display,
        },
        occurs: clauses.occurs,
        conditions: Vec::new(),
    };
    proof {
        assert(item.conditions.deep_view() =~= Seq::<ConditionNameModel>::empty());
    }
    Ok(item)
}

/// The text of a literal.
fn read_literal(word: &str) -> (r: String)
    ensures
        r@ == literal_of(word@),
{
    let chars: Vec<char> = chars_of(word);
    let end: usize = if chars.len() > 0 && chars[chars.len() - 1] == ',' {
        chars.len() - 1
    } else {
        chars.len()
    };
    let ghost bare = if word@.len() > 0 && word@.last() == ',' {
        word@.drop_last()
    } else {
        word@
    };
    proof {
        assert(bare =~= chars@.take(end as int));
    }
    if end >= 2 && (chars[0] == '\'' || chars[0] == '"') && chars[end - 1] == chars[0] {
        let r: String = string_of(&chars, 1, end - 1);
        proof {
            assert(r@ =~= bare.subrange(1, bare.len() - 1));
        }
        r
    } else {
        let r: String = string_of(&chars, 0, end);
        proof {
            assert(r@ =~= bare);
        }
        r
    }
}

fn through(token: &str) -> (r: bool)
    ensures
        r == is_through(token@),
{
    same(token, "THRU") || same(token, "THROUGH")
}

/// Find where the literals of a condition start.
fn find_literals(tokens: &Vec<String>) -> (r: usize)
    requires
        tokens@.len() >= 2,
    ensures
        r == literals_start(tokens.deep_view(), 2),
        r <= tokens@.len(),
{
    let ghost all = tokens.deep_view();
    let mut i: usize = 2;
    while i < tokens.len()
        invariant
            2 <= i <= tokens@.len(),
            all == tokens.deep_view(),
            literals_start(all, 2) == literals_start(all, i as int),
        decreases tokens@.len() - i,
    {
        proof {
            assert(all[i as int] == tokens@[i as int]@);
        }
        if value_keyword(&tokens[i]) {
            if i + 1 < tokens.len() {
                proof {
                    assert(all[i + 1] == tokens@[i + 1]@);
                }
                if same(&tokens[i + 1], "IS") || same(&tokens[i + 1], "ARE") {
                    return i + 2;
                }
            }
            return i + 1;
        }
        i = i + 1;
    }
    i
}

/// Read the values of a condition, from the word at `from` on.
fn read_ranges(statement: &Vec<String>, tokens: &Vec<String>, from: usize) -> (r: Vec<ValueRange>)
    requires
        tokens@.len() == statement@.len(),
        from <= statement@.len(),
    ensures
        r.deep_view() == ranges_from(statement.deep_view(), tokens.deep_view(), from as int),
{
    let ghost words = statement.deep_view();
    let ghost all = tokens.deep_view();
    let ghost wanted = ranges_from(words, all, from as int);
    let mut out: Vec<ValueRange> = Vec::new();
    let mut i: usize = from;
    proof {
        assert(all.len() == words.len());
        assert(out.deep_view() + wanted =~= wanted);
    }
    while i < statement.len()
        invariant
            from <= i <= statement@.len(),
            words == statement.deep_view(),
            all == tokens.deep_view(),
            tokens@.len() == statement@.len(),
            wanted == ranges_from(words, all, from as int),
            wanted == out.deep_view() + ranges_from(words, all, i as int),
        decreases statement@.len() - i,
    {
        let ghost before = out.deep_view();
        proof {
            assert(words[i as int] == statement@[i as int]@);
        }
        if same(&statement[i], ",") {
            i = i + 1;
        } else {
            let low: String = read_literal(&statement[i]);
            let ranged: bool = if i + 1 < tokens.len() {
                proof {
                    assert(all[i + 1] == tokens@[i + 1]@);
                }
                through(&tokens[i + 1])
            } else {
                false
            };
            if ranged && i + 2 < statement.len() {
                proof {
                    assert(words[i + 2] == statement@[i + 2]@);
                }
                let high: String = read_literal(&statement[i + 2]);
                let ghost range = ValueRangeModel { low: low@, high: Some(high@) };
                out.push(ValueRange { low, high: Some(high) });
                proof {
                    assert(out.deep_view() =~= before.push(range));
                    assert(before + (seq![range] + ranges_from(words, all, i + 3))
                        =~= out.deep_view() + ranges_from(words, all, i + 3));
                }
                i = i + 3;
            } else {
                let ghost range = ValueRangeModel { low: low@, high: None };
                out.push(ValueRange { low, high: None });
                proof {
                    assert(out.deep_view() =~= before.push(range));
                }
                if ranged {
                    proof {
                        assert(wanted =~= out.deep_view());
                    }
                    return out;
                }
                proof {
                    assert(before + (seq![range] + ranges_from(words, all, i + 1))
                        =~= out.deep_view() + ranges_from(words, all, i + 1));
                }
                i = i + 1;
            }
        }
    }
    proof {
        assert(out.deep_view() + Seq::<ValueRangeModel>::empty() =~= out.deep_view());
    }
    out
}

/// Read a level-88 statement.
fn read_condition(statement: &Vec<String>, tokens: &Vec<String>) -> (r: Entry)
    requires
        tokens@.len() == statement@.len(),
    ensures
        r.deep_view() == condition_of(statement.deep_view(), tokens.deep_view()),
{
    let ghost words = statement.deep_view();
    proof {
        assert(tokens.deep_view().len() == words.len());
    }
    if statement.len() < 2 {
        return Entry::Nothing;
    }
    proof {
        assert(tokens.deep_view()[1] == tokens@[1]@);
        assert(words[1] == statement@[1]@);
    }
    if clause_keyword(&tokens[1]) {
        return Entry::Nothing;
    }
    let start: usize = find_literals(tokens);
    let ranges: Vec<ValueRange> = read_ranges(statement, tokens, start);
    let mut values: Vec<String> = Vec::new();
    let mut i: usize = 0;
    while i < ranges.len()
        invariant
            i <= ranges@.len(),
            values@.len() == i,
            forall|j: int|
                0 <= j < i ==> (#[trigger] values@[j])@ == range_text(ranges@[j].deep_view()),
        decreases ranges@.len() - i,
    {
        let text: String = match &ranges[i].high {
            Some(high) => cat3(&ranges[i].low, " THRU ", high),
            None => ranges[i].low.clone(),
        };
        values.push(text);
        i = i + 1;
    }
    let condition: ConditionName = ConditionName { name: statement[1].clone(), values, ranges };
    proof {
        assert(condition.deep_view().values =~= condition_of(
            words,
            tokens.deep_view(),
        )->Condition_0.values);
    }
    Entry::Condition(condition)
}

/// Read one statement.
pub fn parse_item(statement: &Vec<String>) -> (r: Result<Entry, ParseError>)
    requires
        statement@.len() > 0,
    ensures
        outcome(r) == entry_of(statement.deep_view()),
        forall|i: int|
            0 <= i < statement@.len() && is_ascii_text(#[trigger] statement@[i]@) ==> uppercased(
                statement@[i]@,
            ) == ascii_capitals(statement@[i]@),
{
    let tokens: Vec<String> = in_capitals(statement);
    proof {
        assert(tokens.deep_view().len() == statement.deep_view().len());
    }
    read_entry(statement, &tokens)
}

/// Read one statement with its words in capitals beside it.
pub fn read_entry(statement: &Vec<String>, tokens: &Vec<String>) -> (r: Result<Entry, ParseError>)
    requires
        statement@.len() > 0,
        tokens@.len() == statement@.len(),
    ensures
        outcome(r) == entry_with(statement.deep_view(), tokens.deep_view()),
{
    proof {
        assert(tokens.deep_view()[0] == tokens@[0]@);
        assert(statement.deep_view()[0] == statement@[0]@);
    }
    let level: u128 = match parse_number(&tokens[0], 255) {
        None => {
            return Err(
                ParseError::invalid(
                    cat4(
                        "expected a level number at the start of ",
                        &quote(&join_words(statement)),
                        ", found ",
                        &quote(&statement[0]),
                    ),
                ),
            );
        },
        Some(level) => level,
    };
    if level == 88 {
        return Ok(read_condition(statement, tokens));
    }
    if level == 66 {
        return Err(
            ParseError::unsupported(
                "level-66 RENAMES regroups fields that are already described".to_owned(),
            ),
        );
    }
    if !((1 <= level && level <= 49) || level == 77) {
        return Err(
            ParseError::invalid(
                cat3(
                    "level ",
                    &decimal_text(level),
                    " is not a data-description level number",
                ),
            ),
        );
    }
    match read_storage(statement, tokens, level as u8) {
        Err(error) => Err(error),
        Ok(item) => Ok(Entry::Storage(item)),
    }
}

} // verus!
