//! What the words of a copybook say, statement by statement.

use vstd::prelude::*;
use crate::copybook::{compiled_items, enclosing, is_root, item_fields, items_of, path_of,
    record_name, roots_in, with_condition};
use crate::copybook::lexing::{byte_width, code_end, code_of, is_comment, is_fixed, is_quote,
    is_stop, lexed, lexed_lines, open_statement, statements_of, whole_statements, word_end,
    LexemeModel};
use crate::copybook::cards::{law_an_ascii_line_is_as_wide_as_it_is_long, lemma_place_shifts};
use crate::copybook::picture::{described, Usage};
use crate::copybook::statement::{clause_at, clauses_from, clauses_start, condition_of, entry_of,
    entry_with, has_upper_bound, is_clause_keyword, is_ignorable, is_value_keyword, literal_of,
    literals_start, ranges_from, refusal, storage_of, usage_named, Clauses, EntryModel, ItemModel};
use crate::decode::lemma_decimal_is_numeral;
use crate::error::Failure;
use crate::layout::RawFieldModel;
use crate::proto::v1::ConditionNameModel;
use crate::text::{bounded_number, decimal, is_ascii_text, is_digit, is_space, joined,
    lemma_place_of, lines, place_of, quoted, trimmed_start, unsigned_number};
use crate::text::laws::{is_blank, lemma_front_goes, lemma_mentions, mentions};

verus! {

/// What stands in front of a line that is read from a place on does not matter.
proof fn lemma_word_end_shifts(front: Seq<char>, line: Seq<char>, i: int)
    requires
        0 <= i <= line.len(),
    ensures
        word_end(front + line, front.len() + i) == match word_end(line, i) {
            Some(end) => Some(front.len() + end),
            None => None,
        },
    decreases line.len() - i,
{
    let all = front + line;
    let at = front.len() + i;
    if i < line.len() {
        assert(all[at] == line[i]);
        if is_quote(line[i]) {
            let close = place_of(line, line[i], i + 1);
            lemma_place_of(line, line[i], i + 1);
            lemma_place_shifts(front, line, line[i], i + 1);
            if close < line.len() {
                lemma_word_end_shifts(front, line, close + 1);
            }
        } else {
            assert(i + 1 < line.len() ==> all[at + 1] == line[i + 1]);
            assert(is_stop(all, at) == is_stop(line, i));
            if !is_stop(line, i) && !is_space(line[i]) {
                lemma_word_end_shifts(front, line, i + 1);
            }
        }
    }
}

/// A line reads from a place on as what stands there does by itself.
proof fn lemma_lexed_from(front: Seq<char>, line: Seq<char>, i: int)
    requires
        0 <= i <= line.len(),
    ensures
        lexed(front + line, front.len() + i) == lexed(line, i),
    decreases line.len() - i,
{
    let all = front + line;
    let at = front.len() + i;
    if i < line.len() {
        assert(all[at] == line[i]);
        assert(i + 1 < line.len() ==> all[at + 1] == line[i + 1]);
        assert(is_stop(all, at) == is_stop(line, i));
        if is_space(line[i]) || is_stop(line, i) {
            lemma_lexed_from(front, line, i + 1);
        } else {
            lemma_word_end_shifts(front, line, i);
            if let Some(end) = word_end(line, i) {
                if i < end <= line.len() {
                    assert(all.subrange(at, front.len() + end) =~= line.subrange(i, end));
                    lemma_lexed_from(front, line, end);
                }
            }
        }
    }
}

/// Whether a text is a plain word: some characters, none of them white space or
/// a quote, and the last one no period. A period inside is one of its
/// characters.
pub open spec fn is_plain_word(word: Seq<char>) -> bool {
    &&& word.len() > 0
    &&& word.last() != '.'
    &&& forall|i: int|
        0 <= i < word.len() ==> !is_space(#[trigger] word[i]) && word[i] != '\'' && word[i] != '"'
}

/// Whether a word ends where a text goes on: at its end, at white space, or at
/// a period that ends a statement.
pub open spec fn ends_a_word(rest: Seq<char>) -> bool {
    rest.len() == 0 || is_space(rest[0]) || is_stop(rest, 0)
}

/// Blanks between words do not matter.
pub proof fn law_blanks_do_not_matter(rest: Seq<char>, blank: char)
    requires
        is_space(blank),
    ensures
        lexed(seq![blank] + rest, 0) == lexed(rest, 0),
{
    assert((seq![blank] + rest)[0] == blank);
    lemma_lexed_from(seq![blank], rest, 0);
}

/// A word is read whole: up to the next blank, the end of the line, or the
/// period that ends the statement.
pub proof fn law_a_word_is_read_whole(word: Seq<char>, rest: Seq<char>)
    requires
        is_plain_word(word),
        ends_a_word(rest),
    ensures
        lexed(word + rest, 0) == match lexed(rest, 0) {
            Some(lexemes) => Some(seq![LexemeModel::Word(word)] + lexemes),
            None => None,
        },
{
    let all = word + rest;
    lemma_plain_word_ends(word, rest, 0);
    assert(all[0] == word[0]);
    assert(word.len() > 1 ==> all[1] == word[1]);
    assert(!is_stop(all, 0));
    assert(all.subrange(0, word.len() as int) =~= word);
    lemma_lexed_from(word, rest, 0);
}

/// Where a plain word ends.
proof fn lemma_plain_word_ends(word: Seq<char>, rest: Seq<char>, i: int)
    requires
        is_plain_word(word),
        ends_a_word(rest),
        0 <= i <= word.len(),
    ensures
        word_end(word + rest, i) == Some(word.len() as int),
    decreases word.len() - i,
{
    let all = word + rest;
    if i < word.len() {
        assert(all[i] == word[i]);
        assert(i + 1 < word.len() ==> all[i + 1] == word[i + 1]);
        lemma_plain_word_ends(word, rest, i + 1);
    } else if rest.len() > 0 {
        assert(all[i] == rest[0]);
        assert(rest.len() > 1 ==> all[i + 1] == rest[1]);
        if is_stop(rest, 0) {
            assert(is_stop(all, i));
        } else {
            assert(is_space(all[i]));
            assert(!is_quote(all[i]));
        }
    }
}

/// A literal is one word, quotes and all, whatever stands in it: neither blanks
/// nor periods in it end it, only its own quote does.
pub proof fn law_a_literal_is_one_word(quote: char, text: Seq<char>, rest: Seq<char>)
    requires
        quote == '\'' || quote == '"',
        forall|i: int| 0 <= i < text.len() ==> #[trigger] text[i] != quote,
        ends_a_word(rest),
    ensures
        ({
            let literal = seq![quote] + text + seq![quote];
            lexed(literal + rest, 0) == match lexed(rest, 0) {
                Some(lexemes) => Some(seq![LexemeModel::Word(literal)] + lexemes),
                None => None,
            }
        }),
{
    let literal = seq![quote] + text + seq![quote];
    let all = literal + rest;
    let close = text.len() as int + 1;
    lemma_literal_closes(all, quote, close, 1);
    assert(all[0] == quote);
    assert(word_end(all, close + 1) == Some(close + 1)) by {
        if rest.len() > 0 {
            assert(all[close + 1] == rest[0]);
            assert(rest.len() > 1 ==> all[close + 2] == rest[1]);
            if is_stop(rest, 0) {
                assert(is_stop(all, close + 1));
            }
        }
    }
    assert(word_end(all, 0) == Some(close + 1));
    assert(all.subrange(0, close + 1) =~= literal);
    assert(literal.len() == close + 1);
    lemma_lexed_from(literal, rest, 0);
}

/// Where a literal closes.
proof fn lemma_literal_closes(all: Seq<char>, quote: char, close: int, from: int)
    requires
        0 <= from <= close < all.len(),
        all[close] == quote,
        forall|i: int| from <= i < close ==> #[trigger] all[i] != quote,
    ensures
        place_of(all, quote, from) == close,
    decreases close - from,
{
    if from < close {
        lemma_literal_closes(all, quote, close, from + 1);
    }
}

/// A period ends a statement only at the end of a line or in front of a blank.
pub proof fn law_a_period_ends_a_statement(rest: Seq<char>)
    requires
        rest.len() == 0 || is_space(rest[0]),
    ensures
        lexed(seq!['.'] + rest, 0) == match lexed(rest, 0) {
            Some(lexemes) => Some(seq![LexemeModel::Stop] + lexemes),
            None => None,
        },
{
    let all = seq!['.'] + rest;
    assert(all[0] == '.');
    assert(rest.len() > 0 ==> all[1] == rest[0]);
    assert(is_stop(all, 0));
    lemma_lexed_from(seq!['.'], rest, 0);
}

/// The words of statements, one after another.
pub open spec fn words_of(statements: Seq<Seq<Seq<char>>>) -> Seq<Seq<char>>
    decreases statements.len(),
{
    if statements.len() == 0 {
        Seq::empty()
    } else {
        words_of(statements.drop_last()) + statements.last()
    }
}

/// The words among the first `k` words and stops.
pub open spec fn words_among(lexemes: Seq<LexemeModel>, k: int) -> Seq<Seq<char>>
    decreases k,
{
    if k <= 0 {
        Seq::empty()
    } else {
        match lexemes[k - 1] {
            LexemeModel::Word(word) => words_among(lexemes, k - 1).push(word),
            LexemeModel::Stop => words_among(lexemes, k - 1),
        }
    }
}

/// No word is lost: the words of all statements, in order, and those behind the
/// last stop, are all the words there are.
pub proof fn law_no_word_is_lost(lexemes: Seq<LexemeModel>, k: int)
    requires
        0 <= k <= lexemes.len(),
    ensures
        words_of(whole_statements(lexemes, k)) + open_statement(lexemes, k) == words_among(
            lexemes,
            k,
        ),
        forall|i: int|
            0 <= i < whole_statements(lexemes, k).len() ==> (#[trigger] whole_statements(
                lexemes,
                k,
            )[i]).len() > 0,
    decreases k,
{
    if k > 0 {
        law_no_word_is_lost(lexemes, k - 1);
        let whole = whole_statements(lexemes, k - 1);
        let open = open_statement(lexemes, k - 1);
        match lexemes[k - 1] {
            LexemeModel::Word(word) => {
                assert(words_of(whole) + open.push(word) =~= (words_of(whole) + open).push(word));
            },
            LexemeModel::Stop => {
                assert(whole.push(open).drop_last() =~= whole);
                assert(words_of(whole) + open + Seq::<Seq<char>>::empty() =~= words_of(whole)
                    + open);
            },
        }
    } else {
        assert(words_of(Seq::empty()) + Seq::<Seq<char>>::empty() =~= Seq::<Seq<char>>::empty());
    }
}

/// Words up to a stop are one statement.
pub proof fn law_words_up_to_a_stop_are_a_statement(words: Seq<Seq<char>>)
    requires
        words.len() > 0,
    ensures
        ({
            let lexemes = Seq::new(words.len(), |i: int| LexemeModel::Word(words[i])).push(
                LexemeModel::Stop,
            );
            &&& whole_statements(lexemes, lexemes.len() as int) == seq![words]
            &&& open_statement(lexemes, lexemes.len() as int) == Seq::<Seq<char>>::empty()
        }),
{
    let lexemes = Seq::new(words.len(), |i: int| LexemeModel::Word(words[i])).push(
        LexemeModel::Stop,
    );
    lemma_open_words(lexemes, words, words.len() as int);
    assert(words.take(words.len() as int) =~= words);
    assert(Seq::<Seq<Seq<char>>>::empty().push(words) =~= seq![words]);
}

proof fn lemma_open_words(lexemes: Seq<LexemeModel>, words: Seq<Seq<char>>, k: int)
    requires
        0 <= k <= words.len() < lexemes.len(),
        forall|i: int|
            0 <= i < words.len() ==> #[trigger] lexemes[i] == LexemeModel::Word(words[i]),
    ensures
        open_statement(lexemes, k) == words.take(k),
        whole_statements(lexemes, k) == Seq::<Seq<Seq<char>>>::empty(),
    decreases k,
{
    if k > 0 {
        lemma_open_words(lexemes, words, k - 1);
        assert(lexemes[k - 1] == LexemeModel::Word(words[k - 1]));
        assert(words.take(k - 1).push(words[k - 1]) =~= words.take(k));
    } else {
        assert(words.take(0) =~= Seq::<Seq<char>>::empty());
    }
}

/// The lengths of the words that clauses are made of, and the letters that
/// tell words of one length apart.
proof fn lemma_letters()
    ensures
        "REDEFINES"@.len() == 9,
        "REDEFINES"@[0] == 'R',
        "RENAMES"@.len() == 7,
        "RENAMES"@[0] == 'R',
        "COMP-1"@.len() == 6,
        "COMP-1"@[0] == 'C',
        "COMP-1"@[5] == '1',
        "COMPUTATIONAL-1"@.len() == 15,
        "COMPUTATIONAL-1"@[14] == '1',
        "COMP-2"@.len() == 6,
        "COMP-2"@[0] == 'C',
        "COMP-2"@[5] == '2',
        "COMPUTATIONAL-2"@.len() == 15,
        "COMPUTATIONAL-2"@[14] == '2',
        "COMP-5"@.len() == 6,
        "COMP-5"@[0] == 'C',
        "COMP-5"@[5] == '5',
        "COMPUTATIONAL-5"@.len() == 15,
        "COMPUTATIONAL-5"@[14] == '5',
        "SYNCHRONIZED"@.len() == 12,
        "SYNC"@.len() == 4,
        "SYNC"@[0] == 'S',
        "SYNC"@[1] == 'Y',
        "SIGN"@.len() == 4,
        "SIGN"@[0] == 'S',
        "SIGN"@[1] == 'I',
        "DEPENDING"@.len() == 9,
        "DEPENDING"@[0] == 'D',
        "POINTER"@.len() == 7,
        "POINTER"@[0] == 'P',
        "POINTER"@[1] == 'O',
        "INDEX"@.len() == 5,
        "INDEX"@[0] == 'I',
        "PROCEDURE-POINTER"@.len() == 17,
        "FUNCTION-POINTER"@.len() == 16,
        "COMP"@.len() == 4,
        "COMP"@[0] == 'C',
        "COMPUTATIONAL"@.len() == 13,
        "COMP-4"@.len() == 6,
        "COMP-4"@[0] == 'C',
        "COMP-4"@[5] == '4',
        "COMPUTATIONAL-4"@.len() == 15,
        "COMPUTATIONAL-4"@[14] == '4',
        "BINARY"@.len() == 6,
        "BINARY"@[0] == 'B',
        "COMP-3"@.len() == 6,
        "COMP-3"@[0] == 'C',
        "COMP-3"@[5] == '3',
        "COMPUTATIONAL-3"@.len() == 15,
        "COMPUTATIONAL-3"@[14] == '3',
        "PACKED-DECIMAL"@.len() == 14,
        "DISPLAY"@.len() == 7,
        "DISPLAY"@[0] == 'D',
        "PIC"@.len() == 3,
        "PICTURE"@.len() == 7,
        "PICTURE"@[0] == 'P',
        "PICTURE"@[1] == 'I',
        "USAGE"@.len() == 5,
        "USAGE"@[0] == 'U',
        "OCCURS"@.len() == 6,
        "OCCURS"@[0] == 'O',
        "TIMES"@.len() == 5,
        "TIMES"@[0] == 'T',
        "TO"@.len() == 2,
        "TO"@[0] == 'T',
        "IS"@.len() == 2,
        "IS"@[0] == 'I',
        "VALUE"@.len() == 5,
        "VALUE"@[0] == 'V',
        "VALUES"@.len() == 6,
        "VALUES"@[0] == 'V',
        "FILLER"@.len() == 6,
        "FILLER"@[0] == 'F',
{
    lemma_letters_1();
    lemma_letters_2();
    lemma_letters_3();
    lemma_letters_4();
    lemma_letters_5();
    lemma_letters_6();
}

proof fn lemma_letters_1()
    ensures
        "REDEFINES"@.len() == 9,
        "REDEFINES"@[0] == 'R',
        "RENAMES"@.len() == 7,
        "RENAMES"@[0] == 'R',
        "COMP-1"@.len() == 6,
        "COMP-1"@[0] == 'C',
        "COMP-1"@[5] == '1',
        "COMPUTATIONAL-1"@.len() == 15,
        "COMPUTATIONAL-1"@[14] == '1',
        "COMP-2"@.len() == 6,
        "COMP-2"@[0] == 'C',
        "COMP-2"@[5] == '2',
        "COMPUTATIONAL-2"@.len() == 15,
        "COMPUTATIONAL-2"@[14] == '2',
{
    reveal_strlit("REDEFINES");
    reveal_strlit("RENAMES");
    reveal_strlit("COMP-1");
    reveal_strlit("COMPUTATIONAL-1");
    reveal_strlit("COMP-2");
    reveal_strlit("COMPUTATIONAL-2");
}

proof fn lemma_letters_2()
    ensures
        "COMP-5"@.len() == 6,
        "COMP-5"@[0] == 'C',
        "COMP-5"@[5] == '5',
        "COMPUTATIONAL-5"@.len() == 15,
        "COMPUTATIONAL-5"@[14] == '5',
        "SYNCHRONIZED"@.len() == 12,
        "SYNC"@.len() == 4,
        "SYNC"@[0] == 'S',
        "SYNC"@[1] == 'Y',
        "SIGN"@.len() == 4,
        "SIGN"@[0] == 'S',
        "SIGN"@[1] == 'I',
        "DEPENDING"@.len() == 9,
        "DEPENDING"@[0] == 'D',
{
    reveal_strlit("COMP-5");
    reveal_strlit("COMPUTATIONAL-5");
    reveal_strlit("SYNCHRONIZED");
    reveal_strlit("SYNC");
    reveal_strlit("SIGN");
    reveal_strlit("DEPENDING");
}

proof fn lemma_letters_3()
    ensures
        "POINTER"@.len() == 7,
        "POINTER"@[0] == 'P',
        "POINTER"@[1] == 'O',
        "INDEX"@.len() == 5,
        "INDEX"@[0] == 'I',
        "PROCEDURE-POINTER"@.len() == 17,
        "FUNCTION-POINTER"@.len() == 16,
        "COMP"@.len() == 4,
        "COMP"@[0] == 'C',
        "COMPUTATIONAL"@.len() == 13,
{
    reveal_strlit("POINTER");
    reveal_strlit("INDEX");
    reveal_strlit("PROCEDURE-POINTER");
    reveal_strlit("FUNCTION-POINTER");
    reveal_strlit("COMP");
    reveal_strlit("COMPUTATIONAL");
}

proof fn lemma_letters_4()
    ensures
        "COMP-4"@.len() == 6,
        "COMP-4"@[0] == 'C',
        "COMP-4"@[5] == '4',
        "COMPUTATIONAL-4"@.len() == 15,
        "COMPUTATIONAL-4"@[14] == '4',
        "BINARY"@.len() == 6,
        "BINARY"@[0] == 'B',
        "COMP-3"@.len() == 6,
        "COMP-3"@[0] == 'C',
        "COMP-3"@[5] == '3',
        "COMPUTATIONAL-3"@.len() == 15,
        "COMPUTATIONAL-3"@[14] == '3',
        "PACKED-DECIMAL"@.len() == 14,
{
    reveal_strlit("COMP-4");
    reveal_strlit("COMPUTATIONAL-4");
    reveal_strlit("BINARY");
    reveal_strlit("COMP-3");
    reveal_strlit("COMPUTATIONAL-3");
    reveal_strlit("PACKED-DECIMAL");
}

proof fn lemma_letters_5()
    ensures
        "DISPLAY"@.len() == 7,
        "DISPLAY"@[0] == 'D',
        "PIC"@.len() == 3,
        "PICTURE"@.len() == 7,
        "PICTURE"@[0] == 'P',
        "PICTURE"@[1] == 'I',
        "USAGE"@.len() == 5,
        "USAGE"@[0] == 'U',
        "OCCURS"@.len() == 6,
        "OCCURS"@[0] == 'O',
        "TIMES"@.len() == 5,
        "TIMES"@[0] == 'T',
{
    reveal_strlit("DISPLAY");
    reveal_strlit("PIC");
    reveal_strlit("PICTURE");
    reveal_strlit("USAGE");
    reveal_strlit("OCCURS");
    reveal_strlit("TIMES");
}

proof fn lemma_letters_6()
    ensures
        "TO"@.len() == 2,
        "TO"@[0] == 'T',
        "IS"@.len() == 2,
        "IS"@[0] == 'I',
        "VALUE"@.len() == 5,
        "VALUE"@[0] == 'V',
        "VALUES"@.len() == 6,
        "VALUES"@[0] == 'V',
        "FILLER"@.len() == 6,
        "FILLER"@[0] == 'F',
{
    reveal_strlit("TO");
    reveal_strlit("IS");
    reveal_strlit("VALUE");
    reveal_strlit("VALUES");
    reveal_strlit("FILLER");
}

/// Which words name a usage.
pub proof fn law_which_words_name_a_usage(token: Seq<char>)
    ensures
        usage_named(token) == Some(Usage::Packed) <==> token == "COMP-3"@ || token
            == "COMPUTATIONAL-3"@ || token == "PACKED-DECIMAL"@,
        usage_named(token) == Some(Usage::Binary) <==> token == "COMP"@ || token
            == "COMPUTATIONAL"@ || token == "COMP-4"@ || token == "COMPUTATIONAL-4"@ || token
            == "BINARY"@,
        usage_named(token) == Some(Usage::Display) <==> token == "DISPLAY"@,
{
    lemma_letters();
}

/// A level number says what a statement is: 88 a condition name, 66 a renaming,
/// which is refused, 1 to 49 and 77 an item of that level, and no other number
/// and no other word anything.
pub proof fn law_a_level_says_what_a_statement_is(
    statement: Seq<Seq<char>>,
    tokens: Seq<Seq<char>>,
    level: nat,
)
    requires
        tokens.len() > 0,
        tokens.len() == statement.len(),
    ensures
        bounded_number(tokens[0], 255) is None ==> (entry_with(statement, tokens) matches Err(
            failure,
        ) && failure is Invalid),
        bounded_number(tokens[0], 255) == Some(level) ==> match entry_with(statement, tokens) {
            Ok(EntryModel::Storage(item)) => {
                &&& item.level == level
                &&& 1 <= level <= 49 || level == 77
                &&& item.conditions.len() == 0
            },
            Ok(_) => level == 88,
            Err(failure) => {
                &&& level != 88
                &&& level == 66 ==> failure is Unsupported
                &&& !(1 <= level <= 49 || level == 77 || level == 66) ==> failure is Invalid
            },
        },
{
}

/// The second word names an item, as it is spelled, unless it starts a clause or
/// is `FILLER`.
pub proof fn law_the_second_word_names_an_item(
    statement: Seq<Seq<char>>,
    tokens: Seq<Seq<char>>,
    level: u8,
)
    requires
        tokens.len() == statement.len(),
    ensures
        storage_of(statement, tokens, level) matches Ok(item) ==> {
            let named = tokens.len() > 1 && tokens[1] != "FILLER"@ && !is_clause_keyword(tokens[1]);
            &&& named ==> item.name == Some(statement[1])
            &&& !named ==> item.name is None
            &&& item.level == level
        },
{
}

/// The words of a usage and of the other clauses that matter start no clause
/// that is refused.
#[verifier::rlimit(60)]
#[verifier::spinoff_prover]
proof fn lemma_plain_clauses(token: Seq<char>)
    requires
        usage_named(token) is Some || token == "PIC"@ || token == "OCCURS"@ || token == "TIMES"@,
    ensures
        refusal(token) is None,
        token != "DEPENDING"@ && token != "TO"@ && token != "IS"@ && token != "PICTURE"@ && token
            != "USAGE"@ && !is_value_keyword(token),
        usage_named(token) is Some ==> token != "PIC"@ && token != "OCCURS"@ && token != "TIMES"@,
        token == "TIMES"@ ==> usage_named(token) is None && token != "PIC"@ && token != "OCCURS"@
            && is_ignorable(token),
        token == "OCCURS"@ ==> token != "PIC"@,
{
    lemma_letters();
}

/// A number in decimal is read as that number, and is no word of a clause.
proof fn lemma_a_count_is_read(n: nat)
    ensures
        unsigned_number(decimal(n)) == Some(n),
        decimal(n) != "DEPENDING"@,
        decimal(n) != "IS"@,
{
    lemma_decimal_is_numeral(n);
    reveal_strlit("DEPENDING");
    reveal_strlit("IS");
    let text = decimal(n);
    assert(is_digit(text[0]));
    assert("DEPENDING"@[0] == 'D');
    assert("IS"@[0] == 'I');
}

/// A picture clause says what the picture is.
proof fn lemma_picture_clause(words: Seq<Seq<char>>, label: Seq<char>, i: int, before: Clauses)
    requires
        0 <= i,
        i + 1 < words.len(),
        words[i] == "PIC"@ || words[i] == "PICTURE"@,
        words[i + 1] == "IS"@ ==> i + 2 < words.len(),
    ensures
        ({
            let at = if words[i + 1] == "IS"@ {
                i + 2
            } else {
                i + 1
            };
            clauses_from(words, label, i, before) == clauses_from(
                words,
                label,
                at + 1,
                Clauses { picture: Some(words[at]), ..before },
            )
        }),
{
    lemma_letters();
}

/// A usage clause says what the usage is.
proof fn lemma_usage_clause(words: Seq<Seq<char>>, label: Seq<char>, i: int, before: Clauses)
    requires
        0 <= i < words.len(),
        words[i] == "USAGE"@ ==> i + 2 < words.len() && words[i + 1] == "IS"@ && usage_named(
            words[i + 2],
        ) is Some,
        words[i] != "USAGE"@ ==> usage_named(words[i]) is Some,
    ensures
        ({
            let at = if words[i] == "USAGE"@ {
                i + 2
            } else {
                i
            };
            clauses_from(words, label, i, before) == clauses_from(
                words,
                label,
                at + 1,
                Clauses { usage: usage_named(words[at]), ..before },
            )
        }),
{
    lemma_letters();
    if words[i] == "USAGE"@ {
        lemma_plain_clauses(words[i + 2]);
    } else {
        lemma_plain_clauses(words[i]);
    }
}

/// A repeat clause says how often.
proof fn lemma_occurs_clause(
    words: Seq<Seq<char>>,
    label: Seq<char>,
    i: int,
    before: Clauses,
    count: nat,
)
    requires
        0 <= i,
        i + 1 < words.len(),
        words[i] == "OCCURS"@,
        words[i + 1] == decimal(count),
        1 <= count <= 4096,
        !has_upper_bound(words, i),
        !(i + 2 < words.len() && words[i + 2] == "DEPENDING"@),
        !(i + 3 < words.len() && words[i + 2] == "TIMES"@ && words[i + 3] == "DEPENDING"@),
    ensures
        clauses_from(words, label, i, before) == clauses_from(
            words,
            label,
            i + 2,
            Clauses { occurs: Some(count as u32), ..before },
        ),
{
    lemma_plain_clauses("OCCURS"@);
    lemma_a_count_is_read(count);
}

/// `TIMES` adds nothing.
proof fn lemma_times_clause(words: Seq<Seq<char>>, label: Seq<char>, i: int, before: Clauses)
    requires
        0 <= i < words.len(),
        words[i] == "TIMES"@,
    ensures
        clauses_from(words, label, i, before) == clauses_from(words, label, i + 1, before),
{
    lemma_plain_clauses("TIMES"@);
}

/// A value takes the rest of the statement.
proof fn lemma_value_clause(words: Seq<Seq<char>>, label: Seq<char>, i: int, before: Clauses)
    requires
        0 <= i < words.len(),
        words[i] == "VALUE"@,
    ensures
        clauses_from(words, label, i, before) == Ok::<Clauses, Failure>(before),
{
    lemma_letters();
    assert(refusal("VALUE"@) is None);
    assert(usage_named("VALUE"@) is None);
    assert(clause_at(words, label, i, before) == Ok::<(Clauses, int), Failure>(
        (before, words.len() as int),
    ));
    assert(clauses_from(words, label, words.len() as int, before) == Ok::<Clauses, Failure>(
        before,
    ));
}

/// Whether an item is what a picture, a usage and a count declare.
pub open spec fn is_declared(
    item: ItemModel,
    level: u8,
    name: Seq<char>,
    picture: Seq<char>,
    usage: Usage,
    count: nat,
) -> bool {
    &&& item.level == level
    &&& item.name == Some(name)
    &&& item.picture == Some(picture)
    &&& item.usage == usage
    &&& item.occurs is Some && item.occurs->Some_0 == count
    &&& item.conditions.len() == 0
}

/// The clauses of an item say the same in any order, with and without the words
/// that may be left out: behind `PIC` stands the picture, `OCCURS` gives the
/// count, and the usage stands alone or behind `USAGE`. What stands behind
/// `VALUE` says nothing of the bytes.
#[verifier::rlimit(60)]
#[verifier::spinoff_prover]
pub proof fn law_clauses_say_the_same_in_any_order(
    statement: Seq<Seq<char>>,
    level: u8,
    first: Seq<char>,
    name: Seq<char>,
    picture: Seq<char>,
    usage: Seq<char>,
    count: nat,
    value: Seq<char>,
)
    requires
        statement.len() > 1,
        !is_clause_keyword(name),
        name != "FILLER"@,
        picture != "IS"@,
        usage_named(usage) is Some,
        1 <= count <= 4096,
    ensures
        ({
            let u = usage_named(usage)->Some_0;
            let n = decimal(count);
            &&& storage_of(
                statement,
                seq![first, name, "PIC"@, picture, usage, "OCCURS"@, n, "TIMES"@],
                level,
            ) matches Ok(item) && is_declared(item, level, statement[1], picture, u, count)
            &&& storage_of(
                statement,
                seq![first, name, "OCCURS"@, n, "TIMES"@, usage, "PIC"@, picture],
                level,
            ) matches Ok(item) && is_declared(item, level, statement[1], picture, u, count)
            &&& storage_of(
                statement,
                seq![
                    first,
                    name,
                    "USAGE"@,
                    "IS"@,
                    usage,
                    "PICTURE"@,
                    "IS"@,
                    picture,
                    "OCCURS"@,
                    n,
                ],
                level,
            ) matches Ok(item) && is_declared(item, level, statement[1], picture, u, count)
            &&& storage_of(
                statement,
                seq![first, name, usage, "PIC"@, picture, "OCCURS"@, n, "VALUE"@, value],
                level,
            ) matches Ok(item) && is_declared(item, level, statement[1], picture, u, count)
        }),
{
    lemma_letters();
    lemma_plain_clauses(usage);
    lemma_plain_clauses("TIMES"@);
    lemma_a_count_is_read(count);
    let label = statement[1];
    let n = decimal(count);
    let none = Clauses { picture: None, usage: None, occurs: None };
    let p = Clauses { picture: Some(picture), ..none };
    let u = Clauses { usage: usage_named(usage), ..none };
    let o = Clauses { occurs: Some(count as u32), ..none };
    let pu = Clauses { usage: usage_named(usage), ..p };
    let uo = Clauses { usage: usage_named(usage), ..o };
    let all = Clauses { occurs: Some(count as u32), ..pu };
    let a = seq![first, name, "PIC"@, picture, usage, "OCCURS"@, n, "TIMES"@];
    assert(clauses_start(a) == 2);
    lemma_picture_clause(a, label, 2, none);
    lemma_usage_clause(a, label, 4, p);
    lemma_occurs_clause(a, label, 5, pu, count);
    lemma_times_clause(a, label, 7, all);
    assert(clauses_from(a, label, 8, all) == Ok::<Clauses, Failure>(all));
    let b = seq![first, name, "OCCURS"@, n, "TIMES"@, usage, "PIC"@, picture];
    assert(clauses_start(b) == 2);
    lemma_occurs_clause(b, label, 2, none, count);
    lemma_times_clause(b, label, 4, o);
    lemma_usage_clause(b, label, 5, o);
    lemma_picture_clause(b, label, 6, uo);
    assert(clauses_from(b, label, 8, all) == Ok::<Clauses, Failure>(all));
    let c = seq![
        first,
        name,
        "USAGE"@,
        "IS"@,
        usage,
        "PICTURE"@,
        "IS"@,
        picture,
        "OCCURS"@,
        n,
    ];
    assert(clauses_start(c) == 2);
    lemma_usage_clause(c, label, 2, none);
    lemma_picture_clause(c, label, 5, u);
    lemma_occurs_clause(c, label, 8, pu, count);
    assert(clauses_from(c, label, 10, all) == Ok::<Clauses, Failure>(all));
    let d = seq![first, name, usage, "PIC"@, picture, "OCCURS"@, n, "VALUE"@, value];
    assert(clauses_start(d) == 2);
    lemma_usage_clause(d, label, 2, none);
    lemma_picture_clause(d, label, 3, u);
    lemma_occurs_clause(d, label, 5, pu, count);
    lemma_value_clause(d, label, 7, all);
}

/// An item with a picture and nothing else is displayed, and occurs once; one
/// with neither is a group.
pub proof fn law_an_item_is_displayed_unless_it_says_otherwise(
    statement: Seq<Seq<char>>,
    level: u8,
    name: Seq<char>,
    picture: Seq<char>,
    first: Seq<char>,
)
    requires
        statement.len() > 1,
        !is_clause_keyword(name),
        name != "FILLER"@,
        picture != "IS"@,
    ensures
        storage_of(statement, seq![first, name, "PIC"@, picture], level) == Ok::<
            ItemModel,
            Failure,
        >(
            ItemModel {
                level,
                name: Some(statement[1]),
                picture: Some(picture),
                usage: Usage::Display,
                occurs: None,
                conditions: Seq::empty(),
            },
        ),
        storage_of(statement, seq![first, name], level) == Ok::<ItemModel, Failure>(
            ItemModel {
                level,
                name: Some(statement[1]),
                picture: None,
                usage: Usage::Display,
                occurs: None,
                conditions: Seq::empty(),
            },
        ),
        storage_of(statement, seq![first, "FILLER"@, "PIC"@, picture], level) == Ok::<
            ItemModel,
            Failure,
        >(
            ItemModel {
                level,
                name: None,
                picture: Some(picture),
                usage: Usage::Display,
                occurs: None,
                conditions: Seq::empty(),
            },
        ),
{
    lemma_plain_clauses("PIC"@);
    lemma_letters();
    lemma_filler();
    reveal_with_fuel(clauses_from, 3);
    let none = Clauses { picture: None, usage: None, occurs: None };
    let a = Clauses { picture: Some(picture), ..none };
    let words = seq![first, name, "PIC"@, picture];
    assert(clauses_start(words) == 2);
    assert(clause_at(words, statement[1], 2, none) == Ok::<(Clauses, int), Failure>((a, 4)));
    let plain = seq![first, name];
    assert(clauses_start(plain) == 2);
    let filler = seq![first, "FILLER"@, "PIC"@, picture];
    assert(clauses_start(filler) == 2);
    assert(clause_at(filler, "FILLER"@, 2, none) == Ok::<(Clauses, int), Failure>((a, 4)));
}

/// `FILLER` starts no clause.
#[verifier::rlimit(60)]
#[verifier::spinoff_prover]
proof fn lemma_filler()
    ensures
        !is_clause_keyword("FILLER"@),
{
    lemma_letters();
    reveal_strlit("FILLER");
    reveal_strlit("JUSTIFIED");
    reveal_strlit("JUST");
    reveal_strlit("RIGHT");
    reveal_strlit("LEFT");
    reveal_strlit("GLOBAL");
    reveal_strlit("EXTERNAL");
    reveal_strlit("BLANK");
    reveal_strlit("WHEN");
    reveal_strlit("ZERO");
    reveal_strlit("ZEROS");
    reveal_strlit("ZEROES");
    reveal_strlit("ARE");
    reveal_strlit("CHARACTERS");
    assert("FILLER"@[0] == 'F');
    assert("GLOBAL"@[0] == 'G');
    assert("ZEROES"@[0] == 'Z');
    assert("COMP-1"@[0] == 'C');
    assert("COMP-2"@[0] == 'C');
    assert("COMP-3"@[0] == 'C');
    assert("COMP-4"@[0] == 'C');
    assert("COMP-5"@[0] == 'C');
    assert("BINARY"@[0] == 'B');
    assert("OCCURS"@[0] == 'O');
    assert("VALUES"@[0] == 'V');
}

/// A count that varies is refused, wherever `DEPENDING` or an upper bound
/// stands, and so are counts of none or of more than 4096.
pub proof fn law_a_count_is_one_number(
    tokens: Seq<Seq<char>>,
    label: Seq<char>,
    i: int,
    before: Clauses,
    count: nat,
)
    requires
        0 <= i < tokens.len(),
        tokens[i] == "OCCURS"@,
    ensures
        i + 2 < tokens.len() && tokens[i + 2] == "TO"@ ==> (clause_at(tokens, label, i, before)
            matches Err(failure) && failure is Unsupported),
        i + 2 < tokens.len() && tokens[i + 2] == "DEPENDING"@ ==> (clause_at(
            tokens,
            label,
            i,
            before,
        ) matches Err(failure) && failure is Unsupported),
        i + 1 < tokens.len() && tokens[i + 1] == decimal(count) && (i + 2 >= tokens.len() || (
        tokens[i + 2] != "TO"@ && tokens[i + 2] != "DEPENDING"@ && tokens[i + 2] != "TIMES"@))
            ==> match clause_at(tokens, label, i, before) {
            Ok((clauses, next)) => {
                &&& 1 <= count <= 4096
                &&& clauses.occurs is Some && clauses.occurs->Some_0 == count
                &&& clauses.picture == before.picture
                &&& clauses.usage == before.usage
                &&& next == i + 2
            },
            Err(failure) => !(1 <= count <= 4096) && failure is Invalid,
        },
{
    lemma_plain_clauses("OCCURS"@);
    lemma_a_count_is_read(count);
    lemma_letters();
}

/// A quoted literal stands for what is between its quotes, with a comma behind
/// it or not; a word without quotes stands for itself.
pub proof fn law_a_literal_stands_for_its_text(quote: char, text: Seq<char>, word: Seq<char>)
    requires
        quote == '\'' || quote == '"',
        word.len() > 0,
        word[0] != '\'',
        word[0] != '"',
        word.last() != ',',
    ensures
        literal_of(seq![quote] + text + seq![quote]) == text,
        literal_of(seq![quote] + text + seq![quote] + seq![',']) == text,
        literal_of(word) == word,
        literal_of(word + seq![',']) == word,
{
    let quoted = seq![quote] + text + seq![quote];
    assert(quoted.subrange(1, quoted.len() - 1) =~= text);
    assert((quoted + seq![',']).drop_last() =~= quoted);
    assert((word + seq![',']).drop_last() =~= word);
}

/// Literals that are joined by nothing are values of their own, in the order in
/// which they stand.
pub proof fn law_each_literal_is_a_value(
    statement: Seq<Seq<char>>,
    tokens: Seq<Seq<char>>,
    i: int,
)
    requires
        0 <= i <= statement.len(),
        tokens.len() == statement.len(),
        forall|j: int|
            i <= j < statement.len() ==> #[trigger] statement[j] != ","@ && tokens[j] != "THRU"@
                && tokens[j] != "THROUGH"@,
    ensures
        ranges_from(statement, tokens, i).len() == statement.len() - i,
        forall|j: int|
            0 <= j < statement.len() - i ==> (#[trigger] ranges_from(statement, tokens, i)[j]).low
                == literal_of(statement[i + j]) && ranges_from(statement, tokens, i)[j].high is None,
    decreases statement.len() - i,
{
    if i < statement.len() {
        law_each_literal_is_a_value(statement, tokens, i + 1);
        let rest = ranges_from(statement, tokens, i + 1);
        assert(i + 1 < statement.len() ==> statement[i + 1] != ","@);
        assert forall|j: int| 0 <= j < statement.len() - i implies (#[trigger] ranges_from(
            statement,
            tokens,
            i,
        )[j]).low == literal_of(statement[i + j]) && ranges_from(
            statement,
            tokens,
            i,
        )[j].high is None by {
            if j > 0 {
                assert(ranges_from(statement, tokens, i)[j] == rest[j - 1]);
            }
        }
    }
}

/// Two literals joined by `THRU` are one value, from the first to the second;
/// what stands behind them goes on as it would alone.
pub proof fn law_joined_literals_are_one_range(
    statement: Seq<Seq<char>>,
    tokens: Seq<Seq<char>>,
    i: int,
)
    requires
        0 <= i,
        i + 2 < statement.len(),
        tokens.len() == statement.len(),
        statement[i] != ","@,
        tokens[i + 1] == "THRU"@ || tokens[i + 1] == "THROUGH"@,
    ensures
        ({
            let ranges = ranges_from(statement, tokens, i);
            let rest = ranges_from(statement, tokens, i + 3);
            &&& ranges.len() == 1 + rest.len()
            &&& ranges[0].low == literal_of(statement[i])
            &&& ranges[0].high == Some(literal_of(statement[i + 2]))
            &&& ranges.skip(1) == rest
        }),
{
    let ranges = ranges_from(statement, tokens, i);
    assert(ranges.skip(1) =~= ranges_from(statement, tokens, i + 3));
}

/// A condition name holds the values that stand behind `VALUE`, each written
/// out beside its bounds.
pub proof fn law_a_condition_holds_its_values(
    statement: Seq<Seq<char>>,
    tokens: Seq<Seq<char>>,
)
    requires
        tokens.len() == statement.len(),
        statement.len() > 3,
        !is_clause_keyword(tokens[1]),
        tokens[2] == "VALUE"@ || tokens[2] == "VALUES"@,
    ensures
        ({
            let from: int = if tokens[3] == "IS"@ || tokens[3] == "ARE"@ {
                4
            } else {
                3
            };
            let ranges = ranges_from(statement, tokens, from);
            condition_of(statement, tokens) matches EntryModel::Condition(condition) && {
                &&& condition.name == statement[1]
                &&& condition.ranges == ranges
                &&& condition.values.len() == ranges.len()
                &&& forall|i: int|
                    0 <= i < ranges.len() ==> #[trigger] condition.values[i] == (
                    match ranges[i].high {
                        Some(high) => ranges[i].low + " THRU "@ + high,
                        None => ranges[i].low,
                    })
            }
        }),
{
    reveal_with_fuel(literals_start, 2);
}

/// A condition name goes to the last item in front of it, behind the condition
/// names that item already has; no other item changes, and that one does not
/// otherwise.
pub proof fn law_a_condition_goes_to_the_last_item(
    items: Seq<ItemModel>,
    condition: ConditionNameModel,
)
    ensures
        with_condition(items, condition).len() == items.len(),
        forall|i: int|
            0 <= i < items.len() - 1 ==> #[trigger] with_condition(items, condition)[i] == items[i],
        items.len() > 0 ==> {
            let after = with_condition(items, condition).last();
            let before = items.last();
            &&& after.conditions.len() == before.conditions.len() + 1
            &&& after.conditions.last() == condition
            &&& after.conditions.drop_last() == before.conditions
            &&& after.level == before.level
            &&& after.name == before.name
            &&& after.picture == before.picture
            &&& after.usage == before.usage
            &&& after.occurs == before.occurs
        },
{
    if items.len() > 0 {
        assert(items.last().conditions.push(condition).drop_last() =~= items.last().conditions);
    }
}

/// How many of the first `k` statements declare an item.
pub open spec fn items_among(all: Seq<Seq<Seq<char>>>, k: int) -> int
    decreases k,
{
    if k <= 0 {
        0
    } else if entry_of(all[k - 1]) matches Ok(EntryModel::Storage(_)) {
        items_among(all, k - 1) + 1
    } else {
        items_among(all, k - 1)
    }
}

/// The number of items does not go down.
proof fn lemma_items_among(all: Seq<Seq<Seq<char>>>, i: int, k: int)
    requires
        0 <= i <= k <= all.len(),
    ensures
        0 <= items_among(all, i) <= items_among(all, k),
    decreases k,
{
    if i < k {
        lemma_items_among(all, i, k - 1);
    } else if k > 0 {
        lemma_items_among(all, k - 1, k - 1);
    }
}

/// Whether two items declare the same storage.
pub open spec fn same_storage(a: ItemModel, b: ItemModel) -> bool {
    &&& a.level == b.level
    &&& a.name == b.name
    &&& a.picture == b.picture
    &&& a.usage == b.usage
    &&& a.occurs == b.occurs
}

/// Whether what a statement declares is found among items: the storage it
/// declares at its own place, its condition name at the item in front of it.
pub open spec fn is_found(all: Seq<Seq<Seq<char>>>, i: int, items: Seq<ItemModel>) -> bool {
    let at = items_among(all, i);
    match entry_of(all[i]) {
        Ok(EntryModel::Storage(item)) => 0 <= at < items.len() && same_storage(items[at], item),
        Ok(EntryModel::Condition(condition)) => at > 0 ==> at <= items.len() && items[at
            - 1].conditions.contains(condition),
        Ok(EntryModel::Nothing) => true,
        Err(_) => false,
    }
}

/// Every statement that declares an item makes one, in the order of the
/// statements, and there is no other item. A condition name is among those of
/// the item that was declared last in front of it.
pub proof fn law_every_statement_makes_its_item(all: Seq<Seq<Seq<char>>>, k: int)
    requires
        0 <= k <= all.len(),
        items_of(all, k) is Ok,
    ensures
        items_of(all, k)->Ok_0.len() == items_among(all, k),
        forall|i: int| 0 <= i < k ==> #[trigger] is_found(all, i, items_of(all, k)->Ok_0),
    decreases k,
{
    if k > 0 {
        law_every_statement_makes_its_item(all, k - 1);
        let before = items_of(all, k - 1)->Ok_0;
        let after = items_of(all, k)->Ok_0;
        lemma_items_among(all, 0, k - 1);
        assert forall|i: int| 0 <= i < k implies #[trigger] is_found(all, i, after) by {
            let at = items_among(all, i);
            lemma_items_among(all, 0, i);
            lemma_items_among(all, i, k - 1);
            if i < k - 1 {
                assert(is_found(all, i, before));
                if let Ok(EntryModel::Storage(item)) = entry_of(all[i]) {
                    assert(same_storage(after[at], before[at]));
                }
                if let Ok(EntryModel::Condition(condition)) = entry_of(all[i]) {
                    if at > 0 {
                        let names = before[at - 1].conditions;
                        let place = choose|p: int|
                            0 <= p < names.len() && #[trigger] names[p] == condition;
                        assert(after[at - 1].conditions[place] == condition);
                    }
                }
            } else {
                if let Ok(EntryModel::Condition(condition)) = entry_of(all[i]) {
                    if at > 0 {
                        let n = after[at - 1].conditions.len() as int;
                        assert(after[at - 1].conditions[n - 1] == condition);
                    }
                }
            }
        }
    }
}

/// The name of an item behind a list of names, with dots between them.
proof fn lemma_joined_push(parts: Seq<Seq<char>>, name: Seq<char>)
    requires
        parts.len() > 0,
    ensures
        joined(parts.push(name), "."@) == joined(parts, "."@) + "."@ + name,
{
    assert(parts.push(name).drop_last() =~= parts);
}

/// The items between a group and an item that it encloses do not matter for
/// what encloses the item.
proof fn lemma_enclosing_skips(items: Seq<ItemModel>, g: int, i: int, level: u8)
    requires
        0 <= g < i <= items.len(),
        forall|j: int| g < j < i ==> (#[trigger] items[j]).level >= level,
    ensures
        enclosing(items, i, level) == enclosing(items, g + 1, level),
    decreases i,
{
    if g + 1 < i {
        assert(items[i - 1].level >= level);
        lemma_enclosing_skips(items, g, i - 1, level);
    }
}

/// A path leads through the groups that an item stands in. An item's group is
/// the last one in front of it with a lower level number: the item's path is
/// the group's path, a dot, and the item's name. Where the group is anonymous
/// the path is as if the item stood in its place, and where there is no group
/// but the record, it is the record's name, a dot, and the item's name.
pub proof fn law_a_path_leads_through_the_groups(
    items: Seq<ItemModel>,
    g: int,
    i: int,
    name: Seq<char>,
)
    requires
        0 <= g < i < items.len(),
        items[g].level < items[i].level,
        forall|j: int| g < j < i ==> (#[trigger] items[j]).level >= items[i].level,
    ensures
        g == 0 ==> path_of(items, i, name) == (match items[0].name {
            Some(record) => record + "."@ + name,
            None => "record"@ + "."@ + name,
        }),
        g > 0 ==> (items[g].name matches Some(group) ==> path_of(items, i, name) == path_of(
            items,
            g,
            group,
        ) + "."@ + name),
        g > 0 ==> (items[g].name is None ==> path_of(items, i, name) == path_of(items, g, name)),
{
    let level = items[i].level;
    lemma_enclosing_skips(items, g, i, level);
    let record = seq![record_name(items)];
    if g == 0 {
        assert(enclosing(items, 1, level) =~= Seq::<Seq<char>>::empty());
        assert(record + enclosing(items, i, level) =~= record);
        lemma_joined_push(record, name);
        assert(joined(record, "."@) == record[0]);
    } else {
        let outer = enclosing(items, g, items[g].level);
        if let Some(group) = items[g].name {
            assert(enclosing(items, i, level) == outer.push(group));
            assert(record + outer.push(group) =~= (record + outer).push(group));
            lemma_joined_push((record + outer).push(group), name);
        } else {
            assert(enclosing(items, i, level) == outer);
        }
    }
}

/// An elementary item that does not repeat makes one field: under the item's
/// name, with its picture, its level and its condition names, as large and of
/// the kind that its picture describes.
pub proof fn law_an_elementary_item_makes_its_field(
    items: Seq<ItemModel>,
    i: int,
    name: Seq<char>,
    picture: Seq<char>,
)
    requires
        0 <= i < items.len(),
        i + 1 < items.len() ==> items[i + 1].level <= items[i].level || items[i].level == 77,
        items[i].name == Some(name),
        items[i].picture == Some(picture),
        items[i].occurs is None,
    ensures
        match described(picture, items[i].usage, name) {
            Ok(what) => {
                &&& item_fields(items, i) matches Ok(fields) && fields.len() == 1 && {
                    let field = fields[0];
                    &&& field.name == name
                    &&& field.picture == picture
                    &&& field.size == what.size
                    &&& field.kind == what.kind
                    &&& field.scale == what.scale
                    &&& field.offset is None
                    &&& field.declaration.level is Some
                    &&& field.declaration.level->Some_0 == items[i].level
                    &&& field.declaration.path == path_of(items, i, name)
                    &&& field.declaration.occurs_index is None
                    &&& field.declaration.occurs_group is None
                    &&& field.declaration.conditions == items[i].conditions
                }
            },
            Err(failure) => item_fields(items, i) == Err::<Seq<RawFieldModel>, Failure>(failure),
        },
{
}

/// A group has no bytes of its own, and can have neither a picture nor a count;
/// every other item has a picture.
pub proof fn law_groups_have_no_bytes(items: Seq<ItemModel>, i: int)
    requires
        0 <= i < items.len(),
        item_fields(items, i) is Ok,
    ensures
        i + 1 < items.len() && items[i + 1].level > items[i].level && items[i].level != 77 ==> {
            &&& item_fields(items, i)->Ok_0.len() == 0
            &&& items[i].picture is None
            &&& items[i].occurs is None
        },
        !(i + 1 < items.len() && items[i + 1].level > items[i].level && items[i].level != 77) ==> {
            &&& items[i].picture is Some
            &&& item_fields(items, i)->Ok_0.len() == (match items[i].occurs {
                Some(count) => count as nat,
                None => 1,
            })
        },
{
}

/// A character takes as many bytes as its code point needs in UTF-8: seven bits
/// fit in one byte, eleven in two and sixteen in three.
pub proof fn law_how_wide_a_character_is(c: char)
    ensures
        byte_width(seq![c]) == 1 <==> (c as int) < 0x80,
        byte_width(seq![c]) == 2 <==> 0x80 <= c as int && (c as int) < 0x800,
        byte_width(seq![c]) == 3 <==> 0x800 <= c as int && (c as int) < 0x1_0000,
        byte_width(seq![c]) == 4 <==> 0x1_0000 <= c as int,
{
    assert(seq![c].drop_last() =~= Seq::<char>::empty());
    reveal_with_fuel(byte_width, 2);
}

/// A line of ASCII has its code in columns 7 to 72 when it is in fixed format,
/// and is all code when it is not.
pub proof fn law_the_code_of_a_line_is_its_columns(line: Seq<char>)
    requires
        is_ascii_text(line),
    ensures
        is_fixed(line) && line.len() <= 72 ==> code_of(line) == line.skip(6),
        is_fixed(line) && line.len() > 72 ==> code_of(line) == line.subrange(6, 72),
        !is_fixed(line) ==> code_of(line) == line,
{
    lemma_ascii_code_end(line, 0);
    if is_fixed(line) && line.len() <= 72 {
        assert(line.subrange(6, line.len() as int) =~= line.skip(6));
    }
}

/// Where the code of an ASCII line ends.
proof fn lemma_ascii_code_end(line: Seq<char>, e: int)
    requires
        is_ascii_text(line),
        0 <= e <= line.len(),
        e <= 72,
    ensures
        code_end(line, e) == if line.len() <= 72 {
            line.len() as int
        } else {
            72
        },
    decreases line.len() - e,
{
    if e < line.len() {
        let front = line.take(e + 1);
        assert forall|i: int| 0 <= i < front.len() implies #[trigger] front[i] <= '\u{7f}' by {
            assert(front[i] == line[i]);
        }
        law_an_ascii_line_is_as_wide_as_it_is_long(front);
        if e < 72 {
            lemma_ascii_code_end(line, e + 1);
        }
    }
}

/// A line is in fixed format when six digits or blanks and an indicator stand
/// in front, and not when another character stands among the six.
pub proof fn law_what_is_in_fixed_format(numbers: Seq<char>, indicator: char, code: Seq<char>)
    requires
        numbers.len() == 6,
    ensures
        (forall|i: int| 0 <= i < 6 ==> '0' <= #[trigger] numbers[i] <= '9' || numbers[i] == ' ')
            && (indicator == ' ' || indicator == '-' || indicator == '*' || indicator == '/'
            || indicator == 'D' || indicator == 'd') ==> is_fixed(
            numbers + seq![indicator] + code,
        ),
        (exists|i: int|
            0 <= i < 6 && !('0' <= #[trigger] numbers[i] <= '9') && numbers[i] != ' ')
            ==> !is_fixed(numbers + seq![indicator] + code),
{
    let line = numbers + seq![indicator] + code;
    assert(line[6] == indicator);
    assert forall|i: int| 0 <= i < 6 implies #[trigger] line[i] == numbers[i] by {}
    if exists|i: int| 0 <= i < 6 && !('0' <= #[trigger] numbers[i] <= '9') && numbers[i] != ' ' {
        let i = choose|i: int|
            0 <= i < 6 && !('0' <= #[trigger] numbers[i] <= '9') && numbers[i] != ' ';
        assert(line[i] == numbers[i]);
        assert(!is_digit(line[i]));
    }
}

/// A line is a comment when an asterisk or a slash is its first character that
/// is no blank, or stands in the indicator column of a line in fixed format,
/// and only then.
pub proof fn law_what_is_a_comment(blanks: Seq<char>, first: char, rest: Seq<char>)
    requires
        is_blank(blanks),
        !is_space(first),
    ensures
        ({
            let line = blanks + seq![first] + rest;
            is_comment(line) <==> first == '*' || first == '/' || (is_fixed(line) && (line[6] == '*'
                || line[6] == '/'))
        }),
        !is_comment(blanks),
{
    let line = blanks + seq![first] + rest;
    let body = seq![first] + rest;
    assert(line =~= blanks + body);
    lemma_front_goes(blanks, body);
    assert(trimmed_start(body) == body);
    assert(body[0] == first);
    lemma_front_goes(blanks, Seq::empty());
    assert(blanks + Seq::<char>::empty() =~= blanks);
    assert(trimmed_start(Seq::<char>::empty()) =~= Seq::<char>::empty());
    if is_fixed(blanks) {
        assert(is_space(blanks[6]));
    }
}

/// Lines are read from a place on as what stands there is by itself.
proof fn lemma_lines_from(front: Seq<Seq<char>>, all: Seq<Seq<char>>, i: int)
    requires
        0 <= i <= all.len(),
    ensures
        lexed_lines(front + all, front.len() + i) == lexed_lines(all, i),
    decreases all.len() - i,
{
    if i < all.len() {
        assert((front + all)[front.len() + i] == all[i]);
        lemma_lines_from(front, all, i + 1);
    }
}

/// The lines of a copybook are read one by one, in order: a comment adds
/// nothing, and any other line adds its words and stops in front of those of
/// the lines behind it.
pub proof fn law_lines_are_read_in_order(line: Seq<char>, rest: Seq<Seq<char>>)
    ensures
        is_comment(line) ==> lexed_lines(seq![line] + rest, 0) == lexed_lines(rest, 0),
        !is_comment(line) && lexed(code_of(line), 0) is None ==> (lexed_lines(
            seq![line] + rest,
            0,
        ) matches Err(failure) && failure is Invalid),
        !is_comment(line) ==> (lexed(code_of(line), 0) matches Some(first) ==> match lexed_lines(
            rest,
            0,
        ) {
            Ok(others) => lexed_lines(seq![line] + rest, 0) == Ok::<Seq<LexemeModel>, Failure>(
                first + others,
            ),
            Err(failure) => lexed_lines(seq![line] + rest, 0) == Err::<Seq<LexemeModel>, Failure>(
                failure,
            ),
        }),
{
    let all = seq![line] + rest;
    assert(all[0] == line);
    lemma_lines_from(seq![line], rest, 0);
}

/// A copybook has to end with a period: with words behind the last one it is
/// refused, and otherwise its statements hold all its words.
pub proof fn law_a_copybook_ends_with_a_period(source: Seq<char>)
    ensures
        lexed_lines(lines(source), 0) matches Ok(lexemes) ==> {
            let n = lexemes.len() as int;
            &&& n == 0 || lexemes[n - 1] is Stop ==> (statements_of(source) matches Ok(all)
                && words_of(all) == words_among(lexemes, n))
            &&& n > 0 && lexemes[n - 1] is Word ==> (statements_of(source) matches Err(failure)
                && failure is Invalid)
        },
{
    if let Ok(lexemes) = lexed_lines(lines(source), 0) {
        let n = lexemes.len() as int;
        law_no_word_is_lost(lexemes, n);
        let whole = whole_statements(lexemes, n);
        assert(words_of(whole) + Seq::<Seq<char>>::empty() =~= words_of(whole));
    }
}

/// A literal that is not closed on its line is refused.
pub proof fn law_a_literal_is_closed_on_its_line(quote: char, text: Seq<char>)
    requires
        quote == '\'' || quote == '"',
        forall|i: int| 0 <= i < text.len() ==> #[trigger] text[i] != quote,
    ensures
        lexed(seq![quote] + text, 0) is None,
{
    let line = seq![quote] + text;
    lemma_place_of(line, quote, 1);
    let close = place_of(line, quote, 1);
    if close < line.len() {
        assert(line[close] == text[close - 1]);
    }
    assert(line[0] == quote);
    assert(!is_space(quote));
    assert(word_end(line, 0) is None);
}

/// Which clauses are refused, and that a statement with one of them where a
/// clause is due is refused as unsupported.
pub proof fn law_which_clauses_are_refused(
    tokens: Seq<Seq<char>>,
    label: Seq<char>,
    i: int,
    before: Clauses,
)
    requires
        0 <= i < tokens.len(),
    ensures
        ({
            let token = tokens[i];
            let refused = token == "REDEFINES"@ || token == "RENAMES"@ || token == "COMP-1"@
                || token == "COMPUTATIONAL-1"@ || token == "COMP-2"@ || token
                == "COMPUTATIONAL-2"@ || token == "COMP-5"@ || token == "COMPUTATIONAL-5"@ || token
                == "SYNCHRONIZED"@ || token == "SYNC"@ || token == "SIGN"@ || token
                == "DEPENDING"@ || token == "POINTER"@ || token == "INDEX"@ || token
                == "PROCEDURE-POINTER"@ || token == "FUNCTION-POINTER"@;
            &&& refused ==> (clause_at(tokens, label, i, before) matches Err(failure)
                && failure is Unsupported && mentions(failure.message(), quoted(label)))
            &&& refused <==> refusal(token) is Some
        }),
{
    let token = tokens[i];
    if let Some(reason) = refusal(token) {
        let rest = " uses "@ + token + ": "@ + reason;
        let message = clause_at(tokens, label, i, before)->Err_0.message();
        assert(message =~= "copybook item "@ + quoted(label) + rest);
        lemma_mentions("copybook item "@, quoted(label), rest);
    }
}

/// A copybook that compiles describes one record: its first item and no other
/// is of level 1 or 77, the record goes by that item's name, and it has fields.
pub proof fn law_a_copybook_describes_one_record(items: Seq<ItemModel>)
    ensures
        compiled_items(items) matches Ok(raw) ==> {
            &&& items.len() > 0
            &&& items[0].level == 1 || items[0].level == 77
            &&& forall|i: int|
                0 < i < items.len() ==> (#[trigger] items[i]).level != 1 && items[i].level != 77
            &&& raw.records.len() == 1
            &&& items[0].name matches Some(name) ==> raw.records[0].name == name
            &&& raw.records[0].fields.len() > 0
            &&& raw.records[0].selector is None
            &&& raw.header_size == 0 && raw.footer_size == 0
        },
        items.len() > 0 && items[0].level == 1 && (exists|i: int|
            0 < i < items.len() && (#[trigger] items[i]).level == 1) ==> (compiled_items(
            items,
        ) matches Err(failure) && failure is Unsupported),
{
    let n = items.len() as int;
    if n > 0 && is_root(items[0]) {
        lemma_roots(items, n);
        if roots_in(items, n) == 1 {
            assert forall|i: int| 0 < i < n implies (#[trigger] items[i]).level != 1
                && items[i].level != 77 by {}
        }
    }
}

/// How many roots there are behind the first one.
proof fn lemma_roots(items: Seq<ItemModel>, k: int)
    requires
        1 <= k <= items.len(),
        is_root(items[0]),
    ensures
        roots_in(items, k) >= 1,
        roots_in(items, k) == 1 <==> forall|i: int| 0 < i < k ==> !is_root(#[trigger] items[i]),
    decreases k,
{
    reveal_with_fuel(roots_in, 2);
    if k > 1 {
        lemma_roots(items, k - 1);
        if is_root(items[k - 1]) {
            assert(roots_in(items, k) >= 2);
        }
    }
}

/// Whether a word is one of those that say nothing about the bytes of an item.
pub open spec fn says_nothing(token: Seq<char>) -> bool {
    ||| token == "VALUE"@ || token == "VALUES"@
    ||| token == "JUSTIFIED"@ || token == "JUST"@ || token == "RIGHT"@ || token == "LEFT"@
    ||| token == "GLOBAL"@ || token == "EXTERNAL"@
    ||| token == "BLANK"@ || token == "WHEN"@
    ||| token == "ZERO"@ || token == "ZEROS"@ || token == "ZEROES"@
    ||| token == "IS"@ || token == "ARE"@ || token == "TIMES"@ || token == "CHARACTERS"@
}

/// Whether a word starts a clause that says something about the bytes.
pub open spec fn says_something(token: Seq<char>) -> bool {
    ||| token == "PIC"@ || token == "PICTURE"@
    ||| token == "USAGE"@ || token == "OCCURS"@
    ||| token == "COMP"@ || token == "COMPUTATIONAL"@ || token == "BINARY"@
    ||| token == "COMP-4"@ || token == "COMPUTATIONAL-4"@
    ||| token == "COMP-3"@ || token == "COMPUTATIONAL-3"@ || token == "PACKED-DECIMAL"@
    ||| token == "DISPLAY"@
}

/// A word where a clause is due says something, says nothing, or is refused,
/// and a name is any word that does none of these. Of the words that say
/// nothing, `VALUE` takes the rest of the statement with it and the others only
/// themselves; a word that is none of all these is refused by name.
pub proof fn law_what_a_word_says_where_a_clause_is_due(
    tokens: Seq<Seq<char>>,
    label: Seq<char>,
    i: int,
    before: Clauses,
)
    requires
        0 <= i < tokens.len(),
    ensures
        ({
            let token = tokens[i];
            let value = token == "VALUE"@ || token == "VALUES"@;
            &&& is_clause_keyword(token) <==> says_something(token) || says_nothing(token)
                || refusal(token) is Some
            &&& refusal(token) is None && !says_something(token) && says_nothing(token)
                ==> clause_at(tokens, label, i, before) == Ok::<(Clauses, int), Failure>(
                (
                    before,
                    if value {
                        tokens.len() as int
                    } else {
                        i + 1
                    },
                ),
            )
            &&& !is_clause_keyword(token) ==> (clause_at(tokens, label, i, before) matches Err(
                failure,
            ) && failure is Unsupported && mentions(failure.message(), quoted(token)) && mentions(
                failure.message(),
                quoted(label),
            ))
        }),
{
    let token = tokens[i];
    if !is_clause_keyword(token) {
        let front = "unrecognized clause "@;
        let middle = " in copybook item "@;
        let message = clause_at(tokens, label, i, before)->Err_0.message();
        assert(message =~= front + quoted(token) + (middle + quoted(label)));
        lemma_mentions(front, quoted(token), middle + quoted(label));
        let none = Seq::<char>::empty();
        assert(message =~= (front + quoted(token) + middle) + quoted(label) + none);
        lemma_mentions(front + quoted(token) + middle, quoted(label), none);
    }
}

} // verus!
