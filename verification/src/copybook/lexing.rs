//! Splitting copybook source into statements of words.
//!
//! A line is a run of words and stops. A word ends at white space or at a
//! stop; a quoted literal belongs to the word it stands in, whatever it holds.
//! A period is a stop only when white space or the end of the line follows it:
//! anywhere else it is part of the word, which is what keeps the decimal point
//! of `PIC ZZ9.99` attached to its picture. A statement is the words up to a
//! stop.

use vstd::prelude::*;
use crate::error::{outcome, Failure, ParseError};
use crate::text::{cat2, find, front, is_digit, is_space, join, joined, lemma_place_of, lines,
    place_of, quote, quoted, space, split_lines, string_of, trimmed_start};

verus! {

/// How many bytes a character takes in UTF-8.
pub open spec fn utf8_width(c: char) -> nat {
    if c <= '\u{7f}' {
        1
    } else if c <= '\u{7ff}' {
        2
    } else if c <= '\u{ffff}' {
        3
    } else {
        4
    }
}

/// How many bytes a run of characters takes in UTF-8.
pub open spec fn byte_width(s: Seq<char>) -> nat
    decreases s.len(),
{
    if s.len() == 0 {
        0
    } else {
        byte_width(s.drop_last()) + utf8_width(s.last())
    }
}

/// Whether a line is in fixed format: columns 1-6 are digits or blanks and
/// column 7 is one of the indicator characters.
pub open spec fn is_fixed(line: Seq<char>) -> bool {
    &&& line.len() >= 7
    &&& forall|i: int| 0 <= i < 6 ==> is_digit(#[trigger] line[i]) || line[i] == ' '
    &&& (line[6] == ' ' || line[6] == '-' || line[6] == '*' || line[6] == '/' || line[6] == 'D'
        || line[6] == 'd')
}

/// Whether a line is a comment: its first character, or the indicator column
/// of a line in fixed format, is an asterisk or a slash.
pub open spec fn is_comment(line: Seq<char>) -> bool {
    let text = trimmed_start(line);
    ||| text.len() > 0 && (text[0] == '*' || text[0] == '/')
    ||| is_fixed(line) && (line[6] == '*' || line[6] == '/')
}

/// The number of characters at the front of a line, from `e` on, that end
/// within the first 72 bytes.
pub open spec fn code_end(line: Seq<char>, e: int) -> int
    decreases line.len() - e,
{
    if e >= line.len() {
        line.len() as int
    } else if byte_width(line.take(e + 1)) > 72 {
        e
    } else {
        code_end(line, e + 1)
    }
}

/// Whether the end of column 72 falls between two characters of a line.
pub open spec fn ends_cleanly(line: Seq<char>) -> bool {
    let e = code_end(line, 0);
    e == line.len() || byte_width(line.take(e)) == 72
}

/// The code of a line: columns 7-72 of one in fixed format, all of one in free
/// format. Columns 73-80 are the identification area and are not code.
pub open spec fn code_of(line: Seq<char>) -> Seq<char> {
    if is_fixed(line) {
        line.subrange(6, code_end(line, 0))
    } else {
        line
    }
}

/// Whether none of the lines from `from` on that are read has a character
/// astride the end of column 72, where it is in fixed format. Comments are not
/// read, nor is anything behind a line with an unclosed literal.
pub open spec fn lines_align(all: Seq<Seq<char>>, from: int) -> bool
    decreases all.len() - from,
{
    if from >= all.len() {
        true
    } else if is_comment(all[from]) {
        lines_align(all, from + 1)
    } else {
        &&& is_fixed(all[from]) ==> ends_cleanly(all[from])
        &&& lexed(code_of(all[from]), 0) is Some ==> lines_align(all, from + 1)
    }
}

/// Whether no fixed-format line of a copybook that is read has a character
/// astride the end of column 72.
pub open spec fn columns_align(source: Seq<char>) -> bool {
    lines_align(lines(source), 0)
}

/// Whether the period at `i` ends a statement.
pub open spec fn is_stop(line: Seq<char>, i: int) -> bool {
    line[i] == '.' && (i + 1 >= line.len() || is_space(line[i + 1]))
}

/// Whether a character opens a literal.
pub open spec fn is_quote(c: char) -> bool {
    c == '\'' || c == '"'
}

/// Where the word that reaches `i` ends, or nothing when a literal in it is
/// not closed on the line.
pub open spec fn word_end(line: Seq<char>, i: int) -> Option<int>
    decreases line.len() - i,
{
    if i >= line.len() {
        Some(line.len() as int)
    } else if is_quote(line[i]) {
        let close = place_of(line, line[i], i + 1);
        if close >= line.len() || close <= i {
            None
        } else {
            word_end(line, close + 1)
        }
    } else if is_stop(line, i) || is_space(line[i]) {
        Some(i)
    } else {
        word_end(line, i + 1)
    }
}

/// One piece of a line.
pub enum Lexeme {
    /// A word.
    Word(String),
    /// The end of a statement.
    Stop,
}

/// One piece of a line, as contracts speak of it.
#[verifier::ext_equal]
pub enum LexemeModel {
    /// A word.
    Word(Seq<char>),
    /// The end of a statement.
    Stop,
}

impl DeepView for Lexeme {
    type V = LexemeModel;

    open spec fn deep_view(&self) -> LexemeModel {
        match self {
            Lexeme::Word(word) => LexemeModel::Word(word@),
            Lexeme::Stop => LexemeModel::Stop,
        }
    }
}

/// The words and stops of a line from `i` on, or nothing when a literal is not
/// closed.
pub open spec fn lexed(line: Seq<char>, i: int) -> Option<Seq<LexemeModel>>
    decreases line.len() - i,
{
    if i >= line.len() {
        Some(Seq::empty())
    } else if is_space(line[i]) {
        lexed(line, i + 1)
    } else if is_stop(line, i) {
        match lexed(line, i + 1) {
            None => None,
            Some(rest) => Some(seq![LexemeModel::Stop] + rest),
        }
    } else {
        match word_end(line, i) {
            None => None,
            Some(end) => if end <= i || end > line.len() {
                None
            } else {
                match lexed(line, end) {
                    None => None,
                    Some(rest) => Some(seq![LexemeModel::Word(line.subrange(i, end))] + rest),
                }
            },
        }
    }
}

/// The words and stops of the lines from `from` on, comments left out. The
/// first line with an unclosed literal is refused.
pub open spec fn lexed_lines(all: Seq<Seq<char>>, from: int) -> Result<Seq<LexemeModel>, Failure>
    decreases all.len() - from,
{
    if from >= all.len() {
        Ok(Seq::empty())
    } else if is_comment(all[from]) {
        lexed_lines(all, from + 1)
    } else {
        match lexed(code_of(all[from]), 0) {
            None => Err(
                Failure::Invalid(
                    "unterminated literal in copybook line "@ + quoted(code_of(all[from])),
                ),
            ),
            Some(first) => match lexed_lines(all, from + 1) {
                Err(failure) => Err(failure),
                Ok(rest) => Ok(first + rest),
            },
        }
    }
}

/// The whole statements among the first `k` words and stops.
pub open spec fn whole_statements(lexemes: Seq<LexemeModel>, k: int) -> Seq<Seq<Seq<char>>>
    decreases k,
{
    if k <= 0 {
        Seq::empty()
    } else {
        let before = whole_statements(lexemes, k - 1);
        let open = open_statement(lexemes, k - 1);
        match lexemes[k - 1] {
            LexemeModel::Word(_) => before,
            LexemeModel::Stop => if open.len() == 0 {
                before
            } else {
                before.push(open)
            },
        }
    }
}

/// The words since the last stop among the first `k` words and stops.
pub open spec fn open_statement(lexemes: Seq<LexemeModel>, k: int) -> Seq<Seq<char>>
    decreases k,
{
    if k <= 0 {
        Seq::empty()
    } else {
        match lexemes[k - 1] {
            LexemeModel::Word(word) => open_statement(lexemes, k - 1).push(word),
            LexemeModel::Stop => Seq::empty(),
        }
    }
}

/// The statements of a copybook: period-terminated runs of words.
pub open spec fn statements_of(source: Seq<char>) -> Result<Seq<Seq<Seq<char>>>, Failure> {
    match lexed_lines(lines(source), 0) {
        Err(failure) => Err(failure),
        Ok(lexemes) => {
            let open = open_statement(lexemes, lexemes.len() as int);
            if open.len() > 0 {
                Err(
                    Failure::Invalid(
                        "the copybook ends without a period after "@ + quoted(joined(open, " "@)),
                    ),
                )
            } else {
                Ok(whole_statements(lexemes, lexemes.len() as int))
            }
        },
    }
}

fn is_fixed_line(line: &[char]) -> (r: bool)
    ensures
        r == is_fixed(line@),
{
    if line.len() < 7 {
        return false;
    }
    let mut i: usize = 0;
    while i < 6
        invariant
            i <= 6 < line@.len(),
            forall|j: int| 0 <= j < i ==> is_digit(#[trigger] line@[j]) || line@[j] == ' ',
        decreases 6 - i,
    {
        let c: char = line[i];
        if !(('0' <= c && c <= '9') || c == ' ') {
            proof {
                assert(!(is_digit(line@[i as int]) || line@[i as int] == ' '));
            }
            return false;
        }
        i = i + 1;
    }
    let c: char = line[6];
    c == ' ' || c == '-' || c == '*' || c == '/' || c == 'D' || c == 'd'
}

fn is_comment_line(line: &[char]) -> (r: bool)
    ensures
        r == is_comment(line@),
{
    let from: usize = front(line);
    proof {
        assert(from < line@.len() ==> trimmed_start(line@)[0] == line@[from as int]);
        assert(from == line@.len() ==> trimmed_start(line@).len() == 0);
    }
    if from < line.len() && (line[from] == '*' || line[from] == '/') {
        return true;
    }
    is_fixed_line(line) && (line[6] == '*' || line[6] == '/')
}

/// Find where the code of a fixed-format line ends. The second result is
/// whether it ends between two characters.
fn find_code_end(line: &[char]) -> (r: (usize, bool))
    ensures
        r.0 == code_end(line@, 0),
        r.0 <= line@.len(),
        r.1 == ends_cleanly(line@),
{
    let mut e: usize = 0;
    let mut used: usize = 0;
    proof {
        assert(line@.take(0) =~= Seq::<char>::empty());
    }
    while e < line.len()
        invariant
            e <= line@.len(),
            used == byte_width(line@.take(e as int)),
            used <= 72,
            code_end(line@, 0) == code_end(line@, e as int),
        decreases line@.len() - e,
    {
        let c: char = line[e];
        let width: usize = if c <= '\u{7f}' {
            1
        } else if c <= '\u{7ff}' {
            2
        } else if c <= '\u{ffff}' {
            3
        } else {
            4
        };
        proof {
            assert(line@.take(e + 1).drop_last() =~= line@.take(e as int));
        }
        if used + width > 72 {
            return (e, used == 72);
        }
        used = used + width;
        e = e + 1;
    }
    (e, true)
}

/// The first seven characters of a fixed-format line are within its code.
proof fn lemma_fixed_code_end(line: Seq<char>)
    requires
        is_fixed(line),
    ensures
        6 < code_end(line, 0) <= line.len(),
{
    lemma_card_columns(line, 7);
    lemma_code_end(line, 7);
}

/// The first columns of a fixed-format line are one byte each.
proof fn lemma_card_columns(line: Seq<char>, e: int)
    requires
        is_fixed(line),
        0 <= e <= 7,
    ensures
        byte_width(line.take(e)) == e,
        code_end(line, 0) == code_end(line, e),
    decreases e,
{
    if e > 0 {
        lemma_card_columns(line, e - 1);
        assert(line.take(e).drop_last() =~= line.take(e - 1));
        assert(line.take(e).last() == line[e - 1]);
        if e < 7 {
            assert(is_digit(line[e - 1]) || line[e - 1] == ' ');
        }
    }
}

proof fn lemma_code_end(line: Seq<char>, e: int)
    requires
        0 <= e <= line.len(),
    ensures
        e <= code_end(line, e) <= line.len(),
    decreases line.len() - e,
{
    if e < line.len() && byte_width(line.take(e + 1)) <= 72 {
        lemma_code_end(line, e + 1);
    }
}

/// The code of a line that is no comment.
fn strip_card_columns(line: &[char]) -> (r: Vec<char>)
    requires
        is_fixed(line@) ==> ends_cleanly(line@),
    ensures
        r@ == code_of(line@),
{
    if is_fixed_line(line) {
        proof {
            lemma_fixed_code_end(line@);
        }
        let end: (usize, bool) = find_code_end(line);
        crate::text::copy_chars(line, 6, end.0)
    } else {
        let r: Vec<char> = crate::text::copy_chars(line, 0, line.len());
        proof {
            assert(r@ =~= line@);
        }
        r
    }
}

/// Whether no fixed-format line of a copybook that is read has a character
/// astride the end of column 72, which [`crate::layout::resolve`] asks of the
/// source it compiles.
pub fn check_columns(source: &str) -> (r: bool)
    ensures
        r == columns_align(source@),
{
    let all: Vec<Vec<char>> = split_lines(source);
    let mut i: usize = 0;
    while i < all.len()
        invariant
            i <= all@.len(),
            all.deep_view() == lines(source@),
            columns_align(source@) == lines_align(lines(source@), i as int),
        decreases all@.len() - i,
    {
        let line: &Vec<char> = &all[i];
        proof {
            assert(line.deep_view() =~= line@);
            assert(lines(source@)[i as int] == line@);
        }
        if !is_comment_line(line) {
            if is_fixed_line(line) && !find_code_end(line).1 {
                return false;
            }
            let mut words: Vec<Lexeme> = Vec::new();
            if !lex_line(&strip_card_columns(line), &mut words) {
                return true;
            }
        }
        i = i + 1;
    }
    true
}

/// A word is at least one character long.
proof fn lemma_word_end(line: Seq<char>, i: int)
    requires
        0 <= i <= line.len(),
    ensures
        word_end(line, i) matches Some(end) ==> i <= end <= line.len(),
        i < line.len() && !is_stop(line, i) && !is_space(line[i]) ==> (word_end(line, i) matches Some(
            end,
        ) ==> i < end),
    decreases line.len() - i,
{
    if i < line.len() {
        if is_quote(line[i]) {
            let close = place_of(line, line[i], i + 1);
            lemma_place_of(line, line[i], i + 1);
            if close < line.len() {
                lemma_word_end(line, close + 1);
            }
        } else if !(is_stop(line, i) || is_space(line[i])) {
            lemma_word_end(line, i + 1);
        }
    }
}

/// Whether the period at `i` ends a statement.
fn stop_at(line: &[char], i: usize) -> (r: bool)
    requires
        i < line@.len(),
    ensures
        r == is_stop(line@, i as int),
{
    line[i] == '.' && (i + 1 >= line.len() || space(line[i + 1]))
}

/// Find where the word that starts at `from` ends.
fn find_word_end(line: &[char], from: usize) -> (r: Option<usize>)
    requires
        from <= line@.len(),
    ensures
        match r {
            Some(end) => word_end(line@, from as int) == Some(end as int),
            None => word_end(line@, from as int) is None,
        },
{
    let mut i: usize = from;
    while i < line.len()
        invariant
            from <= i <= line@.len(),
            word_end(line@, from as int) == word_end(line@, i as int),
        decreases line@.len() - i,
    {
        let c: char = line[i];
        if c == '\'' || c == '"' {
            let close: usize = find(line, c, i + 1);
            if close == line.len() {
                return None;
            }
            i = close + 1;
        } else if stop_at(line, i) || space(c) {
            return Some(i);
        } else {
            i = i + 1;
        }
    }
    Some(i)
}

/// Split a line into words and stops, after those already in `out`.
fn lex_line(line: &[char], out: &mut Vec<Lexeme>) -> (r: bool)
    ensures
        match lexed(line@, 0) {
            Some(lexemes) => r && final(out).deep_view() == old(out).deep_view() + lexemes,
            None => !r,
        },
{
    let mut i: usize = 0;
    let ghost before = out.deep_view();
    let ghost all = lexed(line@, 0);
    proof {
        if let Some(lexemes) = all {
            assert(before + lexemes == out.deep_view() + lexemes);
        }
    }
    while i < line.len()
        invariant
            i <= line@.len(),
            all == lexed(line@, 0),
            before == old(out).deep_view(),
            all is None <==> lexed(line@, i as int) is None,
            lexed(line@, i as int) matches Some(rest) ==> before + all->Some_0 == out.deep_view()
                + rest,
        decreases line@.len() - i,
    {
        let ghost so_far = out.deep_view();
        if space(line[i]) {
            i = i + 1;
        } else if stop_at(line, i) {
            out.push(Lexeme::Stop);
            i = i + 1;
            proof {
                assert(out.deep_view() =~= so_far.push(LexemeModel::Stop));
                if let Some(rest) = lexed(line@, i as int) {
                    assert(so_far + (seq![LexemeModel::Stop] + rest) =~= out.deep_view() + rest);
                }
            }
        } else {
            proof {
                lemma_word_end(line@, i as int);
            }
            match find_word_end(line, i) {
                None => {
                    return false;
                },
                Some(end) => {
                    let ghost word = line@.subrange(i as int, end as int);
                    out.push(Lexeme::Word(string_of(line, i, end)));
                    i = end;
                    proof {
                        assert(out.deep_view() =~= so_far.push(LexemeModel::Word(word)));
                        if let Some(rest) = lexed(line@, i as int) {
                            assert(so_far + (seq![LexemeModel::Word(word)] + rest)
                                =~= out.deep_view() + rest);
                        }
                    }
                },
            }
        }
    }
    proof {
        assert(out.deep_view() + Seq::<LexemeModel>::empty() =~= out.deep_view());
    }
    true
}

/// Split the lines of a copybook into words and stops.
fn lex_lines(all: &Vec<Vec<char>>) -> (r: Result<Vec<Lexeme>, ParseError>)
    requires
        lines_align(all.deep_view(), 0),
    ensures
        outcome(r) == lexed_lines(all.deep_view(), 0),
{
    let ghost texts = all.deep_view();
    let ghost wanted = lexed_lines(texts, 0);
    let mut out: Vec<Lexeme> = Vec::new();
    let mut i: usize = 0;
    proof {
        if let Ok(lexemes) = wanted {
            assert(out.deep_view() + lexemes =~= lexemes);
        }
    }
    while i < all.len()
        invariant
            i <= all@.len(),
            texts == all.deep_view(),
            wanted == lexed_lines(texts, 0),
            lexed_lines(texts, i as int) is Err ==> wanted == lexed_lines(texts, i as int),
            lexed_lines(texts, i as int) matches Ok(rest) ==> wanted == Ok::<_, Failure>(
                out.deep_view() + rest,
            ),
            lines_align(texts, i as int),
        decreases all@.len() - i,
    {
        let line: &Vec<char> = &all[i];
        proof {
            assert(line.deep_view() =~= line@);
            assert(texts[i as int] == line@);
        }
        if !is_comment_line(line) {
            let code: Vec<char> = strip_card_columns(line);
            let ghost before = out.deep_view();
            if !lex_line(&code, &mut out) {
                let text: String = string_of(&code, 0, code.len());
                proof {
                    assert(text@ =~= code@);
                }
                return Err(
                    ParseError::invalid(
                        cat2("unterminated literal in copybook line ", &quote(&text)),
                    ),
                );
            }
            proof {
                let first = lexed(code@, 0)->Some_0;
                if let Ok(rest) = lexed_lines(texts, i + 1) {
                    assert(before + (first + rest) =~= (before + first) + rest);
                }
            }
        }
        i = i + 1;
    }
    proof {
        assert(out.deep_view() + Seq::<LexemeModel>::empty() =~= out.deep_view());
    }
    Ok(out)
}

/// Split copybook source into period-terminated statements of words.
pub fn statements(source: &str) -> (r: Result<Vec<Vec<String>>, ParseError>)
    requires
        columns_align(source@),
    ensures
        outcome(r) == statements_of(source@),
{
    let all: Vec<Vec<char>> = split_lines(source);
    let lexemes: Vec<Lexeme> = match lex_lines(&all) {
        Err(error) => {
            return Err(error);
        },
        Ok(lexemes) => lexemes,
    };
    let ghost models = lexemes.deep_view();
    let mut out: Vec<Vec<String>> = Vec::new();
    let mut open: Vec<String> = Vec::new();
    let mut k: usize = 0;
    proof {
        assert(out.deep_view() =~= whole_statements(models, 0));
        assert(open.deep_view() =~= open_statement(models, 0));
    }
    while k < lexemes.len()
        invariant
            k <= lexemes@.len(),
            models == lexemes.deep_view(),
            out.deep_view() == whole_statements(models, k as int),
            open.deep_view() == open_statement(models, k as int),
        decreases lexemes@.len() - k,
    {
        let ghost before = out.deep_view();
        let ghost words = open.deep_view();
        proof {
            assert(models[k as int] == lexemes@[k as int].deep_view());
        }
        match &lexemes[k] {
            Lexeme::Word(word) => {
                open.push(word.clone());
                proof {
                    assert(open.deep_view() =~= words.push(word@));
                }
            },
            Lexeme::Stop => {
                if open.len() > 0 {
                    let done: Vec<String> = open;
                    out.push(done);
                    proof {
                        assert(out.deep_view() =~= before.push(words));
                    }
                    open = Vec::new();
                }
                proof {
                    assert(open.deep_view() =~= Seq::<Seq<char>>::empty());
                }
            },
        }
        k = k + 1;
    }
    if open.len() > 0 {
        return Err(
            ParseError::invalid(
                cat2("the copybook ends without a period after ", &quote(&join_words(&open))),
            ),
        );
    }
    Ok(out)
}

/// Join words with blanks between them.
pub fn join_words(words: &Vec<String>) -> (r: String)
    ensures
        r@ == joined(words.deep_view(), " "@),
{
    let mut parts: Vec<&str> = Vec::new();
    let mut i: usize = 0;
    while i < words.len()
        invariant
            i <= words@.len(),
            parts@.len() == i,
            forall|j: int| 0 <= j < i ==> (#[trigger] parts@[j])@ == words@[j]@,
        decreases words@.len() - i,
    {
        parts.push(words[i].as_str());
        i = i + 1;
    }
    proof {
        assert(parts.deep_view() =~= words.deep_view());
    }
    join(&parts, " ")
}

} // verus!
