//! Card columns carry no meaning: source in free format compiles the same with
//! a sequence area and a blank indicator put before every line.

use vstd::prelude::*;
use crate::copybook::compiled;
use crate::copybook::lexing::{byte_width, code_end, code_of, columns_align, ends_cleanly,
    is_comment, is_fixed, is_quote, is_stop, lexed, lexed_lines, lines_align,
    statements_of, word_end};
use crate::text::{is_ascii_text, is_digit, is_space, lemma_place_of, lines, place_of,
    trimmed_start, without_return};

verus! {

/// Whether a text is the card columns of a line of code: a sequence area of
/// digits and blanks, and a blank indicator.
pub open spec fn is_card(card: Seq<char>) -> bool {
    &&& card.len() == 7
    &&& forall|i: int| 0 <= i < 6 ==> is_digit(#[trigger] card[i]) || card[i] == ' '
    &&& card[6] == ' '
}

/// Source with card columns put before every line.
pub open spec fn carded(source: Seq<char>, card: Seq<char>) -> Seq<char>
    decreases source.len(),
{
    let end = place_of(source, '\n', 0);
    if source.len() == 0 {
        Seq::empty()
    } else if end >= source.len() || end < 0 {
        card + source
    } else {
        card + source.take(end + 1) + carded(source.skip(end + 1), card)
    }
}

/// Whether a line is code in free format that still fits behind card columns.
pub open spec fn is_free(line: Seq<char>) -> bool {
    &&& !is_fixed(line)
    &&& !is_comment(line)
    &&& byte_width(line) <= 65
}

/// Where a character stands behind a text put in front.
pub proof fn lemma_place_shifts(front: Seq<char>, s: Seq<char>, c: char, from: int)
    requires
        0 <= from <= s.len(),
    ensures
        place_of(front + s, c, front.len() + from) == front.len() + place_of(s, c, from),
    decreases s.len() - from,
{
    if from < s.len() {
        assert((front + s)[front.len() + from] == s[from]);
        if s[from] != c {
            lemma_place_shifts(front, s, c, from + 1);
        }
    }
}

/// A search passes over a text that lacks the character.
pub proof fn lemma_place_passes(front: Seq<char>, s: Seq<char>, c: char, from: int)
    requires
        0 <= from <= front.len(),
        forall|i: int| 0 <= i < front.len() ==> #[trigger] front[i] != c,
    ensures
        place_of(front + s, c, from) == place_of(front + s, c, front.len() as int),
    decreases front.len() - from,
{
    if from < front.len() {
        assert((front + s)[from] == front[from]);
        lemma_place_passes(front, s, c, from + 1);
    }
}

/// A search that ends in a text does not look behind it.
pub proof fn lemma_place_stays(s: Seq<char>, rest: Seq<char>, c: char, from: int)
    requires
        0 <= from <= s.len(),
        place_of(s, c, from) < s.len(),
    ensures
        place_of(s + rest, c, from) == place_of(s, c, from),
    decreases s.len() - from,
{
    if from < s.len() {
        assert((s + rest)[from] == s[from]);
        if s[from] != c {
            lemma_place_stays(s, rest, c, from + 1);
        }
    }
}

/// The lines of source with card columns are its lines with card columns.
proof fn lemma_carded_lines(source: Seq<char>, card: Seq<char>)
    requires
        is_card(card),
    ensures
        lines(carded(source, card)).len() == lines(source).len(),
        forall|i: int|
            0 <= i < lines(source).len() ==> #[trigger] lines(carded(source, card))[i] == card
                + lines(source)[i],
    decreases source.len(),
{
    let all = carded(source, card);
    let end = place_of(source, '\n', 0);
    lemma_place_of(source, '\n', 0);
    assert forall|i: int| 0 <= i < card.len() implies #[trigger] card[i] != '\n' by {
        assert(is_digit(card[i]) || card[i] == ' ');
    }
    if source.len() == 0 {
    } else if end >= source.len() {
        lemma_place_passes(card, source, '\n', 0);
        lemma_place_shifts(card, source, '\n', 0);
    } else {
        let first = source.take(end + 1);
        let rest = source.skip(end + 1);
        let behind = carded(rest, card);
        assert(source =~= first + rest);
        lemma_first_line(source, end, 0);
        lemma_place_passes(card, first, '\n', 0);
        lemma_place_shifts(card, first, '\n', 0);
        lemma_place_stays(card + first, behind, '\n', 0);
        lemma_carded_lines(rest, card);
        assert(all.take(card.len() + end) =~= card + source.take(end));
        assert(all.skip(card.len() + end + 1) =~= behind);
        assert(without_return(card + source.take(end)) =~= card + without_return(
            source.take(end),
        )) by {
            if end == 0 {
                assert(card + source.take(end) =~= card);
                assert(card.last() == ' ');
            } else {
                assert((card + source.take(end)).last() == source.take(end).last());
            }
        }
        assert(lines(all) == seq![without_return(all.take(card.len() + end))] + lines(behind));
        assert(lines(source) == seq![without_return(source.take(end))] + lines(rest));
        assert forall|i: int| 0 <= i < lines(source).len() implies #[trigger] lines(all)[i] == card
            + lines(source)[i] by {
            if i > 0 {
                assert(lines(all)[i] == lines(behind)[i - 1]);
                assert(lines(source)[i] == lines(rest)[i - 1]);
            }
        }
    }
}

/// The first newline of a text is the first one of a front that ends with it.
proof fn lemma_first_line(source: Seq<char>, end: int, from: int)
    requires
        0 <= from <= end < source.len(),
        place_of(source, '\n', from) == end,
    ensures
        place_of(source.take(end + 1), '\n', from) == end,
    decreases end - from,
{
    let first = source.take(end + 1);
    assert(first[from] == source[from]);
    if source[from] != '\n' {
        lemma_place_of(source, '\n', from + 1);
        lemma_first_line(source, end, from + 1);
    }
}

/// A word ends where it did, one further on, behind a blank.
proof fn lemma_word_shifts(line: Seq<char>, i: int)
    requires
        0 <= i <= line.len(),
    ensures
        word_end(seq![' '] + line, i + 1) == match word_end(line, i) {
            Some(end) => Some(end + 1),
            None => None,
        },
    decreases line.len() - i,
{
    let all = seq![' '] + line;
    if i < line.len() {
        assert(all[i + 1] == line[i]);
        if is_quote(line[i]) {
            let close = place_of(line, line[i], i + 1);
            lemma_place_of(line, line[i], i + 1);
            lemma_place_shifts(seq![' '], line, line[i], i + 1);
            if close < line.len() {
                lemma_word_shifts(line, close + 1);
            }
        } else {
            assert(i + 1 < line.len() ==> all[i + 2] == line[i + 1]);
            assert(is_stop(all, i + 1) == is_stop(line, i));
            if !is_stop(line, i) && !is_space(line[i]) {
                lemma_word_shifts(line, i + 1);
            }
        }
    }
}

/// A line reads the same behind a blank.
proof fn lemma_lexed_shifts(line: Seq<char>, i: int)
    requires
        0 <= i <= line.len(),
    ensures
        lexed(seq![' '] + line, i + 1) == lexed(line, i),
    decreases line.len() - i,
{
    let all = seq![' '] + line;
    if i < line.len() {
        assert(all[i + 1] == line[i]);
        assert(i + 1 < line.len() ==> all[i + 2] == line[i + 1]);
        assert(is_stop(all, i + 1) == is_stop(line, i));
        if is_space(line[i]) || is_stop(line, i) {
            lemma_lexed_shifts(line, i + 1);
        } else {
            lemma_word_shifts(line, i);
            if let Some(end) = word_end(line, i) {
                if i < end <= line.len() {
                    assert(all.subrange(i + 1, end + 1) =~= line.subrange(i, end));
                    lemma_lexed_shifts(line, end);
                }
            }
        }
    }
}

/// The white space in front of a line with card columns is that of the card,
/// and that of the line only when the card is blank.
proof fn lemma_card_is_no_comment(card: Seq<char>, line: Seq<char>)
    requires
        forall|i: int| 0 <= i < card.len() ==> is_digit(#[trigger] card[i]) || card[i] == ' ',
    ensures
        ({
            let text = trimmed_start(card + line);
            text == trimmed_start(line) || text.len() > 0 && is_digit(text[0])
        }),
    decreases card.len(),
{
    let all = card + line;
    if card.len() == 0 {
        assert(all =~= line);
    } else {
        assert(all[0] == card[0]);
        if card[0] == ' ' {
            let rest = card.skip(1);
            assert forall|i: int| 0 <= i < rest.len() implies is_digit(#[trigger] rest[i])
                || rest[i] == ' ' by {
                assert(rest[i] == card[i + 1]);
            }
            assert(all.skip(1) =~= rest + line);
            lemma_card_is_no_comment(rest, line);
        }
    }
}

/// Two runs one after the other are as wide as both.
proof fn lemma_widths_add(front: Seq<char>, s: Seq<char>)
    ensures
        byte_width(front + s) == byte_width(front) + byte_width(s),
    decreases s.len(),
{
    if s.len() == 0 {
        assert(front + s =~= front);
    } else {
        assert((front + s).drop_last() =~= front + s.drop_last());
        lemma_widths_add(front, s.drop_last());
    }
}

/// A front of a run is no wider than the run.
proof fn lemma_front_is_narrower(s: Seq<char>, k: int)
    requires
        0 <= k <= s.len(),
    ensures
        byte_width(s.take(k)) <= byte_width(s),
{
    assert(s =~= s.take(k) + s.skip(k));
    lemma_widths_add(s.take(k), s.skip(k));
}

/// A line of at most 72 columns is code to its end.
proof fn lemma_short_line(line: Seq<char>, e: int)
    requires
        byte_width(line) <= 72,
        0 <= e <= line.len(),
    ensures
        code_end(line, e) == line.len(),
    decreases line.len() - e,
{
    if e < line.len() {
        lemma_front_is_narrower(line, e + 1);
        lemma_short_line(line, e + 1);
    }
}

/// An ASCII line is as many columns wide as it has characters.
pub proof fn law_an_ascii_line_is_as_wide_as_it_is_long(line: Seq<char>)
    requires
        is_ascii_text(line),
    ensures
        byte_width(line) == line.len(),
    decreases line.len(),
{
    if line.len() > 0 {
        assert(line[line.len() - 1] <= '\u{7f}');
        assert forall|i: int| 0 <= i < line.drop_last().len() implies #[trigger] line.drop_last()[i]
            <= '\u{7f}' by {
            assert(line[i] <= '\u{7f}');
        }
        law_an_ascii_line_is_as_wide_as_it_is_long(line.drop_last());
    }
}

/// A line in free format reads the same with card columns.
proof fn lemma_carded_line(card: Seq<char>, line: Seq<char>)
    requires
        is_card(card),
        is_free(line),
    ensures
        is_fixed(card + line),
        !is_comment(card + line),
        ends_cleanly(card + line),
        code_of(line) == line,
        lexed(code_of(card + line), 0) == lexed(line, 0),
{
    let all = card + line;
    assert forall|i: int| 0 <= i < 6 implies is_digit(#[trigger] all[i]) || all[i] == ' ' by {
        assert(all[i] == card[i]);
    }
    assert(all[6] == card[6]);
    assert forall|i: int| 0 <= i < card.len() implies is_digit(#[trigger] card[i]) || card[i]
        == ' ' by {}
    lemma_card_is_no_comment(card, line);
    assert(is_ascii_text(card));
    law_an_ascii_line_is_as_wide_as_it_is_long(card);
    lemma_widths_add(card, line);
    lemma_short_line(all, 0);
    assert(code_of(all) =~= seq![' '] + line);
    assert((seq![' '] + line)[0] == ' ');
    lemma_lexed_shifts(line, 0);
}

/// Lines in free format read the same with card columns.
proof fn lemma_carded_read(all: Seq<Seq<char>>, cards: Seq<Seq<char>>, card: Seq<char>, from: int)
    requires
        is_card(card),
        0 <= from <= all.len(),
        cards.len() == all.len(),
        forall|i: int| 0 <= i < all.len() ==> #[trigger] cards[i] == card + all[i],
        forall|i: int| 0 <= i < all.len() ==> is_free(#[trigger] all[i]),
        lexed_lines(all, from) is Ok,
    ensures
        lexed_lines(cards, from) == lexed_lines(all, from),
    decreases all.len() - from,
{
    if from < all.len() {
        assert(is_free(all[from]));
        assert(cards[from] == card + all[from]);
        lemma_carded_line(card, all[from]);
        lemma_carded_read(all, cards, card, from + 1);
    }
}

/// Lines that are clean at column 72 where they are in fixed format align.
proof fn lemma_clean_lines_align(all: Seq<Seq<char>>, from: int)
    requires
        0 <= from <= all.len(),
        forall|i: int|
            0 <= i < all.len() ==> (is_fixed(#[trigger] all[i]) ==> ends_cleanly(all[i])),
    ensures
        lines_align(all, from),
    decreases all.len() - from,
{
    if from < all.len() {
        lemma_clean_lines_align(all, from + 1);
    }
}

/// Card columns carry no meaning: when every line of a copybook is code in free
/// format and short enough, putting card columns before every line leaves what
/// it compiles to as it is.
pub proof fn law_card_columns_carry_no_meaning(source: Seq<char>, card: Seq<char>)
    requires
        is_card(card),
        forall|i: int| 0 <= i < lines(source).len() ==> is_free(#[trigger] lines(source)[i]),
    ensures
        columns_align(source),
        columns_align(carded(source, card)),
        compiled(source) is Ok ==> compiled(carded(source, card)) == compiled(source),
{
    let all = lines(source);
    let cards = lines(carded(source, card));
    lemma_carded_lines(source, card);
    assert forall|i: int| 0 <= i < all.len() implies !is_fixed(#[trigger] all[i]) by {
        assert(is_free(all[i]));
    }
    assert forall|i: int| 0 <= i < cards.len() implies ends_cleanly(#[trigger] cards[i]) by {
        assert(is_free(all[i]));
        lemma_carded_line(card, all[i]);
    }
    lemma_clean_lines_align(all, 0);
    lemma_clean_lines_align(cards, 0);
    if lexed_lines(all, 0) is Ok {
        lemma_carded_read(all, cards, card, 0);
        assert(statements_of(carded(source, card)) == statements_of(source));
    }
}

} // verus!
