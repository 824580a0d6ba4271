//! What the elementary operations on text amount to.

use vstd::prelude::*;
use crate::decode::laws::{law_a_signed_number_reads_back, lemma_weighed_push, weighed};
use crate::decode::lemma_decimal_is_numeral;
use crate::text::{decimal, digits_value, hex_bytes, is_control, is_digit, is_numeral, is_space,
    joined, lemma_precedes_is_strict, lemma_precedes_is_transitive, lines, parts_before, place_of,
    precedes, signed_decimal, signed_number, trimmed, trimmed_end, trimmed_start, unsigned_number};

verus! {

/// Whether a text has another one in it.
pub open spec fn mentions(text: Seq<char>, part: Seq<char>) -> bool {
    exists|i: int|
        0 <= i <= text.len() - part.len() && #[trigger] text.subrange(i, i + part.len()) == part
}

/// A text has in it what it is put together from.
pub proof fn lemma_mentions(front: Seq<char>, part: Seq<char>, behind: Seq<char>)
    ensures
        mentions(front + part + behind, part),
{
    let text = front + part + behind;
    let i = front.len() as int;
    assert(text.subrange(i, i + part.len()) =~= part);
}

/// What a text has in it, it has in it when more stands behind.
proof fn lemma_mentions_more(text: Seq<char>, part: Seq<char>, more: Seq<char>)
    requires
        mentions(text, part),
    ensures
        mentions(text + more, part),
{
    let i = choose|i: int|
        0 <= i <= text.len() - part.len() && #[trigger] text.subrange(i, i + part.len()) == part;
    assert((text + more).subrange(i, i + part.len()) =~= text.subrange(i, i + part.len()));
}

/// The first `k` pieces of a text, one behind the other.
pub open spec fn run_together(parts: Seq<Seq<char>>, k: int) -> Seq<char>
    decreases k,
{
    if k <= 0 {
        Seq::empty()
    } else {
        run_together(parts, k - 1) + parts[k - 1]
    }
}

/// A text has in it any three neighbours of the pieces it is put together from.
pub proof fn lemma_mentions_neighbours(parts: Seq<Seq<char>>, i: int, k: int)
    requires
        0 <= i,
        i + 3 <= k <= parts.len(),
    ensures
        mentions(run_together(parts, k), parts[i] + parts[i + 1] + parts[i + 2]),
    decreases k,
{
    let part = parts[i] + parts[i + 1] + parts[i + 2];
    if k == i + 3 {
        let front = run_together(parts, i);
        assert(run_together(parts, i + 1) == front + parts[i]);
        assert(run_together(parts, i + 2) == front + parts[i] + parts[i + 1]);
        assert(run_together(parts, k) =~= front + part + Seq::<char>::empty());
        lemma_mentions(front, part, Seq::empty());
    } else {
        lemma_mentions_neighbours(parts, i, k - 1);
        lemma_mentions_more(run_together(parts, k - 1), part, parts[k - 1]);
    }
}

/// Characters as the numbers that decimal digits stand for.
pub open spec fn digit_numbers(text: Seq<char>) -> Seq<int> {
    Seq::new(text.len(), |i: int| text[i] as int - '0' as int)
}

/// A numeral is a sum: each digit counts ten times what the one behind it does.
pub proof fn law_a_numeral_is_decimal(text: Seq<char>)
    requires
        forall|i: int| 0 <= i < text.len() ==> is_digit(#[trigger] text[i]),
    ensures
        digits_value(text) == weighed(digit_numbers(text), 10),
    decreases text.len(),
{
    if text.len() > 0 {
        let front = text.drop_last();
        assert forall|i: int| 0 <= i < front.len() implies is_digit(#[trigger] front[i]) by {
            assert(front[i] == text[i]);
        }
        law_a_numeral_is_decimal(front);
        let digit = text.last() as int - '0' as int;
        assert(digit_numbers(text) =~= digit_numbers(front).push(digit));
        lemma_weighed_push(digit_numbers(front), digit, 10);
        assert(is_digit(text[text.len() - 1]));
    }
}

/// Numbers that are written out are read back, with a sign in front or not.
pub proof fn law_a_written_number_is_read_back(n: int)
    ensures
        signed_number(signed_decimal(n)) == Some(n),
        n >= 0 ==> unsigned_number(decimal(n as nat)) == Some(n as nat),
        n >= 0 ==> unsigned_number(seq!['+'] + decimal(n as nat)) == Some(n as nat),
        n >= 0 ==> signed_number(seq!['+'] + decimal(n as nat)) == Some(n),
        n < 0 ==> unsigned_number(signed_decimal(n)) is None,
{
    law_a_signed_number_reads_back(n);
    let text = signed_decimal(n);
    if n >= 0 {
        let digits = decimal(n as nat);
        lemma_decimal_is_numeral(n as nat);
        assert(is_digit(digits[0]));
        assert((seq!['+'] + digits).skip(1) =~= digits);
    } else {
        assert(text[0] == '-');
        assert(!is_digit(text[0]));
    }
}

/// Whether a text is characters from `0` to `9` and nothing else.
pub open spec fn is_run_of_digits(text: Seq<char>) -> bool {
    text.len() > 0 && forall|i: int|
        0 <= i < text.len() ==> 48 <= #[trigger] text[i] as int && text[i] as int <= 57
}

/// Only a run of digits, with one sign in front or none, is a number.
pub proof fn law_only_digits_are_a_number(text: Seq<char>)
    ensures
        signed_number(text) is Some <==> is_run_of_digits(
            if text.len() > 0 && (text[0] == '-' || text[0] == '+') {
                text.skip(1)
            } else {
                text
            },
        ),
        unsigned_number(text) is Some <==> signed_number(text) is Some && text[0] != '-',
{
    let body = if text.len() > 0 && (text[0] == '-' || text[0] == '+') {
        text.skip(1)
    } else {
        text
    };
    if is_numeral(body) {
        assert forall|i: int| 0 <= i < body.len() implies 48 <= #[trigger] body[i] as int
            && body[i] as int <= 57 by {
            assert(is_digit(body[i]));
        }
    }
    if is_run_of_digits(body) {
        assert forall|i: int| 0 <= i < body.len() implies is_digit(#[trigger] body[i]) by {
            assert(48 <= body[i] as int);
        }
    }
    if text.len() > 0 && text[0] == '-' {
        assert(!is_digit(text[0]));
    }
}

/// The number that a hexadecimal digit stands for.
pub open spec fn hex_number(c: char) -> int {
    if '0' <= c <= '9' {
        c as int - '0' as int
    } else {
        c as int - 'a' as int + 10
    }
}

/// Hexadecimal reads back: two digits a byte, in lower case, the higher one
/// first.
pub proof fn law_hexadecimal_reads_back(bytes: Seq<u8>, i: int)
    requires
        0 <= i < bytes.len(),
    ensures
        hex_bytes(bytes).len() == 2 * bytes.len(),
        ({
            let high = hex_bytes(bytes)[2 * i];
            let low = hex_bytes(bytes)[2 * i + 1];
            &&& '0' <= high <= '9' || 'a' <= high <= 'f'
            &&& '0' <= low <= '9' || 'a' <= low <= 'f'
            &&& hex_number(high) * 16 + hex_number(low) == bytes[i]
        }),
{
    assert((2 * i) / 2 == i);
    assert((2 * i + 1) / 2 == i);
    assert((2 * i + 1) % 2 == 1);
    assert((2 * i) % 2 == 0);
    assert(bytes[i] / 16 < 16);
}

/// Which characters are control characters, and which are white space, by
/// their code points.
pub proof fn law_which_characters_are_blank(c: char)
    ensures
        is_control(c) <==> (c as int) < 32 || 127 <= c as int <= 159,
        c as int <= 127 ==> (is_space(c) <==> 9 <= c as int <= 13 || c as int == 32),
        is_space(c) && c as int > 127 ==> c as int == 0x85 || c as int == 0xa0 || c as int == 0x1680
            || 0x2000 <= c as int <= 0x200a || c as int == 0x2028 || c as int == 0x2029 || c as int
            == 0x202f || c as int == 0x205f || c as int == 0x3000,
        c as int == 0x85 || c as int == 0xa0 || c as int == 0x3000 ==> is_space(c),
{
}

/// Whether a text is all white space.
pub open spec fn is_blank(text: Seq<char>) -> bool {
    forall|i: int| 0 <= i < text.len() ==> is_space(#[trigger] text[i])
}

/// Trimming takes the white space off both ends and nothing else: text that has
/// none at its ends is what is left of it, whatever blanks stand around it.
pub proof fn law_trimming_takes_the_blanks_around(
    front: Seq<char>,
    text: Seq<char>,
    behind: Seq<char>,
)
    requires
        is_blank(front),
        is_blank(behind),
        text.len() > 0 ==> !is_space(text[0]) && !is_space(text.last()),
    ensures
        trimmed(front + text + behind) == text,
        trimmed_end(text + behind) == text,
        text.len() > 0 ==> trimmed_start(front + text) == text,
{
    lemma_front_goes(front, text + behind);
    assert(front + text + behind =~= front + (text + behind));
    lemma_back_goes(text, behind);
    if text.len() > 0 {
        assert((text + behind)[0] == text[0]);
        assert(trimmed_start(text + behind) == text + behind);
        lemma_front_goes(front, text);
        assert(trimmed_start(text) == text);
    } else {
        assert(text + behind =~= behind);
        lemma_front_goes(behind, Seq::empty());
        assert(behind + Seq::<char>::empty() =~= behind);
        assert(trimmed_start(Seq::<char>::empty()) =~= Seq::<char>::empty());
        assert(trimmed_end(Seq::<char>::empty()) =~= Seq::<char>::empty());
        assert(text =~= Seq::<char>::empty());
    }
}

/// Blanks in front go.
pub proof fn lemma_front_goes(front: Seq<char>, rest: Seq<char>)
    requires
        is_blank(front),
    ensures
        trimmed_start(front + rest) == trimmed_start(rest),
    decreases front.len(),
{
    if front.len() > 0 {
        let less = front.skip(1);
        assert((front + rest)[0] == front[0]);
        assert((front + rest).skip(1) =~= less + rest);
        assert forall|i: int| 0 <= i < less.len() implies is_space(#[trigger] less[i]) by {
            assert(less[i] == front[i + 1]);
        }
        lemma_front_goes(less, rest);
    } else {
        assert(front + rest =~= rest);
    }
}

/// Blanks behind go.
proof fn lemma_back_goes(text: Seq<char>, behind: Seq<char>)
    requires
        is_blank(behind),
        text.len() > 0 ==> !is_space(text.last()),
    ensures
        trimmed_end(text + behind) == text,
    decreases behind.len(),
{
    if behind.len() > 0 {
        let less = behind.drop_last();
        let all = text + behind;
        assert(all.last() == behind[behind.len() - 1]);
        assert(all.drop_last() =~= text + less);
        assert forall|i: int| 0 <= i < less.len() implies is_space(#[trigger] less[i]) by {
            assert(less[i] == behind[i]);
        }
        lemma_back_goes(text, less);
    } else {
        assert(text + behind =~= text);
    }
}

/// The place found is the first one.
proof fn lemma_first_place(s: Seq<char>, c: char, from: int, at: int)
    requires
        0 <= from <= at < s.len(),
        s[at] == c,
        forall|i: int| from <= i < at ==> #[trigger] s[i] != c,
    ensures
        place_of(s, c, from) == at,
    decreases at - from,
{
    if from < at {
        lemma_first_place(s, c, from + 1, at);
    }
}

/// A character that stands nowhere is found nowhere.
proof fn lemma_no_place(s: Seq<char>, c: char, from: int)
    requires
        0 <= from <= s.len(),
        forall|i: int| from <= i < s.len() ==> #[trigger] s[i] != c,
    ensures
        place_of(s, c, from) == s.len(),
    decreases s.len() - from,
{
    if from < s.len() {
        lemma_no_place(s, c, from + 1);
    }
}

/// A text is cut into lines at its newlines, and nowhere else; a carriage
/// return in front of a newline goes with it. A newline at the end of a text
/// starts no further line.
pub proof fn law_a_text_is_cut_at_its_newlines(line: Seq<char>, rest: Seq<char>)
    requires
        forall|i: int| 0 <= i < line.len() ==> #[trigger] line[i] != '\n',
        line.len() > 0 ==> line.last() != '\r',
    ensures
        lines(line + seq!['\n'] + rest) == seq![line] + lines(rest),
        lines(line + seq!['\r', '\n'] + rest) == seq![line] + lines(rest),
        line.len() > 0 ==> lines(line) == seq![line],
        lines(Seq::empty()) == Seq::<Seq<char>>::empty(),
{
    let all = line + seq!['\n'] + rest;
    let n = line.len() as int;
    lemma_first_place(all, '\n', 0, n);
    assert(all.take(n) =~= line);
    assert(all.skip(n + 1) =~= rest);
    let other = line + seq!['\r', '\n'] + rest;
    assert forall|i: int| 0 <= i < n + 1 implies #[trigger] other[i] != '\n' by {
        if i < n {
            assert(other[i] == line[i]);
        }
    }
    lemma_first_place(other, '\n', 0, n + 1);
    assert(other.take(n + 1).last() == '\r');
    assert(other.take(n + 1).drop_last() =~= line);
    assert(other.skip(n + 2) =~= rest);
    lemma_no_place(line, '\n', 0);
}

/// Pieces are joined in order, with the separator between neighbours and at
/// neither end.
pub proof fn law_pieces_are_joined_in_order(
    parts: Seq<Seq<char>>,
    part: Seq<char>,
    separator: Seq<char>,
)
    ensures
        joined(Seq::empty(), separator) == Seq::<char>::empty(),
        joined(seq![part], separator) == part,
        parts.len() > 0 ==> joined(parts.push(part), separator) == joined(parts, separator)
            + separator + part,
        parts.len() > 0 ==> joined(seq![part] + parts, separator) == part + separator + joined(
            parts,
            separator,
        ),
    decreases parts.len(),
{
    if parts.len() > 0 {
        assert(parts.push(part).drop_last() =~= parts);
        let all = seq![part] + parts;
        assert(all.drop_last() =~= seq![part] + parts.drop_last());
        if parts.len() > 1 {
            law_pieces_are_joined_in_order(parts.drop_last(), part, separator);
            assert(all.last() == parts.last());
            assert(joined(all, separator) =~= part + separator + joined(parts, separator));
        } else {
            assert(all.drop_last() =~= seq![part]);
            assert(joined(seq![part], separator) == part);
            assert(joined(parts, separator) == parts[0]);
            assert(all.last() == parts[0]);
            assert(joined(all, separator) =~= part + separator + joined(parts, separator));
        }
    }
}

/// Texts are ordered by the first character in which they differ, and a text
/// comes before any that goes on where it ends.
pub proof fn law_texts_are_ordered_by_the_first_difference(
    common: Seq<char>,
    a: char,
    b: char,
    one: Seq<char>,
    other: Seq<char>,
)
    ensures
        (a as int) < (b as int) ==> precedes(
            common + seq![a] + one,
            common + seq![b] + other,
        ) && !precedes(common + seq![b] + other, common + seq![a] + one),
        precedes(common, common + seq![b] + other),
        !precedes(common + seq![b] + other, common),
{
    let k = common.len() as int;
    let x = common + seq![a] + one;
    let y = common + seq![b] + other;
    if (a as int) < (b as int) {
        assert(x[k] == a && y[k] == b);
        assert(parts_before(x, y, k));
        if precedes(y, x) {
            lemma_precedes_is_transitive(x, y, x);
            lemma_precedes_is_strict(x);
        }
    }
    assert(y[k] == b);
    assert(parts_before(common, y, k));
    if precedes(y, common) {
        lemma_precedes_is_transitive(common, y, common);
        lemma_precedes_is_strict(common);
    }
}

} // verus!
