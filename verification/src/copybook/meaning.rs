//! What a copybook says about the bytes of a record, clause by clause.

use vstd::prelude::*;
use crate::copybook::cards::{lemma_place_passes, lemma_place_shifts, lemma_place_stays};
use crate::copybook::picture::{described, digits_in, expanded, first_edited, has_point,
    is_character_symbol, is_numeric_symbol, repeat_at, run_of, scale_in, symbol_fault,
    symbols_fault, Usage, MAX_RECORD_SYMBOLS};
use crate::decode::lemma_decimal_is_numeral;
use crate::error::Failure;
use crate::layout::FieldKind;
use crate::text::{bounded_number, decimal, is_digit, lemma_place_of, place_of, unsigned_number};

verus! {

/// Where reading a picture goes on behind a part of it that is whole.
proof fn lemma_front_expands(a: Seq<char>, b: Seq<char>, label: Seq<char>, i: int, before: Seq<char>)
    requires
        0 <= i <= a.len(),
        b.len() > 0 ==> b[0] != '(',
        expanded(a, label, i, before) is Ok,
    ensures
        expanded(a + b, label, i, before) == expanded(
            a + b,
            label,
            a.len() as int,
            expanded(a, label, i, before)->Ok_0,
        ),
    decreases a.len() - i,
{
    let all = a + b;
    if i < a.len() {
        assert(all[i] == a[i]);
        assert(i + 1 < a.len() ==> all[i + 1] == a[i + 1]);
        if i + 1 < a.len() && a[i + 1] == '(' {
            lemma_place_of(a, ')', i + 2);
            lemma_place_stays(a, b, ')', i + 2);
            let close = place_of(a, ')', i + 2);
            assert(all.subrange(i + 2, close) =~= a.subrange(i + 2, close));
        }
        assert(repeat_at(all, label, i) == repeat_at(a, label, i));
        let (count, next) = repeat_at(a, label, i)->Ok_0;
        assert(i < next <= a.len());
        lemma_front_expands(a, b, label, next, before + run_of(a[i], count));
    }
}

/// Reading the rest of a picture gives what it gives by itself, behind what is
/// already there.
proof fn lemma_back_expands(
    a: Seq<char>,
    b: Seq<char>,
    label: Seq<char>,
    i: int,
    front: Seq<char>,
    before: Seq<char>,
)
    requires
        0 <= i <= b.len(),
        expanded(b, label, i, before) is Ok,
        front.len() + expanded(b, label, i, before)->Ok_0.len() <= MAX_RECORD_SYMBOLS,
    ensures
        expanded(a + b, label, a.len() + i, front + before) == Ok::<Seq<char>, Failure>(
            front + expanded(b, label, i, before)->Ok_0,
        ),
        before.len() <= expanded(b, label, i, before)->Ok_0.len(),
    decreases b.len() - i,
{
    let all = a + b;
    let at = a.len() + i;
    if i < b.len() {
        assert(all[at] == b[i]);
        assert(i + 1 < b.len() ==> all[at + 1] == b[i + 1]);
        if i + 1 < b.len() && b[i + 1] == '(' {
            lemma_place_of(b, ')', i + 2);
            lemma_place_shifts(a, b, ')', i + 2);
            let close = place_of(b, ')', i + 2);
            assert(all.subrange(at + 2, a.len() + close) =~= b.subrange(i + 2, close));
        }
        let (count, next) = repeat_at(b, label, i)->Ok_0;
        assert(repeat_at(all, label, at) == Ok::<(nat, int), Failure>((count, a.len() + next)));
        let symbols = before + run_of(b[i], count);
        assert(front + before + run_of(b[i], count) =~= front + symbols);
        lemma_back_expands(a, b, label, next, front, symbols);
    }
}

/// Pictures join: the symbols of two pictures one behind the other are those of
/// the first and then those of the second.
pub proof fn law_pictures_join(
    a: Seq<char>,
    b: Seq<char>,
    label: Seq<char>,
    first: Seq<char>,
    second: Seq<char>,
)
    requires
        expanded(a, label, 0, Seq::empty()) == Ok::<Seq<char>, Failure>(first),
        expanded(b, label, 0, Seq::empty()) == Ok::<Seq<char>, Failure>(second),
        b.len() > 0 ==> b[0] != '(',
        first.len() + second.len() <= 65_536,
    ensures
        expanded(a + b, label, 0, Seq::empty()) == Ok::<Seq<char>, Failure>(first + second),
{
    lemma_front_expands(a, b, label, 0, Seq::empty());
    lemma_back_expands(a, b, label, 0, first, Seq::empty());
    assert(first + Seq::<char>::empty() =~= first);
}

/// A symbol with a number in brackets behind it.
pub open spec fn repeated(symbol: char, count: nat) -> Seq<char> {
    seq![symbol, '('] + decimal(count) + seq![')']
}

/// A repeat count repeats: a symbol with a number in brackets behind it stands
/// for that many of the symbol.
pub proof fn law_a_repeat_count_repeats(symbol: char, count: nat, label: Seq<char>)
    requires
        symbol != '(',
        1 <= count <= 65_536,
    ensures
        expanded(repeated(symbol, count), label, 0, Seq::empty()) == Ok::<Seq<char>, Failure>(
            Seq::new(count, |i: int| symbol),
        ),
{
    reveal_with_fuel(expanded, 2);
    let picture = repeated(symbol, count);
    let digits = decimal(count);
    let close = 2 + digits.len() as int;
    lemma_decimal_is_numeral(count);
    let front = seq![symbol, '('] + digits;
    assert(picture =~= seq![symbol, '('] + (digits + seq![')']));
    lemma_place_shifts(seq![symbol, '('], digits + seq![')'], ')', 0);
    assert forall|i: int| 0 <= i < digits.len() implies #[trigger] digits[i] != ')' by {
        assert(is_digit(digits[i]));
    }
    lemma_place_passes(digits, seq![')'], ')', 0);
    assert((digits + seq![')'])[digits.len() as int] == ')');
    assert(place_of(picture, ')', 2) == close);
    assert(picture.subrange(2, close) =~= digits);
    assert(digits[0] != '+') by {
        assert(is_digit(digits[0]));
    }
    assert(unsigned_number(digits) == Some(count));
    assert(bounded_number(digits, usize::MAX as nat) == Some(count));
    assert(repeat_at(picture, label, 0) == Ok::<(nat, int), Failure>((count, close + 1)));
    assert(Seq::<char>::empty() + run_of(symbol, count) =~= Seq::new(count, |i: int| symbol));
}

/// A symbol stands for itself.
pub proof fn law_a_symbol_stands_for_itself(symbol: char, label: Seq<char>)
    requires
        symbol != '(',
    ensures
        expanded(seq![symbol], label, 0, Seq::empty()) == Ok::<Seq<char>, Failure>(seq![symbol]),
{
    reveal_with_fuel(expanded, 2);
    assert(Seq::<char>::empty() + run_of(symbol, 1) =~= seq![symbol]);
}

/// How many nines there are among symbols.
pub open spec fn nines(symbols: Seq<char>) -> nat {
    symbols.filter(|c: char| c == '9').len()
}

/// The symbols behind the point, none when there is no point.
pub open spec fn behind_the_point(symbols: Seq<char>) -> Seq<char> {
    let point = place_of(symbols, 'V', 0);
    if point < symbols.len() {
        symbols.skip(point + 1)
    } else {
        Seq::empty()
    }
}

/// Counting nines from the front counts them all.
proof fn lemma_nines(symbols: Seq<char>, k: int)
    requires
        0 <= k <= symbols.len(),
    ensures
        digits_in(symbols, k) == nines(symbols.take(k)),
    decreases k,
{
    reveal(Seq::filter);
    if k > 0 {
        lemma_nines(symbols, k - 1);
        assert(symbols.take(k).drop_last() =~= symbols.take(k - 1));
        assert(symbols.take(k).last() == symbols[k - 1]);
    } else {
        assert(symbols.take(0) =~= Seq::<char>::empty());
    }
}

/// No nine counts in front of the first point.
proof fn lemma_no_scale(symbols: Seq<char>, k: int)
    requires
        0 <= k <= symbols.len(),
        k <= place_of(symbols, 'V', 0) + 1,
    ensures
        scale_in(symbols, k) == 0,
    decreases k,
{
    if k > 0 {
        lemma_no_scale(symbols, k - 1);
        lemma_before_place(symbols, 'V', 0);
        assert(!has_point(symbols, k - 1));
    }
}

/// A character does not stand in front of its first place.
proof fn lemma_before_place(s: Seq<char>, c: char, from: int)
    requires
        0 <= from <= s.len(),
    ensures
        forall|i: int| from <= i < place_of(s, c, from) ==> #[trigger] s[i] != c,
    decreases s.len() - from,
{
    if from < s.len() && s[from] != c {
        lemma_before_place(s, c, from + 1);
    }
}

/// Behind the first point every nine counts.
proof fn lemma_scale(symbols: Seq<char>, k: int)
    requires
        0 <= k <= symbols.len(),
        place_of(symbols, 'V', 0) < k,
    ensures
        scale_in(symbols, k) == nines(symbols.subrange(place_of(symbols, 'V', 0) + 1, k)),
    decreases k,
{
    reveal(Seq::filter);
    let point = place_of(symbols, 'V', 0);
    lemma_place_of(symbols, 'V', 0);
    if k == point + 1 {
        lemma_no_scale(symbols, k);
        assert(symbols.subrange(point + 1, k) =~= Seq::<char>::empty());
    } else {
        lemma_scale(symbols, k - 1);
        let part = symbols.subrange(point + 1, k);
        assert(part.drop_last() =~= symbols.subrange(point + 1, k - 1));
        assert(part.last() == symbols[k - 1]);
        assert(has_point(symbols, k - 1)) by {
            assert(symbols[point] == 'V');
        }
    }
}

/// Whether symbols are those of a stored number: nines, at most one point, and a
/// sign nowhere but at the front, with at least one nine.
pub open spec fn is_stored_number(symbols: Seq<char>) -> bool {
    &&& forall|i: int|
        0 <= i < symbols.len() ==> (#[trigger] symbols[i] == '9' || symbols[i] == 'V' || (
        symbols[i] == 'S' && i == 0))
    &&& forall|i: int, j: int|
        0 <= i < j < symbols.len() ==> !(#[trigger] symbols[i] == 'V' && #[trigger] symbols[j]
            == 'V')
    &&& nines(symbols) > 0
}

/// Whether symbols are those of stored characters: at least one `X` or `A`, and
/// nothing but those and nines.
pub open spec fn is_stored_text(symbols: Seq<char>) -> bool {
    &&& forall|i: int|
        0 <= i < symbols.len() ==> (#[trigger] symbols[i] == 'X' || symbols[i] == 'A' || symbols[i]
            == '9')
    &&& exists|i: int| 0 <= i < symbols.len() && (#[trigger] symbols[i] == 'X' || symbols[i] == 'A')
}

/// A picture of stored characters describes one byte per symbol, and may not be
/// computational. A picture of a stored number describes as many decimals as it
/// has nines behind its point, whatever the usage; on display one byte per nine,
/// packed one byte per two nines and the sign, binary two bytes up to four
/// nines, four up to nine, and eight up to eighteen, signed exactly when it
/// starts with an `S`. Nothing else describes bytes.
pub proof fn law_what_a_picture_describes(
    picture: Seq<char>,
    usage: Usage,
    label: Seq<char>,
    symbols: Seq<char>,
)
    requires
        expanded(picture, label, 0, Seq::empty()) == Ok::<Seq<char>, Failure>(symbols),
        symbols.len() <= 65_536,
    ensures
        match described(picture, usage, label) {
            Ok(field) => {
                let digits = nines(symbols);
                if is_stored_text(symbols) {
                    &&& usage == Usage::Display
                    &&& field.kind == FieldKind::Text
                    &&& field.size == symbols.len()
                    &&& field.scale == 0
                } else {
                    &&& is_stored_number(symbols)
                    &&& field.scale == nines(behind_the_point(symbols))
                    &&& match usage {
                        Usage::Display => {
                            &&& field.kind == FieldKind::ZonedDecimal
                            &&& field.size == digits
                        },
                        Usage::Packed => {
                            &&& field.kind == FieldKind::PackedDecimal
                            &&& field.size * 2 == digits + 1 || field.size * 2 == digits + 2
                        },
                        Usage::Binary => {
                            &&& field.kind == FieldKind::Integer <==> symbols[0] == 'S'
                            &&& field.kind == FieldKind::UnsignedInteger <==> symbols[0] != 'S'
                            &&& digits <= 18
                            &&& field.size == (if digits > 9 {
                                8int
                            } else if digits > 4 {
                                4int
                            } else {
                                2int
                            })
                        },
                    }
                }
            },
            Err(_) => {
                &&& is_stored_text(symbols) ==> usage != Usage::Display
                &&& is_stored_number(symbols) ==> usage == Usage::Binary && nines(symbols) > 18
            },
        },
{
    let n = symbols.len() as int;
    lemma_nines(symbols, n);
    assert(symbols.take(n) =~= symbols);
    lemma_place_of(symbols, 'V', 0);
    let point = place_of(symbols, 'V', 0);
    if point < n {
        lemma_scale(symbols, n);
        assert(symbols.subrange(point + 1, n) =~= symbols.skip(point + 1));
    } else {
        lemma_no_scale(symbols, n);
        lemma_no_nines();
    }
    lemma_scale_fits(symbols, n);
    lemma_symbols_fault(symbols, picture, label, 0);
    lemma_first_edited(symbols, 0);
    if symbols.len() == 0 {
        lemma_no_nines();
        assert(symbols =~= Seq::<char>::empty());
    }
    let has_character = exists|i: int|
        0 <= i < symbols.len() && is_character_symbol(#[trigger] symbols[i]);
    if has_character {
        let i = choose|i: int| 0 <= i < symbols.len() && is_character_symbol(#[trigger] symbols[i]);
        assert(!is_stored_number(symbols)) by {
            if is_stored_number(symbols) {
                assert(symbols[i] == '9' || symbols[i] == 'V' || symbols[i] == 'S');
            }
        }
        if is_stored_text(symbols) {
            assert forall|j: int| 0 <= j < symbols.len() implies !is_numeric_symbol(
                #[trigger] symbols[j],
            ) by {}
            let bad = first_edited(symbols, 0);
            if bad < symbols.len() {
                assert(symbols[bad] == 'X' || symbols[bad] == 'A' || symbols[bad] == '9');
            }
        } else if first_edited(symbols, 0) == symbols.len() {
            assert forall|j: int| 0 <= j < symbols.len() implies (#[trigger] symbols[j] == 'X'
                || symbols[j] == 'A' || symbols[j] == '9') by {}
            assert(symbols[i] == 'X' || symbols[i] == 'A');
            assert(is_stored_text(symbols));
        }
    } else {
        assert(!is_stored_text(symbols)) by {
            if is_stored_text(symbols) {
                let i = choose|i: int|
                    0 <= i < symbols.len() && (#[trigger] symbols[i] == 'X' || symbols[i] == 'A');
                assert(is_character_symbol(symbols[i]));
            }
        }
    }
}

/// There are no nines among no symbols.
proof fn lemma_no_nines()
    ensures
        nines(Seq::empty()) == 0,
{
    reveal(Seq::filter);
}

/// The counts of symbols are no larger than their number.
proof fn lemma_scale_fits(symbols: Seq<char>, k: int)
    requires
        0 <= k <= symbols.len(),
    ensures
        scale_in(symbols, k) <= digits_in(symbols, k) <= k,
    decreases k,
{
    if k > 0 {
        lemma_scale_fits(symbols, k - 1);
    }
}

/// The symbols of a numeric picture have no fault exactly when they are nines,
/// at most one point, and a sign at the front.
proof fn lemma_symbols_fault(
    symbols: Seq<char>,
    picture: Seq<char>,
    label: Seq<char>,
    from: int,
)
    requires
        0 <= from <= symbols.len(),
    ensures
        symbols_fault(symbols, picture, label, from) is None <==> {
            &&& forall|i: int|
                from <= i < symbols.len() ==> (#[trigger] symbols[i] == '9' || symbols[i] == 'V'
                    || (symbols[i] == 'S' && i == 0))
            &&& forall|i: int, j: int|
                0 <= i < j < symbols.len() && from <= j ==> !(#[trigger] symbols[i] == 'V'
                    && #[trigger] symbols[j] == 'V')
        },
    decreases symbols.len() - from,
{
    if from < symbols.len() {
        lemma_symbols_fault(symbols, picture, label, from + 1);
        let c = symbols[from];
        if symbol_fault(symbols, picture, label, from) is None {
            if c == 'V' {
                assert forall|i: int| 0 <= i < from implies #[trigger] symbols[i] != 'V' by {
                    assert(!has_point(symbols, from));
                }
            }
            assert(c == '9' || c == 'V' || (c == 'S' && from == 0));
        } else if c == 'V' {
            let i = choose|i: int| 0 <= i < from && #[trigger] symbols[i] == 'V';
            assert(symbols[i] == 'V' && symbols[from] == 'V');
        } else {
            assert(!(symbols[from] == '9' || symbols[from] == 'V' || (symbols[from] == 'S' && from
                == 0)));
        }
    }
}

/// The first symbol that no stored character item has.
proof fn lemma_first_edited(symbols: Seq<char>, from: int)
    requires
        0 <= from <= symbols.len(),
    ensures
        from <= first_edited(symbols, from) <= symbols.len(),
        first_edited(symbols, from) < symbols.len() ==> {
            let c = symbols[first_edited(symbols, from)];
            c != 'X' && c != 'A' && c != '9'
        },
        forall|i: int|
            from <= i < first_edited(symbols, from) ==> (#[trigger] symbols[i] == 'X' || symbols[i]
                == 'A' || symbols[i] == '9'),
    decreases symbols.len() - from,
{
    if from < symbols.len() && (is_character_symbol(symbols[from]) || symbols[from] == '9') {
        lemma_first_edited(symbols, from + 1);
    }
}

/// A run of nines.
pub open spec fn nine_times(n: nat) -> Seq<char> {
    Seq::new(n, |i: int| '9')
}

/// The symbols of a number with some nines in front of its point and some
/// behind it.
pub open spec fn number_symbols(signed: bool, whole: nat, part: nat) -> Seq<char> {
    (if signed {
        seq!['S']
    } else {
        Seq::empty()
    }) + nine_times(whole) + (if part > 0 {
        seq!['V'] + nine_times(part)
    } else {
        Seq::empty()
    })
}

/// The picture of a number with some nines in front of its point and some
/// behind it, written with repeat counts: `S9(5)V9(2)` and the like.
pub open spec fn number_picture(signed: bool, whole: nat, part: nat) -> Seq<char> {
    (if signed {
        seq!['S']
    } else {
        Seq::empty()
    }) + repeated('9', whole) + (if part > 0 {
        seq!['V'] + repeated('9', part)
    } else {
        Seq::empty()
    })
}

/// How many nines a run of them has.
proof fn lemma_all_nines(n: nat)
    ensures
        nines(nine_times(n)) == n,
    decreases n,
{
    reveal(Seq::filter);
    if n > 0 {
        lemma_all_nines((n - 1) as nat);
        assert(nine_times(n).drop_last() =~= nine_times((n - 1) as nat));
        assert(nine_times(n).last() == '9');
    }
}

/// Nines in two runs are those of both.
proof fn lemma_nines_join(a: Seq<char>, b: Seq<char>)
    ensures
        nines(a + b) == nines(a) + nines(b),
    decreases b.len(),
{
    reveal(Seq::filter);
    if b.len() == 0 {
        assert(a + b =~= a);
    } else {
        assert((a + b).drop_last() =~= a + b.drop_last());
        lemma_nines_join(a, b.drop_last());
    }
}

/// A picture with `n` nines behind its point has scale `n`, in every usage, and
/// none without a point: `[S]9(m)V9(n)` is a number of `m + n` digits, of which
/// `n` are decimals, stored on display in as many bytes, packed in half as many
/// and a sign, and binary in two, four or eight.
pub proof fn law_the_decimals_stand_behind_the_point(
    signed: bool,
    whole: nat,
    part: nat,
    usage: Usage,
    label: Seq<char>,
)
    requires
        whole > 0,
        whole + part <= 65_000,
        usage == Usage::Binary ==> whole + part <= 18,
    ensures
        described(number_picture(signed, whole, part), usage, label) matches Ok(field) && {
            &&& field.scale == part
            &&& match usage {
                Usage::Display => field.kind == FieldKind::ZonedDecimal && field.size == whole
                    + part,
                Usage::Packed => field.kind == FieldKind::PackedDecimal && field.size == (whole
                    + part) / 2 + 1,
                Usage::Binary => {
                    &&& field.kind == (if signed {
                        FieldKind::Integer
                    } else {
                        FieldKind::UnsignedInteger
                    })
                    &&& field.size == (if whole + part <= 4 {
                        2int
                    } else if whole + part <= 9 {
                        4int
                    } else {
                        8int
                    })
                },
            }
        },
{
    let picture = number_picture(signed, whole, part);
    let symbols = number_symbols(signed, whole, part);
    lemma_number_expands(signed, whole, part, label);
    let sign = if signed {
        seq!['S']
    } else {
        Seq::empty()
    };
    let tail = if part > 0 {
        seq!['V'] + nine_times(part)
    } else {
        Seq::empty()
    };
    lemma_all_nines(whole);
    lemma_all_nines(part);
    lemma_nines_join(sign, nine_times(whole));
    lemma_nines_join(sign + nine_times(whole), tail);
    lemma_nines_join(seq!['V'], nine_times(part));
    lemma_no_nines();
    lemma_one_symbol('S');
    lemma_one_symbol('V');
    let front = sign + nine_times(whole);
    assert(symbols =~= front + tail);
    assert forall|i: int| 0 <= i < front.len() implies #[trigger] front[i] != 'V' by {}
    lemma_place_passes(front, tail, 'V', 0);
    lemma_place_shifts(front, tail, 'V', 0);
    if part > 0 {
        assert(tail[0] == 'V');
        assert(place_of(symbols, 'V', 0) == front.len());
        assert(symbols.skip(front.len() as int + 1) =~= nine_times(part));
    } else {
        assert(tail.len() == 0);
        assert(place_of(symbols, 'V', 0) == symbols.len());
    }
    assert(is_stored_number(symbols));
    assert(!is_stored_text(symbols)) by {
        assert forall|i: int| 0 <= i < symbols.len() implies #[trigger] symbols[i] != 'X'
            && symbols[i] != 'A' by {}
    }
    law_what_a_picture_describes(picture, usage, label, symbols);
}

/// One symbol is a nine or none.
proof fn lemma_one_symbol(c: char)
    ensures
        nines(seq![c]) == (if c == '9' {
            1nat
        } else {
            0nat
        }),
{
    reveal(Seq::filter);
    assert(seq![c].drop_last() =~= Seq::<char>::empty());
    lemma_no_nines();
}

/// What the picture of a number stands for.
proof fn lemma_number_expands(signed: bool, whole: nat, part: nat, label: Seq<char>)
    requires
        whole > 0,
        whole + part <= 65_000,
    ensures
        expanded(number_picture(signed, whole, part), label, 0, Seq::empty()) == Ok::<
            Seq<char>,
            Failure,
        >(number_symbols(signed, whole, part)),
{
    let sign = if signed {
        seq!['S']
    } else {
        Seq::empty()
    };
    law_a_symbol_stands_for_itself('S', label);
    law_a_symbol_stands_for_itself('V', label);
    law_a_repeat_count_repeats('9', whole, label);
    law_pictures_join(sign, repeated('9', whole), label, sign, nine_times(whole));
    let front = sign + repeated('9', whole);
    let symbols = sign + nine_times(whole);
    if part > 0 {
        law_a_repeat_count_repeats('9', part, label);
        law_pictures_join(seq!['V'], repeated('9', part), label, seq!['V'], nine_times(part));
        law_pictures_join(
            front,
            seq!['V'] + repeated('9', part),
            label,
            symbols,
            seq!['V'] + nine_times(part),
        );
    } else {
        assert(front + Seq::<char>::empty() =~= front);
        assert(symbols + Seq::<char>::empty() =~= symbols);
    }
}

/// A character picture `X(n)` is `n` bytes of text.
pub proof fn law_a_character_picture_is_its_length(count: nat, label: Seq<char>)
    requires
        1 <= count <= 65_536,
    ensures
        described(repeated('X', count), Usage::Display, label) matches Ok(field) && {
            &&& field.kind == FieldKind::Text
            &&& field.size == count
            &&& field.scale == 0
        },
{
    let symbols = Seq::new(count, |i: int| 'X');
    law_a_repeat_count_repeats('X', count, label);
    assert(symbols[0] == 'X');
    assert(is_stored_text(symbols));
    law_what_a_picture_describes(repeated('X', count), Usage::Display, label, symbols);
}

/// Whether symbols are all of the kind that numbers are stored with.
pub open spec fn has_number_symbols(symbols: Seq<char>) -> bool {
    forall|i: int|
        0 <= i < symbols.len() ==> (#[trigger] symbols[i] == '9' || symbols[i] == 'V' || symbols[i]
            == 'S')
}

/// Why a picture is refused. What is wrong in itself is invalid: a character
/// item that is computational, character symbols beside those of numbers, and
/// symbols of a number out of order or without a digit. What this build does
/// not decode is unsupported: binary numbers of more than eighteen digits, and
/// pictures that say how a value is printed.
pub proof fn law_why_a_picture_is_refused(
    picture: Seq<char>,
    usage: Usage,
    label: Seq<char>,
    symbols: Seq<char>,
)
    requires
        expanded(picture, label, 0, Seq::empty()) == Ok::<Seq<char>, Failure>(symbols),
        symbols.len() <= 65_536,
    ensures
        described(picture, usage, label) matches Err(failure) ==> {
            let characters = exists|i: int|
                0 <= i < symbols.len() && (#[trigger] symbols[i] == 'X' || symbols[i] == 'A');
            let numbers = exists|i: int|
                0 <= i < symbols.len() && (#[trigger] symbols[i] == 'S' || symbols[i] == 'V'
                    || symbols[i] == 'P');
            &&& symbols.len() == 0 ==> failure is Invalid
            &&& is_stored_text(symbols) ==> failure is Invalid
            &&& characters && numbers ==> failure is Invalid
            &&& characters && !numbers && !is_stored_text(symbols) ==> failure is Unsupported
            &&& !characters && has_number_symbols(symbols) && !is_stored_number(symbols)
                ==> failure is Invalid
            &&& is_stored_number(symbols) ==> failure is Unsupported
            &&& symbols.len() > 0 && !characters && symbols[0] != 'S' && symbols[0] != 'V'
                && symbols[0] != '9' ==> failure is Unsupported
        },
{
    law_what_a_picture_describes(picture, usage, label, symbols);
    let n = symbols.len() as int;
    lemma_first_edited(symbols, 0);
    lemma_symbols_fault(symbols, picture, label, 0);
    lemma_nines(symbols, n);
    assert(symbols.take(n) =~= symbols);
    let characters = exists|i: int|
        0 <= i < symbols.len() && (#[trigger] symbols[i] == 'X' || symbols[i] == 'A');
    let has_character = exists|i: int|
        0 <= i < symbols.len() && is_character_symbol(#[trigger] symbols[i]);
    assert(characters == has_character) by {
        if characters {
            let i = choose|i: int|
                0 <= i < symbols.len() && (#[trigger] symbols[i] == 'X' || symbols[i] == 'A');
            assert(is_character_symbol(symbols[i]));
        }
        if has_character {
            let i = choose|i: int|
                0 <= i < symbols.len() && is_character_symbol(#[trigger] symbols[i]);
            assert(symbols[i] == 'X' || symbols[i] == 'A');
        }
    }
    let numbers = exists|i: int|
        0 <= i < symbols.len() && (#[trigger] symbols[i] == 'S' || symbols[i] == 'V' || symbols[i]
            == 'P');
    let has_numeric = exists|i: int|
        0 <= i < symbols.len() && is_numeric_symbol(#[trigger] symbols[i]);
    assert(numbers == has_numeric) by {
        if numbers {
            let i = choose|i: int|
                0 <= i < symbols.len() && (#[trigger] symbols[i] == 'S' || symbols[i] == 'V'
                    || symbols[i] == 'P');
            assert(is_numeric_symbol(symbols[i]));
        }
        if has_numeric {
            let i = choose|i: int|
                0 <= i < symbols.len() && is_numeric_symbol(#[trigger] symbols[i]);
            assert(symbols[i] == 'S' || symbols[i] == 'V' || symbols[i] == 'P');
        }
    }
    if !characters && has_number_symbols(symbols) {
        lemma_number_symbols_are_invalid(symbols, picture, label, 0);
    }
}

/// Symbols of numbers are out of order as invalid.
proof fn lemma_number_symbols_are_invalid(
    symbols: Seq<char>,
    picture: Seq<char>,
    label: Seq<char>,
    from: int,
)
    requires
        0 <= from <= symbols.len(),
        has_number_symbols(symbols),
    ensures
        symbols_fault(symbols, picture, label, from) matches Some(failure) ==> failure is Invalid,
    decreases symbols.len() - from,
{
    if from < symbols.len() {
        assert(symbols[from] == '9' || symbols[from] == 'V' || symbols[from] == 'S');
        lemma_number_symbols_are_invalid(symbols, picture, label, from + 1);
    }
}

/// A repeat count has to be a number from 1 to 65,536 in brackets behind a
/// symbol; anything else is invalid.
pub proof fn law_a_repeat_count_is_a_number(
    symbol: char,
    digits: Seq<char>,
    rest: Seq<char>,
    label: Seq<char>,
)
    requires
        symbol != '(',
        forall|i: int| 0 <= i < digits.len() ==> #[trigger] digits[i] != ')',
    ensures
        ({
            let picture = seq![symbol, '('] + digits + seq![')'] + rest;
            match repeat_at(picture, label, 0) {
                Ok((count, next)) => {
                    &&& unsigned_number(digits) == Some(count)
                    &&& 1 <= count <= 65_536
                    &&& next == digits.len() + 3
                },
                Err(failure) => {
                    &&& failure is Invalid
                    &&& unsigned_number(digits) matches Some(count) ==> count == 0 || count
                        > 65_536 || digits.len() == 0
                },
            }
        }),
        repeat_at(seq![symbol, '('] + digits, label, 0) matches Err(failure) && failure is Invalid,
        repeat_at(seq!['('] + rest, label, 0) matches Err(failure) && failure is Invalid,
{
    let front = seq![symbol, '('];
    let picture = front + digits + seq![')'] + rest;
    let close = 2 + digits.len() as int;
    let behind = digits + (seq![')'] + rest);
    assert(picture =~= front + behind);
    lemma_place_shifts(front, behind, ')', 0);
    lemma_place_passes(digits, seq![')'] + rest, ')', 0);
    assert((seq![')'] + rest)[0] == ')');
    assert(behind[digits.len() as int] == ')');
    assert(place_of(picture, ')', 2) == close);
    assert(picture.subrange(2, close) =~= digits);
    let open = front + digits;
    lemma_place_of(open, ')', 2);
    let at = place_of(open, ')', 2);
    if at < open.len() {
        assert(open[at] == digits[at - 2]);
    }
    assert((seq!['('] + rest)[0] == '(');
}

} // verus!
