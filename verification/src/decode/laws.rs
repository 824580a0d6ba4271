//! What the bytes of a field mean, in plain arithmetic on them.

use vstd::prelude::*;
use vstd::arithmetic::div_mod::lemma_div_denominator;
use crate::decode::{big_endian, binary_content, byte_range, digit_run, distance, first_bad,
    first_place, is_positional, lemma_big_endian_range, lemma_byte_range, lemma_decimal_is_numeral,
    lemma_first_bad, lemma_leading_zeros, packed_content, packed_digits, padded_digits, rendered,
    text_content, without_controls, zoned_content, zoned_digits};
use crate::codec::{assigned, decoded, first_unassigned, CodePage};
use crate::error::Failure;
use crate::text::{decimal, digits_value, hex_bytes, hex_char, is_control, is_digit, is_numeral,
    is_space, lemma_trimmed, signed_decimal, trimmed, trimmed_end, trimmed_start};
use crate::text::laws::{lemma_mentions_neighbours, mentions, run_together};

verus! {

/// A power of a base.
pub open spec fn power(base: nat, n: nat) -> nat
    decreases n,
{
    if n == 0 {
        1
    } else {
        base * power(base, (n - 1) as nat)
    }
}

/// The sum of digits, each times the power of the base that its place has: the
/// first of `n` digits counts `base^(n-1)`, the last one 1.
pub open spec fn weighed(digits: Seq<int>, base: nat) -> int
    decreases digits.len(),
{
    if digits.len() == 0 {
        0
    } else {
        digits[0] * power(base, (digits.len() - 1) as nat) + weighed(digits.skip(1), base)
    }
}

/// Bytes as numbers.
pub open spec fn numbers(bytes: Seq<u8>) -> Seq<int> {
    Seq::new(bytes.len(), |i: int| bytes[i] as int)
}

/// The low halves of bytes.
pub open spec fn low_halves(bytes: Seq<u8>) -> Seq<int> {
    Seq::new(bytes.len(), |i: int| bytes[i] as int % 16)
}

/// The halves of bytes, the high one of each first.
pub open spec fn halves(bytes: Seq<u8>) -> Seq<int> {
    Seq::new(
        bytes.len() * 2,
        |k: int|
            if k % 2 == 0 {
                bytes[k / 2] as int / 16
            } else {
                bytes[k / 2] as int % 16
            },
    )
}

/// The decimal digit of a number that counts `10^place`.
pub open spec fn digit_at(n: nat, place: nat) -> int {
    (n as int / power(10, place) as int) % 10
}

/// Powers are positive.
pub proof fn lemma_power_positive(base: nat, n: nat)
    requires
        base > 0,
    ensures
        power(base, n) > 0,
    decreases n,
{
    if n > 0 {
        lemma_power_positive(base, (n - 1) as nat);
        assert(base * power(base, (n - 1) as nat) > 0) by (nonlinear_arith)
            requires
                base > 0,
                power(base, (n - 1) as nat) > 0,
        ;
    }
}

/// A higher power of a base is no smaller.
pub proof fn lemma_power_grows(base: nat, n: nat, m: nat)
    requires
        base > 0,
        n <= m,
    ensures
        power(base, n) <= power(base, m),
    decreases m,
{
    if n < m {
        lemma_power_grows(base, n, (m - 1) as nat);
        let below = power(base, (m - 1) as nat);
        assert(below <= base * below) by (nonlinear_arith)
            requires
                base > 0,
                below >= 0,
        ;
    }
}

/// One more digit behind the others.
pub proof fn lemma_weighed_push(digits: Seq<int>, digit: int, base: nat)
    ensures
        weighed(digits.push(digit), base) == weighed(digits, base) * base + digit,
    decreases digits.len(),
{
    let all = digits.push(digit);
    if digits.len() == 0 {
        assert(all.skip(1) =~= Seq::<int>::empty());
        assert(weighed(all.skip(1), base) == 0);
        assert(power(base, 0) == 1);
        assert(digit * 1 == digit);
        assert(0 * base == 0) by (nonlinear_arith);
    } else {
        let rest = digits.skip(1);
        assert(all.skip(1) =~= rest.push(digit));
        lemma_weighed_push(rest, digit, base);
        let first = digits[0];
        let place = power(base, (digits.len() - 1) as nat) as int;
        let sum = weighed(rest, base);
        assert(power(base, digits.len()) == base * place);
        assert(first * (base * place) + (sum * base + digit) == (first * place + sum) * base
            + digit) by (nonlinear_arith);
    }
}

/// The digits in front of the last one, and the last one.
proof fn lemma_weighed_last(digits: Seq<int>, base: nat)
    requires
        digits.len() > 0,
    ensures
        weighed(digits, base) == weighed(digits.drop_last(), base) * base + digits.last(),
{
    assert(digits.drop_last().push(digits.last()) =~= digits);
    lemma_weighed_push(digits.drop_last(), digits.last(), base);
}

/// Digits below the base weigh less than the next power of it.
pub proof fn lemma_weighed_range(digits: Seq<int>, base: nat)
    requires
        base > 0,
        forall|i: int| 0 <= i < digits.len() ==> 0 <= #[trigger] digits[i] < base,
    ensures
        0 <= weighed(digits, base) < power(base, digits.len()),
    decreases digits.len(),
{
    if digits.len() > 0 {
        let front = digits.drop_last();
        assert forall|i: int| 0 <= i < front.len() implies 0 <= #[trigger] front[i] < base by {
            assert(front[i] == digits[i]);
        }
        lemma_weighed_range(front, base);
        lemma_weighed_last(digits, base);
        let sum = weighed(front, base);
        let last = digits.last();
        let below = power(base, front.len()) as int;
        assert(0 <= sum * base + last < base * below) by (nonlinear_arith)
            requires
                0 <= sum <= below - 1,
                0 <= last < base,
        ;
    }
}

/// Bytes spell what they weigh.
pub proof fn lemma_big_endian_weighs(bytes: Seq<u8>)
    ensures
        big_endian(bytes) == weighed(numbers(bytes), 256),
    decreases bytes.len(),
{
    if bytes.len() > 0 {
        lemma_big_endian_weighs(bytes.drop_last());
        lemma_weighed_last(numbers(bytes), 256);
        assert(numbers(bytes).drop_last() =~= numbers(bytes.drop_last()));
    }
}

/// A run of digits spells what it weighs.
pub proof fn lemma_digit_run_weighs(digits: Seq<int>)
    requires
        forall|i: int| 0 <= i < digits.len() ==> 0 <= #[trigger] digits[i],
    ensures
        digit_run(digits) == weighed(digits, 10),
        weighed(digits, 10) >= 0,
    decreases digits.len(),
{
    if digits.len() > 0 {
        let front = digits.drop_last();
        assert forall|i: int| 0 <= i < front.len() implies 0 <= #[trigger] front[i] by {
            assert(front[i] == digits[i]);
        }
        lemma_digit_run_weighs(front);
        lemma_weighed_last(digits, 10);
    }
}

/// The number of values of some bytes is a power.
proof fn lemma_byte_range_is_power(n: nat)
    ensures
        byte_range(n) == power(256, n),
    decreases n,
{
    if n > 0 {
        lemma_byte_range_is_power((n - 1) as nat);
    }
}

/// A binary field is big-endian: of `n` bytes, the byte at `i` counts
/// `256^(n-1-i)`. An unsigned field is that sum, whatever its first byte; a
/// signed one is two's complement, `256^n` less when its top bit is set. A
/// field is refused exactly when it is empty, wider than sixteen bytes, or
/// unsigned and past the largest number.
pub proof fn law_binary_is_big_endian(bytes: Seq<u8>, signed: bool)
    ensures
        ({
            let n = bytes.len();
            let sum = weighed(numbers(bytes), 256);
            &&& sum >= 0
            &&& match binary_content(bytes, signed) {
                Ok(value) => {
                    &&& 0 < n <= 16
                    &&& !signed ==> value == sum && sum <= i128::MAX
                    &&& signed && bytes[0] < 128 ==> value == sum
                    &&& signed && bytes[0] >= 128 ==> value == sum - power(256, n)
                },
                Err(failure) => {
                    &&& failure is Invalid <==> n == 0
                    &&& failure is Unsupported <==> n > 16 || (n > 0 && !signed && sum
                        > i128::MAX)
                },
            }
        }),
{
    lemma_big_endian_weighs(bytes);
    lemma_byte_range_is_power(bytes.len());
    lemma_big_endian_range(bytes);
    if bytes.len() <= 16 {
        lemma_byte_range(bytes.len());
    }
}

/// A zoned field is decimal: of `n` bytes, the low half of the one at `i` counts
/// `10^(n-1-i)`, and the number is negative exactly when the high half of the
/// last byte is `b` or `d`. It is refused exactly when it is empty or one of the
/// low halves is no digit.
pub proof fn law_zoned_is_decimal(bytes: Seq<u8>)
    ensures
        ({
            let sum = weighed(low_halves(bytes), 10);
            match zoned_content(bytes) {
                Ok(value) => {
                    let sign = bytes.last() as int / 16;
                    &&& bytes.len() > 0
                    &&& forall|i: int| 0 <= i < bytes.len() ==> #[trigger] bytes[i] % 16 <= 9
                    &&& sign == 11 || sign == 13 ==> value == -sum
                    &&& sign != 11 && sign != 13 ==> value == sum
                },
                Err(failure) => {
                    &&& failure is Invalid
                    &&& bytes.len() == 0 || exists|i: int|
                        0 <= i < bytes.len() && #[trigger] bytes[i] % 16 > 9
                },
            }
        }),
{
    let digits = zoned_digits(bytes);
    assert(digits =~= low_halves(bytes));
    lemma_first_bad(digits, 0);
    let bad = first_bad(digits, 0);
    if bad < digits.len() {
        assert(bytes[bad] % 16 > 9);
    } else {
        assert forall|i: int| 0 <= i < bytes.len() implies #[trigger] bytes[i] % 16 <= 9 by {
            assert(digits[i] <= 9);
        }
    }
    lemma_digit_run_weighs(digits);
}

/// A packed field is decimal, two digits to a byte: every half but the last is
/// a digit, the high one of a byte in front, each counting ten times the next,
/// and the last half is the sign, negative exactly when it is `b` or `d`. It is
/// refused exactly when it is empty or one of those halves is no digit.
pub proof fn law_packed_is_decimal(bytes: Seq<u8>)
    ensures
        ({
            let sum = weighed(halves(bytes).drop_last(), 10);
            match packed_content(bytes) {
                Ok(value) => {
                    let sign = halves(bytes).last();
                    &&& bytes.len() > 0
                    &&& forall|k: int|
                        0 <= k < bytes.len() * 2 - 1 ==> #[trigger] halves(bytes)[k] <= 9
                    &&& sign == 11 || sign == 13 ==> value == -sum
                    &&& sign != 11 && sign != 13 ==> value == sum
                },
                Err(failure) => {
                    &&& failure is Invalid
                    &&& bytes.len() == 0 || exists|k: int|
                        0 <= k < bytes.len() * 2 - 1 && #[trigger] halves(bytes)[k] > 9
                },
            }
        }),
{
    if bytes.len() > 0 {
        let digits = packed_digits(bytes);
        assert(digits =~= halves(bytes).drop_last());
        lemma_first_bad(digits, 0);
        let bad = first_bad(digits, 0);
        if bad < digits.len() {
            assert(halves(bytes)[bad] > 9);
        } else {
            assert forall|k: int|
                0 <= k < bytes.len() * 2 - 1 implies #[trigger] halves(bytes)[k] <= 9 by {
                assert(digits[k] <= 9);
            }
        }
        lemma_digit_run_weighs(digits);
        let n = bytes.len() as int;
        assert((n * 2 - 1) % 2 == 1 && (n * 2 - 1) / 2 == n - 1);
        assert(halves(bytes).last() == bytes.last() as int % 16);
    }
}

/// The digits of a number, as many as there is room for, weigh the number.
proof fn lemma_digits_weigh(n: nat, digits: Seq<int>)
    requires
        n < power(10, digits.len()),
        forall|i: int|
            0 <= i < digits.len() ==> #[trigger] digits[i] == digit_at(
                n,
                (digits.len() - 1 - i) as nat,
            ),
    ensures
        weighed(digits, 10) == n,
    decreases digits.len(),
{
    if digits.len() > 0 {
        let len = digits.len();
        let front = digits.drop_last();
        let rest = n / 10;
        assert(power(10, len) == 10 * power(10, (len - 1) as nat));
        assert forall|i: int| 0 <= i < front.len() implies #[trigger] front[i] == digit_at(
            rest,
            (front.len() - 1 - i) as nat,
        ) by {
            let place = (front.len() - 1 - i) as nat;
            assert(front[i] == digits[i]);
            assert(power(10, place + 1) == 10 * power(10, place));
            lemma_power_positive(10, place);
            lemma_div_denominator(n as int, 10, power(10, place) as int);
        }
        lemma_digits_weigh(rest, front);
        lemma_weighed_last(digits, 10);
        assert(digits.last() == digit_at(n, 0));
        assert(power(10, 0) == 1);
    }
}

/// Writing a number as a zoned field and reading it gives the number back: with
/// its decimal digits in the low halves, whatever stands in the other halves,
/// the field reads as the number, negated when the last zone is `b` or `d`.
pub proof fn law_zoned_reads_what_was_written(bytes: Seq<u8>, n: nat)
    requires
        bytes.len() > 0,
        n < power(10, bytes.len()),
        forall|i: int|
            0 <= i < bytes.len() ==> (#[trigger] bytes[i]) as int % 16 == digit_at(
                n,
                (bytes.len() - 1 - i) as nat,
            ),
    ensures
        ({
            let sign = bytes.last() as int / 16;
            zoned_content(bytes) == Ok::<int, Failure>(
                if sign == 11 || sign == 13 {
                    -(n as int)
                } else {
                    n as int
                },
            )
        }),
{
    let digits = low_halves(bytes);
    assert forall|i: int| 0 <= i < digits.len() implies #[trigger] digits[i] == digit_at(
        n,
        (digits.len() - 1 - i) as nat,
    ) by {
        assert(bytes[i] as int % 16 == digits[i]);
    }
    lemma_digits_weigh(n, digits);
    law_zoned_is_decimal(bytes);
    assert forall|i: int| 0 <= i < bytes.len() implies #[trigger] bytes[i] % 16 <= 9 by {
        assert(digit_at(n, (bytes.len() - 1 - i) as nat) <= 9);
    }
}

/// Writing a number as a packed field and reading it gives the number back:
/// with its decimal digits in every half but the last, the field reads as the
/// number, negated when the last half is `b` or `d`.
pub proof fn law_packed_reads_what_was_written(bytes: Seq<u8>, n: nat)
    requires
        bytes.len() > 0,
        n < power(10, (bytes.len() * 2 - 1) as nat),
        forall|k: int|
            0 <= k < bytes.len() * 2 - 1 ==> #[trigger] halves(bytes)[k] == digit_at(
                n,
                (bytes.len() * 2 - 2 - k) as nat,
            ),
    ensures
        ({
            let sign = bytes.last() as int % 16;
            packed_content(bytes) == Ok::<int, Failure>(
                if sign == 11 || sign == 13 {
                    -(n as int)
                } else {
                    n as int
                },
            )
        }),
{
    let digits = halves(bytes).drop_last();
    assert forall|i: int| 0 <= i < digits.len() implies #[trigger] digits[i] == digit_at(
        n,
        (digits.len() - 1 - i) as nat,
    ) by {
        assert(halves(bytes)[i] == digits[i]);
    }
    lemma_digits_weigh(n, digits);
    law_packed_is_decimal(bytes);
    let last = bytes.len() * 2 - 1;
    assert(last % 2 == 1 && last / 2 == bytes.len() - 1);
    assert forall|k: int| 0 <= k < bytes.len() * 2 - 1 implies #[trigger] halves(bytes)[k] <= 9 by {
        assert(digit_at(n, (bytes.len() * 2 - 2 - k) as nat) <= 9);
    }
}

/// Changing nothing but the sign negates a zoned number: a last zone of `d` in
/// place of `c` gives the opposite number, whatever the digits.
pub proof fn law_the_zone_negates(positive: Seq<u8>, negative: Seq<u8>)
    requires
        positive.len() > 0,
        positive.len() == negative.len(),
        forall|i: int|
            0 <= i < positive.len() ==> #[trigger] positive[i] % 16 == negative[i] % 16,
        positive.last() / 16 == 0xc,
        negative.last() / 16 == 0xd,
    ensures
        zoned_content(positive) is Ok <==> zoned_content(negative) is Ok,
        zoned_content(positive) matches Ok(value) ==> zoned_content(negative) == Ok::<
            int,
            Failure,
        >(-value),
{
    law_zoned_is_decimal(positive);
    law_zoned_is_decimal(negative);
    assert(low_halves(positive) =~= low_halves(negative)) by {
        assert forall|i: int| 0 <= i < positive.len() implies low_halves(positive)[i]
            == low_halves(negative)[i] by {
            assert(positive[i] % 16 == negative[i] % 16);
        }
    }
    if zoned_content(positive) is Err {
        let i = choose|i: int| 0 <= i < positive.len() && #[trigger] positive[i] % 16 > 9;
        assert(negative[i] % 16 > 9);
    }
    if zoned_content(negative) is Err {
        let i = choose|i: int| 0 <= i < negative.len() && #[trigger] negative[i] % 16 > 9;
        assert(positive[i] % 16 > 9);
    }
}

/// Whether a text spells a number: a sign exactly when it is negative, and
/// behind it the digits of its distance from zero, without leading zeros.
pub open spec fn spells(text: Seq<char>, n: int) -> bool {
    let body = if n < 0 {
        text.skip(1)
    } else {
        text
    };
    &&& n < 0 <==> text.len() > 0 && text[0] == '-'
    &&& is_numeral(body)
    &&& digits_value(body) == if n < 0 {
        -n
    } else {
        n
    }
    &&& body.len() > 1 ==> body[0] != '0'
}

/// A number in decimal reads back: it starts with a minus sign exactly when the
/// number is negative, and the digits behind it spell its distance from zero.
pub proof fn law_a_signed_number_reads_back(n: int)
    ensures
        spells(signed_decimal(n), n),
{
    lemma_decimal_is_numeral(distance(n));
    lemma_no_leading_zero(distance(n));
    let text = signed_decimal(n);
    if n < 0 {
        assert(text.skip(1) =~= decimal(distance(n)));
    } else {
        assert(text =~= decimal(distance(n)));
        assert(is_digit(text[0]));
    }
}

/// A number of more than one digit does not start with a zero.
proof fn lemma_no_leading_zero(n: nat)
    ensures
        decimal(n).len() > 1 ==> decimal(n)[0] != '0',
        n > 0 ==> decimal(n)[0] != '0',
        decimal(n).len() > 0,
    decreases n,
{
    if n >= 10 {
        lemma_no_leading_zero(n / 10);
        assert(decimal(n)[0] == decimal(n / 10)[0]);
    }
}

/// A number has as many digits as the powers of ten say.
proof fn lemma_decimal_length(n: nat)
    ensures
        n < power(10, decimal(n).len()),
        n > 0 ==> power(10, (decimal(n).len() - 1) as nat) <= n,
        decimal(n).len() > 0,
    decreases n,
{
    reveal_with_fuel(power, 2);
    if n >= 10 {
        lemma_decimal_length(n / 10);
        let k = decimal(n / 10).len();
        assert(decimal(n).len() == k + 1);
        assert(power(10, k + 1) == 10 * power(10, k));
        assert(power(10, k) == 10 * power(10, (k - 1) as nat));
    }
}

/// Whether a text is a number in positional notation: the sign, digits in front
/// of the point without a needless zero, `scale` of them behind it, and all of
/// them together spell the number without its point.
pub open spec fn is_written_out(text: Seq<char>, unscaled: int, scale: nat) -> bool {
    exists|whole: Seq<char>, part: Seq<char>|
        {
            &&& is_numeral(whole)
            &&& whole.len() > 1 ==> whole[0] != '0'
            &&& part.len() == scale
            &&& digits_value(whole + part) == distance(unscaled)
            &&& text == #[trigger] written_out(unscaled, whole, part)
        }
}

/// A number in positional notation.
pub open spec fn written_out(n: int, whole: Seq<char>, part: Seq<char>) -> Seq<char> {
    (if n < 0 {
        seq!['-']
    } else {
        Seq::empty()
    }) + whole + (if part.len() > 0 {
        seq!['.'] + part
    } else {
        Seq::empty()
    })
}

/// Whether a text is a number in scientific notation: the sign, one digit, the
/// others behind a point, and an exponent that with them comes to the scale.
pub open spec fn is_scientific(text: Seq<char>, unscaled: int, scale: nat) -> bool {
    exists|first: char, part: Seq<char>, exponent: Seq<char>|
        {
            &&& is_numeral(seq![first] + part)
            &&& is_numeral(exponent)
            &&& part.len() > 0 ==> first != '0'
            &&& exponent.len() > 1 ==> exponent[0] != '0'
            &&& digits_value(seq![first] + part) == distance(unscaled)
            &&& digits_value(exponent) + part.len() == scale
            &&& text == #[trigger] scientific(unscaled, first, part, exponent)
        }
}

/// A number in scientific notation, below one.
pub open spec fn scientific(
    n: int,
    first: char,
    part: Seq<char>,
    exponent: Seq<char>,
) -> Seq<char> {
    written_out(n, seq![first], part) + seq!['E', '-'] + exponent
}

/// How a number is written: in scientific notation exactly when it is below a
/// millionth, that is when its scale is past six and it has no digit in the
/// first six places behind the point, and else written out with every zero. In
/// either notation the digits spell the number and nothing is lost.
pub proof fn law_how_a_number_is_written(unscaled: int, scale: nat)
    ensures
        ({
            let text = rendered(unscaled, scale);
            if scale >= 7 && distance(unscaled) < power(10, (scale - 6) as nat) {
                is_scientific(text, unscaled, scale)
            } else {
                is_written_out(text, unscaled, scale)
            }
        }),
{
    let n = distance(unscaled);
    let digits = decimal(n);
    let text = rendered(unscaled, scale);
    lemma_decimal_is_numeral(n);
    lemma_decimal_length(n);
    lemma_no_leading_zero(n);
    if scale >= 7 && n < power(10, (scale - 6) as nat) {
        assert(digits.len() <= scale - 6) by {
            if digits.len() > scale - 6 {
                if n > 0 {
                    lemma_power_grows(10, (scale - 6) as nat, (digits.len() - 1) as nat);
                } else {
                    assert(digits.len() == 1);
                }
            }
        }
        assert(!is_positional(unscaled, scale));
        let part = digits.skip(1);
        let exponent = decimal(first_place(unscaled, scale) as nat);
        lemma_decimal_is_numeral(first_place(unscaled, scale) as nat);
        lemma_no_leading_zero(first_place(unscaled, scale) as nat);
        assert(seq![digits[0]] + part =~= digits);
        reveal_strlit("E-");
        assert(text =~= scientific(unscaled, digits[0], part, exponent));
    } else {
        assert(is_positional(unscaled, scale)) by {
            if scale > 0 && digits.len() + 6 <= scale {
                lemma_power_grows(10, digits.len(), (scale - 6) as nat);
            }
        }
        if scale == 0 {
            let part = Seq::<char>::empty();
            assert(digits + part =~= digits);
            assert(text =~= written_out(unscaled, digits, part));
        } else {
            let padded = padded_digits(unscaled, scale);
            let split = padded.len() - scale;
            let whole = padded.take(split);
            let part = padded.skip(split);
            assert(is_numeral(padded));
            assert forall|i: int| 0 <= i < whole.len() implies is_digit(#[trigger] whole[i]) by {
                assert(is_digit(padded[i]));
            }
            if digits.len() <= scale {
                lemma_leading_zeros((scale + 1 - digits.len()) as nat, digits);
            }
            assert(whole + part =~= padded);
            assert(text =~= written_out(unscaled, whole, part));
        }
    }
}

/// Whether a text is what some bytes of a code page hold: their characters,
/// without the control characters where those are dropped, and without the
/// white space at either end.
pub open spec fn is_text(page: CodePage, bytes: Seq<u8>, strip: bool, text: Seq<char>) -> bool {
    exists|from: int, to: int| #[trigger] is_stretch(page, bytes, strip, text, from, to)
}

/// Whether a text is the characters of some bytes from one place to another, and
/// all in front of it and behind it is white space.
pub open spec fn is_stretch(
    page: CodePage,
    bytes: Seq<u8>,
    strip: bool,
    text: Seq<char>,
    from: int,
    to: int,
) -> bool {
    let all = if strip {
        decoded(page, bytes).filter(|c: char| !is_control(c))
    } else {
        decoded(page, bytes)
    };
    &&& 0 <= from <= to <= all.len()
    &&& text == all.subrange(from, to)
    &&& forall|i: int| 0 <= i < from || to <= i < all.len() ==> is_space(#[trigger] all[i])
    &&& text.len() > 0 ==> !is_space(text[0]) && !is_space(text.last())
}

/// A text field is its characters and no more is taken from it than its padding:
/// it holds the character of every byte in order, but for control characters
/// where those are dropped, from the first one that is not white space to the
/// last. It is refused exactly when a byte has no character.
pub proof fn law_text_is_its_characters(page: CodePage, bytes: Seq<u8>, strip: bool)
    ensures
        match text_content(page, bytes, strip) {
            Ok(text) => {
                &&& is_text(page, bytes, strip, text)
                &&& forall|i: int| 0 <= i < bytes.len() ==> assigned(page, #[trigger] bytes[i])
            },
            Err(failure) => {
                &&& failure is Invalid
                &&& exists|i: int| 0 <= i < bytes.len() && !assigned(page, #[trigger] bytes[i])
            },
        },
{
    lemma_first_unassigned(page, bytes, 0);
    let all = decoded(page, bytes);
    let whole = if strip {
        without_controls(all)
    } else {
        all
    };
    if strip {
        lemma_controls_filtered(all);
    }
    lemma_trim_cuts(whole);
    let text = trimmed(whole);
    let (from, to) = choose|from: int, to: int|
        {
            &&& 0 <= from <= to <= whole.len()
            &&& text == #[trigger] whole.subrange(from, to)
            &&& forall|i: int|
                0 <= i < from || to <= i < whole.len() ==> is_space(#[trigger] whole[i])
        };
    lemma_trimmed(whole);
    if first_unassigned(page, bytes, 0) == bytes.len() {
        assert(is_stretch(page, bytes, strip, text, from, to));
    }
}

/// The first unassigned byte, and the ones in front of it.
proof fn lemma_first_unassigned(page: CodePage, bytes: Seq<u8>, from: int)
    requires
        0 <= from <= bytes.len(),
    ensures
        from <= first_unassigned(page, bytes, from) <= bytes.len(),
        first_unassigned(page, bytes, from) < bytes.len() ==> !assigned(
            page,
            bytes[first_unassigned(page, bytes, from)],
        ),
        forall|i: int|
            from <= i < first_unassigned(page, bytes, from) ==> assigned(page, #[trigger] bytes[i]),
    decreases bytes.len() - from,
{
    if from < bytes.len() && assigned(page, bytes[from]) {
        lemma_first_unassigned(page, bytes, from + 1);
    }
}

/// Text without its control characters is the other ones in order.
proof fn lemma_controls_filtered(s: Seq<char>)
    ensures
        without_controls(s) == s.filter(|c: char| !is_control(c)),
    decreases s.len(),
{
    reveal(Seq::filter);
    if s.len() > 0 {
        lemma_controls_filtered(s.drop_last());
    }
}

/// Trimming takes white space and nothing else.
proof fn lemma_trim_cuts(s: Seq<char>)
    ensures
        exists|from: int, to: int|
            {
                &&& 0 <= from <= to <= s.len()
                &&& trimmed(s) == #[trigger] s.subrange(from, to)
                &&& forall|i: int|
                    0 <= i < from || to <= i < s.len() ==> is_space(#[trigger] s[i])
            },
{
    let rest = trimmed_start(s);
    lemma_front_is_space(s);
    lemma_back_is_space(rest);
    let from = s.len() - rest.len();
    let to = from + trimmed(s).len();
    assert(trimmed(s) =~= s.subrange(from, to));
    assert forall|i: int| 0 <= i < from || to <= i < s.len() implies is_space(#[trigger] s[i]) by {
        if i >= to {
            assert(s[i] == rest[i - from]);
        }
    }
}

/// What is cut in front is white space.
proof fn lemma_front_is_space(s: Seq<char>)
    ensures
        trimmed_start(s).len() <= s.len(),
        trimmed_start(s) == s.skip(s.len() - trimmed_start(s).len()),
        forall|i: int| 0 <= i < s.len() - trimmed_start(s).len() ==> is_space(#[trigger] s[i]),
    decreases s.len(),
{
    if s.len() > 0 && is_space(s[0]) {
        let rest = s.skip(1);
        lemma_front_is_space(rest);
        assert(trimmed_start(s) =~= s.skip(s.len() - trimmed_start(s).len()));
        assert forall|i: int| 0 <= i < s.len() - trimmed_start(s).len() implies is_space(
            #[trigger] s[i],
        ) by {
            if i > 0 {
                assert(s[i] == rest[i - 1]);
            }
        }
    } else {
        assert(s.skip(0) =~= s);
    }
}

/// What is cut behind is white space.
proof fn lemma_back_is_space(s: Seq<char>)
    ensures
        trimmed_end(s).len() <= s.len(),
        trimmed_end(s) == s.take(trimmed_end(s).len() as int),
        forall|i: int| trimmed_end(s).len() <= i < s.len() ==> is_space(#[trigger] s[i]),
    decreases s.len(),
{
    if s.len() > 0 && is_space(s.last()) {
        let front = s.drop_last();
        lemma_back_is_space(front);
        assert(trimmed_end(s) =~= s.take(trimmed_end(s).len() as int));
        assert forall|i: int| trimmed_end(s).len() <= i < s.len() implies is_space(
            #[trigger] s[i],
        ) by {
            if i < front.len() {
                assert(s[i] == front[i]);
            }
        }
    } else {
        assert(s.take(s.len() as int) =~= s);
    }
}

/// What is said of a field with a half that is no digit names the first such
/// half by its place and its value, and gives all the bytes.
pub proof fn law_the_first_bad_digit_is_named(bytes: Seq<u8>)
    requires
        bytes.len() > 0,
    ensures
        zoned_content(bytes) matches Err(failure) ==> exists|i: int|
            {
                &&& 0 <= i < bytes.len()
                &&& #[trigger] low_halves(bytes)[i] > 9
                &&& forall|j: int| 0 <= j < i ==> #[trigger] low_halves(bytes)[j] <= 9
                &&& mentions(
                    failure.message(),
                    "zoned decimal digit "@ + decimal(i as nat) + " is 0x"@,
                )
                &&& mentions(
                    failure.message(),
                    " is 0x"@ + seq![hex_char(low_halves(bytes)[i] as nat)]
                        + ", not a digit (bytes "@,
                )
                &&& mentions(
                    failure.message(),
                    ", not a digit (bytes "@ + hex_bytes(bytes) + ")"@,
                )
            },
        packed_content(bytes) matches Err(failure) ==> exists|k: int|
            {
                &&& 0 <= k < bytes.len() * 2 - 1
                &&& #[trigger] halves(bytes)[k] > 9
                &&& forall|j: int| 0 <= j < k ==> #[trigger] halves(bytes)[j] <= 9
                &&& mentions(
                    failure.message(),
                    "packed decimal nibble "@ + decimal(k as nat) + " is 0x"@,
                )
                &&& mentions(
                    failure.message(),
                    " is 0x"@ + seq![hex_char(halves(bytes)[k] as nat)]
                        + ", not a digit (bytes "@,
                )
                &&& mentions(
                    failure.message(),
                    ", not a digit (bytes "@ + hex_bytes(bytes) + ")"@,
                )
            },
{
    let none = Seq::<char>::empty();
    let zoned = zoned_digits(bytes);
    assert(zoned =~= low_halves(bytes));
    lemma_first_bad(zoned, 0);
    if let Err(failure) = zoned_content(bytes) {
        let i = first_bad(zoned, 0);
        let parts = seq![
            "zoned decimal digit "@,
            decimal(i as nat),
            " is 0x"@,
            seq![hex_char(zoned[i] as nat)],
            ", not a digit (bytes "@,
            hex_bytes(bytes),
            ")"@,
        ];
        assert(run_together(parts, 7) == failure.message()) by {
            reveal_with_fuel(run_together, 8);
            assert(none + parts[0] =~= parts[0]);
        }
        lemma_mentions_neighbours(parts, 0, 7);
        lemma_mentions_neighbours(parts, 2, 7);
        lemma_mentions_neighbours(parts, 4, 7);
        assert(low_halves(bytes)[i] > 9);
    }
    let packed = packed_digits(bytes);
    assert(packed =~= halves(bytes).drop_last());
    lemma_first_bad(packed, 0);
    if let Err(failure) = packed_content(bytes) {
        let k = first_bad(packed, 0);
        let parts = seq![
            "packed decimal nibble "@,
            decimal(k as nat),
            " is 0x"@,
            seq![hex_char(packed[k] as nat)],
            ", not a digit (bytes "@,
            hex_bytes(bytes),
            ")"@,
        ];
        assert(run_together(parts, 7) == failure.message()) by {
            reveal_with_fuel(run_together, 8);
            assert(none + parts[0] =~= parts[0]);
        }
        lemma_mentions_neighbours(parts, 0, 7);
        lemma_mentions_neighbours(parts, 2, 7);
        lemma_mentions_neighbours(parts, 4, 7);
        assert forall|j: int| 0 <= j < k implies #[trigger] halves(bytes)[j] <= 9 by {
            assert(packed[j] == halves(bytes)[j]);
        }
        assert(packed[k] == halves(bytes)[k]);
        assert(halves(bytes)[k] > 9);
    }
}

} // verus!
