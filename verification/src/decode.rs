//! The byte walk: one function per COBOL storage usage.
//!
//! Numerics are carried as `i128` plus a scale rather than as a float: a COBOL
//! `PIC S9(15)V99 COMP-3` holds seventeen significant digits, an IEEE double
//! holds fifteen, and a balance that arrives off by a cent is worse than one
//! that does not arrive.

pub mod laws;

use vstd::prelude::*;
use vstd::string::StringExecFns;
use crate::codec::{decoded, first_unassigned, page_name, undefined_message, Codec, CodePage};
use crate::error::{Failure, ParseError};
use crate::text::{cat3, cat7, chars_of, control, decimal, decimal_text, digit_char, digits_value,
    hex, hex_bytes, hex_char, hex_digit, is_control, is_digit, is_numeral, is_space, lemma_trimmed,
    magnitude, signed_decimal, signed_text, string_of, trim, trimmed};

verus! {

/// Widest packed field the decoder accepts, in bytes.
///
/// Nineteen bytes hold thirty-seven digits, which is the most that fits an
/// `i128` for every value. Real copybooks stop at eighteen digits (COBOL-85)
/// or thirty-one (COBOL 2002), so this is not a limit anyone reaches by
/// accident.
pub const MAX_PACKED_BYTES: u32 = 19;

/// Widest zoned field the decoder accepts, in bytes, one digit per byte.
pub const MAX_ZONED_BYTES: u32 = 37;

/// Widest binary field the decoder accepts, in bytes.
pub const MAX_BINARY_BYTES: u32 = 16;

/// A decoded field value, before it is shaped into a cell.
#[derive(Debug, Clone, PartialEq, Eq)]
pub enum FieldValue {
    /// Character data, already stripped and trimmed.
    Text(String),
    /// An exact base-10 number equal to `unscaled * 10^-scale`.
    Number {
        /// The value with the decimal point removed.
        unscaled: i128,
        /// Number of implied fractional digits.
        scale: u32,
    },
}

/// A decoded field value as contracts speak of it.
#[verifier::ext_equal]
pub enum FieldContent {
    /// Character data.
    Text(Seq<char>),
    /// The number `unscaled * 10^-scale`.
    Number {
        /// The value with the decimal point removed.
        unscaled: int,
        /// Number of implied fractional digits.
        scale: u32,
    },
}

impl View for FieldValue {
    type V = FieldContent;

    open spec fn view(&self) -> FieldContent {
        match self {
            FieldValue::Text(text) => FieldContent::Text(text@),
            FieldValue::Number { unscaled, scale } => FieldContent::Number {
                unscaled: *unscaled as int,
                scale: *scale,
            },
        }
    }
}

impl FieldContent {
    /// The value as text: what a record selector is compared with.
    pub open spec fn display(self) -> Seq<char> {
        match self {
            FieldContent::Text(text) => text,
            FieldContent::Number { unscaled, scale } => rendered(unscaled, scale as nat),
        }
    }
}

impl FieldValue {
    /// Render the value as text. Used for record selectors, which compare
    /// decoded text.
    pub fn to_display_string(&self) -> (r: String)
        ensures
            r@ == self@.display(),
    {
        match self {
            FieldValue::Text(text) => text.clone(),
            FieldValue::Number { unscaled, scale } => render_decimal(*unscaled, *scale),
        }
    }
}

/// A run of zero digits.
pub open spec fn zeros(n: nat) -> Seq<char> {
    Seq::new(n, |i: int| '0')
}

/// The distance of a number from zero.
pub open spec fn distance(n: int) -> nat {
    if n < 0 {
        (-n) as nat
    } else {
        n as nat
    }
}

/// The digits of a number, padded with leading zeros to one more than its
/// scale.
pub open spec fn padded_digits(unscaled: int, scale: nat) -> Seq<char> {
    let digits = decimal(distance(unscaled));
    if digits.len() <= scale {
        zeros((scale + 1 - digits.len()) as nat) + digits
    } else {
        digits
    }
}

/// How many places behind the point the first digit of `unscaled * 10^-scale`
/// stands: 1 for tenths, 0 or less for a digit in front of the point.
pub open spec fn first_place(unscaled: int, scale: nat) -> int {
    scale + 1 - decimal(distance(unscaled)).len()
}

/// Whether a number is written with all its zeros: with none behind the point,
/// or with its first digit at most six places behind it.
pub open spec fn is_positional(unscaled: int, scale: nat) -> bool {
    scale == 0 || first_place(unscaled, scale) <= 6
}

/// The sign in front of a number.
pub open spec fn sign_of(unscaled: int) -> Seq<char> {
    if unscaled < 0 {
        seq!['-']
    } else {
        Seq::empty()
    }
}

/// The digits of a number with a point behind the first of them, if more
/// follow.
pub open spec fn mantissa(digits: Seq<char>) -> Seq<char> {
    if digits.len() > 1 {
        digits.take(1) + seq!['.'] + digits.skip(1)
    } else {
        digits
    }
}

/// The exact decimal text of `unscaled * 10^-scale`: the digits, with the
/// point in front of the last `scale` of them, or, when the first digit would
/// stand more than six places behind the point, with an exponent.
pub open spec fn rendered(unscaled: int, scale: nat) -> Seq<char> {
    if scale == 0 {
        signed_decimal(unscaled)
    } else if is_positional(unscaled, scale) {
        let padded = padded_digits(unscaled, scale);
        let split = padded.len() - scale;
        sign_of(unscaled) + padded.take(split) + seq!['.'] + padded.skip(split)
    } else {
        sign_of(unscaled) + mantissa(decimal(distance(unscaled))) + "E-"@ + decimal(
            first_place(unscaled, scale) as nat,
        )
    }
}

/// Render `unscaled * 10^-scale` as an exact decimal string.
///
/// The text is that of Python's `str(Decimal(n).scaleb(-scale))`: positional
/// down to the sixth place behind the point, `5E-7` and the like below it.
pub fn render_decimal(unscaled: i128, scale: u32) -> (r: String)
    ensures
        r@ == rendered(unscaled as int, scale as nat),
{
    if scale == 0 {
        return signed_text(unscaled);
    }
    let digits: Vec<char> = chars_of(&decimal_text(magnitude(unscaled)));
    proof {
        lemma_decimal_is_numeral(distance(unscaled as int));
    }
    let mut out: String = String::new();
    if unscaled < 0 {
        out.push('-');
    }
    proof {
        assert(out@ =~= sign_of(unscaled as int));
    }
    if digits.len() < scale as usize && scale as usize - digits.len() > 5 {
        let place: u64 = scale as u64 + 1 - digits.len() as u64;
        out.append(&string_of(&digits, 0, 1));
        if digits.len() > 1 {
            out.push('.');
            out.append(&string_of(&digits, 1, digits.len()));
        }
        proof {
            assert(out@ =~= sign_of(unscaled as int) + mantissa(digits@));
        }
        out.append("E-");
        out.append(&decimal_text(place as u128));
        proof {
            assert(out@ =~= rendered(unscaled as int, scale as nat));
        }
        return out;
    }
    let padded: Vec<char> = pad_digits(&digits, scale);
    let split: usize = padded.len() - scale as usize;
    out.append(&string_of(&padded, 0, split));
    out.push('.');
    out.append(&string_of(&padded, split, padded.len()));
    proof {
        assert(padded@ =~= padded_digits(unscaled as int, scale as nat));
        assert(out@ =~= rendered(unscaled as int, scale as nat));
    }
    out
}

/// Put zeros in front of digits until there is one more than the scale.
fn pad_digits(digits: &Vec<char>, scale: u32) -> (r: Vec<char>)
    requires
        digits@.len() > 0,
    ensures
        r@ == (if digits@.len() <= scale {
            zeros((scale + 1 - digits@.len()) as nat) + digits@
        } else {
            digits@
        }),
{
    let mut padded: Vec<char> = Vec::new();
    if digits.len() <= scale as usize {
        let pad: u32 = scale - (digits.len() as u32 - 1);
        let mut i: u32 = 0;
        while i < pad
            invariant
                i <= pad,
                padded@ == zeros(i as nat),
            decreases pad - i,
        {
            padded.push('0');
            i = i + 1;
            proof {
                assert(padded@ =~= zeros(i as nat));
            }
        }
    }
    let ghost front = padded@;
    let mut i: usize = 0;
    while i < digits.len()
        invariant
            i <= digits@.len(),
            padded@ == front + digits@.take(i as int),
        decreases digits@.len() - i,
    {
        padded.push(digits[i]);
        i = i + 1;
        proof {
            assert(padded@ =~= front + digits@.take(i as int));
        }
    }
    proof {
        assert(digits@.take(i as int) =~= digits@);
        assert(front + digits@ =~= if digits@.len() <= scale {
            zeros((scale + 1 - digits@.len()) as nat) + digits@
        } else {
            digits@
        });
    }
    padded
}

/// The decimal rendering of a number is a numeral that spells it.
pub proof fn lemma_decimal_is_numeral(n: nat)
    ensures
        is_numeral(decimal(n)),
        digits_value(decimal(n)) == n,
    decreases n,
{
    let d = n % 10;
    assert(is_digit(digit_char(d)));
    assert(digit_char(d) as nat - 0x30 == d);
    if n < 10 {
        assert(decimal(n).drop_last() =~= Seq::<char>::empty());
        assert(digits_value(Seq::<char>::empty()) == 0);
        assert(decimal(n).last() == digit_char(n));
    } else {
        lemma_decimal_is_numeral(n / 10);
        assert(decimal(n).drop_last() =~= decimal(n / 10));
        assert(decimal(n).last() == digit_char(d));
    }
}

/// Leading zeros do not change the number a numeral spells.
pub proof fn lemma_leading_zeros(n: nat, digits: Seq<char>)
    ensures
        digits_value(zeros(n) + digits) == digits_value(digits),
    decreases digits.len(), n,
{
    if digits.len() == 0 {
        assert(zeros(n) + digits =~= zeros(n));
        if n > 0 {
            assert(zeros(n).drop_last() =~= zeros((n - 1) as nat) + digits);
            lemma_leading_zeros((n - 1) as nat, digits);
            assert(zeros(n).last() == '0');
        }
    } else {
        assert((zeros(n) + digits).drop_last() =~= zeros(n) + digits.drop_last());
        assert((zeros(n) + digits).last() == digits.last());
        lemma_leading_zeros(n, digits.drop_last());
    }
}

/// Rendering is exact. Behind the sign, a positional text is the number's own
/// digits with exactly `scale` of them after the point, and together they spell
/// the number with the point removed. A text with an exponent has one digit in
/// front of the point, spells the number with the point removed, and its
/// exponent and the digits behind the point come to the scale.
pub proof fn law_rendering_is_exact(unscaled: int, scale: nat)
    ensures
        ({
            let text = rendered(unscaled, scale);
            let body = if unscaled < 0 {
                text.skip(1)
            } else {
                text
            };
            &&& unscaled < 0 ==> text.len() > 0 && text[0] == '-'
            &&& scale == 0 ==> is_numeral(body) && digits_value(body) == distance(unscaled)
            &&& scale > 0 && is_positional(unscaled, scale) ==> {
                let point = body.len() - scale - 1;
                &&& point > 0
                &&& body[point] == '.'
                &&& is_numeral(body.take(point))
                &&& is_numeral(body.skip(point + 1))
                &&& digits_value(body.take(point) + body.skip(point + 1)) == distance(unscaled)
            }
            &&& !is_positional(unscaled, scale) ==> {
                let digits = decimal(distance(unscaled));
                &&& body == mantissa(digits) + "E-"@ + decimal(first_place(unscaled, scale) as nat)
                &&& is_numeral(digits)
                &&& digits_value(digits) == distance(unscaled)
                &&& first_place(unscaled, scale) + (digits.len() - 1) == scale
            }
        }),
{
    let n = distance(unscaled);
    lemma_decimal_is_numeral(n);
    let text = rendered(unscaled, scale);
    let body = if unscaled < 0 {
        text.skip(1)
    } else {
        text
    };
    if scale == 0 {
        assert(body =~= decimal(n));
    } else if is_positional(unscaled, scale) {
        let padded = padded_digits(unscaled, scale);
        let split = padded.len() - scale;
        assert(is_numeral(padded));
        assert(body =~= padded.take(split) + seq!['.'] + padded.skip(split));
        let point = body.len() - scale - 1;
        assert(point == split);
        assert(body.take(point) =~= padded.take(split));
        assert(body.skip(point + 1) =~= padded.skip(split));
        assert(body.take(point) + body.skip(point + 1) =~= padded);
        assert forall|i: int| 0 <= i < split implies is_digit(#[trigger] body.take(point)[i]) by {
            assert(is_digit(padded[i]));
        }
        assert forall|i: int| 0 <= i < scale implies is_digit(
            #[trigger] body.skip(point + 1)[i],
        ) by {
            assert(is_digit(padded[split + i]));
        }
        if decimal(n).len() <= scale {
            lemma_leading_zeros((scale + 1 - decimal(n).len()) as nat, decimal(n));
        }
    } else {
        assert(body =~= mantissa(decimal(n)) + "E-"@ + decimal(
            first_place(unscaled, scale) as nat,
        ));
    }
}

/// Text without its control characters.
pub open spec fn without_controls(s: Seq<char>) -> Seq<char>
    decreases s.len(),
{
    if s.len() == 0 {
        Seq::empty()
    } else if is_control(s.last()) {
        without_controls(s.drop_last())
    } else {
        without_controls(s.drop_last()).push(s.last())
    }
}

/// The character data a field's bytes hold, or why they hold none.
pub open spec fn text_content(page: CodePage, bytes: Seq<u8>, strip_control: bool) -> Result<
    Seq<char>,
    Failure,
> {
    let stop = first_unassigned(page, bytes, 0);
    if stop < bytes.len() {
        Err(Failure::Invalid(undefined_message(page_name(page), bytes[stop], stop as nat)))
    } else if strip_control {
        Ok(trimmed(without_controls(decoded(page, bytes))))
    } else {
        Ok(trimmed(decoded(page, bytes)))
    }
}

/// A text value is free of its padding: it neither starts nor ends with white
/// space, and holds no control character where those are stripped.
pub proof fn law_text_is_free_of_padding(page: CodePage, bytes: Seq<u8>, strip_control: bool)
    requires
        text_content(page, bytes, strip_control) is Ok,
    ensures
        ({
            let text = text_content(page, bytes, strip_control)->Ok_0;
            &&& text.len() > 0 ==> !is_space(text[0]) && !is_space(text.last())
            &&& strip_control ==> forall|i: int|
                0 <= i < text.len() ==> !is_control(#[trigger] text[i])
        }),
{
    let all = decoded(page, bytes);
    let whole = if strip_control {
        without_controls(all)
    } else {
        all
    };
    lemma_trimmed(whole);
    if strip_control {
        lemma_without_controls(all);
        let from = choose|from: int|
            0 <= from <= from + trimmed(whole).len() <= whole.len() && trimmed(whole)
                == #[trigger] whole.subrange(from, from + trimmed(whole).len());
        assert forall|i: int| 0 <= i < trimmed(whole).len() implies !is_control(
            #[trigger] trimmed(whole)[i],
        ) by {
            assert(trimmed(whole)[i] == whole[from + i]);
        }
    }
}

/// Text without its control characters has none.
proof fn lemma_without_controls(s: Seq<char>)
    ensures
        forall|i: int|
            0 <= i < without_controls(s).len() ==> !is_control(#[trigger] without_controls(s)[i]),
    decreases s.len(),
{
    if s.len() > 0 {
        let front = without_controls(s.drop_last());
        lemma_without_controls(s.drop_last());
        assert forall|i: int| 0 <= i < without_controls(s).len() implies !is_control(
            #[trigger] without_controls(s)[i],
        ) by {
            if i < front.len() {
                assert(without_controls(s)[i] == front[i]);
            }
        }
    }
}

/// Drop the control characters of a text.
fn drop_controls(text: &str) -> (r: String)
    ensures
        r@ == without_controls(text@),
{
    let mut out: String = String::new();
    for c in it: text.chars()
        invariant
            it.seq() == text@,
            out@ == without_controls(text@.take(it.index() as int)),
    {
        proof {
            let next = text@.take(it.index() + 1);
            assert(next.drop_last() =~= text@.take(it.index() as int));
            assert(next.last() == c);
        }
        if !control(c) {
            out.push(c);
        }
    }
    proof {
        assert(text@.take(text@.len() as int) =~= text@);
    }
    out
}

/// Decode `USAGE DISPLAY` character data.
///
/// Control characters are dropped first when the option is on, then both ends
/// are trimmed, because EBCDIC fields are blank-padded to their declared width
/// and the padding is not part of the value.
pub fn decode_text(codec: Codec, bytes: &[u8], strip_control: bool) -> (r: Result<
    String,
    ParseError,
>)
    ensures
        match r {
            Ok(text) => text_content(codec.page(), bytes@, strip_control) == Ok::<_, Failure>(text@),
            Err(error) => text_content(codec.page(), bytes@, strip_control) == Err::<Seq<char>, _>(
                error@,
            ),
        },
{
    match codec.decode(bytes) {
        Err(error) => Err(ParseError::from_codec(&error)),
        Ok(text) => if strip_control {
            Ok(trim(&drop_controls(&text)))
        } else {
            Ok(trim(&text))
        },
    }
}

/// The sign nibbles that mean negative.
///
/// COBOL leaves the positive nibble implementation-defined: `0xc` is the
/// preferred positive sign, `0xf` marks an unsigned field, and `0xa` and `0xe`
/// are alternates. Only `0xb` and `0xd` are negative.
pub open spec fn is_negative_sign(nibble: int) -> bool {
    nibble == 0xb || nibble == 0xd
}

/// A magnitude with the sign a nibble gives it.
pub open spec fn signed_by(nibble: int, value: nat) -> int {
    if is_negative_sign(nibble) {
        -(value as int)
    } else {
        value as int
    }
}

/// The number a run of digits spells.
pub open spec fn digit_run(digits: Seq<int>) -> nat
    decreases digits.len(),
{
    if digits.len() == 0 {
        0
    } else {
        (digit_run(digits.drop_last()) * 10 + digits.last()) as nat
    }
}

/// The first entry at or after `from` that is not a decimal digit, or the
/// length when all are.
pub open spec fn first_bad(digits: Seq<int>, from: int) -> int
    decreases digits.len() - from,
{
    if from >= digits.len() {
        digits.len() as int
    } else if digits[from] > 9 {
        from
    } else {
        first_bad(digits, from + 1)
    }
}

/// The digit nibbles of a packed field: every nibble but the last, which is
/// the sign.
pub open spec fn packed_digits(bytes: Seq<u8>) -> Seq<int> {
    Seq::new(
        (bytes.len() * 2 - 1) as nat,
        |k: int|
            if k % 2 == 0 {
                (bytes[k / 2] / 16) as int
            } else {
                (bytes[k / 2] % 16) as int
            },
    )
}

/// The digit nibbles of a zoned field: the low nibble of every byte.
pub open spec fn zoned_digits(bytes: Seq<u8>) -> Seq<int> {
    Seq::new(bytes.len(), |k: int| (bytes[k] % 16) as int)
}

/// Whether the digits in front of the first bad one spell a number that
/// sixteen bytes hold.
pub open spec fn digits_fit(digits: Seq<int>) -> bool {
    digit_run(digits.take(first_bad(digits, 0))) <= i128::MAX
}

/// The number a packed decimal field holds, or why it holds none.
pub open spec fn packed_content(bytes: Seq<u8>) -> Result<int, Failure> {
    let digits = packed_digits(bytes);
    let bad = first_bad(digits, 0);
    if bytes.len() == 0 {
        Err(Failure::Invalid("a packed decimal field needs at least one byte"@))
    } else if bad < digits.len() {
        Err(
            Failure::Invalid(
                "packed decimal nibble "@ + decimal(bad as nat) + " is 0x"@ + seq![
                    hex_char(digits[bad] as nat),
                ] + ", not a digit (bytes "@ + hex_bytes(bytes) + ")"@,
            ),
        )
    } else {
        Ok(signed_by((bytes.last() % 16) as int, digit_run(digits)))
    }
}

/// The number a zoned decimal field holds, or why it holds none.
pub open spec fn zoned_content(bytes: Seq<u8>) -> Result<int, Failure> {
    let digits = zoned_digits(bytes);
    let bad = first_bad(digits, 0);
    if bytes.len() == 0 {
        Err(Failure::Invalid("a zoned decimal field needs at least one byte"@))
    } else if bad < digits.len() {
        Err(
            Failure::Invalid(
                "zoned decimal digit "@ + decimal(bad as nat) + " is 0x"@ + seq![
                    hex_char(digits[bad] as nat),
                ] + ", not a digit (bytes "@ + hex_bytes(bytes) + ")"@,
            ),
        )
    } else {
        Ok(signed_by((bytes.last() / 16) as int, digit_run(digits)))
    }
}

/// Longer runs of digits never spell smaller numbers.
proof fn lemma_run_grows(digits: Seq<int>, j: int, k: int)
    requires
        0 <= j <= k <= digits.len(),
        forall|i: int| 0 <= i < digits.len() ==> 0 <= #[trigger] digits[i],
    ensures
        digit_run(digits.take(j)) <= digit_run(digits.take(k)),
    decreases k,
{
    if j < k {
        lemma_run_grows(digits, j, k - 1);
        assert(digits.take(k).drop_last() =~= digits.take(k - 1));
        assert(digits.take(k).last() == digits[k - 1]);
    }
}

/// One more digit, and the number it makes.
proof fn lemma_run_step(digits: Seq<int>, k: int)
    requires
        0 <= k < digits.len(),
        0 <= digits[k],
    ensures
        digit_run(digits.take(k + 1)) == digit_run(digits.take(k)) * 10 + digits[k],
{
    assert(digits.take(k + 1).drop_last() =~= digits.take(k));
    assert(digits.take(k + 1).last() == digits[k]);
}

/// What the first bad entry is, from any point in front of it.
pub proof fn lemma_first_bad(digits: Seq<int>, from: int)
    requires
        0 <= from <= digits.len(),
    ensures
        from <= first_bad(digits, from) <= digits.len(),
        first_bad(digits, from) < digits.len() ==> digits[first_bad(digits, from)] > 9,
        forall|i: int| from <= i < first_bad(digits, from) ==> #[trigger] digits[i] <= 9,
    decreases digits.len() - from,
{
    if from < digits.len() && digits[from] <= 9 {
        lemma_first_bad(digits, from + 1);
    }
}

/// The message of a byte that is not a digit.
fn bad_digit(what: &str, index: u128, nibble: u8, bytes: &[u8]) -> (r: ParseError)
    requires
        nibble < 16,
    ensures
        r@ == Failure::Invalid(
            what@ + decimal(index as nat) + " is 0x"@ + seq![hex_char(nibble as nat)]
                + ", not a digit (bytes "@ + hex_bytes(bytes@) + ")"@,
        ),
{
    let mut digit: String = String::new();
    digit.push(hex_digit(nibble));
    proof {
        assert(digit@ =~= seq![hex_char(nibble as nat)]);
    }
    ParseError::invalid(
        cat7(
            what,
            &decimal_text(index),
            " is 0x",
            &digit,
            ", not a digit (bytes ",
            &hex(bytes),
            ")",
        ),
    )
}

/// Decode `COMP-3` packed decimal: two digits per byte, sign in the trailing
/// nibble.
///
/// A nibble of `0xa`..`0xf` anywhere but the sign position is the classic
/// symptom of a layout whose offsets have drifted, so it is reported with the
/// nibble's position rather than as a generic parse failure.
pub fn decode_packed(bytes: &[u8]) -> (r: Result<i128, ParseError>)
    requires
        bytes@.len() > 0 ==> digits_fit(packed_digits(bytes@)),
    ensures
        match r {
            Ok(value) => packed_content(bytes@) == Ok::<_, Failure>(value as int),
            Err(error) => packed_content(bytes@) == Err::<int, _>(error@),
        },
{
    if bytes.len() == 0 {
        return Err(
            ParseError::invalid("a packed decimal field needs at least one byte".to_owned()),
        );
    }
    let ghost digits = packed_digits(bytes@);
    let ghost bad = first_bad(digits, 0);
    let mut value: i128 = 0;
    let mut index: usize = 0;
    proof {
        lemma_first_bad(digits, 0);
        assert(digits.take(0) =~= Seq::<int>::empty());
    }
    while index < bytes.len()
        invariant
            0 <= index <= bytes@.len(),
            bytes@.len() > 0,
            digits == packed_digits(bytes@),
            bad == first_bad(digits, 0),
            digits_fit(digits),
            index < bytes@.len() ==> index * 2 <= bad && value == digit_run(
                digits.take(index * 2),
            ),
            index == bytes@.len() ==> bad == digits.len() && value == digit_run(digits),
        decreases bytes@.len() - index,
    {
        let byte: u8 = bytes[index];
        let high: u8 = byte / 16;
        let low: u8 = byte % 16;
        let ghost k = index * 2;
        proof {
            lemma_first_bad(digits, 0);
            assert(digits[k] == high);
            assert forall|i: int| 0 <= i < digits.len() implies 0 <= #[trigger] digits[i] by {}
        }
        if high > 9 {
            return Err(bad_digit("packed decimal nibble ", index as u128 * 2, high, bytes));
        }
        proof {
            lemma_run_step(digits, k);
            lemma_run_grows(digits, k + 1, bad);
        }
        value = value * 10 + high as i128;
        if index + 1 < bytes.len() {
            proof {
                assert(digits[k + 1] == low);
            }
            if low > 9 {
                return Err(bad_digit("packed decimal nibble ", index as u128 * 2 + 1, low, bytes));
            }
            proof {
                lemma_run_step(digits, k + 1);
                lemma_run_grows(digits, k + 2, bad);
            }
            value = value * 10 + low as i128;
        } else {
            proof {
                assert(digits.take(k + 1) =~= digits);
            }
        }
        index = index + 1;
    }
    let sign: u8 = bytes[bytes.len() - 1] % 16;
    if sign == 0xb || sign == 0xd {
        Ok(-value)
    } else {
        Ok(value)
    }
}

/// Decode a zoned decimal (signed `USAGE DISPLAY` numeric): one digit in the
/// low nibble of every byte, the sign overpunched into the zone nibble of the
/// last byte.
///
/// The zone nibbles of the leading bytes are deliberately not checked. They
/// are `0xf` in well-formed EBCDIC numerics, but blank-filled fields arrive as
/// `0x40` and mainframe programs read those as zeros; rejecting them would
/// refuse files that COBOL itself accepts.
pub fn decode_zoned(bytes: &[u8]) -> (r: Result<i128, ParseError>)
    requires
        digits_fit(zoned_digits(bytes@)),
    ensures
        match r {
            Ok(value) => zoned_content(bytes@) == Ok::<_, Failure>(value as int),
            Err(error) => zoned_content(bytes@) == Err::<int, _>(error@),
        },
{
    if bytes.len() == 0 {
        return Err(
            ParseError::invalid("a zoned decimal field needs at least one byte".to_owned()),
        );
    }
    let ghost digits = zoned_digits(bytes@);
    let ghost bad = first_bad(digits, 0);
    let mut value: i128 = 0;
    let mut index: usize = 0;
    proof {
        lemma_first_bad(digits, 0);
        assert(digits.take(0) =~= Seq::<int>::empty());
    }
    while index < bytes.len()
        invariant
            0 <= index <= bytes@.len(),
            digits == zoned_digits(bytes@),
            bad == first_bad(digits, 0),
            digits_fit(digits),
            index <= bad,
            value == digit_run(digits.take(index as int)),
        decreases bytes@.len() - index,
    {
        let digit: u8 = bytes[index] % 16;
        proof {
            lemma_first_bad(digits, 0);
            assert(digits[index as int] == digit);
            assert forall|i: int| 0 <= i < digits.len() implies 0 <= #[trigger] digits[i] by {}
        }
        if digit > 9 {
            return Err(bad_digit("zoned decimal digit ", index as u128, digit, bytes));
        }
        proof {
            lemma_run_step(digits, index as int);
            lemma_run_grows(digits, index + 1, bad);
        }
        value = value * 10 + digit as i128;
        index = index + 1;
    }
    proof {
        lemma_first_bad(digits, 0);
        assert(digits.take(index as int) =~= digits);
    }
    let sign: u8 = bytes[bytes.len() - 1] / 16;
    if sign == 0xb || sign == 0xd {
        Ok(-value)
    } else {
        Ok(value)
    }
}

/// The number a run of bytes spells, the most significant first.
pub open spec fn big_endian(bytes: Seq<u8>) -> nat
    decreases bytes.len(),
{
    if bytes.len() == 0 {
        0
    } else {
        big_endian(bytes.drop_last()) * 256 + bytes.last() as nat
    }
}

/// The number of values that `n` bytes can hold.
pub open spec fn byte_range(n: nat) -> nat
    decreases n,
{
    if n == 0 {
        1
    } else {
        256 * byte_range((n - 1) as nat)
    }
}

/// The number a binary field holds, or why it holds none. A field is read as
/// two's complement when it is signed. An unsigned one of the full sixteen bytes
/// with its top bit set holds a number too large to be read.
pub open spec fn binary_content(bytes: Seq<u8>, signed: bool) -> Result<int, Failure> {
    if bytes.len() == 0 {
        Err(Failure::Invalid("a binary field needs at least one byte"@))
    } else if bytes.len() > MAX_BINARY_BYTES {
        Err(
            Failure::Unsupported(
                "binary fields wider than 16 bytes are not supported (got "@ + decimal(
                    bytes.len(),
                ) + ")"@,
            ),
        )
    } else if signed && bytes[0] >= 0x80 {
        Ok(big_endian(bytes) - byte_range(bytes.len()))
    } else if big_endian(bytes) > i128::MAX {
        Err(
            Failure::Unsupported(
                "unsigned binary values above 2^127 - 1 are not supported (bytes "@ + hex_bytes(
                    bytes,
                ) + ")"@,
            ),
        )
    } else {
        Ok(big_endian(bytes) as int)
    }
}

/// A run of bytes spells a number below its range, and one at or above half of
/// it exactly when the first byte has its top bit set.
pub proof fn lemma_big_endian_range(bytes: Seq<u8>)
    ensures
        big_endian(bytes) < byte_range(bytes.len()),
        bytes.len() > 0 ==> (bytes[0] >= 0x80 <==> big_endian(bytes) * 2 >= byte_range(
            bytes.len(),
        )),
    decreases bytes.len(),
{
    if bytes.len() > 0 {
        let rest = bytes.drop_last();
        lemma_big_endian_range(rest);
        if bytes.len() == 1 {
            assert(big_endian(rest) == 0);
            assert(byte_range(0) == 1);
            assert(bytes.last() == bytes[0]);
        } else {
            assert(rest[0] == bytes[0]);
            assert(byte_range(bytes.len()) == 256 * byte_range(rest.len()));
            if bytes.len() > 1 {
                assert(byte_range(rest.len()) == 256 * byte_range((rest.len() - 1) as nat));
            }
        }
    }
}

/// The range of up to sixteen bytes.
pub proof fn lemma_byte_range(n: nat)
    requires
        n <= 16,
    ensures
        n < 16 ==> byte_range(n) <= 0x1_0000_0000_0000_0000_0000_0000_0000_00,
        n == 16 ==> byte_range(n) == 0x1_0000_0000_0000_0000_0000_0000_0000_0000,
{
    reveal_with_fuel(byte_range, 17);
}

/// Decode a big-endian binary field (`COMP` / `COMP-4` / `BINARY`).
pub fn decode_binary(bytes: &[u8], signed: bool) -> (r: Result<i128, ParseError>)
    ensures
        match r {
            Ok(value) => binary_content(bytes@, signed) == Ok::<_, Failure>(value as int),
            Err(error) => binary_content(bytes@, signed) == Err::<int, _>(error@),
        },
{
    if bytes.len() == 0 {
        return Err(ParseError::invalid("a binary field needs at least one byte".to_owned()));
    }
    if bytes.len() > MAX_BINARY_BYTES as usize {
        return Err(
            ParseError::unsupported(
                cat3(
                    "binary fields wider than 16 bytes are not supported (got ",
                    &decimal_text(bytes.len() as u128),
                    ")",
                ),
            ),
        );
    }
    let mut value: u128 = 0;
    let mut range: u128 = 1;
    let mut i: usize = 0;
    proof {
        assert(bytes@.take(0) =~= Seq::<u8>::empty());
        lemma_byte_range(bytes@.len());
    }
    while i < bytes.len()
        invariant
            i <= bytes@.len() <= 16,
            value == big_endian(bytes@.take(i as int)),
            i < 16 ==> range == byte_range(i as nat),
        decreases bytes@.len() - i,
    {
        proof {
            assert(bytes@.take(i + 1).drop_last() =~= bytes@.take(i as int));
            lemma_big_endian_range(bytes@.take(i + 1));
            lemma_byte_range((i + 1) as nat);
        }
        value = value * 256 + bytes[i] as u128;
        i = i + 1;
        if i < 16 {
            range = range * 256;
        }
    }
    proof {
        assert(bytes@.take(i as int) =~= bytes@);
        lemma_big_endian_range(bytes@);
    }
    let top: bool = bytes[0] >= 0x80;
    if bytes.len() == 16 {
        if !top {
            Ok(value as i128)
        } else if signed {
            let below: u128 = u128::MAX - value;
            Ok(-(below as i128) - 1)
        } else {
            Err(
                ParseError::unsupported(
                    cat3(
                        "unsigned binary values above 2^127 - 1 are not supported (bytes ",
                        &hex(bytes),
                        ")",
                    ),
                ),
            )
        }
    } else if top && signed {
        Ok(value as i128 - range as i128)
    } else {
        Ok(value as i128)
    }
}

/// The number of values that `n` decimal digits can spell.
pub open spec fn digit_range(n: nat) -> nat
    decreases n,
{
    if n == 0 {
        1
    } else {
        10 * digit_range((n - 1) as nat)
    }
}

/// A run of decimal digits spells a number below its range.
proof fn lemma_run_in_range(digits: Seq<int>)
    requires
        forall|i: int| 0 <= i < digits.len() ==> 0 <= #[trigger] digits[i] <= 9,
    ensures
        digit_run(digits) < digit_range(digits.len()),
    decreases digits.len(),
{
    if digits.len() > 0 {
        lemma_run_in_range(digits.drop_last());
    }
}

/// More digits have a larger range.
proof fn lemma_range_grows(n: nat, m: nat)
    requires
        n <= m,
    ensures
        digit_range(n) <= digit_range(m),
    decreases m,
{
    if n < m {
        lemma_range_grows(n, (m - 1) as nat);
    }
}

/// The range of thirty-seven digits.
proof fn lemma_range_37()
    ensures
        digit_range(37) == 10_000_000_000_000_000_000_000_000_000_000_000_000,
{
    reveal_with_fuel(digit_range, 38);
}

/// At most thirty-seven digits always spell a number that sixteen bytes hold.
proof fn lemma_digits_fit(digits: Seq<int>)
    requires
        digits.len() <= 37,
        forall|i: int| 0 <= i < digits.len() ==> 0 <= #[trigger] digits[i],
    ensures
        digits_fit(digits),
{
    lemma_first_bad(digits, 0);
    let good = digits.take(first_bad(digits, 0));
    lemma_run_in_range(good);
    lemma_range_grows(good.len(), 37);
    lemma_range_37();
}

/// An unsigned binary field never holds a negative number.
pub proof fn law_unsigned_binary_is_not_negative(bytes: Seq<u8>)
    ensures
        binary_content(bytes, false) matches Ok(value) ==> value == big_endian(bytes),
{
}

/// A packed field of at most [`MAX_PACKED_BYTES`] bytes always decodes to a
/// number or to an error: no value it can hold is too large.
pub proof fn law_packed_width_suffices(bytes: Seq<u8>)
    requires
        0 < bytes.len() <= MAX_PACKED_BYTES,
    ensures
        digits_fit(packed_digits(bytes)),
{
    lemma_digits_fit(packed_digits(bytes));
}

/// A zoned field of at most [`MAX_ZONED_BYTES`] bytes always decodes to a
/// number or to an error: no value it can hold is too large.
pub proof fn law_zoned_width_suffices(bytes: Seq<u8>)
    requires
        bytes.len() <= MAX_ZONED_BYTES,
    ensures
        digits_fit(zoned_digits(bytes)),
{
    lemma_digits_fit(zoned_digits(bytes));
}

} // verus!
