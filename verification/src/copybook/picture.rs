//! Picture clauses: what one and a usage together say about the bytes of an
//! item.

use vstd::prelude::*;
use crate::error::{Failure, ParseError};
use crate::layout::FieldKind;
use crate::text::{bounded_number, cat3, cat4, chars_of, decimal, decimal_text, find, parse_number,
    place_of, quote, quote_char, quoted, quoted_char, string_of};

verus! {

/// Largest number of character positions one picture clause may describe.
pub const MAX_RECORD_SYMBOLS: usize = 65_536;

/// The storage usages the compiler recognizes.
#[derive(Debug, Clone, Copy, PartialEq, Eq, Structural)]
pub enum Usage {
    /// `USAGE DISPLAY`, the default.
    Display,
    /// `COMP-3` / `PACKED-DECIMAL`.
    Packed,
    /// `COMP` / `COMP-4` / `BINARY`.
    Binary,
}

/// What a picture clause and a usage together say about the bytes.
#[derive(Debug, Clone, Copy, PartialEq, Eq)]
pub struct Described {
    /// Decoded type.
    pub kind: FieldKind,
    /// Width in bytes.
    pub size: u32,
    /// Implied decimal digits.
    pub scale: u32,
}

/// How the messages about a picture clause start.
pub open spec fn picture_of(picture: Seq<char>, label: Seq<char>) -> Seq<char> {
    "picture "@ + quoted(picture) + " of "@ + quoted(label)
}

/// A run of one symbol.
pub open spec fn run_of(symbol: char, count: nat) -> Seq<char> {
    Seq::new(count, |i: int| symbol)
}

/// How often the symbol at `i` is repeated, and where the symbol after it
/// stands: a symbol may have a repeat count in brackets behind it.
pub open spec fn repeat_at(picture: Seq<char>, label: Seq<char>, i: int) -> Result<
    (nat, int),
    Failure,
> {
    if picture[i] == '(' {
        Err(
            Failure::Invalid(
                picture_of(picture, label) + " starts a repeat count with nothing to repeat"@,
            ),
        )
    } else if i + 1 < picture.len() && picture[i + 1] == '(' {
        let close = place_of(picture, ')', i + 2);
        let digits = picture.subrange(i + 2, close);
        if close >= picture.len() || close == i + 2 {
            Err(
                Failure::Invalid(
                    picture_of(picture, label) + " has an unterminated repeat count"@,
                ),
            )
        } else {
            match bounded_number(digits, usize::MAX as nat) {
                None => Err(
                    Failure::Invalid(
                        picture_of(picture, label) + " has a non-numeric repeat count "@ + quoted(
                            digits,
                        ),
                    ),
                ),
                Some(count) => if count == 0 || count > MAX_RECORD_SYMBOLS {
                    Err(
                        Failure::Invalid(
                            picture_of(picture, label) + " repeats "@ + decimal(count)
                                + " times, outside 1..=65536"@,
                        ),
                    )
                } else {
                    Ok((count, close + 1))
                },
            }
        }
    } else {
        Ok((1, i + 1))
    }
}

/// The symbols of a picture clause from `i` on, behind those already there,
/// with the repeat counts resolved.
pub open spec fn expanded(
    picture: Seq<char>,
    label: Seq<char>,
    i: int,
    before: Seq<char>,
) -> Result<Seq<char>, Failure>
    decreases picture.len() - i,
{
    if i >= picture.len() {
        Ok(before)
    } else {
        match repeat_at(picture, label, i) {
            Err(failure) => Err(failure),
            Ok((count, next)) => {
                let symbols = before + run_of(picture[i], count);
                if symbols.len() > MAX_RECORD_SYMBOLS {
                    Err(
                        Failure::Invalid(
                            picture_of(picture, label)
                                + " describes more than 65536 character positions"@,
                        ),
                    )
                } else if next <= i {
                    Ok(symbols)
                } else {
                    expanded(picture, label, next, symbols)
                }
            },
        }
    }
}

/// Whether a symbol makes an item character data.
pub open spec fn is_character_symbol(c: char) -> bool {
    c == 'X' || c == 'A'
}

/// Whether a symbol belongs to numeric pictures only.
pub open spec fn is_numeric_symbol(c: char) -> bool {
    c == 'S' || c == 'V' || c == 'P'
}

/// The first symbol at or after `from` that no stored character item has, or
/// the number of symbols when there is none.
pub open spec fn first_edited(symbols: Seq<char>, from: int) -> int
    decreases symbols.len() - from,
{
    if from >= symbols.len() {
        symbols.len() as int
    } else if !is_character_symbol(symbols[from]) && symbols[from] != '9' {
        from
    } else {
        first_edited(symbols, from + 1)
    }
}

/// What a character picture describes: one byte per symbol.
pub open spec fn described_character(
    symbols: Seq<char>,
    picture: Seq<char>,
    usage: Usage,
    label: Seq<char>,
) -> Result<Described, Failure> {
    let bad = first_edited(symbols, 0);
    if exists|i: int| 0 <= i < symbols.len() && is_numeric_symbol(#[trigger] symbols[i]) {
        Err(
            Failure::Invalid(
                picture_of(picture, label)
                    + " mixes character symbols with the numeric symbols S, V or P"@,
            ),
        )
    } else if bad < symbols.len() {
        Err(
            Failure::Unsupported(
                picture_of(picture, label) + " uses the editing symbol "@ + quoted_char(
                    symbols[bad],
                ) + "; numeric-edited and alphanumeric-edited items are not decoded"@,
            ),
        )
    } else if usage != Usage::Display {
        Err(
            Failure::Invalid(
                quoted(label)
                    + " is a character item, so it cannot have a computational usage"@,
            ),
        )
    } else {
        Ok(Described { kind: FieldKind::Text, size: symbols.len() as u32, scale: 0 })
    }
}

/// How many of the first `k` symbols are `9`.
pub open spec fn digits_in(symbols: Seq<char>, k: int) -> nat
    decreases k,
{
    if k <= 0 {
        0
    } else if symbols[k - 1] == '9' {
        digits_in(symbols, k - 1) + 1
    } else {
        digits_in(symbols, k - 1)
    }
}

/// Whether a `V` stands among the first `k` symbols.
pub open spec fn has_point(symbols: Seq<char>, k: int) -> bool {
    exists|j: int| 0 <= j < k && #[trigger] symbols[j] == 'V'
}

/// How many `9` among the first `k` symbols stand behind a `V`.
pub open spec fn scale_in(symbols: Seq<char>, k: int) -> nat
    decreases k,
{
    if k <= 0 {
        0
    } else if symbols[k - 1] == '9' && has_point(symbols, k - 1) {
        scale_in(symbols, k - 1) + 1
    } else {
        scale_in(symbols, k - 1)
    }
}

/// The fault of the symbol at `k` of a numeric picture. Only `S`, `9` and `V`
/// describe stored digits; every other symbol belongs to an edited picture,
/// which describes how a number is printed rather than how it is stored.
pub open spec fn symbol_fault(
    symbols: Seq<char>,
    picture: Seq<char>,
    label: Seq<char>,
    k: int,
) -> Option<Failure> {
    if symbols[k] == 'S' {
        if k != 0 {
            Some(
                Failure::Invalid(
                    picture_of(picture, label) + " puts S somewhere other than the front"@,
                ),
            )
        } else {
            None
        }
    } else if symbols[k] == 'V' {
        if has_point(symbols, k) {
            Some(
                Failure::Invalid(
                    picture_of(picture, label) + " has more than one implied decimal point"@,
                ),
            )
        } else {
            None
        }
    } else if symbols[k] == '9' {
        None
    } else {
        Some(
            Failure::Unsupported(
                picture_of(picture, label) + " uses the symbol "@ + quoted_char(symbols[k])
                    + "; only S, 9 and V describe stored digits, everything else is an edited picture this build does not decode"@,
            ),
        )
    }
}

/// The fault of the first faulty symbol at or after `from`.
pub open spec fn symbols_fault(
    symbols: Seq<char>,
    picture: Seq<char>,
    label: Seq<char>,
    from: int,
) -> Option<Failure>
    decreases symbols.len() - from,
{
    if from >= symbols.len() {
        None
    } else if symbol_fault(symbols, picture, label, from) is Some {
        symbol_fault(symbols, picture, label, from)
    } else {
        symbols_fault(symbols, picture, label, from + 1)
    }
}

/// What a numeric picture describes: one byte per digit on display, two digits
/// per byte and a sign nibble when packed, and two, four or eight bytes when
/// binary.
pub open spec fn described_numeric(
    symbols: Seq<char>,
    picture: Seq<char>,
    usage: Usage,
    label: Seq<char>,
) -> Result<Described, Failure> {
    let digits = digits_in(symbols, symbols.len() as int);
    let scale = scale_in(symbols, symbols.len() as int) as u32;
    match symbols_fault(symbols, picture, label, 0) {
        Some(failure) => Err(failure),
        None => if digits == 0 {
            Err(
                Failure::Invalid(picture_of(picture, label) + " declares no digit positions"@),
            )
        } else {
            match usage {
                Usage::Display => Ok(
                    Described { kind: FieldKind::ZonedDecimal, size: digits as u32, scale },
                ),
                Usage::Packed => Ok(
                    Described {
                        kind: FieldKind::PackedDecimal,
                        size: (digits / 2 + 1) as u32,
                        scale,
                    },
                ),
                Usage::Binary => if digits > 18 {
                    Err(
                        Failure::Unsupported(
                            quoted(label) + " is a binary item of "@ + decimal(digits)
                                + " digits; COBOL binary stops at 18"@,
                        ),
                    )
                } else {
                    Ok(
                        Described {
                            kind: if symbols[0] == 'S' {
                                FieldKind::Integer
                            } else {
                                FieldKind::UnsignedInteger
                            },
                            size: if digits <= 4 {
                                2
                            } else if digits <= 9 {
                                4
                            } else {
                                8
                            },
                            scale,
                        },
                    )
                },
            }
        },
    }
}

/// What a picture clause and a usage describe. One `X` or `A` anywhere makes
/// the whole item character data, however many `9`s it also contains.
pub open spec fn described(picture: Seq<char>, usage: Usage, label: Seq<char>) -> Result<
    Described,
    Failure,
> {
    match expanded(picture, label, 0, Seq::empty()) {
        Err(failure) => Err(failure),
        Ok(symbols) => if symbols.len() == 0 {
            Err(Failure::Invalid("picture clause of "@ + quoted(label) + " is empty"@))
        } else if exists|i: int|
            0 <= i < symbols.len() && is_character_symbol(#[trigger] symbols[i]) {
            described_character(symbols, picture, usage, label)
        } else {
            described_numeric(symbols, picture, usage, label)
        },
    }
}

fn start_of(picture: &str, label: &str) -> (r: String)
    ensures
        r@ == picture_of(picture@, label@),
{
    cat4("picture ", &quote(picture), " of ", &quote(label))
}

/// Read the repeat count of the symbol at `i`.
fn read_repeat(picture: &str, chars: &[char], label: &str, i: usize) -> (r: Result<
    (usize, usize),
    ParseError,
>)
    requires
        chars@ == picture@,
        i < chars@.len(),
    ensures
        match r {
            Ok(found) => {
                &&& repeat_at(picture@, label@, i as int) == Ok::<_, Failure>(
                    (found.0 as nat, found.1 as int),
                )
                &&& found.0 <= MAX_RECORD_SYMBOLS
                &&& i < found.1 <= chars@.len()
            },
            Err(error) => repeat_at(picture@, label@, i as int) == Err::<(nat, int), _>(error@),
        },
{
    if chars[i] == '(' {
        return Err(
            ParseError::invalid(
                crate::text::cat2(
                    &start_of(picture, label),
                    " starts a repeat count with nothing to repeat",
                ),
            ),
        );
    }
    if !(i + 1 < chars.len() && chars[i + 1] == '(') {
        return Ok((1, i + 1));
    }
    let close: usize = find(chars, ')', i + 2);
    if close == chars.len() || close == i + 2 {
        return Err(
            ParseError::invalid(
                crate::text::cat2(
                    &start_of(picture, label),
                    " has an unterminated repeat count",
                ),
            ),
        );
    }
    let digits: String = string_of(chars, i + 2, close);
    match parse_number(&digits, usize::MAX as u128) {
        None => Err(
            ParseError::invalid(
                cat3(
                    &start_of(picture, label),
                    " has a non-numeric repeat count ",
                    &quote(&digits),
                ),
            ),
        ),
        Some(count) => if count == 0 || count > MAX_RECORD_SYMBOLS as u128 {
            Err(
                ParseError::invalid(
                    cat4(
                        &start_of(picture, label),
                        " repeats ",
                        &decimal_text(count),
                        " times, outside 1..=65536",
                    ),
                ),
            )
        } else {
            Ok((count as usize, close + 1))
        },
    }
}

/// Expand a picture clause into its symbol run, resolving repeat counts.
fn expand(picture: &str, label: &str) -> (r: Result<Vec<char>, ParseError>)
    ensures
        match r {
            Ok(symbols) => {
                &&& expanded(picture@, label@, 0, Seq::empty()) == Ok::<_, Failure>(symbols@)
                &&& symbols@.len() <= MAX_RECORD_SYMBOLS
            },
            Err(error) => expanded(picture@, label@, 0, Seq::empty()) == Err::<Seq<char>, _>(
                error@,
            ),
        },
{
    let chars: Vec<char> = chars_of(picture);
    let mut out: Vec<char> = Vec::new();
    let mut i: usize = 0;
    while i < chars.len()
        invariant
            i <= chars@.len(),
            chars@ == picture@,
            out@.len() <= MAX_RECORD_SYMBOLS,
            expanded(picture@, label@, 0, Seq::empty()) == expanded(
                picture@,
                label@,
                i as int,
                out@,
            ),
        decreases chars@.len() - i,
    {
        let found: (usize, usize) = match read_repeat(picture, &chars, label, i) {
            Err(error) => {
                return Err(error);
            },
            Ok(found) => found,
        };
        let ghost before = out@;
        let symbol: char = chars[i];
        let mut n: usize = 0;
        while n < found.0
            invariant
                n <= found.0,
                out@ == before + run_of(symbol, n as nat),
            decreases found.0 - n,
        {
            out.push(symbol);
            n = n + 1;
            proof {
                assert(out@ =~= before + run_of(symbol, n as nat));
            }
        }
        if out.len() > MAX_RECORD_SYMBOLS {
            return Err(
                ParseError::invalid(
                    crate::text::cat2(
                        &start_of(picture, label),
                        " describes more than 65536 character positions",
                    ),
                ),
            );
        }
        i = found.1;
    }
    Ok(out)
}

/// Resolve a character picture clause.
fn describe_character(symbols: &[char], picture: &str, usage: Usage, label: &str) -> (r: Result<
    Described,
    ParseError,
>)
    requires
        symbols@.len() <= MAX_RECORD_SYMBOLS,
    ensures
        match r {
            Ok(found) => described_character(symbols@, picture@, usage, label@) == Ok::<
                _,
                Failure,
            >(found),
            Err(error) => described_character(symbols@, picture@, usage, label@) == Err::<
                Described,
                _,
            >(error@),
        },
{
    let mut i: usize = 0;
    while i < symbols.len()
        invariant
            i <= symbols@.len(),
            forall|j: int| 0 <= j < i ==> !is_numeric_symbol(#[trigger] symbols@[j]),
        decreases symbols@.len() - i,
    {
        let c: char = symbols[i];
        if c == 'S' || c == 'V' || c == 'P' {
            proof {
                assert(is_numeric_symbol(symbols@[i as int]));
            }
            return Err(
                ParseError::invalid(
                    crate::text::cat2(
                        &start_of(picture, label),
                        " mixes character symbols with the numeric symbols S, V or P",
                    ),
                ),
            );
        }
        i = i + 1;
    }
    i = 0;
    while i < symbols.len()
        invariant
            i <= symbols@.len(),
            first_edited(symbols@, 0) == first_edited(symbols@, i as int),
            forall|j: int| 0 <= j < symbols@.len() ==> !is_numeric_symbol(#[trigger] symbols@[j]),
        decreases symbols@.len() - i,
    {
        let c: char = symbols[i];
        if c != 'X' && c != 'A' && c != '9' {
            return Err(
                ParseError::unsupported(
                    cat4(
                        &start_of(picture, label),
                        " uses the editing symbol ",
                        &quote_char(c),
                        "; numeric-edited and alphanumeric-edited items are not decoded",
                    ),
                ),
            );
        }
        i = i + 1;
    }
    if usage != Usage::Display {
        return Err(
            ParseError::invalid(
                crate::text::cat2(
                    &quote(label),
                    " is a character item, so it cannot have a computational usage",
                ),
            ),
        );
    }
    Ok(Described { kind: FieldKind::Text, size: symbols.len() as u32, scale: 0 })
}

/// Check the symbols of a numeric picture clause and count its digits. The
/// second result is the scale.
fn count_digits(symbols: &[char], picture: &str, label: &str) -> (r: Result<
    (u32, u32),
    ParseError,
>)
    requires
        symbols@.len() <= MAX_RECORD_SYMBOLS,
    ensures
        match r {
            Ok(counts) => {
                &&& symbols_fault(symbols@, picture@, label@, 0) is None
                &&& counts.0 == digits_in(symbols@, symbols@.len() as int)
                &&& counts.1 == scale_in(symbols@, symbols@.len() as int)
            },
            Err(error) => symbols_fault(symbols@, picture@, label@, 0) == Some(error@),
        },
{
    let mut digits: u32 = 0;
    let mut scale: u32 = 0;
    let mut seen_point: bool = false;
    let mut k: usize = 0;
    while k < symbols.len()
        invariant
            k <= symbols@.len() <= MAX_RECORD_SYMBOLS,
            symbols_fault(symbols@, picture@, label@, 0) == symbols_fault(
                symbols@,
                picture@,
                label@,
                k as int,
            ),
            digits == digits_in(symbols@, k as int),
            scale == scale_in(symbols@, k as int),
            digits <= k,
            scale <= k,
            seen_point == has_point(symbols@, k as int),
        decreases symbols@.len() - k,
    {
        let c: char = symbols[k];
        if c == 'S' {
            if k != 0 {
                return Err(
                    ParseError::invalid(
                        crate::text::cat2(
                            &start_of(picture, label),
                            " puts S somewhere other than the front",
                        ),
                    ),
                );
            }
        } else if c == 'V' {
            if seen_point {
                return Err(
                    ParseError::invalid(
                        crate::text::cat2(
                            &start_of(picture, label),
                            " has more than one implied decimal point",
                        ),
                    ),
                );
            }
            seen_point = true;
            proof {
                assert(symbols@[k as int] == 'V');
            }
        } else if c == '9' {
            digits = digits + 1;
            if seen_point {
                scale = scale + 1;
            }
        } else {
            return Err(
                ParseError::unsupported(
                    cat4(
                        &start_of(picture, label),
                        " uses the symbol ",
                        &quote_char(c),
                        "; only S, 9 and V describe stored digits, everything else is an edited picture this build does not decode",
                    ),
                ),
            );
        }
        k = k + 1;
    }
    Ok((digits, scale))
}

/// Resolve a numeric picture clause together with its usage.
fn describe_numeric(symbols: &[char], picture: &str, usage: Usage, label: &str) -> (r: Result<
    Described,
    ParseError,
>)
    requires
        0 < symbols@.len() <= MAX_RECORD_SYMBOLS,
    ensures
        match r {
            Ok(found) => described_numeric(symbols@, picture@, usage, label@) == Ok::<_, Failure>(
                found,
            ),
            Err(error) => described_numeric(symbols@, picture@, usage, label@) == Err::<
                Described,
                _,
            >(error@),
        },
{
    let counts: (u32, u32) = match count_digits(symbols, picture, label) {
        Err(error) => {
            return Err(error);
        },
        Ok(counts) => counts,
    };
    let digits: u32 = counts.0;
    let scale: u32 = counts.1;
    if digits == 0 {
        return Err(
            ParseError::invalid(
                crate::text::cat2(&start_of(picture, label), " declares no digit positions"),
            ),
        );
    }
    match usage {
        Usage::Display => Ok(Described { kind: FieldKind::ZonedDecimal, size: digits, scale }),
        Usage::Packed => Ok(
            Described { kind: FieldKind::PackedDecimal, size: digits / 2 + 1, scale },
        ),
        Usage::Binary => {
            let size: u32 = if digits <= 4 {
                2
            } else if digits <= 9 {
                4
            } else if digits <= 18 {
                8
            } else {
                return Err(
                    ParseError::unsupported(
                        cat4(
                            &quote(label),
                            " is a binary item of ",
                            &decimal_text(digits as u128),
                            " digits; COBOL binary stops at 18",
                        ),
                    ),
                );
            };
            let kind: FieldKind = if symbols[0] == 'S' {
                FieldKind::Integer
            } else {
                FieldKind::UnsignedInteger
            };
            Ok(Described { kind, size, scale })
        },
    }
}

/// Resolve a picture clause and a usage into a field description.
pub fn describe(picture: &str, usage: Usage, label: &str) -> (r: Result<Described, ParseError>)
    ensures
        match r {
            Ok(found) => described(picture@, usage, label@) == Ok::<_, Failure>(found),
            Err(error) => described(picture@, usage, label@) == Err::<Described, _>(error@),
        },
{
    let symbols: Vec<char> = match expand(picture, label) {
        Err(error) => {
            return Err(error);
        },
        Ok(symbols) => symbols,
    };
    if symbols.len() == 0 {
        return Err(
            ParseError::invalid(cat3("picture clause of ", &quote(label), " is empty")),
        );
    }
    let mut i: usize = 0;
    while i < symbols.len()
        invariant
            i <= symbols@.len() <= MAX_RECORD_SYMBOLS,
            expanded(picture@, label@, 0, Seq::empty()) == Ok::<_, Failure>(symbols@),
            symbols@.len() > 0,
            forall|j: int| 0 <= j < i ==> !is_character_symbol(#[trigger] symbols@[j]),
        decreases symbols@.len() - i,
    {
        if symbols[i] == 'X' || symbols[i] == 'A' {
            proof {
                assert(is_character_symbol(symbols@[i as int]));
            }
            return describe_character(&symbols, picture, usage, label);
        }
        i = i + 1;
    }
    describe_numeric(&symbols, picture, usage, label)
}

} // verus!
