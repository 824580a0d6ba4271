//! Characters and text: the small vocabulary every message and every parser
//! of the library is written in.
//!
//! Contracts speak of text as a sequence of characters (`Seq<char>`). The
//! executable functions here build and take apart strings with contracts over
//! those sequences, so that a message, a rendered number or a parsed number is
//! pinned down character by character.

pub mod laws;

use vstd::prelude::*;
use vstd::string::StringExecFns;

verus! {

/// `String::push` appends one character to the end of the string.
pub assume_specification[ std::string::String::push ](s: &mut std::string::String, c: char)
    ensures
        final(s)@ == old(s)@.push(c),
;

/// What `{:?}` prints for a piece of text: the text between double quotes,
/// with the escapes the standard library chooses.
pub uninterp spec fn quoted(text: Seq<char>) -> Seq<char>;

/// The `Debug` rendering of `str`, through `format!`: the result is the name
/// [`quoted`] of the text. Which characters are escaped, and how, is left
/// unsaid.
#[verifier::external_body]
pub(crate) fn quote(text: &str) -> (r: String)
    ensures
        r@ == quoted(text@),
{
    format!("{text:?}")
}

/// What `{:?}` prints for one character: the character between single quotes,
/// with the escapes the standard library chooses.
pub uninterp spec fn quoted_char(c: char) -> Seq<char>;

/// The `Debug` rendering of `char`, through `format!`: the result is the name
/// [`quoted_char`] of the character.
#[verifier::external_body]
pub(crate) fn quote_char(c: char) -> (r: String)
    ensures
        r@ == quoted_char(c),
{
    format!("{c:?}")
}

/// The characters with the Unicode property `White_Space`.
pub open spec fn is_space(c: char) -> bool {
    ||| '\u{9}' <= c <= '\u{d}'
    ||| c == ' '
    ||| c == '\u{85}'
    ||| c == '\u{a0}'
    ||| c == '\u{1680}'
    ||| '\u{2000}' <= c <= '\u{200a}'
    ||| c == '\u{2028}'
    ||| c == '\u{2029}'
    ||| c == '\u{202f}'
    ||| c == '\u{205f}'
    ||| c == '\u{3000}'
}

/// Whether a character is white space.
pub fn space(c: char) -> (r: bool)
    ensures
        r == is_space(c),
{
    ('\u{9}' <= c && c <= '\u{d}') || c == ' ' || c == '\u{85}' || c == '\u{a0}' || c
        == '\u{1680}' || ('\u{2000}' <= c && c <= '\u{200a}') || c == '\u{2028}' || c
        == '\u{2029}' || c == '\u{202f}' || c == '\u{205f}' || c == '\u{3000}'
}

/// The characters of the Unicode category `Cc`.
pub open spec fn is_control(c: char) -> bool {
    c <= '\u{1f}' || '\u{7f}' <= c <= '\u{9f}'
}

/// Whether a character is a control character.
pub fn control(c: char) -> (r: bool)
    ensures
        r == is_control(c),
{
    c <= '\u{1f}' || ('\u{7f}' <= c && c <= '\u{9f}')
}

/// The characters of a string, one by one.
pub fn chars_of(text: &str) -> (r: Vec<char>)
    ensures
        r@ == text@,
{
    let mut out: Vec<char> = Vec::new();
    for c in it: text.chars()
        invariant
            out@ == text@.take(it.index() as int),
            it.seq() == text@,
    {
        out.push(c);
    }
    out
}

/// The string made of the characters `from..to`.
pub fn string_of(chars: &[char], from: usize, to: usize) -> (r: String)
    requires
        from <= to <= chars@.len(),
    ensures
        r@ == chars@.subrange(from as int, to as int),
{
    let mut out: String = String::new();
    let mut i: usize = from;
    while i < to
        invariant
            from <= i <= to <= chars@.len(),
            out@ == chars@.subrange(from as int, i as int),
        decreases to - i,
    {
        out.push(chars[i]);
        i = i + 1;
    }
    out
}

/// Two pieces of text, one after the other.
pub fn cat2(a: &str, b: &str) -> (r: String)
    ensures
        r@ == a@ + b@,
{
    let mut out: String = String::from_str(a);
    out.append(b);
    out
}

/// Three pieces of text, one after the other.
pub fn cat3(a: &str, b: &str, c: &str) -> (r: String)
    ensures
        r@ == a@ + b@ + c@,
{
    let mut out: String = String::from_str(a);
    out.append(b);
    out.append(c);
    out
}

/// Four pieces of text, one after the other.
pub fn cat4(a: &str, b: &str, c: &str, d: &str) -> (r: String)
    ensures
        r@ == a@ + b@ + c@ + d@,
{
    let mut out: String = String::from_str(a);
    out.append(b);
    out.append(c);
    out.append(d);
    out
}

/// Five pieces of text, one after the other.
pub fn cat5(a: &str, b: &str, c: &str, d: &str, e: &str) -> (r: String)
    ensures
        r@ == a@ + b@ + c@ + d@ + e@,
{
    let mut out: String = String::from_str(a);
    out.append(b);
    out.append(c);
    out.append(d);
    out.append(e);
    out
}

/// Six pieces of text, one after the other.
pub fn cat6(a: &str, b: &str, c: &str, d: &str, e: &str, f: &str) -> (r: String)
    ensures
        r@ == a@ + b@ + c@ + d@ + e@ + f@,
{
    let mut out: String = String::from_str(a);
    out.append(b);
    out.append(c);
    out.append(d);
    out.append(e);
    out.append(f);
    out
}

/// Seven pieces of text, one after the other.
pub fn cat7(a: &str, b: &str, c: &str, d: &str, e: &str, f: &str, g: &str) -> (r: String)
    ensures
        r@ == a@ + b@ + c@ + d@ + e@ + f@ + g@,
{
    let mut out: String = String::from_str(a);
    out.append(b);
    out.append(c);
    out.append(d);
    out.append(e);
    out.append(f);
    out.append(g);
    out
}

/// Eight pieces of text, one after the other.
pub fn cat8(a: &str, b: &str, c: &str, d: &str, e: &str, f: &str, g: &str, h: &str) -> (r: String)
    ensures
        r@ == a@ + b@ + c@ + d@ + e@ + f@ + g@ + h@,
{
    let mut out: String = String::from_str(a);
    out.append(b);
    out.append(c);
    out.append(d);
    out.append(e);
    out.append(f);
    out.append(g);
    out.append(h);
    out
}

/// Nine pieces of text, one after the other.
pub fn cat9(a: &str, b: &str, c: &str, d: &str, e: &str, f: &str, g: &str, h: &str, i: &str) -> (r: String)
    ensures
        r@ == a@ + b@ + c@ + d@ + e@ + f@ + g@ + h@ + i@,
{
    let mut out: String = String::from_str(a);
    out.append(b);
    out.append(c);
    out.append(d);
    out.append(e);
    out.append(f);
    out.append(g);
    out.append(h);
    out.append(i);
    out
}

/// The decimal digit character of a number below ten.
pub open spec fn digit_char(d: nat) -> char {
    (0x30 + d) as char
}

/// The decimal rendering of a natural number, without leading zeros.
pub open spec fn decimal(n: nat) -> Seq<char>
    decreases n,
{
    if n < 10 {
        seq![digit_char(n)]
    } else {
        decimal(n / 10).push(digit_char(n % 10))
    }
}

/// The decimal rendering of an integer: a minus sign in front of a negative
/// one.
pub open spec fn signed_decimal(n: int) -> Seq<char> {
    if n < 0 {
        seq!['-'] + decimal((-n) as nat)
    } else {
        decimal(n as nat)
    }
}

fn digit(d: u8) -> (r: char)
    requires
        d < 10,
    ensures
        r == digit_char(d as nat),
{
    let code: u8 = 0x30 + d;
    code as char
}

/// Render a natural number in decimal.
pub fn decimal_text(n: u128) -> (r: String)
    ensures
        r@ == decimal(n as nat),
{
    let mut reversed: Vec<char> = Vec::new();
    let mut rest: u128 = n;
    let ghost mut tail: Seq<char> = Seq::empty();
    while rest >= 10
        invariant
            decimal(n as nat) == decimal(rest as nat) + tail,
            tail.len() == reversed@.len(),
            forall|i: int| 0 <= i < tail.len() ==> tail[i] == reversed@[tail.len() - 1 - i],
        decreases rest,
    {
        let d: u8 = (rest % 10) as u8;
        let c: char = digit(d);
        proof {
            assert(decimal(rest as nat) == decimal(rest as nat / 10).push(c));
            assert(decimal(rest as nat / 10).push(c) + tail =~= decimal(rest as nat / 10) + (
            seq![c] + tail));
            tail = seq![c] + tail;
        }
        reversed.push(c);
        rest = rest / 10;
    }
    let mut out: String = String::new();
    out.push(digit(rest as u8));
    let mut i: usize = reversed.len();
    proof {
        assert(out@ =~= decimal(rest as nat) + tail.take(0));
    }
    while i > 0
        invariant
            i <= reversed@.len(),
            tail.len() == reversed@.len(),
            forall|j: int| 0 <= j < tail.len() ==> tail[j] == reversed@[tail.len() - 1 - j],
            out@ == decimal(rest as nat) + tail.take(reversed@.len() - i),
        decreases i,
    {
        i = i - 1;
        out.push(reversed[i]);
        proof {
            let k = reversed@.len() - i;
            assert(tail.take(k) =~= tail.take(k - 1).push(tail[k - 1]));
        }
    }
    proof {
        assert(tail.take(reversed@.len() as int) =~= tail);
    }
    out
}

/// Render an integer in decimal.
pub fn signed_text(n: i128) -> (r: String)
    ensures
        r@ == signed_decimal(n as int),
{
    if n >= 0 {
        return decimal_text(n as u128);
    }
    let magnitude: u128 = magnitude(n);
    let mut out: String = String::new();
    out.push('-');
    out.append(&decimal_text(magnitude));
    proof {
        assert(out@ =~= seq!['-'] + decimal(magnitude as nat));
    }
    out
}

/// The distance of an integer from zero.
pub fn magnitude(n: i128) -> (r: u128)
    ensures
        r == if n < 0 { -n } else { n as int },
{
    if n >= 0 {
        n as u128
    } else {
        // One short of the distance, so that the most negative value has one.
        let short: i128 = -(n + 1);
        short as u128 + 1
    }
}

/// Whether two pieces of text are the same.
pub fn same(a: &str, b: &str) -> (r: bool)
    ensures
        r == (a@ == b@),
{
    let mut left = a.chars();
    let mut right = b.chars();
    let ghost mut k: int = 0;
    proof {
        assert(a@.skip(0) =~= a@);
        assert(b@.skip(0) =~= b@);
    }
    loop
        invariant
            0 <= k <= a@.len(),
            k <= b@.len(),
            vstd::std_specs::iter::IteratorSpec::obeys_prophetic_iter_laws(&left),
            vstd::std_specs::iter::IteratorSpec::obeys_prophetic_iter_laws(&right),
            vstd::std_specs::iter::IteratorSpec::remaining(&left) == a@.skip(k),
            vstd::std_specs::iter::IteratorSpec::remaining(&right) == b@.skip(k),
            forall|i: int| 0 <= i < k ==> a@[i] == b@[i],
        decreases a@.len() - k,
    {
        let x: Option<char> = left.next();
        let y: Option<char> = right.next();
        match (x, y) {
            (Some(c), Some(d)) => {
                proof {
                    assert(c == a@[k] && d == b@[k]);
                }
                if c != d {
                    return false;
                }
                proof {
                    assert(a@.skip(k).drop_first() =~= a@.skip(k + 1));
                    assert(b@.skip(k).drop_first() =~= b@.skip(k + 1));
                    k = k + 1;
                }
            },
            (None, None) => {
                proof {
                    assert(a@ =~= b@);
                }
                return true;
            },
            _ => {
                return false;
            },
        }
    }
}

/// Whether two pieces of text agree up to place `k` and differ there with the
/// first one coming first: it ends there, or has the smaller character there.
pub open spec fn parts_before(a: Seq<char>, b: Seq<char>, k: int) -> bool {
    &&& 0 <= k <= a.len()
    &&& k < b.len()
    &&& forall|i: int| 0 <= i < k ==> a[i] == b[i]
    &&& k < a.len() ==> a[k] < b[k]
}

/// Whether one piece of text comes before another in the order of their
/// characters, which is the order of the bytes they are encoded in.
pub open spec fn precedes(a: Seq<char>, b: Seq<char>) -> bool {
    exists|k: int| parts_before(a, b, k)
}

/// No text comes before itself.
pub proof fn lemma_precedes_is_strict(a: Seq<char>)
    ensures
        !precedes(a, a),
{
    if precedes(a, a) {
        let k = choose|k: int| parts_before(a, a, k);
        assert(parts_before(a, a, k));
    }
}

/// The order of texts is transitive.
pub proof fn lemma_precedes_is_transitive(a: Seq<char>, b: Seq<char>, c: Seq<char>)
    requires
        precedes(a, b),
        precedes(b, c),
    ensures
        precedes(a, c),
{
    let j = choose|k: int| parts_before(a, b, k);
    let k = choose|k: int| parts_before(b, c, k);
    assert(parts_before(a, c, if j <= k { j } else { k }));
}

/// Of two different texts one comes before the other.
pub proof fn lemma_precedes_is_total(a: Seq<char>, b: Seq<char>)
    requires
        a != b,
    ensures
        precedes(a, b) || precedes(b, a),
{
    lemma_parting(a, b, 0);
}

/// Two different texts that agree up to place `k` are in order.
proof fn lemma_parting(a: Seq<char>, b: Seq<char>, k: int)
    requires
        a != b,
        0 <= k <= a.len(),
        k <= b.len(),
        forall|i: int| 0 <= i < k ==> a[i] == b[i],
    ensures
        precedes(a, b) || precedes(b, a),
    decreases a.len() - k,
{
    if k < a.len() && k < b.len() && a[k] == b[k] {
        lemma_parting(a, b, k + 1);
    } else {
        if k == a.len() && k == b.len() {
            assert(a =~= b);
        }
        assert(parts_before(a, b, k) || parts_before(b, a, k));
    }
}

/// Whether one piece of text comes before another.
pub fn comes_before(a: &str, b: &str) -> (r: bool)
    ensures
        r == precedes(a@, b@),
{
    let mut left = a.chars();
    let mut right = b.chars();
    let ghost mut k: int = 0;
    proof {
        assert(a@.skip(0) =~= a@);
        assert(b@.skip(0) =~= b@);
    }
    loop
        invariant
            0 <= k <= a@.len(),
            k <= b@.len(),
            vstd::std_specs::iter::IteratorSpec::obeys_prophetic_iter_laws(&left),
            vstd::std_specs::iter::IteratorSpec::obeys_prophetic_iter_laws(&right),
            vstd::std_specs::iter::IteratorSpec::remaining(&left) == a@.skip(k),
            vstd::std_specs::iter::IteratorSpec::remaining(&right) == b@.skip(k),
            forall|i: int| 0 <= i < k ==> a@[i] == b@[i],
        decreases a@.len() - k,
    {
        let x: Option<char> = left.next();
        let y: Option<char> = right.next();
        proof {
            assert(forall|j: int| parts_before(a@, b@, j) ==> j >= k);
        }
        match (x, y) {
            (Some(c), Some(d)) => {
                proof {
                    assert(c == a@[k] && d == b@[k]);
                }
                if c != d {
                    proof {
                        assert(c < d ==> parts_before(a@, b@, k));
                        assert(forall|j: int| parts_before(a@, b@, j) ==> j <= k);
                    }
                    return c < d;
                }
                proof {
                    assert(a@.skip(k).drop_first() =~= a@.skip(k + 1));
                    assert(b@.skip(k).drop_first() =~= b@.skip(k + 1));
                    k = k + 1;
                }
            },
            (None, Some(_)) => {
                proof {
                    assert(parts_before(a@, b@, k));
                }
                return true;
            },
            (_, None) => {
                proof {
                    assert(b@.len() == k);
                }
                return false;
            },
        }
    }
}

/// The lowercase hexadecimal digit of a number below sixteen.
pub open spec fn hex_char(d: nat) -> char {
    if d < 10 {
        (0x30 + d) as char
    } else {
        (0x57 + d) as char
    }
}

/// Bytes in lowercase hexadecimal, two digits each.
pub open spec fn hex_bytes(bytes: Seq<u8>) -> Seq<char> {
    Seq::new(
        bytes.len() * 2,
        |i: int|
            if i % 2 == 0 {
                hex_char((bytes[i / 2] / 16) as nat)
            } else {
                hex_char((bytes[i / 2] % 16) as nat)
            },
    )
}

/// The lowercase hexadecimal digit of a nibble.
pub fn hex_digit(d: u8) -> (r: char)
    requires
        d < 16,
    ensures
        r == hex_char(d as nat),
{
    let code: u8 = if d < 10 {
        0x30 + d
    } else {
        0x57 + d
    };
    code as char
}

/// Render bytes in lowercase hexadecimal.
pub fn hex(bytes: &[u8]) -> (r: String)
    ensures
        r@ == hex_bytes(bytes@),
{
    let mut out: String = String::new();
    let mut i: usize = 0;
    while i < bytes.len()
        invariant
            i <= bytes@.len(),
            out@ == hex_bytes(bytes@.take(i as int)),
        decreases bytes@.len() - i,
    {
        out.push(hex_digit(bytes[i] / 16));
        out.push(hex_digit(bytes[i] % 16));
        i = i + 1;
        proof {
            assert(out@ =~= hex_bytes(bytes@.take(i as int)));
        }
    }
    proof {
        assert(bytes@.take(i as int) =~= bytes@);
    }
    out
}

/// The decimal digits of ASCII.
pub open spec fn is_digit(c: char) -> bool {
    '0' <= c <= '9'
}

/// The number a run of decimal digits spells.
pub open spec fn digits_value(s: Seq<char>) -> nat
    decreases s.len(),
{
    if s.len() == 0 {
        0
    } else {
        digits_value(s.drop_last()) * 10 + (s.last() as nat - 0x30) as nat
    }
}

/// Whether text is one or more decimal digits and nothing else.
pub open spec fn is_numeral(s: Seq<char>) -> bool {
    s.len() > 0 && forall|i: int| 0 <= i < s.len() ==> is_digit(#[trigger] s[i])
}

/// The unsigned number a piece of text spells: decimal digits, with an
/// optional plus sign in front.
pub open spec fn unsigned_number(s: Seq<char>) -> Option<nat> {
    let body = if s.len() > 0 && s[0] == '+' {
        s.skip(1)
    } else {
        s
    };
    if is_numeral(body) {
        Some(digits_value(body))
    } else {
        None
    }
}

/// The signed number a piece of text spells: decimal digits, with an optional
/// plus or minus sign in front.
pub open spec fn signed_number(s: Seq<char>) -> Option<int> {
    if s.len() > 0 && s[0] == '-' {
        if is_numeral(s.skip(1)) {
            Some(-(digits_value(s.skip(1)) as int))
        } else {
            None
        }
    } else {
        match unsigned_number(s) {
            Some(n) => Some(n as int),
            None => None,
        }
    }
}

/// The number a piece of text spells, when it is at most `limit`.
pub open spec fn bounded_number(s: Seq<char>, limit: nat) -> Option<nat> {
    match unsigned_number(s) {
        Some(n) => if n <= limit {
            Some(n)
        } else {
            None
        },
        None => None,
    }
}

/// More digits never make a smaller number.
proof fn lemma_digits_grow(s: Seq<char>, k: int)
    requires
        0 <= k <= s.len(),
    ensures
        digits_value(s.take(k)) <= digits_value(s),
    decreases s.len(),
{
    if k == s.len() {
        assert(s.take(k) =~= s);
    } else {
        lemma_digits_grow(s.drop_last(), k);
        assert(s.drop_last().take(k) =~= s.take(k));
    }
}

/// Read `chars[from..]` as a numeral of at most `limit`.
fn numeral(chars: &[char], from: usize, limit: u128) -> (r: Option<u128>)
    requires
        from <= chars@.len(),
    ensures
        ({
            let body = chars@.skip(from as int);
            match r {
                Some(n) => is_numeral(body) && digits_value(body) == n && n <= limit,
                None => !(is_numeral(body) && digits_value(body) <= limit),
            }
        }),
{
    if from == chars.len() {
        return None;
    }
    let ghost body = chars@.skip(from as int);
    let mut value: u128 = 0;
    let mut i: usize = from;
    while i < chars.len()
        invariant
            from <= i <= chars@.len(),
            body == chars@.skip(from as int),
            forall|j: int| 0 <= j < i - from ==> is_digit(#[trigger] body[j]),
            value == digits_value(body.take(i - from)),
            value <= limit,
        decreases chars@.len() - i,
    {
        let c: char = chars[i];
        proof {
            assert(body[i - from] == c);
            assert(body.take(i + 1 - from).drop_last() =~= body.take(i - from));
            assert(body.take(i + 1 - from).last() == c);
        }
        if c < '0' || '9' < c {
            return None;
        }
        let d: u128 = (c as u32 - 0x30) as u128;
        if d > limit || value > (limit - d) / 10 {
            proof {
                assert(value * 10 + d > limit);
                lemma_digits_grow(body, i + 1 - from);
            }
            return None;
        }
        value = value * 10 + d;
        i = i + 1;
    }
    proof {
        assert(body.take(i - from) =~= body);
    }
    Some(value)
}

/// Read an unsigned number of at most `limit`.
pub fn parse_number(text: &str, limit: u128) -> (r: Option<u128>)
    ensures
        match r {
            Some(n) => bounded_number(text@, limit as nat) == Some(n as nat),
            None => bounded_number(text@, limit as nat) is None,
        },
{
    let chars: Vec<char> = chars_of(text);
    if chars.len() > 0 && chars[0] == '+' {
        numeral(&chars, 1, limit)
    } else {
        proof {
            assert(chars@.skip(0) =~= chars@);
        }
        numeral(&chars, 0, limit)
    }
}

/// Read a signed number of sixteen bytes.
pub fn parse_signed(text: &str) -> (r: Option<i128>)
    ensures
        match r {
            Some(n) => signed_number(text@) == Some(n as int),
            None => match signed_number(text@) {
                Some(n) => !(i128::MIN <= n <= i128::MAX),
                None => true,
            },
        },
{
    let chars: Vec<char> = chars_of(text);
    if chars.len() > 0 && chars[0] == '-' {
        let limit: u128 = 0x8000_0000_0000_0000_0000_0000_0000_0000;
        match numeral(&chars, 1, limit) {
            None => None,
            Some(n) => if n == limit {
                Some(i128::MIN)
            } else {
                Some(-(n as i128))
            },
        }
    } else {
        let limit: u128 = 0x7fff_ffff_ffff_ffff_ffff_ffff_ffff_ffff;
        match parse_number(text, limit) {
            None => None,
            Some(n) => Some(n as i128),
        }
    }
}

/// Whether a text is ASCII throughout.
pub open spec fn is_ascii_text(text: Seq<char>) -> bool {
    forall|i: int| 0 <= i < text.len() ==> #[trigger] text[i] <= '\u{7f}'
}

/// Text without the white space at its front.
pub open spec fn trimmed_start(s: Seq<char>) -> Seq<char>
    decreases s.len(),
{
    if s.len() > 0 && is_space(s[0]) {
        trimmed_start(s.skip(1))
    } else {
        s
    }
}

/// Text without the white space at its end.
pub open spec fn trimmed_end(s: Seq<char>) -> Seq<char>
    decreases s.len(),
{
    if s.len() > 0 && is_space(s.last()) {
        trimmed_end(s.drop_last())
    } else {
        s
    }
}

/// Text without the white space at either end.
pub open spec fn trimmed(s: Seq<char>) -> Seq<char> {
    trimmed_end(trimmed_start(s))
}

/// Trimmed text is a stretch of the text that neither starts nor ends with
/// white space.
pub proof fn lemma_trimmed(s: Seq<char>)
    ensures
        trimmed(s).len() > 0 ==> !is_space(trimmed(s)[0]) && !is_space(trimmed(s).last()),
        exists|from: int|
            0 <= from <= from + trimmed(s).len() <= s.len() && trimmed(s)
                == #[trigger] s.subrange(from, from + trimmed(s).len()),
{
    let rest = trimmed_start(s);
    lemma_trimmed_start(s);
    lemma_trimmed_end(rest);
    let from = s.len() - rest.len();
    assert(trimmed(s) =~= s.subrange(from, from + trimmed(s).len()));
}

/// What is left of text without its leading white space.
proof fn lemma_trimmed_start(s: Seq<char>)
    ensures
        trimmed_start(s).len() <= s.len(),
        trimmed_start(s) == s.skip(s.len() - trimmed_start(s).len()),
        trimmed_start(s).len() > 0 ==> !is_space(trimmed_start(s)[0]),
    decreases s.len(),
{
    if s.len() > 0 && is_space(s[0]) {
        lemma_trimmed_start(s.skip(1));
        assert(trimmed_start(s) =~= s.skip(s.len() - trimmed_start(s).len()));
    } else {
        assert(s.skip(0) =~= s);
    }
}

/// What is left of text without its trailing white space.
proof fn lemma_trimmed_end(s: Seq<char>)
    ensures
        trimmed_end(s).len() <= s.len(),
        trimmed_end(s) == s.take(trimmed_end(s).len() as int),
        trimmed_end(s).len() > 0 ==> !is_space(trimmed_end(s).last()),
    decreases s.len(),
{
    if s.len() > 0 && is_space(s.last()) {
        lemma_trimmed_end(s.drop_last());
        assert(trimmed_end(s) =~= s.take(trimmed_end(s).len() as int));
    } else {
        assert(s.take(s.len() as int) =~= s);
    }
}

/// Where the white space at the front of a run of characters ends.
pub fn front(chars: &[char]) -> (r: usize)
    ensures
        r <= chars@.len(),
        chars@.skip(r as int) == trimmed_start(chars@),
{
    let mut from: usize = 0;
    proof {
        assert(chars@.skip(0) =~= chars@);
    }
    while from < chars.len() && space(chars[from])
        invariant
            from <= chars@.len(),
            trimmed_start(chars@.skip(from as int)) == trimmed_start(chars@),
        decreases chars@.len() - from,
    {
        proof {
            assert(chars@.skip(from as int).skip(1) =~= chars@.skip(from + 1));
        }
        from = from + 1;
    }
    from
}

/// Text without the white space at either end.
pub fn trim(text: &str) -> (r: String)
    ensures
        r@ == trimmed(text@),
{
    let chars: Vec<char> = chars_of(text);
    let from: usize = front(&chars);
    let mut to: usize = chars.len();
    let ghost start = trimmed_start(chars@);
    proof {
        assert(chars@.subrange(from as int, to as int) =~= start);
    }
    while to > from && space(chars[to - 1])
        invariant
            from <= to <= chars@.len(),
            trimmed_end(chars@.subrange(from as int, to as int)) == trimmed_end(start),
        decreases to,
    {
        proof {
            assert(chars@.subrange(from as int, to as int).drop_last() =~= chars@.subrange(
                from as int,
                to - 1,
            ));
        }
        to = to - 1;
    }
    string_of(&chars, from, to)
}

/// Pieces of text with a separator between neighbours.
pub open spec fn joined(parts: Seq<Seq<char>>, separator: Seq<char>) -> Seq<char>
    decreases parts.len(),
{
    if parts.len() == 0 {
        Seq::empty()
    } else if parts.len() == 1 {
        parts[0]
    } else {
        joined(parts.drop_last(), separator) + separator + parts.last()
    }
}

/// Join pieces of text with a separator between neighbours.
pub fn join(parts: &Vec<&str>, separator: &str) -> (r: String)
    ensures
        r@ == joined(parts.deep_view(), separator@),
{
    let mut out: String = String::new();
    let mut i: usize = 0;
    let ghost all = parts.deep_view();
    while i < parts.len()
        invariant
            i <= parts@.len(),
            all == parts.deep_view(),
            out@ == joined(all.take(i as int), separator@),
        decreases parts@.len() - i,
    {
        proof {
            assert(all.take(i + 1).drop_last() =~= all.take(i as int));
        }
        if i > 0 {
            out.append(separator);
        }
        out.append(parts[i]);
        i = i + 1;
        proof {
            if i == 1 {
                assert(out@ =~= all[0]);
            }
        }
    }
    proof {
        assert(all.take(i as int) =~= all);
    }
    out
}

/// The first place at or after `from` where a character stands, or the length
/// when it stands nowhere there.
pub open spec fn place_of(s: Seq<char>, c: char, from: int) -> int
    decreases s.len() - from,
{
    if from >= s.len() {
        s.len() as int
    } else if s[from] == c {
        from
    } else {
        place_of(s, c, from + 1)
    }
}

/// A place found lies within the bounds of the search.
pub proof fn lemma_place_of(s: Seq<char>, c: char, from: int)
    requires
        0 <= from <= s.len(),
    ensures
        from <= place_of(s, c, from) <= s.len(),
        place_of(s, c, from) < s.len() ==> s[place_of(s, c, from)] == c,
    decreases s.len() - from,
{
    if from < s.len() && s[from] != c {
        lemma_place_of(s, c, from + 1);
    }
}

/// Find where a character stands, from `from` on.
pub fn find(chars: &[char], c: char, from: usize) -> (r: usize)
    requires
        from <= chars@.len(),
    ensures
        r == place_of(chars@, c, from as int),
        from <= r <= chars@.len(),
{
    let mut i: usize = from;
    while i < chars.len() && chars[i] != c
        invariant
            from <= i <= chars@.len(),
            place_of(chars@, c, from as int) == place_of(chars@, c, i as int),
        decreases chars@.len() - i,
    {
        i = i + 1;
    }
    i
}

/// A line without the carriage return that ends it.
pub open spec fn without_return(line: Seq<char>) -> Seq<char> {
    if line.len() > 0 && line.last() == '\r' {
        line.drop_last()
    } else {
        line
    }
}

/// The lines of a text. A line ends at a newline, which may have a carriage
/// return in front of it; the last line may end with the text.
pub open spec fn lines(s: Seq<char>) -> Seq<Seq<char>>
    decreases s.len(),
{
    let end = place_of(s, '\n', 0);
    if s.len() == 0 {
        Seq::empty()
    } else if end >= s.len() {
        seq![s]
    } else if end < 0 {
        Seq::empty()
    } else {
        seq![without_return(s.take(end))] + lines(s.skip(end + 1))
    }
}

/// Split a text into its lines.
pub fn split_lines(text: &str) -> (r: Vec<Vec<char>>)
    ensures
        r.deep_view() == lines(text@),
{
    let chars: Vec<char> = chars_of(text);
    let mut out: Vec<Vec<char>> = Vec::new();
    let mut from: usize = 0;
    proof {
        assert(chars@.skip(0) =~= chars@);
        assert(out.deep_view() + lines(chars@) =~= lines(chars@));
    }
    while from < chars.len()
        invariant
            from <= chars@.len(),
            out.deep_view() + lines(chars@.skip(from as int)) == lines(chars@),
        decreases chars@.len() - from,
    {
        let ghost rest = chars@.skip(from as int);
        let ghost before = out.deep_view();
        let end: usize = find(&chars, '\n', from);
        proof {
            lemma_place_in_suffix(chars@, '\n', from as int, 0);
        }
        if end == chars.len() {
            let line: Vec<char> = copy_chars(&chars, from, end);
            proof {
                assert(line.deep_view() =~= line@);
            }
            out.push(line);
            proof {
                assert(line@ =~= rest);
                assert(out.deep_view() =~= before + seq![rest]);
                assert(lines(chars@.skip(end as int)) =~= Seq::<Seq<char>>::empty());
                assert(out.deep_view() + Seq::<Seq<char>>::empty() =~= before + seq![rest]);
            }
            from = end;
        } else {
            let cut: usize = if end > from && chars[end - 1] == '\r' {
                end - 1
            } else {
                end
            };
            let line: Vec<char> = copy_chars(&chars, from, cut);
            proof {
                assert(line.deep_view() =~= line@);
            }
            out.push(line);
            proof {
                assert(rest.take(end - from) =~= chars@.subrange(from as int, end as int));
                assert(line@ =~= without_return(rest.take(end - from)));
                assert(rest.skip(end - from + 1) =~= chars@.skip(end + 1));
                assert(out.deep_view() =~= before.push(line@));
                assert(before + (seq![line@] + lines(chars@.skip(end + 1))) =~= before.push(line@)
                    + lines(chars@.skip(end + 1)));
            }
            from = end + 1;
        }
    }
    proof {
        assert(chars@.skip(from as int) =~= Seq::<char>::empty());
        assert(lines(Seq::<char>::empty()) =~= Seq::<Seq<char>>::empty());
        assert(out.deep_view() + Seq::<Seq<char>>::empty() =~= out.deep_view());
    }
    out
}

/// Searching the rest of a text is searching the text from there on.
proof fn lemma_place_in_suffix(s: Seq<char>, c: char, skipped: int, from: int)
    requires
        0 <= skipped <= s.len(),
        0 <= from <= s.len() - skipped,
    ensures
        place_of(s.skip(skipped), c, from) + skipped == place_of(s, c, skipped + from),
    decreases s.len() - skipped - from,
{
    if from < s.len() - skipped && s[skipped + from] != c {
        lemma_place_in_suffix(s, c, skipped, from + 1);
    }
}

/// Copy the characters `from..to`.
pub fn copy_chars(chars: &[char], from: usize, to: usize) -> (r: Vec<char>)
    requires
        from <= to <= chars@.len(),
    ensures
        r@ == chars@.subrange(from as int, to as int),
{
    let mut out: Vec<char> = Vec::new();
    let mut i: usize = from;
    while i < to
        invariant
            from <= i <= to <= chars@.len(),
            out@ == chars@.subrange(from as int, i as int),
        decreases to - i,
    {
        out.push(chars[i]);
        i = i + 1;
    }
    out
}

} // verus!
