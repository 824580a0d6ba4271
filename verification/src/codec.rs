//! EBCDIC code pages: byte-to-character decoding, and the reverse map used to
//! author record bytes from readable text.
//!
//! The tables in [`crate::codepages`] are the whole of it. Decoding is strict:
//! an unassigned byte is an error rather than a replacement character, because
//! silently substituting a character into an account number is worse than
//! refusing the record.

pub mod laws;

use vstd::prelude::*;
use crate::codepages::{cp037, cp1026, cp1140, cp273, cp424, cp500, cp875, UNDEFINED};
use crate::text::{cat4, cat6, decimal, decimal_text, hex, hex_bytes, is_ascii_text, join, joined, quote,
    quoted, same, trim, trimmed};

verus! {

/// Code page used when a request names none.
pub const DEFAULT_ENCODING: &'static str = "cp037";

/// `char::from_u32` returns the character with the given scalar value, or
/// nothing for a surrogate or a value past the last scalar.
pub assume_specification[ char::from_u32 ](i: u32) -> (r: Option<char>)
    ensures
        match r {
            Some(c) => c as u32 == i,
            None => 0xd800 <= i <= 0xdfff || i > 0x10ffff,
        },
;

/// What `char::to_lowercase` yields for a character.
pub uninterp spec fn lowered(c: char) -> Seq<char>;

/// The lowercase letter of an ASCII capital; any other character is its own.
pub open spec fn ascii_lowered(c: char) -> char {
    if 'A' <= c <= 'Z' {
        (c as u8 + 0x20) as char
    } else {
        c
    }
}

/// `char::to_lowercase`: the result is the name [`lowered`] of the character.
/// For ASCII it is the ASCII lowercase letter; for other characters nothing
/// more is said of it.
#[verifier::external_body]
fn lowercase(c: char) -> (r: String)
    ensures
        r@ == lowered(c),
        c < '\u{80}' ==> r@ == seq![ascii_lowered(c)],
{
    c.to_lowercase().to_string()
}

/// The code pages this build carries.
#[derive(Clone, Copy, Debug, PartialEq, Eq, Structural)]
pub enum CodePage {
    /// US and Canada.
    Cp037,
    /// Germany and Austria.
    Cp273,
    /// Hebrew.
    Cp424,
    /// International.
    Cp500,
    /// Greek.
    Cp875,
    /// Turkish.
    Cp1026,
    /// US and Canada with the euro sign.
    Cp1140,
}

/// The byte-to-scalar table of a code page.
pub open spec fn table(page: CodePage) -> Seq<u16> {
    match page {
        CodePage::Cp037 => cp037::table(),
        CodePage::Cp273 => cp273::table(),
        CodePage::Cp424 => cp424::table(),
        CodePage::Cp500 => cp500::table(),
        CodePage::Cp875 => cp875::table(),
        CodePage::Cp1026 => cp1026::table(),
        CodePage::Cp1140 => cp1140::table(),
    }
}

/// The canonical name of a code page.
pub open spec fn page_name(page: CodePage) -> Seq<char> {
    match page {
        CodePage::Cp037 => "cp037"@,
        CodePage::Cp273 => "cp273"@,
        CodePage::Cp424 => "cp424"@,
        CodePage::Cp500 => "cp500"@,
        CodePage::Cp875 => "cp875"@,
        CodePage::Cp1026 => "cp1026"@,
        CodePage::Cp1140 => "cp1140"@,
    }
}

/// The code pages in the order they are listed to callers.
pub open spec fn all_pages() -> Seq<CodePage> {
    seq![
        CodePage::Cp037,
        CodePage::Cp273,
        CodePage::Cp424,
        CodePage::Cp500,
        CodePage::Cp875,
        CodePage::Cp1026,
        CodePage::Cp1140,
    ]
}

/// The canonical names in the order they are listed to callers.
pub open spec fn all_names() -> Seq<Seq<char>> {
    Seq::new(all_pages().len(), |i: int| page_name(all_pages()[i]))
}

/// Whether a code page assigns a character to a byte.
pub open spec fn assigned(page: CodePage, byte: u8) -> bool {
    table(page)[byte as int] != UNDEFINED
}

/// The character a code page assigns to a byte.
pub open spec fn char_at(page: CodePage, byte: u8) -> char {
    table(page)[byte as int] as char
}

/// The first byte at or after `from` that the code page leaves unassigned, or
/// the length when there is none.
pub open spec fn first_unassigned(page: CodePage, bytes: Seq<u8>, from: int) -> int
    decreases bytes.len() - from,
{
    if from >= bytes.len() {
        bytes.len() as int
    } else if !assigned(page, bytes[from]) {
        from
    } else {
        first_unassigned(page, bytes, from + 1)
    }
}

/// The text a run of bytes stands for.
pub open spec fn decoded(page: CodePage, bytes: Seq<u8>) -> Seq<char> {
    Seq::new(bytes.len(), |i: int| char_at(page, bytes[i]))
}

/// Whether a byte is the one a character is encoded as: the lowest that
/// decodes to it.
pub open spec fn encodes(page: CodePage, c: char, byte: u8) -> bool {
    &&& assigned(page, byte)
    &&& char_at(page, byte) == c
    &&& forall|lower: u8|
        #![trigger table(page)[lower as int]]
        lower < byte ==> !(assigned(page, lower) && char_at(page, lower) == c)
}

/// Whether a code page can represent a character.
pub open spec fn encodable(page: CodePage, c: char) -> bool {
    exists|byte: u8| #[trigger] encodes(page, c, byte)
}

/// The characters lookup ignores in the name of a code page.
pub open spec fn is_separator(c: char) -> bool {
    c == '-' || c == '_' || c == ' ' || c == '.'
}

/// The name of a code page as lookup compares it: in lowercase and without
/// separators.
pub open spec fn normalized(name: Seq<char>) -> Seq<char>
    decreases name.len(),
{
    if name.len() == 0 {
        Seq::empty()
    } else if is_separator(name.last()) {
        normalized(name.drop_last())
    } else {
        normalized(name.drop_last()) + lowered(name.last())
    }
}

/// An ASCII name as lookup compares it.
pub open spec fn ascii_normalized(name: Seq<char>) -> Seq<char>
    decreases name.len(),
{
    if name.len() == 0 {
        Seq::empty()
    } else if is_separator(name.last()) {
        ascii_normalized(name.drop_last())
    } else {
        ascii_normalized(name.drop_last()).push(ascii_lowered(name.last()))
    }
}

/// The code page a normalized name stands for: the canonical names, the
/// numbers with and without a prefix, and the registered aliases.
pub open spec fn page_of(key: Seq<char>) -> Option<CodePage> {
    if key == "cp037"@ || key == "037"@ || key == "ibm037"@ || key == "ebcdiccpus"@ || key
        == "ebcdiccpca"@ || key == "ebcdiccpwt"@ || key == "ebcdiccpnl"@ || key == "csibm037"@ {
        Some(CodePage::Cp037)
    } else if key == "cp273"@ || key == "273"@ || key == "ibm273"@ || key == "csibm273"@ {
        Some(CodePage::Cp273)
    } else if key == "cp424"@ || key == "424"@ || key == "ibm424"@ || key == "ebcdiccphe"@ || key
        == "csibm424"@ {
        Some(CodePage::Cp424)
    } else if key == "cp500"@ || key == "500"@ || key == "ibm500"@ || key == "ebcdiccpbe"@ || key
        == "ebcdiccpch"@ || key == "csibm500"@ {
        Some(CodePage::Cp500)
    } else if key == "cp875"@ || key == "875"@ || key == "ibm875"@ || key == "ebcdicgreek"@ {
        Some(CodePage::Cp875)
    } else if key == "cp1026"@ || key == "1026"@ || key == "ibm1026"@ || key == "csibm1026"@ {
        Some(CodePage::Cp1026)
    } else if key == "cp1140"@ || key == "1140"@ || key == "ibm1140"@ || key
        == "ebcdicuscanadaeuro"@ {
        Some(CodePage::Cp1140)
    } else {
        None
    }
}

/// The name a request asks for: trimmed, and the default when it is empty.
pub open spec fn wanted_name(name: Seq<char>) -> Seq<char> {
    if trimmed(name).len() == 0 {
        "cp037"@
    } else {
        trimmed(name)
    }
}

/// The code page a request for `name` selects.
pub open spec fn selected_page(name: Seq<char>) -> Option<CodePage> {
    page_of(normalized(wanted_name(name)))
}

/// A resolved code page, ready to decode field bytes.
#[derive(Clone, Copy, Debug)]
pub struct Codec {
    /// The code page this codec decodes with.
    page: CodePage,
}

/// Why a code page name or a run of bytes could not be decoded.
#[derive(Debug, Clone, PartialEq, Eq)]
pub enum CodecError {
    /// The requested code page is not one this build carries.
    UnknownEncoding {
        /// The name exactly as the caller spelled it.
        requested: String,
    },
    /// A byte the code page leaves unassigned.
    UndefinedByte {
        /// Canonical name of the code page.
        encoding: &'static str,
        /// The offending byte.
        byte: u8,
        /// Its index within the field's bytes.
        index: usize,
    },
}

/// The message of an unassigned byte.
pub open spec fn undefined_message(encoding: Seq<char>, byte: u8, index: nat) -> Seq<char> {
    "byte 0x"@ + hex_bytes(seq![byte]) + " at index "@ + decimal(index) + " is unassigned in "@
        + encoding
}

/// What is said of a code page that this build does not carry.
pub open spec fn unknown_message(requested: Seq<char>) -> Seq<char> {
    "unknown EBCDIC code page "@ + quoted(requested) + "; this build carries "@ + joined(
        all_names(),
        ", "@,
    )
}

/// The message of a codec error.
pub open spec fn codec_message(error: CodecError) -> Seq<char> {
    match error {
        CodecError::UnknownEncoding { requested } => unknown_message(requested@),
        CodecError::UndefinedByte { encoding, byte, index } => undefined_message(
            encoding@,
            byte,
            index as nat,
        ),
    }
}

impl CodecError {
    /// The error in words.
    pub fn to_string(&self) -> (r: String)
        ensures
            r@ == codec_message(*self),
    {
        match self {
            CodecError::UnknownEncoding { requested } => {
                let names: Vec<&'static str> = supported_encodings();
                cat4(
                    "unknown EBCDIC code page ",
                    &quote(requested),
                    "; this build carries ",
                    &join(&names, ", "),
                )
            },
            CodecError::UndefinedByte { encoding, byte, index } => {
                let bytes: [u8; 1] = [*byte];
                proof {
                    assert(bytes@ =~= seq![*byte]);
                }
                cat6(
                    "byte 0x",
                    &hex(&bytes),
                    " at index ",
                    &decimal_text(*index as u128),
                    " is unassigned in ",
                    encoding,
                )
            },
        }
    }
}

/// Canonical names of every code page this build can decode.
pub fn supported_encodings() -> (r: Vec<&'static str>)
    ensures
        r.deep_view() == all_names(),
{
    let r: Vec<&'static str> = vec![
        "cp037", "cp273", "cp424", "cp500", "cp875", "cp1026", "cp1140",
    ];
    proof {
        assert(r.deep_view() =~= all_names());
    }
    r
}

/// Normalize a code page name for lookup.
fn normalize(name: &str) -> (r: String)
    ensures
        r@ == normalized(name@),
        is_ascii_text(name@) ==> r@ == ascii_normalized(name@),
{
    let mut out: String = String::new();
    for c in it: name.chars()
        invariant
            out@ == normalized(name@.take(it.index() as int)),
            is_ascii_text(name@) ==> out@ == ascii_normalized(name@.take(it.index() as int)),
            it.seq() == name@,
    {
        proof {
            assert(name@[it.index() as int] == c);
            let done = name@.take(it.index() as int);
            let next = name@.take(it.index() + 1);
            assert(next.drop_last() =~= done);
            assert(next.last() == c);
        }
        if !(c == '-' || c == '_' || c == ' ' || c == '.') {
            let piece: String = lowercase(c);
            out = crate::text::cat2(&out, &piece);
        }
    }
    proof {
        assert(name@.take(name@.len() as int) =~= name@);
    }
    out
}

/// Find the code page a normalized name stands for.
pub fn find_page(key: &str) -> (r: Option<CodePage>)
    ensures
        r == page_of(key@),
{
    if same(key, "cp037") || same(key, "037") || same(key, "ibm037") || same(key, "ebcdiccpus")
        || same(key, "ebcdiccpca") || same(key, "ebcdiccpwt") || same(key, "ebcdiccpnl") || same(
        key,
        "csibm037",
    ) {
        Some(CodePage::Cp037)
    } else if same(key, "cp273") || same(key, "273") || same(key, "ibm273") || same(
        key,
        "csibm273",
    ) {
        Some(CodePage::Cp273)
    } else if same(key, "cp424") || same(key, "424") || same(key, "ibm424") || same(
        key,
        "ebcdiccphe",
    ) || same(key, "csibm424") {
        Some(CodePage::Cp424)
    } else if same(key, "cp500") || same(key, "500") || same(key, "ibm500") || same(
        key,
        "ebcdiccpbe",
    ) || same(key, "ebcdiccpch") || same(key, "csibm500") {
        Some(CodePage::Cp500)
    } else if same(key, "cp875") || same(key, "875") || same(key, "ibm875") || same(
        key,
        "ebcdicgreek",
    ) {
        Some(CodePage::Cp875)
    } else if same(key, "cp1026") || same(key, "1026") || same(key, "ibm1026") || same(
        key,
        "csibm1026",
    ) {
        Some(CodePage::Cp1026)
    } else if same(key, "cp1140") || same(key, "1140") || same(key, "ibm1140") || same(
        key,
        "ebcdicuscanadaeuro",
    ) {
        Some(CodePage::Cp1140)
    } else {
        None
    }
}

/// No table entry is a surrogate, and every table has an entry per byte.
proof fn lemma_tables_hold_scalars(page: CodePage, byte: u8)
    ensures
        table(page).len() == 256,
        !(0xd800 <= table(page)[byte as int] <= 0xdfff),
{
    cp037::lemma_scalars(byte);
    cp273::lemma_scalars(byte);
    cp424::lemma_scalars(byte);
    cp500::lemma_scalars(byte);
    cp875::lemma_scalars(byte);
    cp1026::lemma_scalars(byte);
    cp1140::lemma_scalars(byte);
}

/// The entry of a byte in a code page's table.
fn scalar(page: CodePage, byte: u8) -> (r: u16)
    ensures
        r == table(page)[byte as int],
        !(0xd800 <= r <= 0xdfff),
{
    proof {
        lemma_tables_hold_scalars(page, byte);
    }
    match page {
        CodePage::Cp037 => cp037::scalar(byte),
        CodePage::Cp273 => cp273::scalar(byte),
        CodePage::Cp424 => cp424::scalar(byte),
        CodePage::Cp500 => cp500::scalar(byte),
        CodePage::Cp875 => cp875::scalar(byte),
        CodePage::Cp1026 => cp1026::scalar(byte),
        CodePage::Cp1140 => cp1140::scalar(byte),
    }
}

/// A character with a given scalar value is that value as a character.
proof fn lemma_char_of_scalar(scalar: u16, c: char)
    requires
        c as u32 == scalar as u32,
        !(0xd800 <= scalar <= 0xdfff),
    ensures
        c == scalar as char,
{
}

/// Find the lowest byte that decodes to a character.
fn find_byte(page: CodePage, c: char) -> (r: Option<u8>)
    ensures
        match r {
            Some(byte) => encodes(page, c, byte),
            None => !encodable(page, c),
        },
{
    let wanted: u32 = c as u32;
    let mut byte: u8 = 0;
    loop
        invariant
            wanted == c as u32,
            forall|lower: u8|
                #![trigger table(page)[lower as int]]
                lower < byte ==> !(assigned(page, lower) && char_at(page, lower) == c),
        decreases 255 - byte,
    {
        let found: u16 = scalar(page, byte);
        if found != UNDEFINED && found as u32 == wanted {
            return Some(byte);
        }
        if byte == 255 {
            proof {
                assert forall|b: u8| !encodes(page, c, b) by {
                    assert(table(page)[b as int] == table(page)[b as int]);
                }
            }
            return None;
        }
        byte = byte + 1;
    }
}

impl Codec {
    /// The code page this codec decodes with.
    pub closed spec fn page(self) -> CodePage {
        self.page
    }

    /// Resolve a code page by name. An empty name selects
    /// [`DEFAULT_ENCODING`].
    pub fn resolve(name: &str) -> (r: Result<Self, CodecError>)
        ensures
            is_ascii_text(wanted_name(name@)) ==> selected_page(name@) == page_of(
                ascii_normalized(wanted_name(name@)),
            ),
            match r {
                Ok(codec) => selected_page(name@) == Some(codec.page()),
                Err(error) => {
                    &&& selected_page(name@) is None
                    &&& error matches CodecError::UnknownEncoding { requested }
                    &&& requested@ == name@
                },
            },
    {
        let stripped: String = trim(name);
        let wanted: String = if stripped.as_str().is_empty() {
            DEFAULT_ENCODING.to_owned()
        } else {
            stripped
        };
        let key: String = normalize(&wanted);
        match find_page(&key) {
            Some(page) => Ok(Codec { page }),
            None => Err(CodecError::UnknownEncoding { requested: name.to_owned() }),
        }
    }

    /// Canonical name of the resolved code page.
    pub fn name(self) -> (r: &'static str)
        ensures
            r@ == page_name(self.page()),
    {
        match self.page {
            CodePage::Cp037 => "cp037",
            CodePage::Cp273 => "cp273",
            CodePage::Cp424 => "cp424",
            CodePage::Cp500 => "cp500",
            CodePage::Cp875 => "cp875",
            CodePage::Cp1026 => "cp1026",
            CodePage::Cp1140 => "cp1140",
        }
    }

    /// Decode field bytes into text. The first unassigned byte is an error.
    pub fn decode(self, bytes: &[u8]) -> (r: Result<String, CodecError>)
        ensures
            ({
                let stop = first_unassigned(self.page(), bytes@, 0);
                match r {
                    Ok(text) => stop == bytes@.len() && text@ == decoded(self.page(), bytes@),
                    Err(error) => {
                        &&& stop < bytes@.len()
                        &&& error matches CodecError::UndefinedByte { encoding, byte, index }
                        &&& encoding@ == page_name(self.page())
                        &&& byte == bytes@[stop]
                        &&& index == stop
                    },
                }
            }),
    {
        let mut out: String = String::new();
        let mut index: usize = 0;
        while index < bytes.len()
            invariant
                index <= bytes@.len(),
                out@ == decoded(self.page(), bytes@.take(index as int)),
                first_unassigned(self.page(), bytes@, 0) == first_unassigned(
                    self.page(),
                    bytes@,
                    index as int,
                ),
            decreases bytes@.len() - index,
        {
            let byte: u8 = bytes[index];
            let found: u16 = scalar(self.page, byte);
            if found == UNDEFINED {
                return Err(CodecError::UndefinedByte { encoding: self.name(), byte, index });
            }
            match char::from_u32(found as u32) {
                Some(c) => {
                    proof {
                        lemma_char_of_scalar(found, c);
                    }
                    out.push(c)
                },
                None => {
                    proof {
                        assert(false);
                    }
                },
            }
            index = index + 1;
            proof {
                assert(out@ =~= decoded(self.page(), bytes@.take(index as int)));
            }
        }
        proof {
            assert(bytes@.take(index as int) =~= bytes@);
        }
        Ok(out)
    }

    /// Encode text back into this code page, each character as the lowest byte
    /// that decodes to it. The first character with no such byte is the error.
    pub fn encode(self, text: &str) -> (r: Result<Vec<u8>, char>)
        ensures
            match r {
                Ok(bytes) => {
                    &&& bytes@.len() == text@.len()
                    &&& forall|i: int|
                        0 <= i < text@.len() ==> encodes(self.page(), #[trigger] text@[i], bytes@[i])
                },
                Err(c) => exists|i: int|
                    {
                        &&& 0 <= i < text@.len()
                        &&& #[trigger] text@[i] == c
                        &&& !encodable(self.page(), c)
                        &&& forall|j: int|
                            0 <= j < i ==> encodable(self.page(), #[trigger] text@[j])
                    },
            },
    {
        let mut out: Vec<u8> = Vec::new();
        for c in it: text.chars()
            invariant
                it.seq() == text@,
                out@.len() == it.index(),
                forall|i: int|
                    0 <= i < out@.len() ==> encodes(self.page(), #[trigger] text@[i], out@[i]),
        {
            proof {
                assert(text@[it.index() as int] == c);
            }
            match find_byte(self.page, c) {
                Some(byte) => out.push(byte),
                None => {
                    return Err(c);
                },
            }
        }
        Ok(out)
    }
}

/// Decoding gives back what was encoded: when `bytes` is the encoding of
/// `text`, every byte of it is assigned and it decodes to `text`.
pub proof fn law_decode_undoes_encode(page: CodePage, text: Seq<char>, bytes: Seq<u8>)
    requires
        bytes.len() == text.len(),
        forall|i: int| 0 <= i < text.len() ==> encodes(page, #[trigger] text[i], bytes[i]),
    ensures
        first_unassigned(page, bytes, 0) == bytes.len(),
        decoded(page, bytes) == text,
{
    assert forall|i: int| 0 <= i < bytes.len() implies assigned(page, #[trigger] bytes[i]) by {
        assert(encodes(page, text[i], bytes[i]));
    }
    lemma_none_unassigned(page, bytes, 0);
    assert forall|i: int| 0 <= i < text.len() implies decoded(page, bytes)[i] == text[i] by {
        assert(encodes(page, text[i], bytes[i]));
    }
    assert(decoded(page, bytes) =~= text);
}

/// When every byte is assigned there is no first unassigned one.
pub proof fn lemma_none_unassigned(page: CodePage, bytes: Seq<u8>, from: int)
    requires
        0 <= from <= bytes.len(),
        forall|i: int| 0 <= i < bytes.len() ==> assigned(page, #[trigger] bytes[i]),
    ensures
        first_unassigned(page, bytes, from) == bytes.len(),
    decreases bytes.len() - from,
{
    if from < bytes.len() {
        lemma_none_unassigned(page, bytes, from + 1);
    }
}

/// cp1140 is cp037 with a euro sign at `0x9f`, and identical everywhere else.
pub proof fn law_cp1140_is_cp037_with_a_euro(byte: u8)
    ensures
        byte == 0x9f ==> char_at(CodePage::Cp1140, byte) == '\u{20ac}' && char_at(
            CodePage::Cp037,
            byte,
        ) == '\u{a4}',
        byte != 0x9f ==> table(CodePage::Cp1140)[byte as int] == table(
            CodePage::Cp037,
        )[byte as int],
{
    cp1140::lemma_euro(byte);
}

/// Every code page but the Hebrew one assigns all 256 bytes.
pub proof fn law_only_the_hebrew_page_has_unassigned_bytes(page: CodePage, byte: u8)
    requires
        page != CodePage::Cp424,
    ensures
        assigned(page, byte),
{
    cp037::lemma_scalars(byte);
    cp273::lemma_scalars(byte);
    cp424::lemma_scalars(byte);
    cp500::lemma_scalars(byte);
    cp875::lemma_scalars(byte);
    cp1026::lemma_scalars(byte);
    cp1140::lemma_scalars(byte);
}

/// Every code page decodes the blank and the ten digits alike, so that the
/// digits of a zoned number are its bytes' low nibbles.
pub proof fn law_digits_decode_alike(page: CodePage, digit: u8)
    requires
        digit < 10,
    ensures
        table(page)[0x40] == 0x20,
        table(page)[0xf0 + digit] == 0x30 + digit,
{
    cp037::lemma_digits(digit);
    cp273::lemma_digits(digit);
    cp424::lemma_digits(digit);
    cp500::lemma_digits(digit);
    cp875::lemma_digits(digit);
    cp1026::lemma_digits(digit);
    cp1140::lemma_digits(digit);
}

/// Lookup ignores separators: a hyphen, underscore, blank or period inside the
/// name of a code page leaves what is compared as it is.
pub proof fn law_lookup_ignores_separators(before: Seq<char>, separator: char, after: Seq<char>)
    requires
        is_separator(separator),
    ensures
        normalized(before.push(separator) + after) == normalized(before + after),
    decreases after.len(),
{
    if after.len() == 0 {
        assert(before.push(separator) + after =~= before.push(separator));
        assert(before.push(separator).drop_last() =~= before);
        assert(before + after =~= before);
    } else {
        let first = before.push(separator) + after;
        let second = before + after;
        assert(first.drop_last() =~= before.push(separator) + after.drop_last());
        assert(second.drop_last() =~= before + after.drop_last());
        assert(first.last() == second.last());
        law_lookup_ignores_separators(before, separator, after.drop_last());
    }
}

/// Lookup ignores case: of ASCII names that differ in case alone, the same is
/// compared.
pub proof fn law_lookup_ignores_case(name: Seq<char>, other: Seq<char>)
    requires
        name.len() == other.len(),
        forall|i: int|
            0 <= i < name.len() ==> ascii_lowered(#[trigger] name[i]) == ascii_lowered(other[i]),
    ensures
        ascii_normalized(name) == ascii_normalized(other),
    decreases name.len(),
{
    if name.len() > 0 {
        assert(ascii_lowered(name[name.len() - 1]) == ascii_lowered(other[name.len() - 1]));
        law_lookup_ignores_case(name.drop_last(), other.drop_last());
    }
}

} // verus!
