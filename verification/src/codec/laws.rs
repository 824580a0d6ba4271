//! What the code pages share, how they differ, and how they are named.

use vstd::prelude::*;
use crate::codec::{all_names, all_pages, assigned, char_at, decoded, encodes, first_unassigned,
    page_name, page_of, table, undefined_message, unknown_message, wanted_name, CodePage};
use crate::codepages::{cp037, cp1026, cp1140, cp273, cp424, cp500, cp875, UNDEFINED};
use crate::text::{decimal, hex_bytes, is_space, quoted};
use crate::text::laws::{is_blank, law_trimming_takes_the_blanks_around, lemma_mentions, mentions};

verus! {

/// The letters of a page at their three times two places, for a number below
/// nine.
pub open spec fn has_letters(entries: Seq<u16>, i: int) -> bool {
    &&& entries[0xc1 + i] == 'A' as int + i
    &&& entries[0xd1 + i] == 'J' as int + i
    &&& i < 8 ==> entries[0xe2 + i] == 'S' as int + i
    &&& entries[0x81 + i] == 'a' as int + i
    &&& entries[0x91 + i] == 'j' as int + i
    &&& i < 8 ==> entries[0xa2 + i] == 's' as int + i
}

/// Every code page has the letters of the alphabet in order, in three runs
/// each, the capitals 64 above the small ones.
pub proof fn law_letters_decode_alike(page: CodePage, i: int)
    requires
        0 <= i < 9,
    ensures
        has_letters(table(page), i),
{
    match page {
        CodePage::Cp037 => lemma_letters_037(i),
        CodePage::Cp273 => lemma_letters_273(i),
        CodePage::Cp424 => lemma_letters_424(i),
        CodePage::Cp500 => lemma_letters_500(i),
        CodePage::Cp875 => lemma_letters_875(i),
        CodePage::Cp1026 => lemma_letters_1026(i),
        CodePage::Cp1140 => lemma_letters_1140(i),
    }
}

proof fn lemma_letters_037(i: int)
    requires
        0 <= i < 9,
    ensures
        has_letters(cp037::table(), i),
{
    reveal(cp037::table);
}

proof fn lemma_letters_273(i: int)
    requires
        0 <= i < 9,
    ensures
        has_letters(cp273::table(), i),
{
    reveal(cp273::table);
}

proof fn lemma_letters_424(i: int)
    requires
        0 <= i < 9,
    ensures
        has_letters(cp424::table(), i),
{
    reveal(cp424::table);
}

proof fn lemma_letters_500(i: int)
    requires
        0 <= i < 9,
    ensures
        has_letters(cp500::table(), i),
{
    reveal(cp500::table);
}

proof fn lemma_letters_875(i: int)
    requires
        0 <= i < 9,
    ensures
        has_letters(cp875::table(), i),
{
    reveal(cp875::table);
}

proof fn lemma_letters_1026(i: int)
    requires
        0 <= i < 9,
    ensures
        has_letters(cp1026::table(), i),
{
    reveal(cp1026::table);
}

proof fn lemma_letters_1140(i: int)
    requires
        0 <= i < 9,
    ensures
        has_letters(cp1140::table(), i),
{
    reveal(cp1140::table);
}

/// Whether a byte is a control character on every code page.
pub open spec fn is_control_byte(byte: u8) -> bool {
    byte < 0x40 || byte == 0xff
}

/// The control characters are the same on every code page, and are control
/// characters.
pub proof fn law_controls_decode_alike(page: CodePage, byte: u8)
    requires
        is_control_byte(byte),
    ensures
        table(page)[byte as int] == table(CodePage::Cp037)[byte as int],
        table(page)[byte as int] < 32 || 127 <= table(page)[byte as int] <= 159,
{
    lemma_controls_037(byte);
    match page {
        CodePage::Cp037 => {},
        CodePage::Cp273 => lemma_controls_273(byte),
        CodePage::Cp424 => lemma_controls_424(byte),
        CodePage::Cp500 => lemma_controls_500(byte),
        CodePage::Cp875 => lemma_controls_875(byte),
        CodePage::Cp1026 => lemma_controls_1026(byte),
        CodePage::Cp1140 => lemma_controls_1140(byte),
    }
}

proof fn lemma_controls_037(byte: u8)
    requires
        is_control_byte(byte),
    ensures
        cp037::table()[byte as int] < 32 || 127 <= cp037::table()[byte as int] <= 159,
{
    reveal(cp037::table);
}

proof fn lemma_controls_273(byte: u8)
    requires
        is_control_byte(byte),
    ensures
        cp273::table()[byte as int] == cp037::table()[byte as int],
{
    reveal(cp037::table);
    reveal(cp273::table);
}

proof fn lemma_controls_424(byte: u8)
    requires
        is_control_byte(byte),
    ensures
        cp424::table()[byte as int] == cp037::table()[byte as int],
{
    reveal(cp037::table);
    reveal(cp424::table);
}

proof fn lemma_controls_500(byte: u8)
    requires
        is_control_byte(byte),
    ensures
        cp500::table()[byte as int] == cp037::table()[byte as int],
{
    reveal(cp037::table);
    reveal(cp500::table);
}

proof fn lemma_controls_875(byte: u8)
    requires
        is_control_byte(byte),
    ensures
        cp875::table()[byte as int] == cp037::table()[byte as int],
{
    reveal(cp037::table);
    reveal(cp875::table);
}

proof fn lemma_controls_1026(byte: u8)
    requires
        is_control_byte(byte),
    ensures
        cp1026::table()[byte as int] == cp037::table()[byte as int],
{
    reveal(cp037::table);
    reveal(cp1026::table);
}

proof fn lemma_controls_1140(byte: u8)
    requires
        is_control_byte(byte),
    ensures
        cp1140::table()[byte as int] == cp037::table()[byte as int],
{
    reveal(cp037::table);
    reveal(cp1140::table);
}

/// The punctuation that a page shares with every other one.
pub open spec fn has_punctuation(entries: Seq<u16>) -> bool {
    &&& entries[0x40] == ' ' as int
    &&& entries[0x4b] == '.' as int
    &&& entries[0x4c] == '<' as int
    &&& entries[0x4d] == '(' as int
    &&& entries[0x4e] == '+' as int
    &&& entries[0x50] == '&' as int
    &&& entries[0x5c] == '*' as int
    &&& entries[0x5d] == ')' as int
    &&& entries[0x5e] == ';' as int
    &&& entries[0x60] == '-' as int
    &&& entries[0x61] == '/' as int
    &&& entries[0x6b] == ',' as int
    &&& entries[0x6c] == '%' as int
    &&& entries[0x6d] == '_' as int
    &&& entries[0x6e] == '>' as int
    &&& entries[0x6f] == '?' as int
    &&& entries[0x7a] == ':' as int
    &&& entries[0x7d] == '\'' as int
    &&& entries[0x7e] == '=' as int
}

/// Every code page has the blank and the punctuation of record data at the same
/// bytes.
#[verifier::rlimit(60)]
#[verifier::spinoff_prover]
pub proof fn law_punctuation_decodes_alike(page: CodePage)
    ensures
        has_punctuation(table(page)),
{
    reveal(cp037::table);
    reveal(cp273::table);
    reveal(cp424::table);
    reveal(cp500::table);
    reveal(cp875::table);
    reveal(cp1026::table);
    reveal(cp1140::table);
}

/// The bytes of the Latin-1 characters on code page 037, in the order of the
/// characters.
#[verifier::opaque]
pub open spec fn latin_bytes() -> Seq<u8> {
    seq![
        0x00u8, 0x01, 0x02, 0x03, 0x37, 0x2d, 0x2e, 0x2f, 0x16, 0x05, 0x25, 0x0b,
        0x0c, 0x0d, 0x0e, 0x0f, 0x10, 0x11, 0x12, 0x13, 0x3c, 0x3d, 0x32, 0x26,
        0x18, 0x19, 0x3f, 0x27, 0x1c, 0x1d, 0x1e, 0x1f, 0x40, 0x5a, 0x7f, 0x7b,
        0x5b, 0x6c, 0x50, 0x7d, 0x4d, 0x5d, 0x5c, 0x4e, 0x6b, 0x60, 0x4b, 0x61,
        0xf0, 0xf1, 0xf2, 0xf3, 0xf4, 0xf5, 0xf6, 0xf7, 0xf8, 0xf9, 0x7a, 0x5e,
        0x4c, 0x7e, 0x6e, 0x6f, 0x7c, 0xc1, 0xc2, 0xc3, 0xc4, 0xc5, 0xc6, 0xc7,
        0xc8, 0xc9, 0xd1, 0xd2, 0xd3, 0xd4, 0xd5, 0xd6, 0xd7, 0xd8, 0xd9, 0xe2,
        0xe3, 0xe4, 0xe5, 0xe6, 0xe7, 0xe8, 0xe9, 0xba, 0xe0, 0xbb, 0xb0, 0x6d,
        0x79, 0x81, 0x82, 0x83, 0x84, 0x85, 0x86, 0x87, 0x88, 0x89, 0x91, 0x92,
        0x93, 0x94, 0x95, 0x96, 0x97, 0x98, 0x99, 0xa2, 0xa3, 0xa4, 0xa5, 0xa6,
        0xa7, 0xa8, 0xa9, 0xc0, 0x4f, 0xd0, 0xa1, 0x07, 0x20, 0x21, 0x22, 0x23,
        0x24, 0x15, 0x06, 0x17, 0x28, 0x29, 0x2a, 0x2b, 0x2c, 0x09, 0x0a, 0x1b,
        0x30, 0x31, 0x1a, 0x33, 0x34, 0x35, 0x36, 0x08, 0x38, 0x39, 0x3a, 0x3b,
        0x04, 0x14, 0x3e, 0xff, 0x41, 0xaa, 0x4a, 0xb1, 0x9f, 0xb2, 0x6a, 0xb5,
        0xbd, 0xb4, 0x9a, 0x8a, 0x5f, 0xca, 0xaf, 0xbc, 0x90, 0x8f, 0xea, 0xfa,
        0xbe, 0xa0, 0xb6, 0xb3, 0x9d, 0xda, 0x9b, 0x8b, 0xb7, 0xb8, 0xb9, 0xab,
        0x64, 0x65, 0x62, 0x66, 0x63, 0x67, 0x9e, 0x68, 0x74, 0x71, 0x72, 0x73,
        0x78, 0x75, 0x76, 0x77, 0xac, 0x69, 0xed, 0xee, 0xeb, 0xef, 0xec, 0xbf,
        0x80, 0xfd, 0xfe, 0xfb, 0xfc, 0xad, 0xae, 0x59, 0x44, 0x45, 0x42, 0x46,
        0x43, 0x47, 0x9c, 0x48, 0x54, 0x51, 0x52, 0x53, 0x58, 0x55, 0x56, 0x57,
        0x8c, 0x49, 0xcd, 0xce, 0xcb, 0xcf, 0xcc, 0xe1, 0x70, 0xdd, 0xde, 0xdb,
        0xdc, 0x8d, 0x8e, 0xdf,
    ]
}

/// Code page 037 is the Latin-1 characters in another order: each of the 256
/// characters has one byte, and each byte one character.
pub proof fn law_cp037_is_latin_1(byte: u8, c: u8)
    ensures
        table(CodePage::Cp037)[byte as int] < 256,
        table(CodePage::Cp037)[latin_bytes()[c as int] as int] == c,
        latin_bytes()[table(CodePage::Cp037)[byte as int] as int] == byte,
{
    lemma_latin_character(c);
    lemma_latin_byte(byte);
}

#[verifier::rlimit(60)]
#[verifier::spinoff_prover]
proof fn lemma_latin_character(c: u8)
    ensures
        cp037::table()[latin_bytes()[c as int] as int] == c,
{
    reveal(cp037::table);
    reveal(latin_bytes);
}

#[verifier::rlimit(60)]
#[verifier::spinoff_prover]
proof fn lemma_latin_byte(byte: u8)
    ensures
        cp037::table()[byte as int] < 256,
        latin_bytes()[cp037::table()[byte as int] as int] == byte,
{
    reveal(cp037::table);
    reveal(latin_bytes);
}

/// On code page 037 an accented capital stands 32 above its small letter, where
/// Latin-1 has it 32 below.
pub proof fn law_accented_capitals_stand_above(byte: u8)
    requires
        0x42 <= byte <= 0x49 || 0x51 <= byte <= 0x58 || 0xcb <= byte <= 0xcf || 0xdb <= byte
            <= 0xde,
    ensures
        table(CodePage::Cp037)[byte + 0x20] + 0x20 == table(CodePage::Cp037)[byte as int],
{
    reveal(cp037::table);
}

/// Code page 500 is code page 037 with seven characters changed round.
#[verifier::rlimit(60)]
#[verifier::spinoff_prover]
pub proof fn law_how_cp500_differs(byte: u8)
    ensures
        table(CodePage::Cp500)[0x4a] == 0x005b,
        table(CodePage::Cp500)[0x4f] == 0x0021,
        table(CodePage::Cp500)[0x5a] == 0x005d,
        table(CodePage::Cp500)[0x5f] == 0x005e,
        table(CodePage::Cp500)[0xb0] == 0x00a2,
        table(CodePage::Cp500)[0xba] == 0x00ac,
        table(CodePage::Cp500)[0xbb] == 0x007c,
        byte != 0x4a && byte != 0x4f && byte != 0x5a && byte != 0x5f && byte != 0xb0
            && byte != 0xba && byte != 0xbb ==> table(
            CodePage::Cp500,
        )[byte as int] == table(CodePage::Cp037)[byte as int],
{
    reveal(cp037::table);
    reveal(cp500::table);
}

/// Code page 273 is code page 037 with the umlauts of German where other pages have
/// brackets and signs, and those where the umlauts were.
#[verifier::rlimit(60)]
#[verifier::spinoff_prover]
pub proof fn law_how_cp273_differs(byte: u8)
    ensures
        table(CodePage::Cp273)[0x43] == 0x007b,
        table(CodePage::Cp273)[0x4a] == 0x00c4,
        table(CodePage::Cp273)[0x4f] == 0x0021,
        table(CodePage::Cp273)[0x59] == 0x007e,
        table(CodePage::Cp273)[0x5a] == 0x00dc,
        table(CodePage::Cp273)[0x5f] == 0x005e,
        table(CodePage::Cp273)[0x63] == 0x005b,
        table(CodePage::Cp273)[0x6a] == 0x00f6,
        table(CodePage::Cp273)[0x7c] == 0x00a7,
        table(CodePage::Cp273)[0xa1] == 0x00df,
        table(CodePage::Cp273)[0xb0] == 0x00a2,
        table(CodePage::Cp273)[0xb5] == 0x0040,
        table(CodePage::Cp273)[0xba] == 0x00ac,
        table(CodePage::Cp273)[0xbb] == 0x007c,
        table(CodePage::Cp273)[0xbc] == 0x203e,
        table(CodePage::Cp273)[0xc0] == 0x00e4,
        table(CodePage::Cp273)[0xcc] == 0x00a6,
        table(CodePage::Cp273)[0xd0] == 0x00fc,
        table(CodePage::Cp273)[0xdc] == 0x007d,
        table(CodePage::Cp273)[0xe0] == 0x00d6,
        table(CodePage::Cp273)[0xec] == 0x005c,
        table(CodePage::Cp273)[0xfc] == 0x005d,
        byte != 0x43 && byte != 0x4a && byte != 0x4f && byte != 0x59 && byte != 0x5a
            && byte != 0x5f && byte != 0x63 && byte != 0x6a && byte != 0x7c && byte != 0xa1
            && byte != 0xb0 && byte != 0xb5 && byte != 0xba && byte != 0xbb && byte != 0xbc
            && byte != 0xc0 && byte != 0xcc && byte != 0xd0 && byte != 0xdc && byte != 0xe0
            && byte != 0xec && byte != 0xfc ==> table(
            CodePage::Cp273,
        )[byte as int] == table(CodePage::Cp037)[byte as int],
{
    reveal(cp037::table);
    reveal(cp273::table);
}

/// Code page 1026 is code page 037 with the letters of Turkish where other pages
/// have brackets and signs, and those elsewhere.
#[verifier::rlimit(60)]
#[verifier::spinoff_prover]
pub proof fn law_how_cp1026_differs(byte: u8)
    ensures
        table(CodePage::Cp1026)[0x48] == 0x007b,
        table(CodePage::Cp1026)[0x4a] == 0x00c7,
        table(CodePage::Cp1026)[0x4f] == 0x0021,
        table(CodePage::Cp1026)[0x5a] == 0x011e,
        table(CodePage::Cp1026)[0x5b] == 0x0130,
        table(CodePage::Cp1026)[0x5f] == 0x005e,
        table(CodePage::Cp1026)[0x68] == 0x005b,
        table(CodePage::Cp1026)[0x6a] == 0x015f,
        table(CodePage::Cp1026)[0x79] == 0x0131,
        table(CodePage::Cp1026)[0x7b] == 0x00d6,
        table(CodePage::Cp1026)[0x7c] == 0x015e,
        table(CodePage::Cp1026)[0x7f] == 0x00dc,
        table(CodePage::Cp1026)[0x8c] == 0x007d,
        table(CodePage::Cp1026)[0x8d] == 0x0060,
        table(CodePage::Cp1026)[0x8e] == 0x00a6,
        table(CodePage::Cp1026)[0xa1] == 0x00f6,
        table(CodePage::Cp1026)[0xac] == 0x005d,
        table(CodePage::Cp1026)[0xad] == 0x0024,
        table(CodePage::Cp1026)[0xae] == 0x0040,
        table(CodePage::Cp1026)[0xb0] == 0x00a2,
        table(CodePage::Cp1026)[0xba] == 0x00ac,
        table(CodePage::Cp1026)[0xbb] == 0x007c,
        table(CodePage::Cp1026)[0xc0] == 0x00e7,
        table(CodePage::Cp1026)[0xcc] == 0x007e,
        table(CodePage::Cp1026)[0xd0] == 0x011f,
        table(CodePage::Cp1026)[0xdc] == 0x005c,
        table(CodePage::Cp1026)[0xe0] == 0x00fc,
        table(CodePage::Cp1026)[0xec] == 0x0023,
        table(CodePage::Cp1026)[0xfc] == 0x0022,
        byte != 0x48 && byte != 0x4a && byte != 0x4f && byte != 0x5a && byte != 0x5b
            && byte != 0x5f && byte != 0x68 && byte != 0x6a && byte != 0x79 && byte != 0x7b
            && byte != 0x7c && byte != 0x7f && byte != 0x8c && byte != 0x8d && byte != 0x8e
            && byte != 0xa1 && byte != 0xac && byte != 0xad && byte != 0xae && byte != 0xb0
            && byte != 0xba && byte != 0xbb && byte != 0xc0 && byte != 0xcc && byte != 0xd0
            && byte != 0xdc && byte != 0xe0 && byte != 0xec && byte != 0xfc ==> table(
            CodePage::Cp1026,
        )[byte as int] == table(CodePage::Cp037)[byte as int],
{
    reveal(cp037::table);
    reveal(cp1026::table);
}

/// The Hebrew page has the letters of the alphabet in order, in four runs.
#[verifier::rlimit(60)]
#[verifier::spinoff_prover]
pub proof fn law_hebrew_letters_stand_in_order(i: int)
    requires
        0 <= i < 9,
    ensures
        table(CodePage::Cp424)[0x41 + i] == 0x5d0 + i,
        table(CodePage::Cp424)[0x51 + i] == 0x5d9 + i,
        i < 8 ==> table(CodePage::Cp424)[0x62 + i] == 0x5e2 + i,
        table(CodePage::Cp424)[0x71] == 0x5ea,
{
    reveal(cp424::table);
}

/// Where the Hebrew page has neither a letter of its own nor a gap, it is code
/// page 037, but for two signs.
#[verifier::rlimit(60)]
#[verifier::spinoff_prover]
pub proof fn law_how_cp424_differs(byte: u8)
    ensures
        table(CodePage::Cp424)[0x74] == 0x00a0,
        table(CodePage::Cp424)[0x78] == 0x2017,
        byte != 0x74 && byte != 0x78 ==> {
            let entry = table(CodePage::Cp424)[byte as int];
            entry == table(CodePage::Cp037)[byte as int] || entry == UNDEFINED || 0x5d0 <= entry
                <= 0x5ea
        },
        table(CodePage::Cp424)[byte as int] == UNDEFINED <==> {
            ||| byte == 0x70
            ||| 0x72 <= byte <= 0x73
            ||| 0x75 <= byte <= 0x77
            ||| byte == 0x80
            ||| 0x8c <= byte <= 0x8e
            ||| 0x9a <= byte <= 0x9c
            ||| byte == 0x9e
            ||| 0xaa <= byte <= 0xae
            ||| 0xcb <= byte <= 0xcf
            ||| 0xdb <= byte <= 0xdf
            ||| 0xeb <= byte <= 0xef
            ||| 0xfb <= byte <= 0xfe
        },
{
    reveal(cp037::table);
    reveal(cp424::table);
}

/// The Greek page has the letters of the alphabet in order, capitals and small
/// ones, in runs.
#[verifier::rlimit(60)]
#[verifier::spinoff_prover]
pub proof fn law_greek_letters_stand_in_order(i: int)
    requires
        0 <= i < 9,
    ensures
        table(CodePage::Cp875)[0x41 + i] == 0x391 + i,
        i < 8 ==> table(CodePage::Cp875)[0x51 + i] == 0x39a + i,
        table(CodePage::Cp875)[0x59] == 0x3a3,
        i < 8 ==> table(CodePage::Cp875)[0x62 + i] == 0x3a4 + i,
        i < 6 ==> table(CodePage::Cp875)[0x8a + i] == 0x3b1 + i,
        i < 6 ==> table(CodePage::Cp875)[0x9a + i] == 0x3b7 + i,
        i < 5 ==> table(CodePage::Cp875)[0xaa + i] == 0x3bd + i,
        table(CodePage::Cp875)[0xaf] == 0x3c3,
        table(CodePage::Cp875)[0xba] == 0x3c2,
        i < 5 ==> table(CodePage::Cp875)[0xbb + i] == 0x3c4 + i,
        table(CodePage::Cp875)[0xcb] == 0x3c9,
{
    reveal(cp875::table);
}

/// What else the Greek page has in other places than code page 037.
#[verifier::rlimit(60)]
#[verifier::spinoff_prover]
pub proof fn law_how_cp875_differs(byte: u8)
    ensures
        table(CodePage::Cp875)[0x4a] == 0x005b,
        table(CodePage::Cp875)[0x4f] == 0x0021,
        table(CodePage::Cp875)[0x5a] == 0x005d,
        table(CodePage::Cp875)[0x5f] == 0x005e,
        table(CodePage::Cp875)[0x6a] == 0x007c,
        table(CodePage::Cp875)[0x70] == 0x00a8,
        table(CodePage::Cp875)[0x71] == 0x0386,
        table(CodePage::Cp875)[0x72] == 0x0388,
        table(CodePage::Cp875)[0x73] == 0x0389,
        table(CodePage::Cp875)[0x74] == 0x00a0,
        table(CodePage::Cp875)[0x75] == 0x038a,
        table(CodePage::Cp875)[0x76] == 0x038c,
        table(CodePage::Cp875)[0x77] == 0x038e,
        table(CodePage::Cp875)[0x78] == 0x038f,
        table(CodePage::Cp875)[0x80] == 0x0385,
        table(CodePage::Cp875)[0xa0] == 0x00b4,
        table(CodePage::Cp875)[0xb0] == 0x00a3,
        table(CodePage::Cp875)[0xb1] == 0x03ac,
        table(CodePage::Cp875)[0xb2] == 0x03ad,
        table(CodePage::Cp875)[0xb3] == 0x03ae,
        table(CodePage::Cp875)[0xb4] == 0x03ca,
        table(CodePage::Cp875)[0xb5] == 0x03af,
        table(CodePage::Cp875)[0xb6] == 0x03cc,
        table(CodePage::Cp875)[0xb7] == 0x03cd,
        table(CodePage::Cp875)[0xb8] == 0x03cb,
        table(CodePage::Cp875)[0xb9] == 0x03ce,
        table(CodePage::Cp875)[0xcc] == 0x0390,
        table(CodePage::Cp875)[0xcd] == 0x03b0,
        table(CodePage::Cp875)[0xce] == 0x2018,
        table(CodePage::Cp875)[0xcf] == 0x2015,
        table(CodePage::Cp875)[0xda] == 0x00b1,
        table(CodePage::Cp875)[0xdb] == 0x00bd,
        table(CodePage::Cp875)[0xdc] == 0x001a,
        table(CodePage::Cp875)[0xdd] == 0x0387,
        table(CodePage::Cp875)[0xde] == 0x2019,
        table(CodePage::Cp875)[0xdf] == 0x00a6,
        table(CodePage::Cp875)[0xe1] == 0x001a,
        table(CodePage::Cp875)[0xeb] == 0x00a7,
        table(CodePage::Cp875)[0xec] == 0x001a,
        table(CodePage::Cp875)[0xed] == 0x001a,
        table(CodePage::Cp875)[0xee] == 0x00ab,
        table(CodePage::Cp875)[0xef] == 0x00ac,
        table(CodePage::Cp875)[0xfb] == 0x00a9,
        table(CodePage::Cp875)[0xfc] == 0x001a,
        table(CodePage::Cp875)[0xfd] == 0x001a,
        table(CodePage::Cp875)[0xfe] == 0x00bb,
        byte != 0x4a && byte != 0x4f && byte != 0x5a && byte != 0x5f && byte != 0x6a
            && byte != 0x70 && byte != 0x71 && byte != 0x72 && byte != 0x73 && byte != 0x74
            && byte != 0x75 && byte != 0x76 && byte != 0x77 && byte != 0x78 && byte != 0x80
            && byte != 0xa0 && byte != 0xb0 && byte != 0xb1 && byte != 0xb2 && byte != 0xb3
            && byte != 0xb4 && byte != 0xb5 && byte != 0xb6 && byte != 0xb7 && byte != 0xb8
            && byte != 0xb9 && byte != 0xcc && byte != 0xcd && byte != 0xce && byte != 0xcf
            && byte != 0xda && byte != 0xdb && byte != 0xdc && byte != 0xdd && byte != 0xde
            && byte != 0xdf && byte != 0xe1 && byte != 0xeb && byte != 0xec && byte != 0xed
            && byte != 0xee && byte != 0xef && byte != 0xfb && byte != 0xfc && byte != 0xfd
            && byte != 0xfe ==> {
            let entry = table(CodePage::Cp875)[byte as int];
            entry == table(CodePage::Cp037)[byte as int] || 0x391 <= entry <= 0x3c9
        },
{
    reveal(cp037::table);
    reveal(cp875::table);
}

/// A character has one byte at the most.
pub proof fn law_a_character_has_one_byte(page: CodePage, c: char, one: u8, other: u8)
    requires
        encodes(page, c, one),
        encodes(page, c, other),
    ensures
        one == other,
        char_at(page, one) == c,
        table(page)[one as int] as char == c,
{
    assert(table(page)[one as int] == table(page)[one as int]);
    assert(table(page)[other as int] == table(page)[other as int]);
}

/// Bytes decode one by one, in order, each to the character of its own.
pub proof fn law_bytes_decode_one_by_one(page: CodePage, a: Seq<u8>, b: Seq<u8>)
    ensures
        decoded(page, a + b) == decoded(page, a) + decoded(page, b),
        decoded(page, a).len() == a.len(),
        forall|i: int|
            0 <= i < a.len() ==> #[trigger] decoded(page, a)[i] == table(page)[a[i] as int] as char,
{
    assert(decoded(page, a + b) =~= decoded(page, a) + decoded(page, b));
}

/// The byte that cannot be decoded is the first one that cannot be.
pub proof fn law_the_first_unassigned_byte_is_found(page: CodePage, bytes: Seq<u8>, from: int)
    requires
        0 <= from <= bytes.len(),
    ensures
        ({
            let at = first_unassigned(page, bytes, from);
            &&& from <= at <= bytes.len()
            &&& at < bytes.len() ==> table(page)[bytes[at] as int] == UNDEFINED
            &&& forall|i: int|
                from <= i < at ==> table(page)[#[trigger] bytes[i] as int] != UNDEFINED
        }),
    decreases bytes.len() - from,
{
    if from < bytes.len() && assigned(page, bytes[from]) {
        law_the_first_unassigned_byte_is_found(page, bytes, from + 1);
    }
}

/// What is said of a byte that is unassigned names the byte, its place and the
/// code page.
#[verifier::rlimit(60)]
#[verifier::spinoff_prover]
pub proof fn law_an_unassigned_byte_is_named(encoding: Seq<char>, byte: u8, index: nat)
    ensures
        mentions(
            undefined_message(encoding, byte, index),
            "byte 0x"@ + hex_bytes(seq![byte]) + " at index "@ + decimal(index) + " "@,
        ),
        mentions(undefined_message(encoding, byte, index), encoding),
{
    let message = undefined_message(encoding, byte, index);
    let none = Seq::<char>::empty();
    reveal_strlit(" is unassigned in ");
    reveal_strlit(" ");
    reveal_strlit("is unassigned in ");
    let part = "byte 0x"@ + hex_bytes(seq![byte]) + " at index "@ + decimal(index) + " "@;
    assert(" is unassigned in "@ =~= " "@ + "is unassigned in "@);
    assert(message =~= none + part + ("is unassigned in "@ + encoding));
    lemma_mentions(none, part, "is unassigned in "@ + encoding);
    let front = "byte 0x"@ + hex_bytes(seq![byte]) + " at index "@ + decimal(index)
        + " is unassigned in "@;
    assert(message =~= front + encoding + none);
    lemma_mentions(front, encoding, none);
}

/// What is said of a code page that is not known names what was asked for.
#[verifier::rlimit(60)]
#[verifier::spinoff_prover]
pub proof fn law_an_unknown_page_is_named(requested: Seq<char>)
    ensures
        mentions(unknown_message(requested), quoted(requested)),
{
    let rest = "; this build carries "@ + crate::text::joined(all_names(), ", "@);
    assert(unknown_message(requested) =~= "unknown EBCDIC code page "@ + quoted(requested) + rest);
    lemma_mentions("unknown EBCDIC code page "@, quoted(requested), rest);
}

/// A request names a code page with blanks around it or not, and means code
/// page 037 when it names none.
#[verifier::rlimit(60)]
#[verifier::spinoff_prover]
pub proof fn law_a_request_without_a_name_means_cp037(
    front: Seq<char>,
    name: Seq<char>,
    behind: Seq<char>,
)
    requires
        is_blank(front),
        is_blank(behind),
        name.len() > 0 ==> !is_space(name[0]) && !is_space(name.last()),
    ensures
        name.len() > 0 ==> wanted_name(front + name + behind) == name,
        name.len() == 0 ==> wanted_name(front + name + behind) == page_name(CodePage::Cp037),
{
    law_trimming_takes_the_blanks_around(front, name, behind);
}

/// The number a code page goes by.
pub open spec fn page_number(page: CodePage) -> Seq<char> {
    match page {
        CodePage::Cp037 => "037"@,
        CodePage::Cp273 => "273"@,
        CodePage::Cp424 => "424"@,
        CodePage::Cp500 => "500"@,
        CodePage::Cp875 => "875"@,
        CodePage::Cp1026 => "1026"@,
        CodePage::Cp1140 => "1140"@,
    }
}

/// The lengths of the names of code pages, and the letters that tell names of
/// one length apart.
#[verifier::rlimit(60)]
#[verifier::spinoff_prover]
proof fn lemma_names()
    ensures
        "cp037"@.len() == 5,
        "cp037"@[2] == '0',
        "cp037"@[4] == '7',
        "037"@.len() == 3,
        "037"@[0] == '0',
        "037"@[2] == '7',
        "ibm037"@.len() == 6,
        "ibm037"@[0] == 'i',
        "ibm037"@[3] == '0',
        "ibm037"@[5] == '7',
        "ebcdiccpus"@.len() == 10,
        "ebcdiccpus"@[8] == 'u',
        "ebcdiccpus"@[9] == 's',
        "ebcdiccpca"@.len() == 10,
        "ebcdiccpca"@[8] == 'c',
        "ebcdiccpca"@[9] == 'a',
        "ebcdiccpwt"@.len() == 10,
        "ebcdiccpwt"@[8] == 'w',
        "ebcdiccpwt"@[9] == 't',
        "ebcdiccpnl"@.len() == 10,
        "ebcdiccpnl"@[8] == 'n',
        "ebcdiccpnl"@[9] == 'l',
        "csibm037"@.len() == 8,
        "csibm037"@[5] == '0',
        "csibm037"@[7] == '7',
        "cp273"@.len() == 5,
        "cp273"@[2] == '2',
        "cp273"@[4] == '3',
        "273"@.len() == 3,
        "273"@[0] == '2',
        "273"@[2] == '3',
        "ibm273"@.len() == 6,
        "ibm273"@[0] == 'i',
        "ibm273"@[3] == '2',
        "ibm273"@[5] == '3',
        "csibm273"@.len() == 8,
        "csibm273"@[5] == '2',
        "csibm273"@[7] == '3',
        "cp424"@.len() == 5,
        "cp424"@[2] == '4',
        "cp424"@[4] == '4',
        "424"@.len() == 3,
        "424"@[0] == '4',
        "424"@[2] == '4',
        "ibm424"@.len() == 6,
        "ibm424"@[0] == 'i',
        "ibm424"@[3] == '4',
        "ibm424"@[5] == '4',
        "ebcdiccphe"@.len() == 10,
        "ebcdiccphe"@[8] == 'h',
        "ebcdiccphe"@[9] == 'e',
        "csibm424"@.len() == 8,
        "csibm424"@[5] == '4',
        "csibm424"@[7] == '4',
        "cp500"@.len() == 5,
        "cp500"@[2] == '5',
        "cp500"@[4] == '0',
        "500"@.len() == 3,
        "500"@[0] == '5',
        "500"@[2] == '0',
        "ibm500"@.len() == 6,
        "ibm500"@[0] == 'i',
        "ibm500"@[3] == '5',
        "ibm500"@[4] == '0',
        "ibm500"@[5] == '0',
        "ebcdiccpbe"@.len() == 10,
        "ebcdiccpbe"@[8] == 'b',
        "ebcdiccpbe"@[9] == 'e',
        "ebcdiccpch"@.len() == 10,
        "ebcdiccpch"@[8] == 'c',
        "ebcdiccpch"@[9] == 'h',
        "csibm500"@.len() == 8,
        "csibm500"@[5] == '5',
        "csibm500"@[7] == '0',
        "cp875"@.len() == 5,
        "cp875"@[2] == '8',
        "cp875"@[4] == '5',
        "875"@.len() == 3,
        "875"@[0] == '8',
        "875"@[2] == '5',
        "ibm875"@.len() == 6,
        "ibm875"@[0] == 'i',
        "ibm875"@[3] == '8',
        "ibm875"@[5] == '5',
        "ebcdicgreek"@.len() == 11,
        "cp1026"@.len() == 6,
        "cp1026"@[0] == 'c',
        "cp1026"@[3] == '0',
        "cp1026"@[5] == '6',
        "1026"@.len() == 4,
        "1026"@[1] == '0',
        "1026"@[3] == '6',
        "ibm1026"@.len() == 7,
        "ibm1026"@[4] == '0',
        "ibm1026"@[6] == '6',
        "csibm1026"@.len() == 9,
        "cp1140"@.len() == 6,
        "cp1140"@[0] == 'c',
        "cp1140"@[3] == '1',
        "cp1140"@[4] == '4',
        "cp1140"@[5] == '0',
        "1140"@.len() == 4,
        "1140"@[1] == '1',
        "1140"@[3] == '0',
        "ibm1140"@.len() == 7,
        "ibm1140"@[4] == '1',
        "ibm1140"@[6] == '0',
        "ebcdicuscanadaeuro"@.len() == 18,
{
    lemma_names_1();
    lemma_names_2();
    lemma_names_3();
    lemma_names_4();
    lemma_names_5();
    lemma_names_6();
}

proof fn lemma_names_1()
    ensures
        "cp037"@.len() == 5,
        "cp037"@[2] == '0',
        "cp037"@[4] == '7',
        "037"@.len() == 3,
        "037"@[0] == '0',
        "037"@[2] == '7',
        "ibm037"@.len() == 6,
        "ibm037"@[0] == 'i',
        "ibm037"@[3] == '0',
        "ibm037"@[5] == '7',
        "ebcdiccpus"@.len() == 10,
        "ebcdiccpus"@[8] == 'u',
        "ebcdiccpus"@[9] == 's',
        "ebcdiccpca"@.len() == 10,
        "ebcdiccpca"@[8] == 'c',
        "ebcdiccpca"@[9] == 'a',
        "ebcdiccpwt"@.len() == 10,
        "ebcdiccpwt"@[8] == 'w',
        "ebcdiccpwt"@[9] == 't',
{
    reveal_strlit("cp037");
    reveal_strlit("037");
    reveal_strlit("ibm037");
    reveal_strlit("ebcdiccpus");
    reveal_strlit("ebcdiccpca");
    reveal_strlit("ebcdiccpwt");
}

proof fn lemma_names_2()
    ensures
        "ebcdiccpnl"@.len() == 10,
        "ebcdiccpnl"@[8] == 'n',
        "ebcdiccpnl"@[9] == 'l',
        "csibm037"@.len() == 8,
        "csibm037"@[5] == '0',
        "csibm037"@[7] == '7',
        "cp273"@.len() == 5,
        "cp273"@[2] == '2',
        "cp273"@[4] == '3',
        "273"@.len() == 3,
        "273"@[0] == '2',
        "273"@[2] == '3',
        "ibm273"@.len() == 6,
        "ibm273"@[0] == 'i',
        "ibm273"@[3] == '2',
        "ibm273"@[5] == '3',
        "csibm273"@.len() == 8,
        "csibm273"@[5] == '2',
        "csibm273"@[7] == '3',
{
    reveal_strlit("ebcdiccpnl");
    reveal_strlit("csibm037");
    reveal_strlit("cp273");
    reveal_strlit("273");
    reveal_strlit("ibm273");
    reveal_strlit("csibm273");
}

proof fn lemma_names_3()
    ensures
        "cp424"@.len() == 5,
        "cp424"@[2] == '4',
        "cp424"@[4] == '4',
        "424"@.len() == 3,
        "424"@[0] == '4',
        "424"@[2] == '4',
        "ibm424"@.len() == 6,
        "ibm424"@[0] == 'i',
        "ibm424"@[3] == '4',
        "ibm424"@[5] == '4',
        "ebcdiccphe"@.len() == 10,
        "ebcdiccphe"@[8] == 'h',
        "ebcdiccphe"@[9] == 'e',
        "csibm424"@.len() == 8,
        "csibm424"@[5] == '4',
        "csibm424"@[7] == '4',
        "cp500"@.len() == 5,
        "cp500"@[2] == '5',
        "cp500"@[4] == '0',
{
    reveal_strlit("cp424");
    reveal_strlit("424");
    reveal_strlit("ibm424");
    reveal_strlit("ebcdiccphe");
    reveal_strlit("csibm424");
    reveal_strlit("cp500");
}

proof fn lemma_names_4()
    ensures
        "500"@.len() == 3,
        "500"@[0] == '5',
        "500"@[2] == '0',
        "ibm500"@.len() == 6,
        "ibm500"@[0] == 'i',
        "ibm500"@[3] == '5',
        "ibm500"@[4] == '0',
        "ibm500"@[5] == '0',
        "ebcdiccpbe"@.len() == 10,
        "ebcdiccpbe"@[8] == 'b',
        "ebcdiccpbe"@[9] == 'e',
        "ebcdiccpch"@.len() == 10,
        "ebcdiccpch"@[8] == 'c',
        "ebcdiccpch"@[9] == 'h',
        "csibm500"@.len() == 8,
        "csibm500"@[5] == '5',
        "csibm500"@[7] == '0',
        "cp875"@.len() == 5,
        "cp875"@[2] == '8',
        "cp875"@[4] == '5',
{
    reveal_strlit("500");
    reveal_strlit("ibm500");
    reveal_strlit("ebcdiccpbe");
    reveal_strlit("ebcdiccpch");
    reveal_strlit("csibm500");
    reveal_strlit("cp875");
}

proof fn lemma_names_5()
    ensures
        "875"@.len() == 3,
        "875"@[0] == '8',
        "875"@[2] == '5',
        "ibm875"@.len() == 6,
        "ibm875"@[0] == 'i',
        "ibm875"@[3] == '8',
        "ibm875"@[5] == '5',
        "ebcdicgreek"@.len() == 11,
        "cp1026"@.len() == 6,
        "cp1026"@[0] == 'c',
        "cp1026"@[3] == '0',
        "cp1026"@[5] == '6',
        "1026"@.len() == 4,
        "1026"@[1] == '0',
        "1026"@[3] == '6',
        "ibm1026"@.len() == 7,
        "ibm1026"@[4] == '0',
        "ibm1026"@[6] == '6',
{
    reveal_strlit("875");
    reveal_strlit("ibm875");
    reveal_strlit("ebcdicgreek");
    reveal_strlit("cp1026");
    reveal_strlit("1026");
    reveal_strlit("ibm1026");
}

proof fn lemma_names_6()
    ensures
        "csibm1026"@.len() == 9,
        "cp1140"@.len() == 6,
        "cp1140"@[0] == 'c',
        "cp1140"@[3] == '1',
        "cp1140"@[4] == '4',
        "cp1140"@[5] == '0',
        "1140"@.len() == 4,
        "1140"@[1] == '1',
        "1140"@[3] == '0',
        "ibm1140"@.len() == 7,
        "ibm1140"@[4] == '1',
        "ibm1140"@[6] == '0',
        "ebcdicuscanadaeuro"@.len() == 18,
{
    reveal_strlit("csibm1026");
    reveal_strlit("cp1140");
    reveal_strlit("1140");
    reveal_strlit("ibm1140");
    reveal_strlit("ebcdicuscanadaeuro");
}

/// Which names select which code page: the number, the number behind `cp`,
/// `ibm` and for most `csibm`, and the registered names.
#[verifier::rlimit(60)]
#[verifier::spinoff_prover]
pub proof fn law_which_names_select_a_page(key: Seq<char>)
    ensures
        page_of(key) == Some(CodePage::Cp037) <==> key == "cp037"@ || key == "037"@
            || key == "ibm037"@ || key == "ebcdiccpus"@ || key == "ebcdiccpca"@
            || key == "ebcdiccpwt"@ || key == "ebcdiccpnl"@ || key == "csibm037"@,
        page_of(key) == Some(CodePage::Cp273) <==> key == "cp273"@ || key == "273"@
            || key == "ibm273"@ || key == "csibm273"@,
        page_of(key) == Some(CodePage::Cp424) <==> key == "cp424"@ || key == "424"@
            || key == "ibm424"@ || key == "ebcdiccphe"@ || key == "csibm424"@,
        page_of(key) == Some(CodePage::Cp500) <==> key == "cp500"@ || key == "500"@
            || key == "ibm500"@ || key == "ebcdiccpbe"@ || key == "ebcdiccpch"@
            || key == "csibm500"@,
        page_of(key) == Some(CodePage::Cp875) <==> key == "cp875"@ || key == "875"@
            || key == "ibm875"@ || key == "ebcdicgreek"@,
        page_of(key) == Some(CodePage::Cp1026) <==> key == "cp1026"@ || key == "1026"@
            || key == "ibm1026"@ || key == "csibm1026"@,
        page_of(key) == Some(CodePage::Cp1140) <==> key == "cp1140"@ || key == "1140"@
            || key == "ibm1140"@ || key == "ebcdicuscanadaeuro"@,
{
    lemma_names();
}

/// Every page has a name of its own, by which it is found, and which is its
/// number behind `cp`.
#[verifier::rlimit(60)]
#[verifier::spinoff_prover]
pub proof fn law_every_page_is_found_by_its_name(page: CodePage)
    ensures
        page_of(page_name(page)) == Some(page),
        page_of(page_number(page)) == Some(page),
        page_name(page) == "cp"@ + page_number(page),
        all_pages().contains(page),
        all_names().contains(page_name(page)),
        all_names().len() == 7,
{
    assert(page_of(page_name(page)) == Some(page)) by {
        law_which_names_select_a_page(page_name(page));
    }
    assert(page_of(page_number(page)) == Some(page)) by {
        law_which_names_select_a_page(page_number(page));
    }
    lemma_name_of_number(page);
    let at: int = match page {
        CodePage::Cp037 => 0,
        CodePage::Cp273 => 1,
        CodePage::Cp424 => 2,
        CodePage::Cp500 => 3,
        CodePage::Cp875 => 4,
        CodePage::Cp1026 => 5,
        CodePage::Cp1140 => 6,
    };
    assert(all_pages()[at] == page);
    assert(all_names()[at] == page_name(page));
}

/// The name of a page is its number behind `cp`.
#[verifier::rlimit(60)]
#[verifier::spinoff_prover]
proof fn lemma_name_of_number(page: CodePage)
    ensures
        page_name(page) == "cp"@ + page_number(page),
{
    match page {
        CodePage::Cp037 => lemma_name_037(),
        CodePage::Cp273 => lemma_name_273(),
        CodePage::Cp424 => lemma_name_424(),
        CodePage::Cp500 => lemma_name_500(),
        CodePage::Cp875 => lemma_name_875(),
        CodePage::Cp1026 => lemma_name_1026(),
        CodePage::Cp1140 => lemma_name_1140(),
    }
}

#[verifier::rlimit(60)]
#[verifier::spinoff_prover]
proof fn lemma_name_037()
    ensures
        "cp037"@ == "cp"@ + "037"@,
{
    reveal_strlit("cp");
    reveal_strlit("037");
    reveal_strlit("cp037");
    let whole = "cp037"@;
    let both = "cp"@ + "037"@;
    assert(whole.len() == 5);
    assert(both.len() == 5);
    assert(whole[0] == 'c' && both[0] == 'c');
    assert(whole[1] == 'p' && both[1] == 'p');
    assert(whole[2] == '0' && both[2] == '0');
    assert(whole[3] == '3' && both[3] == '3');
    assert(whole[4] == '7' && both[4] == '7');
    assert(whole =~= both);
}

#[verifier::rlimit(60)]
#[verifier::spinoff_prover]
proof fn lemma_name_273()
    ensures
        "cp273"@ == "cp"@ + "273"@,
{
    reveal_strlit("cp");
    reveal_strlit("273");
    reveal_strlit("cp273");
    let whole = "cp273"@;
    let both = "cp"@ + "273"@;
    assert(whole.len() == 5);
    assert(both.len() == 5);
    assert(whole[0] == 'c' && both[0] == 'c');
    assert(whole[1] == 'p' && both[1] == 'p');
    assert(whole[2] == '2' && both[2] == '2');
    assert(whole[3] == '7' && both[3] == '7');
    assert(whole[4] == '3' && both[4] == '3');
    assert(whole =~= both);
}

#[verifier::rlimit(60)]
#[verifier::spinoff_prover]
proof fn lemma_name_424()
    ensures
        "cp424"@ == "cp"@ + "424"@,
{
    reveal_strlit("cp");
    reveal_strlit("424");
    reveal_strlit("cp424");
    let whole = "cp424"@;
    let both = "cp"@ + "424"@;
    assert(whole.len() == 5);
    assert(both.len() == 5);
    assert(whole[0] == 'c' && both[0] == 'c');
    assert(whole[1] == 'p' && both[1] == 'p');
    assert(whole[2] == '4' && both[2] == '4');
    assert(whole[3] == '2' && both[3] == '2');
    assert(whole[4] == '4' && both[4] == '4');
    assert(whole =~= both);
}

#[verifier::rlimit(60)]
#[verifier::spinoff_prover]
proof fn lemma_name_500()
    ensures
        "cp500"@ == "cp"@ + "500"@,
{
    reveal_strlit("cp");
    reveal_strlit("500");
    reveal_strlit("cp500");
    let whole = "cp500"@;
    let both = "cp"@ + "500"@;
    assert(whole.len() == 5);
    assert(both.len() == 5);
    assert(whole[0] == 'c' && both[0] == 'c');
    assert(whole[1] == 'p' && both[1] == 'p');
    assert(whole[2] == '5' && both[2] == '5');
    assert(whole[3] == '0' && both[3] == '0');
    assert(whole[4] == '0' && both[4] == '0');
    assert(whole =~= both);
}

#[verifier::rlimit(60)]
#[verifier::spinoff_prover]
proof fn lemma_name_875()
    ensures
        "cp875"@ == "cp"@ + "875"@,
{
    reveal_strlit("cp");
    reveal_strlit("875");
    reveal_strlit("cp875");
    let whole = "cp875"@;
    let both = "cp"@ + "875"@;
    assert(whole.len() == 5);
    assert(both.len() == 5);
    assert(whole[0] == 'c' && both[0] == 'c');
    assert(whole[1] == 'p' && both[1] == 'p');
    assert(whole[2] == '8' && both[2] == '8');
    assert(whole[3] == '7' && both[3] == '7');
    assert(whole[4] == '5' && both[4] == '5');
    assert(whole =~= both);
}

#[verifier::rlimit(60)]
#[verifier::spinoff_prover]
proof fn lemma_name_1026()
    ensures
        "cp1026"@ == "cp"@ + "1026"@,
{
    reveal_strlit("cp");
    reveal_strlit("1026");
    reveal_strlit("cp1026");
    let whole = "cp1026"@;
    let both = "cp"@ + "1026"@;
    assert(whole.len() == 6);
    assert(both.len() == 6);
    assert(whole[0] == 'c' && both[0] == 'c');
    assert(whole[1] == 'p' && both[1] == 'p');
    assert(whole[2] == '1' && both[2] == '1');
    assert(whole[3] == '0' && both[3] == '0');
    assert(whole[4] == '2' && both[4] == '2');
    assert(whole[5] == '6' && both[5] == '6');
    assert(whole =~= both);
}

#[verifier::rlimit(60)]
#[verifier::spinoff_prover]
proof fn lemma_name_1140()
    ensures
        "cp1140"@ == "cp"@ + "1140"@,
{
    reveal_strlit("cp");
    reveal_strlit("1140");
    reveal_strlit("cp1140");
    let whole = "cp1140"@;
    let both = "cp"@ + "1140"@;
    assert(whole.len() == 6);
    assert(both.len() == 6);
    assert(whole[0] == 'c' && both[0] == 'c');
    assert(whole[1] == 'p' && both[1] == 'p');
    assert(whole[2] == '1' && both[2] == '1');
    assert(whole[3] == '1' && both[3] == '1');
    assert(whole[4] == '4' && both[4] == '4');
    assert(whole[5] == '0' && both[5] == '0');
    assert(whole =~= both);
}

} // verus!
