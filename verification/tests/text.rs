//! The text helpers, held against the standard library.

use grpc_ebcdic::text::{
    cat2, chars_of, comes_before, control, decimal_text, hex, join, magnitude, parse_number,
    parse_signed, same, signed_text, space, split_lines, string_of, trim,
};

/// Every character there is.
fn all_chars() -> impl Iterator<Item = char> {
    (0..=0x0010_ffff_u32).filter_map(char::from_u32)
}

/// Pieces of text with something to trip over in each.
const SAMPLES: [&str; 14] = [
    "",
    " ",
    "a",
    "ab",
    "b",
    "A",
    "  padded\t",
    "two\nlines",
    "two\r\nlines\r\n",
    "\r\r\n",
    "quote \" and 'tick' and \\",
    "\u{a0}\u{2003}wide\u{3000}",
    "\u{10ffff}\u{e000}\u{d7ff}",
    "caf\u{e9} \u{1f600}",
];

#[test]
fn white_space_and_controls_are_those_of_unicode() {
    for c in all_chars() {
        assert_eq!(space(c), c.is_whitespace(), "{c:?}");
        assert_eq!(control(c), c.is_control(), "{c:?}");
    }
}

#[test]
fn texts_are_compared_by_their_characters() {
    for a in SAMPLES {
        for b in SAMPLES {
            assert_eq!(same(a, b), a == b, "{a:?} {b:?}");
            assert_eq!(comes_before(a, b), a < b, "{a:?} {b:?}");
        }
    }
}

#[test]
fn texts_are_trimmed_and_split_as_strings_are() {
    for text in SAMPLES {
        assert_eq!(trim(text), text.trim(), "{text:?}");
        assert_eq!(
            split_lines(text)
                .iter()
                .map(|line| line.iter().collect::<String>())
                .collect::<Vec<_>>(),
            text.lines().map(str::to_string).collect::<Vec<_>>(),
            "{text:?}"
        );
        assert_eq!(chars_of(text), text.chars().collect::<Vec<_>>());
        let chars = chars_of(text);
        assert_eq!(string_of(&chars, 0, chars.len()), text);
    }
    assert_eq!(cat2("left", "right"), "leftright");
    assert_eq!(join(&vec!["a", "b", "c"], ", "), "a, b, c");
    assert_eq!(join(&vec![], ", "), "");
}

#[test]
fn numbers_are_written_in_decimal() {
    for n in [0_u128, 9, 10, 99, 100, 12_345, u128::from(u64::MAX), u128::MAX] {
        assert_eq!(decimal_text(n), n.to_string());
    }
    for n in [0_i128, 7, -7, i128::MAX, i128::MIN] {
        assert_eq!(signed_text(n), n.to_string());
        assert_eq!(magnitude(n), n.unsigned_abs());
    }
    assert_eq!(hex(&[0x00, 0x1a, 0xff]), "001aff");
}

#[test]
fn numbers_are_read_as_strings_parse() {
    for text in [
        "", "+", "-", "0", "+7", "-7", "007", "12x", " 1", "1 ", "65536", "65537", "-0", "+-1",
        "170141183460469231731687303715884105727",
        "170141183460469231731687303715884105728",
        "-170141183460469231731687303715884105728",
        "-170141183460469231731687303715884105729",
    ] {
        assert_eq!(parse_signed(text), text.parse::<i128>().ok(), "{text:?}");
        assert_eq!(
            parse_number(text, u128::from(u16::MAX)),
            text.parse::<u16>().ok().map(u128::from),
            "{text:?}"
        );
    }
}
