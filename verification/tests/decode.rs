//! Field decoders.

use grpc_ebcdic::codec::Codec;
use grpc_ebcdic::decode::{
    decode_binary, decode_packed, decode_text, decode_zoned, render_decimal, FieldValue,
};
use grpc_ebcdic::error::ParseError;

#[test]
fn packed_decimal_reads_both_signs_and_the_unsigned_nibble() {
    // 12345 with the preferred positive sign, the negative sign, and the
    // unsigned filler, all three of which appear in real files.
    assert_eq!(decode_packed(&[0x12, 0x34, 0x5c]).unwrap(), 12_345);
    assert_eq!(decode_packed(&[0x12, 0x34, 0x5d]).unwrap(), -12_345);
    assert_eq!(decode_packed(&[0x12, 0x34, 0x5f]).unwrap(), 12_345);
    // The alternates: 0xa and 0xe positive, 0xb negative.
    assert_eq!(decode_packed(&[0x00, 0x1a]).unwrap(), 1);
    assert_eq!(decode_packed(&[0x00, 0x1e]).unwrap(), 1);
    assert_eq!(decode_packed(&[0x00, 0x1b]).unwrap(), -1);
}

#[test]
fn packed_decimal_rejects_a_bad_nibble_and_says_where() {
    // 0xa in a digit position, not the sign position.
    let err = decode_packed(&[0x1a, 0x34, 0x5c]).unwrap_err();
    let ParseError::Invalid(message) = &err else {
        panic!("a corrupt nibble is the caller's problem, got {err:?}");
    };
    assert!(message.contains("nibble 1"), "{message}");
    assert!(message.contains("0xa"), "{message}");
    assert!(
        message.contains("1a345c"),
        "the offending bytes are quoted: {message}"
    );
}

#[test]
fn packed_decimal_zero_and_single_byte_forms() {
    assert_eq!(decode_packed(&[0x0c]).unwrap(), 0);
    assert_eq!(decode_packed(&[0x9d]).unwrap(), -9);
    assert_eq!(decode_packed(&[0x00, 0x00, 0x0d]).unwrap(), 0);
}

#[test]
fn packed_decimal_holds_more_digits_than_a_double() {
    // 17 significant digits: an f64 loses the last two.
    let bytes = [0x12, 0x34, 0x56, 0x78, 0x90, 0x12, 0x34, 0x56, 0x7c];
    assert_eq!(decode_packed(&bytes).unwrap(), 12_345_678_901_234_567_i128);
}

#[test]
fn zoned_decimal_reads_the_overpunched_sign() {
    // EBCDIC "12345" is f1 f2 f3 f4 f5; the negative form overpunches the
    // last zone to 0xd.
    assert_eq!(
        decode_zoned(&[0xf1, 0xf2, 0xf3, 0xf4, 0xf5]).unwrap(),
        12_345
    );
    assert_eq!(
        decode_zoned(&[0xf1, 0xf2, 0xf3, 0xf4, 0xd5]).unwrap(),
        -12_345
    );
    assert_eq!(
        decode_zoned(&[0xf1, 0xf2, 0xf3, 0xf4, 0xc5]).unwrap(),
        12_345
    );
}

#[test]
fn zoned_decimal_rejects_a_non_decimal_digit() {
    let err = decode_zoned(&[0xf1, 0xfa]).unwrap_err();
    let ParseError::Invalid(message) = &err else {
        panic!("got {err:?}")
    };
    assert!(message.contains("digit 1"), "{message}");
}

#[test]
fn zoned_decimal_reads_blank_padding_as_zero_like_cobol_does() {
    // 0x40 is the EBCDIC space; its low nibble is zero. A blank-filled
    // numeric is what an unwritten field looks like on tape.
    assert_eq!(decode_zoned(&[0x40, 0x40, 0xf7]).unwrap(), 7);
}

#[test]
fn binary_is_big_endian_and_sign_aware() {
    assert_eq!(decode_binary(&[0x00, 0x2a], true).unwrap(), 42);
    assert_eq!(decode_binary(&[0xff, 0xd6], true).unwrap(), -42);
    assert_eq!(decode_binary(&[0xff, 0xd6], false).unwrap(), 65_494);
    assert_eq!(
        decode_binary(&[0x7f, 0xff, 0xff, 0xff], true).unwrap(),
        2_147_483_647
    );
    assert_eq!(
        decode_binary(&[0x80, 0x00, 0x00, 0x00], true).unwrap(),
        -2_147_483_648
    );
    assert_eq!(decode_binary(&[0xff; 8], false).unwrap(), u64::MAX.into());
    assert_eq!(decode_binary(&[0xff; 8], true).unwrap(), -1);
}

#[test]
fn binary_wider_than_the_decoder_is_unimplemented_not_invalid() {
    let err = decode_binary(&[0u8; 17], false).unwrap_err();
    assert!(matches!(err, ParseError::Unsupported(_)), "got {err:?}");
}

#[test]
fn text_strips_control_characters_only_when_asked() {
    let codec = Codec::resolve("cp037").unwrap();
    // "AB", a shift-out control (0x0e), then "C", blank-padded.
    let bytes = [0xc1, 0xc2, 0x0e, 0xc3, 0x40, 0x40];
    assert_eq!(decode_text(codec, &bytes, true).unwrap(), "ABC");
    assert_eq!(decode_text(codec, &bytes, false).unwrap(), "AB\u{e}C");
}

#[test]
fn text_is_trimmed_at_both_ends() {
    let codec = Codec::resolve("cp037").unwrap();
    let bytes = codec.encode("   padded   ").unwrap();
    assert_eq!(decode_text(codec, &bytes, true).unwrap(), "padded");
}

#[test]
fn decimals_render_exactly_at_every_scale() {
    assert_eq!(render_decimal(12_345, 0), "12345");
    assert_eq!(render_decimal(12_345, 2), "123.45");
    assert_eq!(render_decimal(-12_345, 2), "-123.45");
    assert_eq!(render_decimal(5, 2), "0.05");
    assert_eq!(render_decimal(-5, 2), "-0.05");
    assert_eq!(render_decimal(0, 2), "0.00");
    assert_eq!(render_decimal(5, 6), "0.000005");
    assert_eq!(render_decimal(i128::MIN, 0), i128::MIN.to_string());
}

#[test]
fn field_values_stringify_the_way_a_selector_compares_them() {
    assert_eq!(FieldValue::Text("A".into()).to_display_string(), "A");
    assert_eq!(
        FieldValue::Number {
            unscaled: 7,
            scale: 0
        }
        .to_display_string(),
        "7"
    );
    assert_eq!(
        FieldValue::Number {
            unscaled: 7,
            scale: 2
        }
        .to_display_string(),
        "0.07"
    );
}
