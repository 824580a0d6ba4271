//! The field decoders at their edges.

use grpc_ebcdic::codec::Codec;
use grpc_ebcdic::decode::{
    decode_binary, decode_packed, decode_text, decode_zoned, render_decimal, FieldValue,
};
use grpc_ebcdic::error::{Code, ParseError};

/// The message of a failure with a code.
fn failure<T: std::fmt::Debug>(result: Result<T, ParseError>, code: Code) -> String {
    let error = result.expect_err("a failure");
    assert_eq!(error.code(), code, "{error:?}");
    error.to_string()
}

#[test]
fn an_empty_field_has_no_number() {
    assert_eq!(
        failure(decode_packed(&[]), Code::InvalidArgument),
        "a packed decimal field needs at least one byte"
    );
    assert_eq!(
        failure(decode_zoned(&[]), Code::InvalidArgument),
        "a zoned decimal field needs at least one byte"
    );
    assert_eq!(
        failure(decode_binary(&[], true), Code::InvalidArgument),
        "a binary field needs at least one byte"
    );
}

#[test]
fn the_widest_numbers_are_exact() {
    // 37 packed digits, the widest the decoders take.
    let mut packed = vec![0x99; 18];
    packed.push(0x9d);
    assert_eq!(decode_packed(&packed).unwrap(), -(10_i128.pow(37) - 1));
    let zoned = vec![0xf9; 37];
    assert_eq!(decode_zoned(&zoned).unwrap(), 10_i128.pow(37) - 1);
    assert_eq!(decode_binary(&[0xff; 16], true).unwrap(), -1);
    let mut widest = [0xff; 16];
    widest[0] = 0x7f;
    assert_eq!(decode_binary(&widest, false).unwrap(), i128::MAX);
    let mut lowest = [0x00; 16];
    lowest[0] = 0x80;
    assert_eq!(decode_binary(&lowest, true).unwrap(), i128::MIN);
}

#[test]
fn a_binary_field_that_does_not_fit_says_how_wide_it_is() {
    let message = failure(decode_binary(&[0; 17], true), Code::Unimplemented);
    assert!(message.contains("17"), "{message}");
}

#[test]
fn a_bad_zoned_digit_is_quoted_with_its_bytes() {
    let message = failure(decode_zoned(&[0xf1, 0xf2, 0xfb]), Code::InvalidArgument);
    assert_eq!(
        message,
        "zoned decimal digit 2 is 0xb, not a digit (bytes f1f2fb)"
    );
    let message = failure(decode_packed(&[0x12, 0xe4, 0x5c]), Code::InvalidArgument);
    assert_eq!(
        message,
        "packed decimal nibble 2 is 0xe, not a digit (bytes 12e45c)"
    );
}

#[test]
fn text_keeps_inner_blanks_and_refuses_unassigned_bytes() {
    let codec = Codec::resolve("cp037").unwrap();
    let bytes = codec.encode("  two  words ").unwrap();
    assert_eq!(decode_text(codec, &bytes, true).unwrap(), "two  words");
    assert_eq!(decode_text(codec, &[], true).unwrap(), "");
    let hebrew = Codec::resolve("cp424").unwrap();
    failure(decode_text(hebrew, &[0x70], true), Code::InvalidArgument);
}

#[test]
fn rendering_keeps_every_digit_and_every_zero() {
    assert_eq!(render_decimal(100, 2), "1.00");
    assert_eq!(render_decimal(-100, 2), "-1.00");
    assert_eq!(render_decimal(1234, 9), "0.000001234");
    assert_eq!(
        render_decimal(i128::MIN, 38),
        "-1.70141183460469231731687303715884105728"
    );
    assert_eq!(
        FieldValue::Number { unscaled: -1, scale: 3 }.to_display_string(),
        "-0.001"
    );
}

#[test]
fn a_small_number_is_rendered_with_an_exponent() {
    assert_eq!(render_decimal(5, 6), "0.000005");
    assert_eq!(render_decimal(5, 7), "5E-7");
    assert_eq!(render_decimal(-5, 7), "-5E-7");
    assert_eq!(render_decimal(0, 6), "0.000000");
    assert_eq!(render_decimal(0, 7), "0E-7");
    assert_eq!(render_decimal(12, 8), "1.2E-7");
    assert_eq!(render_decimal(-1234, 12), "-1.234E-9");
    assert_eq!(render_decimal(1, 40), "1E-40");
}

#[test]
fn an_unsigned_binary_field_is_never_negative() {
    let mut bytes = [0x00; 16];
    bytes[0] = 0x80;
    assert_eq!(
        failure(decode_binary(&bytes, false), Code::Unimplemented),
        format!(
            "unsigned binary values above 2^127 - 1 are not supported (bytes 80{})",
            "0".repeat(30)
        )
    );
    assert_eq!(decode_binary(&[0x80], false).unwrap(), 128);
    assert_eq!(decode_binary(&[0x80], true).unwrap(), -128);
}

#[test]
fn a_text_value_is_free_of_its_padding() {
    let codec = Codec::resolve("cp037").unwrap();
    // A blank, a tab, "A", a null, "B", a blank.
    let bytes = [0x40, 0x05, 0xc1, 0x00, 0xc2, 0x40];
    assert_eq!(decode_text(codec, &bytes, true).unwrap(), "AB");
    assert_eq!(decode_text(codec, &bytes, false).unwrap(), "A\u{0}B");
    assert_eq!(decode_text(codec, &[0x40, 0x40], true).unwrap(), "");
}
