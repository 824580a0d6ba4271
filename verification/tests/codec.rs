//! Code pages.

use grpc_ebcdic::codec::{Codec, CodecError};

#[test]
fn cp037_maps_the_invariant_characters() {
    let codec = Codec::resolve("cp037").expect("cp037 is carried");
    // The four anchors every EBCDIC layout depends on: space, the digits,
    // and both letter runs, which are not contiguous the way ASCII's are.
    assert_eq!(codec.decode(&[0x40]).unwrap(), " ");
    assert_eq!(codec.decode(&[0xf0, 0xf5, 0xf9]).unwrap(), "059");
    assert_eq!(codec.decode(&[0xc1, 0xc9, 0xd1, 0xe2]).unwrap(), "AIJS");
    assert_eq!(codec.decode(&[0x81, 0x89, 0x91, 0xa2]).unwrap(), "aijs");
}

#[test]
fn cp037_and_cp500_disagree_where_they_are_known_to() {
    // The two code pages shuffle the same seven punctuation marks around
    // seven byte positions. Decoding with the wrong one of the pair
    // produces text that looks plausible and is wrong, which is why the
    // encoding is a request option and never a guess.
    let us = Codec::resolve("cp037").unwrap();
    let international = Codec::resolve("cp500").unwrap();
    for (byte, in_us, in_international) in [
        (0x4a_u8, "\u{a2}", "["),
        (0x4f, "|", "!"),
        (0x5a, "!", "]"),
        (0x5f, "\u{ac}", "^"),
        (0xb0, "^", "\u{a2}"),
        (0xba, "[", "\u{ac}"),
        (0xbb, "]", "|"),
    ] {
        assert_eq!(us.decode(&[byte]).unwrap(), in_us, "cp037 0x{byte:02x}");
        assert_eq!(
            international.decode(&[byte]).unwrap(),
            in_international,
            "cp500 0x{byte:02x}"
        );
    }
}

#[test]
fn cp1140_is_cp037_with_a_euro() {
    let legacy = Codec::resolve("cp037").unwrap();
    let euro = Codec::resolve("cp1140").unwrap();
    assert_eq!(legacy.decode(&[0x9f]).unwrap(), "\u{a4}");
    assert_eq!(euro.decode(&[0x9f]).unwrap(), "\u{20ac}");
    // And identical everywhere else.
    for byte in 0u8..=255 {
        if byte != 0x9f {
            assert_eq!(
                legacy.decode(&[byte]),
                euro.decode(&[byte]),
                "byte 0x{byte:02x}"
            );
        }
    }
}

#[test]
fn names_are_resolved_through_aliases_and_spacing() {
    for spelling in [
        "cp037",
        "CP037",
        "IBM-037",
        "ibm037",
        "037",
        "  cp037  ",
        "ebcdic-cp-us",
    ] {
        assert_eq!(
            Codec::resolve(spelling).unwrap().name(),
            "cp037",
            "{spelling}"
        );
    }
    assert_eq!(Codec::resolve("").unwrap().name(), "cp037");
}

#[test]
fn an_unknown_code_page_is_named_in_the_error() {
    let err = Codec::resolve("utf-8").unwrap_err();
    assert!(matches!(&err, CodecError::UnknownEncoding { requested } if requested == "utf-8"));
    assert!(
        err.to_string().contains("cp1140"),
        "the error lists what is available"
    );
}

#[test]
fn an_unassigned_byte_is_an_error_not_a_replacement_character() {
    // cp424 (Hebrew) leaves 38 bytes unassigned; cp037 assigns all 256.
    let hebrew = Codec::resolve("cp424").unwrap();
    let err = hebrew.decode(&[0xc1, 0x70]).unwrap_err();
    assert!(
        matches!(
            err,
            CodecError::UndefinedByte {
                byte: 0x70,
                index: 1,
                ..
            }
        ),
        "{err:?}"
    );
    for byte in 0u8..=255 {
        assert!(
            Codec::resolve("cp037").unwrap().decode(&[byte]).is_ok(),
            "0x{byte:02x}"
        );
    }
}

#[test]
fn encode_round_trips_through_decode() {
    for name in ["cp037", "cp500", "cp1140"] {
        let codec = Codec::resolve(name).unwrap();
        let text = "ACCT-0042 Jones, R.  ";
        let bytes = codec.encode(text).expect("all ASCII is representable");
        assert_eq!(codec.decode(&bytes).unwrap(), text, "{name}");
    }
}

#[test]
fn encode_reports_the_character_it_cannot_represent() {
    let codec = Codec::resolve("cp037").unwrap();
    assert_eq!(codec.encode("\u{1f600}"), Err('\u{1f600}'));
}
