//! Code page names, tables and failures.

use grpc_ebcdic::codec::{
    find_page, supported_encodings, CodePage, Codec, CodecError, DEFAULT_ENCODING,
};
use grpc_ebcdic::error::{Code, ParseError};

#[test]
fn every_listed_page_resolves_to_its_own_name() {
    assert_eq!(
        supported_encodings(),
        vec!["cp037", "cp273", "cp424", "cp500", "cp875", "cp1026", "cp1140"]
    );
    assert_eq!(DEFAULT_ENCODING, "cp037");
    for name in supported_encodings() {
        assert_eq!(Codec::resolve(name).unwrap().name(), name);
        // Names are looked up without regard to case and separators.
        let shouted = name.to_uppercase();
        assert_eq!(Codec::resolve(&shouted).unwrap().name(), name, "{shouted}");
        let spaced = format!("IBM {}", &name[2..]);
        assert_eq!(Codec::resolve(&spaced).unwrap().name(), name, "{spaced}");
    }
}

#[test]
fn every_byte_a_page_assigns_comes_back_from_encoding() {
    for name in supported_encodings() {
        let codec = Codec::resolve(name).unwrap();
        for byte in 0u8..=255 {
            if let Ok(text) = codec.decode(&[byte]) {
                let again = codec.encode(&text).expect("a decoded character encodes");
                assert_eq!(codec.decode(&again).unwrap(), text, "{name} 0x{byte:02x}");
            }
        }
    }
}

#[test]
fn the_digits_are_where_cobol_expects_them_on_every_page() {
    for name in supported_encodings() {
        let codec = Codec::resolve(name).unwrap();
        let bytes: Vec<u8> = (0xf0..=0xf9).collect();
        assert_eq!(codec.decode(&bytes).unwrap(), "0123456789", "{name}");
        assert_eq!(codec.encode("0123456789").unwrap(), bytes, "{name}");
    }
}

#[test]
fn only_the_hebrew_page_leaves_bytes_unassigned() {
    let mut unassigned = Vec::new();
    for name in supported_encodings() {
        let codec = Codec::resolve(name).unwrap();
        let count = (0u8..=255).filter(|b| codec.decode(&[*b]).is_err()).count();
        unassigned.push((name, count));
    }
    assert_eq!(
        unassigned,
        vec![
            ("cp037", 0),
            ("cp273", 0),
            ("cp424", 38),
            ("cp500", 0),
            ("cp875", 0),
            ("cp1026", 0),
            ("cp1140", 0),
        ]
    );
}

#[test]
fn national_pages_place_their_own_letters() {
    for (name, byte, text) in [
        ("cp273", 0xc0_u8, "\u{e4}"),
        ("cp424", 0x41, "\u{5d0}"),
        ("cp875", 0x41, "\u{391}"),
        ("cp1026", 0x79, "\u{131}"),
        ("cp1140", 0x9f, "\u{20ac}"),
    ] {
        let codec = Codec::resolve(name).unwrap();
        assert_eq!(codec.decode(&[byte]).unwrap(), text, "{name}");
        assert_eq!(codec.encode(text).unwrap(), vec![byte], "{name}");
    }
}

#[test]
fn codec_failures_are_the_callers_and_say_what_they_saw() {
    let unknown = Codec::resolve("  Latin-1 ").unwrap_err();
    assert_eq!(
        unknown,
        CodecError::UnknownEncoding {
            requested: "  Latin-1 ".to_string()
        }
    );
    let error = ParseError::from_codec(&unknown);
    assert_eq!(error.code(), Code::InvalidArgument);
    assert_eq!(
        error.to_string(),
        "unknown EBCDIC code page \"  Latin-1 \"; this build carries cp037, cp273, cp424, cp500, \
         cp875, cp1026, cp1140"
    );
    let undefined = Codec::resolve("cp424").unwrap().decode(&[0xc1, 0x70]).unwrap_err();
    assert_eq!(ParseError::from_codec(&undefined).code(), Code::InvalidArgument);
    let message = undefined.to_string();
    assert!(message.contains("0x70"), "{message}");
    assert!(message.contains("cp424"), "{message}");
    assert!(message.contains('1'), "{message}");
}

#[test]
fn the_first_character_that_cannot_be_encoded_is_reported() {
    let codec = Codec::resolve("cp037").unwrap();
    assert_eq!(codec.encode("ok\u{20ac}\u{1f600}"), Err('\u{20ac}'));
    assert_eq!(codec.encode(""), Ok(Vec::new()));
}

#[test]
fn each_failure_has_its_status_code() {
    for (error, code) in [
        (ParseError::invalid("i".to_string()), Code::InvalidArgument),
        (ParseError::unsupported("u".to_string()), Code::Unimplemented),
        (ParseError::exhausted("e".to_string()), Code::ResourceExhausted),
        (ParseError::internal("n".to_string()), Code::Internal),
    ] {
        assert_eq!(error.code(), code);
        assert_eq!(error.to_string().len(), 1);
    }
}

#[test]
fn names_are_quoted_the_way_debug_formatting_quotes() {
    for name in ["a\"b", "tab\there", "back\\slash", "caf\u{e9}\u{301}", "\u{200b}x"] {
        let message = Codec::resolve(name).unwrap_err().to_string();
        assert!(message.contains(&format!("{name:?}")), "{message}");
    }
}

#[test]
fn a_normalized_name_stands_for_its_page() {
    for (key, page) in [
        ("cp037", CodePage::Cp037),
        ("ebcdiccpwt", CodePage::Cp037),
        ("273", CodePage::Cp273),
        ("ebcdiccphe", CodePage::Cp424),
        ("ibm500", CodePage::Cp500),
        ("ebcdicgreek", CodePage::Cp875),
        ("csibm1026", CodePage::Cp1026),
        ("1140", CodePage::Cp1140),
    ] {
        assert_eq!(find_page(key), Some(page), "{key}");
    }
    // Only a normalized name is looked up.
    assert_eq!(find_page("CP037"), None);
    assert_eq!(find_page("cp-037"), None);
    assert_eq!(find_page(""), None);
}

#[test]
fn case_and_separators_do_not_matter_in_a_name() {
    for name in ["ibm500", "IBM500", "i-b_m 5.0.0", "EBCDIC-CP-BE", "ebcdic_cp be"] {
        assert_eq!(Codec::resolve(name).unwrap().name(), "cp500", "{name}");
    }
}
