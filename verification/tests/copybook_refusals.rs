//! What a copybook is refused for, and what it is not.

use grpc_ebcdic::copybook::compile;
use grpc_ebcdic::copybook::picture::Usage;
use grpc_ebcdic::copybook::statement::{parse_item, read_entry, Entry};
use grpc_ebcdic::error::{Code, ParseError};
use grpc_ebcdic::layout::{resolve, FieldKind};
use grpc_ebcdic::proto::v1::parse_options::LayoutSource;
use grpc_ebcdic::proto::v1::ParseOptions;

/// A copybook that is refused with a code and a message.
fn refused(source: &str, code: Code, message: &str) {
    let error: ParseError = match compile(source) {
        Ok(_) => panic!("{source:?} compiles"),
        Err(error) => error,
    };
    assert_eq!(error.code(), code, "{source:?}: {error:?}");
    assert_eq!(error.to_string(), message, "{source:?}");
}

#[test]
fn pictures_are_refused_for_what_is_wrong_with_them() {
    for (picture, message) in [
        ("(4)", "picture \"(4)\" of \"A\" starts a repeat count with nothing to repeat"),
        ("X(", "picture \"X(\" of \"A\" has an unterminated repeat count"),
        ("X(Z)", "picture \"X(Z)\" of \"A\" has a non-numeric repeat count \"Z\""),
        ("X(0)", "picture \"X(0)\" of \"A\" repeats 0 times, outside 1..=65536"),
        ("X(65537)", "picture \"X(65537)\" of \"A\" repeats 65537 times, outside 1..=65536"),
        (
            "X(65536)X",
            "picture \"X(65536)X\" of \"A\" describes more than 65536 character positions",
        ),
        ("XV9", "picture \"XV9\" of \"A\" mixes character symbols with the numeric symbols S, V or P"),
        ("9S9", "picture \"9S9\" of \"A\" puts S somewhere other than the front"),
        ("9V9V9", "picture \"9V9V9\" of \"A\" has more than one implied decimal point"),
        ("SV", "picture \"SV\" of \"A\" declares no digit positions"),
    ] {
        refused(
            &format!("01 REC.\n05 A PIC {picture}.\n"),
            Code::InvalidArgument,
            message,
        );
    }
    refused(
        "01 REC.\n05 A PIC XXBXX.\n",
        Code::Unimplemented,
        "picture \"XXBXX\" of \"A\" uses the editing symbol 'B'; numeric-edited and \
         alphanumeric-edited items are not decoded",
    );
    refused(
        "01 REC.\n05 A PIC ZZ9.99.\n",
        Code::Unimplemented,
        "picture \"ZZ9.99\" of \"A\" uses the symbol 'Z'; only S, 9 and V describe stored digits, \
         everything else is an edited picture this build does not decode",
    );
    refused(
        "01 REC.\n05 A PIC X(4) COMP-3.\n",
        Code::InvalidArgument,
        "\"A\" is a character item, so it cannot have a computational usage",
    );
    refused(
        "01 REC.\n05 A PIC 9(19) COMP.\n",
        Code::Unimplemented,
        "\"A\" is a binary item of 19 digits; COBOL binary stops at 18",
    );
}

#[test]
fn clauses_are_refused_for_what_they_lack() {
    for (source, message) in [
        ("01 REC.\n05 A PIC.\n", "PICTURE clause of \"A\" has no picture string"),
        ("01 REC.\n05 A PIC X USAGE.\n", "USAGE clause of \"A\" names no usage"),
        ("01 REC.\n05 A PIC X OCCURS.\n", "OCCURS clause of \"A\" has no repeat count"),
        (
            "01 REC.\n05 A PIC X OCCURS 0.\n",
            "OCCURS 0 is outside the supported range 1..=4096",
        ),
        (
            "01 REC.\n05 A PIC X OCCURS 4097.\n",
            "OCCURS 4097 is outside the supported range 1..=4096",
        ),
        (
            "HELLO WORLD.\n",
            "expected a level number at the start of \"HELLO WORLD\", found \"HELLO\"",
        ),
        ("50 A PIC X.\n", "level 50 is not a data-description level number"),
        (
            "01 REC.\n05 A PIC X VALUE 'open.\n",
            "unterminated literal in copybook line \"05 A PIC X VALUE 'open.\"",
        ),
        (
            "01 REC.\n05 A PIC X(4)\n",
            "the copybook ends without a period after \"05 A PIC X(4)\"",
        ),
    ] {
        refused(source, Code::InvalidArgument, message);
    }
    refused(
        "01 REC.\n05 A PIC 9 USAGE FLOAT.\n",
        Code::Unimplemented,
        "USAGE FLOAT is not a usage this build decodes",
    );
    refused(
        "66 A RENAMES B.\n",
        Code::Unimplemented,
        "level-66 RENAMES regroups fields that are already described",
    );
}

#[test]
fn trees_are_refused_for_their_shape() {
    refused(
        "01 REC.\n05 G PIC X.\n10 A PIC X.\n",
        Code::InvalidArgument,
        "item \"G\" has both a PICTURE clause and subordinate items",
    );
    refused(
        "01 REC.\n05 G OCCURS 3.\n10 A PIC X.\n",
        Code::Unimplemented,
        "OCCURS on the group item \"G\" is not supported; put it on the elementary items instead",
    );
    refused(
        "01 REC.\n05 A.\n",
        Code::InvalidArgument,
        "elementary item \"A\" has no PICTURE clause",
    );
    refused(
        "88 OPEN VALUE 'O'.\n",
        Code::InvalidArgument,
        "the copybook declares no storage: every item in it is a level-88 condition name",
    );
    refused(
        "05 A PIC X(4).\n",
        Code::InvalidArgument,
        "the copybook has no 01-level record description",
    );
    refused(
        "05 A PIC X.\n01 REC.\n05 B PIC X.\n",
        Code::InvalidArgument,
        "the copybook starts at level 05 rather than 01",
    );
    refused(
        "",
        Code::InvalidArgument,
        "the copybook has no data descriptions; a copybook is a list of level-numbered items such \
         as `01 REC.  05 NAME PIC X(20).`",
    );
}

#[test]
fn lower_case_source_compiles_like_upper_case() {
    let lower = compile("01 rec.\n05 amount pic s9(5)v99 comp-3.\n05 filler pic x.\n").unwrap();
    let fields = &lower.records[0].fields;
    assert_eq!(lower.records[0].name, "rec");
    assert_eq!(fields[0].name, "amount");
    assert_eq!(
        (fields[0].size, fields[0].kind, fields[0].scale),
        (4, FieldKind::PackedDecimal, 2)
    );
    assert_eq!(fields[1].kind, FieldKind::Skip);
}

#[test]
fn clauses_that_do_not_change_the_bytes_are_ignored() {
    let source = "01 REC GLOBAL.\n\
                  05 A PIC X(4) VALUE 'AB.D' JUSTIFIED RIGHT.\n\
                  05 B PIC 9(3) BLANK WHEN ZERO.\n\
                  05 C PIC S9(3)V9 USAGE IS PACKED-DECIMAL VALUE ZERO.\n";
    let record = &compile(source).unwrap().records[0];
    assert_eq!(
        record
            .fields
            .iter()
            .map(|f| (f.name.as_str(), f.size, f.scale))
            .collect::<Vec<_>>(),
        vec![("A", 4, 0), ("B", 3, 0), ("C", 3, 1)]
    );
}

#[test]
fn a_condition_name_leaves_the_storage_alone_and_keeps_its_values() {
    let with = compile(
        "01 REC.\n05 GRADE PIC 9.\n88 PASSING VALUE 1 THRU 3.\n88 OTHER VALUES ARE 4 5.\n\
         05 REST PIC X(2).\n",
    )
    .unwrap();
    let without = compile("01 REC.\n05 GRADE PIC 9.\n05 REST PIC X(2).\n").unwrap();
    let shape = |layout: &grpc_ebcdic::layout::RawLayout| {
        layout.records[0]
            .fields
            .iter()
            .map(|f| (f.name.clone(), f.size, f.kind, f.declaration.path.clone()))
            .collect::<Vec<_>>()
    };
    assert_eq!(shape(&with), shape(&without));
    let conditions = &with.records[0].fields[0].declaration.conditions;
    assert_eq!(conditions.len(), 2);
    assert_eq!(conditions[0].values, vec!["1 THRU 3"]);
    assert_eq!(conditions[0].ranges[0].low, "1");
    assert_eq!(conditions[0].ranges[0].high.as_deref(), Some("3"));
    assert_eq!(conditions[1].values, vec!["4", "5"]);
}

#[test]
fn an_occurrence_carries_its_number_and_its_item() {
    let record = &compile("01 REC.\n05 G.\n10 M PIC 9(2) OCCURS 2 TIMES.\n")
        .unwrap()
        .records[0];
    let second = &record.fields[1];
    assert_eq!(second.name, "M(2)");
    assert_eq!(second.declaration.path, "REC.G.M(2)");
    assert_eq!(second.declaration.level, Some(10));
    assert_eq!(second.declaration.occurs_index, Some(2));
    assert_eq!(second.declaration.occurs_group.as_deref(), Some("M"));
}

#[test]
fn a_level_77_item_is_a_record_of_its_own() {
    let record = &compile("77 COUNTER PIC 9(4) COMP.\n").unwrap().records[0];
    assert_eq!(record.name, "COUNTER");
    assert_eq!(record.fields.len(), 1);
    assert_eq!(record.fields[0].size, 2);
    assert_eq!(record.fields[0].declaration.path, "COUNTER");
}

/// The words of a statement.
fn words(statement: &str) -> Vec<String> {
    statement.split(' ').map(String::from).collect()
}

#[test]
fn keywords_are_read_in_capitals_and_names_as_they_stand() {
    let statement = words("05 total pic s9(5)v99 comp-3");
    let capitals = words("05 TOTAL PIC S9(5)V99 COMP-3");
    for entry in [parse_item(&statement), read_entry(&statement, &capitals)] {
        let item = match entry {
            Ok(Entry::Storage(item)) => item,
            _ => panic!("storage"),
        };
        assert_eq!(item.level, 5);
        assert_eq!(item.name.as_deref(), Some("total"));
        assert_eq!(item.picture.as_deref(), Some("S9(5)V99"));
        assert!(matches!(item.usage, Usage::Packed));
        assert_eq!(item.occurs, None);
    }
    // Keywords that are not in capitals are none.
    assert!(read_entry(&statement, &statement).is_err());
    // A letter whose capital is two letters is read in capitals too.
    let accented = words("05 straße pic x(4)");
    match parse_item(&accented) {
        Ok(Entry::Storage(item)) => assert_eq!(item.name.as_deref(), Some("straße")),
        _ => panic!("storage"),
    }
}

#[test]
fn a_condition_keeps_its_literals_as_they_stand() {
    let statement = words("88 is-open values 'o' thru 'p'");
    let capitals = words("88 IS-OPEN VALUES 'O' THRU 'P'");
    for entry in [parse_item(&statement), read_entry(&statement, &capitals)] {
        let condition = match entry {
            Ok(Entry::Condition(condition)) => condition,
            _ => panic!("a condition"),
        };
        assert_eq!(condition.name, "is-open");
        assert_eq!(condition.ranges.len(), 1);
        assert_eq!(condition.ranges[0].low, "o");
        assert_eq!(condition.ranges[0].high.as_deref(), Some("p"));
    }
}

#[test]
fn the_sequence_area_is_not_code() {
    for numbers in ["000100", "      ", "1 2 3 "] {
        let source = format!("{numbers} 01 REC.\n{numbers} 05 A PIC X(3).\n");
        let record = &compile(&source).unwrap().records[0];
        assert_eq!(record.name, "REC");
        assert_eq!(record.fields[0].size, 3);
    }
}

#[test]
fn an_unknown_clause_is_unimplemented_and_named() {
    refused(
        "01 REC.\n05 A PIC X WIBBLE.\n",
        Code::Unimplemented,
        "unrecognized clause \"WIBBLE\" in copybook item \"A\"",
    );
    refused(
        "01 REC.\n05 A PIC X OCCURS 3 INDEXED BY I.\n",
        Code::Unimplemented,
        "unrecognized clause \"INDEXED\" in copybook item \"A\"",
    );
}

#[test]
fn a_count_that_varies_is_unimplemented_however_it_is_spelled() {
    for (clause, word) in [
        ("OCCURS 3 DEPENDING ON N", "DEPENDING"),
        ("OCCURS 3 TIMES DEPENDING ON N", "DEPENDING"),
        ("OCCURS 9999 TIMES DEPENDING ON N", "DEPENDING"),
        ("OCCURS DEPENDING ON N", "DEPENDING"),
        ("OCCURS 1 TO 5 TIMES DEPENDING ON N", "OCCURS DEPENDING ON"),
        ("OCCURS 0 TO 5 DEPENDING ON N", "OCCURS DEPENDING ON"),
        ("OCCURS 1 TO 5", "OCCURS DEPENDING ON"),
    ] {
        refused(
            &format!("01 REC.\n05 N PIC 9(3).\n05 T PIC X(2) {clause}.\n"),
            Code::Unimplemented,
            &format!(
                "copybook item \"T\" uses {word}: OCCURS DEPENDING ON makes the record \
                 variable-length in a way the layout cannot describe"
            ),
        );
    }
}

#[test]
fn a_filler_is_a_skip_whatever_its_picture() {
    let options = ParseOptions {
        layout_source: Some(LayoutSource::Copybook(
            "01 R.\n05 A PIC X.\n05 FILLER PIC 9(3)V99.\n05 PIC S9(3)V99 COMP-3 OCCURS 2.\n".to_string(),
        )),
        ..Default::default()
    };
    let layout = resolve(&options).unwrap();
    let fields: Vec<(&str, u32, u32, FieldKind)> = layout.records[0]
        .fields
        .iter()
        .map(|field| (field.name.as_str(), field.offset, field.size, field.kind))
        .collect();
    assert_eq!(
        fields,
        vec![
            ("A", 0, 1, FieldKind::Text),
            ("", 1, 5, FieldKind::Skip),
            ("", 6, 3, FieldKind::Skip),
            ("", 9, 3, FieldKind::Skip),
        ]
    );
    assert_eq!(layout.records[0].size, 12);
}

#[test]
fn card_columns_carry_no_meaning() {
    let free = "01 REC.\n05 A PIC X(3).\r\n\n05 B PIC S9(3)V99\n   COMP-3 VALUE 'x. y'.";
    let plain = compile(free).unwrap();
    for card in ["000100 ", "       ", "1 2    "] {
        let carded: String = free.split_inclusive('\n').map(|line| format!("{card}{line}")).collect();
        let fields: Vec<_> = compile(&carded).unwrap().records[0]
            .fields
            .iter()
            .map(|field| (field.name.clone(), field.size, field.kind, field.scale))
            .collect();
        let wanted: Vec<_> = plain.records[0]
            .fields
            .iter()
            .map(|field| (field.name.clone(), field.size, field.kind, field.scale))
            .collect();
        assert_eq!(fields, wanted, "{card:?}");
    }
}
