//! The copybook compiler.

use grpc_ebcdic::copybook::compile;
use grpc_ebcdic::error::ParseError;
use grpc_ebcdic::layout::FieldKind;

/// A worked example, in fixed-format columns.
const CUSTOMER: &str = "\
      * Customer master record.
       01  CUSTOMER-RECORD.
           05  CUST-ID              PIC 9(6).
           05  CUST-NAME            PIC X(20).
           05  CUST-BALANCE         PIC S9(7)V99 COMP-3.
           05  CUST-ORDER-COUNT     PIC S9(4) COMP.
           05  FILLER               PIC X(4).
";

#[test]
fn the_worked_example_compiles_to_the_expected_bytes() {
    let layout = compile(CUSTOMER).expect("the example compiles");
    assert_eq!(layout.records.len(), 1);
    let record = &layout.records[0];
    assert_eq!(record.name, "CUSTOMER-RECORD");
    let shape: Vec<_> = record
        .fields
        .iter()
        .map(|f| (f.name.as_str(), f.size, f.kind, f.scale))
        .collect();
    assert_eq!(
        shape,
        vec![
            ("CUST-ID", 6, FieldKind::ZonedDecimal, 0),
            ("CUST-NAME", 20, FieldKind::Text, 0),
            ("CUST-BALANCE", 5, FieldKind::PackedDecimal, 2),
            ("CUST-ORDER-COUNT", 2, FieldKind::Integer, 0),
            ("", 4, FieldKind::Skip, 0),
        ]
    );
    assert_eq!(record.fields.iter().map(|f| f.size).sum::<u32>(), 37);
}

#[test]
fn free_format_source_compiles_the_same_way() {
    let free = "01 CUSTOMER-RECORD.\n\
                05 CUST-ID PIC 9(6).\n\
                05 CUST-NAME PIC X(20).\n\
                05 CUST-BALANCE PIC S9(7)V99 COMP-3.\n\
                05 CUST-ORDER-COUNT PIC S9(4) COMP.\n\
                05 FILLER PIC X(4).\n";
    assert_eq!(
        compile(free).unwrap().records[0]
            .fields
            .iter()
            .map(|f| (f.name.clone(), f.size))
            .collect::<Vec<_>>(),
        compile(CUSTOMER).unwrap().records[0]
            .fields
            .iter()
            .map(|f| (f.name.clone(), f.size))
            .collect::<Vec<_>>()
    );
}

#[test]
fn group_items_are_flattened_and_contribute_no_bytes_of_their_own() {
    let source = "01 REC.\n\
                  05 ADDRESS.\n\
                  10 STREET PIC X(20).\n\
                  10 CITY PIC X(10).\n\
                  05 ZIP PIC 9(5).\n";
    let record = &compile(source).unwrap().records[0];
    assert_eq!(
        record
            .fields
            .iter()
            .map(|f| (f.name.as_str(), f.size))
            .collect::<Vec<_>>(),
        vec![("STREET", 20), ("CITY", 10), ("ZIP", 5)]
    );
}

#[test]
fn occurs_expands_to_indexed_names() {
    let record = &compile("01 REC.\n05 MONTH-TOTAL PIC S9(5) COMP-3 OCCURS 3 TIMES.\n")
        .unwrap()
        .records[0];
    assert_eq!(
        record
            .fields
            .iter()
            .map(|f| f.name.as_str())
            .collect::<Vec<_>>(),
        vec!["MONTH-TOTAL(1)", "MONTH-TOTAL(2)", "MONTH-TOTAL(3)"]
    );
    assert!(record.fields.iter().all(|f| f.size == 3));
}

#[test]
fn binary_widths_follow_the_digit_count() {
    let record = &compile(
        "01 REC.\n\
         05 A PIC S9(4) COMP.\n\
         05 B PIC 9(9) COMP.\n\
         05 C PIC S9(18) BINARY.\n",
    )
    .unwrap()
    .records[0];
    assert_eq!(
        record
            .fields
            .iter()
            .map(|f| (f.size, f.kind))
            .collect::<Vec<_>>(),
        vec![
            (2, FieldKind::Integer),
            (4, FieldKind::UnsignedInteger),
            (8, FieldKind::Integer),
        ]
    );
}

#[test]
fn packed_width_is_half_the_digits_plus_the_sign_nibble() {
    for (digits, bytes) in [
        (1u32, 1u32),
        (2, 2),
        (3, 2),
        (4, 3),
        (7, 4),
        (9, 5),
        (18, 10),
    ] {
        let source = format!("01 REC.\n05 N PIC S9({digits}) COMP-3.\n");
        assert_eq!(
            compile(&source).unwrap().records[0].fields[0].size,
            bytes,
            "{digits}"
        );
    }
}

#[test]
fn level_88_condition_names_declare_no_storage() {
    let record = &compile(
        "01 REC.\n\
         05 STATUS-CODE PIC X.\n\
         88 STATUS-OPEN VALUE 'O'.\n\
         88 STATUS-CLOSED VALUE 'C'.\n\
         05 REST PIC X(4).\n",
    )
    .unwrap()
    .records[0];
    assert_eq!(
        record
            .fields
            .iter()
            .map(|f| f.name.as_str())
            .collect::<Vec<_>>(),
        ["STATUS-CODE", "REST"]
    );
}

#[test]
fn a_value_literal_containing_a_period_does_not_end_the_statement() {
    let record = &compile("01 REC.\n05 F PIC X(4) VALUE 'A.B '.\n05 G PIC X(2).\n")
        .unwrap()
        .records[0];
    assert_eq!(record.fields.len(), 2);
}

#[test]
fn unsupported_clauses_are_unimplemented_and_name_themselves() {
    for (source, needle) in [
        (
            "01 REC.\n05 A PIC X(4).\n05 B REDEFINES A PIC 9(4).\n",
            "REDEFINES",
        ),
        ("01 REC.\n05 A COMP-1.\n", "COMP-1"),
        ("01 REC.\n05 A PIC S9(4) COMP-5.\n", "COMP-5"),
        ("01 REC.\n05 A PIC S9(4) COMP SYNC.\n", "SYNCHRONIZED"),
        (
            "01 REC.\n05 A PIC S9(4) SIGN IS LEADING SEPARATE.\n",
            "SIGN",
        ),
        (
            "01 REC.\n05 N PIC 9(3).\n05 T PIC X(2) OCCURS 3 DEPENDING ON N.\n",
            "DEPENDING",
        ),
        ("01 REC.\n05 A PIC ZZ9.99.\n", "edited picture"),
        ("01 REC.\n05 A PIC XXBXX.\n", "editing symbol"),
        ("01 REC.\n05 A PIC 9(3)PPP.\n", "symbol 'P'"),
        ("66 A RENAMES B.\n", "RENAMES"),
    ] {
        let err = compile(source).unwrap_err();
        assert!(
            matches!(&err, ParseError::Unsupported(m) if m.contains(needle)),
            "{source:?} should be UNIMPLEMENTED mentioning {needle}, got {err:?}"
        );
    }
}

#[test]
fn malformed_source_is_invalid_argument() {
    for source in [
        "",
        "this is not a copybook",
        "01 REC.\n05 A PIC.\n",
        "01 REC.\n05 A PIC X(.\n",
        "01 REC.\n05 A PIC X(4)\n",
        "01 REC.\n05 A PIC S9(4)V9V9.\n",
        "05 A PIC X(4).\n",
        "01 REC.\n05 A PIC XV9.\n",
        "01 REC.\n05 A.\n",
    ] {
        let err = compile(source).unwrap_err();
        assert!(
            matches!(err, ParseError::Invalid(_)),
            "{source:?} should be INVALID_ARGUMENT, got {err:?}"
        );
    }
}

#[test]
fn two_record_descriptions_need_the_layout_message_instead() {
    let err = compile("01 A.\n05 F PIC X(2).\n01 B.\n05 G PIC X(2).\n").unwrap_err();
    assert!(
        matches!(&err, ParseError::Unsupported(m) if m.contains("record_type_field")),
        "got {err:?}"
    );
}

#[test]
fn the_identification_area_past_column_72_is_not_code() {
    // Columns 73-80 carry a program name on real punched-card source.
    let padded = format!("{:<72}{}", "       01  REC.", "IGNOREME");
    let line = format!("{padded}\n{:<72}\n", "           05  F  PIC X(3).");
    let record = &compile(&line).unwrap().records[0];
    assert_eq!(record.name, "REC");
    assert_eq!(record.fields.len(), 1);
}
