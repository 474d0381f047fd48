use rowdb::compiler::{prepare_insert, prepare_statement, PrepareError, StatementType};

#[test]
fn select_is_prepared() {
    let statement = prepare_statement("select").unwrap();
    assert_eq!(statement.type_, StatementType::Select);
    assert!(statement.row_to_insert.is_none());
}

#[test]
fn select_takes_no_notice_of_what_follows() {
    let statement = prepare_statement("  select  everything ").unwrap();
    assert_eq!(statement.type_, StatementType::Select);
    assert!(statement.row_to_insert.is_none());
}

#[test]
fn insert_is_prepared() {
    let statement = prepare_statement("insert 1 alice a@x.com").unwrap();
    assert_eq!(statement.type_, StatementType::Insert);
    let row = statement.row_to_insert.unwrap();
    assert_eq!(row.id(), 1);
    assert_eq!(row.username(), "alice");
    assert_eq!(row.email(), "a@x.com");
}

#[test]
fn insert_words_may_be_spread_out() {
    let statement = prepare_statement("\tinsert   +4294967295\tbob \u{a0} b@y.com\n").unwrap();
    let row = statement.row_to_insert.unwrap();
    assert_eq!(row.id(), u32::MAX);
    assert_eq!(row.username(), "bob");
    assert_eq!(row.email(), "b@y.com");
}

#[test]
fn insert_with_too_few_words_is_a_syntax_error() {
    match prepare_statement("insert 1 alice") {
        Err(PrepareError::SyntaxError(m)) => {
            assert_eq!(m, "Insert Command Argument Error: \"insert 1 alice\"")
        }
        _ => panic!("expected a syntax error"),
    }
}

#[test]
fn insert_with_too_many_words_is_a_syntax_error() {
    match prepare_statement("insert 1 a b c") {
        Err(PrepareError::SyntaxError(m)) => {
            assert_eq!(m, "Insert Command Argument Error: \"insert 1 a b c\"")
        }
        _ => panic!("expected a syntax error"),
    }
}

#[test]
fn the_line_is_quoted_with_escapes() {
    match prepare_statement("insert \"1\"\t\\") {
        Err(PrepareError::SyntaxError(m)) => {
            assert_eq!(m, "Insert Command Argument Error: \"insert \\\"1\\\"\\t\\\\\"")
        }
        _ => panic!("expected a syntax error"),
    }
}

#[test]
fn insert_with_a_bad_id_is_a_syntax_error() {
    for line in ["insert x alice a@x.com", "insert -1 alice a@x.com", "insert 4294967296 a b"] {
        match prepare_statement(line) {
            Err(PrepareError::SyntaxError(m)) => {
                assert_eq!(m, "Syntax error. Could not parse statement.")
            }
            _ => panic!("expected a syntax error"),
        }
    }
}

#[test]
fn insert_with_a_long_username_is_refused() {
    let line = format!("insert 1 {} a@x.com", "u".repeat(32));
    match prepare_statement(&line) {
        Err(PrepareError::StringTooLong(m)) => {
            assert_eq!(m, "username string is too long. (>31)")
        }
        _ => panic!("expected a too-long error"),
    }
}

#[test]
fn insert_with_a_long_email_is_refused() {
    let line = format!("insert 1 alice {}", "e".repeat(255));
    match prepare_statement(&line) {
        Err(PrepareError::StringTooLong(m)) => assert_eq!(m, "email string is too long. (>254)"),
        _ => panic!("expected a too-long error"),
    }
}

#[test]
fn insert_with_strings_at_their_limits_is_prepared() {
    let line = format!("insert 9 {} {}", "u".repeat(31), "e".repeat(254));
    let row = prepare_statement(&line).unwrap().row_to_insert.unwrap();
    assert_eq!(row.username(), "u".repeat(31));
    assert_eq!(row.email(), "e".repeat(254));
}

#[test]
fn bad_count_is_told_before_bad_id() {
    match prepare_statement("insert x") {
        Err(PrepareError::SyntaxError(m)) => {
            assert_eq!(m, "Insert Command Argument Error: \"insert x\"")
        }
        _ => panic!("expected a syntax error"),
    }
}

#[test]
fn bad_id_is_told_before_long_strings() {
    let line = format!("insert x {} e", "u".repeat(32));
    match prepare_statement(&line) {
        Err(PrepareError::SyntaxError(m)) => {
            assert_eq!(m, "Syntax error. Could not parse statement.")
        }
        _ => panic!("expected a syntax error"),
    }
}

#[test]
fn unknown_keyword_is_unrecognized() {
    match prepare_statement("update 1 alice") {
        Err(PrepareError::UnrecognizedStatement(m)) => {
            assert_eq!(m, "Unrecognized Statement: \"update 1 alice\"")
        }
        _ => panic!("expected an unrecognized statement"),
    }
}

#[test]
fn keywords_are_in_lower_case() {
    assert!(matches!(
        prepare_statement("SELECT"),
        Err(PrepareError::UnrecognizedStatement(_))
    ));
    assert!(matches!(
        prepare_statement("Insert 1 a b"),
        Err(PrepareError::UnrecognizedStatement(_))
    ));
}

#[test]
fn prepare_insert_counts_the_keyword() {
    let statement = prepare_insert("anything 5 carol c@z.org").unwrap();
    assert_eq!(statement.type_, StatementType::Insert);
    let row = statement.row_to_insert.unwrap();
    assert_eq!(row.id(), 5);
    assert_eq!(row.username(), "carol");
    assert_eq!(row.email(), "c@z.org");
}

#[test]
fn prepare_insert_of_a_blank_line_is_a_syntax_error() {
    match prepare_insert("") {
        Err(PrepareError::SyntaxError(m)) => assert_eq!(m, "Insert Command Argument Error: \"\""),
        _ => panic!("expected a syntax error"),
    }
}

#[test]
fn an_empty_line_is_unrecognized() {
    match prepare_statement("") {
        Err(PrepareError::UnrecognizedStatement(m)) => {
            assert_eq!(m, "Unrecognized Statement: \"\"")
        }
        _ => panic!("expected an unrecognized statement"),
    }
}

#[test]
fn a_line_of_white_space_is_unrecognized() {
    match prepare_statement(" \t ") {
        Err(PrepareError::UnrecognizedStatement(m)) => {
            assert_eq!(m, "Unrecognized Statement: \" \\t \"")
        }
        _ => panic!("expected an unrecognized statement"),
    }
    assert!(matches!(
        prepare_statement("\u{3000}\n"),
        Err(PrepareError::UnrecognizedStatement(_))
    ));
}

#[test]
fn a_keyword_must_be_the_whole_first_word() {
    assert!(matches!(
        prepare_statement("selection"),
        Err(PrepareError::UnrecognizedStatement(_))
    ));
    assert!(matches!(
        prepare_statement("inserts 1 a b"),
        Err(PrepareError::UnrecognizedStatement(_))
    ));
}

#[test]
fn errors_print_their_variant_and_message() {
    let e = prepare_statement("nope").unwrap_err();
    assert_eq!(
        format!("{:?}", e),
        "UnrecognizedStatement(\"Unrecognized Statement: \\\"nope\\\"\")"
    );
}
