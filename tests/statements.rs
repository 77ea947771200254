use minidb::{
    execute_meta_command, prepare_statement, ExecuteResult, MetaCommandResult, PrepareResult,
    StatementKind, Table,
};

fn run(table: &mut Table, line: &str) -> (ExecuteResult, Vec<String>) {
    match prepare_statement(line) {
        PrepareResult::Prepared(statement) => {
            let mut out = Vec::new();
            let r = table.execute_statement(&statement, &mut out);
            (r, out)
        }
        other => panic!("not prepared: {:?}", other),
    }
}

#[test]
fn scenario_alice_then_bob() {
    let mut t = Table::new();
    assert_eq!(run(&mut t, "insert 1 alice alice@example.com").0, ExecuteResult::Executed);
    assert_eq!(run(&mut t, "insert 2 bob bob@example.com").0, ExecuteResult::Executed);
    let (r, lines) = run(&mut t, "select");
    assert_eq!(r, ExecuteResult::Executed);
    assert_eq!(
        lines,
        vec![
            "(1, 'alice', 'alice@example.com')".to_string(),
            "(2, 'bob', 'bob@example.com')".to_string(),
        ]
    );
}

#[test]
fn insert_is_prepared_with_captured_fields() {
    match prepare_statement("insert 17 dave dave@example.net") {
        PrepareResult::Prepared(s) => {
            assert_eq!(s.kind, StatementKind::Insert);
            let row = s.row_to_insert.unwrap();
            assert_eq!(row.id(), 17);
            assert_eq!(row.render(), "(17, 'dave', 'dave@example.net')");
        }
        other => panic!("unexpected {:?}", other),
    }
}

#[test]
fn select_is_prepared_without_row() {
    match prepare_statement("select") {
        PrepareResult::Prepared(s) => {
            assert_eq!(s.kind, StatementKind::Select);
            assert!(s.row_to_insert.is_none());
        }
        other => panic!("unexpected {:?}", other),
    }
}

#[test]
fn insert_missing_fields_is_syntax_error() {
    assert!(matches!(prepare_statement("insert 1 alice"), PrepareResult::SyntaxError));
    assert!(matches!(prepare_statement("insert"), PrepareResult::SyntaxError));
}

#[test]
fn insert_with_non_numeric_id_is_syntax_error() {
    assert!(matches!(prepare_statement("insert x alice a@b"), PrepareResult::SyntaxError));
    assert!(matches!(prepare_statement("insert -1 alice a@b"), PrepareResult::SyntaxError));
}

#[test]
fn insert_with_id_past_u32_is_syntax_error() {
    assert!(matches!(prepare_statement("insert 4294967296 alice a@b"), PrepareResult::SyntaxError));
    assert!(matches!(prepare_statement("insert 4294967295 alice a@b"), PrepareResult::Prepared(_)));
}

#[test]
fn username_past_width_is_too_long() {
    let name = "n".repeat(33);
    let line = format!("insert 1 {} a@b", name);
    assert!(matches!(prepare_statement(&line), PrepareResult::StringTooLong));
    let line = format!("insert 1 {} a@b", "n".repeat(32));
    assert!(matches!(prepare_statement(&line), PrepareResult::Prepared(_)));
}

#[test]
fn email_past_width_is_too_long() {
    let line = format!("insert 1 bob {}", "e".repeat(256));
    assert!(matches!(prepare_statement(&line), PrepareResult::StringTooLong));
    let line = format!("insert 1 bob {}", "e".repeat(255));
    assert!(matches!(prepare_statement(&line), PrepareResult::Prepared(_)));
}

#[test]
fn unknown_keyword_is_unrecognized() {
    assert!(matches!(prepare_statement("delete 1"), PrepareResult::UnrecognizedStatement));
    assert!(matches!(prepare_statement(""), PrepareResult::UnrecognizedStatement));
}

#[test]
fn duplicate_ids_are_accepted() {
    let mut t = Table::new();
    run(&mut t, "insert 1 a a@x");
    run(&mut t, "insert 1 b b@x");
    let (_, lines) = run(&mut t, "select");
    assert_eq!(lines, vec!["(1, 'a', 'a@x')".to_string(), "(1, 'b', 'b@x')".to_string()]);
}

#[test]
fn meta_commands() {
    assert_eq!(execute_meta_command(".exit"), MetaCommandResult::Exit);
    assert_eq!(execute_meta_command(".exit "), MetaCommandResult::Unrecognized);
    assert_eq!(execute_meta_command(".tables"), MetaCommandResult::Unrecognized);
}
