use minidb::{
    ExecuteResult, Page, Row, Statement, StatementKind, Table, PAGE_SIZE, ROWS_PER_PAGE, ROW_SIZE,
    TABLE_MAX_PAGES, TABLE_MAX_ROWS,
};

fn insert(table: &mut Table, id: u32, username: &str, email: &str) -> ExecuteResult {
    let statement = Statement {
        kind: StatementKind::Insert,
        row_to_insert: Some(Row::new(id, username, email)),
    };
    let mut out = Vec::new();
    let r = table.execute_statement(&statement, &mut out);
    assert!(out.is_empty());
    r
}

fn select(table: &mut Table) -> Vec<String> {
    let statement = Statement { kind: StatementKind::Select, row_to_insert: None };
    let mut out = Vec::new();
    assert_eq!(table.execute_statement(&statement, &mut out), ExecuteResult::Executed);
    out
}

#[test]
fn layout_constants() {
    assert_eq!(ROWS_PER_PAGE, PAGE_SIZE / ROW_SIZE);
    assert_eq!(ROWS_PER_PAGE, 3);
    assert_eq!(TABLE_MAX_ROWS, ROWS_PER_PAGE * TABLE_MAX_PAGES);
    assert_eq!(TABLE_MAX_ROWS, 300);
}

#[test]
fn new_table_is_empty() {
    let mut t = Table::new();
    assert_eq!(t.num_rows(), 0);
    assert!(select(&mut t).is_empty());
}

#[test]
fn new_page_is_constructible() {
    let _p = Page::new();
}

#[test]
fn two_inserts_then_select_in_order() {
    let mut t = Table::new();
    assert_eq!(insert(&mut t, 1, "alice", "alice@example.com"), ExecuteResult::Executed);
    assert_eq!(insert(&mut t, 2, "bob", "bob@example.com"), ExecuteResult::Executed);
    assert_eq!(
        select(&mut t),
        vec![
            "(1, 'alice', 'alice@example.com')".to_string(),
            "(2, 'bob', 'bob@example.com')".to_string(),
        ]
    );
}

#[test]
fn round_trip_of_one_row() {
    let mut t = Table::new();
    assert_eq!(t.execute_insert(Row::new(42, "carol", "carol@example.org")), ExecuteResult::Executed);
    assert_eq!(t.execute_select(), vec!["(42, 'carol', 'carol@example.org')".to_string()]);
}

#[test]
fn fills_to_capacity_then_reports_full() {
    let mut t = Table::new();
    for i in 0..TABLE_MAX_ROWS {
        assert_eq!(insert(&mut t, i as u32, "user", "user@example.com"), ExecuteResult::Executed);
        assert_eq!(t.num_rows(), i + 1);
    }
    assert_eq!(insert(&mut t, 9999, "late", "late@example.com"), ExecuteResult::TableFull);
    assert_eq!(t.num_rows(), TABLE_MAX_ROWS);
    let lines = select(&mut t);
    assert_eq!(lines.len(), TABLE_MAX_ROWS);
    assert!(!lines.iter().any(|l| l.contains("late")));
}

#[test]
fn order_kept_across_pages_with_duplicate_ids() {
    let mut t = Table::new();
    let n = 3 * ROWS_PER_PAGE + 1;
    for i in 0..n {
        let id = (i % 2) as u32;
        assert_eq!(insert(&mut t, id, &format!("u{}", i), &format!("e{}@x", i)), ExecuteResult::Executed);
    }
    let lines = select(&mut t);
    assert_eq!(lines.len(), n);
    for (i, line) in lines.iter().enumerate() {
        assert_eq!(line, &format!("({}, 'u{}', 'e{}@x')", i % 2, i, i));
    }
}

#[test]
fn addressing_round_trips_over_capacity() {
    let t = Table::new();
    for i in 0..TABLE_MAX_ROWS {
        let page = t.page_num(i);
        let offset = t.page_offset(i);
        assert!(page < TABLE_MAX_PAGES);
        assert!(offset < ROWS_PER_PAGE);
        assert_eq!(page * ROWS_PER_PAGE + offset, i);
    }
    assert_eq!(t.page_num(ROWS_PER_PAGE), 1);
    assert_eq!(t.page_offset(ROWS_PER_PAGE + 1), 1);
}

#[test]
fn select_appends_to_existing_output() {
    let mut t = Table::new();
    insert(&mut t, 5, "eve", "eve@example.com");
    let statement = Statement { kind: StatementKind::Select, row_to_insert: None };
    let mut out = vec!["earlier".to_string()];
    assert_eq!(t.execute_statement(&statement, &mut out), ExecuteResult::Executed);
    assert_eq!(out, vec!["earlier".to_string(), "(5, 'eve', 'eve@example.com')".to_string()]);
}
