//! A single-table, in-memory record store: a fixed-width row codec, a paged
//! table with a hard row capacity, and the statement layer that feeds it.

pub mod row;
pub mod statement;
pub mod table;
pub mod text;

pub use row::{Row, RowView, COLUMN_EMAIL_SIZE, COLUMN_USERNAME_SIZE, ROW_SIZE};
pub use statement::{
    execute_meta_command, prepare_statement, MetaCommandResult, PrepareResult, Statement,
    StatementKind,
};
pub use table::{
    ExecuteResult, Page, Table, PAGE_SIZE, ROWS_PER_PAGE, TABLE_MAX_PAGES, TABLE_MAX_ROWS,
};
