//! Statements: turning a command line into an insert or a select, and the
//! meta-commands that never reach the table.

use vstd::prelude::*;

use crate::row::{Row, RowView, COLUMN_EMAIL_SIZE, COLUMN_USERNAME_SIZE};
use crate::text::{parse_u32, parsed_u32, starts_with, text_equals};

verus! {

/// The shape of an insert command: an identifier in digits, then a username
/// and an email, each a run of non-whitespace.
pub const INSERT_PATTERN: &'static str = "insert (\\d+) (\\S+) (\\S+)";

/// Groups a match of `INSERT_PATTERN` reports: the whole match and three fields.
pub const INSERT_GROUPS: usize = 4;

/// The error that `regex::Regex::new` returns for a pattern it refuses.
#[verifier::external_type_specification]
#[verifier::external_body]
pub struct ExRegexError(regex::Error);

/// Whether `regex::Regex::new` accepts `pattern`.
pub uninterp spec fn regex_compiles(pattern: Seq<char>) -> bool;

/// What `regex::Regex::captures` reports for `pattern` on `haystack`: `None`
/// where nothing matches, else every group of the leftmost match in order,
/// group 0 being the whole match and a group that took no part `None`.
pub uninterp spec fn regex_captures(pattern: Seq<char>, haystack: Seq<char>) -> Option<
    Seq<Option<Seq<char>>>,
>;

/// Relies on `regex::Regex::new`, which compiles `pattern` or returns its
/// error, and on `regex::Regex::captures` with `regex::Captures::iter`, which
/// give the groups of the leftmost match in `haystack`, each group's text
/// taken by `regex::Match::as_str`.
#[verifier::external_body]
fn find_captures(pattern: &str, haystack: &str) -> (r: Result<
    Option<Vec<Option<String>>>,
    regex::Error,
>)
    ensures
        r is Ok <==> regex_compiles(pattern@),
        r matches Ok(groups) ==> groups.deep_view() == regex_captures(pattern@, haystack@),
{
    let re = regex::Regex::new(pattern)?;
    Ok(re.captures(haystack).map(|c| c.iter().map(|m| m.map(|m| m.as_str().to_string())).collect()))
}

/// What kind of work a statement asks for.
#[derive(Clone, Copy, Debug, PartialEq, Eq, Structural)]
pub enum StatementKind {
    Insert,
    Select,
}

/// One parsed command: its kind and, for an insert, the row to store.
#[derive(Clone, Copy, Debug)]
pub struct Statement {
    pub kind: StatementKind,
    pub row_to_insert: Option<Row>,
}

/// What a statement asks for.
pub enum StatementView {
    Insert(RowView),
    Select,
}

impl Statement {
    /// An insert carries a well-formed row and a select carries none.
    pub open spec fn wf(&self) -> bool {
        match self.kind {
            StatementKind::Insert => self.row_to_insert matches Some(row) && row.wf(),
            StatementKind::Select => self.row_to_insert is None,
        }
    }

    pub open spec fn view(&self) -> StatementView {
        match self.row_to_insert {
            Some(row) if self.kind == StatementKind::Insert => StatementView::Insert(row@),
            _ => StatementView::Select,
        }
    }
}

/// The outcome of preparing a command.
#[derive(Debug)]
pub enum PrepareResult {
    Prepared(Statement),
    StringTooLong,
    SyntaxError,
    UnrecognizedStatement,
}

/// What preparing a command yields.
pub enum PrepareView {
    Prepared(StatementView),
    StringTooLong,
    SyntaxError,
    UnrecognizedStatement,
}

impl PrepareResult {
    pub open spec fn view(&self) -> PrepareView {
        match self {
            PrepareResult::Prepared(s) => PrepareView::Prepared(s.view()),
            PrepareResult::StringTooLong => PrepareView::StringTooLong,
            PrepareResult::SyntaxError => PrepareView::SyntaxError,
            PrepareResult::UnrecognizedStatement => PrepareView::UnrecognizedStatement,
        }
    }
}

/// The identifier, username and email texts that `INSERT_PATTERN` captures
/// in `command`, where it matches with all three groups.
pub open spec fn insert_fields(command: Seq<char>) -> Option<(Seq<char>, Seq<char>, Seq<char>)> {
    match regex_captures(INSERT_PATTERN@, command) {
        Some(g) => if g.len() == INSERT_GROUPS && g[1] is Some && g[2] is Some && g[3] is Some {
            Some((g[1]->0, g[2]->0, g[3]->0))
        } else {
            None
        },
        None => None,
    }
}

/// What a command line asks for. A line that begins with `insert` must match
/// `INSERT_PATTERN` with an identifier that fits in a `u32` (else it is a
/// syntax error) and a username and email within their widths (else they
/// are too long). A line that begins with `select` selects. Anything else is
/// not recognized.
pub open spec fn prepared(command: Seq<char>) -> PrepareView {
    if "insert"@.is_prefix_of(command) {
        if !regex_compiles(INSERT_PATTERN@) {
            PrepareView::SyntaxError
        } else {
            match insert_fields(command) {
                None => PrepareView::SyntaxError,
                Some((id_text, username, email)) => match parsed_u32(id_text) {
                    None => PrepareView::SyntaxError,
                    Some(id) => if username.len() > COLUMN_USERNAME_SIZE || email.len()
                        > COLUMN_EMAIL_SIZE {
                        PrepareView::StringTooLong
                    } else {
                        PrepareView::Prepared(
                            StatementView::Insert(RowView { id, username, email }),
                        )
                    },
                },
            }
        }
    } else if "select"@.is_prefix_of(command) {
        PrepareView::Prepared(StatementView::Select)
    } else {
        PrepareView::UnrecognizedStatement
    }
}

/// Parses a command line into a statement, or says why it cannot.
pub fn prepare_statement(command: &str) -> (r: PrepareResult)
    ensures
        r@ == prepared(command@),
        r matches PrepareResult::Prepared(s) ==> s.wf(),
{
    if starts_with(command, "insert") {
        let found = find_captures(INSERT_PATTERN, command);
        let groups = match found {
            Ok(Some(groups)) => groups,
            _ => {
                return PrepareResult::SyntaxError;
            },
        };
        let ghost g = groups.deep_view();
        if groups.len() != INSERT_GROUPS {
            return PrepareResult::SyntaxError;
        }
        let (id_text, username, email) = match (&groups[1], &groups[2], &groups[3]) {
            (Some(a), Some(b), Some(c)) => (a, b, c),
            _ => {
                proof {
                    assert(!(g[1] is Some && g[2] is Some && g[3] is Some));
                }
                return PrepareResult::SyntaxError;
            },
        };
        proof {
            assert(g[1] == Some(id_text@));
            assert(g[2] == Some(username@));
            assert(g[3] == Some(email@));
        }
        let id = match parse_u32(id_text.as_str()) {
            Some(id) => id,
            None => {
                return PrepareResult::SyntaxError;
            },
        };
        let username = username.as_str();
        let email = email.as_str();
        if username.unicode_len() > COLUMN_USERNAME_SIZE || email.unicode_len() > COLUMN_EMAIL_SIZE {
            return PrepareResult::StringTooLong;
        }
        let row = Row::new(id, username, email);
        PrepareResult::Prepared(Statement { kind: StatementKind::Insert, row_to_insert: Some(row) })
    } else if starts_with(command, "select") {
        PrepareResult::Prepared(Statement { kind: StatementKind::Select, row_to_insert: None })
    } else {
        PrepareResult::UnrecognizedStatement
    }
}

/// The outcome of a meta-command.
#[derive(Clone, Copy, Debug, PartialEq, Eq, Structural)]
pub enum MetaCommandResult {
    Exit,
    Unrecognized,
}

/// Handles a meta-command: `.exit` asks to leave, anything else is not recognized.
pub fn execute_meta_command(command: &str) -> (r: MetaCommandResult)
    ensures
        r == (if command@ == ".exit"@ {
            MetaCommandResult::Exit
        } else {
            MetaCommandResult::Unrecognized
        }),
{
    if text_equals(command, ".exit") {
        MetaCommandResult::Exit
    } else {
        MetaCommandResult::Unrecognized
    }
}

} // verus!
