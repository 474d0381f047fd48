//! Turning a command line into a statement.
//!
//! A line is split into words at white space. The first word is the
//! keyword: `insert`, followed by an id, a username and an email, or
//! `select`, after which nothing is looked at. Any other line, one without
//! a word among them, is not a statement.

use vstd::prelude::*;

use crate::row::{made_row, Row, RowView};
use crate::text::{debug_quote, debug_quoted, parse_u32, parsed_u32, split_whitespace, str_eq, words};

verus! {

/// What a statement does.
#[derive(Debug, Clone, Copy, PartialEq, Eq, Structural)]
pub enum StatementType {
    Insert,
    Select,
}

/// A statement ready to be executed.
#[derive(Debug)]
pub struct Statement {
    pub type_: StatementType,
    pub row_to_insert: Option<Row>,
}

/// The mathematical value of a [`Statement`].
pub struct StatementView {
    pub type_: StatementType,
    pub row_to_insert: Option<RowView>,
}

impl View for Statement {
    type V = StatementView;

    open spec fn view(&self) -> StatementView {
        StatementView {
            type_: self.type_,
            row_to_insert: match self.row_to_insert {
                Some(row) => Some(row@),
                None => None,
            },
        }
    }
}

/// Why a command line could not be turned into a statement. Each variant
/// carries the message shown to the user.
#[derive(Debug)]
pub enum PrepareError {
    StringTooLong(String),
    SyntaxError(String),
    UnrecognizedStatement(String),
}

/// The mathematical value of a [`PrepareError`]: the variant and its message
/// as a sequence of characters.
pub enum PrepareFailure {
    StringTooLong(Seq<char>),
    SyntaxError(Seq<char>),
    UnrecognizedStatement(Seq<char>),
}

impl View for PrepareError {
    type V = PrepareFailure;

    open spec fn view(&self) -> PrepareFailure {
        match self {
            PrepareError::StringTooLong(m) => PrepareFailure::StringTooLong(m@),
            PrepareError::SyntaxError(m) => PrepareFailure::SyntaxError(m@),
            PrepareError::UnrecognizedStatement(m) => PrepareFailure::UnrecognizedStatement(m@),
        }
    }
}

/// The mathematical value of what preparing a line gives.
pub open spec fn outcome_view(outcome: Result<Statement, PrepareError>) -> Result<
    StatementView,
    PrepareFailure,
> {
    match outcome {
        Ok(statement) => Ok(statement@),
        Err(e) => Err(e@),
    }
}

/// What preparing `command` as an insert gives. The line must have four
/// words, the second must read as a number, and the third and fourth must
/// fit the username and email columns.
pub open spec fn prepared_insert(command: Seq<char>) -> Result<StatementView, PrepareFailure> {
    let args = words(command);
    if args.len() != 4 {
        Err(
            PrepareFailure::SyntaxError(
                "Insert Command Argument Error: "@ + debug_quoted(command),
            ),
        )
    } else {
        match parsed_u32(args[1]) {
            None => Err(PrepareFailure::SyntaxError("Syntax error. Could not parse statement."@)),
            Some(id) => match made_row(id, args[2], args[3]) {
                Ok(row) => Ok(
                    StatementView { type_: StatementType::Insert, row_to_insert: Some(row) },
                ),
                Err(e) => Err(e),
            },
        }
    }
}

/// What preparing `command` gives, by its first word. A line without a word
/// has no keyword, and so is unrecognized as any other keyword is.
pub open spec fn prepared(command: Seq<char>) -> Result<StatementView, PrepareFailure> {
    let args = words(command);
    if args.len() > 0 && args[0] == "insert"@ {
        prepared_insert(command)
    } else if args.len() > 0 && args[0] == "select"@ {
        Ok(StatementView { type_: StatementType::Select, row_to_insert: None })
    } else {
        Err(
            PrepareFailure::UnrecognizedStatement(
                "Unrecognized Statement: "@ + debug_quoted(command),
            ),
        )
    }
}

/// Prepares `command` as an insert.
pub fn prepare_insert(command: &str) -> (outcome: Result<Statement, PrepareError>)
    ensures
        outcome_view(outcome) == prepared_insert(command@),
{
    let args = split_whitespace(command);
    if args.len() != 4 {
        let message = "Insert Command Argument Error: ".to_owned().concat(
            debug_quote(command).as_str(),
        );
        return Err(PrepareError::SyntaxError(message));
    }
    let id: u32 = match parse_u32(args[1]) {
        Some(id) => id,
        None => {
            return Err(
                PrepareError::SyntaxError("Syntax error. Could not parse statement.".to_owned()),
            );
        },
    };
    match Row::new(id, args[2], args[3]) {
        Ok(row_to_insert) => Ok(
            Statement { type_: StatementType::Insert, row_to_insert: Some(row_to_insert) },
        ),
        Err(e) => Err(e),
    }
}

/// Prepares `command`. Every line is answered: what is no statement, a line
/// without a word included, with an error that quotes it.
pub fn prepare_statement(command: &str) -> (outcome: Result<Statement, PrepareError>)
    ensures
        outcome_view(outcome) == prepared(command@),
{
    let args = split_whitespace(command);
    if args.len() > 0 && str_eq(args[0], "insert") {
        prepare_insert(command)
    } else if args.len() > 0 && str_eq(args[0], "select") {
        Ok(Statement { type_: StatementType::Select, row_to_insert: None })
    } else {
        let message = "Unrecognized Statement: ".to_owned().concat(debug_quote(command).as_str());
        Err(PrepareError::UnrecognizedStatement(message))
    }
}

} // verus!
