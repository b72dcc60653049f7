//! Running logical units: what follows from each answer of the database to
//! a statement of a unit of SQL, and what the directives of the shell ask.
//!
//! The program around this library has the database prepare and run each
//! statement. Here is what it is to show for the answer, and which
//! statement it is to run next.

use vstd::prelude::*;
use vstd::string::StringExecFns;
use crate::engine::QueryResult;
use crate::segment::{after_first, first_statement, has_statement, StrStatements};
use crate::table::{psql_table, render_table};
use crate::text::same_text;

verus! {

/// How running one statement ended.
pub enum Outcome {
    /// The statement could not be prepared or run; the message says why.
    Failed(String),
    /// The statement ran and gave no rows.
    Empty,
    /// The statement ran and gave rows, laid out here as a table.
    Table(String),
}

/// What the shell shows for `outcome`: the message behind `Error: `, the
/// table, or nothing.
pub open spec fn shown_for(outcome: Outcome) -> Option<Seq<char>> {
    match outcome {
        Outcome::Failed(message) => Some("Error: "@ + message@),
        Outcome::Empty => None,
        Outcome::Table(table) => Some(table@),
    }
}

/// The statement that lists the tables of the database: all of them, or
/// those whose name is like `pattern`.
pub open spec fn tables_query_text(pattern: Option<Seq<char>>) -> Seq<char> {
    "SELECT name FROM sqlite_schema WHERE type ='table' AND name NOT LIKE 'sqlite_%'"@ + match pattern {
        Some(pattern) => "AND name LIKE "@ + pattern + ";"@,
        None => ";"@,
    }
}

/// What the shell says of a directive that it does not know.
pub open spec fn unknown_command_text(command: Seq<char>) -> Seq<char> {
    "Unknown command '"@ + command + "'"@
}

/// The first of `args`, if there is one.
pub open spec fn first_arg(args: Seq<String>) -> Option<Seq<char>> {
    if args.len() > 0 {
        Some(args[0]@)
    } else {
        None
    }
}

impl Outcome {
    /// The text to show for this outcome, if there is any.
    pub fn output(&self) -> (text: Option<String>)
        ensures
            match text {
                Some(text) => shown_for(*self) == Some(text@),
                None => shown_for(*self) is None,
            },
    {
        match self {
            Outcome::Failed(message) => {
                let mut text = String::from_str("Error: ");
                text.append(message.as_str());
                Some(text)
            },
            Outcome::Empty => None,
            Outcome::Table(table) => Some(table.clone()),
        }
    }
}

/// Whether `outcome` is the outcome of a statement for which the database
/// gave `result`: a failure with its message; nothing to show where the
/// statement gave no rows; else its rows as a table under its column names.
pub open spec fn is_outcome_of(outcome: Outcome, result: Result<QueryResult, String>) -> bool {
    match outcome {
        Outcome::Failed(text) => result matches Err(message) && text@ == message@,
        Outcome::Empty => result matches Ok(found) && found.rows@.len() == 0,
        Outcome::Table(table) => {
            &&& result matches Ok(found)
            &&& found.rows@.len() > 0
            &&& table@ == psql_table(found.columns.deep_view(), found.rows.deep_view())
        },
    }
}

/// Whether `result` can be an answer of the database: a result that it
/// gives has one cell for each column in every row.
pub open spec fn is_answer(result: Result<QueryResult, String>) -> bool {
    result matches Ok(found) ==> found.well_formed()
}

/// The outcome of a statement for which the database gave `result`.
pub fn outcome_of(result: Result<QueryResult, String>) -> (outcome: Outcome)
    requires
        is_answer(result),
    ensures
        is_outcome_of(outcome, result),
{
    match result {
        Err(message) => Outcome::Failed(message),
        Ok(found) => {
            if found.rows.len() == 0 {
                Outcome::Empty
            } else {
                Outcome::Table(render_table(&found.columns, &found.rows))
            }
        },
    }
}

/// What follows from the answer of the database to the statement that was
/// run last: the outcome to show for it, and the statement to run next,
/// which is the next one of the unit whatever the answer was. In
/// particular a statement that failed does not stop the ones behind it.
pub fn answered(source: &mut StrStatements, answer: Result<QueryResult, String>) -> (r: (
    Outcome,
    Option<String>,
))
    requires
        is_answer(answer),
    ensures
        is_outcome_of(r.0, answer),
        match r.1 {
            Some(text) => {
                &&& has_statement(old(source)@)
                &&& text@ == first_statement(old(source)@)
                &&& final(source)@ == after_first(old(source)@)
            },
            None => !has_statement(old(source)@) && final(source)@ == old(source)@,
        },
{
    let outcome = outcome_of(answer);
    let next = source.next();
    (outcome, next)
}

/// The statement that lists the tables of the database.
pub fn tables_query(pattern: Option<&str>) -> (query: String)
    ensures
        query@ == tables_query_text(
            match pattern {
                Some(pattern) => Some(pattern@),
                None => None,
            },
        ),
{
    let mut query = String::from_str(
        "SELECT name FROM sqlite_schema WHERE type ='table' AND name NOT LIKE 'sqlite_%'",
    );
    match pattern {
        Some(pattern) => {
            query.append("AND name LIKE ");
            query.append(pattern);
            query.append(";");
        },
        None => {
            query.append(";");
        },
    }
    query
}

/// What a directive asks of the shell.
pub enum Command {
    /// End at once.
    Quit,
    /// Run this unit of SQL, which lists tables.
    Tables(String),
    /// Say this: the directive is not known.
    Unknown(String),
}

/// Decides what the directive `command` with the arguments `args` asks for:
/// `quit` asks the shell to end, `tables` to list the tables like its first
/// argument, or all of them, and any other name is reported as unknown.
pub fn run_command(command: &str, args: &Vec<String>) -> (asked: Command)
    ensures
        match asked {
            Command::Quit => command@ == "quit"@,
            Command::Tables(unit) => {
                &&& command@ != "quit"@
                &&& command@ == "tables"@
                &&& unit@ == tables_query_text(first_arg(args@))
            },
            Command::Unknown(message) => {
                &&& command@ != "quit"@
                &&& command@ != "tables"@
                &&& message@ == unknown_command_text(command@)
            },
        },
{
    if same_text(command, "quit") {
        Command::Quit
    } else if same_text(command, "tables") {
        if args.len() > 0 {
            Command::Tables(tables_query(Some(args[0].as_str())))
        } else {
            Command::Tables(tables_query(None))
        }
    } else {
        let mut message = String::from_str("Unknown command '");
        message.append(command);
        message.append("'");
        Command::Unknown(message)
    }
}

} // verus!
