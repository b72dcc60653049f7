//! The decisions of the read loop: what to do with what was read.
//!
//! The loop itself reads lines and carries out actions; it belongs to the
//! program around this library. Here is the step from the state and what was
//! read to the next state and the action to carry out.

use vstd::prelude::*;
use crate::accumulator::{after_interrupt, after_line, emitted, is_directive, PendingLine};
use crate::directive::{directive_args, directive_name, parse_directive, Directive};
use crate::text::same_text;

verus! {

/// What reading a line gave.
pub enum Event {
    /// A line, as it was read.
    Line(String),
    /// The user gave up the line in progress.
    Interrupted,
    /// The input has ended.
    EndOfInput,
    /// Reading failed for another reason.
    Failed,
}

/// What the loop is to do next.
pub enum Action {
    /// Read another line.
    Read,
    /// Record the unit in the history and run its statements.
    Sql(String),
    /// Carry out the directive.
    Directive(Directive),
    /// End the loop; `failed` says whether reading failed.
    Stop { failed: bool },
}

/// Where the database of a session lives.
pub enum Database {
    /// In memory, gone when the session ends.
    InMemory,
    /// In the file at this path.
    File(String),
}

/// Decides what follows from `event` in the state `state`.
///
/// A line is joined to what is carried over; a complete unit is handed on
/// as a directive or as SQL, an incomplete one asks for another line. An
/// interrupt discards what is carried over and asks for another line. The
/// end of the input and a failure to read end the loop, whatever is carried
/// over.
pub fn step(state: PendingLine, event: Event) -> (r: (PendingLine, Action))
    ensures
        match event {
            Event::Line(line) => {
                &&& r.0@ == after_line(state@, line@)
                &&& match r.1 {
                    Action::Read => emitted(state@, line@) is None,
                    Action::Sql(unit) => {
                        &&& emitted(state@, line@) == Some(unit@)
                        &&& !is_directive(unit@)
                    },
                    Action::Directive(directive) => {
                        &&& emitted(state@, line@) matches Some(unit)
                        &&& is_directive(unit)
                        &&& directive.name@ == directive_name(unit)
                        &&& directive.args.deep_view() == directive_args(unit)
                    },
                    Action::Stop { .. } => false,
                }
            },
            Event::Interrupted => r.0@ == after_interrupt(state@) && r.1 is Read,
            Event::EndOfInput => r.0@ is None && r.1 == (Action::Stop { failed: false }),
            Event::Failed => r.0@ is None && r.1 == (Action::Stop { failed: true }),
        },
{
    match event {
        Event::Line(line) => {
            let (next, unit) = state.feed(line.as_str());
            match unit {
                None => (next, Action::Read),
                Some(unit) => match parse_directive(unit.as_str()) {
                    Some(directive) => (next, Action::Directive(directive)),
                    None => (next, Action::Sql(unit)),
                },
            }
        },
        Event::Interrupted => (state.interrupt(), Action::Read),
        Event::EndOfInput => (PendingLine::Idle, Action::Stop { failed: false }),
        Event::Failed => (PendingLine::Idle, Action::Stop { failed: true }),
    }
}

/// Decides where the database lives: in memory where no path is given, or
/// the path is empty or `:memory:`, else in the file at the path.
pub fn database_for(db_path: Option<&str>) -> (database: Database)
    ensures
        match database {
            Database::InMemory => db_path matches Some(path) ==> path@ == ""@ || path@
                == ":memory:"@,
            Database::File(file) => db_path matches Some(path) && file@ == path@ && path@ != ""@
                && path@ != ":memory:"@,
        },
{
    match db_path {
        None => Database::InMemory,
        Some(path) => {
            if same_text(path, "") || same_text(path, ":memory:") {
                Database::InMemory
            } else {
                Database::File(path.to_owned())
            }
        },
    }
}

} // verus!
