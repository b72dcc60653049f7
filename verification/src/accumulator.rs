//! Joining input lines into logical units.
//!
//! A logical unit is complete when it ends with a terminator or starts with
//! the directive marker. Until then the lines read so far are carried over,
//! each followed by one space.

use vstd::prelude::*;
use vstd::string::StringExecFns;
use crate::text::{chars_of, trim_end, trim_end_bound};

verus! {

/// What is carried over from one line to the next.
pub enum PendingLine {
    /// No logical unit is in progress.
    Idle,
    /// The text of an unfinished logical unit, which awaits more lines.
    Pending(String),
}

impl View for PendingLine {
    type V = Option<Seq<char>>;

    /// `None` when idle, else the text that is carried over.
    open spec fn view(&self) -> Option<Seq<char>> {
        match self {
            PendingLine::Idle => None,
            PendingLine::Pending(text) => Some(text@),
        }
    }
}

/// The text that a state carries over: nothing when idle.
pub open spec fn carried(pending: Option<Seq<char>>) -> Seq<char> {
    match pending {
        None => Seq::empty(),
        Some(text) => text,
    }
}

/// The logical unit at hand once `line` has been read: what was carried
/// over, followed by the line without its trailing white space.
pub open spec fn unit_with(pending: Option<Seq<char>>, line: Seq<char>) -> Seq<char> {
    carried(pending) + trim_end(line)
}

/// Whether `unit` is a directive: it starts with the marker `.`.
pub open spec fn is_directive(unit: Seq<char>) -> bool {
    unit.len() > 0 && unit.first() == '.'
}

/// Whether `unit` is complete: it ends with a terminator or is a directive.
pub open spec fn is_complete(unit: Seq<char>) -> bool {
    (unit.len() > 0 && unit.last() == ';') || is_directive(unit)
}

/// The state after `line` has been read: idle once the unit is complete,
/// else the unit followed by one space.
pub open spec fn after_line(pending: Option<Seq<char>>, line: Seq<char>) -> Option<Seq<char>> {
    if is_complete(unit_with(pending, line)) {
        None
    } else {
        Some(unit_with(pending, line).push(' '))
    }
}

/// What reading `line` hands on: the unit if it is complete, else nothing.
pub open spec fn emitted(pending: Option<Seq<char>>, line: Seq<char>) -> Option<Seq<char>> {
    if is_complete(unit_with(pending, line)) {
        Some(unit_with(pending, line))
    } else {
        None
    }
}

/// The state after an interrupt: nothing is carried over, whatever was.
pub open spec fn after_interrupt(pending: Option<Seq<char>>) -> Option<Seq<char>> {
    None
}

/// What every state that `feed` produces satisfies: text that is carried
/// over is not empty, ends with the space that joins it to the next line, and
/// does not start with the directive marker.
pub open spec fn well_formed(pending: Option<Seq<char>>) -> bool {
    match pending {
        None => true,
        Some(text) => text.len() > 0 && text.last() == ' ' && text.first() != '.',
    }
}

impl PendingLine {
    /// The state in which a session starts.
    pub fn new() -> (state: PendingLine)
        ensures
            state@ is None,
    {
        PendingLine::Idle
    }

    /// Whether a logical unit is in progress.
    pub fn is_pending(&self) -> (pending: bool)
        ensures
            pending == self@ is Some,
    {
        match self {
            PendingLine::Idle => false,
            PendingLine::Pending(_) => true,
        }
    }

    /// The prompt to read the next line with: the primary one when idle, the
    /// continuation prompt while a unit is in progress.
    pub fn prompt(&self) -> (prompt: &'static str)
        ensures
            self@ is None ==> prompt@ == "libsql> "@,
            self@ is Some ==> prompt@ == "...   > "@,
    {
        match self {
            PendingLine::Idle => "libsql> ",
            PendingLine::Pending(_) => "...   > ",
        }
    }

    /// Takes in a line as it was read. Returns the state to go on with and,
    /// if the line completes a logical unit, that unit.
    pub fn feed(self, line: &str) -> (r: (PendingLine, Option<String>))
        ensures
            r.0@ == after_line(self@, line@),
            well_formed(r.0@),
            match r.1 {
                Some(unit) => emitted(self@, line@) == Some(unit@),
                None => emitted(self@, line@) is None,
            },
    {
        let line_chars = chars_of(line);
        let to = trim_end_bound(&line_chars);
        let trimmed = line.substring_char(0, to);
        let mut unit = match self {
            PendingLine::Idle => String::new(),
            PendingLine::Pending(text) => text,
        };
        unit.append(trimmed);
        let chars = chars_of(unit.as_str());
        let n = chars.len();
        if n > 0 && (chars[n - 1] == ';' || chars[0] == '.') {
            (PendingLine::Idle, Some(unit))
        } else {
            proof {
                reveal_strlit(" ");
            }
            unit.append(" ");
            (PendingLine::Pending(unit), None)
        }
    }

    /// Gives up the unit in progress: what was carried over is discarded.
    pub fn interrupt(self) -> (state: PendingLine)
        ensures
            state@ == after_interrupt(self@),
    {
        PendingLine::Idle
    }
}

/// The two prompts differ, so the prompt tells whether a unit is in progress.
pub proof fn lemma_prompts_differ()
    ensures
        "libsql> "@ != "...   > "@,
{
    reveal_strlit("libsql> ");
    reveal_strlit("...   > ");
    assert("libsql> "@[0] == 'l');
    assert("...   > "@[0] == '.');
}

/// A line that neither ends with a terminator nor, when nothing is carried
/// over, starts with the directive marker leaves the unit in progress, and
/// nothing is handed on. Trailing white space of the line does not count.
pub proof fn lemma_unfinished_line_is_carried_over(pending: Option<Seq<char>>, line: Seq<char>)
    requires
        well_formed(pending),
        !(trim_end(line).len() > 0 && trim_end(line).last() == ';'),
        pending is None ==> !is_directive(trim_end(line)),
    ensures
        after_line(pending, line) == Some(unit_with(pending, line).push(' ')),
        emitted(pending, line) is None,
{
    let unit = unit_with(pending, line);
    if let Some(text) = pending {
        assert(unit.first() == text.first());
        if trim_end(line).len() == 0 {
            assert(unit == text);
        } else {
            assert(unit.last() == trim_end(line).last());
        }
    } else {
        assert(unit == trim_end(line));
    }
}

/// Joining puts exactly one space between two lines: if the first line
/// leaves the unit in progress, the unit at hand after the second line is
/// the unit after the first, one space, and the second line without its
/// trailing white space.
pub proof fn lemma_lines_are_joined_by_one_space(
    pending: Option<Seq<char>>,
    first: Seq<char>,
    second: Seq<char>,
)
    requires
        !is_complete(unit_with(pending, first)),
    ensures
        unit_with(after_line(pending, first), second) == unit_with(pending, first) + seq![' ']
            + trim_end(second),
{
    assert(unit_with(pending, first).push(' ') == unit_with(pending, first) + seq![' ']);
}

/// After an interrupt nothing of what was carried over is left: whatever the
/// state was, the unit at hand after the next line is that line alone,
/// without its trailing white space, and what follows is what follows from
/// that line in a fresh state.
pub proof fn lemma_interrupt_discards_what_was_carried(pending: Option<Seq<char>>, line: Seq<char>)
    ensures
        unit_with(after_interrupt(pending), line) == trim_end(line),
        after_line(after_interrupt(pending), line) == after_line(None, line),
        emitted(after_interrupt(pending), line) == emitted(None, line),
{
    assert(unit_with(None, line) == trim_end(line));
}

} // verus!
