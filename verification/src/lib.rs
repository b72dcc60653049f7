//! The logic of an interactive SQL shell: splitting input into statements,
//! joining input lines into logical units, recognising directives, reading
//! the rows that the database gives, and deciding what to show for them.

pub mod accumulator;
pub mod directive;
pub mod engine;
pub mod segment;
pub mod session;
pub mod shell;
pub mod table;
pub mod text;
pub mod value;
