//! Running prepared statements with `rusqlite` and reading the rows they
//! give.
//!
//! Preparing a statement and reading the names of its columns is left to the
//! caller: `rusqlite` reads a column name by a call that panics where the
//! name is not valid UTF-8.

use vstd::prelude::*;
use rusqlite::types::ValueRef;
use rusqlite::{Row, Statement};
use crate::table::rectangular;
use crate::value::{format_value, showable, shown, Value};

verus! {

/// A statement that a connection has prepared.
#[verifier::external_type_specification]
#[verifier::external_body]
pub struct ExStatement<'conn>(Statement<'conn>);

/// A row of the result of a statement.
#[verifier::external_type_specification]
#[verifier::external_body]
pub struct ExRow<'stmt>(Row<'stmt>);

/// What `rusqlite` reports when a call fails.
#[verifier::external_type_specification]
#[verifier::external_body]
pub struct ExError(rusqlite::Error);

/// The column names and the rows of the result of a statement, each cell as
/// it is shown.
pub struct QueryResult {
    pub columns: Vec<String>,
    pub rows: Vec<Vec<String>>,
}

impl QueryResult {
    /// Whether every row has one cell for each column.
    pub open spec fn well_formed(&self) -> bool {
        rectangular(self.rows.deep_view(), self.columns@.len() as nat)
    }
}

/// Calls `Row::get_ref` and copies the value it refers to. An index that
/// the row does not have gives an error, and so does a text that is not
/// valid UTF-8. Binary data that comes from the database is no longer than
/// `i32::MAX` bytes.
#[verifier::external_body]
fn cell(row: &Row<'_>, index: usize) -> (value: Result<Value, rusqlite::Error>)
    ensures
        value matches Ok(Value::Blob(bytes)) ==> bytes@.len() <= i32::MAX,
{
    Ok(
        match row.get_ref(index)? {
            ValueRef::Null => Value::Null,
            ValueRef::Integer(i) => Value::Integer(i),
            ValueRef::Real(r) => Value::Real(r.to_string()),
            ValueRef::Text(t) => Value::Text(
                std::str::from_utf8(t).map_err(rusqlite::Error::Utf8Error)?.to_owned(),
            ),
            ValueRef::Blob(b) => Value::Blob(b.to_vec()),
        },
    )
}

/// Calls `Statement::query_map` without parameters and collects what it
/// gives: for each row of the result, in order, what `read_row` returns for
/// it; the first error, of the database or of `read_row`, ends the run.
#[verifier::external_body]
fn query_rows(statement: &mut Statement<'_>, width: usize) -> (rows: Result<
    Vec<Vec<String>>,
    rusqlite::Error,
>)
    ensures
        rows matches Ok(found) ==> rectangular(found.deep_view(), width as nat),
{
    let rows = statement.query_map((), |row| read_row(row, width))?;
    rows.collect()
}

/// Writes out an error of `rusqlite` as its `Display` does.
#[verifier::external_body]
fn error_message(error: &rusqlite::Error) -> (message: String) {
    format!("{error}")
}

/// Whether each of `values` can be shown.
pub open spec fn all_showable(values: Seq<Value>) -> bool {
    forall|i: int| 0 <= i < values.len() ==> showable(#[trigger] values[i])
}

/// Reads the first `width` values of `row`, in order, and stops at the
/// first that the row fails to give. Where no value is asked for, there is
/// nothing to fail.
fn read_values(row: &Row<'_>, width: usize) -> (values: Result<Vec<Value>, rusqlite::Error>)
    ensures
        values matches Ok(read) ==> read@.len() == width && all_showable(read@),
        width == 0 ==> values is Ok,
{
    let mut read: Vec<Value> = Vec::new();
    let mut i: usize = 0;
    while i < width
        invariant
            i <= width,
            read@.len() == i,
            all_showable(read@),
        decreases width - i,
    {
        match cell(row, i) {
            Ok(value) => {
                read.push(value);
            },
            Err(error) => {
                return Err(error);
            },
        }
        i = i + 1;
    }
    Ok(read)
}

/// Shows each of `values`, in order.
pub fn show_row(values: &Vec<Value>) -> (cells: Vec<String>)
    requires
        all_showable(values@),
    ensures
        cells@.len() == values@.len(),
        forall|i: int| 0 <= i < values@.len() ==> (#[trigger] cells@[i])@ == shown(values@[i]),
{
    let n = values.len();
    let mut cells: Vec<String> = Vec::new();
    let mut i: usize = 0;
    while i < n
        invariant
            n == values@.len(),
            i <= n,
            cells@.len() == i,
            all_showable(values@),
            forall|j: int| 0 <= j < i ==> (#[trigger] cells@[j])@ == shown(values@[j]),
        decreases n - i,
    {
        cells.push(format_value(&values[i]));
        i = i + 1;
    }
    cells
}

/// The first `width` cells of `row` as they are shown, or the error of the
/// first value that the row fails to give. A row of no cells is always
/// read.
fn read_row(row: &Row<'_>, width: usize) -> (cells: Result<Vec<String>, rusqlite::Error>)
    ensures
        cells matches Ok(read) ==> read@.len() == width,
        width == 0 ==> cells is Ok,
{
    match read_values(row, width) {
        Ok(values) => Ok(show_row(&values)),
        Err(error) => Err(error),
    }
}

/// Runs a prepared statement whose columns have the names `columns`, and
/// reads its result: for each row, one cell for each column. A failure of
/// the database comes back as its message.
pub fn execute(statement: &mut Statement<'_>, columns: Vec<String>) -> (result: Result<
    QueryResult,
    String,
>)
    ensures
        result matches Ok(found) ==> found.columns@ == columns@ && found.well_formed(),
{
    match query_rows(statement, columns.len()) {
        Ok(rows) => Ok(QueryResult { columns, rows }),
        Err(error) => Err(error_message(&error)),
    }
}

} // verus!
