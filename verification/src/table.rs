//! Laying out the rows of a result as a table, with `tabled`.

use vstd::prelude::*;
use tabled::builder::Builder;

verus! {

/// The builder of `tabled`, which collects a header and rows of cells.
#[verifier::external_type_specification]
#[verifier::external_body]
pub struct ExBuilder<'a>(Builder<'a>);

/// The header that `builder` holds, if one was set.
pub uninterp spec fn builder_header(builder: Builder<'static>) -> Option<Seq<Seq<char>>>;

/// The rows that `builder` holds, in the order in which they were added.
pub uninterp spec fn builder_records(builder: Builder<'static>) -> Seq<Seq<Seq<char>>>;

/// The number of columns that `builder` lays out: that of its widest line
/// so far.
pub uninterp spec fn builder_width(builder: Builder<'static>) -> nat;

/// The text of the table with the header `header` and the rows `records`,
/// in the style `psql`.
pub uninterp spec fn psql_table(header: Seq<Seq<char>>, records: Seq<Seq<Seq<char>>>) -> Seq<char>;

/// The larger of two numbers.
pub open spec fn larger(a: nat, b: nat) -> nat {
    if a >= b {
        a
    } else {
        b
    }
}

/// Whether every row of `rows` has `width` cells.
pub open spec fn rectangular(rows: Seq<Seq<Seq<char>>>, width: nat) -> bool {
    forall|i: int| 0 <= i < rows.len() ==> (#[trigger] rows[i]).len() == width
}

/// Calls `Builder::new`, which gives a builder without header, rows or
/// columns.
#[verifier::external_body]
fn new_builder() -> (builder: Builder<'static>)
    ensures
        builder_header(builder) is None,
        builder_records(builder).len() == 0,
        builder_width(builder) == 0,
{
    Builder::new()
}

/// Calls `Builder::set_columns`, which makes `columns` the header, leaves
/// the rows as they are, and widens the builder to the header if that has
/// more cells.
#[verifier::external_body]
fn set_columns(builder: &mut Builder<'static>, columns: &Vec<String>)
    ensures
        builder_header(*final(builder)) == Some(columns.deep_view()),
        builder_records(*final(builder)) == builder_records(*old(builder)),
        builder_width(*final(builder)) == larger(builder_width(*old(builder)), columns@.len()),
{
    builder.set_columns(columns.clone());
}

/// Calls `Builder::add_record`, which adds `row` behind the rows held so
/// far, leaves the header as it is, and widens the builder to the row if
/// that has more cells.
#[verifier::external_body]
fn add_record(builder: &mut Builder<'static>, row: &Vec<String>)
    ensures
        builder_header(*final(builder)) == builder_header(*old(builder)),
        builder_records(*final(builder)) == builder_records(*old(builder)).push(row.deep_view()),
        builder_width(*final(builder)) == larger(builder_width(*old(builder)), row@.len()),
{
    builder.add_record(row.clone());
}

/// Calls `Builder::build`, gives the table the style `Style::psql` with
/// `Table::with`, and writes it out with `to_string`. For a builder whose
/// header and rows all have as many cells as the builder is wide, the text
/// depends on the header and the rows alone; `psql_table` names it.
#[verifier::external_body]
fn build_psql(builder: Builder<'static>) -> (text: String)
    requires
        builder_header(builder) matches Some(header) && header.len() == builder_width(builder),
        rectangular(builder_records(builder), builder_width(builder)),
    ensures
        text@ == psql_table(builder_header(builder)->0, builder_records(builder)),
{
    let mut table = builder.build();
    table.with(tabled::Style::psql());
    table.to_string()
}

/// Lays out `rows` under the header `columns` as a table in the style
/// `psql`.
pub fn render_table(columns: &Vec<String>, rows: &Vec<Vec<String>>) -> (text: String)
    requires
        rectangular(rows.deep_view(), columns@.len() as nat),
    ensures
        text@ == psql_table(columns.deep_view(), rows.deep_view()),
{
    let mut builder = new_builder();
    set_columns(&mut builder, columns);
    let n = rows.len();
    let mut i: usize = 0;
    while i < n
        invariant
            n == rows.len(),
            i <= n,
            rectangular(rows.deep_view(), columns@.len() as nat),
            builder_header(builder) == Some(columns.deep_view()),
            builder_width(builder) == columns@.len(),
            builder_records(builder) == rows.deep_view().take(i as int),
        decreases n - i,
    {
        assert(rows.deep_view()[i as int] == rows[i as int].deep_view());
        assert(rows.deep_view().take(i + 1) == rows.deep_view().take(i as int).push(
            rows[i as int].deep_view(),
        ));
        add_record(&mut builder, &rows[i]);
        i = i + 1;
    }
    assert(rows.deep_view().take(n as int) == rows.deep_view());
    build_psql(builder)
}

} // verus!
