//! Tables of text in aligned columns, which the `tabular` crate lays out.
//!
//! The tables of that crate can be changed in ways that this crate has no
//! use for: a line end of one's own, headings, cells of a width that is not
//! that of their text. A [`Listing`] is a table that was spared all that.
use vstd::prelude::*;
use tabular::{Row, Table};
use crate::text::texts;

verus! {

/// A table of the `tabular` crate.
#[verifier::external_type_specification]
#[verifier::external_body]
pub struct ExTable(Table);

/// A table that this module has made and filled. Nothing else can make one
/// or reach into one, so that a listing has the line end that `tabular`
/// gives a new table, no headings, and in every cell the width of the cell's
/// text.
pub struct Listing {
    table: Table,
}

/// The row format that `listing` was made with.
pub uninterp spec fn listing_format(listing: Listing) -> Seq<char>;

/// The rows that `listing` holds, each as the texts of its cells.
pub uninterp spec fn listing_rows(listing: Listing) -> Seq<Seq<Seq<char>>>;

/// The text of a table that was made with the row format `format`, was
/// filled with the rows `rows`, one after the other, and was not changed in
/// any other way.
pub uninterp spec fn table_text(format: Seq<char>, rows: Seq<Seq<Seq<char>>>) -> Seq<char>;

/// `c` is one of the three signs that align a column: to the left, in the
/// middle or to the right.
pub open spec fn is_alignment(c: char) -> bool {
    c == '<' || c == '^' || c == '>'
}

/// The number of columns that `format` asks for from the position `at` on,
/// or `None` where what stands there is no row format. A column is written
/// `{:<}`, `{:^}` or `{:>}`; two braces of a kind, `{{` or `}}`, stand for
/// one brace that is shown; any other brace is a fault; and every other
/// character stands for itself.
pub open spec fn columns_from(format: Seq<char>, at: int) -> Option<nat>
    decreases format.len() - at,
{
    if at < 0 || at >= format.len() {
        Some(0)
    } else if format[at] == '{' {
        if at + 1 < format.len() && format[at + 1] == '{' {
            columns_from(format, at + 2)
        } else if at + 3 < format.len() && format[at + 1] == ':' && is_alignment(format[at + 2])
            && format[at + 3] == '}' {
            match columns_from(format, at + 4) {
                Some(n) => Some(n + 1),
                None => None,
            }
        } else {
            None
        }
    } else if format[at] == '}' {
        if at + 1 < format.len() && format[at + 1] == '}' {
            columns_from(format, at + 2)
        } else {
            None
        }
    } else {
        columns_from(format, at + 1)
    }
}

/// The number of columns that a row format asks for, or `None` for a text
/// that is no row format.
pub open spec fn row_columns(format: Seq<char>) -> Option<nat> {
    columns_from(format, 0)
}

/// Makes an empty listing with the row format `row_spec`.
///
/// Trusted: `tabular::Table::new_safe`, which makes a table of every text
/// that is a row format as `row_columns` reads it, and of no other.
#[verifier::external_body]
pub(crate) fn new_listing(row_spec: &str) -> (made: Option<Listing>)
    ensures
        made is Some <==> row_columns(row_spec@) is Some,
        made matches Some(listing) ==> listing_format(listing) == row_spec@,
        made matches Some(listing) ==> listing_rows(listing).len() == 0,
{
    match Table::new_safe(row_spec) {
        Ok(table) => Some(Listing { table }),
        Err(_) => None,
    }
}

/// The number of columns of `listing`.
///
/// Trusted: `tabular::Table::column_count`, which is the number of columns
/// that the table's row format asks for, as `row_columns` counts them.
#[verifier::external_body]
pub(crate) fn column_count(listing: &Listing) -> (count: usize)
    ensures
        row_columns(listing_format(*listing)) == Some(count as nat),
{
    listing.table.column_count()
}

/// Adds a row of `cells` at the end of `listing`.
///
/// Trusted: `tabular::Table::add_row` with the row of
/// `tabular::Row::from_cells`, which stops the program unless the row has as
/// many cells as the table has columns.
#[verifier::external_body]
pub(crate) fn add_row(listing: &mut Listing, cells: &Vec<String>)
    requires
        row_columns(listing_format(*old(listing))) == Some(cells@.len()),
    ensures
        listing_rows(*final(listing)) == listing_rows(*old(listing)).push(texts(cells@)),
        listing_format(*final(listing)) == listing_format(*old(listing)),
{
    listing.table.add_row(Row::from_cells(cells.iter().cloned()));
}

/// The text of `listing`.
///
/// Trusted: the `Display` of `tabular::Table`. Of a table that was made by
/// `new_listing` and changed by `add_row` alone, the text depends on the row
/// format and the rows alone, and is named by `table_text`.
#[verifier::external_body]
pub(crate) fn render(listing: &Listing) -> (text: String)
    ensures
        text@ == table_text(listing_format(*listing), listing_rows(*listing)),
{
    format!("{}", listing.table)
}

} // verus!
