//! The long listing of files: how permission bits are shown.
use vstd::prelude::*;
use vstd::string::StringExecFns;
use crate::table::{
    listing_format, listing_rows, row_columns, columns_from, table_text, new_listing,
    column_count, add_row, render,
};
use crate::numbers::{decimal_digits, octal_digits, to_decimal, to_octal};
use crate::text::{chars_of, texts};

verus! {

/// The three characters for one class of users, whose permissions are the
/// octal digit `bits`: `r` for four, `w` for two, `x` for one, and a dash in
/// the place of each that is missing.
pub open spec fn triad(bits: nat) -> Seq<char> {
    seq![
        if (bits / 4) % 2 == 1 { 'r' } else { '-' },
        if (bits / 2) % 2 == 1 { 'w' } else { '-' },
        if bits % 2 == 1 { 'x' } else { '-' },
    ]
}

/// The nine characters for the permissions of the owner, the group and the
/// others, which are the three low octal digits of `mode`.
pub open spec fn mode_text(mode: nat) -> Seq<char> {
    triad((mode / 64) % 8) + triad((mode / 8) % 8) + triad(mode % 8)
}

fn triad_text(bits: u32) -> (text: &'static str)
    requires
        bits < 8,
    ensures
        text@ == triad(bits as nat),
{
    proof {
        reveal_strlit("---");
        reveal_strlit("--x");
        reveal_strlit("-w-");
        reveal_strlit("-wx");
        reveal_strlit("r--");
        reveal_strlit("r-x");
        reveal_strlit("rw-");
        reveal_strlit("rwx");
    }
    let text = match bits {
        0 => "---",
        1 => "--x",
        2 => "-w-",
        3 => "-wx",
        4 => "r--",
        5 => "r-x",
        6 => "rw-",
        _ => "rwx",
    };
    text
}

/// Shows a file mode such as `0o751` as `rwxr-x--x`.
pub fn format_mode(mode: u32) -> (text: String)
    ensures
        text@ == mode_text(mode as nat),
{
    let user: u32 = (mode / 64) % 8;
    let group: u32 = (mode / 8) % 8;
    let other: u32 = mode % 8;
    let mut text = String::from_str(triad_text(user));
    text.append(triad_text(group));
    text.append(triad_text(other));
    text
}

/// What the file system says of one entry, as far as the long listing shows
/// it. The day of the last change comes as the text that is shown for it.
#[derive(Debug)]
pub struct Entry {
    pub is_dir: bool,
    pub is_file: bool,
    pub mode: u32,
    pub nlink: u64,
    pub uid: u32,
    pub gid: u32,
    pub size: u64,
    pub modified: String,
    pub path: String,
}

/// The row format of the long listing: eight columns, of which the number of
/// links alone is set to the right.
pub open spec fn long_format() -> Seq<char> {
    "{:<}{:<}  {:>}  {:<}  {:<}  {:<}  {:<}  {:<}"@
}

/// The letter for the kind of an entry: `d` for a directory, a dash for a
/// file, and a question mark for anything else.
pub open spec fn kind_text(entry: Entry) -> Seq<char> {
    if entry.is_dir {
        "d"@
    } else if entry.is_file {
        "-"@
    } else {
        "?"@
    }
}

/// The eight cells of the row of one entry: its kind, its permissions, the
/// number of its links in base eight, its owner, its group, its size, the
/// day of its last change and its path.
pub open spec fn cells_of(entry: Entry) -> Seq<Seq<char>> {
    seq![
        kind_text(entry),
        mode_text(entry.mode as nat),
        octal_digits(entry.nlink as nat),
        decimal_digits(entry.uid as nat),
        decimal_digits(entry.gid as nat),
        decimal_digits(entry.size as nat),
        entry.modified@,
        entry.path@,
    ]
}

/// The rows of a list of entries.
pub open spec fn rows_of(entries: Seq<Entry>) -> Seq<Seq<Seq<char>>> {
    Seq::new(entries.len(), |i: int| cells_of(entries[i]))
}

fn entry_cells(entry: &Entry) -> (cells: Vec<String>)
    ensures
        cells@.len() == 8,
        texts(cells@) == cells_of(*entry),
{
    let kind = if entry.is_dir {
        "d"
    } else if entry.is_file {
        "-"
    } else {
        "?"
    };
    let mut cells: Vec<String> = Vec::new();
    cells.push(String::from_str(kind));
    cells.push(format_mode(entry.mode));
    cells.push(to_octal(entry.nlink));
    cells.push(to_decimal(entry.uid as u64));
    cells.push(to_decimal(entry.gid as u64));
    cells.push(to_decimal(entry.size));
    cells.push(entry.modified.clone());
    cells.push(entry.path.clone());
    cells
}

/// Lays out the rows of `entries` in a table with the row format `row_spec`,
/// which has to ask for eight columns, and returns the text of the table. A
/// text that is no row format gives nothing, and neither does a row format of
/// another number of columns.
pub fn list_in(row_spec: &str, entries: &[Entry]) -> (text: Option<String>)
    ensures
        text is Some <==> row_columns(row_spec@) == Some(8nat),
        text matches Some(listing) ==> listing@ == table_text(row_spec@, rows_of(entries@)),
{
    let mut listing = match new_listing(row_spec) {
        Some(listing) => listing,
        None => {
            return None;
        },
    };
    if column_count(&listing) != 8 {
        return None;
    }
    let mut i: usize = 0;
    assert(listing_rows(listing) =~= rows_of(entries@.take(0)));
    while i < entries.len()
        invariant
            i <= entries.len(),
            listing_format(listing) == row_spec@,
            row_columns(row_spec@) == Some(8nat),
            listing_rows(listing) == rows_of(entries@.take(i as int)),
        decreases entries.len() - i,
    {
        let cells = entry_cells(&entries[i]);
        add_row(&mut listing, &cells);
        assert(rows_of(entries@.take(i + 1)) =~= rows_of(entries@.take(i as int)).push(
            cells_of(entries@[i as int]),
        ));
        i += 1;
    }
    assert(entries@.take(i as int) =~= entries@);
    Some(render(&listing))
}

/// The long listing of `entries`: one row for each, in aligned columns. The
/// row format is one of eight columns, so that there always is a listing.
pub fn format_output(entries: &[Entry]) -> (text: Option<String>)
    ensures
        text is Some,
        text matches Some(listing) ==> listing@ == table_text(long_format(), rows_of(entries@)),
{
    proof {
        lemma_long_format_has_eight_columns();
    }
    list_in("{:<}{:<}  {:>}  {:<}  {:<}  {:<}  {:<}  {:<}", entries)
}

/// The row format of the long listing is a row format, and it asks for eight
/// columns.
pub proof fn lemma_long_format_has_eight_columns()
    ensures
        row_columns(long_format()) == Some(8nat),
{
    reveal_strlit("{:<}{:<}  {:>}  {:<}  {:<}  {:<}  {:<}  {:<}");
    let format = long_format();
    assert(format.len() == 44);
    assert(columns_from(format, 44) == Some(0nat));
    assert(columns_from(format, 40) == Some(1nat));
    assert(columns_from(format, 39) == Some(1nat));
    assert(columns_from(format, 38) == Some(1nat));
    assert(columns_from(format, 34) == Some(2nat));
    assert(columns_from(format, 33) == Some(2nat));
    assert(columns_from(format, 32) == Some(2nat));
    assert(columns_from(format, 28) == Some(3nat));
    assert(columns_from(format, 27) == Some(3nat));
    assert(columns_from(format, 26) == Some(3nat));
    assert(columns_from(format, 22) == Some(4nat));
    assert(columns_from(format, 21) == Some(4nat));
    assert(columns_from(format, 20) == Some(4nat));
    assert(columns_from(format, 16) == Some(5nat));
    assert(columns_from(format, 15) == Some(5nat));
    assert(columns_from(format, 14) == Some(5nat));
    assert(columns_from(format, 10) == Some(6nat));
    assert(columns_from(format, 9) == Some(6nat));
    assert(columns_from(format, 8) == Some(6nat));
    assert(columns_from(format, 4) == Some(7nat));
    assert(columns_from(format, 0) == Some(8nat));
}

/// A name is hidden where it begins with a dot.
pub fn is_hidden(name: &str) -> (hidden: bool)
    ensures
        hidden == (name@.len() > 0 && name@[0] == '.'),
{
    let chars = chars_of(name);
    chars.len() > 0 && chars[0] == '.'
}

/// Whether an entry is listed: always where hidden entries are shown, and
/// else unless its name is hidden.
pub fn is_listed(name: &str, show_hidden: bool) -> (listed: bool)
    ensures
        listed == (show_hidden || !(name@.len() > 0 && name@[0] == '.')),
{
    show_hidden || !is_hidden(name)
}

} // verus!
