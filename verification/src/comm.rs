//! Comparing two sorted texts line by line: which lines only the first has,
//! which only the second, and which both.
use vstd::prelude::*;
use vstd::string::StringExecFns;
use vstd::string::StrSliceExecFns;
use crate::case::{lowercased, to_lowercase};
use crate::order::{Order, compare, precedes, lemma_precedes_is_strict};
use crate::text::{texts, chars_of};

verus! {

/// Where a line was found.
#[derive(Debug, Clone, Copy, PartialEq, Eq, Structural)]
pub enum Column {
    /// In the first text only.
    First,
    /// In the second text only.
    Second,
    /// In both texts.
    Both,
}

/// A line and where it was found.
#[derive(Debug)]
pub struct Row {
    pub column: Column,
    pub text: String,
}

/// What to show and how.
#[derive(Debug)]
pub struct Config {
    pub file1: String,
    pub file2: String,
    pub show_col1: bool,
    pub show_col2: bool,
    pub show_col3: bool,
    pub insensitive: bool,
    pub delimiter: String,
}

/// What a line is compared by: its lower-case form where case is not to
/// count, and else the line itself.
pub open spec fn key_of(line: Seq<char>, insensitive: bool) -> Seq<char> {
    if insensitive {
        lowercased(line)
    } else {
        line
    }
}

/// The comparison of two texts, line by line from the top. Where both have a
/// line left, the two are compared by their keys: equal lines are found in
/// both texts and both move on; else the line that comes first in the order
/// of the dictionary is found in its text only, and that text moves on.
/// Where one text has ended, the lines left in the other are found in it
/// only. A line found in both is shown as the first text has it.
pub open spec fn compared(first: Seq<Seq<char>>, second: Seq<Seq<char>>, insensitive: bool) -> Seq<
    (Column, Seq<char>),
>
    decreases first.len() + second.len(),
{
    if first.len() == 0 && second.len() == 0 {
        Seq::empty()
    } else if second.len() == 0 {
        seq![(Column::First, first[0])] + compared(first.drop_first(), second, insensitive)
    } else if first.len() == 0 {
        seq![(Column::Second, second[0])] + compared(first, second.drop_first(), insensitive)
    } else if key_of(first[0], insensitive) == key_of(second[0], insensitive) {
        seq![(Column::Both, first[0])] + compared(
            first.drop_first(),
            second.drop_first(),
            insensitive,
        )
    } else if precedes(key_of(first[0], insensitive), key_of(second[0], insensitive)) {
        seq![(Column::First, first[0])] + compared(first.drop_first(), second, insensitive)
    } else {
        seq![(Column::Second, second[0])] + compared(first, second.drop_first(), insensitive)
    }
}

/// How many of `rows` stand in `column`.
pub open spec fn rows_in(rows: Seq<(Column, Seq<char>)>, column: Column) -> nat
    decreases rows.len(),
{
    if rows.len() == 0 {
        0
    } else {
        rows_in(rows.drop_first(), column) + if rows[0].0 == column {
            1nat
        } else {
            0nat
        }
    }
}

/// A comparison loses no line and invents none: every line of the first text
/// is found once, in it alone or in both, and so is every line of the second.
pub proof fn lemma_compared_finds_every_line(
    first: Seq<Seq<char>>,
    second: Seq<Seq<char>>,
    insensitive: bool,
)
    ensures
        rows_in(compared(first, second, insensitive), Column::First) + rows_in(
            compared(first, second, insensitive),
            Column::Both,
        ) == first.len(),
        rows_in(compared(first, second, insensitive), Column::Second) + rows_in(
            compared(first, second, insensitive),
            Column::Both,
        ) == second.len(),
    decreases first.len() + second.len(),
{
    let rows = compared(first, second, insensitive);
    if first.len() == 0 && second.len() == 0 {
    } else if second.len() == 0 {
        lemma_compared_finds_every_line(first.drop_first(), second, insensitive);
        assert(rows.drop_first() =~= compared(first.drop_first(), second, insensitive));
    } else if first.len() == 0 {
        lemma_compared_finds_every_line(first, second.drop_first(), insensitive);
        assert(rows.drop_first() =~= compared(first, second.drop_first(), insensitive));
    } else if key_of(first[0], insensitive) == key_of(second[0], insensitive) {
        lemma_compared_finds_every_line(first.drop_first(), second.drop_first(), insensitive);
        assert(rows.drop_first() =~= compared(
            first.drop_first(),
            second.drop_first(),
            insensitive,
        ));
    } else if precedes(key_of(first[0], insensitive), key_of(second[0], insensitive)) {
        lemma_compared_finds_every_line(first.drop_first(), second, insensitive);
        assert(rows.drop_first() =~= compared(first.drop_first(), second, insensitive));
    } else {
        lemma_compared_finds_every_line(first, second.drop_first(), insensitive);
        assert(rows.drop_first() =~= compared(first, second.drop_first(), insensitive));
    }
}

/// The columns and texts of a list of rows.
pub open spec fn row_values(rows: Seq<Row>) -> Seq<(Column, Seq<char>)> {
    Seq::new(rows.len(), |i: int| (rows[i].column, rows[i].text@))
}

fn key(line: &str, insensitive: bool) -> (k: String)
    ensures
        k@ == key_of(line@, insensitive),
{
    if insensitive {
        to_lowercase(line)
    } else {
        String::from_str(line)
    }
}

/// Compares the lines of two texts.
pub fn compare_lines(first: &[String], second: &[String], insensitive: bool) -> (rows: Vec<Row>)
    ensures
        row_values(rows@) == compared(texts(first@), texts(second@), insensitive),
{
    let ghost a = texts(first@);
    let ghost b = texts(second@);
    let mut rows: Vec<Row> = Vec::new();
    let mut i: usize = 0;
    let mut j: usize = 0;
    proof {
        assert(a.skip(0) =~= a);
        assert(b.skip(0) =~= b);
    }
    while i < first.len() || j < second.len()
        invariant
            i <= first.len(),
            j <= second.len(),
            a == texts(first@),
            b == texts(second@),
            row_values(rows@) + compared(a.skip(i as int), b.skip(j as int), insensitive)
                == compared(a, b, insensitive),
        decreases (first.len() - i) + (second.len() - j),
    {
        let ghost rest_a = a.skip(i as int);
        let ghost rest_b = b.skip(j as int);
        proof {
            if i < first.len() {
                assert(rest_a.drop_first() =~= a.skip(i + 1));
            }
            if j < second.len() {
                assert(rest_b.drop_first() =~= b.skip(j + 1));
            }
        }
        let order = if j >= second.len() {
            Order::Before
        } else if i >= first.len() {
            Order::After
        } else {
            let left = key(first[i].as_str(), insensitive);
            let right = key(second[j].as_str(), insensitive);
            proof {
                lemma_precedes_is_strict(left@, right@);
                lemma_precedes_is_strict(right@, left@);
            }
            compare(left.as_str(), right.as_str())
        };
        match order {
            Order::Same => {
                rows.push(Row { column: Column::Both, text: first[i].clone() });
                i += 1;
                j += 1;
            },
            Order::Before => {
                rows.push(Row { column: Column::First, text: first[i].clone() });
                i += 1;
            },
            Order::After => {
                rows.push(Row { column: Column::Second, text: second[j].clone() });
                j += 1;
            },
        }
    }
    rows
}

/// The delimiter where it is wanted.
pub open spec fn delimiter_if(wanted: bool, delimiter: Seq<char>) -> Seq<char> {
    if wanted {
        delimiter
    } else {
        Seq::empty()
    }
}

/// One row as it is shown. A line stands in the column where it was found,
/// and a delimiter stands before it for each column to its left that is
/// shown. A line of a column that is not shown gives nothing, and neither
/// does an empty line, which gets no delimiter.
pub open spec fn row_text(config: Config, column: Column, text: Seq<char>) -> Seq<char> {
    match column {
        Column::First => if config.show_col1 {
            text
        } else {
            Seq::empty()
        },
        Column::Second => delimiter_if(
            config.show_col1 && config.show_col2 && text.len() > 0,
            config.delimiter@,
        ) + if config.show_col2 {
            text
        } else {
            Seq::empty()
        },
        Column::Both => delimiter_if(
            config.show_col1 && config.show_col3 && text.len() > 0,
            config.delimiter@,
        ) + delimiter_if(config.show_col2 && config.show_col3 && text.len() > 0, config.delimiter@)
            + if config.show_col3 && text.len() > 0 {
            text
        } else {
            Seq::empty()
        },
    }
}

/// The rows as they are shown, without those that give nothing.
pub open spec fn shown_rows(config: Config, rows: Seq<Row>) -> Seq<Seq<char>>
    decreases rows.len(),
{
    if rows.len() == 0 {
        Seq::empty()
    } else if row_text(config, rows.last().column, rows.last().text@).len() > 0 {
        shown_rows(config, rows.drop_last()).push(
            row_text(config, rows.last().column, rows.last().text@),
        )
    } else {
        shown_rows(config, rows.drop_last())
    }
}

fn format_row(config: &Config, row: &Row) -> (text: String)
    ensures
        text@ == row_text(*config, row.column, row.text@),
{
    let filled = row.text.as_str().unicode_len() > 0;
    let mut text = String::new();
    match row.column {
        Column::First => {
            if config.show_col1 {
                text.append(row.text.as_str());
            }
        },
        Column::Second => {
            if config.show_col1 && config.show_col2 && filled {
                text.append(config.delimiter.as_str());
            }
            if config.show_col2 {
                text.append(row.text.as_str());
            }
        },
        Column::Both => {
            if config.show_col1 && config.show_col3 && filled {
                text.append(config.delimiter.as_str());
            }
            if config.show_col2 && config.show_col3 && filled {
                text.append(config.delimiter.as_str());
            }
            if config.show_col3 && filled {
                text.append(row.text.as_str());
            }
        },
    }
    text
}

/// Shows the rows of a comparison in the columns that `config` asks for.
pub fn format_rows(config: &Config, rows: &[Row]) -> (lines: Vec<String>)
    ensures
        texts(lines@) == shown_rows(*config, rows@),
{
    let mut lines: Vec<String> = Vec::new();
    let mut i: usize = 0;
    while i < rows.len()
        invariant
            i <= rows.len(),
            texts(lines@) == shown_rows(*config, rows@.take(i as int)),
        decreases rows.len() - i,
    {
        proof {
            assert(rows@.take(i + 1).drop_last() =~= rows@.take(i as int));
        }
        let text = format_row(config, &rows[i]);
        if text.as_str().unicode_len() > 0 {
            lines.push(text);
        }
        i += 1;
    }
    assert(rows@.take(i as int) =~= rows@);
    lines
}

/// The two inputs of a comparison cannot both be the standard input, which
/// a dash stands for.
pub fn check_inputs(file1: &str, file2: &str) -> (r: Result<(), String>)
    ensures
        match r {
            Ok(_) => !(file1@ == "-"@ && file2@ == "-"@),
            Err(message) => file1@ == "-"@ && file2@ == "-"@ && message@
                == "Both input files cannot be STDIN (\"-\")"@,
        },
{
    proof {
        reveal_strlit("-");
    }
    let first = chars_of(file1);
    let second = chars_of(file2);
    if first.len() == 1 && first[0] == '-' && second.len() == 1 && second[0] == '-' {
        Err(String::from_str("Both input files cannot be STDIN (\"-\")"))
    } else {
        Ok(())
    }
}

} // verus!
