//! Showing the lines of a text, numbered where that is wanted.
use vstd::prelude::*;
use vstd::string::StringExecFns;
use vstd::string::StrSliceExecFns;
use crate::align::{right_aligned, pad_left};
use crate::numbers::{decimal_digits, to_decimal};
use crate::text::texts;

verus! {

/// Which lines get a number.
#[derive(Debug, Clone, Copy, PartialEq, Eq, Structural)]
pub struct Numbering {
    /// Every line gets a number.
    pub number_lines: bool,
    /// Every line that is not empty gets a number.
    pub number_nonblank_lines: bool,
}

/// `line` gets a number.
pub open spec fn is_numbered(numbering: Numbering, line: Seq<char>) -> bool {
    numbering.number_lines || (numbering.number_nonblank_lines && line.len() > 0)
}

/// How many of `lines` get a number.
pub open spec fn numbered_count(numbering: Numbering, lines: Seq<Seq<char>>) -> nat
    decreases lines.len(),
{
    if lines.len() == 0 {
        0
    } else {
        numbered_count(numbering, lines.drop_last()) + if is_numbered(numbering, lines.last()) {
            1nat
        } else {
            0nat
        }
    }
}

/// Line `i` of `lines` as it is shown: behind its number, which is set to the
/// right of six characters and followed by a tab, or as it is. The numbers
/// count the numbered lines from 1.
pub open spec fn shown_line(numbering: Numbering, lines: Seq<Seq<char>>, i: int) -> Seq<char> {
    if is_numbered(numbering, lines[i]) {
        right_aligned(decimal_digits(numbered_count(numbering, lines.take(i)) + 1), 6) + "\t"@
            + lines[i]
    } else {
        lines[i]
    }
}

/// No more lines are numbered than there are.
pub proof fn lemma_numbered_count_bounded(numbering: Numbering, lines: Seq<Seq<char>>)
    ensures
        numbered_count(numbering, lines) <= lines.len(),
    decreases lines.len(),
{
    if lines.len() > 0 {
        lemma_numbered_count_bounded(numbering, lines.drop_last());
    }
}

/// Shows `lines`, numbered as `numbering` asks.
pub fn number_lines(lines: &[String], numbering: Numbering) -> (shown: Vec<String>)
    ensures
        shown@.len() == lines@.len(),
        forall|i: int|
            0 <= i < shown@.len() ==> (#[trigger] shown@[i])@ == shown_line(
                numbering,
                texts(lines@),
                i,
            ),
{
    let ghost all = texts(lines@);
    let mut shown: Vec<String> = Vec::new();
    let mut numbered: usize = 0;
    let mut i: usize = 0;
    while i < lines.len()
        invariant
            i <= lines.len(),
            all == texts(lines@),
            shown@.len() == i,
            numbered == numbered_count(numbering, all.take(i as int)),
            numbered <= i,
            forall|j: int|
                0 <= j < i ==> (#[trigger] shown@[j])@ == shown_line(numbering, all, j),
        decreases lines.len() - i,
    {
        proof {
            assert(all.take(i + 1).drop_last() =~= all.take(i as int));
            lemma_numbered_count_bounded(numbering, all.take(i as int));
        }
        let line = &lines[i];
        if numbering.number_lines || (numbering.number_nonblank_lines && line.as_str().unicode_len()
            > 0) {
            numbered += 1;
            let mut text = pad_left(to_decimal(numbered as u64).as_str(), 6);
            text.append("\t");
            text.append(line.as_str());
            shown.push(text);
        } else {
            shown.push(line.clone());
        }
        i += 1;
    }
    shown
}

} // verus!
