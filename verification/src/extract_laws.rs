//! What holds of every extraction.
use vstd::prelude::*;
use core::ops::Range;
use vstd::string::StringSliceAdditionalSpecFns;
use vstd::utf8::{
    is_ascii_chars, encode_utf8, decode_utf8, valid_utf8, is_ascii_chars_encode_utf8,
    encode_utf8_valid_utf8, encode_utf8_decode_utf8,
};
use crate::extract::{clipped, selected};
use crate::lossy::lossy_text;

verus! {

/// A list of one interval selects what the interval clips out.
pub proof fn lemma_selected_one<T>(units: Seq<T>, interval: Range<usize>)
    ensures
        selected(units, seq![interval]) == clipped(units, interval),
{
    let list = seq![interval];
    assert(selected(units, list.drop_last()) =~= Seq::<T>::empty());
}

/// The order of the list is the order of the output: what two lists select,
/// one after the other, is what the two lists joined select.
pub proof fn lemma_selected_concat<T>(
    units: Seq<T>,
    first: Seq<Range<usize>>,
    second: Seq<Range<usize>>,
)
    ensures
        selected(units, first + second) == selected(units, first) + selected(units, second),
    decreases second.len(),
{
    if second.len() != 0 {
        assert((first + second).drop_last() =~= first + second.drop_last());
        lemma_selected_concat(units, first, second.drop_last());
    }
}

/// An interval that is repeated is selected again: nothing is merged.
pub proof fn lemma_selected_repeats<T>(units: Seq<T>, interval: Range<usize>)
    ensures
        selected(units, seq![interval, interval]) == clipped(units, interval) + clipped(
            units,
            interval,
        ),
{
    lemma_selected_one(units, interval);
    lemma_selected_concat(units, seq![interval], seq![interval]);
    assert(seq![interval] + seq![interval] =~= seq![interval, interval]);
}

/// An interval that starts at or beyond the end of the line is no error and
/// contributes nothing, wherever in the list it stands.
pub proof fn lemma_selected_beyond_end<T>(
    units: Seq<T>,
    before: Seq<Range<usize>>,
    interval: Range<usize>,
    after: Seq<Range<usize>>,
)
    requires
        interval.start >= units.len(),
    ensures
        selected(units, before + seq![interval] + after) == selected(units, before + after),
{
    lemma_selected_one(units, interval);
    lemma_selected_concat(units, before, seq![interval]);
    lemma_selected_concat(units, before + seq![interval], after);
    lemma_selected_concat(units, before, after);
}

/// An interval that reaches beyond the end of the line selects as the
/// interval that stops at the end does.
pub proof fn lemma_clipped_at_end<T>(units: Seq<T>, interval: Range<usize>, end: usize)
    requires
        interval.end >= units.len(),
        end == units.len(),
    ensures
        clipped(units, interval) == clipped(units, Range { start: interval.start, end }),
{
}

/// The interval that spans the whole line selects the whole line.
pub proof fn lemma_selected_whole<T>(units: Seq<T>, interval: Range<usize>)
    requires
        interval.start == 0,
        interval.end >= units.len(),
    ensures
        selected(units, seq![interval]) == units,
{
    lemma_selected_one(units, interval);
}

/// Nothing is selected that the line does not hold: an interval clips out
/// the units at its positions, no more of them than it spans and no more than
/// the line has.
pub proof fn lemma_clipped_within<T>(units: Seq<T>, interval: Range<usize>)
    ensures
        clipped(units, interval).len() <= units.len(),
        interval.start <= interval.end ==> clipped(units, interval).len() <= interval.end
            - interval.start,
        interval.start > interval.end ==> clipped(units, interval).len() == 0,
        forall|i: int|
            0 <= i < clipped(units, interval).len() ==> #[trigger] clipped(units, interval)[i]
                == units[interval.start + i],
{
}

/// What a list selects from the bytes of a line of ASCII is the bytes of what
/// it selects from the characters of the line.
pub proof fn lemma_selected_bytes_of_ascii(line: Seq<char>, positions: Seq<Range<usize>>)
    requires
        is_ascii_chars(line),
    ensures
        is_ascii_chars(selected(line, positions)),
        selected(encode_utf8(line), positions) == encode_utf8(selected(line, positions)),
    decreases positions.len(),
{
    is_ascii_chars_encode_utf8(line);
    if positions.len() != 0 {
        let before = positions.drop_last();
        let interval = positions.last();
        lemma_selected_bytes_of_ascii(line, before);
        let chars_before = selected(line, before);
        let chars_last = clipped(line, interval);
        let chars = chars_before + chars_last;
        is_ascii_chars_encode_utf8(chars_before);
        is_ascii_chars_encode_utf8(chars_last);
        is_ascii_chars_encode_utf8(chars);
    }
}

/// On a line of ASCII the byte mode and the character mode agree: the bytes
/// that a list selects are well-formed, and they decode to the characters
/// that the list selects.
pub proof fn lemma_ascii_bytes_are_chars(line: &str, positions: Seq<Range<usize>>)
    requires
        is_ascii_chars(line@),
    ensures
        valid_utf8(selected(line.spec_bytes(), positions)),
        decode_utf8(selected(line.spec_bytes(), positions)) == selected(line@, positions),
{
    lemma_selected_bytes_of_ascii(line@, positions);
    encode_utf8_valid_utf8(selected(line@, positions));
    encode_utf8_decode_utf8(selected(line@, positions));
}

/// The byte mode gives a line back whole where one interval spans all of its
/// bytes, whatever characters the line holds.
pub proof fn lemma_whole_line_of_bytes(line: &str, interval: Range<usize>)
    requires
        interval.start == 0,
        interval.end >= line.spec_bytes().len(),
    ensures
        valid_utf8(selected(line.spec_bytes(), seq![interval])),
        decode_utf8(selected(line.spec_bytes(), seq![interval])) == line@,
{
    lemma_selected_whole(line.spec_bytes(), interval);
    encode_utf8_valid_utf8(line@);
    encode_utf8_decode_utf8(line@);
}

/// Extraction keeps no state: two runs on the same line with the same list,
/// each of which selects what the list names, select the same. This holds of
/// bytes, of characters and of fields alike.
pub proof fn lemma_selection_repeats<T>(
    units: Seq<T>,
    positions: Seq<Range<usize>>,
    first: Seq<T>,
    second: Seq<T>,
)
    requires
        first == selected(units, positions),
        second == selected(units, positions),
    ensures
        first == second,
{
}

/// The lossy decoding keeps no state either: the same bytes give the same
/// text, so that two runs of the byte mode on the same line with the same
/// list end with the same text.
pub proof fn lemma_decoding_repeats(
    bytes: Seq<u8>,
    positions: Seq<Range<usize>>,
    first: Seq<char>,
    second: Seq<char>,
)
    requires
        first == lossy_text(selected(bytes, positions)),
        second == lossy_text(selected(bytes, positions)),
    ensures
        first == second,
{
}

} // verus!
