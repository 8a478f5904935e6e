//! The extractor: applies a position list to the bytes, the characters or the
//! fields of one line.
//!
//! All three modes select in the same way. Each interval of the list, taken
//! in the order of the list, contributes the units of the line that lie in
//! it, clipped to the line's length; an interval beyond the end contributes
//! nothing. Intervals that overlap or repeat contribute again, so a list can
//! reorder and repeat what it selects. Nothing here fails.
use vstd::prelude::*;
use vstd::string::StringExecFns;
use vstd::string::StrSliceExecFns;
use vstd::string::StringSliceAdditionalSpecFns;
use core::ops::Range;
use vstd::utf8::{valid_utf8, decode_utf8};
use crate::ranges::PositionList;
use crate::lossy::{lossy_text, decode_lossy};

verus! {

/// The part of `units` that lies in `interval`: empty where the interval is
/// empty or starts at or after the end, and cut off at the end where the
/// interval reaches beyond it.
pub open spec fn clipped<T>(units: Seq<T>, interval: Range<usize>) -> Seq<T> {
    if interval.start < interval.end && interval.start < units.len() {
        units.subrange(
            interval.start as int,
            if interval.end <= units.len() {
                interval.end as int
            } else {
                units.len() as int
            },
        )
    } else {
        Seq::empty()
    }
}

/// What a position list selects from `units`: the parts that its intervals
/// clip out, one after the other in the order of the list.
pub open spec fn selected<T>(units: Seq<T>, positions: Seq<Range<usize>>) -> Seq<T>
    decreases positions.len(),
{
    if positions.len() == 0 {
        Seq::empty()
    } else {
        selected(units, positions.drop_last()) + clipped(units, positions.last())
    }
}

/// The fields of a list joined by a delimiter that stands between each two.
pub open spec fn joined(fields: Seq<String>, delimiter: Seq<char>) -> Seq<char>
    decreases fields.len(),
{
    if fields.len() == 0 {
        Seq::empty()
    } else if fields.len() == 1 {
        fields[0]@
    } else {
        joined(fields.drop_last(), delimiter) + delimiter + fields.last()@
    }
}

/// The end of `interval` within a line of `len` units.
fn clip_end(interval: &Range<usize>, len: usize) -> (end: usize)
    ensures
        end == if interval.end <= len {
            interval.end
        } else {
            len
        },
{
    if interval.end <= len {
        interval.end
    } else {
        len
    }
}

/// Selects the characters of `line` that `char_pos` names. Positions count
/// characters, not bytes.
pub fn extract_chars(line: &str, char_pos: &[Range<usize>]) -> (text: String)
    ensures
        text@ == selected(line@, char_pos@),
{
    let len = line.unicode_len();
    let mut text = String::new();
    let mut i: usize = 0;
    while i < char_pos.len()
        invariant
            i <= char_pos.len(),
            len == line@.len(),
            text@ == selected(line@, char_pos@.take(i as int)),
        decreases char_pos.len() - i,
    {
        let interval = &char_pos[i];
        proof {
            assert(char_pos@.take(i + 1).drop_last() =~= char_pos@.take(i as int));
        }
        if interval.start < interval.end && interval.start < len {
            text.append(line.substring_char(interval.start, clip_end(interval, len)));
        }
        i += 1;
    }
    assert(char_pos@.take(i as int) =~= char_pos@);
    text
}

/// Selects the bytes of `line` that `byte_pos` names, without decoding them.
pub fn select_bytes(line: &[u8], byte_pos: &[Range<usize>]) -> (bytes: Vec<u8>)
    ensures
        bytes@ == selected(line@, byte_pos@),
{
    let len = line.len();
    let mut bytes: Vec<u8> = Vec::new();
    let mut i: usize = 0;
    while i < byte_pos.len()
        invariant
            i <= byte_pos.len(),
            len == line@.len(),
            bytes@ == selected(line@, byte_pos@.take(i as int)),
        decreases byte_pos.len() - i,
    {
        let interval = &byte_pos[i];
        proof {
            assert(byte_pos@.take(i + 1).drop_last() =~= byte_pos@.take(i as int));
        }
        if interval.start < interval.end && interval.start < len {
            let end = clip_end(interval, len);
            let ghost before = bytes@;
            let mut j: usize = interval.start;
            while j < end
                invariant
                    interval.start <= j <= end <= len,
                    len == line@.len(),
                    bytes@ == before + line@.subrange(interval.start as int, j as int),
                decreases end - j,
            {
                bytes.push(line[j]);
                j += 1;
            }
        }
        i += 1;
    }
    assert(byte_pos@.take(i as int) =~= byte_pos@);
    bytes
}

/// Selects the bytes of `line` that `byte_pos` names and decodes them as
/// text. The decoding is lossy: where an interval splits a character that
/// takes several bytes, a replacement character stands for each broken piece.
pub fn extract_bytes(line: &str, byte_pos: &[Range<usize>]) -> (text: String)
    ensures
        text@ == lossy_text(selected(line.spec_bytes(), byte_pos@)),
        valid_utf8(selected(line.spec_bytes(), byte_pos@)) ==> text@ == decode_utf8(
            selected(line.spec_bytes(), byte_pos@),
        ),
{
    let bytes = select_bytes(line.as_bytes(), byte_pos);
    decode_lossy(bytes.as_slice())
}

/// Selects the fields of `record` that `field_pos` names.
pub fn extract_fields(record: &[String], field_pos: &[Range<usize>]) -> (fields: Vec<String>)
    ensures
        fields@ == selected(record@, field_pos@),
{
    let len = record.len();
    let mut fields: Vec<String> = Vec::new();
    let mut i: usize = 0;
    while i < field_pos.len()
        invariant
            i <= field_pos.len(),
            len == record@.len(),
            fields@ == selected(record@, field_pos@.take(i as int)),
        decreases field_pos.len() - i,
    {
        let interval = &field_pos[i];
        proof {
            assert(field_pos@.take(i + 1).drop_last() =~= field_pos@.take(i as int));
        }
        if interval.start < interval.end && interval.start < len {
            let end = clip_end(interval, len);
            let ghost before = fields@;
            let mut j: usize = interval.start;
            while j < end
                invariant
                    interval.start <= j <= end <= len,
                    len == record@.len(),
                    fields@ == before + record@.subrange(interval.start as int, j as int),
                decreases end - j,
            {
                fields.push(record[j].clone());
                j += 1;
            }
        }
        i += 1;
    }
    assert(field_pos@.take(i as int) =~= field_pos@);
    fields
}

/// Joins `fields` with `delimiter` between each two of them.
pub fn join_fields(fields: &[String], delimiter: &str) -> (line: String)
    ensures
        line@ == joined(fields@, delimiter@),
{
    let mut line = String::new();
    let mut i: usize = 0;
    while i < fields.len()
        invariant
            i <= fields.len(),
            line@ == joined(fields@.take(i as int), delimiter@),
        decreases fields.len() - i,
    {
        proof {
            assert(fields@.take(i + 1).drop_last() =~= fields@.take(i as int));
        }
        if i > 0 {
            line.append(delimiter);
        }
        line.append(fields[i].as_str());
        i += 1;
    }
    assert(fields@.take(i as int) =~= fields@);
    line
}

/// The unit that a position list is applied to, with the list.
#[derive(Debug)]
pub enum Extract {
    Fields(PositionList),
    Bytes(PositionList),
    Chars(PositionList),
}

impl Extract {
    /// The position list of this mode.
    pub open spec fn positions(self) -> Seq<Range<usize>> {
        match self {
            Extract::Fields(list) => list@,
            Extract::Bytes(list) => list@,
            Extract::Chars(list) => list@,
        }
    }

    /// The position list of this mode.
    pub fn position_list(&self) -> (list: &PositionList)
        ensures
            list@ == self.positions(),
    {
        match self {
            Extract::Fields(list) => list,
            Extract::Bytes(list) => list,
            Extract::Chars(list) => list,
        }
    }

    /// What this mode selects from one line of text. The field mode does not
    /// work on text: it yields `None`. The byte mode decodes what it selects:
    /// bytes that are well-formed give the text that they encode.
    pub fn select_from_line(&self, line: &str) -> (selection: Option<String>)
        ensures
            match *self {
                Extract::Fields(_) => selection is None,
                Extract::Bytes(list) => {
                    &&& selection is Some
                    &&& selection->0@ == lossy_text(selected(line.spec_bytes(), list@))
                    &&& valid_utf8(selected(line.spec_bytes(), list@)) ==> selection->0@
                        == decode_utf8(selected(line.spec_bytes(), list@))
                },
                Extract::Chars(list) => selection is Some && selection->0@ == selected(
                    line@,
                    list@,
                ),
            },
    {
        match self {
            Extract::Fields(_) => None,
            Extract::Bytes(list) => Some(extract_bytes(line, list.as_slice())),
            Extract::Chars(list) => Some(extract_chars(line, list.as_slice())),
        }
    }

    /// What the field mode selects from one record, joined by `delimiter`
    /// into a line. The other modes do not work on records: they yield
    /// `None`.
    pub fn select_from_record(&self, record: &[String], delimiter: &str) -> (selection: Option<
        String,
    >)
        ensures
            match *self {
                Extract::Fields(list) => selection is Some && selection->0@ == joined(
                    selected(record@, list@),
                    delimiter@,
                ),
                _ => selection is None,
            },
    {
        match self {
            Extract::Fields(list) => {
                let fields = extract_fields(record, list.as_slice());
                Some(join_fields(fields.as_slice(), delimiter))
            },
            _ => None,
        }
    }
}

} // verus!
