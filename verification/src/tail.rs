//! Where to start when showing the end of an input: how a count of lines or
//! bytes is written, and which position it names in an input of a given size.
use vstd::prelude::*;
use vstd::string::StringExecFns;
use vstd::slice::slice_subrange;
use vstd::utf8::{valid_utf8, decode_utf8};
use crate::lossy::{lossy_text, decode_lossy};
use crate::numbers::{is_digit_string, decimal_value, parse_decimal};
use crate::text::{
    chars_of, position_of, lines_with_ends, lemma_position_of, lemma_position_of_is,
};

verus! {

/// How much of an input to show.
///
/// `TakeNum(n)` with a negative `n` stands for the last `-n` units, and with a
/// positive `n` for everything from unit `n` on, counted from one.
/// `PlusZero` stands for everything.
#[derive(Debug, PartialEq, Eq, Structural)]
pub enum TakeValue {
    PlusZero,
    TakeNum(i64),
}

/// What a count denotes as it is written: digits, which a sign may precede.
/// Without a sign, and with a minus sign, the count is taken from the end and
/// so is negative; with a plus sign it is a position from the start, and
/// `+0` is `PlusZero`. Anything else, and a number that does not fit 64 bits,
/// denotes nothing.
pub open spec fn take_value(val: Seq<char>) -> Option<TakeValue> {
    let signed = val.len() > 0 && (val[0] == '+' || val[0] == '-');
    let digits = if signed {
        val.drop_first()
    } else {
        val
    };
    let magnitude = decimal_value(digits);
    if !is_digit_string(digits) {
        None
    } else if val[0] == '+' {
        if magnitude > i64::MAX {
            None
        } else if magnitude == 0 {
            Some(TakeValue::PlusZero)
        } else {
            Some(TakeValue::TakeNum(magnitude as i64))
        }
    } else if magnitude > -(i64::MIN as int) {
        None
    } else {
        Some(TakeValue::TakeNum((-(magnitude as int)) as i64))
    }
}

/// Reads a count of lines or bytes. The error is the text that was not
/// understood.
pub fn parse_num(val: &str) -> (r: Result<TakeValue, String>)
    ensures
        match r {
            Ok(take) => take_value(val@) == Some(take),
            Err(message) => take_value(val@) is None && message@ == val@,
        },
{
    let chars = chars_of(val);
    let n = chars.len();
    let plus = n > 0 && chars[0] == '+';
    let signed = plus || (n > 0 && chars[0] == '-');
    let digits = if signed {
        slice_subrange(chars.as_slice(), 1, n)
    } else {
        chars.as_slice()
    };
    if plus {
        match parse_decimal(digits, 0x7fff_ffff_ffff_ffffu64) {
            Some(m) => if m == 0 {
                Ok(TakeValue::PlusZero)
            } else {
                Ok(TakeValue::TakeNum(m as i64))
            },
            None => Err(String::from_str(val)),
        }
    } else {
        match parse_decimal(digits, 0x8000_0000_0000_0000u64) {
            Some(m) => if m == 0x8000_0000_0000_0000u64 {
                Ok(TakeValue::TakeNum(i64::MIN))
            } else {
                Ok(TakeValue::TakeNum(-(m as i64)))
            },
            None => Err(String::from_str(val)),
        }
    }
}

/// The message that rejects `val` as a count of the unit `unit`.
pub open spec fn illegal_count_message(unit: Seq<char>, val: Seq<char>) -> Seq<char> {
    "illegal "@ + unit + " count -- "@ + val
}

/// Reads the count that an option was given. The error names what was to be
/// counted, `line` or `byte`, and the text that was not understood.
pub fn parse_count(val: &str, unit: &str) -> (r: Result<TakeValue, String>)
    ensures
        match r {
            Ok(take) => take_value(val@) == Some(take),
            Err(message) => take_value(val@) is None && message@ == illegal_count_message(
                unit@,
                val@,
            ),
        },
{
    match parse_num(val) {
        Ok(take) => Ok(take),
        Err(_) => {
            let mut message = String::from_str("illegal ");
            message.append(unit);
            message.append(" count -- ");
            message.append(val);
            Err(message)
        },
    }
}

/// How much to show of which files.
#[derive(Debug)]
pub struct Config {
    pub files: Vec<String>,
    pub lines: TakeValue,
    pub bytes: Option<TakeValue>,
    pub quiet: bool,
}

/// Makes the settings of a run from its options as they were typed. The
/// count of lines is read first and then the count of bytes, and the first
/// that is not understood is the error.
pub fn configure(files: Vec<String>, lines: &str, bytes: Option<&str>, quiet: bool) -> (r: Result<
    Config,
    String,
>)
    ensures
        match r {
            Ok(config) => {
                &&& config.files == files
                &&& config.quiet == quiet
                &&& take_value(lines@) == Some(config.lines)
                &&& match bytes {
                    Some(text) => take_value(text@) == config.bytes && config.bytes is Some,
                    None => config.bytes is None,
                }
            },
            Err(message) => if take_value(lines@) is None {
                message@ == illegal_count_message("line"@, lines@)
            } else {
                bytes matches Some(text) && take_value(text@) is None && message@
                    == illegal_count_message("byte"@, text@)
            },
        },
{
    let lines = match parse_count(lines, "line") {
        Ok(take) => take,
        Err(message) => {
            return Err(message);
        },
    };
    let bytes = match bytes {
        Some(text) => match parse_count(text, "byte") {
            Ok(take) => Some(take),
            Err(message) => {
                return Err(message);
            },
        },
        None => None,
    };
    Ok(Config { files, lines, bytes, quiet })
}

/// The zero-based unit at which to start showing an input of `total` units,
/// or `None` where nothing is to be shown: the input is empty, the count is
/// zero, or the start lies beyond the end. A count from the end that is
/// larger than the input starts at the beginning.
pub open spec fn start_index(take: TakeValue, total: int) -> Option<int> {
    if total <= 0 {
        None
    } else {
        match take {
            TakeValue::PlusZero => Some(0),
            TakeValue::TakeNum(num) => if num == 0 || num > total {
                None
            } else if num > 0 {
                Some(num - 1)
            } else if total + num < 0 {
                Some(0)
            } else {
                Some(total + num)
            },
        }
    }
}

/// Where there is something to show, it starts within the input.
pub proof fn lemma_start_index_within(take: TakeValue, total: int)
    ensures
        start_index(take, total) matches Some(start) ==> 0 <= start < total,
{
}

/// Computes the unit at which to start showing an input of `total` units.
pub fn get_start_index(take_val: &TakeValue, total: i64) -> (start: Option<u64>)
    ensures
        match start {
            Some(index) => start_index(*take_val, total as int) == Some(index as int),
            None => start_index(*take_val, total as int) is None,
        },
{
    if total <= 0 {
        return None;
    }
    match take_val {
        TakeValue::PlusZero => Some(0),
        TakeValue::TakeNum(n) => {
            let num: i64 = *n;
            if num > total || num == 0 {
                None
            } else if num > 0 {
                Some((num - 1) as u64)
            } else {
                let answer: i64 = if total + num < 0 {
                    0
                } else {
                    total + num
                };
                Some(answer as u64)
            }
        },
    }
}

/// The byte that ends a line.
pub const LINE_FEED: u8 = 10;

/// The index of the first `b` in `s`, or the length of `s` where there is
/// none.
pub fn find_byte(s: &[u8], b: u8) -> (at: usize)
    ensures
        at == position_of(s@, b),
        at <= s.len(),
{
    let mut at: usize = 0;
    while at < s.len() && s[at] != b
        invariant
            at <= s.len(),
            forall|j: int| 0 <= j < at ==> s@[j] != b,
        decreases s.len() - at,
    {
        at += 1;
    }
    proof {
        lemma_position_of_is(s@, b, at as int);
    }
    at
}

/// The end of the line that starts at `start`: the index after its line
/// feed, or the end of the input.
fn line_end(input: &[u8], start: usize) -> (end: usize)
    requires
        start < input.len(),
    ensures
        start < end <= input.len(),
        lines_with_ends(input@.subrange(start as int, input@.len() as int), LINE_FEED).len() >= 1,
        lines_with_ends(input@.subrange(start as int, input@.len() as int), LINE_FEED)[0]
            == input@.subrange(start as int, end as int),
        lines_with_ends(
            input@.subrange(start as int, input@.len() as int),
            LINE_FEED,
        ).drop_first() == lines_with_ends(
            input@.subrange(end as int, input@.len() as int),
            LINE_FEED,
        ),
{
    let n = input.len();
    let rest = slice_subrange(input, start, n);
    let at = find_byte(rest, LINE_FEED);
    let end: usize = if at < rest.len() {
        start + at + 1
    } else {
        n
    };
    proof {
        lemma_position_of(rest@, LINE_FEED);
        if at < rest@.len() {
            assert(rest@.subrange(at + 1, rest@.len() as int) =~= input@.subrange(
                end as int,
                n as int,
            ));
            assert(lines_with_ends(rest@, LINE_FEED).drop_first() =~= lines_with_ends(
                rest@.subrange(at + 1, rest@.len() as int),
                LINE_FEED,
            ));
        }
    }
    end
}

/// Counts the lines and the bytes of `input`. A last line that no line feed
/// ends counts as a line.
pub fn count_lines_bytes(input: &[u8]) -> (counts: (i64, i64))
    requires
        input@.len() <= i64::MAX,
    ensures
        counts.0 == lines_with_ends(input@, LINE_FEED).len(),
        counts.1 == input@.len(),
{
    let n = input.len();
    let ghost all = lines_with_ends(input@, LINE_FEED);
    let mut num_lines: i64 = 0;
    let mut start: usize = 0;
    proof {
        assert(input@.subrange(0, n as int) =~= input@);
    }
    while start < n
        invariant
            start <= n,
            n == input@.len(),
            n <= i64::MAX,
            all == lines_with_ends(input@, LINE_FEED),
            0 <= num_lines <= start,
            num_lines <= all.len(),
            lines_with_ends(input@.subrange(start as int, n as int), LINE_FEED) == all.skip(
                num_lines as int,
            ),
        decreases n - start,
    {
        let end = line_end(input, start);
        proof {
            assert(all.skip(num_lines as int).drop_first() =~= all.skip(num_lines + 1));
        }
        num_lines += 1;
        start = end;
    }
    (num_lines, n as i64)
}

/// The text of the lines from line `start` on, each decoded by itself.
pub open spec fn decoded_from(lines: Seq<Seq<u8>>, start: nat) -> Seq<char>
    decreases lines.len(),
{
    if lines.len() <= start {
        Seq::empty()
    } else {
        decoded_from(lines.drop_last(), start) + lossy_text(lines.last())
    }
}

/// What is shown of `input` when `num_lines` lines are asked for of an input
/// that is taken to have `total_lines` lines: the lines from the start that
/// `get_start_index` gives, decoded as text, or nothing where it gives none.
/// The decoding is lossy.
pub fn print_lines(input: &[u8], num_lines: &TakeValue, total_lines: i64) -> (shown: String)
    ensures
        shown@ == match start_index(*num_lines, total_lines as int) {
            Some(start) => decoded_from(lines_with_ends(input@, LINE_FEED), start as nat),
            None => Seq::empty(),
        },
{
    let mut shown = String::new();
    let first = match get_start_index(num_lines, total_lines) {
        Some(first) => first,
        None => {
            return shown;
        },
    };
    let n = input.len();
    let ghost all = lines_with_ends(input@, LINE_FEED);
    let mut line_num: u64 = 0;
    let mut start: usize = 0;
    proof {
        assert(input@.subrange(0, n as int) =~= input@);
    }
    while start < n
        invariant
            start <= n,
            n == input@.len(),
            all == lines_with_ends(input@, LINE_FEED),
            line_num <= start,
            line_num <= all.len(),
            lines_with_ends(input@.subrange(start as int, n as int), LINE_FEED) == all.skip(
                line_num as int,
            ),
            shown@ == decoded_from(all.take(line_num as int), first as nat),
        decreases n - start,
    {
        let end = line_end(input, start);
        proof {
            assert(all.take(line_num + 1).drop_last() =~= all.take(line_num as int));
        }
        if line_num >= first {
            let line = slice_subrange(input, start, end);
            shown.append(decode_lossy(line).as_str());
        }
        line_num += 1;
        start = end;
    }
    shown
}

/// What is shown of `input` when `num_bytes` bytes are asked for of an input
/// that is taken to have `total_bytes` bytes: the bytes from the start that
/// `get_start_index` gives, decoded as text, or nothing where it gives none
/// or a start at or beyond the end. Bytes that are well-formed give the text
/// that they encode; the decoding is lossy.
pub fn print_bytes(input: &[u8], num_bytes: &TakeValue, total_bytes: i64) -> (shown: String)
    ensures
        shown@ == match start_index(*num_bytes, total_bytes as int) {
            Some(start) => if start < input@.len() {
                lossy_text(input@.subrange(start, input@.len() as int))
            } else {
                Seq::empty()
            },
            None => Seq::empty(),
        },
        start_index(*num_bytes, total_bytes as int) matches Some(start) ==> start < input@.len()
            ==> valid_utf8(input@.subrange(start, input@.len() as int)) ==> shown@
            == decode_utf8(input@.subrange(start, input@.len() as int)),
{
    match get_start_index(num_bytes, total_bytes) {
        Some(start) => if start < input.len() as u64 {
            decode_lossy(slice_subrange(input, start as usize, input.len()))
        } else {
            String::new()
        },
        None => String::new(),
    }
}

} // verus!
