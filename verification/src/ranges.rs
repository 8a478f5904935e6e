//! The range parser: from a range specification such as `"1,7,3-5"` to a
//! position list.
//!
//! A specification is a comma-separated list of tokens. A token is a bare
//! positive number `n`, which selects the single position `n`, or a pair
//! `n1-n2` with `n1 < n2`, which selects the positions `n1` up to and
//! including `n2`. Users count from one; a position list holds half-open
//! intervals that count from zero, in the order of the tokens: it is never
//! sorted or merged, so that a list can reorder and repeat what it selects.
//!
//! Every failure carries a message. Where a token is rejected, the message
//! quotes the smallest part of it that is at fault: the side of a well-formed
//! pair that is zero or too large for the machine, and otherwise the whole
//! token as it was typed.
use vstd::prelude::*;
use vstd::string::StringExecFns;
use vstd::string::StrSliceExecFns;
use core::ops::Range;
use vstd::utf8::encode_utf8;
use crate::numbers::{
    is_digit_string, decimal_value, decimal_digits, parse_decimal, to_decimal, is_digits,
    parse_unsigned, unsigned_value,
};
use crate::text::{position_of, split_on, chars_of, find_char, split, texts};

verus! {

/// An ordered list of half-open, zero-based intervals.
pub type PositionList = Vec<Range<usize>>;

/// An invalid range specification, with the message that says why.
#[derive(Debug)]
pub struct RangeError {
    pub message: String,
}

impl RangeError {
    /// The message of this error.
    pub fn to_string(&self) -> (message: String)
        ensures
            message@ == self.message@,
    {
        self.message.clone()
    }
}

/// The message for an empty specification.
pub open spec fn empty_message() -> Seq<char> {
    "Range cannot be empty!"@
}

/// The message that rejects `part` as it was typed.
pub open spec fn illegal_value_message(part: Seq<char>) -> Seq<char> {
    "illegal list value: \""@ + part + "\""@
}

/// The message for a pair whose first number `n1` is not below its second
/// number `n2`, both as the user counts them.
pub open spec fn not_ascending_message(n1: nat, n2: nat) -> Seq<char> {
    "First number in range ("@ + decimal_digits(n1) + ") must be lower than second number ("@
        + decimal_digits(n2) + ")"@
}

/// What a run of characters denotes as a number of the machine: its value
/// where it is a run of digits that fits, and else the message that rejects
/// it. Zero is a number here.
pub open spec fn element_result(part: Seq<char>) -> Result<nat, Seq<char>> {
    if is_digit_string(part) && decimal_value(part) <= usize::MAX {
        Ok(decimal_value(part))
    } else {
        Err(illegal_value_message(part))
    }
}

/// What a run of characters denotes as a position counted from one: as
/// `element_result`, but zero is rejected too.
pub open spec fn index_result(part: Seq<char>) -> Result<nat, Seq<char>> {
    if is_digit_string(part) && 0 < decimal_value(part) <= usize::MAX {
        Ok(decimal_value(part))
    } else {
        Err(illegal_value_message(part))
    }
}

/// `token` is two non-empty runs of digits with one dash between them.
pub open spec fn is_pair(token: Seq<char>) -> bool {
    let dash = position_of(token, '-') as int;
    &&& dash < token.len()
    &&& is_digit_string(token.subrange(0, dash))
    &&& is_digit_string(token.subrange(dash + 1, token.len() as int))
}

/// The interval that a token with a dash denotes, or the message that rejects
/// it. A malformed token is quoted whole; of a well-formed pair the first side
/// that is no position is quoted; and a pair of positions must ascend.
pub open spec fn pair_result(token: Seq<char>) -> Result<(nat, nat), Seq<char>> {
    let dash = position_of(token, '-') as int;
    if !is_pair(token) {
        Err(illegal_value_message(token))
    } else {
        match index_result(token.subrange(0, dash)) {
            Err(message) => Err(message),
            Ok(n1) => match index_result(token.subrange(dash + 1, token.len() as int)) {
                Err(message) => Err(message),
                Ok(n2) => if n1 >= n2 {
                    Err(not_ascending_message(n1, n2))
                } else {
                    Ok(((n1 - 1) as nat, n2))
                },
            },
        }
    }
}

/// The interval that one token denotes, as the pair of its bounds, or the
/// message that rejects it.
pub open spec fn token_result(token: Seq<char>) -> Result<(nat, nat), Seq<char>> {
    if is_digit_string(token) {
        match index_result(token) {
            Ok(n) => Ok(((n - 1) as nat, n)),
            Err(message) => Err(message),
        }
    } else {
        pair_result(token)
    }
}

/// The index of the first token that is rejected, or the number of tokens
/// where none is.
pub open spec fn first_rejected(tokens: Seq<Seq<char>>) -> nat
    decreases tokens.len(),
{
    if tokens.len() == 0 || token_result(tokens[0]) is Err {
        0
    } else {
        1 + first_rejected(tokens.drop_first())
    }
}

/// What a range specification denotes: the intervals of its tokens, in the
/// order of the tokens, or the message of the first token that is rejected.
/// The empty specification is rejected as such.
pub open spec fn parse_result(spec: Seq<char>) -> Result<Seq<(nat, nat)>, Seq<char>> {
    let tokens = split_on(spec, ',');
    let k = first_rejected(tokens) as int;
    if spec.len() == 0 {
        Err(empty_message())
    } else if k < tokens.len() {
        Err(token_result(tokens[k])->Err_0)
    } else {
        Ok(Seq::new(tokens.len(), |i: int| token_result(tokens[i])->Ok_0))
    }
}

/// The bounds of one interval.
pub open spec fn bounds(interval: Range<usize>) -> (nat, nat) {
    (interval.start as nat, interval.end as nat)
}

/// The bounds of the intervals of a position list.
pub open spec fn intervals(list: Seq<Range<usize>>) -> Seq<(nat, nat)> {
    Seq::new(list.len(), |i: int| bounds(list[i]))
}

/// Every interval of the list holds at least one position.
pub open spec fn well_formed(list: Seq<Range<usize>>) -> bool {
    forall|i: int| 0 <= i < list.len() ==> (#[trigger] list[i]).start < list[i].end
}

fn illegal_value(part: &str) -> (message: String)
    ensures
        message@ == illegal_value_message(part@),
{
    let mut message = String::from_str("illegal list value: \"");
    message.append(part);
    message.append("\"");
    message
}

fn not_ascending(n1: usize, n2: usize) -> (message: String)
    ensures
        message@ == not_ascending_message(n1 as nat, n2 as nat),
{
    let mut message = String::from_str("First number in range (");
    message.append(to_decimal(n1 as u64).as_str());
    message.append(") must be lower than second number (");
    message.append(to_decimal(n2 as u64).as_str());
    message.append(")");
    message
}

/// Reads `v` as a number: a run of digits, without a sign, that fits the
/// machine. Zero is accepted here.
pub fn validate_element(v: &str) -> (r: Result<usize, RangeError>)
    ensures
        match r {
            Ok(n) => element_result(v@) == Ok::<nat, Seq<char>>(n as nat),
            Err(e) => element_result(v@) == Err::<nat, Seq<char>>(e.message@),
        },
{
    let chars = chars_of(v);
    match parse_decimal(chars.as_slice(), usize::MAX as u64) {
        Some(n) => Ok(n as usize),
        None => Err(RangeError { message: illegal_value(v) }),
    }
}

/// Reads `input` as a position that the user counts from one, and returns it
/// counted from zero.
pub fn parse_index(input: &str) -> (r: Result<usize, String>)
    ensures
        match r {
            Ok(index) => index_result(input@) == Ok::<nat, Seq<char>>((index + 1) as nat),
            Err(message) => index_result(input@) == Err::<nat, Seq<char>>(message@),
        },
{
    match validate_element(input) {
        Ok(n) => if n == 0 {
            Err(illegal_value(input))
        } else {
            Ok(n - 1)
        },
        Err(e) => Err(e.message),
    }
}

/// Reads a token with a dash, `n1-n2`, as the interval from position `n1` up
/// to and including position `n2`.
pub fn convert_to_list(v: &str) -> (r: Result<Range<usize>, RangeError>)
    ensures
        match r {
            Ok(interval) => pair_result(v@) == Ok::<(nat, nat), Seq<char>>(bounds(interval)),
            Err(e) => pair_result(v@) == Err::<(nat, nat), Seq<char>>(e.message@),
        },
{
    let chars = chars_of(v);
    let dash = find_char(chars.as_slice(), '-');
    if dash >= chars.len() {
        return Err(RangeError { message: illegal_value(v) });
    }
    let first = v.substring_char(0, dash);
    let second = v.substring_char(dash + 1, chars.len());
    if !is_digits(first) || !is_digits(second) {
        return Err(RangeError { message: illegal_value(v) });
    }
    let start = match parse_index(first) {
        Ok(index) => index,
        Err(message) => {
            return Err(RangeError { message });
        },
    };
    let last = match parse_index(second) {
        Ok(index) => index,
        Err(message) => {
            return Err(RangeError { message });
        },
    };
    if start >= last {
        return Err(RangeError { message: not_ascending(start + 1, last + 1) });
    }
    Ok(Range { start, end: last + 1 })
}

/// Reads one token of a range specification.
pub fn parse_token(token: &str) -> (r: Result<Range<usize>, RangeError>)
    ensures
        match r {
            Ok(interval) => token_result(token@) == Ok::<(nat, nat), Seq<char>>(bounds(interval)),
            Err(e) => token_result(token@) == Err::<(nat, nat), Seq<char>>(e.message@),
        },
{
    if is_digits(token) {
        match parse_index(token) {
            Ok(index) => Ok(Range { start: index, end: index + 1 }),
            Err(message) => Err(RangeError { message }),
        }
    } else {
        convert_to_list(token)
    }
}

/// Where the first `k` tokens are accepted and the next one is not, `k` is
/// the first that is rejected; where all are accepted, none is.
pub proof fn lemma_first_rejected_is(tokens: Seq<Seq<char>>, k: int)
    requires
        0 <= k <= tokens.len(),
        forall|j: int| 0 <= j < k ==> token_result(#[trigger] tokens[j]) is Ok,
        k < tokens.len() ==> token_result(tokens[k]) is Err,
    ensures
        first_rejected(tokens) == k,
    decreases tokens.len(),
{
    if tokens.len() != 0 && token_result(tokens[0]) is Ok {
        let rest = tokens.drop_first();
        lemma_first_rejected_is(rest, k - 1);
    }
}

/// Reads a range specification into a position list.
///
/// The list holds one interval for each token, in the order of the tokens.
/// The first token that is rejected fails the whole specification, and so
/// does the empty specification.
pub fn parse_pos(range: &str) -> (r: Result<PositionList, RangeError>)
    ensures
        match r {
            Ok(list) => parse_result(range@) == Ok::<Seq<(nat, nat)>, Seq<char>>(intervals(list@))
                && well_formed(list@),
            Err(e) => parse_result(range@) == Err::<Seq<(nat, nat)>, Seq<char>>(e.message@),
        },
{
    if range.unicode_len() == 0 {
        return Err(RangeError { message: String::from_str("Range cannot be empty!") });
    }
    let parts = split(range, ',');
    let ghost tokens = split_on(range@, ',');
    let mut list: Vec<Range<usize>> = Vec::new();
    let mut i: usize = 0;
    while i < parts.len()
        invariant
            i <= parts.len(),
            i == list.len(),
            range@.len() > 0,
            tokens == split_on(range@, ','),
            texts(parts@) == tokens,
            forall|j: int|
                0 <= j < i ==> token_result(#[trigger] tokens[j]) == Ok::<(nat, nat), Seq<char>>(
                    bounds(list[j]),
                ),
            well_formed(list@),
        decreases parts.len() - i,
    {
        match parse_token(parts[i].as_str()) {
            Ok(interval) => {
                list.push(interval);
            },
            Err(e) => {
                proof {
                    lemma_first_rejected_is(tokens, i as int);
                }
                return Err(e);
            },
        }
        i += 1;
    }
    proof {
        lemma_first_rejected_is(tokens, tokens.len() as int);
        assert(intervals(list@) =~= Seq::new(
            tokens.len(),
            |i: int| token_result(tokens[i])->Ok_0,
        ));
    }
    Ok(list)
}

/// The message that rejects `delimiter` as a field delimiter.
pub open spec fn delimiter_message(delimiter: Seq<char>) -> Seq<char> {
    "--delim \""@ + delimiter + "\" must be a single byte"@
}

/// Accepts a field delimiter: a text of exactly one byte.
pub fn is_one_byte(v: String) -> (r: Result<(), String>)
    ensures
        r is Ok <==> encode_utf8(v@).len() == 1,
        r matches Err(message) ==> message@ == delimiter_message(v@),
{
    if v.as_str().as_bytes().len() == 1 {
        Ok(())
    } else {
        let mut message = String::from_str("--delim \"");
        message.append(v.as_str());
        message.append("\" must be a single byte");
        Err(message)
    }
}

/// Accepts an unsigned decimal number of 32 bits, which a plus sign may
/// precede.
pub fn is_number(val: String) -> (r: Result<(), String>)
    ensures
        r is Ok <==> unsigned_value(val@, u32::MAX as nat) is Some,
        r matches Err(message) ==> message@ == illegal_value_message(val@),
{
    match parse_unsigned(val.as_str(), 0xffff_ffffu64) {
        Some(_) => Ok(()),
        None => Err(illegal_value(val.as_str())),
    }
}

} // verus!
