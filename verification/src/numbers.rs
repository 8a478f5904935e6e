//! Numbers as they are written: the value of a run of digits, the reading of
//! signed and unsigned decimal numbers within given bounds, and the writing
//! of numbers in base ten and base eight.
use vstd::prelude::*;
use vstd::string::StringExecFns;
use vstd::slice::slice_subrange;
use crate::text::chars_of;

verus! {

/// `c` is one of the ten ASCII digits.
pub open spec fn is_digit(c: char) -> bool {
    '0' <= c && c <= '9'
}

/// The number that the ASCII digit `c` stands for.
pub open spec fn digit_value(c: char) -> nat
    recommends
        is_digit(c),
{
    (c as int - '0' as int) as nat
}

/// The ASCII digit that stands for `d`.
pub open spec fn digit_char(d: nat) -> char
    recommends
        d < 10,
{
    ('0' as int + d) as char
}

/// Every character of `s` is an ASCII digit.
pub open spec fn all_digits(s: Seq<char>) -> bool {
    forall|i: int| 0 <= i < s.len() ==> is_digit(#[trigger] s[i])
}

/// `s` is a non-empty run of ASCII digits: no sign, no blanks.
pub open spec fn is_digit_string(s: Seq<char>) -> bool {
    s.len() > 0 && all_digits(s)
}

/// The number that a run of digits denotes in base ten. Leading zeros do not
/// count, and the empty run denotes zero.
pub open spec fn decimal_value(s: Seq<char>) -> nat
    decreases s.len(),
{
    if s.len() == 0 {
        0
    } else {
        decimal_value(s.drop_last()) * 10 + digit_value(s.last())
    }
}

/// The shortest run of digits that denotes `n`.
pub open spec fn decimal_digits(n: nat) -> Seq<char>
    decreases n,
{
    if n < 10 {
        seq![digit_char(n)]
    } else {
        decimal_digits(n / 10).push(digit_char(n % 10))
    }
}

/// The shortest run of octal digits that denotes `n`.
pub open spec fn octal_digits(n: nat) -> Seq<char>
    decreases n,
{
    if n < 8 {
        seq![digit_char(n)]
    } else {
        octal_digits(n / 8).push(digit_char(n % 8))
    }
}

/// The digits of `n`, with a minus sign in front where it is negative.
pub open spec fn signed_digits(n: int) -> Seq<char> {
    if n < 0 {
        seq!['-'] + decimal_digits((-n) as nat)
    } else {
        decimal_digits(n as nat)
    }
}

/// `s` without the plus sign that may stand in front of a number.
pub open spec fn without_plus(s: Seq<char>) -> Seq<char> {
    if s.len() > 0 && s[0] == '+' {
        s.drop_first()
    } else {
        s
    }
}

/// The number not above `limit` that `s` denotes as an unsigned decimal: a run
/// of digits, which a plus sign may precede. A minus sign is not accepted,
/// not even before zero.
pub open spec fn unsigned_value(s: Seq<char>, limit: nat) -> Option<nat> {
    let digits = without_plus(s);
    if is_digit_string(digits) && decimal_value(digits) <= limit {
        Some(decimal_value(digits))
    } else {
        None
    }
}

/// The number from `min` to `max` that `s` denotes as a signed decimal: a run
/// of digits, which a plus or a minus sign may precede.
pub open spec fn signed_value(s: Seq<char>, min: int, max: int) -> Option<int> {
    if s.len() > 0 && s[0] == '-' {
        let digits = s.drop_first();
        if is_digit_string(digits) && min <= -(decimal_value(digits) as int) {
            Some(-(decimal_value(digits) as int))
        } else {
            None
        }
    } else {
        let digits = without_plus(s);
        if is_digit_string(digits) && decimal_value(digits) <= max {
            Some(decimal_value(digits) as int)
        } else {
            None
        }
    }
}

/// A run of digits is worth at least as much as any of its prefixes.
pub proof fn lemma_decimal_value_prefix(s: Seq<char>, k: int)
    requires
        0 <= k <= s.len(),
    ensures
        decimal_value(s.take(k)) <= decimal_value(s),
    decreases s.len(),
{
    if k == s.len() {
        assert(s.take(k) =~= s);
    } else {
        assert(s.drop_last().take(k) =~= s.take(k));
        lemma_decimal_value_prefix(s.drop_last(), k);
    }
}

/// One more digit multiplies the value by ten and adds the digit.
pub proof fn lemma_decimal_value_step(s: Seq<char>, k: int)
    requires
        0 <= k < s.len(),
    ensures
        decimal_value(s.take(k + 1)) == decimal_value(s.take(k)) * 10 + digit_value(s[k]),
{
    assert(s.take(k + 1).drop_last() =~= s.take(k));
}

/// The digits of a number are digits, and they denote that number.
pub proof fn lemma_decimal_round_trip(n: nat)
    ensures
        is_digit_string(decimal_digits(n)),
        decimal_value(decimal_digits(n)) == n,
        n > 0 ==> decimal_digits(n)[0] != '0',
    decreases n,
{
    if n < 10 {
        let s = decimal_digits(n);
        assert(decimal_value(s.drop_last()) == 0);
    } else {
        lemma_decimal_round_trip(n / 10);
        let s = decimal_digits(n);
        assert(s.drop_last() =~= decimal_digits(n / 10));
    }
}

/// The value of the ASCII digit `c`, or `None` for any other character.
pub fn digit_of(c: char) -> (d: Option<u64>)
    ensures
        d is Some <==> is_digit(c),
        d is Some ==> d->0 == digit_value(c),
{
    if '0' <= c && c <= '9' {
        Some(c as u64 - '0' as u64)
    } else {
        None
    }
}

/// Reads a run of digits as a number not above `limit`.
///
/// The result is `None` where `s` is empty, holds anything but digits, or
/// denotes a number above `limit`.
pub fn parse_decimal(s: &[char], limit: u64) -> (value: Option<u64>)
    ensures
        value == if is_digit_string(s@) && decimal_value(s@) <= limit {
            Some(decimal_value(s@) as u64)
        } else {
            None
        },
{
    if s.len() == 0 {
        return None;
    }
    let mut acc: u64 = 0;
    let mut i: usize = 0;
    while i < s.len()
        invariant
            i <= s.len(),
            all_digits(s@.take(i as int)),
            acc == decimal_value(s@.take(i as int)),
            acc <= limit,
        decreases s.len() - i,
    {
        let d = match digit_of(s[i]) {
            Some(d) => d,
            None => {
                return None;
            },
        };
        proof {
            lemma_decimal_value_step(s@, i as int);
            lemma_decimal_value_prefix(s@, i as int + 1);
        }
        if d > limit || acc > (limit - d) / 10 {
            return None;
        }
        acc = acc * 10 + d;
        i += 1;
    }
    assert(s@.take(i as int) =~= s@);
    Some(acc)
}

/// Whether `s` is a non-empty run of ASCII digits.
pub fn is_digits(s: &str) -> (yes: bool)
    ensures
        yes == is_digit_string(s@),
{
    let chars = chars_of(s);
    let mut i: usize = 0;
    while i < chars.len()
        invariant
            i <= chars.len(),
            chars@ == s@,
            all_digits(chars@.take(i as int)),
        decreases chars.len() - i,
    {
        if digit_of(chars[i]).is_none() {
            return false;
        }
        i += 1;
    }
    assert(chars@.take(i as int) =~= chars@);
    chars.len() > 0
}

/// Reads `s` as an unsigned decimal number not above `limit`.
pub fn parse_unsigned(s: &str, limit: u64) -> (value: Option<u64>)
    ensures
        value == match unsigned_value(s@, limit as nat) {
            Some(n) => Some(n as u64),
            None => None,
        },
{
    let chars = chars_of(s);
    let n = chars.len();
    if n > 0 && chars[0] == '+' {
        let digits = slice_subrange(chars.as_slice(), 1, n);
        parse_decimal(digits, limit)
    } else {
        parse_decimal(chars.as_slice(), limit)
    }
}

/// Reads `s` as a signed decimal number from `min` to `max`.
pub fn parse_signed(s: &str, min: i64, max: i64) -> (value: Option<i64>)
    requires
        min <= 0 <= max,
    ensures
        value == match signed_value(s@, min as int, max as int) {
            Some(n) => Some(n as i64),
            None => None,
        },
{
    let chars = chars_of(s);
    let n = chars.len();
    if n > 0 && chars[0] == '-' {
        let digits = slice_subrange(chars.as_slice(), 1, n);
        let limit: u64 = if min == i64::MIN {
            0x8000_0000_0000_0000u64
        } else {
            (-min) as u64
        };
        match parse_decimal(digits, limit) {
            Some(m) => if m == 0x8000_0000_0000_0000u64 {
                Some(i64::MIN)
            } else {
                Some(-(m as i64))
            },
            None => None,
        }
    } else {
        let digits = if n > 0 && chars[0] == '+' {
            slice_subrange(chars.as_slice(), 1, n)
        } else {
            chars.as_slice()
        };
        match parse_decimal(digits, max as u64) {
            Some(m) => Some(m as i64),
            None => None,
        }
    }
}

/// An integer type that can be read from decimal text.
pub trait FromDecimal: Sized {
    /// The number of this type that `text` denotes, if it denotes one: digits
    /// that a plus sign may precede, or a minus sign where the type is
    /// signed, and a value within the type's range.
    spec fn read(text: Seq<char>) -> Option<Self>;

    /// Reads `text` as a number of this type.
    fn from_decimal(text: &str) -> (value: Option<Self>)
        ensures
            value == Self::read(text@),
    ;
}

impl FromDecimal for u32 {
    open spec fn read(text: Seq<char>) -> Option<u32> {
        match unsigned_value(text, u32::MAX as nat) {
            Some(n) => Some(n as u32),
            None => None,
        }
    }

    fn from_decimal(text: &str) -> (value: Option<u32>) {
        match parse_unsigned(text, 0xffff_ffffu64) {
            Some(n) => Some(n as u32),
            None => None,
        }
    }
}

impl FromDecimal for u64 {
    open spec fn read(text: Seq<char>) -> Option<u64> {
        match unsigned_value(text, u64::MAX as nat) {
            Some(n) => Some(n as u64),
            None => None,
        }
    }

    fn from_decimal(text: &str) -> (value: Option<u64>) {
        parse_unsigned(text, 0xffff_ffff_ffff_ffffu64)
    }
}

impl FromDecimal for usize {
    open spec fn read(text: Seq<char>) -> Option<usize> {
        match unsigned_value(text, usize::MAX as nat) {
            Some(n) => Some(n as usize),
            None => None,
        }
    }

    fn from_decimal(text: &str) -> (value: Option<usize>) {
        match parse_unsigned(text, usize::MAX as u64) {
            Some(n) => Some(n as usize),
            None => None,
        }
    }
}

impl FromDecimal for i32 {
    open spec fn read(text: Seq<char>) -> Option<i32> {
        match signed_value(text, i32::MIN as int, i32::MAX as int) {
            Some(n) => Some(n as i32),
            None => None,
        }
    }

    fn from_decimal(text: &str) -> (value: Option<i32>) {
        match parse_signed(text, -0x8000_0000i64, 0x7fff_ffffi64) {
            Some(n) => Some(n as i32),
            None => None,
        }
    }
}

impl FromDecimal for i64 {
    open spec fn read(text: Seq<char>) -> Option<i64> {
        match signed_value(text, i64::MIN as int, i64::MAX as int) {
            Some(n) => Some(n as i64),
            None => None,
        }
    }

    fn from_decimal(text: &str) -> (value: Option<i64>) {
        parse_signed(text, i64::MIN, i64::MAX)
    }
}

/// The one-character text of the digit `d`.
fn digit_text(d: u64) -> (text: &'static str)
    requires
        d < 10,
    ensures
        text@ == seq![digit_char(d as nat)],
{
    proof {
        reveal_strlit("0");
        reveal_strlit("1");
        reveal_strlit("2");
        reveal_strlit("3");
        reveal_strlit("4");
        reveal_strlit("5");
        reveal_strlit("6");
        reveal_strlit("7");
        reveal_strlit("8");
        reveal_strlit("9");
    }
    let text = match d {
        0 => "0",
        1 => "1",
        2 => "2",
        3 => "3",
        4 => "4",
        5 => "5",
        6 => "6",
        7 => "7",
        8 => "8",
        _ => "9",
    };
    text
}

/// Writes `n` in base ten, without leading zeros.
pub fn to_decimal(n: u64) -> (text: String)
    ensures
        text@ == decimal_digits(n as nat),
    decreases n,
{
    if n < 10 {
        String::from_str(digit_text(n))
    } else {
        let mut text = to_decimal(n / 10);
        text.append(digit_text(n % 10));
        text
    }
}

/// Writes `n` in base eight, without leading zeros.
pub fn to_octal(n: u64) -> (text: String)
    ensures
        text@ == octal_digits(n as nat),
    decreases n,
{
    if n < 8 {
        String::from_str(digit_text(n))
    } else {
        let mut text = to_octal(n / 8);
        text.append(digit_text(n % 8));
        text
    }
}

/// Writes `n` in base ten.
pub fn to_signed_decimal(n: i64) -> (text: String)
    ensures
        text@ == signed_digits(n as int),
{
    if n < 0 {
        proof {
            reveal_strlit("-");
        }
        let magnitude: u64 = if n == i64::MIN {
            0x8000_0000_0000_0000u64
        } else {
            (-n) as u64
        };
        let mut text = String::from_str("-");
        text.append(to_decimal(magnitude).as_str());
        text
    } else {
        to_decimal(n as u64)
    }
}

} // verus!
