//! Texts without the white space around them.
use vstd::prelude::*;
use vstd::string::StringExecFns;
use vstd::string::StrSliceExecFns;
use crate::text::chars_of;

verus! {

/// `c` is white space as Unicode defines it.
pub open spec fn is_whitespace(c: char) -> bool {
    ||| ('\u{9}' <= c && c <= '\u{d}')
    ||| c == ' '
    ||| c == '\u{85}'
    ||| c == '\u{a0}'
    ||| c == '\u{1680}'
    ||| ('\u{2000}' <= c && c <= '\u{200a}')
    ||| c == '\u{2028}'
    ||| c == '\u{2029}'
    ||| c == '\u{202f}'
    ||| c == '\u{205f}'
    ||| c == '\u{3000}'
}

/// The number of white-space characters that `s` begins with.
pub open spec fn leading_whitespace(s: Seq<char>) -> nat
    decreases s.len(),
{
    if s.len() == 0 || !is_whitespace(s[0]) {
        0
    } else {
        1 + leading_whitespace(s.drop_first())
    }
}

/// The number of white-space characters that `s` ends with.
pub open spec fn trailing_whitespace(s: Seq<char>) -> nat
    decreases s.len(),
{
    if s.len() == 0 || !is_whitespace(s.last()) {
        0
    } else {
        1 + trailing_whitespace(s.drop_last())
    }
}

/// `s` without the white space that it begins and ends with.
pub open spec fn trimmed(s: Seq<char>) -> Seq<char> {
    if leading_whitespace(s) >= s.len() {
        Seq::empty()
    } else {
        s.subrange(leading_whitespace(s) as int, s.len() - trailing_whitespace(s))
    }
}

/// Where the first `k` characters are white space and the next one is not,
/// `s` begins with `k` white-space characters.
pub proof fn lemma_leading_whitespace_is(s: Seq<char>, k: int)
    requires
        0 <= k <= s.len(),
        forall|j: int| 0 <= j < k ==> is_whitespace(s[j]),
        k < s.len() ==> !is_whitespace(s[k]),
    ensures
        leading_whitespace(s) == k,
    decreases s.len(),
{
    if s.len() != 0 && is_whitespace(s[0]) {
        let rest = s.drop_first();
        lemma_leading_whitespace_is(rest, k - 1);
    }
}

/// Where the last `k` characters are white space and the one before them is
/// not, `s` ends with `k` white-space characters.
pub proof fn lemma_trailing_whitespace_is(s: Seq<char>, k: int)
    requires
        0 <= k <= s.len(),
        forall|j: int| s.len() - k <= j < s.len() ==> is_whitespace(s[j]),
        k < s.len() ==> !is_whitespace(s[s.len() - k - 1]),
    ensures
        trailing_whitespace(s) == k,
    decreases s.len(),
{
    if s.len() != 0 && is_whitespace(s.last()) {
        let rest = s.drop_last();
        lemma_trailing_whitespace_is(rest, k - 1);
    }
}

fn is_whitespace_char(c: char) -> (yes: bool)
    ensures
        yes == is_whitespace(c),
{
    ('\u{9}' <= c && c <= '\u{d}') || c == ' ' || c == '\u{85}' || c == '\u{a0}' || c
        == '\u{1680}' || ('\u{2000}' <= c && c <= '\u{200a}') || c == '\u{2028}' || c
        == '\u{2029}' || c == '\u{202f}' || c == '\u{205f}' || c == '\u{3000}'
}

/// `text` without the white space that it begins and ends with.
pub fn trim(text: &str) -> (inner: String)
    ensures
        inner@ == trimmed(text@),
{
    let chars = chars_of(text);
    let n = chars.len();
    let mut start: usize = 0;
    while start < n && is_whitespace_char(chars[start])
        invariant
            start <= n,
            n == chars.len(),
            forall|j: int| 0 <= j < start ==> is_whitespace(chars@[j]),
        decreases n - start,
    {
        start += 1;
    }
    proof {
        lemma_leading_whitespace_is(chars@, start as int);
    }
    if start == n {
        return String::new();
    }
    let mut end: usize = n;
    while end > start && is_whitespace_char(chars[end - 1])
        invariant
            start <= end <= n,
            n == chars.len(),
            start < n,
            !is_whitespace(chars@[start as int]),
            forall|j: int| end <= j < n ==> is_whitespace(chars@[j]),
        decreases end,
    {
        end -= 1;
    }
    proof {
        lemma_trailing_whitespace_is(chars@, n - end);
    }
    String::from_str(text.substring_char(start, end))
}

} // verus!
