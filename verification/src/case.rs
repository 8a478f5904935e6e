//! Lower case: within ASCII, where it is a rule of a line, and as Unicode
//! defines it, which the standard library knows.
use vstd::prelude::*;

verus! {

/// The lower-case form of an ASCII capital; any other character stays as it
/// is.
pub open spec fn lower(c: char) -> char {
    if 'A' <= c && c <= 'Z' {
        ((c as int) + 32) as char
    } else {
        c
    }
}

/// `prefix` is the beginning of `s`, capitals of ASCII taken for their small
/// letters.
pub open spec fn is_prefix_ignoring_case(prefix: Seq<char>, s: Seq<char>) -> bool {
    &&& prefix.len() <= s.len()
    &&& forall|i: int| 0 <= i < prefix.len() ==> lower(#[trigger] prefix[i]) == lower(s[i])
}

/// The lower-case form of `c` within ASCII.
pub fn to_lower(c: char) -> (small: char)
    ensures
        small == lower(c),
{
    if 'A' <= c && c <= 'Z' {
        ((c as u8) + 32) as char
    } else {
        c
    }
}

/// Whether `s` begins with `prefix`, capitals of ASCII taken for their small
/// letters.
pub fn starts_with_ignoring_case(s: &[char], prefix: &[char]) -> (yes: bool)
    ensures
        yes == is_prefix_ignoring_case(prefix@, s@),
{
    if prefix.len() > s.len() {
        return false;
    }
    let mut i: usize = 0;
    while i < prefix.len()
        invariant
            i <= prefix.len() <= s.len(),
            forall|j: int| 0 <= j < i ==> lower(#[trigger] prefix@[j]) == lower(s@[j]),
        decreases prefix.len() - i,
    {
        if to_lower(prefix[i]) != to_lower(s[i]) {
            return false;
        }
        i += 1;
    }
    true
}

/// `text` in lower case: each character replaced by what Unicode gives as its
/// lower-case form, which may be several characters.
pub uninterp spec fn lowercased(text: Seq<char>) -> Seq<char>;

/// Turns `text` into lower case.
///
/// Trusted: `str::to_lowercase`, whose result depends on the text alone and
/// is named by `lowercased`.
#[verifier::external_body]
pub(crate) fn to_lowercase(text: &str) -> (lower: String)
    ensures
        lower@ == lowercased(text@),
{
    text.to_lowercase()
}

} // verus!
