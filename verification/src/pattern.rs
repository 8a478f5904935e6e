//! Regular expressions, which the `regex` crate compiles and matches.
use vstd::prelude::*;
use vstd::string::StringExecFns;
use regex::{Regex, RegexBuilder};

verus! {

/// A compiled regular expression of the `regex` crate.
#[verifier::external_type_specification]
#[verifier::external_body]
pub struct ExRegex(Regex);

/// The error of the `regex` crate for a pattern that it does not compile.
#[verifier::external_type_specification]
#[verifier::external_body]
pub struct ExRegexError(regex::Error);

/// Whether `regex` matches somewhere in `text`.
pub uninterp spec fn regex_matches(regex: Regex, text: Seq<char>) -> bool;

/// The expression that `pattern` compiles to, for matching without regard to
/// case where `insensitive` is set, or `None` where it does not compile.
pub uninterp spec fn compilation(pattern: Seq<char>, insensitive: bool) -> Option<Regex>;

/// Compiles `pattern`, for matching without regard to case where
/// `insensitive` is set.
///
/// Trusted: `regex::RegexBuilder::build` on a builder of
/// `regex::RegexBuilder::new` with `case_insensitive`, whose result depends
/// on the pattern and the setting alone and is named by `compilation`.
/// Nothing is claimed of which patterns compile.
#[verifier::external_body]
pub(crate) fn compile(pattern: &str, insensitive: bool) -> (compiled: Result<Regex, regex::Error>)
    ensures
        compiled is Ok <==> compilation(pattern@, insensitive) is Some,
        compiled matches Ok(regex) ==> compilation(pattern@, insensitive) == Some(regex),
{
    RegexBuilder::new(pattern).case_insensitive(insensitive).build()
}

/// What the compiling of `pattern` gives: the expression, or a message made
/// of `before`, the pattern as it was typed and `after`.
pub open spec fn pattern_result(
    pattern: Seq<char>,
    insensitive: bool,
    before: Seq<char>,
    after: Seq<char>,
) -> Result<Regex, Seq<char>> {
    match compilation(pattern, insensitive) {
        Some(regex) => Ok(regex),
        None => Err(before + pattern + after),
    }
}

/// `r` is `expected`, with the text of the message in place of the message.
pub open spec fn is_result<T>(r: Result<T, String>, expected: Result<T, Seq<char>>) -> bool {
    match r {
        Ok(value) => expected == Ok::<T, Seq<char>>(value),
        Err(message) => expected == Err::<T, Seq<char>>(message@),
    }
}

/// Compiles `pattern` and makes the message for one that does not compile.
pub fn parse_pattern(pattern: &str, insensitive: bool, before: &str, after: &str) -> (r: Result<
    Regex,
    String,
>)
    ensures
        is_result(r, pattern_result(pattern@, insensitive, before@, after@)),
{
    compiled_or_message(compile(pattern, insensitive), before, pattern, after)
}

/// Whether `regex` matches somewhere in `text`.
///
/// Trusted: `regex::Regex::is_match`, whose answer depends on the expression
/// and the text alone and is named by `regex_matches`.
#[verifier::external_body]
pub(crate) fn is_match(regex: &Regex, text: &str) -> (yes: bool)
    ensures
        yes == regex_matches(*regex, text@),
{
    regex.is_match(text)
}

/// What becomes of a pattern once it has been compiled: the expression, or a
/// message made of `before`, the pattern as it was typed and `after`.
pub fn compiled_or_message(
    compiled: Result<Regex, regex::Error>,
    before: &str,
    pattern: &str,
    after: &str,
) -> (r: Result<Regex, String>)
    ensures
        match (compiled, r) {
            (Ok(regex), Ok(same)) => same == regex,
            (Err(_), Err(message)) => message@ == before@ + pattern@ + after@,
            _ => false,
        },
{
    match compiled {
        Ok(regex) => Ok(regex),
        Err(_) => {
            let mut message = String::from_str(before);
            message.append(pattern);
            message.append(after);
            Err(message)
        },
    }
}

/// Whether one of `patterns` matches somewhere in `text`.
pub open spec fn any_matches(patterns: Seq<Regex>, text: Seq<char>) -> bool {
    exists|i: int| 0 <= i < patterns.len() && regex_matches(#[trigger] patterns[i], text)
}

/// Whether one of `patterns` matches somewhere in `text`.
pub fn is_match_any(patterns: &[Regex], text: &str) -> (yes: bool)
    ensures
        yes == any_matches(patterns@, text@),
{
    let mut i: usize = 0;
    while i < patterns.len()
        invariant
            i <= patterns.len(),
            forall|j: int| 0 <= j < i ==> !regex_matches(#[trigger] patterns@[j], text@),
        decreases patterns.len() - i,
    {
        if is_match(&patterns[i], text) {
            return true;
        }
        i += 1;
    }
    false
}

} // verus!
