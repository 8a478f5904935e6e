//! Fortunes: short texts that a file holds between percent signs, of which one
//! is picked by chance or all that match a pattern are shown.
use vstd::prelude::*;
use vstd::string::StringExecFns;
use vstd::string::StrSliceExecFns;
use regex::Regex;
use crate::chance::{seeded_index, choose_seeded, choose_unseeded};
use crate::pattern::{regex_matches, is_match, compilation, pattern_result, is_result};
use crate::numbers::FromDecimal;
use crate::text::{split, split_on, texts};
use crate::trim::{trim, trimmed};

verus! {

/// One fortune and the file that it comes from.
#[derive(Debug)]
pub struct Fortune {
    pub source: String,
    pub text: String,
}

/// Reads `val` as a seed: an unsigned number of 64 bits.
pub fn parse_u64(val: &str) -> (r: Result<u64, String>)
    ensures
        match r {
            Ok(n) => u64::read(val@) == Some(n),
            Err(message) => u64::read(val@) is None && message@ == "\""@ + val@
                + "\" not a valid integer"@,
        },
{
    match u64::from_decimal(val) {
        Some(n) => Ok(n),
        None => {
            let mut message = String::from_str("\"");
            message.append(val);
            message.append("\" not a valid integer");
            Err(message)
        },
    }
}

/// Compiles the pattern that fortunes are searched for.
pub fn parse_pattern(pattern: &str, insensitive: bool) -> (r: Result<Regex, String>)
    ensures
        is_result(r, pattern_result(pattern@, insensitive, "Invalid --pattern \""@, "\""@)),
{
    crate::pattern::parse_pattern(pattern, insensitive, "Invalid --pattern \"", "\"")
}

/// Where to find fortunes, and how to choose among them.
#[derive(Debug)]
pub struct Config {
    pub sources: Vec<String>,
    pub pattern: Option<Regex>,
    pub seed: Option<u64>,
}

/// Makes the settings of a run from its options as they were typed. The
/// pattern is compiled first and then the seed is read, and the first that
/// fails is the error.
pub fn configure(
    sources: Vec<String>,
    pattern: Option<&str>,
    insensitive: bool,
    seed: Option<&str>,
) -> (r: Result<Config, String>)
    ensures
        match r {
            Ok(config) => {
                &&& config.sources == sources
                &&& match pattern {
                    Some(text) => compilation(text@, insensitive) == config.pattern
                        && config.pattern is Some,
                    None => config.pattern is None,
                }
                &&& match seed {
                    Some(text) => u64::read(text@) == config.seed && config.seed is Some,
                    None => config.seed is None,
                }
            },
            Err(message) => match pattern {
                Some(text) if compilation(text@, insensitive) is None => message@
                    == "Invalid --pattern \""@ + text@ + "\""@,
                _ => seed matches Some(text) && u64::read(text@) is None && message@ == "\""@
                    + text@ + "\" not a valid integer"@,
            },
        },
{
    let pattern = match pattern {
        Some(text) => match parse_pattern(text, insensitive) {
            Ok(regex) => Some(regex),
            Err(message) => {
                return Err(message);
            },
        },
        None => None,
    };
    let seed = match seed {
        Some(text) => match parse_u64(text) {
            Ok(n) => Some(n),
            Err(message) => {
                return Err(message);
            },
        },
        None => None,
    };
    Ok(Config { sources, pattern, seed })
}

/// The texts among `pieces` that are fortunes: each piece without the white
/// space around it, unless nothing is left of it. They keep their order.
pub open spec fn fortune_texts(pieces: Seq<Seq<char>>) -> Seq<Seq<char>>
    decreases pieces.len(),
{
    if pieces.len() == 0 {
        Seq::empty()
    } else if trimmed(pieces.last()).len() > 0 {
        fortune_texts(pieces.drop_last()).push(trimmed(pieces.last()))
    } else {
        fortune_texts(pieces.drop_last())
    }
}

/// Reads the fortunes that the text of one file holds: the pieces between
/// its percent signs, as `fortune_texts` keeps them.
pub fn read_fortunes(source: &str, content: &str) -> (fortunes: Vec<Fortune>)
    ensures
        fortunes@.len() == fortune_texts(split_on(content@, '%')).len(),
        forall|i: int|
            0 <= i < fortunes@.len() ==> (#[trigger] fortunes@[i]).text@ == fortune_texts(
                split_on(content@, '%'),
            )[i] && fortunes@[i].source@ == source@,
{
    let pieces = split(content, '%');
    let ghost all = split_on(content@, '%');
    let mut fortunes: Vec<Fortune> = Vec::new();
    let mut i: usize = 0;
    while i < pieces.len()
        invariant
            i <= pieces.len(),
            texts(pieces@) == all,
            fortunes@.len() == fortune_texts(all.take(i as int)).len(),
            forall|j: int|
                0 <= j < fortunes@.len() ==> (#[trigger] fortunes@[j]).text@ == fortune_texts(
                    all.take(i as int),
                )[j] && fortunes@[j].source@ == source@,
        decreases pieces.len() - i,
    {
        proof {
            assert(all.take(i + 1).drop_last() =~= all.take(i as int));
        }
        let text = trim(pieces[i].as_str());
        if text.as_str().unicode_len() > 0 {
            fortunes.push(Fortune { source: String::from_str(source), text });
        }
        i += 1;
    }
    assert(all.take(i as int) =~= all);
    fortunes
}

/// Picks one fortune by chance and returns its text. With a seed the pick is
/// the same on every run; without one the system seeds it. An empty list has
/// nothing to pick.
pub fn pick_fortune(fortunes: &[Fortune], seed: Option<u64>) -> (picked: Option<String>)
    ensures
        fortunes@.len() == 0 ==> picked is None,
        fortunes@.len() > 0 ==> picked is Some && exists|i: int|
            0 <= i < fortunes@.len() && picked->0@ == (#[trigger] fortunes@[i]).text@,
        fortunes@.len() > 0 && seed is Some ==> picked->0@ == fortunes@[seeded_index(
            seed->0,
            fortunes@.len(),
        ) as int].text@,
{
    let chosen = match seed {
        Some(seed) => choose_seeded(fortunes, seed),
        None => choose_unseeded(fortunes),
    };
    match chosen {
        Some(fortune) => Some(fortune.text.clone()),
        None => None,
    }
}

/// The texts of the fortunes among `fortunes` that `pattern` matches, in
/// their order.
pub open spec fn matching_texts(fortunes: Seq<Fortune>, pattern: Regex) -> Seq<Seq<char>>
    decreases fortunes.len(),
{
    if fortunes.len() == 0 {
        Seq::empty()
    } else if regex_matches(pattern, fortunes.last().text@) {
        matching_texts(fortunes.drop_last(), pattern).push(fortunes.last().text@)
    } else {
        matching_texts(fortunes.drop_last(), pattern)
    }
}

/// Finds the fortunes that `pattern` matches and returns their texts.
pub fn find_fortunes(fortunes: &[Fortune], pattern: &Regex) -> (found: Vec<String>)
    ensures
        texts(found@) == matching_texts(fortunes@, *pattern),
{
    let mut found: Vec<String> = Vec::new();
    let mut i: usize = 0;
    while i < fortunes.len()
        invariant
            i <= fortunes.len(),
            texts(found@) == matching_texts(fortunes@.take(i as int), *pattern),
        decreases fortunes.len() - i,
    {
        proof {
            assert(fortunes@.take(i + 1).drop_last() =~= fortunes@.take(i as int));
        }
        if is_match(pattern, fortunes[i].text.as_str()) {
            found.push(fortunes[i].text.clone());
        }
        i += 1;
    }
    assert(fortunes@.take(i as int) =~= fortunes@);
    found
}

} // verus!
