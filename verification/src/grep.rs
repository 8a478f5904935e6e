//! Searching the lines of a text for a pattern.
use vstd::prelude::*;
use vstd::string::StringExecFns;
use regex::Regex;
use crate::pattern::{regex_matches, is_match, compilation, pattern_result, is_result};
use crate::numbers::{decimal_digits, to_decimal};
use crate::text::{texts, lines_with_ends, split_lines};

verus! {

/// Whether a line is wanted, given whether the pattern matches it: a line
/// that matches is, unless the search is inverted, and then a line that does
/// not match is.
pub fn is_wanted(matched: bool, invert_match: bool) -> (wanted: bool)
    ensures
        wanted == (matched != invert_match),
{
    matched != invert_match
}

/// The lines among `lines` that are wanted: those that `pattern` matches, or,
/// where `invert` is set, those that it does not match. They keep their
/// order.
pub open spec fn wanted_lines(lines: Seq<Seq<char>>, pattern: Regex, invert: bool) -> Seq<
    Seq<char>,
>
    decreases lines.len(),
{
    if lines.len() == 0 {
        Seq::empty()
    } else if regex_matches(pattern, lines.last()) != invert {
        wanted_lines(lines.drop_last(), pattern, invert).push(lines.last())
    } else {
        wanted_lines(lines.drop_last(), pattern, invert)
    }
}

/// Compiles the pattern to search for.
pub fn parse_pattern(pattern: &str, insensitive: bool) -> (r: Result<Regex, String>)
    ensures
        is_result(r, pattern_result(pattern@, insensitive, "Invalid pattern \""@, "\""@)),
{
    crate::pattern::parse_pattern(pattern, insensitive, "Invalid pattern \"", "\"")
}

/// What to search for, where and how.
#[derive(Debug)]
pub struct Config {
    pub pattern: Regex,
    pub files: Vec<String>,
    pub recursive: bool,
    pub count: bool,
    pub invert_match: bool,
}

/// Makes the settings of a run from its options as they were typed.
pub fn configure(
    pattern: &str,
    insensitive: bool,
    files: Vec<String>,
    recursive: bool,
    count: bool,
    invert_match: bool,
) -> (r: Result<Config, String>)
    ensures
        match r {
            Ok(config) => {
                &&& compilation(pattern@, insensitive) == Some(config.pattern)
                &&& config.files == files
                &&& config.recursive == recursive
                &&& config.count == count
                &&& config.invert_match == invert_match
            },
            Err(message) => compilation(pattern@, insensitive) is None && message@
                == "Invalid pattern \""@ + pattern@ + "\""@,
        },
{
    match parse_pattern(pattern, insensitive) {
        Ok(pattern) => Ok(Config { pattern, files, recursive, count, invert_match }),
        Err(message) => Err(message),
    }
}

/// Finds the lines of `text` that `pattern` matches, or, where
/// `invert_match` is set, those that it does not match. Each line comes with
/// the line feed that ends it.
pub fn find_lines(text: &str, pattern: &Regex, invert_match: bool) -> (found: Vec<String>)
    ensures
        texts(found@) == wanted_lines(lines_with_ends(text@, '\n'), *pattern, invert_match),
{
    let lines = split_lines(text);
    let ghost all = lines_with_ends(text@, '\n');
    let mut found: Vec<String> = Vec::new();
    let mut i: usize = 0;
    while i < lines.len()
        invariant
            i <= lines.len(),
            texts(lines@) == all,
            texts(found@) == wanted_lines(all.take(i as int), *pattern, invert_match),
        decreases lines.len() - i,
    {
        proof {
            assert(all.take(i + 1).drop_last() =~= all.take(i as int));
        }
        if is_wanted(is_match(pattern, lines[i].as_str()), invert_match) {
            found.push(lines[i].clone());
        }
        i += 1;
    }
    assert(all.take(i as int) =~= all);
    found
}

/// The text of the lines found in one file, each behind `header`.
pub open spec fn listing(header: Seq<char>, found: Seq<String>) -> Seq<char>
    decreases found.len(),
{
    if found.len() == 0 {
        Seq::empty()
    } else {
        listing(header, found.drop_last()) + header + found.last()@
    }
}

/// The header that names the file a line was found in: the name and a colon
/// where several files are searched, and nothing where only one is.
pub open spec fn header_for(filename: Seq<char>, several: bool) -> Seq<char> {
    if several {
        filename + ":"@
    } else {
        Seq::empty()
    }
}

/// What is shown for one file: the number of lines found and a line feed
/// where `count` is set, and else the lines themselves, each behind the
/// header for the file.
pub open spec fn report_text(
    filename: Seq<char>,
    several: bool,
    count: bool,
    found: Seq<String>,
) -> Seq<char> {
    if count {
        header_for(filename, several) + decimal_digits(found.len()) + "\n"@
    } else {
        listing(header_for(filename, several), found)
    }
}

/// Makes the text that is shown for one file.
pub fn report(filename: &str, several: bool, count: bool, found: &[String]) -> (text: String)
    ensures
        text@ == report_text(filename@, several, count, found@),
{
    let mut header = String::new();
    if several {
        header.append(filename);
        header.append(":");
    }
    if count {
        let mut text = header;
        text.append(to_decimal(found.len() as u64).as_str());
        text.append("\n");
        text
    } else {
        let mut text = String::new();
        let mut i: usize = 0;
        while i < found.len()
            invariant
                i <= found.len(),
                header@ == header_for(filename@, several),
                text@ == listing(header@, found@.take(i as int)),
            decreases found.len() - i,
        {
            proof {
                assert(found@.take(i + 1).drop_last() =~= found@.take(i as int));
            }
            text.append(header.as_str());
            text.append(found[i].as_str());
            i += 1;
        }
        assert(found@.take(i as int) =~= found@);
        text
    }
}

/// What to do with one path that is to be searched.
#[derive(Debug, PartialEq, Eq)]
pub enum PathAction {
    /// Search this file.
    Search(String),
    /// Search every file below this directory.
    Walk(String),
    /// Report this message in place of a search.
    Fail(String),
    /// Pass over the path in silence.
    Skip,
}

/// Decides what to do with `path`, given what the file system says of it. A
/// path that does not exist is reported and so is a directory, unless the
/// search is `recursive`; what is neither a file nor a directory is passed
/// over.
pub fn classify_path(
    path: &str,
    exists: bool,
    is_file: bool,
    is_dir: bool,
    recursive: bool,
) -> (action: PathAction)
    ensures
        match action {
            PathAction::Fail(message) => (!exists && message@ == path@
                + ": No such file or directory "@) || (exists && !is_file && is_dir && !recursive
                && message@ == path@ + " is a directory"@),
            PathAction::Search(file) => exists && is_file && file@ == path@,
            PathAction::Skip => exists && !is_file && !is_dir,
            PathAction::Walk(directory) => exists && !is_file && is_dir && recursive
                && directory@ == path@,
        },
{
    if !exists {
        let mut message = String::from_str(path);
        message.append(": No such file or directory ");
        PathAction::Fail(message)
    } else if is_file {
        PathAction::Search(String::from_str(path))
    } else if !is_dir {
        PathAction::Skip
    } else if !recursive {
        let mut message = String::from_str(path);
        message.append(" is a directory");
        PathAction::Fail(message)
    } else {
        PathAction::Walk(String::from_str(path))
    }
}

} // verus!
