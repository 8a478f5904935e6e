//! Counting the lines, words, bytes and characters of a text.
use vstd::prelude::*;
use vstd::string::StringExecFns;
use vstd::string::StrSliceExecFns;
use vstd::string::StringSliceAdditionalSpecFns;
use crate::align::{pad_left, right_aligned};
use crate::numbers::{to_decimal, decimal_digits};
use crate::text::chars_of;

verus! {

/// The four counts of one text.
#[derive(Debug, PartialEq, Eq, Structural)]
pub struct FileInfo {
    pub num_lines: usize,
    pub num_words: usize,
    pub num_bytes: usize,
    pub num_chars: usize,
}

/// What to count, and in which files.
#[derive(Debug)]
pub struct Config {
    pub files: Vec<String>,
    pub lines: bool,
    pub words: bool,
    pub bytes: bool,
    pub chars: bool,
}

impl Config {
    /// Makes the settings of a run from its options. Where none of the four
    /// counts is asked for, the lines, the words and the bytes are counted.
    pub fn new(files: Vec<String>, lines: bool, words: bool, bytes: bool, chars: bool) -> (config:
        Config)
        ensures
            config.files == files,
            config.chars == chars,
            config.lines == (lines || !(words || bytes || chars)),
            config.words == (words || !(lines || bytes || chars)),
            config.bytes == (bytes || !(lines || words || chars)),
    {
        if !lines && !words && !bytes && !chars {
            Config { files, lines: true, words: true, bytes: true, chars }
        } else {
            Config { files, lines, words, bytes, chars }
        }
    }
}

/// How often `c` stands in `s`.
pub open spec fn occurrences(s: Seq<char>, c: char) -> nat
    decreases s.len(),
{
    if s.len() == 0 {
        0
    } else {
        occurrences(s.drop_last(), c) + if s.last() == c {
            1nat
        } else {
            0nat
        }
    }
}

/// The number of lines of `s`: one for each line feed, and one more for a
/// last line that no line feed ends.
pub open spec fn line_count(s: Seq<char>) -> nat {
    occurrences(s, '\n') + if s.len() > 0 && s.last() != '\n' {
        1nat
    } else {
        0nat
    }
}

/// `c` separates words: a blank, a tab, a line feed, a form feed or a
/// carriage return.
pub open spec fn is_space(c: char) -> bool {
    c == ' ' || c == '\t' || c == '\n' || c == '\x0C' || c == '\r'
}

/// A word starts at position `i` of `s`: a character that is no space, at the
/// start or after a space.
pub open spec fn word_starts_at(s: Seq<char>, i: int) -> bool {
    !is_space(s[i]) && (i == 0 || is_space(s[i - 1]))
}

/// The number of words of `s`, which is the number of places where a word
/// starts.
pub open spec fn word_count(s: Seq<char>) -> nat
    decreases s.len(),
{
    if s.len() == 0 {
        0
    } else {
        word_count(s.drop_last()) + if word_starts_at(s, s.len() - 1) {
            1nat
        } else {
            0nat
        }
    }
}

/// A text has no more line feeds and no more words than characters.
pub proof fn lemma_counts_bounded(s: Seq<char>)
    ensures
        occurrences(s, '\n') <= s.len(),
        word_count(s) <= s.len(),
    decreases s.len(),
{
    if s.len() > 0 {
        lemma_counts_bounded(s.drop_last());
    }
}

fn is_space_char(c: char) -> (yes: bool)
    ensures
        yes == is_space(c),
{
    c == ' ' || c == '\t' || c == '\n' || c == '\x0C' || c == '\r'
}

/// Counts the lines of `text`.
pub fn count_lines(text: &str) -> (n: usize)
    ensures
        n == line_count(text@),
{
    let chars = chars_of(text);
    let mut n: usize = 0;
    let mut i: usize = 0;
    while i < chars.len()
        invariant
            i <= chars.len(),
            n == occurrences(chars@.take(i as int), '\n'),
            n <= i,
        decreases chars.len() - i,
    {
        assert(chars@.take(i + 1).drop_last() =~= chars@.take(i as int));
        if chars[i] == '\n' {
            n += 1;
        }
        i += 1;
    }
    assert(chars@.take(i as int) =~= chars@);
    if chars.len() > 0 && chars[chars.len() - 1] != '\n' {
        proof {
            lemma_counts_bounded(chars@.drop_last());
        }
        n += 1;
    }
    n
}

/// Counts the words of `text`: the runs of characters between spaces.
pub fn count_words(text: &str) -> (n: usize)
    ensures
        n == word_count(text@),
{
    let chars = chars_of(text);
    let mut n: usize = 0;
    let mut i: usize = 0;
    let mut after_space = true;
    while i < chars.len()
        invariant
            i <= chars.len(),
            n == word_count(chars@.take(i as int)),
            n <= i,
            after_space == (i == 0 || is_space(chars@[i - 1])),
        decreases chars.len() - i,
    {
        assert(chars@.take(i + 1).drop_last() =~= chars@.take(i as int));
        let space = is_space_char(chars[i]);
        if !space && after_space {
            n += 1;
        }
        after_space = space;
        i += 1;
    }
    assert(chars@.take(i as int) =~= chars@);
    n
}

/// Counts the bytes of `text` in UTF-8.
pub fn count_bytes(text: &str) -> (n: usize)
    ensures
        n == text.spec_bytes().len(),
{
    text.as_bytes().len()
}

/// Counts the characters of `text`, line ends included.
pub fn count_chars(text: &str) -> (n: usize)
    ensures
        n == text@.len(),
{
    text.unicode_len()
}

/// Counts the lines, words, bytes and characters of `text`.
pub fn count(text: &str) -> (info: FileInfo)
    ensures
        info.num_lines == line_count(text@),
        info.num_words == word_count(text@),
        info.num_bytes == text.spec_bytes().len(),
        info.num_chars == text@.len(),
{
    FileInfo {
        num_lines: count_lines(text),
        num_words: count_words(text),
        num_bytes: count_bytes(text),
        num_chars: count_chars(text),
    }
}

/// Adds the counts of two texts, each to its like. The result is `None`
/// where a sum does not fit the machine.
pub fn plus_fileinfo(a: &FileInfo, b: &FileInfo) -> (total: Option<FileInfo>)
    ensures
        match total {
            Some(t) => {
                &&& t.num_lines == a.num_lines + b.num_lines
                &&& t.num_words == a.num_words + b.num_words
                &&& t.num_bytes == a.num_bytes + b.num_bytes
                &&& t.num_chars == a.num_chars + b.num_chars
            },
            None => {
                ||| a.num_lines + b.num_lines > usize::MAX
                ||| a.num_words + b.num_words > usize::MAX
                ||| a.num_bytes + b.num_bytes > usize::MAX
                ||| a.num_chars + b.num_chars > usize::MAX
            },
        },
{
    let num_lines = match a.num_lines.checked_add(b.num_lines) {
        Some(n) => n,
        None => {
            return None;
        },
    };
    let num_words = match a.num_words.checked_add(b.num_words) {
        Some(n) => n,
        None => {
            return None;
        },
    };
    let num_bytes = match a.num_bytes.checked_add(b.num_bytes) {
        Some(n) => n,
        None => {
            return None;
        },
    };
    let num_chars = match a.num_chars.checked_add(b.num_chars) {
        Some(n) => n,
        None => {
            return None;
        },
    };
    Some(FileInfo { num_lines, num_words, num_bytes, num_chars })
}

/// One count in its column, eight characters wide, where it is wanted.
pub open spec fn column(wanted: bool, n: nat) -> Seq<char> {
    if wanted {
        right_aligned(decimal_digits(n), 8)
    } else {
        Seq::empty()
    }
}

/// The columns of the counts that `config` asks for, in the order lines,
/// words, bytes, characters.
pub open spec fn columns(config: Config, info: FileInfo) -> Seq<char> {
    column(config.lines, info.num_lines as nat) + column(config.words, info.num_words as nat)
        + column(config.bytes, info.num_bytes as nat) + column(
        config.chars,
        info.num_chars as nat,
    )
}

fn push_column(out: &mut String, wanted: bool, n: usize)
    ensures
        final(out)@ == old(out)@ + column(wanted, n as nat),
{
    if wanted {
        let digits = to_decimal(n as u64);
        let cell = pad_left(digits.as_str(), 8);
        out.append(cell.as_str());
    }
}

/// The line that reports the counts of one file: the columns that `config`
/// asks for, a blank and the file's name. Where no count is asked for there
/// is no line.
pub fn print_result(config: &Config, fileinfo: &FileInfo, filename: &str) -> (line: Option<String>)
    ensures
        match line {
            Some(text) => columns(*config, *fileinfo).len() > 0 && text@ == columns(
                *config,
                *fileinfo,
            ) + " "@ + filename@,
            None => columns(*config, *fileinfo).len() == 0,
        },
{
    let mut output = String::new();
    push_column(&mut output, config.lines, fileinfo.num_lines);
    push_column(&mut output, config.words, fileinfo.num_words);
    push_column(&mut output, config.bytes, fileinfo.num_bytes);
    push_column(&mut output, config.chars, fileinfo.num_chars);
    if output.as_str().unicode_len() > 0 {
        output.append(" ");
        output.append(filename);
        Some(output)
    } else {
        None
    }
}

} // verus!
