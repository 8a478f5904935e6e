//! The beginning of an input: its first lines or its first bytes.
use vstd::prelude::*;
use vstd::string::StringExecFns;
use vstd::slice::slice_subrange;
use vstd::utf8::{valid_utf8, decode_utf8};
use crate::lossy::{lossy_text, decode_lossy};
use crate::numbers::FromDecimal;
use crate::text::{
    concat, lines_with_ends, split_lines, texts, lemma_lines_with_ends, lemma_concat_append,
};

verus! {

/// Reads `val` as a count: a number of the machine above zero. The error is
/// the text that was not understood.
pub fn parse_positive_int(val: &str) -> (r: Result<usize, String>)
    ensures
        match r {
            Ok(n) => usize::read(val@) == Some(n) && n > 0,
            Err(message) => (usize::read(val@) is None || usize::read(val@) == Some(0usize))
                && message@ == val@,
        },
{
    match usize::from_decimal(val) {
        Some(n) => if n > 0 {
            Ok(n)
        } else {
            Err(String::from_str(val))
        },
        None => Err(String::from_str(val)),
    }
}

/// The message that rejects `val` as the count of the option `option`, which
/// is named as the usage names it, such as `--lines <LINES>`.
pub open spec fn invalid_count_message(val: Seq<char>, option: Seq<char>) -> Seq<char> {
    "error: invalid value '"@ + val + "' for '"@ + option
        + "': invalid digit found in string"@
}

/// Reads the count that the option `option` was given.
pub fn parse_count(val: &str, option: &str) -> (r: Result<usize, String>)
    ensures
        match r {
            Ok(n) => usize::read(val@) == Some(n) && n > 0,
            Err(message) => (usize::read(val@) is None || usize::read(val@) == Some(0usize))
                && message@ == invalid_count_message(val@, option@),
        },
{
    match parse_positive_int(val) {
        Ok(n) => Ok(n),
        Err(_) => {
            let mut message = String::from_str("error: invalid value '");
            message.append(val);
            message.append("' for '");
            message.append(option);
            message.append("': invalid digit found in string");
            Err(message)
        },
    }
}

/// How much to show of which files.
#[derive(Debug)]
pub struct Config {
    pub files: Vec<String>,
    pub lines: usize,
    pub bytes: Option<usize>,
}

/// Makes the settings of a run from its options as they were typed. The
/// count of lines is read first and then the count of bytes, and the first
/// that is not understood is the error.
pub fn configure(files: Vec<String>, lines: &str, bytes: Option<&str>) -> (r: Result<
    Config,
    String,
>)
    ensures
        match r {
            Ok(config) => {
                &&& config.files == files
                &&& config.lines > 0 && usize::read(lines@) == Some(config.lines)
                &&& match bytes {
                    Some(text) => usize::read(text@) == config.bytes && config.bytes is Some
                        && config.bytes->0 > 0,
                    None => config.bytes is None,
                }
            },
            Err(message) => if usize::read(lines@) is None || usize::read(lines@) == Some(0usize) {
                message@ == invalid_count_message(lines@, "--lines <LINES>"@)
            } else {
                bytes matches Some(text) && (usize::read(text@) is None || usize::read(text@)
                    == Some(0usize)) && message@ == invalid_count_message(
                    text@,
                    "--bytes <BYTES>"@,
                )
            },
        },
{
    let lines = match parse_count(lines, "--lines <LINES>") {
        Ok(n) => n,
        Err(message) => {
            return Err(message);
        },
    };
    let bytes = match bytes {
        Some(text) => match parse_count(text, "--bytes <BYTES>") {
            Ok(n) => Some(n),
            Err(message) => {
                return Err(message);
            },
        },
        None => None,
    };
    Ok(Config { files, lines, bytes })
}

/// The first `n` of `items`, or all of them where there are fewer.
pub open spec fn first<T>(items: Seq<T>, n: nat) -> Seq<T> {
    if n <= items.len() {
        items.take(n as int)
    } else {
        items
    }
}

/// The first lines of a text are a beginning of the text.
pub proof fn lemma_first_lines_begin_the_text(text: Seq<char>, n: nat)
    ensures
        concat(first(lines_with_ends(text, '\n'), n)).len() <= text.len(),
        concat(first(lines_with_ends(text, '\n'), n)) == text.take(
            concat(first(lines_with_ends(text, '\n'), n)).len() as int,
        ),
{
    let lines = lines_with_ends(text, '\n');
    lemma_lines_with_ends(text, '\n');
    if n <= lines.len() {
        let shown = lines.take(n as int);
        let left = lines.skip(n as int);
        assert(shown + left =~= lines);
        lemma_concat_append(shown, left);
        assert(concat(shown) =~= text.take(concat(shown).len() as int));
    } else {
        assert(text.take(text.len() as int) =~= text);
    }
}

/// The first `line_num` lines of `text`, each with the line feed that ends
/// it; all of the text where it has fewer lines.
pub fn read_lines(text: &str, line_num: usize) -> (beginning: String)
    ensures
        beginning@ == concat(first(lines_with_ends(text@, '\n'), line_num as nat)),
{
    let lines = split_lines(text);
    let ghost all = lines_with_ends(text@, '\n');
    let count: usize = if line_num <= lines.len() {
        line_num
    } else {
        lines.len()
    };
    let mut beginning = String::new();
    let mut i: usize = 0;
    while i < count
        invariant
            i <= count <= lines.len(),
            texts(lines@) == all,
            beginning@ == concat(all.take(i as int)),
        decreases count - i,
    {
        proof {
            assert(all.take(i + 1).drop_last() =~= all.take(i as int));
        }
        beginning.append(lines[i].as_str());
        i += 1;
    }
    assert(all.take(all.len() as int) =~= all);
    beginning
}

/// The first `bytes` bytes of `input`, or all of it where it is shorter,
/// decoded as text. Bytes that are well-formed give the text that they
/// encode. The decoding is lossy: where the cut splits a character, a
/// replacement character stands for the piece that is left.
pub fn read_file_with_bytes(input: &[u8], bytes: usize) -> (beginning: String)
    ensures
        beginning@ == lossy_text(first(input@, bytes as nat)),
        valid_utf8(first(input@, bytes as nat)) ==> beginning@ == decode_utf8(
            first(input@, bytes as nat),
        ),
{
    let count: usize = if bytes <= input.len() {
        bytes
    } else {
        input.len()
    };
    let part = slice_subrange(input, 0, count);
    assert(part@ =~= first(input@, bytes as nat));
    decode_lossy(part)
}

/// The line that announces file `filename` where several files are shown.
/// Before every file but the first, which has the number 0, an empty line
/// sets it off from what came before.
pub open spec fn header_text(filename: Seq<char>, file_num: nat) -> Seq<char> {
    if file_num > 0 {
        "\n"@ + "==> "@ + filename + " <==\n"@
    } else {
        "==> "@ + filename + " <==\n"@
    }
}

/// Makes the line that announces a file.
pub fn header(filename: &str, file_num: usize) -> (text: String)
    ensures
        text@ == header_text(filename@, file_num as nat),
{
    let mut text = String::new();
    if file_num > 0 {
        text.append("\n");
    }
    text.append("==> ");
    text.append(filename);
    text.append(" <==\n");
    text
}

} // verus!
