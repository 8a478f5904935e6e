//! The settings of the column cutter: which unit it cuts, with which position
//! list, and which byte separates fields.
use vstd::prelude::*;
use vstd::string::StringExecFns;
use vstd::string::StringSliceAdditionalSpecFns;
use core::ops::Range;
use crate::extract::Extract;
use crate::ranges::{parse_pos, parse_result, intervals, well_formed, delimiter_message};

verus! {

/// The settings of one run.
#[derive(Debug)]
pub struct Config {
    pub files: Vec<String>,
    pub delimiter: u8,
    pub extract: Extract,
}

/// The message for a run that names no unit to cut.
pub open spec fn missing_mode_message() -> Seq<char> {
    "the following required arguments were not provided:\n  \
    <--fields <FIELDS>|--bytes <BYTES>|--chars <CHARS>>"@
}

/// What a range specification that may be absent denotes: nothing wrong
/// where it is absent, and else what the specification denotes.
pub open spec fn optional_failure(spec: Option<&str>) -> Option<Seq<char>> {
    match spec {
        Some(text) => match parse_result(text@) {
            Err(message) => Some(message),
            Ok(_) => None,
        },
        None => None,
    }
}

/// The message that rejects the options of a run, if any does: the
/// delimiter must be a single byte; each range specification that is given
/// must be accepted, the fields first, then the bytes, then the characters;
/// and one of them must be given.
pub open spec fn options_failure(
    delimiter: &str,
    fields: Option<&str>,
    bytes: Option<&str>,
    chars: Option<&str>,
) -> Option<Seq<char>> {
    if delimiter.spec_bytes().len() != 1 {
        Some(delimiter_message(delimiter@))
    } else if optional_failure(fields) is Some {
        optional_failure(fields)
    } else if optional_failure(bytes) is Some {
        optional_failure(bytes)
    } else if optional_failure(chars) is Some {
        optional_failure(chars)
    } else if fields is None && bytes is None && chars is None {
        Some(missing_mode_message())
    } else {
        None
    }
}

/// `spec` is given and denotes the position list `list`.
pub open spec fn denotes(spec: Option<&str>, list: Seq<Range<usize>>) -> bool {
    spec matches Some(text) && parse_result(text@) == Ok::<Seq<(nat, nat)>, Seq<char>>(
        intervals(list),
    )
}

/// Whether `extract` is the mode that the options ask for: the fields where
/// their list is given, else the bytes, else the characters, each with the
/// position list that its specification denotes.
pub open spec fn is_chosen_mode(
    extract: Extract,
    fields: Option<&str>,
    bytes: Option<&str>,
    chars: Option<&str>,
) -> bool {
    match extract {
        Extract::Fields(list) => denotes(fields, list@),
        Extract::Bytes(list) => fields is None && denotes(bytes, list@),
        Extract::Chars(list) => fields is None && bytes is None && denotes(chars, list@),
    }
}

fn parse_optional(spec: Option<&str>) -> (r: Result<Option<Vec<Range<usize>>>, String>)
    ensures
        match r {
            Ok(Some(list)) => denotes(spec, list@) && well_formed(list@),
            Ok(None) => spec is None,
            Err(message) => optional_failure(spec) == Some(message@),
        },
{
    match spec {
        None => Ok(None),
        Some(text) => match parse_pos(text) {
            Ok(list) => Ok(Some(list)),
            Err(e) => Err(e.message),
        },
    }
}

/// Makes the settings of a run from its options as they were typed.
pub fn configure(
    files: Vec<String>,
    delimiter: &str,
    fields: Option<&str>,
    bytes: Option<&str>,
    chars: Option<&str>,
) -> (r: Result<Config, String>)
    ensures
        match r {
            Ok(config) => {
                &&& options_failure(delimiter, fields, bytes, chars) is None
                &&& config.files == files
                &&& config.delimiter == delimiter.spec_bytes()[0]
                &&& is_chosen_mode(config.extract, fields, bytes, chars)
                &&& well_formed(config.extract.positions())
            },
            Err(message) => options_failure(delimiter, fields, bytes, chars) == Some(message@),
        },
{
    let delim_bytes = delimiter.as_bytes();
    if delim_bytes.len() != 1 {
        let mut message = String::from_str("--delim \"");
        message.append(delimiter);
        message.append("\" must be a single byte");
        return Err(message);
    }
    let fields_list = match parse_optional(fields) {
        Ok(list) => list,
        Err(message) => {
            return Err(message);
        },
    };
    let bytes_list = match parse_optional(bytes) {
        Ok(list) => list,
        Err(message) => {
            return Err(message);
        },
    };
    let chars_list = match parse_optional(chars) {
        Ok(list) => list,
        Err(message) => {
            return Err(message);
        },
    };
    let extract = match fields_list {
        Some(list) => Extract::Fields(list),
        None => match bytes_list {
            Some(list) => Extract::Bytes(list),
            None => match chars_list {
                Some(list) => Extract::Chars(list),
                None => {
                    return Err(
                        String::from_str(
                            "the following required arguments were not provided:\n  \
                            <--fields <FIELDS>|--bytes <BYTES>|--chars <CHARS>>",
                        ),
                    );
                },
            },
        },
    };
    Ok(Config { files, delimiter: delim_bytes[0], extract })
}

} // verus!
