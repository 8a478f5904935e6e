//! Choosing the entries of a directory tree by their kind and their name.
use vstd::prelude::*;
use regex::Regex;
use crate::pattern::{
    any_matches, is_match_any, compilation, pattern_result, is_result, parse_pattern,
};
use crate::text::chars_of;

verus! {

/// A kind of entry to look for.
#[derive(Debug, PartialEq, Eq, Structural)]
pub enum EntryType {
    Dir,
    File,
    Link,
}

/// What the file system says an entry is.
#[derive(Debug, Clone, Copy, PartialEq, Eq, Structural)]
pub struct FileKind {
    pub is_file: bool,
    pub is_dir: bool,
    pub is_symlink: bool,
}

/// An entry of the kind `kind` is of the type `entry_type`.
pub open spec fn is_of_type(kind: FileKind, entry_type: EntryType) -> bool {
    match entry_type {
        EntryType::File => kind.is_file,
        EntryType::Dir => kind.is_dir,
        EntryType::Link => kind.is_symlink,
    }
}

/// Whether an entry is of one of the types looked for. Every entry is where
/// no type is named.
pub fn matches_entry_type(kind: &FileKind, entry_types: &[EntryType]) -> (yes: bool)
    ensures
        yes == (entry_types@.len() == 0 || exists|i: int|
            0 <= i < entry_types@.len() && is_of_type(*kind, #[trigger] entry_types@[i])),
{
    if entry_types.len() == 0 {
        return true;
    }
    let mut i: usize = 0;
    while i < entry_types.len()
        invariant
            i <= entry_types.len(),
            forall|j: int| 0 <= j < i ==> !is_of_type(*kind, #[trigger] entry_types@[j]),
        decreases entry_types.len() - i,
    {
        let of_type = match entry_types[i] {
            EntryType::File => kind.is_file,
            EntryType::Dir => kind.is_dir,
            EntryType::Link => kind.is_symlink,
        };
        if of_type {
            return true;
        }
        i += 1;
    }
    false
}

/// Whether the name of an entry is one looked for: one of `names` matches
/// somewhere in it. Every name is where no pattern is given.
pub fn matches_name(file_name: &str, names: &[Regex]) -> (yes: bool)
    ensures
        yes == (names@.len() == 0 || any_matches(names@, file_name@)),
{
    names.len() == 0 || is_match_any(names, file_name)
}

/// The type of entry that a letter stands for: `d`, `f` or `l`.
pub fn parse_entry_type(val: &str) -> (entry_type: Option<EntryType>)
    ensures
        entry_type == if val@ == "d"@ {
            Some(EntryType::Dir)
        } else if val@ == "f"@ {
            Some(EntryType::File)
        } else if val@ == "l"@ {
            Some(EntryType::Link)
        } else {
            None
        },
{
    if string_eq(val, "d") {
        Some(EntryType::Dir)
    } else if string_eq(val, "f") {
        Some(EntryType::File)
    } else if string_eq(val, "l") {
        Some(EntryType::Link)
    } else {
        None
    }
}

/// Compiles a pattern for names.
pub fn parse_name(name: &str) -> (r: Result<Regex, String>)
    ensures
        is_result(r, pattern_result(name@, false, "Invalid --name '"@, "'"@)),
{
    parse_pattern(name, false, "Invalid --name '", "'")
}

/// What to look for, and where.
#[derive(Debug)]
pub struct Config {
    pub paths: Vec<String>,
    pub names: Vec<Regex>,
    pub entry_types: Vec<EntryType>,
}

/// Makes the settings of a run from its options. The names are compiled in
/// their order, and the first that does not compile is the error.
pub fn configure(paths: Vec<String>, names: &[String], entry_types: Vec<EntryType>) -> (r: Result<
    Config,
    String,
>)
    ensures
        match r {
            Ok(config) => {
                &&& config.paths == paths
                &&& config.entry_types == entry_types
                &&& config.names@.len() == names@.len()
                &&& forall|i: int|
                    0 <= i < names@.len() ==> compilation((#[trigger] names@[i])@, false) == Some(
                        config.names@[i],
                    )
            },
            Err(message) => exists|k: int|
                0 <= k < names@.len() && compilation((#[trigger] names@[k])@, false) is None
                    && message@ == "Invalid --name '"@ + names@[k]@ + "'"@ && forall|i: int|
                    0 <= i < k ==> compilation((#[trigger] names@[i])@, false) is Some,
        },
{
    let mut compiled: Vec<Regex> = Vec::new();
    let mut i: usize = 0;
    while i < names.len()
        invariant
            i <= names.len(),
            compiled@.len() == i,
            forall|j: int|
                0 <= j < i ==> compilation((#[trigger] names@[j])@, false) == Some(compiled@[j]),
        decreases names.len() - i,
    {
        match parse_name(names[i].as_str()) {
            Ok(regex) => {
                compiled.push(regex);
            },
            Err(message) => {
                return Err(message);
            },
        }
        i += 1;
    }
    Ok(Config { paths, names: compiled, entry_types })
}

fn string_eq(a: &str, b: &str) -> (same: bool)
    ensures
        same == (a@ == b@),
{
    let left = chars_of(a);
    let right = chars_of(b);
    if left.len() != right.len() {
        return false;
    }
    let mut i: usize = 0;
    while i < left.len()
        invariant
            i <= left.len(),
            left.len() == right.len(),
            left@ == a@,
            right@ == b@,
            forall|j: int| 0 <= j < i ==> left@[j] == right@[j],
        decreases left.len() - i,
    {
        if left[i] != right[i] {
            return false;
        }
        i += 1;
    }
    assert(left@ =~= right@);
    true
}

} // verus!
