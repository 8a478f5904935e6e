//! Verified building blocks for a family of small text utilities.
//!
//! The heart of the crate is the position-list engine of the column cutter:
//! [`ranges`] turns a range specification such as `"1,7,3-5"` into an ordered
//! list of half-open intervals, and [`extract`] applies such a list to the
//! bytes, the characters or the fields of one line. What holds of every
//! specification and of every extraction is stated and proved in
//! [`range_laws`] and [`extract_laws`], and [`cut`] holds the settings of a
//! run.
//!
//! Around it stand the rules of the other utilities, each in a module of its
//! own: [`cat`], [`head`], [`tail`], [`wc`], [`uniq`], [`comm`], [`grep`],
//! [`find`], [`fortune`], [`cal`] and [`ls`]. They work on plain values, on
//! texts, bytes and lists of lines, and leave the reading of files and the
//! writing of results to their callers.
//!
//! What they share stands in [`text`] (searching, splitting, lines),
//! [`numbers`] (reading and writing numbers), [`align`] (columns), [`trim`]
//! (white space) and [`order`] (the order of the dictionary). The remaining
//! modules are the doors to code that is not verified here. Each states what
//! it trusts of the function behind it: [`lossy`] and [`case`] of the
//! standard library, [`dates`] of `chrono`, [`paint`] of `ansi_term`,
//! [`pattern`] of `regex`, [`chance`] of `rand`, and [`table`] of `tabular`.
pub mod text;
pub mod numbers;
pub mod align;
pub mod trim;
pub mod order;
pub mod ranges;
pub mod range_laws;
pub mod extract;
pub mod extract_laws;
pub mod cut;
pub mod cat;
pub mod head;
pub mod tail;
pub mod wc;
pub mod uniq;
pub mod comm;
pub mod grep;
pub mod find;
pub mod fortune;
pub mod cal;
pub mod ls;
pub mod lossy;
pub mod case;
pub mod dates;
pub mod paint;
pub mod pattern;
pub mod chance;
pub mod table;
