//! Lossy decoding of bytes as text, as the standard library does it.
use vstd::prelude::*;
use vstd::utf8::{valid_utf8, decode_utf8};

verus! {

/// The text that lossy decoding makes of `bytes`: the characters that the
/// well-formed stretches encode, with a replacement character for each
/// ill-formed one.
pub uninterp spec fn lossy_text(bytes: Seq<u8>) -> Seq<char>;

/// Decodes `bytes` with `String::from_utf8_lossy`, which never fails.
///
/// Trusted: the result is named by `lossy_text`, and where the bytes are
/// well-formed UTF-8 it is the text that they encode.
#[verifier::external_body]
pub(crate) fn decode_lossy(bytes: &[u8]) -> (text: String)
    ensures
        text@ == lossy_text(bytes@),
        valid_utf8(bytes@) ==> text@ == decode_utf8(bytes@),
{
    String::from_utf8_lossy(bytes).into_owned()
}

} // verus!
