//! Highlighting text on a terminal.
use vstd::prelude::*;
use ansi_term::Style;

verus! {

/// `text` between the escape sequence that swaps foreground and background
/// and the one that resets the terminal.
pub open spec fn reversed(text: Seq<char>) -> Seq<char> {
    "\x1b[7m"@ + text + "\x1b[0m"@
}

/// Paints `text` in reverse video.
///
/// Trusted: `ansi_term::Style::paint` with the style of
/// `ansi_term::Style::reverse`, shown as text, which puts the code `7`
/// before the text and the reset code after it, whatever the text is.
#[verifier::external_body]
pub(crate) fn paint_reverse(text: &str) -> (painted: String)
    ensures
        painted@ == reversed(text@),
{
    format!("{}", Style::new().reverse().paint(text))
}

} // verus!
