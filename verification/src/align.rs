//! Texts in columns: at the left, at the right or in the middle of a given
//! width, which counts characters.
use vstd::prelude::*;
use vstd::string::StringExecFns;
use vstd::string::StrSliceExecFns;

verus! {

/// A run of `n` blanks.
pub open spec fn blanks(n: nat) -> Seq<char> {
    Seq::new(n, |i: int| ' ')
}

/// `s` at the right of a column `width` characters wide: blanks fill the
/// column on the left, and a text wider than the column stays whole.
pub open spec fn right_aligned(s: Seq<char>, width: nat) -> Seq<char> {
    if s.len() >= width {
        s
    } else {
        blanks((width - s.len()) as nat) + s
    }
}

/// `s` at the left of a column `width` characters wide: blanks fill the
/// column on the right, and a text wider than the column stays whole.
pub open spec fn left_aligned(s: Seq<char>, width: nat) -> Seq<char> {
    if s.len() >= width {
        s
    } else {
        s + blanks((width - s.len()) as nat)
    }
}

/// `s` in the middle of a column `width` characters wide. Where the blanks
/// cannot be shared evenly, the one that is left over goes to the right.
pub open spec fn centered(s: Seq<char>, width: nat) -> Seq<char> {
    if s.len() >= width {
        s
    } else {
        let fill = (width - s.len()) as nat;
        blanks(fill / 2) + s + blanks((fill - fill / 2) as nat)
    }
}

/// Appends `n` blanks to `out`.
pub fn push_blanks(out: &mut String, n: usize)
    ensures
        final(out)@ == old(out)@ + blanks(n as nat),
{
    let mut i: usize = 0;
    while i < n
        invariant
            i <= n,
            out@ == old(out)@ + blanks(i as nat),
        decreases n - i,
    {
        proof {
            reveal_strlit(" ");
        }
        out.append(" ");
        i += 1;
    }
}

/// Sets `s` at the right of a column `width` characters wide.
pub fn pad_left(s: &str, width: usize) -> (out: String)
    ensures
        out@ == right_aligned(s@, width as nat),
{
    let len = s.unicode_len();
    let mut out = String::new();
    if len < width {
        push_blanks(&mut out, width - len);
    }
    out.append(s);
    out
}

/// Sets `s` at the left of a column `width` characters wide.
pub fn pad_right(s: &str, width: usize) -> (out: String)
    ensures
        out@ == left_aligned(s@, width as nat),
{
    let len = s.unicode_len();
    let mut out = String::from_str(s);
    if len < width {
        push_blanks(&mut out, width - len);
    }
    out
}

/// Sets `s` in the middle of a column `width` characters wide.
pub fn pad_center(s: &str, width: usize) -> (out: String)
    ensures
        out@ == centered(s@, width as nat),
{
    let len = s.unicode_len();
    if len >= width {
        return String::from_str(s);
    }
    let fill: usize = width - len;
    let mut out = String::new();
    push_blanks(&mut out, fill / 2);
    out.append(s);
    push_blanks(&mut out, fill - fill / 2);
    out
}

} // verus!
