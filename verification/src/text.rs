//! Texts as sequences of characters: searching, splitting at a separator,
//! and lines.
use vstd::prelude::*;
use vstd::string::StringExecFns;
use vstd::string::StrSliceExecFns;
use vstd::slice::slice_subrange;

verus! {

/// The length of the longest prefix of `s` that is free of `c`: the index of
/// the first `c`, or the length of `s` where there is none.
pub open spec fn position_of<T>(s: Seq<T>, c: T) -> nat
    decreases s.len(),
{
    if s.len() == 0 || s[0] == c {
        0
    } else {
        1 + position_of(s.drop_first(), c)
    }
}

/// The pieces of `s` between the occurrences of `sep`. There is always at
/// least one piece, and a piece is empty where two separators touch or one
/// stands at either end.
pub open spec fn split_on(s: Seq<char>, sep: char) -> Seq<Seq<char>>
    decreases s.len(),
{
    let p = position_of(s, sep);
    if p >= s.len() {
        seq![s]
    } else {
        seq![s.subrange(0, p as int)] + split_on(s.subrange(p as int + 1, s.len() as int), sep)
    }
}

/// The pieces of a list joined by `sep`, which stands between each two.
pub open spec fn join_with(pieces: Seq<Seq<char>>, sep: char) -> Seq<char>
    decreases pieces.len(),
{
    if pieces.len() == 0 {
        Seq::empty()
    } else if pieces.len() == 1 {
        pieces[0]
    } else {
        pieces[0] + seq![sep] + join_with(pieces.drop_first(), sep)
    }
}

/// The lines of `s`, each with the line feed that ends it. The last line has
/// none where the text does not end in one, and the empty text has no line.
pub open spec fn lines_with_ends<T>(s: Seq<T>, line_feed: T) -> Seq<Seq<T>>
    decreases s.len(),
{
    let p = position_of(s, line_feed);
    if s.len() == 0 {
        Seq::empty()
    } else if p >= s.len() {
        seq![s]
    } else {
        seq![s.subrange(0, p as int + 1)] + lines_with_ends(
            s.subrange(p as int + 1, s.len() as int),
            line_feed,
        )
    }
}

/// The parts of a list, one after the other.
pub open spec fn concat<T>(parts: Seq<Seq<T>>) -> Seq<T>
    decreases parts.len(),
{
    if parts.len() == 0 {
        Seq::empty()
    } else {
        concat(parts.drop_last()) + parts.last()
    }
}

/// A line without what ends it: a line feed, or a carriage return and a line
/// feed. A carriage return that no line feed follows stays.
pub open spec fn without_end(line: Seq<char>) -> Seq<char> {
    if line.len() >= 2 && line[line.len() - 2] == '\r' && line.last() == '\n' {
        line.subrange(0, line.len() - 2)
    } else if line.len() >= 1 && line.last() == '\n' {
        line.drop_last()
    } else {
        line
    }
}

/// The texts of a list of strings.
pub open spec fn texts(list: Seq<String>) -> Seq<Seq<char>> {
    Seq::new(list.len(), |i: int| list[i]@)
}

/// What `position_of` returns is a position in `s`, nothing before it is `c`,
/// and `c` stands there unless it is the end.
pub proof fn lemma_position_of<T>(s: Seq<T>, c: T)
    ensures
        position_of(s, c) <= s.len(),
        forall|j: int| 0 <= j < position_of(s, c) ==> s[j] != c,
        position_of(s, c) < s.len() ==> s[position_of(s, c) as int] == c,
    decreases s.len(),
{
    if s.len() != 0 && s[0] != c {
        let rest = s.drop_first();
        lemma_position_of(rest, c);
        assert forall|j: int| 0 <= j < position_of(s, c) implies s[j] != c by {
            if j > 0 {
                assert(s[j] == rest[j - 1]);
            }
        }
    }
}

/// The first position at which `c` stands, or the end, is what `position_of`
/// returns.
pub proof fn lemma_position_of_is<T>(s: Seq<T>, c: T, p: int)
    requires
        0 <= p <= s.len(),
        forall|j: int| 0 <= j < p ==> s[j] != c,
        p < s.len() ==> s[p] == c,
    ensures
        position_of(s, c) == p,
    decreases s.len(),
{
    if s.len() != 0 && s[0] != c {
        let rest = s.drop_first();
        assert forall|j: int| 0 <= j < p - 1 implies rest[j] != c by {
            assert(rest[j] == s[j + 1]);
        }
        lemma_position_of_is(rest, c, p - 1);
    }
}

/// Splitting loses nothing and finds every separator: there is at least one
/// piece, no piece holds the separator, and the pieces joined by the
/// separator are the text again.
pub proof fn lemma_split_on(s: Seq<char>, sep: char)
    ensures
        split_on(s, sep).len() >= 1,
        forall|i: int, j: int|
            0 <= i < split_on(s, sep).len() && 0 <= j < split_on(s, sep)[i].len() ==> split_on(
                s,
                sep,
            )[i][j] != sep,
        join_with(split_on(s, sep), sep) == s,
    decreases s.len(),
{
    let p = position_of(s, sep) as int;
    lemma_position_of(s, sep);
    let pieces = split_on(s, sep);
    if p < s.len() {
        let head = s.subrange(0, p);
        let tail = s.subrange(p + 1, s.len() as int);
        let rest = split_on(tail, sep);
        lemma_split_on(tail, sep);
        assert(pieces.drop_first() =~= rest);
        assert(pieces[0] == head);
    }
}

/// A separator between two texts parts their pieces: the pieces of the whole
/// are the pieces of the first text and then the pieces of the second.
pub proof fn lemma_split_on_concat(a: Seq<char>, b: Seq<char>, sep: char)
    ensures
        split_on(a + seq![sep] + b, sep) == split_on(a, sep) + split_on(b, sep),
    decreases a.len(),
{
    let s = a + seq![sep] + b;
    let p = position_of(a, sep) as int;
    lemma_position_of(a, sep);
    if p >= a.len() {
        assert forall|j: int| 0 <= j < a.len() implies s[j] != sep by {
            assert(s[j] == a[j]);
        }
        assert(s[a.len() as int] == sep);
        lemma_position_of_is(s, sep, a.len() as int);
        assert(s.subrange(0, a.len() as int) =~= a);
        assert(s.subrange(a.len() as int + 1, s.len() as int) =~= b);
        assert(split_on(s, sep) =~= seq![a] + split_on(b, sep));
        assert(split_on(a, sep) =~= seq![a]);
    } else {
        let rest = a.subrange(p + 1, a.len() as int);
        assert forall|j: int| 0 <= j < p implies s[j] != sep by {
            assert(s[j] == a[j]);
        }
        assert(s[p] == a[p]);
        lemma_position_of_is(s, sep, p);
        assert(s.subrange(0, p) =~= a.subrange(0, p));
        assert(s.subrange(p + 1, s.len() as int) =~= rest + seq![sep] + b);
        lemma_split_on_concat(rest, b, sep);
        assert(split_on(s, sep) =~= seq![a.subrange(0, p)] + (split_on(rest, sep) + split_on(
            b,
            sep,
        )));
        assert(split_on(a, sep) =~= seq![a.subrange(0, p)] + split_on(rest, sep));
    }
}

/// Joining is undone by splitting: pieces that do not hold the separator,
/// joined by it, split into the same pieces again.
pub proof fn lemma_split_of_join(pieces: Seq<Seq<char>>, sep: char)
    requires
        pieces.len() >= 1,
        forall|i: int, j: int|
            0 <= i < pieces.len() && 0 <= j < pieces[i].len() ==> pieces[i][j] != sep,
    ensures
        split_on(join_with(pieces, sep), sep) == pieces,
    decreases pieces.len(),
{
    let first = pieces[0];
    assert forall|j: int| 0 <= j < first.len() implies first[j] != sep by {
        assert(pieces[0][j] != sep);
    }
    lemma_position_of_is(first, sep, first.len() as int);
    assert(split_on(first, sep) =~= seq![first]);
    if pieces.len() > 1 {
        let rest = pieces.drop_first();
        assert forall|i: int, j: int|
            0 <= i < rest.len() && 0 <= j < rest[i].len() implies rest[i][j] != sep by {
            assert(rest[i] == pieces[i + 1]);
        }
        lemma_split_of_join(rest, sep);
        lemma_split_on_concat(first, join_with(rest, sep), sep);
        assert(seq![first] + rest =~= pieces);
    }
}

/// A part in front of a list of parts stands in front of what they make
/// together.
pub proof fn lemma_concat_first<T>(first: Seq<T>, rest: Seq<Seq<T>>)
    ensures
        concat(seq![first] + rest) == first + concat(rest),
    decreases rest.len(),
{
    let all = seq![first] + rest;
    if rest.len() == 0 {
        assert(all.drop_last() =~= Seq::<Seq<T>>::empty());
        assert(concat(all.drop_last()) =~= Seq::<T>::empty());
    } else {
        assert(all.drop_last() =~= seq![first] + rest.drop_last());
        assert(all.last() == rest.last());
        lemma_concat_first(first, rest.drop_last());
    }
}

/// What two lists of parts make, one after the other, is what the two lists
/// joined make.
pub proof fn lemma_concat_append<T>(first: Seq<Seq<T>>, second: Seq<Seq<T>>)
    ensures
        concat(first + second) == concat(first) + concat(second),
    decreases second.len(),
{
    if second.len() == 0 {
        assert(first + second =~= first);
        assert(concat(first) + concat(second) =~= concat(first));
    } else {
        assert((first + second).drop_last() =~= first + second.drop_last());
        assert((first + second).last() == second.last());
        lemma_concat_append(first, second.drop_last());
        assert(concat(first + second) =~= concat(first) + concat(second));
    }
}

/// The lines of a text lose nothing: one after the other they are the text
/// again. No line is empty, and a line feed stands at the end of every line
/// but the last, which may lack it, and nowhere else.
pub proof fn lemma_lines_with_ends<T>(s: Seq<T>, line_feed: T)
    ensures
        concat(lines_with_ends(s, line_feed)) == s,
        forall|i: int|
            0 <= i < lines_with_ends(s, line_feed).len() ==> (#[trigger] lines_with_ends(
                s,
                line_feed,
            )[i]).len() > 0,
        forall|i: int, j: int|
            0 <= i < lines_with_ends(s, line_feed).len() && 0 <= j < lines_with_ends(
                s,
                line_feed,
            )[i].len() - 1 ==> lines_with_ends(s, line_feed)[i][j] != line_feed,
        forall|i: int|
            0 <= i < lines_with_ends(s, line_feed).len() - 1 ==> (#[trigger] lines_with_ends(
                s,
                line_feed,
            )[i]).last() == line_feed,
    decreases s.len(),
{
    let p = position_of(s, line_feed) as int;
    lemma_position_of(s, line_feed);
    let lines = lines_with_ends(s, line_feed);
    if s.len() == 0 {
        assert(concat(lines) =~= s);
    } else if p >= s.len() {
        assert(concat(lines.drop_last()) =~= Seq::<T>::empty());
        assert(concat(lines) =~= s);
    } else {
        let head = s.subrange(0, p + 1);
        let tail = s.subrange(p + 1, s.len() as int);
        let rest = lines_with_ends(tail, line_feed);
        lemma_lines_with_ends(tail, line_feed);
        lemma_concat_first(head, rest);
    }
}

/// The characters of `s`, in order.
pub fn chars_of(s: &str) -> (chars: Vec<char>)
    ensures
        chars@ == s@,
{
    let mut chars: Vec<char> = Vec::new();
    for c in it: s.chars()
        invariant
            chars@ == it.seq().take(it.index() as int),
            it.seq() == s@,
    {
        chars.push(c);
    }
    chars
}

/// The index of the first `c` in `s`, or the length of `s` where there is
/// none.
pub fn find_char(s: &[char], c: char) -> (at: usize)
    ensures
        at == position_of(s@, c),
        at <= s.len(),
{
    let mut at: usize = 0;
    while at < s.len() && s[at] != c
        invariant
            at <= s.len(),
            forall|j: int| 0 <= j < at ==> s@[j] != c,
        decreases s.len() - at,
    {
        at += 1;
    }
    proof {
        lemma_position_of_is(s@, c, at as int);
    }
    at
}

/// The pieces of `text` between the occurrences of `sep`.
pub fn split(text: &str, sep: char) -> (pieces: Vec<String>)
    ensures
        texts(pieces@) == split_on(text@, sep),
{
    let chars = chars_of(text);
    let n = chars.len();
    let ghost all = split_on(text@, sep);
    let mut pieces: Vec<String> = Vec::new();
    let mut start: usize = 0;
    proof {
        assert(chars@.subrange(0, n as int) =~= chars@);
        assert(all.skip(0) =~= all);
    }
    loop
        invariant_except_break
            pieces@.len() < all.len(),
            split_on(chars@.subrange(start as int, n as int), sep) == all.skip(
                pieces@.len() as int,
            ),
        invariant
            n == chars.len(),
            chars@ == text@,
            start <= n,
            all == split_on(text@, sep),
            forall|i: int| 0 <= i < pieces@.len() ==> (#[trigger] pieces@[i])@ == all[i],
        ensures
            pieces@.len() == all.len(),
            forall|i: int| 0 <= i < pieces@.len() ==> (#[trigger] pieces@[i])@ == all[i],
        decreases n - start,
    {
        let rest = slice_subrange(chars.as_slice(), start, n);
        let len = find_char(rest, sep);
        let piece = text.substring_char(start, start + len);
        let ghost k = pieces@.len() as int;
        proof {
            lemma_position_of(rest@, sep);
            assert(piece@ =~= rest@.subrange(0, len as int));
            assert(all.skip(k)[0] == all[k]);
            if len < rest@.len() {
                assert(rest@.subrange(len + 1, rest@.len() as int) =~= chars@.subrange(
                    start + len + 1,
                    n as int,
                ));
                assert(all.skip(k).drop_first() =~= all.skip(k + 1));
                assert(split_on(rest@, sep).drop_first() =~= split_on(
                    rest@.subrange(len + 1, rest@.len() as int),
                    sep,
                ));
            } else {
                assert(rest@.subrange(0, len as int) =~= rest@);
                assert(all.skip(k).len() == 1);
            }
        }
        pieces.push(String::from_str(piece));
        if start + len == n {
            break ;
        }
        start = start + len + 1;
    }
    assert(texts(pieces@) =~= all);
    pieces
}

/// The lines of `text`, each with the line feed that ends it.
pub fn split_lines(text: &str) -> (lines: Vec<String>)
    ensures
        lines@.len() == lines_with_ends(text@, '\n').len(),
        forall|i: int|
            0 <= i < lines@.len() ==> (#[trigger] lines@[i])@ == lines_with_ends(text@, '\n')[i],
{
    let chars = chars_of(text);
    let n = chars.len();
    let mut lines: Vec<String> = Vec::new();
    let mut start: usize = 0;
    let ghost all = lines_with_ends(text@, '\n');
    assert(chars@.subrange(0, n as int) =~= chars@);
    while start < n
        invariant
            start <= n,
            n == chars.len(),
            chars@ == text@,
            all == lines_with_ends(text@, '\n'),
            lines@.len() <= all.len(),
            lines_with_ends(chars@.subrange(start as int, n as int), '\n') == all.skip(
                lines@.len() as int,
            ),
            forall|i: int| 0 <= i < lines@.len() ==> (#[trigger] lines@[i])@ == all[i],
        decreases n - start,
    {
        let rest = slice_subrange(chars.as_slice(), start, n);
        let at = find_char(rest, '\n');
        let end: usize = if at < rest.len() {
            start + at + 1
        } else {
            n
        };
        let line = text.substring_char(start, end);
        let ghost k = lines@.len() as int;
        proof {
            lemma_position_of(rest@, '\n');
            assert(lines_with_ends(rest@, '\n').len() >= 1);
            assert(all.skip(k)[0] == all[k]);
            if at < rest@.len() {
                assert(rest@.subrange(at + 1, rest@.len() as int) =~= chars@.subrange(
                    end as int,
                    n as int,
                ));
                assert(lines_with_ends(rest@, '\n').drop_first() =~= lines_with_ends(
                    rest@.subrange(at + 1, rest@.len() as int),
                    '\n',
                ));
            }
        }
        lines.push(String::from_str(line));
        start = end;
    }
    lines
}

/// `text` without the line feed, or the carriage return and the line feed,
/// that ends it.
pub fn strip_line_end(text: &str) -> (line: String)
    ensures
        line@ == without_end(text@),
{
    let chars = chars_of(text);
    let n = chars.len();
    if n >= 2 && chars[n - 2] == '\r' && chars[n - 1] == '\n' {
        String::from_str(text.substring_char(0, n - 2))
    } else if n >= 1 && chars[n - 1] == '\n' {
        String::from_str(text.substring_char(0, n - 1))
    } else {
        String::from_str(text)
    }
}

} // verus!
