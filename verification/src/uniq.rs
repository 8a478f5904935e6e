//! Counting how often each line occurs in a text.
use vstd::prelude::*;
use vstd::string::StringExecFns;
use crate::align::{right_aligned, pad_left};
use crate::numbers::{decimal_digits, to_decimal};
use crate::order::{
    Order, compare, precedes, lemma_precedes_is_strict, lemma_precedes_is_transitive,
};
use crate::text::texts;

verus! {

/// A line and the number of times that it occurs.
#[derive(Debug)]
pub struct Tally {
    pub line: String,
    pub count: usize,
}

/// How often `line` stands among `lines`.
pub open spec fn occurrences_of(lines: Seq<Seq<char>>, line: Seq<char>) -> nat
    decreases lines.len(),
{
    if lines.len() == 0 {
        0
    } else {
        occurrences_of(lines.drop_last(), line) + if lines.last() == line {
            1nat
        } else {
            0nat
        }
    }
}

/// The entries stand in the order of the dictionary, each before the next,
/// so that no line has two entries.
pub open spec fn is_sorted(entries: Seq<Tally>) -> bool {
    forall|i: int, j: int|
        0 <= i < j < entries.len() ==> precedes(
            (#[trigger] entries[i]).line@,
            (#[trigger] entries[j]).line@,
        )
}

/// One of `entries` is for `line`.
pub open spec fn has_entry(entries: Seq<Tally>, line: Seq<char>) -> bool {
    exists|i: int| 0 <= i < entries.len() && (#[trigger] entries[i]).line@ == line
}

/// `entries` is the tally of `lines`: one entry for each line that occurs,
/// with the number of times that it occurs, in the order of the dictionary.
pub open spec fn is_tally_of(entries: Seq<Tally>, lines: Seq<Seq<char>>) -> bool {
    &&& is_sorted(entries)
    &&& forall|i: int|
        0 <= i < entries.len() ==> (#[trigger] entries[i]).count == occurrences_of(
            lines,
            entries[i].line@,
        ) && entries[i].count > 0
    &&& forall|k: int| 0 <= k < lines.len() ==> has_entry(entries, #[trigger] lines[k])
}

/// A line occurs no more often than there are lines.
pub proof fn lemma_occurrences_bounded(lines: Seq<Seq<char>>, line: Seq<char>)
    ensures
        occurrences_of(lines, line) <= lines.len(),
    decreases lines.len(),
{
    if lines.len() > 0 {
        lemma_occurrences_bounded(lines.drop_last(), line);
    }
}

/// Counts how often each of `lines` occurs.
pub fn tally(lines: &[String]) -> (entries: Vec<Tally>)
    ensures
        is_tally_of(entries@, texts(lines@)),
{
    let ghost all = texts(lines@);
    let mut entries: Vec<Tally> = Vec::new();
    let mut k: usize = 0;
    while k < lines.len()
        invariant
            k <= lines.len(),
            all == texts(lines@),
            is_tally_of(entries@, all.take(k as int)),
        decreases lines.len() - k,
    {
        let line = &lines[k];
        let ghost seen = all.take(k as int);
        let ghost now = all.take(k + 1);
        let ghost before = entries@;
        proof {
            assert(now.drop_last() =~= seen);
        }
        let mut p: usize = 0;
        let mut order = Order::After;
        while p < entries.len()
            invariant
                p <= entries.len(),
                entries@ == before,
                forall|j: int| 0 <= j < p ==> precedes((#[trigger] entries@[j]).line@, line@),
                p == entries.len() ==> order == Order::After,
            ensures
                p <= entries.len(),
                entries@ == before,
                forall|j: int| 0 <= j < p ==> precedes((#[trigger] entries@[j]).line@, line@),
                p < entries.len() ==> match order {
                    Order::Same => entries@[p as int].line@ == line@,
                    Order::After => precedes(line@, entries@[p as int].line@),
                    Order::Before => false,
                },
                p == entries.len() ==> order == Order::After,
            decreases entries.len() - p,
        {
            order = compare(entries[p].line.as_str(), line.as_str());
            match order {
                Order::Before => {
                    p += 1;
                    order = Order::After;
                },
                _ => {
                    break ;
                },
            }
        }
        if p < entries.len() && order == Order::Same {
            proof {
                lemma_occurrences_bounded(seen, line@);
            }
            let count = entries[p].count;
            entries.set(p, Tally { line: line.clone(), count: count + 1 });
            proof {
                assert forall|i: int| 0 <= i < entries@.len() implies (#[trigger] entries@[i]).count
                    == occurrences_of(now, entries@[i].line@) && entries@[i].count > 0 by {
                    if i != p {
                        assert(before[i].line@ != line@) by {
                            if i < p {
                                lemma_precedes_is_strict(before[i].line@, before[p as int].line@);
                            } else {
                                lemma_precedes_is_strict(before[p as int].line@, before[i].line@);
                            }
                        }
                    }
                }
                assert forall|m: int| 0 <= m < now.len() implies has_entry(
                    entries@,
                    #[trigger] now[m],
                ) by {
                    if m < k {
                        let i = choose|i: int|
                            0 <= i < before.len() && (#[trigger] before[i]).line@ == seen[m];
                        assert(entries@[i].line@ == now[m]);
                    } else {
                        assert(entries@[p as int].line@ == now[m]);
                    }
                }
            }
        } else {
            entries.insert(p, Tally { line: line.clone(), count: 1 });
            proof {
                assert forall|i: int| 0 <= i < before.len() implies (#[trigger] before[i]).line@
                    != line@ by {
                    if i < p {
                        lemma_precedes_is_strict(before[i].line@, line@);
                    } else {
                        if i > p {
                            lemma_precedes_is_transitive(
                                line@,
                                before[p as int].line@,
                                before[i].line@,
                            );
                        }
                        lemma_precedes_is_strict(line@, before[i].line@);
                    }
                }
                assert(occurrences_of(seen, line@) == 0) by {
                    lemma_absent_line(seen, line@, before);
                }
                assert forall|m: int| 0 <= m < now.len() implies has_entry(
                    entries@,
                    #[trigger] now[m],
                ) by {
                    if m < k {
                        let i = choose|i: int|
                            0 <= i < before.len() && (#[trigger] before[i]).line@ == seen[m];
                        if i < p {
                            assert(entries@[i].line@ == now[m]);
                        } else {
                            assert(entries@[i + 1].line@ == now[m]);
                        }
                    } else {
                        assert(entries@[p as int].line@ == now[m]);
                    }
                }
                assert(is_sorted(entries@)) by {
                    assert forall|i: int, j: int| 0 <= i < j < entries@.len() implies precedes(
                        (#[trigger] entries@[i]).line@,
                        (#[trigger] entries@[j]).line@,
                    ) by {
                        if i == p && j - 1 > p {
                            lemma_precedes_is_transitive(
                                line@,
                                before[p as int].line@,
                                before[j - 1].line@,
                            );
                        }
                    }
                }
            }
        }
        k += 1;
    }
    assert(all.take(k as int) =~= all);
    entries
}

/// A line that has no entry in the tally of `lines` does not occur in them.
proof fn lemma_absent_line(lines: Seq<Seq<char>>, line: Seq<char>, entries: Seq<Tally>)
    requires
        forall|k: int| 0 <= k < lines.len() ==> has_entry(entries, #[trigger] lines[k]),
        forall|i: int| 0 <= i < entries.len() ==> (#[trigger] entries[i]).line@ != line,
    ensures
        occurrences_of(lines, line) == 0,
    decreases lines.len(),
{
    if lines.len() > 0 {
        let rest = lines.drop_last();
        lemma_absent_line(rest, line, entries);
    }
}

/// The counts of all entries together.
pub open spec fn total_count(entries: Seq<Tally>) -> nat
    decreases entries.len(),
{
    if entries.len() == 0 {
        0
    } else {
        total_count(entries.drop_last()) + entries.last().count as nat
    }
}

/// `lines` without every line that is `line`.
pub open spec fn lines_without(lines: Seq<Seq<char>>, line: Seq<char>) -> Seq<Seq<char>>
    decreases lines.len(),
{
    if lines.len() == 0 {
        Seq::empty()
    } else if lines.last() == line {
        lines_without(lines.drop_last(), line)
    } else {
        lines_without(lines.drop_last(), line).push(lines.last())
    }
}

/// `line` is one of `lines`.
pub open spec fn is_line_of(lines: Seq<Seq<char>>, line: Seq<char>) -> bool {
    exists|m: int| 0 <= m < lines.len() && #[trigger] lines[m] == line
}

/// Taking out one line takes out as many lines as it occurs, and what stays
/// is another line that was there.
proof fn lemma_lines_without(lines: Seq<Seq<char>>, line: Seq<char>)
    ensures
        lines_without(lines, line).len() + occurrences_of(lines, line) == lines.len(),
        forall|k: int|
            0 <= k < lines_without(lines, line).len() ==> is_line_of(
                lines,
                #[trigger] lines_without(lines, line)[k],
            ) && lines_without(lines, line)[k] != line,
    decreases lines.len(),
{
    if lines.len() > 0 {
        let rest = lines.drop_last();
        lemma_lines_without(rest, line);
        let kept = lines_without(lines, line);
        assert forall|k: int| 0 <= k < kept.len() implies is_line_of(lines, #[trigger] kept[k])
            && kept[k] != line by {
            if lines.last() != line && k == kept.len() - 1 {
                assert(lines[lines.len() - 1] == kept[k]);
            } else {
                assert(kept[k] == lines_without(rest, line)[k]);
                assert(is_line_of(rest, kept[k]));
                let m = choose|m: int| 0 <= m < rest.len() && #[trigger] rest[m] == kept[k];
                assert(lines[m] == kept[k]);
            }
        }
    }
}

/// Taking out one line leaves how often any other line occurs.
proof fn lemma_lines_without_other(lines: Seq<Seq<char>>, line: Seq<char>, other: Seq<char>)
    requires
        other != line,
    ensures
        occurrences_of(lines_without(lines, line), other) == occurrences_of(lines, other),
    decreases lines.len(),
{
    if lines.len() > 0 {
        lemma_lines_without_other(lines.drop_last(), line, other);
        if lines.last() != line {
            assert(lines_without(lines, line).drop_last() =~= lines_without(
                lines.drop_last(),
                line,
            ));
        }
    }
}

/// A tally counts every line once: its counts together are the number of
/// lines.
pub proof fn lemma_tally_counts_every_line(entries: Seq<Tally>, lines: Seq<Seq<char>>)
    requires
        is_tally_of(entries, lines),
    ensures
        total_count(entries) == lines.len(),
    decreases entries.len(),
{
    if entries.len() == 0 {
        if lines.len() > 0 {
            assert(has_entry(entries, lines[0]));
        }
    } else {
        let last = entries.last();
        let others = entries.drop_last();
        let rest = lines_without(lines, last.line@);
        lemma_lines_without(lines, last.line@);
        assert forall|i: int| 0 <= i < others.len() implies (#[trigger] others[i]).line@
            != last.line@ by {
            assert(others[i] == entries[i]);
            lemma_precedes_is_strict(entries[i].line@, entries[entries.len() - 1].line@);
        }
        assert(is_tally_of(others, rest)) by {
            assert forall|i: int, j: int| 0 <= i < j < others.len() implies precedes(
                (#[trigger] others[i]).line@,
                (#[trigger] others[j]).line@,
            ) by {
                assert(others[i] == entries[i] && others[j] == entries[j]);
            }
            assert forall|i: int| 0 <= i < others.len() implies (#[trigger] others[i]).count
                == occurrences_of(rest, others[i].line@) && others[i].count > 0 by {
                assert(others[i] == entries[i]);
                lemma_lines_without_other(lines, last.line@, others[i].line@);
            }
            assert forall|k: int| 0 <= k < rest.len() implies has_entry(
                others,
                #[trigger] rest[k],
            ) by {
                assert(is_line_of(lines, rest[k]));
                let m = choose|m: int| 0 <= m < lines.len() && #[trigger] lines[m] == rest[k];
                assert(has_entry(entries, lines[m]));
                let i = choose|i: int|
                    0 <= i < entries.len() && (#[trigger] entries[i]).line@ == lines[m];
                assert(i < others.len());
                assert(others[i].line@ == rest[k]);
            }
        }
        lemma_tally_counts_every_line(others, rest);
    }
}

/// One entry as it is shown: the line, behind its count where counts are
/// wanted. The count is set to the right of four characters and a blank
/// follows it.
pub open spec fn entry_text(entry: Tally, count: bool) -> Seq<char> {
    if count {
        right_aligned(decimal_digits(entry.count as nat), 4) + " "@ + entry.line@
    } else {
        entry.line@
    }
}

/// The entries as they are shown, with a line feed between each two.
pub open spec fn tally_text(entries: Seq<Tally>, count: bool) -> Seq<char>
    decreases entries.len(),
{
    if entries.len() == 0 {
        Seq::empty()
    } else if entries.len() == 1 {
        entry_text(entries[0], count)
    } else {
        tally_text(entries.drop_last(), count) + "\n"@ + entry_text(entries.last(), count)
    }
}

/// Shows a tally.
pub fn format_tally(entries: &[Tally], count: bool) -> (text: String)
    ensures
        text@ == tally_text(entries@, count),
{
    let mut text = String::new();
    let mut i: usize = 0;
    while i < entries.len()
        invariant
            i <= entries.len(),
            text@ == tally_text(entries@.take(i as int), count),
        decreases entries.len() - i,
    {
        proof {
            assert(entries@.take(i + 1).drop_last() =~= entries@.take(i as int));
        }
        if i > 0 {
            text.append("\n");
        }
        if count {
            text.append(pad_left(to_decimal(entries[i].count as u64).as_str(), 4).as_str());
            text.append(" ");
        }
        text.append(entries[i].line.as_str());
        i += 1;
    }
    assert(entries@.take(i as int) =~= entries@);
    text
}

} // verus!
