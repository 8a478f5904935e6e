//! The order of the dictionary on texts, which is the order that strings
//! have in the standard library.
use vstd::prelude::*;
use crate::text::chars_of;

verus! {

/// How two texts stand to each other in the order of the dictionary.
#[derive(Debug, Clone, Copy, PartialEq, Eq, Structural)]
pub enum Order {
    Before,
    Same,
    After,
}

/// `a` comes before `b` in the order of the dictionary, by the code of each
/// character: at the first place where they differ `a` has the smaller
/// character, or `a` ends before `b` does.
pub open spec fn precedes(a: Seq<char>, b: Seq<char>) -> bool {
    exists|k: int|
        0 <= k <= a.len() && k <= b.len() && #[trigger] a.take(k) == b.take(k) && (if k
            == a.len() {
            k < b.len()
        } else {
            k < b.len() && a[k] < b[k]
        })
}

/// The order of the dictionary is strict: a text that comes before another
/// is not the same text and does not come after it. So of two texts exactly
/// one holds: the first comes before the second, they are the same, or the
/// first comes after the second.
pub proof fn lemma_precedes_is_strict(a: Seq<char>, b: Seq<char>)
    ensures
        precedes(a, b) ==> a != b && !precedes(b, a),
{
    if precedes(a, b) {
        let k = choose|k: int|
            0 <= k <= a.len() && k <= b.len() && #[trigger] a.take(k) == b.take(k) && (if k
                == a.len() {
                k < b.len()
            } else {
                k < b.len() && a[k] < b[k]
            });
        if precedes(b, a) {
            let m = choose|m: int|
                0 <= m <= b.len() && m <= a.len() && #[trigger] b.take(m) == a.take(m) && (if m
                    == b.len() {
                    m < a.len()
                } else {
                    m < a.len() && b[m] < a[m]
                });
            if k < m {
                assert(b.take(m)[k] == a.take(m)[k]);
            } else if m < k {
                assert(a.take(k)[m] == b.take(k)[m]);
            }
        }
    }
}

/// The order of the dictionary is transitive.
pub proof fn lemma_precedes_is_transitive(a: Seq<char>, b: Seq<char>, c: Seq<char>)
    requires
        precedes(a, b),
        precedes(b, c),
    ensures
        precedes(a, c),
{
    let k = choose|k: int|
        0 <= k <= a.len() && k <= b.len() && #[trigger] a.take(k) == b.take(k) && (if k
            == a.len() {
            k < b.len()
        } else {
            k < b.len() && a[k] < b[k]
        });
    let m = choose|m: int|
        0 <= m <= b.len() && m <= c.len() && #[trigger] b.take(m) == c.take(m) && (if m
            == b.len() {
            m < c.len()
        } else {
            m < c.len() && b[m] < c[m]
        });
    let w = if k <= m {
        k
    } else {
        m
    };
    assert(a.take(w) =~= c.take(w));
    if k < m {
        assert(b.take(m)[k] == c.take(m)[k]);
    } else if m < k {
        assert(a.take(k)[m] == b.take(k)[m]);
    }
}

/// Compares two texts in the order of the dictionary.
pub fn compare(a: &str, b: &str) -> (order: Order)
    ensures
        match order {
            Order::Before => precedes(a@, b@),
            Order::Same => a@ == b@,
            Order::After => precedes(b@, a@),
        },
{
    let left = chars_of(a);
    let right = chars_of(b);
    let mut k: usize = 0;
    while k < left.len() && k < right.len()
        invariant
            k <= left.len(),
            k <= right.len(),
            left@ == a@,
            right@ == b@,
            left@.take(k as int) == right@.take(k as int),
        decreases left.len() - k,
    {
        if left[k] < right[k] {
            return Order::Before;
        }
        if left[k] > right[k] {
            return Order::After;
        }
        k += 1;
    }
    if k < right.len() {
        Order::Before
    } else if k < left.len() {
        Order::After
    } else {
        assert(left@.take(k as int) =~= left@);
        Order::Same
    }
}

} // verus!
