//! Choosing one item of a list by chance, with the `rand` crate.
use vstd::prelude::*;
use rand::rngs::StdRng;
use rand::seq::SliceRandom;
use rand::SeedableRng;

verus! {

/// The index that the standard generator picks in a list of `len` items when
/// it is seeded with `seed`.
pub uninterp spec fn seeded_index(seed: u64, len: nat) -> nat;

/// `chosen` is the item of `items` at `index`, which lies within the list.
pub open spec fn is_item_at<T>(items: Seq<T>, index: nat, chosen: Option<&T>) -> bool {
    index < items.len() && chosen == Some(&items[index as int])
}

/// `chosen` is one of `items`.
pub open spec fn is_one_of<T>(items: Seq<T>, chosen: Option<&T>) -> bool {
    exists|i: int| 0 <= i < items.len() && chosen == Some(&items[i])
}

/// Picks one of `items` with the standard generator seeded with `seed`.
///
/// Trusted: `rand::seq::SliceRandom::choose` with the `rand::rngs::StdRng`
/// of `rand::SeedableRng::seed_from_u64`. An empty list gives nothing; of a
/// list that is not empty it gives the item at an index within the list, and
/// that index depends on the seed and on the length alone.
#[verifier::external_body]
pub(crate) fn choose_seeded<T>(items: &[T], seed: u64) -> (chosen: Option<&T>)
    ensures
        items@.len() == 0 ==> chosen is None,
        items@.len() != 0 ==> is_item_at(items@, seeded_index(seed, items@.len()), chosen),
{
    items.choose(&mut StdRng::seed_from_u64(seed))
}

/// Picks one of `items` with the standard generator seeded by the system.
///
/// Trusted: `rand::seq::SliceRandom::choose` with the `rand::rngs::StdRng`
/// of `rand::SeedableRng::from_entropy`, which stops the program where the
/// system has no entropy to give. An empty list gives nothing; of a list
/// that is not empty it gives one of the items, and nothing is claimed of
/// which.
#[verifier::external_body]
pub(crate) fn choose_unseeded<T>(items: &[T]) -> (chosen: Option<&T>)
    ensures
        items@.len() == 0 ==> chosen is None,
        items@.len() != 0 ==> is_one_of(items@, chosen),
{
    items.choose(&mut StdRng::from_entropy())
}

} // verus!
