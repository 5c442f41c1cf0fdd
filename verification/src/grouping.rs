//! Grouping keyed values and ordering the groups, as `itertools` does it.

use std::collections::HashMap;
use itertools::Itertools;
use vstd::prelude::*;

verus! {

/// The values that `pairs` gives for `key`, in the order of `pairs`.
pub open spec fn values_with_key(pairs: Seq<(u64, usize)>, key: u64) -> Seq<usize>
    decreases pairs.len(),
{
    if pairs.len() == 0 {
        Seq::empty()
    } else if pairs.last().0 == key {
        values_with_key(pairs.drop_last(), key).push(pairs.last().1)
    } else {
        values_with_key(pairs.drop_last(), key)
    }
}

/// `Itertools::into_group_map` on the pairs of a vector.
///
/// Trusted: the map has a key exactly where some pair has it, and under each
/// key the values of the pairs with that key, in the order of the pairs.
#[verifier::external_body]
pub(crate) fn group_by_key(pairs: Vec<(u64, usize)>) -> (groups: HashMap<u64, Vec<usize>>)
    ensures
        forall|key: u64| #[trigger]
            groups@.contains_key(key) <==> values_with_key(pairs@, key).len() > 0,
        forall|key: u64| #[trigger]
            groups@.contains_key(key) ==> groups@[key]@ == values_with_key(pairs@, key),
{
    pairs.into_iter().into_group_map()
}

/// `Itertools::sorted_by_key` on the entries of a map, ordered by their key.
///
/// Trusted: the vector holds each entry of the map once, and the keys
/// ascend.
#[verifier::external_body]
pub(crate) fn sorted_by_key(groups: HashMap<u64, Vec<usize>>) -> (sorted: Vec<(u64, Vec<usize>)>)
    ensures
        forall|i: int, j: int|
            0 <= i < j < sorted@.len() ==> (#[trigger] sorted@[i]).0 < (#[trigger] sorted@[j]).0,
        forall|i: int|
            0 <= i < sorted@.len() ==> groups@.contains_key((#[trigger] sorted@[i]).0)
                && groups@[sorted@[i].0] == sorted@[i].1,
        forall|key: u64| #[trigger]
            groups@.contains_key(key) ==> exists|i: int|
                0 <= i < sorted@.len() && (#[trigger] sorted@[i]).0 == key,
{
    groups.into_iter().sorted_by_key(|group| group.0)
}

} // verus!
