//! Sequences of pairs that stand for ordered maps keyed by strings.

use vstd::prelude::*;

verus! {

/// Whether `key` is the key of the pair at index `i`.
pub open spec fn key_at<V>(pairs: Seq<(Seq<char>, V)>, key: Seq<char>, i: int) -> bool {
    0 <= i < pairs.len() && pairs[i].0 == key
}

/// Index of a pair whose key is `key`.
pub open spec fn position<V>(pairs: Seq<(Seq<char>, V)>, key: Seq<char>) -> Option<int> {
    if exists|i: int| key_at(pairs, key, i) {
        Some(choose|i: int| key_at(pairs, key, i))
    } else {
        None
    }
}

/// The value stored under `key`.
pub open spec fn lookup<V>(pairs: Seq<(Seq<char>, V)>, key: Seq<char>) -> Option<V> {
    match position(pairs, key) {
        Some(i) => Some(pairs[i].1),
        None => None,
    }
}

/// Whether no key occurs in two pairs.
pub open spec fn distinct_keys<V>(pairs: Seq<(Seq<char>, V)>) -> bool {
    forall|i: int, j: int|
        0 <= i < pairs.len() && 0 <= j < pairs.len() && i != j ==> pairs[i].0 != pairs[j].0
}

/// `pairs` after `value` was stored under `key`: in the place of the pair
/// that had the key, else at the end.
pub open spec fn inserted<V>(pairs: Seq<(Seq<char>, V)>, key: Seq<char>, value: V) -> Seq<
    (Seq<char>, V),
> {
    match position(pairs, key) {
        Some(i) => pairs.update(i, (key, value)),
        None => pairs.push((key, value)),
    }
}

/// With distinct keys, a key found at an index has that index as its position.
pub proof fn lemma_position_unique<V>(pairs: Seq<(Seq<char>, V)>, key: Seq<char>, i: int)
    requires
        distinct_keys(pairs),
        key_at(pairs, key, i),
    ensures
        position(pairs, key) == Some(i),
{
    let p = choose|p: int| key_at(pairs, key, p);
    assert(p == i);
}

/// A key that no pair has is at no position.
pub proof fn lemma_position_absent<V>(pairs: Seq<(Seq<char>, V)>, key: Seq<char>)
    requires
        forall|i: int| 0 <= i < pairs.len() ==> (#[trigger] pairs[i]).0 != key,
    ensures
        position(pairs, key) is None,
{
}

} // verus!
