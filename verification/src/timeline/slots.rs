//! The index from the number of a node to the place where the node is kept.

use vstd::prelude::*;
use indexmap::IndexMap;

verus! {

/// `indexmap::IndexMap`: a map that keeps its entries in the order in which
/// they were inserted. Its contents are known by `slots` only.
#[verifier::external_type_specification]
#[verifier::external_body]
#[verifier::reject_recursive_types(K)]
#[verifier::reject_recursive_types(V)]
#[verifier::reject_recursive_types(S)]
pub struct ExIndexMap<K, V, S>(IndexMap<K, V, S>);

/// What an index holds: the place of each number that has one.
pub uninterp spec fn slots(index: IndexMap<u64, usize>) -> Map<u64, usize>;

/// `IndexMap::new`: an index that holds nothing.
#[verifier::external_body]
pub(crate) fn new_index() -> (index: IndexMap<u64, usize>)
    ensures
        slots(index) =~= Map::empty(),
{
    IndexMap::new()
}

/// `IndexMap::insert`: afterwards `key` has the place `slot` and every other
/// number has the place it had; what comes back is the place that `key` had
/// before, if it had one.
#[verifier::external_body]
pub(crate) fn insert_slot(
    index: &mut IndexMap<u64, usize>,
    key: u64,
    slot: usize,
) -> (before: Option<usize>)
    ensures
        slots(*final(index)) == slots(*old(index)).insert(key, slot),
        before == (if slots(*old(index)).contains_key(key) { Some(slots(*old(index))[key]) } else { None }),
{
    index.insert(key, slot)
}

/// `IndexMap::get`: the place of `key`, if it has one.
#[verifier::external_body]
pub(crate) fn slot_of(index: &IndexMap<u64, usize>, key: u64) -> (slot: Option<usize>)
    ensures
        slot == (if slots(*index).contains_key(key) { Some(slots(*index)[key]) } else { None }),
{
    index.get(&key).copied()
}

} // verus!
