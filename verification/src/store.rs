//! The ordered map that holds the chain: `indexmap::IndexMap`, keyed by the
//! bytes of a block's hash, with insertion order as chain order.
//!
//! Nothing here is proved. Each function states what the map's own
//! documentation and source say of the method it calls.

use crate::block::Blocko;
use indexmap::IndexMap;
use vstd::prelude::*;

verus! {

#[verifier::external_type_specification]
#[verifier::external_body]
#[verifier::reject_recursive_types(K)]
#[verifier::reject_recursive_types(V)]
#[verifier::reject_recursive_types(S)]
pub struct ExIndexMap<K, V, S>(IndexMap<K, V, S>);

/// The key-value pairs of the map, in its order.
pub uninterp spec fn entries(map: IndexMap<Vec<u8>, Blocko>) -> Seq<(Seq<u8>, Blocko)>;

/// Whether some entry is stored under `key`.
pub open spec fn has_key(pairs: Seq<(Seq<u8>, Blocko)>, key: Seq<u8>) -> bool {
    exists|i: int| 0 <= i < pairs.len() && (#[trigger] pairs[i]).0 == key
}

/// `IndexMap::new`: a map with no entries.
#[verifier::external_body]
pub(crate) fn map_new() -> (map: IndexMap<Vec<u8>, Blocko>)
    ensures
        entries(map) == Seq::<(Seq<u8>, Blocko)>::empty(),
{
    IndexMap::new()
}

/// `IndexMap::len`: the number of entries.
#[verifier::external_body]
pub(crate) fn map_len(map: &IndexMap<Vec<u8>, Blocko>) -> (n: usize)
    ensures
        n == entries(*map).len(),
{
    map.len()
}

/// `IndexMap::insert`. Where an entry with an equal key exists, that entry
/// keeps its key and its place, takes the new value, and the value it held
/// is returned. Otherwise the pair becomes the last entry and nothing is
/// returned.
///
/// The call is taken not to unwind: hashing and comparing byte vectors
/// cannot panic, and a map that outgrows memory is not modelled.
#[verifier::external_body]
pub(crate) fn map_insert(map: &mut IndexMap<Vec<u8>, Blocko>, key: Vec<u8>, value: Blocko) -> (replaced:
    Option<Blocko>)
    ensures
        match replaced {
            Some(before) => exists|i: int|
                0 <= i < entries(*old(map)).len() && (#[trigger] entries(*old(map))[i]).0 == key@
                    && entries(*old(map))[i].1 == before && entries(*final(map)) == entries(
                    *old(map),
                ).update(i, (key@, value)),
            None => !has_key(entries(*old(map)), key@) && entries(*final(map)) == entries(
                *old(map),
            ).push((key@, value)),
        },
    no_unwind
{
    map.insert(key, value)
}

/// `IndexMap::get_index`: the entry at a position, if the position is below
/// the length.
#[verifier::external_body]
pub(crate) fn map_get_index(map: &IndexMap<Vec<u8>, Blocko>, index: usize) -> (entry: Option<
    (&Vec<u8>, &Blocko),
>)
    ensures
        match entry {
            Some((key, value)) => index < entries(*map).len() && key@ == entries(*map)[index as int].0
                && *value == entries(*map)[index as int].1,
            None => index >= entries(*map).len(),
        },
{
    map.get_index(index)
}

/// `IndexMap::last`: the entry in the last place, if there is any.
#[verifier::external_body]
pub(crate) fn map_last(map: &IndexMap<Vec<u8>, Blocko>) -> (entry: Option<(&Vec<u8>, &Blocko)>)
    ensures
        match entry {
            Some((key, value)) => entries(*map).len() > 0 && key@ == entries(*map).last().0
                && *value == entries(*map).last().1,
            None => entries(*map).len() == 0,
        },
{
    map.last()
}

/// `IndexMap::get_index_of`: a position at which `key` is stored, if it is
/// stored at all.
#[verifier::external_body]
pub(crate) fn map_get_index_of(map: &IndexMap<Vec<u8>, Blocko>, key: &Vec<u8>) -> (position: Option<
    usize,
>)
    ensures
        match position {
            Some(i) => i < entries(*map).len() && entries(*map)[i as int].0 == key@,
            None => !has_key(entries(*map), key@),
        },
{
    map.get_index_of(key)
}

} // verus!
