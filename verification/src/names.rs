//! The index from names to slots.

use vstd::prelude::*;

verus! {

/// The slot of each name, kept in the hash map of the host framework.
#[verifier::external_body]
#[derive(Debug)]
pub struct NameMap {
    map: bevy::utils::HashMap<String, usize>,
}

/// What a name map holds: the slot filed under each name.
pub uninterp spec fn name_map_entries(map: NameMap) -> Map<Seq<char>, usize>;

/// A map without entries.
///
/// Calls `Default::default` of `bevy::utils::HashMap`, which builds an empty
/// table with a fresh hasher; the contract claims that it holds nothing.
#[verifier::external_body]
pub(crate) fn name_map_new() -> (made: NameMap)
    ensures
        name_map_entries(made) == (Map::<Seq<char>, usize>::empty()),
{
    NameMap { map: bevy::utils::HashMap::default() }
}

/// The slot filed under `name`, if any.
///
/// Calls `HashMap::get`, which looks the key up by its hash and by equality
/// of the strings; the contract claims that it finds exactly what is filed
/// under a name of the same characters.
#[verifier::external_body]
pub(crate) fn name_map_get(map: &NameMap, name: &str) -> (slot: Option<usize>)
    ensures
        slot == if name_map_entries(*map).contains_key(name@) {
            Some(name_map_entries(*map)[name@])
        } else {
            None::<usize>
        },
{
    map.map.get(name).copied()
}

/// Files `slot` under `name`, in place of what was filed there, and returns
/// what was.
///
/// Calls `HashMap::insert`, which replaces the value of a key that is
/// present and adds the pair otherwise; the contract claims just that, and
/// that no other entry changes.
#[verifier::external_body]
pub(crate) fn name_map_insert(map: &mut NameMap, name: String, slot: usize) -> (previous: Option<
    usize,
>)
    ensures
        name_map_entries(*final(map)) == name_map_entries(*old(map)).insert(name@, slot),
        previous == if name_map_entries(*old(map)).contains_key(name@) {
            Some(name_map_entries(*old(map))[name@])
        } else {
            None::<usize>
        },
{
    map.map.insert(name, slot)
}

/// Takes out what is filed under `name` and returns it.
///
/// Calls `HashMap::remove`, which erases the entry of the key if there is
/// one; the contract claims that this entry and no other leaves the map.
#[verifier::external_body]
pub(crate) fn name_map_remove(map: &mut NameMap, name: &str) -> (removed: Option<usize>)
    ensures
        name_map_entries(*final(map)) == name_map_entries(*old(map)).remove(name@),
        removed == if name_map_entries(*old(map)).contains_key(name@) {
            Some(name_map_entries(*old(map))[name@])
        } else {
            None::<usize>
        },
{
    map.map.remove(name)
}

} // verus!
