//! The hash map that holds the components of a UI and the hash set of its tree roots.
//!
//! Both are the collections of the `metrohash` crate: the hash map and the hash set of the
//! standard library with the MetroHash hasher. Their contents are what their views say; the
//! functions here say what the methods of the collections do to them.
use metrohash::{MetroHashMap, MetroHashSet};
use vstd::prelude::*;
use crate::component::Component;

verus! {

/// The hasher of the `metrohash` crate, `metrohash::MetroHash64`.
#[verifier::external_type_specification]
#[verifier::external_body]
pub struct ExMetroHash64(metrohash::MetroHash64);

/// The builder of default hashers, `std::hash::BuildHasherDefault`, with which the maps
/// and sets of the `metrohash` crate are made.
#[verifier::external_type_specification]
#[verifier::external_body]
#[verifier::reject_recursive_types(H)]
pub struct ExBuildHasherDefault<H>(std::hash::BuildHasherDefault<H>);

/// Calls `MetroHashMap::default`, which gives a map without entries.
#[verifier::external_body]
pub(crate) fn components_new() -> (store: MetroHashMap<i32, Component>)
    ensures
        store@ =~= Map::empty(),
{
    MetroHashMap::default()
}

/// Calls `MetroHashMap::get`, which gives the value that is stored for a key.
#[verifier::external_body]
pub(crate) fn components_get<'a>(map: &'a MetroHashMap<i32, Component>, id: i32) -> (found:
    Option<&'a Component>)
    ensures
        match found {
            Some(component) => map@.contains_key(id) && *component == map@[id],
            None => !map@.contains_key(id),
        },
{
    map.get(&id)
}

/// Calls `MetroHashMap::get_mut`, which gives the value that is stored for a key, to be
/// changed in place. The other entries stay as they are.
#[verifier::external_body]
pub(crate) fn components_get_mut<'a>(map: &'a mut MetroHashMap<i32, Component>, id: i32) -> (found:
    Option<&'a mut Component>)
    ensures
        match found {
            Some(component) => old(map)@.contains_key(id) && *component == old(map)@[id]
                && final(map)@ == old(map)@.insert(id, *final(component)),
            None => !old(map)@.contains_key(id) && final(map)@ == old(map)@,
        },
{
    map.get_mut(&id)
}

/// Calls `MetroHashMap::insert`, which stores a value for a key, in place of the value
/// that the key had before.
#[verifier::external_body]
pub(crate) fn components_insert(map: &mut MetroHashMap<i32, Component>, id: i32, component: Component)
    ensures
        final(map)@ == old(map)@.insert(id, component),
{
    map.insert(id, component);
}

/// Calls `MetroHashSet::default`, which gives a set without elements.
#[verifier::external_body]
pub(crate) fn roots_new() -> (roots: MetroHashSet<i32>)
    ensures
        roots@ =~= Set::empty(),
{
    MetroHashSet::default()
}

/// Calls `MetroHashSet::insert`, which adds an element to the set.
#[verifier::external_body]
pub(crate) fn roots_insert(set: &mut MetroHashSet<i32>, id: i32)
    ensures
        final(set)@ == old(set)@.insert(id),
{
    set.insert(id);
}

/// Calls `MetroHashSet::contains`, which tells whether an element is in the set.
#[verifier::external_body]
pub(crate) fn roots_contains(set: &MetroHashSet<i32>, id: i32) -> (found: bool)
    ensures
        found == set@.contains(id),
{
    set.contains(&id)
}

} // verus!
