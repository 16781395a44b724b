//! The assignment of locals to links, kept in a `hashbrown::HashMap`.

use vstd::prelude::*;

use crate::{graph::Link, tree::expression::Local};

verus! {

/// A map from links to the locals assigned to them, kept by each link's
/// packed key.
#[verifier::external_body]
pub struct LocalMap {
    map: hashbrown::HashMap<u64, Local>,
}

/// The entries of a local map, by packed link key.
pub uninterp spec fn local_map_entries(map: LocalMap) -> Map<u64, Local>;

impl View for LocalMap {
    type V = Map<u64, Local>;

    open spec fn view(&self) -> Map<u64, Local> {
        local_map_entries(*self)
    }
}

/// Creates an empty map with `hashbrown::HashMap::new`.
///
/// Trusted: a new `hashbrown` map holds no entry.
#[verifier::external_body]
fn empty_map() -> (map: LocalMap)
    ensures
        local_map_entries(map) =~= Map::empty(),
{
    LocalMap { map: hashbrown::HashMap::new() }
}

/// Removes every entry with `hashbrown::HashMap::clear`.
///
/// Trusted: a cleared `hashbrown` map holds no entry.
#[verifier::external_body]
fn clear_map(map: &mut LocalMap)
    ensures
        local_map_entries(*final(map)) =~= Map::empty(),
{
    map.map.clear();
}

/// Looks a key up with `hashbrown::HashMap::get`.
///
/// Trusted: `get` returns the value last inserted for an equal key, and `None`
/// for a key with no entry; `u64` keys are equal exactly when their values are.
#[verifier::external_body]
fn lookup(map: &LocalMap, key: u64) -> (value: Option<Local>)
    ensures
        value == (if local_map_entries(*map).contains_key(key) {
            Some(local_map_entries(*map)[key])
        } else {
            None
        }),
{
    map.map.get(&key).copied()
}

/// Asks whether a key has an entry with `hashbrown::HashMap::contains_key`.
///
/// Trusted: `contains_key` answers whether an equal key was inserted.
#[verifier::external_body]
fn has_key(map: &LocalMap, key: u64) -> (found: bool)
    ensures
        found == local_map_entries(*map).contains_key(key),
{
    map.map.contains_key(&key)
}

/// Sets the value for a key with `hashbrown::HashMap::insert`.
///
/// Trusted: `insert` replaces the value of an equal key, or adds the entry when
/// there is none, and leaves every other entry alone.
#[verifier::external_body]
fn store(map: &mut LocalMap, key: u64, value: Local)
    ensures
        local_map_entries(*final(map)) == local_map_entries(*old(map)).insert(key, value),
{
    map.map.insert(key, value);
}

impl LocalMap {
    /// Creates a map with no assignment.
    pub fn new() -> (map: LocalMap)
        ensures
            map@ =~= Map::empty(),
    {
        empty_map()
    }

    /// Forgets every assignment.
    pub fn clear(&mut self)
        ensures
            final(self)@ =~= Map::empty(),
    {
        clear_map(self)
    }

    /// Returns the local assigned to `link`, if any.
    pub fn get(&self, link: Link) -> (local: Option<Local>)
        ensures
            local == (if self@.contains_key(link.packed()) {
                Some(self@[link.packed()])
            } else {
                None
            }),
    {
        lookup(self, link.into_u64())
    }

    /// Whether a local is assigned to `link`.
    pub fn contains_key(&self, link: Link) -> (found: bool)
        ensures
            found == self@.contains_key(link.packed()),
    {
        has_key(self, link.into_u64())
    }

    /// Assigns `local` to `link`, replacing any earlier assignment.
    pub fn insert(&mut self, link: Link, local: Local)
        ensures
            final(self)@ == old(self)@.insert(link.packed(), local),
    {
        store(self, link.into_u64(), local)
    }
}

} // verus!
