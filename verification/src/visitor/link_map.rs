//! A hash map from links to links, kept in a `hashbrown::HashMap`.

use vstd::prelude::*;

use crate::graph::Link;

verus! {

/// A map from links, by their packed key, to links.
#[verifier::external_body]
pub struct LinkMap {
    map: hashbrown::HashMap<u64, Link>,
}

/// The entries of a link map, by packed key.
pub uninterp spec fn link_map_entries(map: LinkMap) -> Map<u64, Link>;

impl View for LinkMap {
    type V = Map<u64, Link>;

    open spec fn view(&self) -> Map<u64, Link> {
        link_map_entries(*self)
    }
}

/// Creates an empty map with `hashbrown::HashMap::new`.
///
/// Trusted: a new `hashbrown` map holds no entry.
#[verifier::external_body]
fn empty_links() -> (map: LinkMap)
    ensures
        link_map_entries(map) =~= Map::empty(),
{
    LinkMap { map: hashbrown::HashMap::new() }
}

/// Removes every entry with `hashbrown::HashMap::clear`.
///
/// Trusted: a cleared `hashbrown` map holds no entry.
#[verifier::external_body]
fn clear_links(map: &mut LinkMap)
    ensures
        link_map_entries(*final(map)) =~= Map::empty(),
{
    map.map.clear();
}

/// Looks a key up with `hashbrown::HashMap::get`.
///
/// Trusted: `get` returns the value last inserted for an equal key, and
/// `None` for a key with no entry; `u64` keys are equal exactly when their
/// values are.
#[verifier::external_body]
fn lookup_link(map: &LinkMap, key: u64) -> (value: Option<Link>)
    ensures
        value == (if link_map_entries(*map).contains_key(key) {
            Some(link_map_entries(*map)[key])
        } else {
            None
        }),
{
    map.map.get(&key).copied()
}

/// Asks whether a key has an entry with `hashbrown::HashMap::contains_key`.
///
/// Trusted: `contains_key` answers whether an equal key was inserted.
#[verifier::external_body]
fn has_link(map: &LinkMap, key: u64) -> (found: bool)
    ensures
        found == link_map_entries(*map).contains_key(key),
{
    map.map.contains_key(&key)
}

/// Sets the value for a key with `hashbrown::HashMap::insert`.
///
/// Trusted: `insert` replaces the value of an equal key, or adds the entry
/// when there is none, and leaves every other entry alone.
#[verifier::external_body]
fn store_link(map: &mut LinkMap, key: u64, value: Link)
    ensures
        link_map_entries(*final(map)) == link_map_entries(*old(map)).insert(key, value),
{
    map.map.insert(key, value);
}

impl LinkMap {
    /// Creates a map with no entry.
    pub fn new() -> (map: LinkMap)
        ensures
            map@ =~= Map::empty(),
    {
        empty_links()
    }

    /// Removes every entry.
    pub fn clear(&mut self)
        ensures
            final(self)@ =~= Map::empty(),
    {
        clear_links(self)
    }

    /// Returns the link stored under the packed key `key`, if any.
    pub fn get(&self, key: u64) -> (value: Option<Link>)
        ensures
            value == (if self@.contains_key(key) {
                Some(self@[key])
            } else {
                None
            }),
    {
        lookup_link(self, key)
    }

    /// Whether a link is stored under the packed key `key`.
    pub fn contains_key(&self, key: u64) -> (found: bool)
        ensures
            found == self@.contains_key(key),
    {
        has_link(self, key)
    }

    /// Stores `value` under the packed key `key`, replacing any earlier one.
    pub fn insert(&mut self, key: u64, value: Link)
        ensures
            final(self)@ == old(self)@.insert(key, value),
    {
        store_link(self, key, value)
    }
}

} // verus!
