//! Printed names by name identifier, kept in a `hashbrown::HashMap`.

use vstd::prelude::*;

verus! {

/// A map from name identifiers to the text a name prints as.
#[verifier::external_body]
pub struct NameTexts {
    map: hashbrown::HashMap<u32, Vec<u8>>,
}

/// The entries of a name map, by name identifier.
pub uninterp spec fn name_text_entries(map: NameTexts) -> Map<u32, Seq<u8>>;

impl View for NameTexts {
    type V = Map<u32, Seq<u8>>;

    open spec fn view(&self) -> Map<u32, Seq<u8>> {
        name_text_entries(*self)
    }
}

/// The view of an optional text.
pub open spec fn text_view(text: Option<Vec<u8>>) -> Option<Seq<u8>> {
    match text {
        Some(text) => Some(text@),
        None => None,
    }
}

/// The entry of `map` for `key`, if it has one.
pub open spec fn entry(map: Map<u32, Seq<u8>>, key: u32) -> Option<Seq<u8>> {
    if map.contains_key(key) {
        Some(map[key])
    } else {
        None
    }
}

/// Creates an empty map with `hashbrown::HashMap::new`.
///
/// Trusted: a new `hashbrown` map holds no entry.
#[verifier::external_body]
fn empty_texts() -> (map: NameTexts)
    ensures
        name_text_entries(map) =~= Map::empty(),
{
    NameTexts { map: hashbrown::HashMap::new() }
}

/// Removes every entry with `hashbrown::HashMap::clear`.
///
/// Trusted: a cleared `hashbrown` map holds no entry.
#[verifier::external_body]
fn clear_texts(map: &mut NameTexts)
    ensures
        name_text_entries(*final(map)) =~= Map::empty(),
{
    map.map.clear();
}

/// Looks a key up with `hashbrown::HashMap::get`, cloning the text found.
///
/// Trusted: `get` returns the value last inserted for an equal key and `None`
/// for a key with no entry; a cloned `Vec` holds the same bytes.
#[verifier::external_body]
fn lookup_text(map: &NameTexts, key: u32) -> (text: Option<Vec<u8>>)
    ensures
        text_view(text) == entry(name_text_entries(*map), key),
{
    map.map.get(&key).cloned()
}

/// Sets the text for a key with `hashbrown::HashMap::insert`.
///
/// Trusted: `insert` replaces the value of an equal key, or adds the entry
/// when there is none, and leaves every other entry alone.
#[verifier::external_body]
fn store_text(map: &mut NameTexts, key: u32, text: Vec<u8>)
    ensures
        name_text_entries(*final(map)) == name_text_entries(*old(map)).insert(key, text@),
{
    map.map.insert(key, text);
}

/// Removes the entry of a key with `hashbrown::HashMap::remove`.
///
/// Trusted: `remove` returns the value the key had, or `None` when it had
/// none, and leaves every other entry alone.
#[verifier::external_body]
fn remove_text(map: &mut NameTexts, key: u32) -> (text: Option<Vec<u8>>)
    ensures
        text_view(text) == entry(name_text_entries(*old(map)), key),
        name_text_entries(*final(map)) == name_text_entries(*old(map)).remove(key),
{
    map.map.remove(&key)
}

impl NameTexts {
    /// Creates a map with no entry.
    pub fn new() -> (map: NameTexts)
        ensures
            map@ =~= Map::empty(),
    {
        empty_texts()
    }

    /// Forgets every entry.
    pub fn clear(&mut self)
        ensures
            final(self)@ =~= Map::empty(),
    {
        clear_texts(self)
    }

    /// The text of `key`, if it has one.
    pub fn get(&self, key: u32) -> (text: Option<Vec<u8>>)
        ensures
            text_view(text) == entry(self@, key),
    {
        lookup_text(self, key)
    }

    /// Sets the text of `key`.
    pub fn insert(&mut self, key: u32, text: Vec<u8>)
        ensures
            final(self)@ == old(self)@.insert(key, text@),
    {
        store_text(self, key, text)
    }

    /// Removes the text of `key` and returns it.
    pub fn remove(&mut self, key: u32) -> (text: Option<Vec<u8>>)
        ensures
            text_view(text) == entry(old(self)@, key),
            final(self)@ == old(self)@.remove(key),
    {
        remove_text(self, key)
    }
}

} // verus!
