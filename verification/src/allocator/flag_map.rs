//! A map from node identifiers to flags, kept in a `hashbrown::HashMap`.

use vstd::prelude::*;

verus! {

/// A map from node identifiers to flags.
#[verifier::external_body]
pub struct FlagMap {
    map: hashbrown::HashMap<u32, bool>,
}

/// The entries of a flag map.
pub uninterp spec fn flag_map_entries(map: FlagMap) -> Map<u32, bool>;

impl View for FlagMap {
    type V = Map<u32, bool>;

    open spec fn view(&self) -> Map<u32, bool> {
        flag_map_entries(*self)
    }
}

impl FlagMap {
    /// Creates an empty map with `hashbrown::HashMap::new`.
    ///
    /// Trusted: a new `hashbrown` map holds no entry.
    #[verifier::external_body]
    pub(crate) fn new() -> (map: FlagMap)
        ensures
            flag_map_entries(map) =~= Map::empty(),
    {
        FlagMap { map: hashbrown::HashMap::new() }
    }

    /// Removes every entry with `hashbrown::HashMap::clear`.
    ///
    /// Trusted: a cleared `hashbrown` map holds no entry.
    #[verifier::external_body]
    pub(crate) fn clear(&mut self)
        ensures
            flag_map_entries(*final(self)) =~= Map::empty(),
    {
        self.map.clear();
    }

    /// Looks a key up with `hashbrown::HashMap::get`.
    ///
    /// Trusted: `get` returns the value last inserted for an equal key, and
    /// `None` for a key with no entry; `u32` keys are equal exactly when their
    /// values are.
    #[verifier::external_body]
    pub(crate) fn get(&self, key: u32) -> (value: Option<bool>)
        ensures
            value == (if flag_map_entries(*self).contains_key(key) {
                Some(flag_map_entries(*self)[key])
            } else {
                None
            }),
    {
        self.map.get(&key).copied()
    }

    /// Sets the value for a key with `hashbrown::HashMap::insert`.
    ///
    /// Trusted: `insert` replaces the value of an equal key, or adds the entry
    /// when there is none, and leaves every other entry alone.
    #[verifier::external_body]
    pub(crate) fn insert(&mut self, key: u32, value: bool)
        ensures
            flag_map_entries(*final(self)) == flag_map_entries(*old(self)).insert(key, value),
    {
        self.map.insert(key, value);
    }
}

} // verus!
