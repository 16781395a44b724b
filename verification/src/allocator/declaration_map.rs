//! The declarations of each function, kept in a `hashbrown::HashMap` by the
//! node that starts the function.

use vstd::prelude::*;

use crate::allocator::local_provider::Declarations;

verus! {

/// A map from the node that starts each function to its declarations.
#[verifier::external_body]
pub struct DeclarationMap {
    map: hashbrown::HashMap<u32, Declarations>,
}

/// The entries of a declaration map: the first local name, the end of the
/// local names and the spill slot count of each function.
pub uninterp spec fn declaration_map_entries(map: DeclarationMap) -> Map<u32, (u32, u32, u16)>;

impl View for DeclarationMap {
    type V = Map<u32, (u32, u32, u16)>;

    open spec fn view(&self) -> Map<u32, (u32, u32, u16)> {
        declaration_map_entries(*self)
    }
}

/// Creates an empty map with `hashbrown::HashMap::new`.
///
/// Trusted: a new `hashbrown` map holds no entry.
#[verifier::external_body]
fn empty_declarations() -> (map: DeclarationMap)
    ensures
        declaration_map_entries(map) =~= Map::empty(),
{
    DeclarationMap { map: hashbrown::HashMap::new() }
}

/// Removes every entry with `hashbrown::HashMap::clear`.
///
/// Trusted: a cleared `hashbrown` map holds no entry.
#[verifier::external_body]
fn clear_declarations(map: &mut DeclarationMap)
    ensures
        declaration_map_entries(*final(map)) =~= Map::empty(),
{
    map.map.clear();
}

/// Looks a function up with `hashbrown::HashMap::get`, handing out the
/// fields of its declarations.
///
/// Trusted: `get` returns the value last inserted for an equal key, and `None`
/// for a key with no entry; `u32` keys are equal exactly when their values are.
#[verifier::external_body]
fn lookup_declarations(map: &DeclarationMap, key: u32) -> (value: Option<(u32, u32, u16)>)
    ensures
        value == (if declaration_map_entries(*map).contains_key(key) {
            Some(declaration_map_entries(*map)[key])
        } else {
            None
        }),
{
    map.map.get(&key).map(|found| (found.locals.start, found.locals.end, found.stack))
}

/// Sets the declarations of a function with `hashbrown::HashMap::insert`.
///
/// Trusted: `insert` replaces the value of an equal key, or adds the entry when
/// there is none, and leaves every other entry alone.
#[verifier::external_body]
fn store_declarations(map: &mut DeclarationMap, key: u32, value: Declarations)
    ensures
        declaration_map_entries(*final(map)) == declaration_map_entries(*old(map)).insert(
            key,
            (value.locals.start, value.locals.end, value.stack),
        ),
{
    map.map.insert(key, value);
}

impl DeclarationMap {
    /// Creates a map with no function.
    pub fn new() -> (map: DeclarationMap)
        ensures
            map@ =~= Map::empty(),
    {
        empty_declarations()
    }

    /// Forgets every function.
    pub fn clear(&mut self)
        ensures
            final(self)@ =~= Map::empty(),
    {
        clear_declarations(self)
    }

    /// Returns the first local name, the end of the local names and the spill
    /// slot count of the function that node `start` starts, if any.
    pub fn get(&self, start: u32) -> (found: Option<(u32, u32, u16)>)
        ensures
            found == (if self@.contains_key(start) {
                Some(self@[start])
            } else {
                None
            }),
    {
        lookup_declarations(self, start)
    }

    /// Records the declarations of the function that node `start` starts.
    pub fn insert(&mut self, start: u32, declarations: Declarations)
        ensures
            final(self)@ == old(self)@.insert(
                start,
                (declarations.locals.start, declarations.locals.end, declarations.stack),
            ),
    {
        store_declarations(self, start, declarations)
    }
}

} // verus!
