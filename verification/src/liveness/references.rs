//! The module entities a function refers to: functions, globals, tables,
//! element segments, memories and data segments, each by its index.

use vstd::prelude::*;

verus! {

/// The kind of module entity a reference names.
#[derive(Clone, Copy, Debug, PartialEq, Eq, Structural)]
pub enum ReferenceType {
    /// A function.
    Function,
    /// A global.
    Global,
    /// A table.
    Table,
    /// An element segment.
    Elements,
    /// A memory.
    Memory,
    /// A data segment.
    Data,
}

/// A module entity, named by its kind and its index amongst entities of
/// that kind.
#[derive(Clone, Copy, Debug, PartialEq, Eq, Structural)]
pub struct Reference {
    /// The kind of entity.
    pub kind: ReferenceType,
    /// The index of the entity amongst those of its kind.
    pub index: u16,
}

impl ReferenceType {
    /// Whether an entity of this kind has state that instructions change:
    /// every kind but functions.
    pub open spec fn spec_is_mutable(self) -> bool {
        !(self is Function)
    }

    /// Whether an entity of this kind has state that instructions change.
    #[verifier::when_used_as_spec(spec_is_mutable)]
    pub fn is_mutable(self) -> (mutable: bool)
        ensures
            mutable == self.spec_is_mutable(),
    {
        !matches!(self, ReferenceType::Function)
    }
}

} // verus!
