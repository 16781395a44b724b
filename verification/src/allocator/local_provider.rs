//! Hands out locals: register names while few are held, and slots of a
//! spill table once the register budget is used up.

use vstd::prelude::*;

use crate::{
    allocator::{
        index_provider::{fresh, next_name_within, pulled, pushed, revived_by, IndexProvider},
        local_map::LocalMap,
    },
    graph::Link,
    tree::expression::{Local, Name},
};

verus! {

/// The number of register locals a function may hold at once before locals
/// spill to a table; the Lua runtime caps locals and allocates no registers.
pub const MAX_LOCAL_VARIABLES: usize = 197;

/// The span of local names and the spill table size of one function.
pub struct Declarations {
    /// The local names that the function declares.
    pub locals: core::ops::Range<u32>,
    /// The number of spill table slots that the function uses.
    pub stack: u16,
}

/// A provider of locals, with one name provider for register locals and one
/// for spill table slots.
pub struct LocalProvider {
    local_provider: IndexProvider,
    table_provider: IndexProvider,
}

/// Whether `local` is the local that a pull from `before` hands out, with
/// `after` the provider once it did.
pub open spec fn pulled_local(before: LocalProvider, after: LocalProvider, start: u32, local: Local) -> bool {
    if before.registers().holds().len() >= MAX_LOCAL_VARIABLES {
        &&& after.registers() == before.registers()
        &&& local matches Local::Slow { offset } && pulled(before.table(), after.table(), start, offset as u32)
    } else {
        &&& after.table() == before.table()
        &&& local matches Local::Fast { name } && pulled(
            before.registers(),
            after.registers(),
            start,
            name.id,
        )
    }
}

/// Whether a pull from `provider` can hand out a local: a spill slot must fit
/// in a `u16`, and a new register name in a `u32`.
pub open spec fn can_pull(provider: LocalProvider) -> bool {
    if provider.registers().holds().len() >= MAX_LOCAL_VARIABLES {
        next_name_within(provider.table(), 0xFFFF)
    } else {
        provider.registers().free().len() > 0 || provider.registers().names() < u32::MAX
    }
}

impl LocalProvider {
    /// The provider of register names.
    pub closed spec fn registers(self) -> IndexProvider {
        self.local_provider
    }

    /// The provider of spill table slots.
    pub closed spec fn table(self) -> IndexProvider {
        self.table_provider
    }

    /// Whether both name providers are well formed.
    pub open spec fn well_formed(self) -> bool {
        self.registers().well_formed() && self.table().well_formed()
    }

    /// Creates a provider with no name numbered yet.
    pub fn new() -> (provider: Self)
        ensures
            fresh(provider.registers(), 0),
            fresh(provider.table(), 0),
            provider.well_formed(),
    {
        LocalProvider { local_provider: IndexProvider::new(), table_provider: IndexProvider::new() }
    }

    /// Forgets every hold and free name, and numbers names from zero again.
    pub fn clear(&mut self)
        ensures
            fresh(final(self).registers(), 0),
            fresh(final(self).table(), 0),
            final(self).well_formed(),
    {
        self.local_provider.set_names(0);
        self.local_provider.forget_names();

        self.table_provider.set_names(0);
        self.table_provider.forget_names();
    }

    /// Starts a new function: forgets every hold and free name, keeps
    /// numbering register names where the last function stopped, and numbers
    /// spill slots from zero again.
    pub fn refresh(&mut self)
        ensures
            fresh(final(self).registers(), old(self).registers().names()),
            fresh(final(self).table(), 0),
            final(self).well_formed(),
    {
        self.local_provider.forget_names();

        self.table_provider.set_names(0);
        self.table_provider.forget_names();
    }

    /// Returns how many register names and spill slots were numbered so far.
    pub fn get_names(&self) -> (names: (u32, u32))
        ensures
            names == (self.registers().names(), self.table().names()),
    {
        (self.local_provider.get_names(), self.table_provider.get_names())
    }

    /// Whether a pull can hand out a local: a spill slot must fit in a `u16`,
    /// and a new register name in a `u32`.
    pub fn can_pull(&self) -> (able: bool)
        ensures
            able == can_pull(*self),
    {
        if self.local_provider.should_exceed(MAX_LOCAL_VARIABLES) {
            self.table_provider.next_within(0xFFFF)
        } else {
            self.local_provider.has_free() || self.local_provider.get_names() < u32::MAX
        }
    }

    /// Holds a local from `start` on: a spill slot once the register budget
    /// is used up, and a register name before.
    fn pull(&mut self, start: u32) -> (local: Local)
        requires
            can_pull(*old(self)),
        ensures
            pulled_local(*old(self), *final(self), start, local),
            old(self).well_formed() ==> final(self).well_formed(),
    {
        if self.local_provider.should_exceed(MAX_LOCAL_VARIABLES) {
            let ghost before = self.table_provider;
            let name = self.table_provider.pull(start);
            proof {
                if before.free().len() > 0 {
                    let i = choose|i: int|
                        0 <= i < before.free().len() && before.free()[i] == name;
                    assert(before.free()[i] <= 0xFFFF);
                }
            }
            let offset = name as u16;

            Local::Slow { offset }
        } else {
            let name = Name { id: self.local_provider.pull(start) };

            Local::Fast { name }
        }
    }

    /// Holds `local` again from `start` on, if its name or slot is free;
    /// returns whether it was.
    fn try_revive(&mut self, local: Local, start: u32) -> (revived: bool)
        ensures
            match local {
                Local::Fast { name } => {
                    &&& revived_by(old(self).registers(), final(self).registers(), name.id, start, revived)
                    &&& final(self).table() == old(self).table()
                },
                Local::Slow { offset } => {
                    &&& revived_by(old(self).table(), final(self).table(), offset as u32, start, revived)
                    &&& final(self).registers() == old(self).registers()
                },
            },
            old(self).well_formed() ==> final(self).well_formed(),
    {
        match local {
            Local::Fast { name } => self.local_provider.try_revive(name.id, start),
            Local::Slow { offset } => self.table_provider.try_revive(offset as u32, start),
        }
    }

    /// Gives `destination` the local of `preferred` again, when `preferred`
    /// has one and it can be revived from the node of `destination` on.
    ///
    /// Returns whether `destination` ends up with a local: it is `false` when
    /// `preferred` has none or its local is still held, and `true` at once
    /// when `destination` already has one.
    pub fn try_revive_into(&mut self, assignments: &mut LocalMap, destination: Link, preferred: Link) -> (done: bool)
        ensures
            !old(assignments)@.contains_key(preferred.packed()) ==> {
                &&& !done
                &&& *final(self) == *old(self)
                &&& final(assignments)@ == old(assignments)@
            },
            old(assignments)@.contains_key(preferred.packed())
                && old(assignments)@.contains_key(destination.packed()) ==> {
                &&& done
                &&& *final(self) == *old(self)
                &&& final(assignments)@ == old(assignments)@
            },
            old(assignments)@.contains_key(preferred.packed())
                && !old(assignments)@.contains_key(destination.packed()) ==> {
                let local = old(assignments)@[preferred.packed()];
                &&& match local {
                    Local::Fast { name } => {
                        &&& revived_by(old(self).registers(), final(self).registers(), name.id, destination.0, done)
                        &&& final(self).table() == old(self).table()
                    },
                    Local::Slow { offset } => {
                        &&& revived_by(old(self).table(), final(self).table(), offset as u32, destination.0, done)
                        &&& final(self).registers() == old(self).registers()
                    },
                }
                &&& done ==> final(assignments)@ == old(assignments)@.insert(destination.packed(), local)
                &&& !done ==> final(assignments)@ == old(assignments)@
            },
            old(self).well_formed() ==> final(self).well_formed(),
    {
        let local = match assignments.get(preferred) {
            Some(local) => local,
            None => return false,
        };

        if assignments.contains_key(destination) {
            return true;
        }

        if !self.try_revive(local, destination.0) {
            return false;
        }

        assignments.insert(destination, local);

        true
    }

    /// Gives `link` a new local held from its node on, unless it has one.
    pub fn try_pull_into(&mut self, assignments: &mut LocalMap, link: Link)
        requires
            !old(assignments)@.contains_key(link.packed()) ==> can_pull(*old(self)),
        ensures
            old(assignments)@.contains_key(link.packed()) ==> {
                &&& *final(self) == *old(self)
                &&& final(assignments)@ == old(assignments)@
            },
            !old(assignments)@.contains_key(link.packed()) ==> exists|local: Local|
                {
                    &&& pulled_local(*old(self), *final(self), link.0, local)
                    &&& final(assignments)@ == old(assignments)@.insert(link.packed(), local)
                },
            old(self).well_formed() ==> final(self).well_formed(),
    {
        if assignments.contains_key(link) {
            return;
        }

        let local = self.pull(link.0);

        assignments.insert(link, local);
    }

    /// Ends every hold, of register names and of spill slots alike, that
    /// starts at or after `start`.
    pub fn push_until(&mut self, start: u32)
        ensures
            pushed(old(self).registers(), final(self).registers(), start),
            pushed(old(self).table(), final(self).table(), start),
            old(self).well_formed() ==> final(self).well_formed(),
    {
        self.local_provider.push_until(start);
        self.table_provider.push_until(start);
    }
}

} // verus!
