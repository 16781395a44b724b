//! A growable set of small indices, one flag per index.

use vstd::prelude::*;

verus! {

/// A set of indices, kept as one flag per index below its capacity.
pub struct LiveSet {
    bits: Vec<bool>,
}

impl View for LiveSet {
    type V = Set<int>;

    closed spec fn view(&self) -> Set<int> {
        Set::new(|i: int| 0 <= i < self.bits@.len() && self.bits@[i])
    }
}

impl LiveSet {
    /// The number of indices the set has room for.
    pub closed spec fn capacity(&self) -> nat {
        self.bits@.len()
    }

    /// Whether every member is below the capacity.
    pub proof fn lemma_members_below_capacity(&self)
        ensures
            forall|i: int| #[trigger] self@.contains(i) ==> 0 <= i < self.capacity(),
    {
    }

    /// Creates an empty set.
    pub fn new() -> (set: Self)
        ensures
            set@ =~= Set::empty(),
    {
        LiveSet { bits: Vec::new() }
    }

    /// Removes every member.
    pub fn clear(&mut self)
        ensures
            final(self)@ =~= Set::empty(),
    {
        self.bits.clear();
    }

    /// Whether `index` is a member.
    pub fn contains(&self, index: usize) -> (found: bool)
        ensures
            found == self@.contains(index as int),
    {
        index < self.bits.len() && self.bits[index]
    }

    /// Adds `index`, growing the set's room when needed.
    pub fn grow_insert(&mut self, index: usize)
        requires
            index < usize::MAX,
        ensures
            final(self)@ =~= old(self)@.insert(index as int),
    {
        let ghost before = self@;
        while self.bits.len() <= index
            invariant
                self@ == before,
            decreases index + 1 - self.bits@.len(),
        {
            self.bits.push(false);
            assert(self@ =~= before);
        }
        self.bits.set(index, true);
    }

    /// Removes `index`, if it is a member.
    pub fn remove(&mut self, index: usize)
        ensures
            final(self)@ =~= old(self)@.remove(index as int),
    {
        if index < self.bits.len() {
            self.bits.set(index, false);
        }
    }

    /// Returns the members in ascending order.
    pub fn ascending(&self) -> (members: Vec<usize>)
        ensures
            forall|i: int, j: int| 0 <= i < j < members@.len() ==> members@[i] < members@[j],
            forall|x: int| self@.contains(x) <==> exists|k: int|
                0 <= k < members@.len() && members@[k] == x,
    {
        let mut members: Vec<usize> = Vec::new();
        let mut i: usize = 0;
        while i < self.bits.len()
            invariant
                i <= self.bits@.len(),
                forall|a: int, b: int| 0 <= a < b < members@.len() ==> members@[a] < members@[b],
                forall|k: int| 0 <= k < members@.len() ==> members@[k] < i,
                forall|x: int|
                    (0 <= x < i && self@.contains(x)) <==> exists|k: int|
                        0 <= k < members@.len() && members@[k] == x,
            decreases self.bits@.len() - i,
        {
            let ghost before = members@;
            if self.bits[i] {
                members.push(i);
            }
            proof {
                assert forall|x: int|
                    (0 <= x < i + 1 && self@.contains(x)) <==> exists|k: int|
                        0 <= k < members@.len() && members@[k] == x by {
                    if 0 <= x < i + 1 && self@.contains(x) {
                        if x < i {
                            let k = choose|k: int| 0 <= k < before.len() && before[k] == x;
                            assert(members@[k] == x);
                        } else {
                            assert(members@[members@.len() - 1] == x);
                        }
                    }
                    if exists|k: int| 0 <= k < members@.len() && members@[k] == x {
                        let k = choose|k: int| 0 <= k < members@.len() && members@[k] == x;
                        if k < before.len() {
                            assert(before[k] == x);
                        }
                    }
                }
            }
            i = i + 1;
        }
        members
    }
}

} // verus!
