//! A provider of numbered names that recycles the names whose holds ended.

use vstd::prelude::*;

verus! {

/// Hands out numbered names. A name is held from the start of the span it
/// is pulled for until it is pushed back onto the free list, and a free name
/// is handed out again before a new one is numbered.
///
/// Each hold is kept as its start and its name.
pub struct IndexProvider {
    holds: Vec<(u32, u32)>,
    free: Vec<u32>,
    names: u32,
}

/// Whether every hold in `holds` has a distinct name.
pub open spec fn distinct_hold_names(holds: Seq<(u32, u32)>) -> bool {
    forall|i: int, j: int|
        0 <= i < holds.len() && 0 <= j < holds.len() && i != j ==> #[trigger] holds[i].1 != #[trigger] holds[j].1
}

/// The names of the holds that start at or after `start`.
pub open spec fn released_names(holds: Seq<(u32, u32)>, start: u32) -> Seq<u32> {
    holds.filter(|hold: (u32, u32)| hold.0 >= start).map_values(|hold: (u32, u32)| hold.1)
}

/// Whether `after` is `before` once `name` was pulled for a hold from `start`:
/// the largest free name is taken off the free list when there is one, and
/// otherwise the next new name is numbered.
pub open spec fn pulled(before: IndexProvider, after: IndexProvider, start: u32, name: u32) -> bool {
    &&& before.free().len() > 0 ==> {
        &&& after.names() == before.names()
        &&& exists|i: int|
            0 <= i < before.free().len() && before.free()[i] == name && after.free()
                == before.free().remove(i)
        &&& forall|j: int| 0 <= j < before.free().len() ==> #[trigger] before.free()[j] <= name
    }
    &&& before.free().len() == 0 ==> {
        &&& name == before.names()
        &&& after.names() == before.names() + 1
        &&& after.free() == before.free()
    }
    &&& after.holds() == before.holds().push((start, name))
}

/// Whether `after` is `before` once a revival of `name` from `start` answered
/// `revived`: the name is revived exactly when it is free, and is then taken
/// off the free list and held again.
pub open spec fn revived_by(
    before: IndexProvider,
    after: IndexProvider,
    name: u32,
    start: u32,
    revived: bool,
) -> bool {
    &&& revived == before.free().contains(name)
    &&& after.names() == before.names()
    &&& revived ==> {
        &&& exists|i: int|
            0 <= i < before.free().len() && before.free()[i] == name && after.free()
                == before.free().remove(i)
        &&& after.holds() == before.holds().push((start, name))
    }
    &&& !revived ==> after.free() == before.free() && after.holds() == before.holds()
    &&& after.names() == before.names()
}

/// Whether `provider` holds no name and has none free, with `names` numbered.
pub open spec fn fresh(provider: IndexProvider, names: u32) -> bool {
    &&& provider.holds().len() == 0
    &&& provider.free().len() == 0
    &&& provider.names() == names
}

/// Whether `after` is `before` once every hold that starts at or after `start`
/// ended, its name going onto the free list.
pub open spec fn pushed(before: IndexProvider, after: IndexProvider, start: u32) -> bool {
    &&& after.holds() == before.holds().filter(|hold: (u32, u32)| hold.0 < start)
    &&& after.free() == before.free() + released_names(before.holds(), start)
    &&& after.names() == before.names()
}

/// Whether the name that a pull would hand out next is at most `limit`.
pub open spec fn next_name_within(provider: IndexProvider, limit: u32) -> bool {
    if provider.free().len() > 0 {
        forall|j: int| 0 <= j < provider.free().len() ==> #[trigger] provider.free()[j] <= limit
    } else {
        provider.names() <= limit
    }
}

impl IndexProvider {
    /// The current holds, each as its start and its name.
    pub closed spec fn holds(&self) -> Seq<(u32, u32)> {
        self.holds@
    }

    /// The names that have been released and may be handed out again.
    pub closed spec fn free(&self) -> Seq<u32> {
        self.free@
    }

    /// The number of names numbered so far; the next new name.
    pub closed spec fn names(&self) -> u32 {
        self.names
    }

    /// Whether every held or free name has been numbered, and no name is
    /// held twice, free twice, or both held and free.
    pub open spec fn well_formed(&self) -> bool {
        &&& forall|i: int| 0 <= i < self.holds().len() ==> #[trigger] self.holds()[i].1 < self.names()
        &&& forall|i: int| 0 <= i < self.free().len() ==> #[trigger] self.free()[i] < self.names()
        &&& distinct_hold_names(self.holds())
        &&& self.free().no_duplicates()
        &&& forall|i: int, j: int|
            0 <= i < self.holds().len() && 0 <= j < self.free().len() ==> #[trigger] self.holds()[i].1
                != #[trigger] self.free()[j]
    }

    /// Creates a provider with no name numbered yet.
    pub fn new() -> (provider: Self)
        ensures
            provider.holds().len() == 0,
            provider.free().len() == 0,
            provider.names() == 0,
            provider.well_formed(),
    {
        IndexProvider { holds: Vec::new(), free: Vec::new(), names: 0 }
    }

    /// Returns the number of names numbered so far.
    pub fn get_names(&self) -> (names: u32)
        ensures
            names == self.names(),
    {
        self.names
    }

    /// Sets the number of names numbered so far.
    pub fn set_names(&mut self, names: u32)
        ensures
            final(self).names() == names,
            final(self).holds() == old(self).holds(),
            final(self).free() == old(self).free(),
    {
        self.names = names;
    }

    /// Forgets every hold and every free name.
    pub fn forget_names(&mut self)
        ensures
            final(self).names() == old(self).names(),
            final(self).holds().len() == 0,
            final(self).free().len() == 0,
            final(self).well_formed(),
    {
        self.holds.clear();
        self.free.clear();
    }

    /// Whether some name is free.
    pub fn has_free(&self) -> (found: bool)
        ensures
            found == (self.free().len() > 0),
    {
        self.free.len() > 0
    }

    /// Whether the name that a pull would hand out next is at most `limit`.
    pub fn next_within(&self, limit: u32) -> (within: bool)
        ensures
            within == next_name_within(*self, limit),
    {
        if self.free.len() == 0 {
            return self.names <= limit;
        }
        let mut i: usize = 0;
        while i < self.free.len()
            invariant
                i <= self.free@.len(),
                forall|j: int| 0 <= j < i ==> #[trigger] self.free@[j] <= limit,
            decreases self.free@.len() - i,
        {
            if self.free[i] > limit {
                return false;
            }
            i = i + 1;
        }
        true
    }

    /// Whether at least `count` names are held.
    pub fn should_exceed(&self, count: usize) -> (exceeded: bool)
        ensures
            exceeded == (self.holds().len() >= count),
    {
        self.holds.len() >= count
    }

    fn pull_name(&mut self) -> (name: u32)
        requires
            old(self).names() < u32::MAX,
        ensures
            name == old(self).names(),
            final(self).names() == old(self).names() + 1,
            final(self).holds() == old(self).holds(),
            final(self).free() == old(self).free(),
    {
        let name = self.names;

        self.names = name + 1;

        name
    }

    /// Removes the largest free name, if there is one.
    fn pop_free(&mut self) -> (name: Option<u32>)
        ensures
            final(self).holds() == old(self).holds(),
            final(self).names() == old(self).names(),
            old(self).free().len() == 0 ==> name is None && final(self).free() == old(self).free(),
            name matches Some(largest) ==> exists|i: int|
                0 <= i < old(self).free().len() && old(self).free()[i] == largest
                    && final(self).free() == old(self).free().remove(i) && forall|j: int|
                    0 <= j < old(self).free().len() ==> #[trigger] old(self).free()[j] <= largest,
            old(self).free().len() > 0 ==> name is Some,
    {
        if self.free.len() == 0 {
            return None;
        }
        let mut best: usize = 0;
        let mut i: usize = 1;
        while i < self.free.len()
            invariant
                self.free@ == old(self).free(),
                0 <= best < self.free@.len(),
                1 <= i <= self.free@.len(),
                forall|j: int| 0 <= j < i ==> #[trigger] self.free@[j] <= self.free@[best as int],
            decreases self.free@.len() - i,
        {
            if self.free[i] > self.free[best] {
                best = i;
            }
            i = i + 1;
        }
        let ghost before = self.free@;
        let name = self.free.remove(best);
        assert(before[best as int] == name && self.free@ == before.remove(best as int));
        assert(forall|j: int| 0 <= j < before.len() ==> #[trigger] before[j] <= name);
        Some(name)
    }

    /// Holds a name from `start` on and returns it: the largest free name, or
    /// a new one when no name is free.
    pub fn pull(&mut self, start: u32) -> (name: u32)
        requires
            old(self).free().len() > 0 || old(self).names() < u32::MAX,
        ensures
            pulled(*old(self), *final(self), start, name),
            old(self).well_formed() ==> final(self).well_formed(),
            old(self).well_formed() ==> forall|i: int|
                0 <= i < old(self).holds().len() ==> #[trigger] old(self).holds()[i].1 != name,
    {
        let name = match self.pop_free() {
            Some(name) => name,
            None => self.pull_name(),
        };

        self.holds.push((start, name));

        name
    }

    fn remove_free_if_found(&mut self, name: u32) -> (found: bool)
        ensures
            found == old(self).free().contains(name),
            found ==> exists|i: int|
                0 <= i < old(self).free().len() && old(self).free()[i] == name
                    && final(self).free() == old(self).free().remove(i),
            !found ==> final(self).free() == old(self).free(),
            final(self).holds() == old(self).holds(),
            final(self).names() == old(self).names(),
    {
        let ghost initial = self.free@;
        let mut i: usize = 0;
        while i < self.free.len()
            invariant
                self.free@ == initial,
                self.holds@ == old(self).holds(),
                self.names == old(self).names(),
                initial == old(self).free(),
                i <= self.free@.len(),
                forall|j: int| 0 <= j < i ==> self.free@[j] != name,
            decreases self.free@.len() - i,
        {
            if self.free[i] == name {
                self.free.remove(i);
                assert(initial[i as int] == name);
                return true;
            }
            i = i + 1;
        }
        false
    }

    /// Holds `name` again from `start` on, if it is free; returns whether it was.
    pub fn try_revive(&mut self, name: u32, start: u32) -> (revived: bool)
        ensures
            revived_by(*old(self), *final(self), name, start, revived),
            old(self).well_formed() ==> final(self).well_formed(),
    {
        if self.remove_free_if_found(name) {
            self.holds.push((start, name));

            true
        } else {
            false
        }
    }

    /// Ends every hold that starts at or after `start`, putting its name on
    /// the free list; holds that start earlier stay.
    pub fn push_until(&mut self, start: u32)
        ensures
            pushed(*old(self), *final(self), start),
            old(self).well_formed() ==> final(self).well_formed(),
    {
        let ghost previous = self.holds@;
        let mut kept: Vec<(u32, u32)> = Vec::new();
        let mut i: usize = 0;
        while i < self.holds.len()
            invariant
                self.holds@ == previous,
                i <= previous.len(),
                kept@ == previous.subrange(0, i as int).filter(|hold: (u32, u32)| hold.0 < start),
                self.free@ == old(self).free() + released_names(previous.subrange(0, i as int), start),
                self.names == old(self).names(),
            decreases previous.len() - i,
        {
            let hold = self.holds[i];
            proof {
                let next = previous.subrange(0, i + 1);
                assert(next.drop_last() =~= previous.subrange(0, i as int));
                reveal_with_fuel(Seq::filter, 1);
                assert(next.filter(|hold: (u32, u32)| hold.0 >= start) == next.drop_last().filter(|hold: (u32, u32)| hold.0 >= start) + if hold.0 >= start { seq![hold] } else { Seq::empty() });
            }
            if hold.0 < start {
                kept.push(hold);
            } else {
                self.free.push(hold.1);
            }
            proof {
                let next = previous.subrange(0, i + 1);
                assert(kept@ =~= next.filter(|hold: (u32, u32)| hold.0 < start));
                assert(self.free@ =~= old(self).free() + released_names(next, start));
            }
            i = i + 1;
        }
        assert(previous.subrange(0, i as int) =~= previous);
        self.holds = kept;
        proof {
            if old(self).well_formed() {
                lemma_push_until_well_formed(previous, old(self).free(), self.names, start);
            }
        }
    }
}

/// The holds that start before `start`.
pub open spec fn kept_holds(holds: Seq<(u32, u32)>, start: u32) -> Seq<(u32, u32)> {
    holds.filter(|hold: (u32, u32)| hold.0 < start)
}

proof fn lemma_split_last(holds: Seq<(u32, u32)>, start: u32)
    requires
        holds.len() > 0,
    ensures
        kept_holds(holds, start) == kept_holds(holds.drop_last(), start) + if holds.last().0 < start {
            seq![holds.last()]
        } else {
            Seq::empty()
        },
        released_names(holds, start) == released_names(holds.drop_last(), start) + if holds.last().0
            >= start {
            seq![holds.last().1]
        } else {
            Seq::empty()
        },
{
    reveal_with_fuel(Seq::filter, 1);
    let tail = holds.drop_last().filter(|hold: (u32, u32)| hold.0 >= start);
    if holds.last().0 >= start {
        assert(holds.filter(|hold: (u32, u32)| hold.0 >= start) == tail.push(holds.last()));
        assert(tail.push(holds.last()).map_values(|hold: (u32, u32)| hold.1) =~= tail.map_values(
            |hold: (u32, u32)| hold.1,
        ) + seq![holds.last().1]);
    } else {
        assert(kept_holds(holds, start) =~= kept_holds(holds.drop_last(), start) + seq![holds.last()]);
        assert(released_names(holds, start) =~= released_names(holds.drop_last(), start));
    }
}

pub(crate) proof fn lemma_released_origin(holds: Seq<(u32, u32)>, start: u32)
    ensures
        forall|i: int|
            0 <= i < kept_holds(holds, start).len() ==> exists|j: int|
                0 <= j < holds.len() && #[trigger] kept_holds(holds, start)[i] == holds[j],
        forall|i: int|
            0 <= i < released_names(holds, start).len() ==> exists|j: int|
                0 <= j < holds.len() && #[trigger] released_names(holds, start)[i] == holds[j].1,
    decreases holds.len(),
{
    if holds.len() == 0 {
        reveal_with_fuel(Seq::filter, 1);
    } else {
        let rest = holds.drop_last();
        lemma_released_origin(rest, start);
        lemma_split_last(holds, start);
        assert forall|i: int| 0 <= i < kept_holds(holds, start).len() implies exists|j: int|
            0 <= j < holds.len() && #[trigger] kept_holds(holds, start)[i] == holds[j] by {
            if i < kept_holds(rest, start).len() {
                let j = choose|j: int| 0 <= j < rest.len() && #[trigger] kept_holds(rest, start)[i] == rest[j];
                assert(holds[j] == rest[j]);
            } else {
                assert(kept_holds(holds, start)[i] == holds[holds.len() - 1]);
            }
        }
        assert forall|i: int| 0 <= i < released_names(holds, start).len() implies exists|j: int|
            0 <= j < holds.len() && #[trigger] released_names(holds, start)[i] == holds[j].1 by {
            if i < released_names(rest, start).len() {
                let j = choose|j: int| 0 <= j < rest.len() && #[trigger] released_names(rest, start)[i] == rest[j].1;
                assert(holds[j] == rest[j]);
            } else {
                assert(released_names(holds, start)[i] == holds[holds.len() - 1].1);
            }
        }
    }
}

proof fn lemma_push_until_well_formed(holds: Seq<(u32, u32)>, free: Seq<u32>, names: u32, start: u32)
    requires
        forall|i: int| 0 <= i < holds.len() ==> #[trigger] holds[i].1 < names,
        forall|i: int| 0 <= i < free.len() ==> #[trigger] free[i] < names,
        distinct_hold_names(holds),
        free.no_duplicates(),
        forall|i: int, j: int|
            0 <= i < holds.len() && 0 <= j < free.len() ==> #[trigger] holds[i].1 != #[trigger] free[j],
    ensures
        forall|i: int| 0 <= i < kept_holds(holds, start).len() ==> #[trigger] kept_holds(holds, start)[i].1 < names,
        forall|i: int|
            0 <= i < (free + released_names(holds, start)).len() ==> #[trigger] (free + released_names(
                holds,
                start,
            ))[i] < names,
        distinct_hold_names(kept_holds(holds, start)),
        (free + released_names(holds, start)).no_duplicates(),
        forall|i: int, j: int|
            0 <= i < kept_holds(holds, start).len() && 0 <= j < (free + released_names(holds, start)).len()
                ==> #[trigger] kept_holds(holds, start)[i].1 != #[trigger] (free + released_names(
                holds,
                start,
            ))[j],
    decreases holds.len(),
{
    if holds.len() == 0 {
        reveal_with_fuel(Seq::filter, 1);
        assert(free + released_names(holds, start) =~= free);
    } else {
        let rest = holds.drop_last();
        let last = holds.last();
        assert forall|i: int, j: int|
            0 <= i < rest.len() && 0 <= j < rest.len() && i != j implies #[trigger] rest[i].1 != #[trigger] rest[j].1 by {
            assert(holds[i] == rest[i] && holds[j] == rest[j]);
        }
        assert forall|i: int, j: int|
            0 <= i < rest.len() && 0 <= j < free.len() implies #[trigger] rest[i].1 != #[trigger] free[j] by {
            assert(holds[i] == rest[i]);
        }
        assert forall|i: int| 0 <= i < rest.len() implies #[trigger] rest[i].1 < names by {
            assert(holds[i] == rest[i]);
        }
        lemma_push_until_well_formed(rest, free, names, start);
        lemma_split_last(holds, start);
        lemma_released_origin(rest, start);
        let kept = kept_holds(holds, start);
        let released = free + released_names(holds, start);
        let kept_before = kept_holds(rest, start);
        let released_before = free + released_names(rest, start);
        // The last hold's name is not among the names of the earlier holds, nor free.
        assert forall|i: int| 0 <= i < kept_before.len() implies #[trigger] kept_before[i].1 != last.1 by {
            let j = choose|j: int| 0 <= j < rest.len() && #[trigger] kept_before[i] == rest[j];
            assert(holds[j] == rest[j]);
            assert(holds[holds.len() - 1] == last);
        }
        assert forall|i: int| 0 <= i < released_before.len() implies #[trigger] released_before[i] != last.1 by {
            if i < free.len() {
                assert(released_before[i] == free[i]);
                assert(holds[holds.len() - 1] == last);
            } else {
                let k = i - free.len();
                assert(released_before[i] == released_names(rest, start)[k]);
                let j = choose|j: int| 0 <= j < rest.len() && #[trigger] released_names(rest, start)[k] == rest[j].1;
                assert(holds[j] == rest[j]);
                assert(holds[holds.len() - 1] == last);
            }
        }
        if last.0 < start {
            assert(kept =~= kept_before.push(last));
            assert(released =~= released_before);
        } else {
            assert(kept =~= kept_before);
            assert(released =~= released_before.push(last.1));
        }
    }
}

} // verus!
