//! The value that holds the state of each module entity a function refers
//! to, while the function is lifted.

use vstd::prelude::*;

use crate::{
    graph::Link,
    liveness::references::{Reference, ReferenceType},
};

verus! {

/// The states of the entities of `keys` that instructions change, in order.
pub open spec fn mutable_links(keys: Seq<Reference>, links: Seq<Link>) -> Seq<Link>
    decreases keys.len(),
{
    if keys.len() == 0 {
        Seq::empty()
    } else {
        let rest = mutable_links(keys.drop_last(), links.take(keys.len() - 1));
        if keys.last().kind.spec_is_mutable() {
            rest.push(links[keys.len() - 1])
        } else {
            rest
        }
    }
}

/// The number of entities of `keys` that instructions change.
pub open spec fn mutable_count(keys: Seq<Reference>) -> nat
    decreases keys.len(),
{
    if keys.len() == 0 {
        0
    } else {
        mutable_count(keys.drop_last()) + if keys.last().kind.spec_is_mutable() {
            1nat
        } else {
            0nat
        }
    }
}

/// `links` once the state of each entity of `keys` that instructions
/// change is taken, in order, from the ports of `producer` from `first` on.
pub open spec fn renumbered(keys: Seq<Reference>, links: Seq<Link>, producer: u32, first: int) -> Seq<Link>
    decreases keys.len(),
{
    if keys.len() == 0 {
        links
    } else {
        let front = keys.drop_last();
        let rest = renumbered(front, links, producer, first);
        if keys.last().kind.spec_is_mutable() {
            rest.update(keys.len() - 1, Link(producer, (first + mutable_count(front)) as u16))
        } else {
            rest
        }
    }
}

/// The ports of `producer` from `first` on, `count` of them.
pub open spec fn ports_from(producer: u32, first: int, count: nat) -> Seq<Link> {
    Seq::new(count, |i: int| Link(producer, (first + i) as u16))
}

/// The state of each module entity that a function refers to, kept in the
/// order the entities were given.
pub struct DependencyMap {
    keys: Vec<Reference>,
    links: Vec<Link>,
}

impl DependencyMap {
    /// The entities, in order.
    pub closed spec fn keys(&self) -> Seq<Reference> {
        self.keys@
    }

    /// The state of each entity, in the order of the entities.
    pub closed spec fn links(&self) -> Seq<Link> {
        self.links@
    }

    /// Whether each entity has one state and appears once.
    pub open spec fn well_formed(&self) -> bool {
        &&& self.keys().len() == self.links().len()
        &&& self.keys().no_duplicates()
    }

    /// The position of entity `index` of kind `kind`, which must be present.
    pub open spec fn position(&self, kind: ReferenceType, index: u16) -> int {
        self.keys().index_of(Reference { kind, index })
    }

    /// Creates a map of no entity.
    pub fn new() -> (map: Self)
        ensures
            map.keys() == Seq::<Reference>::empty(),
            map.links() == Seq::<Link>::empty(),
    {
        DependencyMap { keys: Vec::new(), links: Vec::new() }
    }

    /// The number of entities.
    pub fn count(&self) -> (count: usize)
        requires
            self.well_formed(),
        ensures
            count == self.keys().len(),
    {
        self.keys.len()
    }

    /// The number of entities whose state instructions change.
    pub fn mutable_count(&self) -> (count: usize)
        ensures
            count == mutable_count(self.keys()),
    {
        let mut count: usize = 0;
        let mut i: usize = 0;
        while i < self.keys.len()
            invariant
                i <= self.keys@.len(),
                count == mutable_count(self.keys@.take(i as int)),
                count <= i,
            decreases self.keys@.len() - i,
        {
            proof {
                assert(self.keys@.take(i + 1).drop_last() =~= self.keys@.take(i as int));
            }
            if self.keys[i].kind.is_mutable() {
                count = count + 1;
            }
            i = i + 1;
        }
        proof {
            assert(self.keys@.take(i as int) =~= self.keys@);
        }
        count
    }

    /// Takes the entities of `keys`, each with a state not yet known.
    pub fn fill_keys(&mut self, keys: &[Reference])
        ensures
            final(self).keys() == keys@,
            final(self).links() == Seq::new(keys@.len(), |i: int| Link::spec_dangling()),
    {
        self.keys.clear();
        self.links.clear();
        let mut i: usize = 0;
        while i < keys.len()
            invariant
                i <= keys@.len(),
                self.keys@ == keys@.take(i as int),
                self.links@ == Seq::new(i as nat, |k: int| Link::spec_dangling()),
            decreases keys@.len() - i,
        {
            self.keys.push(keys[i]);
            self.links.push(Link::dangling());
            proof {
                assert(self.keys@ =~= keys@.take(i + 1));
                assert(self.links@ =~= Seq::new((i + 1) as nat, |k: int| Link::spec_dangling()));
            }
            i = i + 1;
        }
        proof {
            assert(keys@.take(i as int) =~= keys@);
        }
    }

    /// The state of entity `index` of kind `kind`.
    pub fn get(&self, kind: ReferenceType, index: u16) -> (link: Link)
        requires
            self.well_formed(),
            self.keys().contains(Reference { kind, index }),
        ensures
            link == self.links()[self.position(kind, index)],
            0 <= self.position(kind, index) < self.keys().len(),
    {
        let i = self.find(kind, index);
        self.links[i]
    }

    /// Sets the state of entity `index` of kind `kind` to `link`.
    pub fn set(&mut self, kind: ReferenceType, index: u16, link: Link)
        requires
            old(self).well_formed(),
            old(self).keys().contains(Reference { kind, index }),
        ensures
            final(self).keys() == old(self).keys(),
            final(self).links() == old(self).links().update(old(self).position(kind, index), link),
            0 <= old(self).position(kind, index) < old(self).keys().len(),
    {
        let i = self.find(kind, index);
        self.links.set(i, link);
    }

    /// The position of entity `index` of kind `kind`.
    fn find(&self, kind: ReferenceType, index: u16) -> (position: usize)
        requires
            self.well_formed(),
            self.keys().contains(Reference { kind, index }),
        ensures
            position == self.position(kind, index),
            position < self.keys().len(),
    {
        let key = Reference { kind, index };
        let ghost target = self.keys@.index_of(key);
        assert(self.keys@[target] == key);
        let mut i: usize = 0;
        while i < self.keys.len()
            invariant
                self.well_formed(),
                i <= self.keys@.len(),
                0 <= target < self.keys@.len(),
                self.keys@[target] == key,
                target == self.keys@.index_of(key),
                key == (Reference { kind, index }),
                forall|k: int| 0 <= k < i ==> self.keys@[k] != key,
            decreases self.keys@.len() - i,
        {
            if self.keys[i] == key {
                assert(self.keys@[i as int] == self.keys@[target]);
                assert(self.keys@.no_duplicates());
                assert(i as int == target);
                return i;
            }
            i = i + 1;
        }
        assert(self.keys@[target] != key);
        0
    }

    /// Appends the state of every entity to `out`, in order.
    pub fn get_all_into(&self, out: &mut Vec<Link>)
        ensures
            final(out)@ == old(out)@ + self.links(),
    {
        let mut i: usize = 0;
        while i < self.links.len()
            invariant
                i <= self.links@.len(),
                out@ == old(out)@ + self.links@.take(i as int),
            decreases self.links@.len() - i,
        {
            out.push(self.links[i]);
            proof {
                assert(self.links@.take(i + 1) =~= self.links@.take(i as int).push(self.links@[i as int]));
            }
            i = i + 1;
        }
        proof {
            assert(self.links@.take(i as int) =~= self.links@);
        }
    }

    /// Appends the state of every entity that instructions change to `out`,
    /// in order.
    pub fn get_mutable_into(&self, out: &mut Vec<Link>)
        requires
            self.well_formed(),
        ensures
            final(out)@ == old(out)@ + mutable_links(self.keys(), self.links()),
    {
        let mut i: usize = 0;
        while i < self.keys.len()
            invariant
                self.well_formed(),
                i <= self.keys@.len(),
                out@ == old(out)@ + mutable_links(self.keys@.take(i as int), self.links@.take(i as int)),
            decreases self.keys@.len() - i,
        {
            proof {
                assert(self.keys@.take(i + 1).drop_last() =~= self.keys@.take(i as int));
                assert(self.links@.take(i + 1).take(i as int) =~= self.links@.take(i as int));
            }
            if self.keys[i].kind.is_mutable() {
                out.push(self.links[i]);
            }
            i = i + 1;
        }
        proof {
            assert(self.keys@.take(i as int) =~= self.keys@);
            assert(self.links@.take(i as int) =~= self.links@);
        }
    }

    /// Takes the state of every entity, in order, from the ports of
    /// `producer` from `first` on, and returns the next port.
    pub fn set_all_from(&mut self, producer: u32, first: u16) -> (next: u16)
        requires
            old(self).well_formed(),
            first + old(self).keys().len() <= u16::MAX,
        ensures
            final(self).keys() == old(self).keys(),
            final(self).links() == ports_from(producer, first as int, old(self).keys().len()),
            next == first + old(self).keys().len(),
    {
        let mut i: usize = 0;
        let mut port: u16 = first;
        while i < self.links.len()
            invariant
                self.keys@ == old(self).keys@,
                self.links@.len() == old(self).links@.len(),
                self.links@.len() == self.keys@.len(),
                first + self.keys@.len() <= u16::MAX,
                i <= self.links@.len(),
                port == first + i,
                forall|k: int| 0 <= k < i ==> self.links@[k] == Link(producer, (first + k) as u16),
            decreases self.links@.len() - i,
        {
            self.links.set(i, Link(producer, port));
            port = port + 1;
            i = i + 1;
        }
        proof {
            assert(self.links@ =~= ports_from(producer, first as int, old(self).keys().len()));
        }
        port
    }

    /// Takes the state of every entity that instructions change, in order,
    /// from the ports of `producer` from `first` on.
    pub fn set_mutable_from(&mut self, producer: u32, first: u16)
        requires
            old(self).well_formed(),
            first + mutable_count(old(self).keys()) <= u16::MAX,
        ensures
            final(self).keys() == old(self).keys(),
            final(self).links() == renumbered(old(self).keys(), old(self).links(), producer, first as int),
            final(self).well_formed(),
    {
        let ghost keys = self.keys@;
        let ghost links = self.links@;
        let mut i: usize = 0;
        let mut port: u16 = first;
        proof {
            lemma_mutable_count_prefix(keys, keys.len() as int);
            assert(keys.take(keys.len() as int) =~= keys);
        }
        while i < self.keys.len()
            invariant
                self.keys@ == keys,
                keys.no_duplicates(),
                keys.len() == links.len(),
                first + mutable_count(keys) <= u16::MAX,
                i <= keys.len(),
                port == first + mutable_count(keys.take(i as int)),
                forall|j: int| 0 <= j <= keys.len() ==> mutable_count(#[trigger] keys.take(j)) <= mutable_count(keys),
                self.links@ == renumbered(keys.take(i as int), links, producer, first as int),
            decreases keys.len() - i,
        {
            proof {
                assert(keys.take(i + 1).drop_last() =~= keys.take(i as int));
                lemma_renumbered_len(keys.take(i as int), links, producer, first as int);
            }
            if self.keys[i].kind.is_mutable() {
                assert(mutable_count(keys.take(i + 1)) <= mutable_count(keys));
                self.links.set(i, Link(producer, port));
                port = port + 1;
            }
            i = i + 1;
        }
        proof {
            assert(keys.take(i as int) =~= keys);
            lemma_renumbered_len(keys, links, producer, first as int);
        }
    }
}

/// Renumbering keeps the number of states.
proof fn lemma_renumbered_len(keys: Seq<Reference>, links: Seq<Link>, producer: u32, first: int)
    requires
        keys.len() <= links.len(),
    ensures
        renumbered(keys, links, producer, first).len() == links.len(),
    decreases keys.len(),
{
    if keys.len() > 0 {
        lemma_renumbered_len(keys.drop_last(), links, producer, first);
    }
}

/// Every prefix of `keys` has at most as many entities that change as all
/// of `keys`.
proof fn lemma_mutable_count_prefix(keys: Seq<Reference>, n: int)
    requires
        0 <= n <= keys.len(),
    ensures
        forall|j: int| 0 <= j <= n ==> mutable_count(#[trigger] keys.take(j)) <= mutable_count(keys.take(n)),
    decreases n,
{
    if n > 0 {
        lemma_mutable_count_prefix(keys, n - 1);
        assert(keys.take(n).drop_last() =~= keys.take(n - 1));
    }
    assert(keys.take(keys.len() as int) =~= keys);
}

} // verus!
