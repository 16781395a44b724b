//! The view of the graph that peephole rules match against: constants and
//! operation fields, with every operand traced back through identities to
//! the value that actually produces it.

use vstd::prelude::*;

use crate::visitor::constant_isolator::links_in_range;
use crate::graph::{
    simple::{
        GlobalGet, GlobalNew, GlobalSet, Identity, IntegerBinaryOperation, IntegerBinaryOperator,
        IntegerType, LoadType, Location, MemoryLoad, MemoryStore, StoreType, TableGet, TableSet,
    },
    DataFlowGraph, Link, Node,
};

verus! {

/// The link that an identity forwards its port to, or `None` for any other
/// node or a port the identity does not have.
pub open spec fn next_producer(node: Node, port: u16) -> Option<Link> {
    match node {
        Node::Identity(identity) => if (port as int) < identity.sources@.len() {
            Some(identity.sources@[port as int])
        } else {
            None
        },
        _ => None,
    }
}

/// Whether every identity only forwards to nodes before it, which is what a
/// topologically ordered graph guarantees.
pub open spec fn producers_ordered(nodes: Seq<Node>) -> bool {
    forall|j: int, port: u16|
        0 <= j < nodes.len() ==> (#[trigger] next_producer(nodes[j], port) matches Some(next) ==> next.0 < j)
}

/// The value behind `link`, found by following identities until a node that
/// is not an identity, or an identity port that is out of range, is reached.
pub open spec fn first_producer(nodes: Seq<Node>, link: Link) -> Link
    decreases link.0,
{
    if link.0 < nodes.len() {
        match next_producer(nodes[link.0 as int], link.1) {
            Some(next) => if next.0 < link.0 {
                first_producer(nodes, next)
            } else {
                link
            },
            None => link,
        }
    } else {
        link
    }
}

// A matched link may end up as an operand of the node a rule builds, and that
// node takes the place of the one that matched. Resolving a link therefore has
// to stay inside the region the match started in: an identity always sits in
// the same region as its source, while a `RegionIn` or `GammaIn` port
// deliberately crosses one, so those are left alone.
fn get_next_producer(node: &Node, port: u16) -> (next: Option<Link>)
    ensures
        next == next_producer(*node, port),
{
    let index = port as usize;
    let producer = match node {
        Node::Identity(Identity { sources }) => {
            if index < sources.len() {
                sources[index]
            } else {
                return None;
            }
        },
        _ => return None,
    };

    Some(producer)
}

/// Follows identities from `source` back to the value that produces it.
pub fn find_first_producer(graph: &DataFlowGraph, source: Link) -> (producer: Link)
    requires
        producers_ordered(graph@),
        source.0 < graph@.len(),
    ensures
        producer == first_producer(graph@, source),
        producer.0 < graph@.len(),
        next_producer(graph@[producer.0 as int], producer.1) is None,
{
    let mut current = source;
    loop
        invariant
            producers_ordered(graph@),
            current.0 < graph@.len(),
            first_producer(graph@, current) == first_producer(graph@, source),
        decreases current.0,
    {
        let Link(id, port) = current;

        match get_next_producer(graph.get(id), port) {
            Some(next) => {
                assert(next_producer(graph@[id as int], port) matches Some(n) && n.0 < id);
                current = next;
            },
            None => {
                assert(first_producer(graph@, current) == current);
                return current;
            },
        }
    }
}


impl DataFlowGraph {
    /// The 32-bit constant that `link` reads, if it reads one.
    pub fn get_i32(&self, link: Link) -> (value: Option<i32>)
        requires
            link.0 < self@.len(),
        ensures
            value == (match self@[link.0 as int] {
                Node::I32(v) => Some(v),
                _ => None::<i32>,
            }),
    {
        match self.get(link.0) {
            Node::I32(value) => Some(*value),
            _ => None,
        }
    }

    /// Adds a 32-bit constant to the graph.
    pub fn add_i32(&mut self, value: i32) -> (link: Link)
        requires
            old(self)@.len() <= u32::MAX,
        ensures
            final(self)@ == old(self)@.push(Node::I32(value)),
            link == Link(old(self)@.len() as u32, 0),
    {
        Node::add_i32_into(self, value)
    }

    /// The 64-bit constant that `link` reads, if it reads one.
    pub fn get_i64(&self, link: Link) -> (value: Option<i64>)
        requires
            link.0 < self@.len(),
        ensures
            value == (match self@[link.0 as int] {
                Node::I64(v) => Some(v),
                _ => None::<i64>,
            }),
    {
        match self.get(link.0) {
            Node::I64(value) => Some(*value),
            _ => None,
        }
    }

    /// Adds a 64-bit constant to the graph.
    pub fn add_i64(&mut self, value: i64) -> (link: Link)
        requires
            old(self)@.len() <= u32::MAX,
        ensures
            final(self)@ == old(self)@.push(Node::I64(value)),
            link == Link(old(self)@.len() as u32, 0),
    {
        Node::add_i64_into(self, value)
    }

    /// The bit pattern of the 32-bit float constant that `link` reads, if it
    /// reads one.
    pub fn get_f32(&self, link: Link) -> (value: Option<u32>)
        requires
            link.0 < self@.len(),
        ensures
            value == (match self@[link.0 as int] {
                Node::F32(v) => Some(v),
                _ => None::<u32>,
            }),
    {
        match self.get(link.0) {
            Node::F32(value) => Some(*value),
            _ => None,
        }
    }

    /// The bit pattern of the 64-bit float constant that `link` reads, if it
    /// reads one.
    pub fn get_f64(&self, link: Link) -> (value: Option<u64>)
        requires
            link.0 < self@.len(),
        ensures
            value == (match self@[link.0 as int] {
                Node::F64(v) => Some(v),
                _ => None::<u64>,
            }),
    {
        match self.get(link.0) {
            Node::F64(value) => Some(*value),
            _ => None,
        }
    }

    /// The operands, traced to their producers, type and operator of the
    /// integer binary operation that `link` reads, if it reads one.
    pub fn get_integer_binary_operation(&self, link: Link) -> (operation: Option<
        (Link, Link, IntegerType, IntegerBinaryOperator),
    >)
        requires
            producers_ordered(self@),
            links_in_range(self@),
            link.0 < self@.len(),
        ensures
            operation == (match self@[link.0 as int] {
                Node::IntegerBinaryOperation(n) => Some(
                    (
                        first_producer(self@, n.lhs),
                        first_producer(self@, n.rhs),
                        n.kind,
                        n.operator,
                    ),
                ),
                _ => None,
            }),
    {
        match self.get(link.0) {
            Node::IntegerBinaryOperation(IntegerBinaryOperation { lhs, rhs, kind, operator }) => {
                proof {
                    lemma_argument_in_range(self@, link.0 as int, 0);
                    lemma_argument_in_range(self@, link.0 as int, 1);
                }
                let lhs = find_first_producer(self, *lhs);
                let rhs = find_first_producer(self, *rhs);

                Some((lhs, rhs, *kind, *operator))
            },
            _ => None,
        }
    }

    /// Adds an integer binary operation to the graph.
    pub fn add_integer_binary_operation(
        &mut self,
        lhs: Link,
        rhs: Link,
        kind: &IntegerType,
        operator: &IntegerBinaryOperator,
    ) -> (link: Link)
        requires
            old(self)@.len() <= u32::MAX,
        ensures
            final(self)@ == old(self)@.push(
                Node::IntegerBinaryOperation(
                    IntegerBinaryOperation { lhs, rhs, kind: *kind, operator: *operator },
                ),
            ),
            link == Link(old(self)@.len() as u32, 0),
    {
        IntegerBinaryOperation::add_into(self, lhs, rhs, *kind, *operator)
    }

    /// Adds two 32-bit integers, wrapping around on overflow.
    pub fn raw_add_i32(&self, lhs: i32, rhs: i32) -> (sum: i32)
        ensures
            sum as int == crate::visitor::isle::wrap_i32(lhs + rhs),
    {
        lhs.wrapping_add(rhs)
    }

    /// Subtracts two 32-bit integers, wrapping around on overflow.
    pub fn raw_sub_i32(&self, lhs: i32, rhs: i32) -> (difference: i32)
        ensures
            difference as int == crate::visitor::isle::wrap_i32(lhs - rhs),
    {
        lhs.wrapping_sub(rhs)
    }

    /// The initializer, traced to its producer, of the global creation that
    /// `link` reads, if it reads one.
    pub fn get_global_new(&self, link: Link) -> (initializer: Option<Link>)
        requires
            producers_ordered(self@),
            links_in_range(self@),
            link.0 < self@.len(),
        ensures
            initializer == (match self@[link.0 as int] {
                Node::GlobalNew(n) => Some(first_producer(self@, n.initializer)),
                _ => None,
            }),
    {
        match self.get(link.0) {
            Node::GlobalNew(GlobalNew { initializer }) => {
                proof {
                    lemma_argument_in_range(self@, link.0 as int, 0);
                }
                let initializer = find_first_producer(self, *initializer);

                Some(initializer)
            },
            _ => None,
        }
    }

    /// The global, traced to its producer, that the global read `link` reads
    /// from, if it reads a global read.
    pub fn get_global_get(&self, link: Link) -> (source: Option<Link>)
        requires
            producers_ordered(self@),
            links_in_range(self@),
            link.0 < self@.len(),
        ensures
            source == (match self@[link.0 as int] {
                Node::GlobalGet(n) => Some(first_producer(self@, n.source)),
                _ => None,
            }),
    {
        match self.get(link.0) {
            Node::GlobalGet(GlobalGet { source }) => {
                proof {
                    lemma_argument_in_range(self@, link.0 as int, 0);
                }
                let source = find_first_producer(self, *source);

                Some(source)
            },
            _ => None,
        }
    }

    /// The destination and source, traced to their producers, of the global
    /// write that `link` reads, if it reads one.
    pub fn get_global_set(&self, link: Link) -> (operands: Option<(Link, Link)>)
        requires
            producers_ordered(self@),
            links_in_range(self@),
            link.0 < self@.len(),
        ensures
            operands == (match self@[link.0 as int] {
                Node::GlobalSet(n) => Some(
                    (first_producer(self@, n.destination), first_producer(self@, n.source)),
                ),
                _ => None,
            }),
    {
        match self.get(link.0) {
            Node::GlobalSet(GlobalSet { destination, source }) => {
                proof {
                    lemma_argument_in_range(self@, link.0 as int, 0);
                    lemma_argument_in_range(self@, link.0 as int, 1);
                }
                let destination = find_first_producer(self, *destination);
                let source = find_first_producer(self, *source);

                Some((destination, source))
            },
            _ => None,
        }
    }

    /// The location, traced to its producers, of the unguarded table read
    /// that `link` reads, if it reads one.
    ///
    /// A read that guards an indirect call must keep its type check, so it is
    /// never matched.
    pub fn get_table_get(&self, link: Link) -> (location: Option<(Link, Link)>)
        requires
            producers_ordered(self@),
            links_in_range(self@),
            link.0 < self@.len(),
        ensures
            location == (match self@[link.0 as int] {
                Node::TableGet(n) => if n.key is None {
                    Some(
                        (
                            first_producer(self@, n.source.reference),
                            first_producer(self@, n.source.offset),
                        ),
                    )
                } else {
                    None
                },
                _ => None,
            }),
    {
        match self.get(link.0) {
            Node::TableGet(TableGet { source: Location { reference, offset }, key: None }) => {
                proof {
                    lemma_argument_in_range(self@, link.0 as int, 0);
                    lemma_argument_in_range(self@, link.0 as int, 1);
                }
                let reference = find_first_producer(self, *reference);
                let offset = find_first_producer(self, *offset);

                Some((reference, offset))
            },
            _ => None,
        }
    }

    /// The location and source, traced to their producers, of the table
    /// write that `link` reads, if it reads one.
    pub fn get_table_set(&self, link: Link) -> (operands: Option<(Link, Link, Link)>)
        requires
            producers_ordered(self@),
            links_in_range(self@),
            link.0 < self@.len(),
        ensures
            operands == (match self@[link.0 as int] {
                Node::TableSet(n) => Some(
                    (
                        first_producer(self@, n.destination.reference),
                        first_producer(self@, n.destination.offset),
                        first_producer(self@, n.source),
                    ),
                ),
                _ => None,
            }),
    {
        match self.get(link.0) {
            Node::TableSet(TableSet { destination: Location { reference, offset }, source }) => {
                proof {
                    lemma_argument_in_range(self@, link.0 as int, 0);
                    lemma_argument_in_range(self@, link.0 as int, 1);
                    lemma_argument_in_range(self@, link.0 as int, 2);
                }
                let reference = find_first_producer(self, *reference);
                let offset = find_first_producer(self, *offset);
                let source = find_first_producer(self, *source);

                Some((reference, offset, source))
            },
            _ => None,
        }
    }

    /// The location, traced to its producers, static offset and type of the
    /// memory load that `link` reads, if it reads one.
    pub fn get_memory_load(&self, link: Link) -> (operands: Option<(Link, Link, u32, LoadType)>)
        requires
            producers_ordered(self@),
            links_in_range(self@),
            link.0 < self@.len(),
        ensures
            operands == (match self@[link.0 as int] {
                Node::MemoryLoad(n) => Some(
                    (
                        first_producer(self@, n.source.reference),
                        first_producer(self@, n.source.offset),
                        n.offset,
                        n.kind,
                    ),
                ),
                _ => None,
            }),
    {
        match self.get(link.0) {
            Node::MemoryLoad(MemoryLoad { source: Location { reference, offset }, offset: static_offset, kind }) => {
                proof {
                    lemma_argument_in_range(self@, link.0 as int, 0);
                    lemma_argument_in_range(self@, link.0 as int, 1);
                }
                let reference = find_first_producer(self, *reference);
                let offset = find_first_producer(self, *offset);

                Some((reference, offset, *static_offset, *kind))
            },
            _ => None,
        }
    }

    /// The location and source, traced to their producers, static offset and
    /// type of the memory store that `link` reads, if it reads one.
    pub fn get_memory_store(&self, link: Link) -> (operands: Option<(Link, Link, u32, Link, StoreType)>)
        requires
            producers_ordered(self@),
            links_in_range(self@),
            link.0 < self@.len(),
        ensures
            operands == (match self@[link.0 as int] {
                Node::MemoryStore(n) => Some(
                    (
                        first_producer(self@, n.destination.reference),
                        first_producer(self@, n.destination.offset),
                        n.offset,
                        first_producer(self@, n.source),
                        n.kind,
                    ),
                ),
                _ => None,
            }),
    {
        match self.get(link.0) {
            Node::MemoryStore(MemoryStore { destination: Location { reference, offset }, source, offset: static_offset, kind }) => {
                proof {
                    lemma_argument_in_range(self@, link.0 as int, 0);
                    lemma_argument_in_range(self@, link.0 as int, 1);
                    lemma_argument_in_range(self@, link.0 as int, 2);
                }
                let reference = find_first_producer(self, *reference);
                let offset = find_first_producer(self, *offset);
                let source = find_first_producer(self, *source);

                Some((reference, offset, *static_offset, source, *kind))
            },
            _ => None,
        }
    }
}

/// The value of a mathematical integer wrapped into the range of an `i32`.
pub open spec fn wrap_i32(value: int) -> int {
    let low = value % 0x1_0000_0000;
    if low >= 0x8000_0000 {
        low - 0x1_0000_0000
    } else {
        low
    }
}

proof fn lemma_argument_in_range(nodes: Seq<Node>, j: int, k: int)
    requires
        links_in_range(nodes),
        0 <= j < nodes.len(),
        0 <= k < nodes[j].arguments().len(),
    ensures
        nodes[j].arguments()[k].0 < nodes.len(),
{
}

/// Whether a rewrite of `destination` to `sources` may move the node that
/// produces them: there is exactly one source, it is the first port of a node
/// that the rewrite added itself, at `added` or later.
pub open spec fn moves_source(sources: Seq<Link>, added: u32) -> bool {
    sources.len() == 1 && sources[0].1 == 0 && sources[0].0 >= added
}

fn replace_with_identity(graph: &mut DataFlowGraph, destination: u32, sources: &[Link])
    requires
        destination < old(graph)@.len(),
    ensures
        final(graph)@.len() == old(graph)@.len(),
        forall|j: int| 0 <= j < old(graph)@.len() && j != destination ==> final(graph)@[j] == old(graph)@[j],
        final(graph)@[destination as int] matches Node::Identity(identity) && identity.sources@ == sources@,
{
    let mut copied: Vec<Link> = Vec::new();
    let mut i: usize = 0;
    while i < sources.len()
        invariant
            i <= sources@.len(),
            copied@ == sources@.subrange(0, i as int),
        decreases sources@.len() - i,
    {
        copied.push(sources[i]);
        i = i + 1;
        assert(copied@ =~= sources@.subrange(0, i as int));
    }
    assert(sources@.subrange(0, i as int) =~= sources@);
    graph.replace(destination, Node::Identity(Identity { sources: copied }));
}

/// Moves the `source` node into `destination`, leaving a trap behind.
///
/// This is only sound when `source` was created while applying the rule, as
/// such a node is not referenced by anything else yet.
fn replace_with_direct(graph: &mut DataFlowGraph, destination: u32, source: u32)
    requires
        destination < old(graph)@.len(),
        source < old(graph)@.len(),
    ensures
        final(graph)@ == old(graph)@.update(source as int, Node::Trap).update(
            destination as int,
            old(graph)@[source as int],
        ),
{
    let moved = graph.replace(source, Node::Trap);

    graph.replace(destination, moved);
}

/// Returns the identifier the next node added to `graph` would be given.
pub fn next_id(graph: &DataFlowGraph) -> (id: u32)
    ensures
        id == (if graph@.len() <= u32::MAX {
            graph@.len()
        } else {
            u32::MAX as nat
        }),
{
    let len = graph.len();
    if len <= u32::MAX as usize {
        len as u32
    } else {
        u32::MAX
    }
}

/// Replaces node `destination` with what a rewrite produced: the node behind
/// its single source when the rewrite created that node itself, which is then
/// moved in, and an identity forwarding the sources otherwise.
pub fn replace_node(graph: &mut DataFlowGraph, destination: u32, sources: &[Link], added: u32)
    requires
        destination < old(graph)@.len(),
        moves_source(sources@, added) ==> sources@[0].0 < old(graph)@.len(),
    ensures
        moves_source(sources@, added) ==> final(graph)@ == old(graph)@.update(
            sources@[0].0 as int,
            Node::Trap,
        ).update(destination as int, old(graph)@[sources@[0].0 as int]),
        !moves_source(sources@, added) ==> {
            &&& final(graph)@.len() == old(graph)@.len()
            &&& forall|j: int|
                0 <= j < old(graph)@.len() && j != destination ==> final(graph)@[j] == old(graph)@[j]
            &&& final(graph)@[destination as int] matches Node::Identity(identity)
                && identity.sources@ == sources@
        },
{
    if sources.len() == 1 && sources[0].1 == 0 && sources[0].0 >= added {
        replace_with_direct(graph, destination, sources[0].0);
    } else {
        replace_with_identity(graph, destination, sources);
    }
}

} // verus!
