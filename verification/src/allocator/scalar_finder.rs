//! Which values need a local of their own: every value used out of order,
//! more than once, from a port other than the first, or whose node has side
//! effects but no use.

use vstd::prelude::*;

use crate::{
    allocator::{
        flag_map::FlagMap,
        preferences::{try_insert_ports, try_ports},
    },
    graph::{DataFlowGraph, Link, Node},
    visitor::link_map::LinkMap,
};

verus! {

/// The number of value ports of `node`.
pub open spec fn result_count(node: Node) -> nat {
    match node {
        Node::LambdaIn(_) | Node::RegionIn(_) | Node::RegionOut(_) | Node::GammaIn(_) | Node::GammaOut(_)
        | Node::ThetaIn(_) | Node::ThetaOut(_) | Node::OmegaIn(_) | Node::Fence(_) | Node::GlobalSet(_)
        | Node::TableSet(_) | Node::TableFill(_) | Node::TableCopy(_) | Node::TableDrop(_)
        | Node::MemoryStore(_) | Node::MemoryFill(_) | Node::MemoryCopy(_) | Node::MemoryDrop(_) => 0,
        Node::Identity(node) => node.sources@.len(),
        Node::Apply(node) => node.results as nat,
        _ => 1,
    }
}

/// Whether the value ports of `node` can be counted in a `u16`.
pub open spec fn countable(node: Node) -> bool {
    node is Identity ==> node->Identity_0.sources@.len() <= u16::MAX
}

/// Returns the number of value ports of `node`.
pub fn result_count_of(node: &Node) -> (count: u16)
    requires
        countable(*node),
    ensures
        count == result_count(*node),
{
    match node {
        Node::LambdaIn(_) | Node::RegionIn(_) | Node::RegionOut(_) | Node::GammaIn(_) | Node::GammaOut(_)
        | Node::ThetaIn(_) | Node::ThetaOut(_) | Node::OmegaIn(_) | Node::Fence(_) | Node::GlobalSet(_)
        | Node::TableSet(_) | Node::TableFill(_) | Node::TableCopy(_) | Node::TableDrop(_)
        | Node::MemoryStore(_) | Node::MemoryFill(_) | Node::MemoryCopy(_) | Node::MemoryDrop(_) => 0,
        Node::Identity(node) => node.sources.len() as u16,
        Node::Apply(node) => node.results,
        _ => 1,
    }
}

/// Gives every value port of node `id` an empty preference, unless it has one.
fn add_value_assignments(assignments: &mut LinkMap, graph: &DataFlowGraph, id: u32)
    requires
        id < graph@.len(),
        countable(graph@[id as int]),
    ensures
        final(assignments)@ == try_ports(old(assignments)@, id, result_count(graph@[id as int])),
{
    let results = result_count_of(graph.get(id));

    try_insert_ports(assignments, id, results);
}

/// Whether a handled flag of node `id` is set, or absent, in `handled`.
pub open spec fn flag(handled: Map<u32, bool>, id: u32) -> Option<bool> {
    if handled.contains_key(id) {
        Some(handled[id])
    } else {
        None
    }
}

/// The effect of one use of port `port` of node `id` on the handled flags and
/// the preferences: a first port's first use is noted, and its second use, or
/// any use of another port, gives every value port of the node a local.
pub open spec fn use_effect(
    state: (Map<u32, bool>, Map<u64, Link>),
    graph: Seq<Node>,
    id: u32,
    port: u16,
) -> (Map<u32, bool>, Map<u64, Link>) {
    let (handled, preferences) = state;
    let assigned = try_ports(preferences, id, result_count(graph[id as int]));
    if port == 0 {
        match flag(handled, id) {
            Some(true) => state,
            Some(false) => (handled.insert(id, true), assigned),
            None => (handled.insert(id, false), preferences),
        }
    } else {
        if flag(handled, id) == Some(true) {
            (handled, preferences)
        } else {
            (handled.insert(id, true), assigned)
        }
    }
}

/// The effect of the uses `links`, in order.
pub open spec fn uses_effect(
    state: (Map<u32, bool>, Map<u64, Link>),
    graph: Seq<Node>,
    links: Seq<Link>,
) -> (Map<u32, bool>, Map<u64, Link>)
    decreases links.len(),
{
    if links.len() == 0 {
        state
    } else {
        use_effect(uses_effect(state, graph, links.drop_last()), graph, links.last().0, links.last().1)
    }
}

/// The effect of the uses of the first `n` nodes of `graph`.
pub open spec fn all_uses_effect(state: (Map<u32, bool>, Map<u64, Link>), graph: Seq<Node>, n: int) -> (
    Map<u32, bool>,
    Map<u64, Link>,
)
    decreases n,
{
    if n <= 0 {
        state
    } else {
        uses_effect(all_uses_effect(state, graph, n - 1), graph, graph[n - 1].arguments())
    }
}

/// Whether `node` has side effects that are lost without a use of its value.
pub open spec fn effectful(node: Node) -> bool {
    node is Apply || node is TableGrow || node is MemoryGrow
}

/// The effect of the side effects of the first `n` nodes: a node with side
/// effects that no use handled gives every value port a local.
pub open spec fn all_effects(state: (Map<u32, bool>, Map<u64, Link>), graph: Seq<Node>, n: int) -> (
    Map<u32, bool>,
    Map<u64, Link>,
)
    decreases n,
{
    if n <= 0 {
        state
    } else {
        let before = all_effects(state, graph, n - 1);
        let id = (n - 1) as u32;
        if effectful(graph[n - 1]) && !before.0.contains_key(id) {
            (before.0.insert(id, true), try_ports(before.1, id, result_count(graph[n - 1])))
        } else {
            before
        }
    }
}

/// Whether every argument of every node of `graph` links to a node of it
/// whose value ports can be counted.
pub open spec fn uses_within(graph: Seq<Node>) -> bool {
    &&& forall|i: int| 0 <= i < graph.len() ==> countable(#[trigger] graph[i])
    &&& forall|i: int, k: int|
        0 <= i < graph.len() && 0 <= k < graph[i].arguments().len() ==> (#[trigger] graph[i].arguments()[k]).0
            < graph.len()
}

/// Finds the values that need a local of their own.
pub struct ScalarFinder {
    handled: FlagMap,
}

impl ScalarFinder {
    /// The handled flag of each node seen so far.
    pub closed spec fn handled(&self) -> Map<u32, bool> {
        self.handled@
    }

    /// Creates a new scalar finder.
    pub fn new() -> (finder: Self)
        ensures
            finder.handled() == Map::<u32, bool>::empty(),
    {
        ScalarFinder { handled: FlagMap::new() }
    }

    fn handle_effects(&mut self, assignments: &mut LinkMap, graph: &DataFlowGraph, id: u32, node: &Node)
        requires
            id < graph@.len(),
            *node == graph@[id as int],
            countable(*node),
        ensures
            effectful(*node) && !old(self).handled@.contains_key(id) ==> {
                &&& final(self).handled@ == old(self).handled@.insert(id, true)
                &&& final(assignments)@ == try_ports(old(assignments)@, id, result_count(*node))
            },
            !(effectful(*node) && !old(self).handled@.contains_key(id)) ==> {
                &&& final(self).handled@ == old(self).handled@
                &&& final(assignments)@ == old(assignments)@
            },
    {
        let effects = match node {
            Node::Apply(_) | Node::TableGrow(_) | Node::MemoryGrow(_) => true,
            _ => false,
        };
        if !effects {
            return;
        }
        if self.handled.get(id).is_none() {
            self.handled.insert(id, true);

            add_value_assignments(assignments, graph, id);
        }
    }

    fn handle_use(&mut self, assignments: &mut LinkMap, graph: &DataFlowGraph, link: Link)
        requires
            link.0 < graph@.len(),
            countable(graph@[link.0 as int]),
        ensures
            (final(self).handled@, final(assignments)@) == use_effect(
                (old(self).handled@, old(assignments)@),
                graph@,
                link.0,
                link.1,
            ),
    {
        let Link(id, port) = link;
        if port == 0 {
            self.handle_repeat(assignments, graph, id);
        } else {
            self.handle_excess(assignments, graph, id);
        }
    }

    fn handle_repeat(&mut self, assignments: &mut LinkMap, graph: &DataFlowGraph, id: u32)
        requires
            id < graph@.len(),
            countable(graph@[id as int]),
        ensures
            (final(self).handled@, final(assignments)@) == use_effect(
                (old(self).handled@, old(assignments)@),
                graph@,
                id,
                0,
            ),
    {
        match self.handled.get(id) {
            Some(true) => {},
            Some(false) => {
                self.handled.insert(id, true);
                add_value_assignments(assignments, graph, id);
            },
            None => {
                self.handled.insert(id, false);
            },
        }
    }

    fn handle_excess(&mut self, assignments: &mut LinkMap, graph: &DataFlowGraph, id: u32)
        requires
            id < graph@.len(),
            countable(graph@[id as int]),
        ensures
            forall|port: u16|
                port != 0 ==> (final(self).handled@, final(assignments)@) == #[trigger] use_effect(
                    (old(self).handled@, old(assignments)@),
                    graph@,
                    id,
                    port,
                ),
    {
        let previous = self.handled.get(id);
        self.handled.insert(id, true);
        if previous == Some(true) {
            assert(self.handled@ =~= old(self).handled@);
            return;
        }

        add_value_assignments(assignments, graph, id);
    }

    fn handle_uses(&mut self, assignments: &mut LinkMap, graph: &DataFlowGraph, node: &Node)
        requires
            uses_within(graph@),
            exists|i: int| 0 <= i < graph@.len() && graph@[i] == *node,
        ensures
            (final(self).handled@, final(assignments)@) == uses_effect(
                (old(self).handled@, old(assignments)@),
                graph@,
                node.arguments(),
            ),
    {
        let mut arguments: Vec<Link> = Vec::new();
        node.for_each_argument(&mut arguments);
        assert(arguments@ =~= node.arguments());
        let ghost i = choose|i: int| 0 <= i < graph@.len() && graph@[i] == *node;
        let mut k: usize = 0;
        while k < arguments.len()
            invariant
                uses_within(graph@),
                0 <= i < graph@.len(),
                graph@[i] == *node,
                arguments@ == node.arguments(),
                k <= arguments@.len(),
                (self.handled@, assignments@) == uses_effect(
                    (old(self).handled@, old(assignments)@),
                    graph@,
                    arguments@.subrange(0, k as int),
                ),
            decreases arguments@.len() - k,
        {
            let link = arguments[k];
            assert(graph@[i].arguments()[k as int] == link);
            assert(countable(graph@[link.0 as int]));
            self.handle_use(assignments, graph, link);
            k = k + 1;
            assert(arguments@.subrange(0, k as int).drop_last() =~= arguments@.subrange(0, k - 1));
        }
        assert(arguments@.subrange(0, k as int) =~= arguments@);
    }

    /// Gives a local to every value port of a node when any of them is used
    /// out of local order, more than once, or from a port other than the
    /// first, or when none is used but the node has side effects.
    pub fn run(&mut self, assignments: &mut LinkMap, graph: &DataFlowGraph)
        requires
            uses_within(graph@),
            graph@.len() <= u32::MAX,
        ensures
            (final(self).handled(), final(assignments)@) == all_effects(
                all_uses_effect((Map::empty(), old(assignments)@), graph@, graph@.len() as int),
                graph@,
                graph@.len() as int,
            ),
    {
        self.handled.clear();
        let nodes = graph.nodes();
        let mut id: usize = 0;
        while id < nodes.len()
            invariant
                nodes@ == graph@,
                uses_within(graph@),
                id <= nodes@.len(),
                (self.handled@, assignments@) == all_uses_effect(
                    (Map::empty(), old(assignments)@),
                    graph@,
                    id as int,
                ),
            decreases nodes@.len() - id,
        {
            self.handle_uses(assignments, graph, &nodes[id]);
            id = id + 1;
        }
        let ghost uses = (self.handled@, assignments@);
        let mut id: usize = 0;
        while id < nodes.len()
            invariant
                nodes@ == graph@,
                graph@.len() <= u32::MAX,
                uses_within(graph@),
                id <= nodes@.len(),
                uses == all_uses_effect((Map::empty(), old(assignments)@), graph@, graph@.len() as int),
                (self.handled@, assignments@) == all_effects(uses, graph@, id as int),
            decreases nodes@.len() - id,
        {
            self.handle_effects(assignments, graph, id as u32, &nodes[id]);
            id = id + 1;
        }
    }
}

} // verus!
