//! The parts of the JSON form of a data flow graph that are read off the
//! graph itself: which nodes are drawn, the subgraphs that regions open, and
//! the edges that links draw.

use vstd::prelude::*;

use crate::graph::{control::GammaOut, DataFlowGraph, Link, Node};

verus! {

/// Whether the JSON form leaves `node` out: the output halves of regions and
/// lambdas, which close what their input half opened.
pub open spec fn skipped(node: Node) -> bool {
    node is OmegaOut || node is LambdaOut || node is RegionIn || node is RegionOut
        || node is GammaOut || node is ThetaOut
}

/// The subgraph that `node`, numbered `id`, opens: the node that owns it, its
/// input node and its output node.
pub open spec fn subgraph_of(node: Node, id: u32) -> Option<(u32, u32, u32)> {
    match node {
        Node::LambdaIn(inner) => Some((id, id, inner.output)),
        Node::ThetaIn(inner) => Some((id, id, inner.output)),
        Node::OmegaIn(inner) => Some((id, id, inner.output)),
        Node::RegionIn(inner) => Some((inner.input, id, inner.output)),
        _ => None,
    }
}

/// Every node that opens a region draws a subgraph to its paired output
/// node: a lambda, loop or omega input from itself, a region input from the
/// gamma input it belongs to; no other node opens one.
pub proof fn lemma_region_nodes_open_subgraphs(node: Node, id: u32)
    ensures
        node matches Node::LambdaIn(inner) ==> subgraph_of(node, id) == Some((id, id, inner.output)),
        node matches Node::ThetaIn(inner) ==> subgraph_of(node, id) == Some((id, id, inner.output)),
        node matches Node::OmegaIn(inner) ==> subgraph_of(node, id) == Some((id, id, inner.output)),
        node matches Node::RegionIn(inner) ==> subgraph_of(node, id) == Some((inner.input, id, inner.output)),
        !(node is LambdaIn || node is ThetaIn || node is OmegaIn || node is RegionIn) ==> subgraph_of(node, id)
            is None,
{
}

/// The subgraph fields of the first `n` nodes: three numbers per subgraph.
pub open spec fn subgraphs_upto(nodes: Seq<Node>, n: int) -> Seq<u32>
    decreases n,
{
    if n <= 0 {
        Seq::empty()
    } else {
        subgraphs_upto(nodes, n - 1) + match subgraph_of(nodes[n - 1], (n - 1) as u32) {
            Some(found) => seq![found.0, found.1, found.2],
            None => Seq::empty(),
        }
    }
}

/// The subgraph fields of the first `n` nodes hold, as three consecutive
/// numbers, the subgraph of every one of them that opens a region: a loop
/// input numbered `j` puts `j`, `j` and its output there.
pub proof fn lemma_fields_hold_each_subgraph(nodes: Seq<Node>, n: int, j: int)
    requires
        0 <= j < n <= nodes.len(),
        subgraph_of(nodes[j], j as u32) is Some,
    ensures
        ({
            let found = subgraph_of(nodes[j], j as u32)->0;
            let fields = subgraphs_upto(nodes, n);
            exists|p: int|
                0 <= p && p + 3 <= fields.len() && #[trigger] fields.subrange(p, p + 3) == seq![found.0, found.1, found.2]
        }),
    decreases n,
{
    let found = subgraph_of(nodes[j], j as u32)->0;
    let before = subgraphs_upto(nodes, n - 1);
    let fields = subgraphs_upto(nodes, n);
    if j == n - 1 {
        let p = before.len() as int;
        assert(fields.subrange(p, p + 3) =~= seq![found.0, found.1, found.2]);
    } else {
        lemma_fields_hold_each_subgraph(nodes, n - 1, j);
        let p = choose|p: int|
            0 <= p && p + 3 <= before.len() && #[trigger] before.subrange(p, p + 3) == seq![found.0, found.1, found.2];
        assert(fields.subrange(p, p + 3) =~= before.subrange(p, p + 3));
    }
}

/// The node an edge out of `id` is drawn from: the input of a gamma output,
/// which is drawn in its input's place, and `id` itself otherwise.
pub open spec fn edge_source(nodes: Seq<Node>, id: u32) -> u32 {
    if id < nodes.len() {
        match nodes[id as int] {
            Node::GammaOut(inner) => inner.input,
            _ => id,
        }
    } else {
        id
    }
}

/// The edge fields of the first `k` arguments `args` of node `id`: the source
/// node, the source port, the node and the argument's rank.
pub open spec fn argument_edges(nodes: Seq<Node>, id: u32, args: Seq<Link>, k: int) -> Seq<u32>
    decreases k,
{
    if k <= 0 {
        Seq::empty()
    } else {
        argument_edges(nodes, id, args, k - 1) + seq![
            edge_source(nodes, args[k - 1].0),
            args[k - 1].1 as u32,
            id,
            (k - 1) as u32,
        ]
    }
}

/// The edge fields of the arguments of the first `n` nodes.
pub open spec fn edges_upto(nodes: Seq<Node>, n: int) -> Seq<u32>
    decreases n,
{
    if n <= 0 {
        Seq::empty()
    } else {
        edges_upto(nodes, n - 1) + argument_edges(
            nodes,
            (n - 1) as u32,
            nodes[n - 1].arguments(),
            nodes[n - 1].arguments().len() as int,
        )
    }
}

/// Whether every argument of every node of `nodes` links to a node of them,
/// and no node has more arguments than a `u32` can number.
pub open spec fn links_within(nodes: Seq<Node>) -> bool {
    forall|i: int|
        0 <= i < nodes.len() ==> {
            &&& nodes[i].arguments().len() <= u32::MAX
            &&& forall|k: int|
                0 <= k < nodes[i].arguments().len() ==> (#[trigger] nodes[i].arguments()[k]).0 < nodes.len()
        }
}

/// Whether the JSON form leaves `node` out.
pub fn should_skip_node(node: &Node) -> (skip: bool)
    ensures
        skip == skipped(*node),
{
    match node {
        Node::OmegaOut(_) | Node::LambdaOut(_) | Node::RegionIn(_) | Node::RegionOut(_)
        | Node::GammaOut(_) | Node::ThetaOut(_) => true,
        _ => false,
    }
}

/// Returns the subgraph that `node`, numbered `id`, opens, if any.
pub fn region_to_subgraph(node: &Node, id: u32) -> (found: Option<(u32, u32, u32)>)
    ensures
        found == subgraph_of(*node, id),
{
    match node {
        Node::LambdaIn(inner) => Some((id, id, inner.output)),
        Node::ThetaIn(inner) => Some((id, id, inner.output)),
        Node::OmegaIn(inner) => Some((id, id, inner.output)),
        Node::RegionIn(inner) => Some((inner.input, id, inner.output)),
        _ => None,
    }
}

/// The numeric fields of the JSON form of a graph.
pub struct JsonPrinter {
    subgraphs: Vec<u32>,
    nodes: Vec<u32>,
    edges: Vec<u32>,
}

impl JsonPrinter {
    /// The subgraph fields: three numbers per subgraph.
    pub closed spec fn subgraphs(&self) -> Seq<u32> {
        self.subgraphs@
    }

    /// The node fields: three numbers per drawn node.
    pub closed spec fn node_fields(&self) -> Seq<u32> {
        self.nodes@
    }

    /// The edge fields: four numbers per edge.
    pub closed spec fn edges(&self) -> Seq<u32> {
        self.edges@
    }

    /// Creates a new JSON printer.
    pub fn new() -> (printer: Self)
        ensures
            printer.subgraphs().len() == 0,
            printer.node_fields().len() == 0,
            printer.edges().len() == 0,
    {
        JsonPrinter { subgraphs: Vec::new(), nodes: Vec::new(), edges: Vec::new() }
    }

    /// Returns the subgraph fields.
    pub fn subgraph_fields(&self) -> (fields: &[u32])
        ensures
            fields@ == self.subgraphs(),
    {
        self.subgraphs.as_slice()
    }

    /// Returns the edge fields.
    pub fn edge_fields(&self) -> (fields: &[u32])
        ensures
            fields@ == self.edges(),
    {
        self.edges.as_slice()
    }

    /// Records the subgraph that each region of `graph` opens.
    pub fn find_subgraphs(&mut self, graph: &DataFlowGraph)
        requires
            graph@.len() <= u32::MAX,
        ensures
            final(self).subgraphs() == subgraphs_upto(graph@, graph@.len() as int),
            final(self).node_fields() == old(self).node_fields(),
            final(self).edges() == old(self).edges(),
    {
        self.subgraphs.clear();
        let nodes = graph.nodes();
        let mut id: usize = 0;
        while id < nodes.len()
            invariant
                nodes@ == graph@,
                graph@.len() <= u32::MAX,
                id <= nodes@.len(),
                self.subgraphs@ == subgraphs_upto(graph@, id as int),
                self.nodes@ == old(self).node_fields(),
                self.edges@ == old(self).edges(),
            decreases nodes@.len() - id,
        {
            if let Some((node, input, output)) = region_to_subgraph(&nodes[id], id as u32) {
                self.subgraphs.push(node);
                self.subgraphs.push(input);
                self.subgraphs.push(output);
            }
            id = id + 1;
            assert(self.subgraphs@ =~= subgraphs_upto(graph@, id as int));
        }
    }

    /// Records an edge for each argument of each node of `graph`, drawn from
    /// the input of a gamma output in the output's place.
    pub fn find_edges(&mut self, graph: &DataFlowGraph)
        requires
            graph@.len() <= u32::MAX,
            links_within(graph@),
        ensures
            final(self).edges() == edges_upto(graph@, graph@.len() as int),
            final(self).subgraphs() == old(self).subgraphs(),
            final(self).node_fields() == old(self).node_fields(),
    {
        self.edges.clear();
        let nodes = graph.nodes();
        let mut id: usize = 0;
        while id < nodes.len()
            invariant
                nodes@ == graph@,
                graph@.len() <= u32::MAX,
                links_within(graph@),
                id <= nodes@.len(),
                self.edges@ == edges_upto(graph@, id as int),
                self.subgraphs@ == old(self).subgraphs(),
                self.nodes@ == old(self).node_fields(),
            decreases nodes@.len() - id,
        {
            let mut arguments: Vec<Link> = Vec::new();
            nodes[id].for_each_argument(&mut arguments);
            assert(arguments@ =~= graph@[id as int].arguments());
            let ghost start = self.edges@;
            let mut port: usize = 0;
            while port < arguments.len()
                invariant
                    nodes@ == graph@,
                    graph@.len() <= u32::MAX,
                    links_within(graph@),
                    id < nodes@.len(),
                    arguments@ == graph@[id as int].arguments(),
                    port <= arguments@.len(),
                    self.edges@ == start + argument_edges(graph@, id as u32, arguments@, port as int),
                    start == edges_upto(graph@, id as int),
                    self.subgraphs@ == old(self).subgraphs(),
                    self.nodes@ == old(self).node_fields(),
                decreases arguments@.len() - port,
            {
                let link = arguments[port];
                assert(graph@[id as int].arguments()[port as int] == link);
                let source = match graph.get(link.0) {
                    Node::GammaOut(GammaOut { input, .. }) => *input,
                    _ => link.0,
                };
                self.edges.push(source);
                self.edges.push(link.1 as u32);
                self.edges.push(id as u32);
                self.edges.push(port as u32);
                port = port + 1;
                assert(self.edges@ =~= start + argument_edges(graph@, id as u32, arguments@, port as int));
            }
            id = id + 1;
            assert(self.edges@ =~= edges_upto(graph@, id as int));
        }
    }
}

impl Default for JsonPrinter {
    fn default() -> (printer: Self)
        ensures
            printer.subgraphs().len() == 0,
            printer.node_fields().len() == 0,
            printer.edges().len() == 0,
    {
        JsonPrinter::new()
    }
}

} // verus!
