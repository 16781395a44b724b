//! The data flow graph container.

use vstd::prelude::*;

use crate::graph::node::Node;

verus! {

/// Whether `after` keeps every node of `before` and only appends to it.
pub open spec fn extends(before: Seq<Node>, after: Seq<Node>) -> bool {
    &&& before.len() <= after.len()
    &&& forall|j: int| 0 <= j < before.len() ==> after[j] == before[j]
}

/// A data flow graph: a list of nodes, each identified by its position.
#[derive(Debug)]
pub struct DataFlowGraph {
    nodes: Vec<Node>,
}

impl View for DataFlowGraph {
    type V = Seq<Node>;

    closed spec fn view(&self) -> Seq<Node> {
        self.nodes@
    }
}

impl DataFlowGraph {
    /// Creates an empty graph.
    pub fn new() -> (graph: Self)
        ensures
            graph@ == Seq::<Node>::empty(),
    {
        DataFlowGraph { nodes: Vec::new() }
    }

    /// Returns the number of nodes.
    pub fn len(&self) -> (len: usize)
        ensures
            len == self@.len(),
    {
        self.nodes.len()
    }

    /// Appends a node and returns its identifier.
    ///
    /// Identifiers are `u32`, so the graph may hold no more nodes than that
    /// type can number.
    pub fn add_node(&mut self, node: Node) -> (id: u32)
        requires
            old(self)@.len() <= u32::MAX,
        ensures
            id == old(self)@.len(),
            final(self)@ == old(self)@.push(node),
    {
        let id = self.nodes.len() as u32;
        self.nodes.push(node);
        id
    }

    /// Returns the node with the given identifier.
    pub fn get(&self, id: u32) -> (node: &Node)
        requires
            id < self@.len(),
        ensures
            *node == self@[id as int],
    {
        &self.nodes[id as usize]
    }

    /// Returns mutable access to the node with the given identifier.
    pub fn get_mut(&mut self, id: u32) -> (node: &mut Node)
        requires
            id < old(self)@.len(),
        ensures
            *node == old(self)@[id as int],
            final(self)@ == old(self)@.update(id as int, *final(node)),
    {
        &mut self.nodes[id as usize]
    }

    /// Replaces the node with the given identifier, returning the old one.
    pub fn replace(&mut self, id: u32, node: Node) -> (previous: Node)
        requires
            id < old(self)@.len(),
        ensures
            previous == old(self)@[id as int],
            final(self)@ == old(self)@.update(id as int, node),
    {
        let mut node = node;
        std::mem::swap(&mut self.nodes[id as usize], &mut node);
        node
    }

    /// Returns all nodes in identifier order.
    pub fn nodes(&self) -> (nodes: &[Node])
        ensures
            nodes@ == self@,
    {
        self.nodes.as_slice()
    }
}

} // verus!
