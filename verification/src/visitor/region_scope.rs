//! Region scope validation.
//!
//! Every node lives in exactly one region, and the only way for it to read a
//! value from an enclosing region is through the port of the node that opens
//! its own region. A node that reads straight past its boundary names a value
//! that may already have been overwritten by the time the region runs.

use vstd::prelude::*;

use crate::graph::{DataFlowGraph, Link, Node};

verus! {

/// The identifier range of the region that `node`, with identifier `id`,
/// opens, if it opens one: from the opening node to its paired closing node.
pub open spec fn opened_range(node: Node, id: u32) -> Option<(u32, u32)> {
    match node {
        Node::LambdaIn(n) => Some((id, n.output)),
        Node::OmegaIn(n) => Some((id, n.output)),
        Node::RegionIn(n) => Some((id, n.output)),
        Node::ThetaIn(n) => Some((id, n.output)),
        _ => None,
    }
}

/// The stack of open regions with the regions that end before `id` closed.
pub open spec fn close_before(stack: Seq<(u32, u32)>, id: int) -> Seq<(u32, u32)>
    decreases stack.len(),
{
    if stack.len() > 0 && (stack.last().1 as int) < id {
        close_before(stack.drop_last(), id)
    } else {
        stack
    }
}

/// The stack of regions opened by the nodes before `id`, innermost last, as
/// it stands when node `id` is reached and before closed regions are popped.
pub open spec fn open_regions(nodes: Seq<Node>, id: int) -> Seq<(u32, u32)>
    decreases id,
{
    if id <= 0 {
        Seq::empty()
    } else {
        let stack = close_before(open_regions(nodes, id - 1), id - 1);
        match opened_range(nodes[id - 1], (id - 1) as u32) {
            Some(range) => stack.push(range),
            None => stack,
        }
    }
}

/// The innermost region enclosing node `id`, if any.
pub open spec fn enclosing_region(nodes: Seq<Node>, id: int) -> Option<(u32, u32)> {
    let stack = close_before(open_regions(nodes, id), id);
    if stack.len() > 0 {
        Some(stack.last())
    } else {
        None
    }
}

/// Whether `link` reads a node outside of `range`.
pub open spec fn outside(range: (u32, u32), link: Link) -> bool {
    !(range.0 <= link.0 <= range.1)
}

/// Whether node `id` reads a value produced outside of its own region.
pub open spec fn reads_outside(nodes: Seq<Node>, id: int) -> bool {
    match enclosing_region(nodes, id) {
        Some(range) => exists|k: int|
            0 <= k < nodes[id].arguments().len() && outside(range, #[trigger] nodes[id].arguments()[k]),
        None => false,
    }
}

/// Returns the identifier range of the region a node opens, if it opens one.
fn opened_range_of(node: &Node, id: u32) -> (range: Option<(u32, u32)>)
    ensures
        range == opened_range(*node, id),
{
    let output = match node {
        Node::LambdaIn(n) => n.output,
        Node::OmegaIn(n) => n.output,
        Node::RegionIn(n) => n.output,
        Node::ThetaIn(n) => n.output,
        _ => return None,
    };

    Some((id, output))
}

/// Finds a node that reads a value produced outside of its own region.
///
/// Returns the first such reader and the first of its links that escapes, or
/// `None` when every node stays within its region. The graph must be in
/// topological order for a region to end at its paired closing node.
///
/// A node that opens a region is checked against the region enclosing it,
/// since its own arguments are read before the region is entered.
pub fn find_escape(graph: &DataFlowGraph) -> (escape: Option<(u32, Link)>)
    requires
        graph@.len() <= u32::MAX,
    ensures
        escape is None <==> forall|id: int| 0 <= id < graph@.len() ==> !reads_outside(graph@, id),
        escape matches Some((id, link)) ==> {
            &&& id < graph@.len()
            &&& reads_outside(graph@, id as int)
            &&& forall|i: int| 0 <= i < id ==> !reads_outside(graph@, i)
            &&& enclosing_region(graph@, id as int) matches Some(range) && exists|k: int|
                0 <= k < graph@[id as int].arguments().len() && graph@[id as int].arguments()[k] == link
                    && outside(range, link) && forall|p: int|
                    0 <= p < k ==> !outside(range, #[trigger] graph@[id as int].arguments()[p])
        },
{
    let nodes = graph.nodes();
    let mut open: Vec<(u32, u32)> = Vec::new();
    let end = nodes.len() as u32;
    let mut id: u32 = 0;

    while id < end
        invariant
            nodes@ == graph@,
            end == nodes@.len(),
            id <= end,
            open@ == open_regions(nodes@, id as int),
            forall|i: int| 0 <= i < id ==> !reads_outside(nodes@, i),
        decreases end - id,
    {
        while open.len() > 0 && open[open.len() - 1].1 < id
            invariant
                close_before(open@, id as int) == close_before(open_regions(nodes@, id as int), id as int),
            decreases open.len(),
        {
            open.pop();
        }
        assert(close_before(open@, id as int) == open@);

        let node = &nodes[id as usize];
        if open.len() > 0 {
            let (start, stop) = open[open.len() - 1];
            assert(enclosing_region(nodes@, id as int) == Some((start, stop)));
            let mut arguments: Vec<Link> = Vec::new();
            node.for_each_argument(&mut arguments);
            assert(arguments@ =~= node.arguments());

            let mut k: usize = 0;
            while k < arguments.len()
                invariant
                    nodes@ == graph@,
                    id < nodes@.len(),
                    *node == nodes@[id as int],
                    enclosing_region(nodes@, id as int) == Some((start, stop)),
                    forall|i: int| 0 <= i < id ==> !reads_outside(nodes@, i),
                    arguments@ == node.arguments(),
                    k <= arguments@.len(),
                    forall|p: int| 0 <= p < k ==> !outside((start, stop), #[trigger] arguments@[p]),
                decreases arguments@.len() - k,
            {
                let link = arguments[k];
                if !(start <= link.0 && link.0 <= stop) {
                    assert(outside((start, stop), nodes@[id as int].arguments()[k as int]));
                    assert(reads_outside(nodes@, id as int));
                    return Some((id, link));
                }
                k = k + 1;
            }
        }

        if let Some(range) = opened_range_of(node, id) {
            open.push(range);
        }
        id = id + 1;
    }

    None
}

} // verus!
