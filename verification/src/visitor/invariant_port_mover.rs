//! Invariant port motion.

use vstd::prelude::*;

use crate::graph::{
    control::{GammaIn, GammaOut, RegionOut, ThetaIn, ThetaOut},
    DataFlowGraph, Link, Node,
};
use crate::visitor::link_map::{link_map_entries, LinkMap};

verus! {

/// The key a link is stored under in a link map.
pub open spec fn link_key(link: Link) -> u64 {
    link.key() as u64
}

/// What `link` stands for once the port moves recorded in `moves` apply.
pub open spec fn reference(moves: Map<u64, Link>, link: Link) -> Link {
    if moves.contains_key(link_key(link)) {
        moves[link_key(link)]
    } else {
        link
    }
}

/// The argument, itself resolved, that a region result forwards unchanged
/// when it reads port `p` of the region input `input`: the `p`th of the
/// enclosing structure's `arguments`.
pub open spec fn found_argument(moves: Map<u64, Link>, result: Link, input: u32, arguments: Seq<Link>) -> Option<Link> {
    let result = reference(moves, result);
    if result.0 == input {
        Some(reference(moves, arguments[result.1 as int]))
    } else {
        None
    }
}

/// Whether `found_argument` reads an argument that exists.
pub open spec fn found_argument_ok(moves: Map<u64, Link>, result: Link, input: u32, arguments: Seq<Link>) -> bool {
    let result = reference(moves, result);
    result.0 == input ==> (result.1 as int) < arguments.len()
}

/// The argument that region output `region` forwards unchanged at `port`.
pub open spec fn region_argument(moves: Map<u64, Link>, nodes: Seq<Node>, region: u32, port: int, arguments: Seq<Link>) -> Option<Link> {
    match nodes[region as int] {
        Node::RegionOut(node) => found_argument(moves, node.results@[port], node.input, arguments),
        _ => None,
    }
}

/// Whether region output `region` exists, has a result at `port`, and that
/// result reads an argument that exists.
pub open spec fn region_argument_ok(moves: Map<u64, Link>, nodes: Seq<Node>, region: u32, port: int, arguments: Seq<Link>) -> bool {
    &&& region < nodes.len()
    &&& match nodes[region as int] {
        Node::RegionOut(node) => 0 <= port < node.results@.len() && found_argument_ok(
            moves,
            node.results@[port],
            node.input,
            arguments,
        ),
        _ => false,
    }
}

/// The argument that every region of a gamma forwards unchanged at `port`,
/// if they all forward the same one.
pub open spec fn shared_reference(moves: Map<u64, Link>, nodes: Seq<Node>, regions: Seq<u32>, port: int, arguments: Seq<Link>) -> Option<Link> {
    match region_argument(moves, nodes, regions[0], port, arguments) {
        Some(first) => if forall|i: int|
            1 <= i < regions.len() ==> #[trigger] region_argument(moves, nodes, regions[i], port, arguments)
                == Some(first) {
            Some(first)
        } else {
            None
        },
        None => None,
    }
}

/// The moves after looking at output `port` of a gamma: the port is moved
/// to the shared argument when there is one and it is a constant.
pub open spec fn gamma_step(moves: Map<u64, Link>, nodes: Seq<Node>, output: u32, regions: Seq<u32>, arguments: Seq<Link>, port: int) -> Map<u64, Link> {
    match shared_reference(moves, nodes, regions, port, arguments) {
        Some(argument) => if nodes[argument.0 as int].is_constant() {
            moves.insert(link_key(Link(output, port as u16)), argument)
        } else {
            moves
        },
        None => moves,
    }
}

/// Whether the regions from position `i` on can be looked at one by one,
/// for as long as each forwards `first` at `port`: the look stops at the
/// first that does not.
pub open spec fn regions_ok_from(
    moves: Map<u64, Link>,
    nodes: Seq<Node>,
    regions: Seq<u32>,
    port: int,
    arguments: Seq<Link>,
    first: Link,
    i: int,
) -> bool
    decreases regions.len() - i,
{
    if i < 0 || i >= regions.len() {
        true
    } else {
        &&& region_argument_ok(moves, nodes, regions[i], port, arguments)
        &&& region_argument(moves, nodes, regions[i], port, arguments) == Some(first) ==> regions_ok_from(
            moves,
            nodes,
            regions,
            port,
            arguments,
            first,
            i + 1,
        )
    }
}

/// Whether looking at output `port` of a gamma reads only what exists: the
/// first region always, and the others only while they forward what the
/// first forwards.
pub open spec fn gamma_step_ok(moves: Map<u64, Link>, nodes: Seq<Node>, regions: Seq<u32>, arguments: Seq<Link>, port: int) -> bool {
    &&& port <= u16::MAX
    &&& regions.len() > 0
    &&& region_argument_ok(moves, nodes, regions[0], port, arguments)
    &&& region_argument(moves, nodes, regions[0], port, arguments) matches Some(first) ==> regions_ok_from(
        moves,
        nodes,
        regions,
        port,
        arguments,
        first,
        1,
    )
    &&& shared_reference(moves, nodes, regions, port, arguments) matches Some(argument) ==> argument.0
        < nodes.len()
}

/// The moves after looking at the first `count` output ports of a gamma.
pub open spec fn gamma_moves(moves: Map<u64, Link>, nodes: Seq<Node>, output: u32, regions: Seq<u32>, arguments: Seq<Link>, count: int) -> Map<u64, Link>
    decreases count,
{
    if count <= 0 {
        moves
    } else {
        gamma_step(gamma_moves(moves, nodes, output, regions, arguments, count - 1), nodes, output, regions, arguments, count - 1)
    }
}

/// Whether looking at the first `count` output ports of a gamma reads only
/// what exists.
pub open spec fn gamma_moves_ok(moves: Map<u64, Link>, nodes: Seq<Node>, output: u32, regions: Seq<u32>, arguments: Seq<Link>, count: int) -> bool
    decreases count,
{
    if count <= 0 {
        true
    } else {
        &&& gamma_moves_ok(moves, nodes, output, regions, arguments, count - 1)
        &&& gamma_step_ok(gamma_moves(moves, nodes, output, regions, arguments, count - 1), nodes, regions, arguments, count - 1)
    }
}

/// The moves after looking at result `port` of a loop: the loop output port
/// is moved to the argument when the result forwards its own argument.
pub open spec fn loop_step(moves: Map<u64, Link>, arguments: Seq<Link>, results: Seq<Link>, input: u32, output: u32, port: int) -> Map<u64, Link> {
    match found_argument(moves, results[port], input, arguments) {
        Some(argument) => if argument == reference(moves, arguments[port]) {
            moves.insert(link_key(Link(output, port as u16)), argument)
        } else {
            moves
        },
        None => moves,
    }
}

/// Whether looking at result `port` of a loop reads only what exists.
pub open spec fn loop_step_ok(moves: Map<u64, Link>, arguments: Seq<Link>, results: Seq<Link>, input: u32, port: int) -> bool {
    &&& port <= u16::MAX
    &&& found_argument_ok(moves, results[port], input, arguments)
    &&& found_argument(moves, results[port], input, arguments) is Some ==> port < arguments.len()
}

/// A gamma's output port is moved only to a constant that every region
/// forwards. Looking at output `port` of a gamma records a move exactly when
/// each region's result at `port` forwards the same argument and that
/// argument is a constant, and the port is moved to it; otherwise nothing
/// changes.
pub proof fn lemma_gamma_port_moves_to_shared_constant(
    moves: Map<u64, Link>,
    nodes: Seq<Node>,
    output: u32,
    regions: Seq<u32>,
    arguments: Seq<Link>,
    port: int,
)
    requires
        regions.len() > 0,
    ensures
        ({
            let first = region_argument(moves, nodes, regions[0], port, arguments);
            let shared = first is Some && (forall|i: int|
                0 <= i < regions.len() ==> #[trigger] region_argument(moves, nodes, regions[i], port, arguments)
                    == first) && nodes[(first->0).0 as int].is_constant();
            &&& shared ==> gamma_step(moves, nodes, output, regions, arguments, port) == moves.insert(
                link_key(Link(output, port as u16)),
                first->0,
            )
            &&& !shared ==> gamma_step(moves, nodes, output, regions, arguments, port) == moves
        }),
{
    let first = region_argument(moves, nodes, regions[0], port, arguments);
    if first is Some && shared_reference(moves, nodes, regions, port, arguments) is None {
        let i = choose|i: int|
            1 <= i < regions.len() && !(#[trigger] region_argument(moves, nodes, regions[i], port, arguments)
                == first);
        assert(region_argument(moves, nodes, regions[i], port, arguments) != first);
    }
}

/// A loop's output port is moved only to its own argument. Looking at result
/// `port` of a loop records a move exactly when that result, resolved, reads
/// a port of the loop's input whose argument resolves to the same value as
/// the argument of `port` itself: the value then is unchanged by every
/// iteration, and the output port is moved to it. Otherwise nothing changes,
/// so a result that reads another port with another value is never moved.
pub proof fn lemma_loop_port_moves_to_own_argument(
    moves: Map<u64, Link>,
    arguments: Seq<Link>,
    results: Seq<Link>,
    input: u32,
    output: u32,
    port: int,
)
    requires
        0 <= port < results.len(),
        loop_step_ok(moves, arguments, results, input, port),
    ensures
        ({
            let read = reference(moves, results[port]);
            let own = reference(moves, arguments[port]);
            let unchanged = read.0 == input && reference(moves, arguments[read.1 as int]) == own;
            &&& unchanged ==> loop_step(moves, arguments, results, input, output, port) == moves.insert(
                link_key(Link(output, port as u16)),
                own,
            )
            &&& !unchanged ==> loop_step(moves, arguments, results, input, output, port) == moves
        }),
{
}

/// The moves after looking at the first `count` results of a loop.
pub open spec fn loop_moves(moves: Map<u64, Link>, arguments: Seq<Link>, results: Seq<Link>, input: u32, output: u32, count: int) -> Map<u64, Link>
    decreases count,
{
    if count <= 0 {
        moves
    } else {
        loop_step(loop_moves(moves, arguments, results, input, output, count - 1), arguments, results, input, output, count - 1)
    }
}

/// Whether looking at the first `count` results of a loop reads only what
/// exists.
pub open spec fn loop_moves_ok(moves: Map<u64, Link>, arguments: Seq<Link>, results: Seq<Link>, input: u32, output: u32, count: int) -> bool
    decreases count,
{
    if count <= 0 {
        true
    } else {
        &&& loop_moves_ok(moves, arguments, results, input, output, count - 1)
        &&& loop_step_ok(loop_moves(moves, arguments, results, input, output, count - 1), arguments, results, input, count - 1)
    }
}

/// The moves after looking at node `j`: every output port of a gamma or loop
/// that forwards an argument unchanged is moved to that argument.
pub open spec fn node_moves(moves: Map<u64, Link>, nodes: Seq<Node>, j: int) -> Map<u64, Link> {
    match nodes[j] {
        Node::GammaOut(gamma_out) => match nodes[gamma_out.input as int] {
            Node::GammaIn(gamma_in) => gamma_moves(
                moves,
                nodes,
                gamma_in.output,
                gamma_out.regions@,
                gamma_in.arguments@,
                gamma_out.spec_ports_output(nodes) as int,
            ),
            _ => moves,
        },
        Node::ThetaOut(theta_out) => match nodes[theta_out.input as int] {
            Node::ThetaIn(theta_in) => loop_moves(
                moves,
                theta_in.arguments@,
                theta_out.results@,
                theta_out.input,
                theta_in.output,
                theta_out.results@.len() as int,
            ),
            _ => moves,
        },
        _ => moves,
    }
}

/// Whether looking at node `j` reads only what exists.
pub open spec fn node_moves_ok(moves: Map<u64, Link>, nodes: Seq<Node>, j: int) -> bool {
    match nodes[j] {
        Node::GammaOut(gamma_out) => {
            &&& gamma_out.input < nodes.len()
            &&& gamma_out.ports_output_ready(nodes)
            &&& match nodes[gamma_out.input as int] {
                Node::GammaIn(gamma_in) => gamma_moves_ok(
                    moves,
                    nodes,
                    gamma_in.output,
                    gamma_out.regions@,
                    gamma_in.arguments@,
                    gamma_out.spec_ports_output(nodes) as int,
                ),
                _ => false,
            }
        },
        Node::ThetaOut(theta_out) => {
            &&& theta_out.input < nodes.len()
            &&& match nodes[theta_out.input as int] {
                Node::ThetaIn(theta_in) => loop_moves_ok(
                    moves,
                    theta_in.arguments@,
                    theta_out.results@,
                    theta_out.input,
                    theta_in.output,
                    theta_out.results@.len() as int,
                ),
                _ => false,
            }
        },
        _ => true,
    }
}

/// The moves recorded after looking at the first `count` nodes.
pub open spec fn port_moves(nodes: Seq<Node>, count: int) -> Map<u64, Link>
    decreases count,
{
    if count <= 0 {
        Map::empty()
    } else {
        node_moves(port_moves(nodes, count - 1), nodes, count - 1)
    }
}

/// Whether looking at the first `count` nodes reads only what exists.
pub open spec fn port_moves_ok(nodes: Seq<Node>, count: int) -> bool
    decreases count,
{
    if count <= 0 {
        true
    } else {
        port_moves_ok(nodes, count - 1) && node_moves_ok(port_moves(nodes, count - 1), nodes, count - 1)
    }
}


/// Moves invariant ports out of control flow regions: an output port of a
/// loop or gamma that only forwards a value from before it is read as that
/// value directly.
pub struct InvariantPortMover {
    map: LinkMap,
}

impl View for InvariantPortMover {
    type V = Map<u64, Link>;

    /// The port moves recorded so far.
    closed spec fn view(&self) -> Map<u64, Link> {
        link_map_entries(self.map)
    }
}

impl InvariantPortMover {
    /// Creates a new invariant port mover.
    pub fn new() -> (mover: Self)
        ensures
            mover@ == Map::<u64, Link>::empty(),
    {
        InvariantPortMover { map: LinkMap::new() }
    }

    fn get_reference(&self, link: Link) -> (resolved: Link)
        ensures
            resolved == reference(self@, link),
    {
        proof {
            crate::graph::link::lemma_key_bounded(link);
        }
        match self.map.get(link.into_u64()) {
            Some(resolved) => resolved,
            None => link,
        }
    }

    fn find_argument(&self, result: Link, input: u32, arguments: &[Link]) -> (argument: Option<Link>)
        requires
            found_argument_ok(self@, result, input, arguments@),
        ensures
            argument == found_argument(self@, result, input, arguments@),
    {
        let result = self.get_reference(result);

        if result.0 == input {
            let port = result.1 as usize;

            Some(self.get_reference(arguments[port]))
        } else {
            None
        }
    }

    fn find_region_argument(&self, graph: &DataFlowGraph, region: u32, port: usize, arguments: &[Link]) -> (argument: Option<Link>)
        requires
            region_argument_ok(self@, graph@, region, port as int, arguments@),
        ensures
            argument == region_argument(self@, graph@, region, port as int, arguments@),
    {
        match graph.get(region) {
            Node::RegionOut(RegionOut { input, results, .. }) => self.find_argument(results[port], *input, arguments),
            _ => None,
        }
    }

    fn find_shared_reference(
        &self,
        graph: &DataFlowGraph,
        regions: &[u32],
        port: usize,
        arguments: &[Link],
    ) -> (argument: Option<Link>)
        requires
            regions@.len() > 0,
            region_argument_ok(self@, graph@, regions@[0], port as int, arguments@),
            region_argument(self@, graph@, regions@[0], port as int, arguments@) matches Some(first)
                ==> regions_ok_from(self@, graph@, regions@, port as int, arguments@, first, 1),
        ensures
            argument == shared_reference(self@, graph@, regions@, port as int, arguments@),
    {
        let first = match self.find_region_argument(graph, regions[0], port, arguments) {
            Some(first) => first,
            None => return None,
        };

        let mut i: usize = 1;
        while i < regions.len()
            invariant
                1 <= i <= regions@.len(),
                region_argument(self@, graph@, regions@[0], port as int, arguments@) == Some(first),
                regions_ok_from(self@, graph@, regions@, port as int, arguments@, first, i as int),
                forall|j: int|
                    1 <= j < i ==> #[trigger] region_argument(self@, graph@, regions@[j], port as int, arguments@)
                        == Some(first),
            decreases regions@.len() - i,
        {
            match self.find_region_argument(graph, regions[i], port, arguments) {
                Some(other) => if other != first {
                    return None;
                },
                None => return None,
            }
            i = i + 1;
        }

        Some(first)
    }

    fn handle_simple_reference(&mut self, arguments: &[Link], results: &[Link], input: u32, output: u32)
        requires
            loop_moves_ok(old(self)@, arguments@, results@, input, output, results@.len() as int),
        ensures
            final(self)@ == loop_moves(old(self)@, arguments@, results@, input, output, results@.len() as int),
    {
        let ghost start = self@;
        let mut port: usize = 0;
        while port < results.len()
            invariant
                port <= results@.len(),
                self@ == loop_moves(start, arguments@, results@, input, output, port as int),
                loop_moves_ok(start, arguments@, results@, input, output, results@.len() as int),
            decreases results@.len() - port,
        {
            proof {
                lemma_loop_moves_ok_prefix(start, arguments@, results@, input, output, results@.len() as int, port as int + 1);
            }
            // Assuming the result of the region is the same value as its argument,
            // then we can replace it with a direct link.
            if let Some(argument) = self.find_argument(results[port], input, arguments) {
                if argument == self.get_reference(arguments[port]) {
                    let link = Link(output, port as u16);
                    proof {
                        crate::graph::link::lemma_key_bounded(link);
                    }

                    self.map.insert(link.into_u64(), argument);
                }
            }
            port = port + 1;
        }
    }

    /// Whether the value behind `link` can be rebuilt at any point for free:
    /// a constant reads nothing and depends on nothing.
    fn is_rematerializable(graph: &DataFlowGraph, link: Link) -> (constant: bool)
        requires
            link.0 < graph@.len(),
        ensures
            constant == graph@[link.0 as int].is_constant(),
    {
        match graph.get(link.0) {
            Node::I32(_) | Node::I64(_) | Node::F32(_) | Node::F64(_) | Node::Null => true,
            _ => false,
        }
    }

    // Lifting a value out of a gamma makes every reader past the branch read the value
    // from before it, which keeps it live across the whole branch. Restricted to
    // constants, which cost nothing to keep live since each consumer can be given its
    // own copy, the pass keeps its port reduction without widening live ranges.
    fn handle_gamma(&mut self, graph: &DataFlowGraph, gamma_out: &GammaOut)
        requires
            gamma_out.input < graph@.len(),
            gamma_out.ports_output_ready(graph@),
            match graph@[gamma_out.input as int] {
                Node::GammaIn(gamma_in) => gamma_moves_ok(
                    old(self)@,
                    graph@,
                    gamma_in.output,
                    gamma_out.regions@,
                    gamma_in.arguments@,
                    gamma_out.spec_ports_output(graph@) as int,
                ),
                _ => false,
            },
        ensures
            final(self)@ == match graph@[gamma_out.input as int] {
                Node::GammaIn(gamma_in) => gamma_moves(
                    old(self)@,
                    graph@,
                    gamma_in.output,
                    gamma_out.regions@,
                    gamma_in.arguments@,
                    gamma_out.spec_ports_output(graph@) as int,
                ),
                _ => old(self)@,
            },
    {
        let (output, arguments) = match graph.get(gamma_out.input) {
            Node::GammaIn(GammaIn { output, arguments, .. }) => (*output, arguments),
            _ => return,
        };
        let count = gamma_out.ports_output(graph);
        let ghost start = self@;

        let mut port: usize = 0;
        while port < count
            invariant
                port <= count,
                count == gamma_out.spec_ports_output(graph@),
                self@ == gamma_moves(start, graph@, output, gamma_out.regions@, arguments@, port as int),
                gamma_moves_ok(start, graph@, output, gamma_out.regions@, arguments@, count as int),
            decreases count - port,
        {
            proof {
                lemma_gamma_moves_ok_prefix(start, graph@, output, gamma_out.regions@, arguments@, count as int, port as int + 1);
            }
            if let Some(argument) = self.find_shared_reference(graph, gamma_out.regions.as_slice(), port, arguments.as_slice()) {
                if Self::is_rematerializable(graph, argument) {
                    let link = Link(output, port as u16);
                    proof {
                        crate::graph::link::lemma_key_bounded(link);
                    }

                    self.map.insert(link.into_u64(), argument);
                }
            }
            port = port + 1;
        }
    }

    fn handle_theta(&mut self, graph: &DataFlowGraph, theta_out: &ThetaOut)
        requires
            theta_out.input < graph@.len(),
            match graph@[theta_out.input as int] {
                Node::ThetaIn(theta_in) => loop_moves_ok(
                    old(self)@,
                    theta_in.arguments@,
                    theta_out.results@,
                    theta_out.input,
                    theta_in.output,
                    theta_out.results@.len() as int,
                ),
                _ => false,
            },
        ensures
            final(self)@ == match graph@[theta_out.input as int] {
                Node::ThetaIn(theta_in) => loop_moves(
                    old(self)@,
                    theta_in.arguments@,
                    theta_out.results@,
                    theta_out.input,
                    theta_in.output,
                    theta_out.results@.len() as int,
                ),
                _ => old(self)@,
            },
    {
        match graph.get(theta_out.input) {
            Node::ThetaIn(ThetaIn { output, arguments }) => {
                self.handle_simple_reference(arguments.as_slice(), theta_out.results.as_slice(), theta_out.input, *output);
            },
            _ => {},
        }
    }

    /// Runs the invariant port motion pass on the graph.
    ///
    /// First every gamma and loop output port that only forwards a value is
    /// recorded, in node order; then every argument that reads a recorded
    /// port is made to read the recorded value. Returns `true` when at least
    /// one link was rewritten.
    pub fn run(&mut self, graph: &mut DataFlowGraph) -> (changed: bool)
        requires
            old(graph)@.len() <= u32::MAX,
            port_moves_ok(old(graph)@, old(graph)@.len() as int),
        ensures
            final(self)@ == port_moves(old(graph)@, old(graph)@.len() as int),
            final(graph)@.len() == old(graph)@.len(),
            forall|j: int|
                0 <= j < old(graph)@.len() ==> old(graph)@[j].same_except_arguments(&final(graph)@[j]),
            forall|j: int|
                0 <= j < old(graph)@.len() ==> #[trigger] final(graph)@[j].arguments().len()
                    == old(graph)@[j].arguments().len(),
            forall|j: int, k: int|
                0 <= j < old(graph)@.len() && 0 <= k < old(graph)@[j].arguments().len()
                    ==> #[trigger] final(graph)@[j].arguments()[k] == reference(
                    port_moves(old(graph)@, old(graph)@.len() as int),
                    old(graph)@[j].arguments()[k],
                ),
            changed == exists|j: int|
                0 <= j < old(graph)@.len() && #[trigger] final(graph)@[j].arguments()
                    != old(graph)@[j].arguments(),
    {
        let ghost previous = graph@;
        self.map.clear();

        let end = graph.len() as u32;
        let mut id: u32 = 0;
        while id < end
            invariant
                graph@ == previous,
                end == previous.len(),
                id <= end,
                self@ == port_moves(previous, id as int),
                port_moves_ok(previous, previous.len() as int),
            decreases end - id,
        {
            proof {
                lemma_port_moves_ok_prefix(previous, previous.len() as int, id as int + 1);
            }
            match graph.get(id) {
                Node::GammaOut(gamma_out) => self.handle_gamma(graph, gamma_out),
                Node::ThetaOut(theta_out) => self.handle_theta(graph, theta_out),
                _ => {},
            }
            id = id + 1;
        }

        let ghost moves = self@;
        let mut changed = false;
        let mut id: u32 = 0;
        while id < end
            invariant
                self@ == moves,
                end == previous.len(),
                id <= end,
                graph@.len() == previous.len(),
                forall|j: int| id <= j < previous.len() ==> graph@[j] == previous[j],
                forall|j: int| 0 <= j < id ==> previous[j].same_except_arguments(&graph@[j]),
                forall|j: int|
                    0 <= j < id ==> #[trigger] graph@[j].arguments().len() == previous[j].arguments().len(),
                forall|j: int, k: int|
                    0 <= j < id && 0 <= k < previous[j].arguments().len() ==> #[trigger] graph@[j].arguments()[k]
                        == reference(moves, previous[j].arguments()[k]),
                changed == exists|j: int|
                    0 <= j < id && #[trigger] graph@[j].arguments() != previous[j].arguments(),
            decreases end - id,
        {
            let ghost before = graph@;
            let mut node = graph.replace(id, Node::Trap);
            let mut arguments: Vec<Link> = Vec::new();
            node.for_each_argument(&mut arguments);
            assert(arguments@ =~= node.arguments());
            let ghost initial = arguments@;

            let mut step = false;
            let mut i: usize = 0;
            while i < arguments.len()
                invariant
                    self@ == moves,
                    arguments@.len() == initial.len(),
                    i <= initial.len(),
                    forall|k: int| i <= k < initial.len() ==> arguments@[k] == initial[k],
                    forall|k: int| 0 <= k < i ==> #[trigger] arguments@[k] == reference(moves, initial[k]),
                    step == exists|k: int| 0 <= k < i && #[trigger] arguments@[k] != initial[k],
                decreases initial.len() - i,
            {
                let old_link = arguments[i];
                let new_link = self.get_reference(old_link);
                let ghost earlier = arguments@;
                if old_link != new_link {
                    arguments.set(i, new_link);
                    step = true;
                }
                i = i + 1;
                assert(step == exists|k: int| 0 <= k < i && #[trigger] arguments@[k] != initial[k]) by {
                    if old_link != new_link {
                        assert(arguments@[i - 1] != initial[i - 1]);
                    }
                    if exists|k: int| 0 <= k < i - 1 && #[trigger] earlier[k] != initial[k] {
                        let k = choose|k: int| 0 <= k < i - 1 && #[trigger] earlier[k] != initial[k];
                        assert(arguments@[k] != initial[k]);
                    }
                    if exists|k: int| 0 <= k < i && #[trigger] arguments@[k] != initial[k] {
                        let k = choose|k: int| 0 <= k < i && #[trigger] arguments@[k] != initial[k];
                        if k < i - 1 {
                            assert(earlier[k] != initial[k]);
                        }
                    }
                }
            }

            node.for_each_mut_argument(arguments.as_slice());
            assert(step == (node.arguments() != initial)) by {
                if node.arguments() != initial {
                    assert(!(arguments@ =~= initial));
                }
            }
            graph.replace(id, node);
            changed = changed || step;
            assert(changed == exists|j: int|
                0 <= j <= id && #[trigger] graph@[j].arguments() != previous[j].arguments()) by {
                if step {
                    assert(graph@[id as int].arguments() != previous[id as int].arguments());
                }
                if exists|j: int| 0 <= j < id && #[trigger] before[j].arguments() != previous[j].arguments() {
                    let j = choose|j: int| 0 <= j < id && #[trigger] before[j].arguments() != previous[j].arguments();
                    assert(graph@[j] == before[j]);
                }
                if exists|j: int| 0 <= j <= id && #[trigger] graph@[j].arguments() != previous[j].arguments() {
                    let j = choose|j: int| 0 <= j <= id && #[trigger] graph@[j].arguments() != previous[j].arguments();
                    if j < id {
                        assert(graph@[j] == before[j]);
                        assert(before[j].arguments() != previous[j].arguments());
                    }
                }
            }
            id = id + 1;
        }

        changed
    }
}

proof fn lemma_loop_moves_ok_prefix(moves: Map<u64, Link>, arguments: Seq<Link>, results: Seq<Link>, input: u32, output: u32, count: int, prefix: int)
    requires
        loop_moves_ok(moves, arguments, results, input, output, count),
        0 <= prefix <= count,
    ensures
        loop_moves_ok(moves, arguments, results, input, output, prefix),
    decreases count,
{
    if prefix < count {
        lemma_loop_moves_ok_prefix(moves, arguments, results, input, output, count - 1, prefix);
    }
}

proof fn lemma_gamma_moves_ok_prefix(moves: Map<u64, Link>, nodes: Seq<Node>, output: u32, regions: Seq<u32>, arguments: Seq<Link>, count: int, prefix: int)
    requires
        gamma_moves_ok(moves, nodes, output, regions, arguments, count),
        0 <= prefix <= count,
    ensures
        gamma_moves_ok(moves, nodes, output, regions, arguments, prefix),
    decreases count,
{
    if prefix < count {
        lemma_gamma_moves_ok_prefix(moves, nodes, output, regions, arguments, count - 1, prefix);
    }
}

proof fn lemma_port_moves_ok_prefix(nodes: Seq<Node>, count: int, prefix: int)
    requires
        port_moves_ok(nodes, count),
        0 <= prefix <= count,
    ensures
        port_moves_ok(nodes, prefix),
    decreases count,
{
    if prefix < count {
        lemma_port_moves_ok_prefix(nodes, count - 1, prefix);
    }
}

impl Default for InvariantPortMover {
    fn default() -> (mover: Self)
        ensures
            mover@ == Map::<u64, Link>::empty(),
    {
        InvariantPortMover::new()
    }
}

} // verus!
