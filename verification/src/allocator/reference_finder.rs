//! Which values would like to share a local: a region's results with its
//! outputs, a loop's arguments and results with its ports, and a state
//! token with the state the node that consumes it produces.

use vstd::prelude::*;

use crate::{
    allocator::{
        preferences::{
            put, put_all_port_pairs, put_all_zip, put_pairs, put_port_pairs, put_zip, try_insert,
            try_insert_ports, try_ports, try_put,
        },
        scalar_finder::{countable, result_count, result_count_of},
    },
    graph::{
        control::{GammaIn, GammaOut, LambdaIn, OmegaIn, OmegaOut, RegionOut, ThetaIn, ThetaOut},
        simple::{
            Fence, GlobalGet, GlobalSet, Identity, MemoryCopy, MemoryDrop, MemoryFill, MemoryGrow,
            MemoryLoad, MemorySize, MemoryStore, TableCopy, TableDrop, TableFill, TableGet, TableGrow,
            TableSet, TableSize,
        },
        DataFlowGraph, Link, Node,
    },
    visitor::link_map::LinkMap,
};

verus! {

/// The input of region output `region`.
pub open spec fn region_input(graph: Seq<Node>, region: u32) -> u32 {
    match graph[region as int] {
        Node::RegionOut(node) => node.input,
        _ => 0,
    }
}

/// `map` once a state token `link` that is not one of its node's values got
/// an empty preference, unless it had one.
pub open spec fn state_assignment(map: Map<u64, Link>, graph: Seq<Node>, link: Link) -> Map<u64, Link> {
    if link.1 >= result_count(graph[link.0 as int]) {
        try_put(map, link, Link::spec_dangling())
    } else {
        map
    }
}

/// `map` with each region but the last reusing, for each of `len` ports, the
/// local of the last region's input `last`.
pub open spec fn regions_reuse(map: Map<u64, Link>, graph: Seq<Node>, regions: Seq<u32>, last: u32, len: nat) -> Map<
    u64,
    Link,
>
    decreases regions.len(),
{
    if regions.len() == 0 {
        map
    } else {
        put_port_pairs(
            regions_reuse(map, graph, regions.drop_last(), last, len),
            region_input(graph, regions.last()),
            last,
            len,
        )
    }
}

/// The preferences of the regions of a gamma over `arguments`: every port of
/// the last region's input gets a local, every other region reuses them, and
/// so do the arguments.
pub open spec fn region_post(map: Map<u64, Link>, graph: Seq<Node>, regions: Seq<u32>, arguments: Seq<Link>) -> Map<
    u64,
    Link,
> {
    let last = region_input(graph, regions.last());
    let len = arguments.len();
    put_zip(regions_reuse(try_ports(map, last, len), graph, regions.drop_last(), last, len), arguments, last)
}

/// The preferences of the last region of a gamma: every result gets a local.
pub open spec fn gamma_post(map: Map<u64, Link>, graph: Seq<Node>, region: u32) -> Map<u64, Link> {
    match graph[region as int] {
        Node::RegionOut(node) => try_ports(map, node.output, node.results@.len()),
        _ => map,
    }
}

/// The links whose state a state node `node`, numbered `id`, continues, each
/// with the port of `id` that carries the state on.
pub open spec fn state_pairs(node: Node, id: u32) -> Seq<(Link, Link)> {
    match node {
        Node::GlobalGet(n) => seq![(n.source, Link(id, GlobalGet::STATE_PORT))],
        Node::GlobalSet(n) => seq![(n.destination, Link(id, GlobalSet::STATE_PORT))],
        Node::TableGet(n) => seq![(n.source.reference, Link(id, TableGet::STATE_PORT))],
        Node::TableSet(n) => seq![(n.destination.reference, Link(id, TableSet::STATE_PORT))],
        Node::TableSize(n) => seq![(n.source, Link(id, TableSize::STATE_PORT))],
        Node::TableGrow(n) => seq![(n.destination, Link(id, TableGrow::STATE_PORT))],
        Node::TableFill(n) => seq![(n.destination.reference, Link(id, TableFill::STATE_PORT))],
        Node::TableCopy(n) => seq![
            (n.destination.reference, Link(id, TableCopy::DESTINATION_STATE_PORT)),
            (n.source.reference, Link(id, TableCopy::SOURCE_STATE_PORT)),
        ],
        Node::TableDrop(n) => seq![(n.source, Link(id, TableDrop::STATE_PORT))],
        Node::MemoryLoad(n) => seq![(n.source.reference, Link(id, MemoryLoad::STATE_PORT))],
        Node::MemoryStore(n) => seq![(n.destination.reference, Link(id, MemoryStore::STATE_PORT))],
        Node::MemorySize(n) => seq![(n.source, Link(id, MemorySize::STATE_PORT))],
        Node::MemoryGrow(n) => seq![(n.destination, Link(id, MemoryGrow::STATE_PORT))],
        Node::MemoryFill(n) => seq![(n.destination.reference, Link(id, MemoryFill::STATE_PORT))],
        Node::MemoryCopy(n) => seq![
            (n.destination.reference, Link(id, MemoryCopy::DESTINATION_STATE_PORT)),
            (n.source.reference, Link(id, MemoryCopy::SOURCE_STATE_PORT)),
        ],
        Node::MemoryDrop(n) => seq![(n.source, Link(id, MemoryDrop::STATE_PORT))],
        _ => Seq::empty(),
    }
}

/// The preferences that node `id` of `graph` adds to `map`.
pub open spec fn node_preferences(map: Map<u64, Link>, graph: Seq<Node>, id: u32) -> Map<u64, Link> {
    match graph[id as int] {
        Node::LambdaIn(n) => try_ports(map, id, n.dependencies@.len() + n.kind.arguments@.len()),
        Node::RegionOut(n) => put_zip(map, n.results@, n.output),
        Node::GammaOut(n) => match graph[n.input as int] {
            Node::GammaIn(input) => {
                let posted = gamma_post(region_post(map, graph, n.regions@, input.arguments@), graph, n.regions@.last());
                if n.regions@.len() != 2 {
                    try_put(posted, input.condition, Link::spec_dangling())
                } else {
                    posted
                }
            },
            _ => map,
        },
        Node::ThetaOut(n) => match graph[n.input as int] {
            Node::ThetaIn(input) => try_ports(
                put_port_pairs(
                    put_zip(put_zip(map, input.arguments@, input.output), n.results@, input.output),
                    n.input,
                    input.output,
                    n.results@.len(),
                ),
                input.output,
                n.results@.len(),
            ),
            _ => map,
        },
        Node::OmegaIn(n) => match graph[n.output as int] {
            Node::OmegaOut(output) => try_put(
                try_put(
                    try_put(map, Link(output.input, OmegaIn::ENVIRONMENT_PORT), Link::spec_dangling()),
                    Link(output.input, OmegaIn::STATE_PORT),
                    Link::spec_dangling(),
                ),
                output.state,
                Link::spec_dangling(),
            ),
            _ => map,
        },
        Node::Trap => try_put(map, Link(id, 0), Link::spec_dangling()),
        Node::Identity(n) => try_ports(put_zip(map, n.sources@, id), id, n.sources@.len()),
        Node::Fence(n) => try_ports(put_zip(map, n.sources@, id), id, n.sources@.len()),
        Node::GlobalSet(n) => state_assignment(put_pairs(map, state_pairs(graph[id as int], id)), graph, n.source),
        _ => put_pairs(map, state_pairs(graph[id as int], id)),
    }
}

/// The preferences that the first `n` nodes of `graph` add to `map`, in order.
pub open spec fn all_preferences(map: Map<u64, Link>, graph: Seq<Node>, n: int) -> Map<u64, Link>
    decreases n,
{
    if n <= 0 {
        map
    } else {
        node_preferences(all_preferences(map, graph, n - 1), graph, (n - 1) as u32)
    }
}

/// Whether node `id` of `graph` has the shape its preferences are read from:
/// paired nodes of the right kind, at least one region per gamma, and port
/// lists short enough to number their ports.
pub open spec fn node_fits(graph: Seq<Node>, id: int) -> bool {
    match graph[id] {
        Node::LambdaIn(n) => n.dependencies@.len() + n.kind.arguments@.len() <= u16::MAX,
        Node::RegionOut(n) => n.results@.len() <= u16::MAX,
        Node::GammaOut(n) => {
            &&& n.input < graph.len()
            &&& graph[n.input as int] is GammaIn
            &&& graph[n.input as int]->GammaIn_0.arguments@.len() <= u16::MAX
            &&& n.regions@.len() > 0
            &&& forall|k: int|
                0 <= k < n.regions@.len() ==> (#[trigger] n.regions@[k]) < graph.len() && graph[n.regions@[k] as int] is RegionOut
            &&& graph[n.regions@.last() as int]->RegionOut_0.results@.len() <= u16::MAX
        },
        Node::ThetaOut(n) => {
            &&& n.input < graph.len()
            &&& graph[n.input as int] is ThetaIn
            &&& graph[n.input as int]->ThetaIn_0.arguments@.len() <= u16::MAX
            &&& n.results@.len() <= u16::MAX
        },
        Node::OmegaIn(n) => n.output < graph.len() && graph[n.output as int] is OmegaOut,
        Node::Identity(n) => n.sources@.len() <= u16::MAX,
        Node::Fence(n) => n.sources@.len() <= u16::MAX,
        Node::GlobalSet(n) => n.source.0 < graph.len() && countable(graph[n.source.0 as int]),
        _ => true,
    }
}

/// Whether every node of `graph` fits.
pub open spec fn graph_fits(graph: Seq<Node>) -> bool {
    forall|i: int| 0 <= i < graph.len() ==> #[trigger] node_fits(graph, i)
}

proof fn lemma_put_pairs_one(map: Map<u64, Link>, pair: (Link, Link))
    ensures
        put_pairs(map, seq![pair]) == map.insert(pair.0.packed(), pair.1),
{
    let pairs = seq![pair];
    assert(pairs.drop_last() =~= Seq::<(Link, Link)>::empty());
    assert(pairs.last() == pair);
    assert(put_pairs(map, pairs.drop_last()) == map);
}

proof fn lemma_put_pairs_two(map: Map<u64, Link>, first: (Link, Link), second: (Link, Link))
    ensures
        put_pairs(map, seq![first, second]) == map.insert(first.0.packed(), first.1).insert(
            second.0.packed(),
            second.1,
        ),
{
    assert(seq![first, second].drop_last() =~= seq![first]);
    lemma_put_pairs_one(map, first);
}

fn add_state_assignment(assignments: &mut LinkMap, graph: &DataFlowGraph, link: Link)
    requires
        link.0 < graph@.len(),
        countable(graph@[link.0 as int]),
    ensures
        final(assignments)@ == state_assignment(old(assignments)@, graph@, link),
{
    if link.1 >= result_count_of(graph.get(link.0)) {
        try_insert(assignments, link, Link::dangling());
    }
}

fn handle_lambda_in(assignments: &mut LinkMap, id: u32, node: &LambdaIn)
    requires
        node.dependencies@.len() + node.kind.arguments@.len() <= u16::MAX,
    ensures
        final(assignments)@ == try_ports(old(assignments)@, id, node.dependencies@.len() + node.kind.arguments@.len()),
{
    let ports = node.output_ports();
    try_insert_ports(assignments, id, ports.end);
}

fn handle_region_out(assignments: &mut LinkMap, node: &RegionOut)
    requires
        node.results@.len() <= u16::MAX,
    ensures
        final(assignments)@ == put_zip(old(assignments)@, node.results@, node.output),
{
    put_all_zip(assignments, node.results.as_slice(), node.output);
}

fn handle_region_post(assignments: &mut LinkMap, graph: &DataFlowGraph, regions: &[u32], arguments: &[Link])
    requires
        regions@.len() > 0,
        forall|k: int| 0 <= k < regions@.len() ==> (#[trigger] regions@[k]) < graph@.len() && graph@[regions@[k] as int] is RegionOut,
        arguments@.len() <= u16::MAX,
    ensures
        final(assignments)@ == region_post(old(assignments)@, graph@, regions@, arguments@),
{
    let count = regions.len();
    let last_region = regions[count - 1];
    let last = match graph.get(last_region) {
        Node::RegionOut(node) => node.input,
        _ => 0,
    };
    let len = arguments.len() as u16;

    try_insert_ports(assignments, last, len);

    let ghost start = assignments@;
    let mut k: usize = 0;
    while k + 1 < count
        invariant
            count == regions@.len(),
            count > 0,
            k < count,
            forall|k: int| 0 <= k < regions@.len() ==> (#[trigger] regions@[k]) < graph@.len() && graph@[regions@[k] as int] is RegionOut,
            assignments@ == regions_reuse(start, graph@, regions@.subrange(0, k as int), last, len as nat),
        decreases count - k,
    {
        let input = match graph.get(regions[k]) {
            Node::RegionOut(node) => node.input,
            _ => 0,
        };
        put_all_port_pairs(assignments, input, last, len);
        k = k + 1;
        assert(regions@.subrange(0, k as int).drop_last() =~= regions@.subrange(0, k - 1));
    }
    assert(regions@.subrange(0, k as int) =~= regions@.drop_last());

    put_all_zip(assignments, arguments, last);
}

fn handle_gamma_post(assignments: &mut LinkMap, graph: &DataFlowGraph, region: u32)
    requires
        region < graph@.len(),
        graph@[region as int] is RegionOut,
        graph@[region as int]->RegionOut_0.results@.len() <= u16::MAX,
    ensures
        final(assignments)@ == gamma_post(old(assignments)@, graph@, region),
{
    match graph.get(region) {
        Node::RegionOut(node) => {
            let len = node.results.len() as u16;
            try_insert_ports(assignments, node.output, len);
        },
        _ => {},
    }
}

fn handle_gamma_out(assignments: &mut LinkMap, graph: &DataFlowGraph, id: u32, node: &GammaOut)
    requires
        id < graph@.len(),
        graph@[id as int] == Node::GammaOut(*node),
        node_fits(graph@, id as int),
    ensures
        final(assignments)@ == node_preferences(old(assignments)@, graph@, id),
{
    match graph.get(node.input) {
        Node::GammaIn(input) => {
            handle_region_post(assignments, graph, node.regions.as_slice(), input.arguments.as_slice());
            handle_gamma_post(assignments, graph, node.regions[node.regions.len() - 1]);

            if node.regions.len() != 2 {
                try_insert(assignments, input.condition, Link::dangling());
            }
        },
        _ => {},
    }
}

fn handle_theta_out(assignments: &mut LinkMap, graph: &DataFlowGraph, id: u32, node: &ThetaOut)
    requires
        id < graph@.len(),
        graph@[id as int] == Node::ThetaOut(*node),
        node_fits(graph@, id as int),
    ensures
        final(assignments)@ == node_preferences(old(assignments)@, graph@, id),
{
    match graph.get(node.input) {
        Node::ThetaIn(input) => {
            let len = node.results.len() as u16;

            put_all_zip(assignments, input.arguments.as_slice(), input.output);
            put_all_zip(assignments, node.results.as_slice(), input.output);
            put_all_port_pairs(assignments, node.input, input.output, len);
            try_insert_ports(assignments, input.output, len);
        },
        _ => {},
    }
}

fn handle_omega_in(assignments: &mut LinkMap, graph: &DataFlowGraph, id: u32, node: &OmegaIn)
    requires
        id < graph@.len(),
        graph@[id as int] == Node::OmegaIn(*node),
        node_fits(graph@, id as int),
    ensures
        final(assignments)@ == node_preferences(old(assignments)@, graph@, id),
{
    match graph.get(node.output) {
        Node::OmegaOut(output) => {
            try_insert(assignments, Link(output.input, OmegaIn::ENVIRONMENT_PORT), Link::dangling());
            try_insert(assignments, Link(output.input, OmegaIn::STATE_PORT), Link::dangling());

            try_insert(assignments, output.state, Link::dangling());
        },
        _ => {},
    }
}

fn handle_trap(assignments: &mut LinkMap, id: u32)
    ensures
        final(assignments)@ == try_put(old(assignments)@, Link(id, 0), Link::spec_dangling()),
{
    try_insert(assignments, Link(id, 0), Link::dangling());
}

fn handle_identity(assignments: &mut LinkMap, id: u32, node: &Identity)
    requires
        node.sources@.len() <= u16::MAX,
    ensures
        final(assignments)@ == try_ports(put_zip(old(assignments)@, node.sources@, id), id, node.sources@.len()),
{
    put_all_zip(assignments, node.sources.as_slice(), id);
    try_insert_ports(assignments, id, node.sources.len() as u16);
}

fn handle_fence(assignments: &mut LinkMap, id: u32, node: &Fence)
    requires
        node.sources@.len() <= u16::MAX,
    ensures
        final(assignments)@ == try_ports(put_zip(old(assignments)@, node.sources@, id), id, node.sources@.len()),
{
    put_all_zip(assignments, node.sources.as_slice(), id);
    try_insert_ports(assignments, id, node.sources.len() as u16);
}

fn handle_global_get(assignments: &mut LinkMap, id: u32, node: &GlobalGet)
    ensures
        final(assignments)@ == put_pairs(old(assignments)@, state_pairs(Node::GlobalGet(*node), id)),
{
    put(assignments, node.source, Link(id, GlobalGet::STATE_PORT));
    proof {
        lemma_put_pairs_one(old(assignments)@, (node.source, Link(id, GlobalGet::STATE_PORT)));
    }
}

fn handle_global_set(assignments: &mut LinkMap, graph: &DataFlowGraph, id: u32, node: &GlobalSet)
    requires
        node.source.0 < graph@.len(),
        countable(graph@[node.source.0 as int]),
    ensures
        final(assignments)@ == state_assignment(
            put_pairs(old(assignments)@, state_pairs(Node::GlobalSet(*node), id)),
            graph@,
            node.source,
        ),
{
    put(assignments, node.destination, Link(id, GlobalSet::STATE_PORT));
    proof {
        lemma_put_pairs_one(old(assignments)@, (node.destination, Link(id, GlobalSet::STATE_PORT)));
    }

    add_state_assignment(assignments, graph, node.source);
}

fn handle_table_get(assignments: &mut LinkMap, id: u32, node: &TableGet)
    ensures
        final(assignments)@ == put_pairs(old(assignments)@, state_pairs(Node::TableGet(*node), id)),
{
    put(assignments, node.source.reference, Link(id, TableGet::STATE_PORT));
    proof {
        lemma_put_pairs_one(old(assignments)@, (node.source.reference, Link(id, TableGet::STATE_PORT)));
    }
}

fn handle_table_set(assignments: &mut LinkMap, id: u32, node: &TableSet)
    ensures
        final(assignments)@ == put_pairs(old(assignments)@, state_pairs(Node::TableSet(*node), id)),
{
    put(assignments, node.destination.reference, Link(id, TableSet::STATE_PORT));
    proof {
        lemma_put_pairs_one(old(assignments)@, (node.destination.reference, Link(id, TableSet::STATE_PORT)));
    }
}

fn handle_table_size(assignments: &mut LinkMap, id: u32, node: &TableSize)
    ensures
        final(assignments)@ == put_pairs(old(assignments)@, state_pairs(Node::TableSize(*node), id)),
{
    put(assignments, node.source, Link(id, TableSize::STATE_PORT));
    proof {
        lemma_put_pairs_one(old(assignments)@, (node.source, Link(id, TableSize::STATE_PORT)));
    }
}

fn handle_table_grow(assignments: &mut LinkMap, id: u32, node: &TableGrow)
    ensures
        final(assignments)@ == put_pairs(old(assignments)@, state_pairs(Node::TableGrow(*node), id)),
{
    put(assignments, node.destination, Link(id, TableGrow::STATE_PORT));
    proof {
        lemma_put_pairs_one(old(assignments)@, (node.destination, Link(id, TableGrow::STATE_PORT)));
    }
}

fn handle_table_fill(assignments: &mut LinkMap, id: u32, node: &TableFill)
    ensures
        final(assignments)@ == put_pairs(old(assignments)@, state_pairs(Node::TableFill(*node), id)),
{
    put(assignments, node.destination.reference, Link(id, TableFill::STATE_PORT));
    proof {
        lemma_put_pairs_one(old(assignments)@, (node.destination.reference, Link(id, TableFill::STATE_PORT)));
    }
}

fn handle_table_copy(assignments: &mut LinkMap, id: u32, node: &TableCopy)
    ensures
        final(assignments)@ == put_pairs(old(assignments)@, state_pairs(Node::TableCopy(*node), id)),
{
    put(assignments, node.destination.reference, Link(id, TableCopy::DESTINATION_STATE_PORT));
    put(assignments, node.source.reference, Link(id, TableCopy::SOURCE_STATE_PORT));
    proof {
        lemma_put_pairs_two(
            old(assignments)@,
            (node.destination.reference, Link(id, TableCopy::DESTINATION_STATE_PORT)),
            (node.source.reference, Link(id, TableCopy::SOURCE_STATE_PORT)),
        );
    }
}

fn handle_table_drop(assignments: &mut LinkMap, id: u32, node: &TableDrop)
    ensures
        final(assignments)@ == put_pairs(old(assignments)@, state_pairs(Node::TableDrop(*node), id)),
{
    put(assignments, node.source, Link(id, TableDrop::STATE_PORT));
    proof {
        lemma_put_pairs_one(old(assignments)@, (node.source, Link(id, TableDrop::STATE_PORT)));
    }
}

fn handle_memory_load(assignments: &mut LinkMap, id: u32, node: &MemoryLoad)
    ensures
        final(assignments)@ == put_pairs(old(assignments)@, state_pairs(Node::MemoryLoad(*node), id)),
{
    put(assignments, node.source.reference, Link(id, MemoryLoad::STATE_PORT));
    proof {
        lemma_put_pairs_one(old(assignments)@, (node.source.reference, Link(id, MemoryLoad::STATE_PORT)));
    }
}

fn handle_memory_store(assignments: &mut LinkMap, id: u32, node: &MemoryStore)
    ensures
        final(assignments)@ == put_pairs(old(assignments)@, state_pairs(Node::MemoryStore(*node), id)),
{
    put(assignments, node.destination.reference, Link(id, MemoryStore::STATE_PORT));
    proof {
        lemma_put_pairs_one(old(assignments)@, (node.destination.reference, Link(id, MemoryStore::STATE_PORT)));
    }
}

fn handle_memory_size(assignments: &mut LinkMap, id: u32, node: &MemorySize)
    ensures
        final(assignments)@ == put_pairs(old(assignments)@, state_pairs(Node::MemorySize(*node), id)),
{
    put(assignments, node.source, Link(id, MemorySize::STATE_PORT));
    proof {
        lemma_put_pairs_one(old(assignments)@, (node.source, Link(id, MemorySize::STATE_PORT)));
    }
}

fn handle_memory_grow(assignments: &mut LinkMap, id: u32, node: &MemoryGrow)
    ensures
        final(assignments)@ == put_pairs(old(assignments)@, state_pairs(Node::MemoryGrow(*node), id)),
{
    put(assignments, node.destination, Link(id, MemoryGrow::STATE_PORT));
    proof {
        lemma_put_pairs_one(old(assignments)@, (node.destination, Link(id, MemoryGrow::STATE_PORT)));
    }
}

fn handle_memory_fill(assignments: &mut LinkMap, id: u32, node: &MemoryFill)
    ensures
        final(assignments)@ == put_pairs(old(assignments)@, state_pairs(Node::MemoryFill(*node), id)),
{
    put(assignments, node.destination.reference, Link(id, MemoryFill::STATE_PORT));
    proof {
        lemma_put_pairs_one(old(assignments)@, (node.destination.reference, Link(id, MemoryFill::STATE_PORT)));
    }
}

fn handle_memory_copy(assignments: &mut LinkMap, id: u32, node: &MemoryCopy)
    ensures
        final(assignments)@ == put_pairs(old(assignments)@, state_pairs(Node::MemoryCopy(*node), id)),
{
    put(assignments, node.destination.reference, Link(id, MemoryCopy::DESTINATION_STATE_PORT));
    put(assignments, node.source.reference, Link(id, MemoryCopy::SOURCE_STATE_PORT));
    proof {
        lemma_put_pairs_two(
            old(assignments)@,
            (node.destination.reference, Link(id, MemoryCopy::DESTINATION_STATE_PORT)),
            (node.source.reference, Link(id, MemoryCopy::SOURCE_STATE_PORT)),
        );
    }
}

fn handle_memory_drop(assignments: &mut LinkMap, id: u32, node: &MemoryDrop)
    ensures
        final(assignments)@ == put_pairs(old(assignments)@, state_pairs(Node::MemoryDrop(*node), id)),
{
    put(assignments, node.source, Link(id, MemoryDrop::STATE_PORT));
    proof {
        lemma_put_pairs_one(old(assignments)@, (node.source, Link(id, MemoryDrop::STATE_PORT)));
    }
}

fn handle_node(assignments: &mut LinkMap, graph: &DataFlowGraph, id: u32, node: &Node)
    requires
        id < graph@.len(),
        graph@[id as int] == *node,
        node_fits(graph@, id as int),
    ensures
        final(assignments)@ == node_preferences(old(assignments)@, graph@, id),
{
    let ghost before = assignments@;
    match node {
        Node::LambdaIn(inner) => handle_lambda_in(assignments, id, inner),
        Node::RegionOut(inner) => handle_region_out(assignments, inner),
        Node::GammaOut(inner) => handle_gamma_out(assignments, graph, id, inner),
        Node::ThetaOut(inner) => handle_theta_out(assignments, graph, id, inner),
        Node::OmegaIn(inner) => handle_omega_in(assignments, graph, id, inner),
        Node::Trap => handle_trap(assignments, id),
        Node::Identity(inner) => handle_identity(assignments, id, inner),
        Node::Fence(inner) => handle_fence(assignments, id, inner),
        Node::GlobalGet(inner) => handle_global_get(assignments, id, inner),
        Node::GlobalSet(inner) => handle_global_set(assignments, graph, id, inner),
        Node::TableGet(inner) => handle_table_get(assignments, id, inner),
        Node::TableSet(inner) => handle_table_set(assignments, id, inner),
        Node::TableSize(inner) => handle_table_size(assignments, id, inner),
        Node::TableGrow(inner) => handle_table_grow(assignments, id, inner),
        Node::TableFill(inner) => handle_table_fill(assignments, id, inner),
        Node::TableCopy(inner) => handle_table_copy(assignments, id, inner),
        Node::TableDrop(inner) => handle_table_drop(assignments, id, inner),
        Node::MemoryLoad(inner) => handle_memory_load(assignments, id, inner),
        Node::MemoryStore(inner) => handle_memory_store(assignments, id, inner),
        Node::MemorySize(inner) => handle_memory_size(assignments, id, inner),
        Node::MemoryGrow(inner) => handle_memory_grow(assignments, id, inner),
        Node::MemoryFill(inner) => handle_memory_fill(assignments, id, inner),
        Node::MemoryCopy(inner) => handle_memory_copy(assignments, id, inner),
        Node::MemoryDrop(inner) => handle_memory_drop(assignments, id, inner),
        _ => {},
    }
    proof {
        if state_pairs(graph@[id as int], id).len() == 0 {
            assert(state_pairs(graph@[id as int], id) =~= Seq::<(Link, Link)>::empty());
        }
    }
}

/// Records, for every value that would like to share the local of another
/// link, which link that is, and gives the values that must have a local an
/// empty preference.
pub fn run(assignments: &mut LinkMap, graph: &DataFlowGraph)
    requires
        graph_fits(graph@),
        graph@.len() <= u32::MAX,
    ensures
        final(assignments)@ == all_preferences(old(assignments)@, graph@, graph@.len() as int),
{
    let nodes = graph.nodes();
    let mut id: usize = 0;
    while id < nodes.len()
        invariant
            nodes@ == graph@,
            graph_fits(graph@),
            graph@.len() <= u32::MAX,
            id <= nodes@.len(),
            assignments@ == all_preferences(old(assignments)@, graph@, id as int),
        decreases nodes@.len() - id,
    {
        assert(node_fits(graph@, id as int));
        handle_node(assignments, graph, id as u32, &nodes[id]);
        id = id + 1;
    }
}

} // verus!
