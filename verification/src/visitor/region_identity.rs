//! Region identity insertion and removal.

use vstd::prelude::*;

use crate::graph::{
    control::{RegionOut, ThetaIn, ThetaOut},
    simple::Identity,
    DataFlowGraph, Link, Node,
};
use crate::visitor::constant_isolator::links_in_range;

verus! {

/// The link that `link` forwards to in `nodes`: the matching source of the
/// identity it reads, or `link` itself when it does not read an identity.
pub open spec fn forward(nodes: Seq<Node>, link: Link) -> Link {
    match nodes[link.0 as int] {
        Node::Identity(identity) => identity.sources@[link.1 as int],
        _ => link,
    }
}

/// Whether `link` names a node of `nodes` and, when that node is an identity,
/// one of its sources.
pub open spec fn forwardable(nodes: Seq<Node>, link: Link) -> bool {
    &&& link.0 < nodes.len()
    &&& nodes[link.0 as int] matches Node::Identity(identity) ==> link.1 < identity.sources@.len()
}

/// Whether every argument of every node is forwardable.
pub open spec fn all_forwardable(nodes: Seq<Node>) -> bool {
    forall|j: int, k: int|
        0 <= j < nodes.len() && 0 <= k < nodes[j].arguments().len() ==> forwardable(
            nodes,
            #[trigger] nodes[j].arguments()[k],
        )
}

/// The nodes as the removal pass sees them while it rewrites node `id`: the
/// nodes before it already rewritten, the node itself taken out, and the
/// nodes after it not yet visited.
pub open spec fn removal_view(previous: Seq<Node>, rewritten: Seq<Node>, id: int) -> Seq<Node> {
    Seq::new(
        previous.len(),
        |c: int|
            if c < id {
                rewritten[c]
            } else if c == id {
                Node::Trap
            } else {
                previous[c]
            },
    )
}

/// Whether `nodes` is what removing identities made of `previous`: every
/// node keeps its kind, its fields and its number of arguments, and each
/// argument reads what the old argument forwards to, as seen while that node
/// was rewritten.
pub open spec fn identities_removed(previous: Seq<Node>, nodes: Seq<Node>) -> bool {
    &&& nodes.len() == previous.len()
    &&& forall|j: int| 0 <= j < previous.len() ==> previous[j].same_except_arguments(&nodes[j])
    &&& forall|j: int|
        0 <= j < previous.len() ==> #[trigger] nodes[j].arguments().len()
            == previous[j].arguments().len()
    &&& forall|j: int, k: int|
        0 <= j < previous.len() && 0 <= k < previous[j].arguments().len()
            ==> #[trigger] nodes[j].arguments()[k] == forward(
            removal_view(previous, nodes, j),
            previous[j].arguments()[k],
        )
}

/// Whether every argument of every node of `nodes` reads a node before it.
pub open spec fn topological(nodes: Seq<Node>) -> bool {
    forall|j: int, k: int|
        0 <= j < nodes.len() && 0 <= k < nodes[j].arguments().len() ==> #[trigger] nodes[j].arguments()[k].0 < j
}

/// On a graph in topological order, removing identities leaves no argument
/// of any node reading an identity.
pub proof fn lemma_removed_reads_no_identity(previous: Seq<Node>, nodes: Seq<Node>)
    requires
        identities_removed(previous, nodes),
        topological(previous),
        all_forwardable(previous),
    ensures
        forall|j: int, k: int|
            0 <= j < nodes.len() && 0 <= k < nodes[j].arguments().len() ==> !(nodes[(
            #[trigger] nodes[j].arguments()[k]).0 as int] is Identity),
{
    assert forall|j: int, k: int| 0 <= j < nodes.len() && 0 <= k < nodes[j].arguments().len() implies !(nodes[(
    #[trigger] nodes[j].arguments()[k]).0 as int] is Identity) by {
        lemma_removed_node_reads_no_identity(previous, nodes, j, k);
    }
}

/// One argument of the removal's result reads no identity, by induction on
/// the node it belongs to.
proof fn lemma_removed_node_reads_no_identity(previous: Seq<Node>, nodes: Seq<Node>, j: int, k: int)
    requires
        identities_removed(previous, nodes),
        topological(previous),
        all_forwardable(previous),
        0 <= j < nodes.len(),
        0 <= k < nodes[j].arguments().len(),
    ensures
        nodes[j].arguments()[k].0 < j,
        !(nodes[nodes[j].arguments()[k].0 as int] is Identity),
    decreases j,
{
    let link = previous[j].arguments()[k];
    let t = link.0 as int;
    assert(nodes[j].arguments()[k] == forward(removal_view(previous, nodes, j), link));
    assert(t < j);
    assert(forwardable(previous, link));
    let view = removal_view(previous, nodes, j);
    assert(view[t] == nodes[t]);
    assert(previous[t].same_except_arguments(&nodes[t]));
    match nodes[t] {
        Node::Identity(identity) => {
            assert(previous[t] is Identity);
            assert(link.1 < identity.sources@.len());
            assert(nodes[t].arguments()[link.1 as int] == identity.sources@[link.1 as int]);
            lemma_removed_node_reads_no_identity(previous, nodes, t, link.1 as int);
        },
        _ => {
            assert(!(previous[t] is Identity));
        },
    }
}

fn replace_with_producer(graph: &DataFlowGraph, from: &mut Link) -> (changed: bool)
    requires
        forwardable(graph@, *old(from)),
    ensures
        *final(from) == forward(graph@, *old(from)),
        changed == (*final(from) != *old(from)),
{
    let source = match graph.get(from.0) {
        Node::Identity(Identity { sources }) => sources[from.1 as usize],
        _ => return false,
    };
    let changed = *from != source;

    *from = source;

    changed
}

// We remove all identities, as they are always redundant.
fn remove_at(graph: &DataFlowGraph, node: &mut Node) -> (changed: bool)
    requires
        forall|k: int|
            0 <= k < old(node).arguments().len() ==> forwardable(
                graph@,
                #[trigger] old(node).arguments()[k],
            ),
    ensures
        old(node).same_except_arguments(&*final(node)),
        final(node).arguments().len() == old(node).arguments().len(),
        forall|k: int|
            0 <= k < old(node).arguments().len() ==> #[trigger] final(node).arguments()[k] == forward(
                graph@,
                old(node).arguments()[k],
            ),
        changed == (final(node).arguments() != old(node).arguments()),
{
    let mut arguments: Vec<Link> = Vec::new();
    node.for_each_argument(&mut arguments);
    assert(arguments@ =~= node.arguments());
    let ghost initial = arguments@;

    let mut changed = false;
    let mut i: usize = 0;
    while i < arguments.len()
        invariant
            arguments@.len() == initial.len(),
            initial == old(node).arguments(),
            i <= initial.len(),
            forall|k: int| 0 <= k < initial.len() ==> forwardable(graph@, #[trigger] initial[k]),
            forall|k: int| i <= k < initial.len() ==> arguments@[k] == initial[k],
            forall|k: int|
                0 <= k < i ==> #[trigger] arguments@[k] == forward(graph@, initial[k]),
            changed == exists|k: int| 0 <= k < i && #[trigger] arguments@[k] != initial[k],
        decreases initial.len() - i,
    {
        let mut link = arguments[i];
        assert(forwardable(graph@, initial[i as int]));
        let step = replace_with_producer(graph, &mut link);
        let ghost earlier = arguments@;
        arguments.set(i, link);
        changed = changed || step;
        i = i + 1;
        assert(changed == exists|k: int| 0 <= k < i && #[trigger] arguments@[k] != initial[k]) by {
            if step {
                assert(arguments@[i - 1] != initial[i - 1]);
            }
            if exists|k: int| 0 <= k < i - 1 && #[trigger] earlier[k] != initial[k] {
                let k = choose|k: int| 0 <= k < i - 1 && #[trigger] earlier[k] != initial[k];
                assert(arguments@[k] != initial[k]);
            }
            if exists|k: int| 0 <= k < i && #[trigger] arguments@[k] != initial[k] {
                let k = choose|k: int| 0 <= k < i && #[trigger] arguments@[k] != initial[k];
                if k < i - 1 {
                    assert(earlier[k] != initial[k]);
                }
            }
        }
    }

    node.for_each_mut_argument(arguments.as_slice());
    assert(changed == (arguments@ != initial)) by {
        if arguments@ != initial {
            assert(!(arguments@ =~= initial));
        }
    }
    changed
}

/// Removes all identity nodes from the graph, by making every argument that
/// reads an identity read the identity's source instead.
///
/// Nodes are visited in identifier order, and each reads through the nodes
/// before it as already rewritten. Returns `true` when at least one link was
/// redirected past an identity.
pub fn remove(graph: &mut DataFlowGraph) -> (changed: bool)
    requires
        old(graph)@.len() <= u32::MAX,
        all_forwardable(old(graph)@),
    ensures
        identities_removed(old(graph)@, final(graph)@),
        changed == exists|j: int|
            0 <= j < old(graph)@.len() && #[trigger] final(graph)@[j].arguments()
                != old(graph)@[j].arguments(),
{
    let len = graph.len();
    let ghost previous = graph@;
    let end = len as u32;
    let mut changed = false;
    let mut id: u32 = 0;

    while id < end
        invariant
            end == previous.len(),
            id <= end,
            graph@.len() == previous.len(),
            all_forwardable(previous),
            forall|j: int| id <= j < previous.len() ==> graph@[j] == previous[j],
            forall|j: int| 0 <= j < id ==> previous[j].same_except_arguments(&graph@[j]),
            forall|j: int|
                0 <= j < id ==> #[trigger] graph@[j].arguments().len() == previous[j].arguments().len(),
            forall|j: int, k: int|
                0 <= j < id && 0 <= k < previous[j].arguments().len() ==> #[trigger] graph@[j].arguments()[k]
                    == forward(removal_view(previous, graph@, j), previous[j].arguments()[k]),
            changed == exists|j: int|
                0 <= j < id && #[trigger] graph@[j].arguments() != previous[j].arguments(),
        decreases end - id,
    {
        let ghost before = graph@;
        let mut node = graph.replace(id, Node::Trap);
        let ghost view = graph@;
        assert(view =~= removal_view(previous, before, id as int));
        assert forall|k: int| 0 <= k < node.arguments().len() implies forwardable(
            graph@,
            #[trigger] node.arguments()[k],
        ) by {
            let link = previous[id as int].arguments()[k];
            assert(forwardable(previous, link));
            if (link.0 as int) < id {
                assert(previous[link.0 as int].same_except_arguments(&graph@[link.0 as int]));
            }
        }

        let step = remove_at(graph, &mut node);

        graph.replace(id, node);
        changed = changed || step;
        assert(changed == exists|j: int|
            0 <= j <= id && #[trigger] graph@[j].arguments() != previous[j].arguments()) by {
            if step {
                assert(graph@[id as int].arguments() != previous[id as int].arguments());
            }
            if exists|j: int| 0 <= j < id && #[trigger] before[j].arguments() != previous[j].arguments() {
                let j = choose|j: int| 0 <= j < id && #[trigger] before[j].arguments() != previous[j].arguments();
                assert(graph@[j] == before[j]);
            }
            if exists|j: int| 0 <= j <= id && #[trigger] graph@[j].arguments() != previous[j].arguments() {
                let j = choose|j: int| 0 <= j <= id && #[trigger] graph@[j].arguments() != previous[j].arguments();
                if j < id {
                    assert(graph@[j] == before[j]);
                    assert(before[j].arguments() != previous[j].arguments());
                }
            }
        }

        assert forall|j: int, k: int|
            0 <= j <= id && 0 <= k < previous[j].arguments().len() implies #[trigger] graph@[j].arguments()[k]
                == forward(removal_view(previous, graph@, j), previous[j].arguments()[k]) by {
            assert(removal_view(previous, graph@, j) =~= removal_view(previous, before, j));
            if j == id {
                assert(removal_view(previous, graph@, j) =~= view);
            }
        }
        id = id + 1;
    }

    changed
}


/// The links at a control flow boundary that identities are inserted at: the
/// results of a region or theta output, and the arguments of a theta input.
pub open spec fn boundary(node: Node) -> Seq<Link> {
    match node {
        Node::RegionOut(region_out) => region_out.results@,
        Node::ThetaOut(theta_out) => theta_out.results@,
        Node::ThetaIn(theta_in) => theta_in.arguments@,
        _ => Seq::empty(),
    }
}

/// The number of boundary links of all the given nodes.
pub open spec fn boundary_count(nodes: Seq<Node>) -> nat
    decreases nodes.len(),
{
    if nodes.len() == 0 {
        0
    } else {
        boundary_count(nodes.drop_last()) + boundary(nodes.last()).len()
    }
}

proof fn lemma_boundary_count_prefix(nodes: Seq<Node>, i: int)
    requires
        0 <= i < nodes.len(),
    ensures
        boundary_count(nodes.subrange(0, i)) + boundary(nodes[i]).len() == boundary_count(
            nodes.subrange(0, i + 1),
        ),
        boundary_count(nodes.subrange(0, i + 1)) <= boundary_count(nodes),
    decreases nodes.len(),
{
    assert(nodes.subrange(0, i + 1).drop_last() =~= nodes.subrange(0, i));
    if i + 1 < nodes.len() {
        lemma_boundary_count_prefix(nodes.drop_last(), i);
        assert(nodes.drop_last().subrange(0, i + 1) =~= nodes.subrange(0, i + 1));
    } else {
        assert(nodes.subrange(0, i + 1) =~= nodes);
    }
}

/// The links to `count` identities appended from identifier `base` on.
pub open spec fn identity_links(base: int, count: nat) -> Seq<Link> {
    Seq::new(count, |k: int| Link((base + k) as u32, 0))
}

/// The arguments of `node` once the identities for its boundary links have
/// been appended from identifier `base` on.
pub open spec fn inserted_arguments(node: Node, base: int) -> Seq<Link> {
    match node {
        Node::RegionOut(region_out) => identity_links(base, region_out.results@.len()),
        Node::ThetaOut(theta_out) => identity_links(base, theta_out.results@.len()) + seq![
            theta_out.condition,
        ],
        Node::ThetaIn(theta_in) => identity_links(base, theta_in.arguments@.len()),
        _ => node.arguments(),
    }
}

/// Whether `node` is an identity reading exactly `source`.
pub open spec fn identity_of(node: Node, source: Link) -> bool {
    node matches Node::Identity(identity) && identity.sources@ == seq![source]
}

/// Whether `nodes` is what inserting identities made of `previous`: every
/// initial node keeps its kind and fields, its boundary links are replaced
/// by links to identities appended in order, and each of those identities
/// reads the boundary link it replaced.
pub open spec fn identities_inserted(previous: Seq<Node>, nodes: Seq<Node>) -> bool {
    &&& nodes.len() == previous.len() + boundary_count(previous)
    &&& nodes.len() <= u32::MAX + 1
    &&& forall|j: int| 0 <= j < previous.len() ==> previous[j].same_except_arguments(&nodes[j])
    &&& forall|j: int|
        0 <= j < previous.len() ==> #[trigger] nodes[j].arguments() == inserted_arguments(
            previous[j],
            (previous.len() + boundary_count(previous.subrange(0, j))) as int,
        )
    &&& forall|j: int, k: int|
        0 <= j < previous.len() && 0 <= k < boundary(previous[j]).len() ==> identity_of(
            nodes[previous.len() + boundary_count(previous.subrange(0, j)) + k],
            #[trigger] boundary(previous[j])[k],
        )
}

fn replace_with_identity(graph: &mut DataFlowGraph, from: &mut Link)
    requires
        old(graph)@.len() <= u32::MAX,
    ensures
        final(graph)@.len() == old(graph)@.len() + 1,
        final(graph)@.subrange(0, old(graph)@.len() as int) == old(graph)@,
        identity_of(final(graph)@[old(graph)@.len() as int], *old(from)),
        *final(from) == Link(old(graph)@.len() as u32, 0),
{
    let mut sources: Vec<Link> = Vec::new();
    sources.push(*from);
    let identity = Identity::add_into(graph, sources);

    *from = Link(identity, 0);
    assert(graph@.subrange(0, graph@.len() - 1) =~= old(graph)@);
}

fn replace_all_with_identities(graph: &mut DataFlowGraph, links: &mut Vec<Link>)
    requires
        old(graph)@.len() + old(links)@.len() <= u32::MAX + 1,
    ensures
        final(graph)@.len() == old(graph)@.len() + old(links)@.len(),
        final(graph)@.subrange(0, old(graph)@.len() as int) == old(graph)@,
        forall|k: int|
            0 <= k < old(links)@.len() ==> identity_of(
                final(graph)@[old(graph)@.len() + k],
                #[trigger] old(links)@[k],
            ),
        final(links)@ == identity_links(old(graph)@.len() as int, old(links)@.len()),
{
    let ghost start = graph@;
    let ghost initial = links@;
    let mut i: usize = 0;
    while i < links.len()
        invariant
            links@.len() == initial.len(),
            start.len() + initial.len() <= u32::MAX + 1,
            i <= initial.len(),
            graph@.len() == start.len() + i,
            graph@.subrange(0, start.len() as int) == start,
            forall|k: int| i <= k < initial.len() ==> links@[k] == initial[k],
            forall|k: int|
                0 <= k < i ==> identity_of(graph@[start.len() + k], #[trigger] initial[k]),
            forall|k: int| 0 <= k < i ==> #[trigger] links@[k] == Link((start.len() + k) as u32, 0),
        decreases initial.len() - i,
    {
        let ghost before = graph@;
        let mut link = links[i];
        replace_with_identity(graph, &mut link);
        links.set(i, link);
        assert forall|k: int| 0 <= k <= i implies identity_of(
            graph@[start.len() + k],
            #[trigger] initial[k],
        ) by {
            if k < i {
                assert(graph@[start.len() + k] == graph@.subrange(0, before.len() as int)[start.len() + k]);
            }
        }
        assert(graph@.subrange(0, start.len() as int) =~= before.subrange(0, start.len() as int));
        i = i + 1;
    }
    assert(links@ =~= identity_links(start.len() as int, initial.len()));
}

// We insert at...
//   * `RegionOut` results, since we need to issue the correct move order.
//   * `ThetaIn` arguments always, since they are mutable and must produce new locals.
//   * `ThetaOut` results, since we need to issue the correct move order.
//
// The `ThetaOut` condition is deliberately left alone. It is a predicate the loop tail
// consumes once, not a value that takes part in the loop carried move order.
fn insert_at(graph: &mut DataFlowGraph, node: &mut Node)
    requires
        old(graph)@.len() + boundary(*old(node)).len() <= u32::MAX + 1,
    ensures
        final(graph)@.len() == old(graph)@.len() + boundary(*old(node)).len(),
        final(graph)@.subrange(0, old(graph)@.len() as int) == old(graph)@,
        forall|k: int|
            0 <= k < boundary(*old(node)).len() ==> identity_of(
                final(graph)@[old(graph)@.len() + k],
                #[trigger] boundary(*old(node))[k],
            ),
        old(node).same_except_arguments(&*final(node)),
        final(node).arguments() == inserted_arguments(*old(node), old(graph)@.len() as int),
{
    match node {
        Node::RegionOut(RegionOut { results, .. }) => {
            replace_all_with_identities(graph, results);
        },
        Node::ThetaOut(ThetaOut { results, .. }) => {
            replace_all_with_identities(graph, results);
        },
        Node::ThetaIn(ThetaIn { arguments, .. }) => {
            replace_all_with_identities(graph, arguments);
        },
        _ => {},
    }
}

/// Inserts identity nodes at control flow boundaries: every result of a
/// region or theta output and every argument of a theta input is routed
/// through an identity of its own, appended to the graph.
pub fn insert(graph: &mut DataFlowGraph)
    requires
        old(graph)@.len() <= u32::MAX,
        old(graph)@.len() + boundary_count(old(graph)@) <= u32::MAX + 1,
    ensures
        identities_inserted(old(graph)@, final(graph)@),
{
    let len = graph.len();
    let ghost previous = graph@;
    let end = len as u32;
    let mut id: u32 = 0;

    while id < end
        invariant
            end == previous.len(),
            id <= end,
            previous.len() + boundary_count(previous) <= u32::MAX + 1,
            graph@.len() == previous.len() + boundary_count(previous.subrange(0, id as int)),
            forall|j: int| id <= j < previous.len() ==> graph@[j] == previous[j],
            forall|j: int| 0 <= j < id ==> previous[j].same_except_arguments(&graph@[j]),
            forall|j: int|
                0 <= j < id ==> #[trigger] graph@[j].arguments() == inserted_arguments(
                    previous[j],
                    (previous.len() + boundary_count(previous.subrange(0, j))) as int,
                ),
            forall|j: int, k: int|
                0 <= j < id && 0 <= k < boundary(previous[j]).len() ==> identity_of(
                    graph@[previous.len() + boundary_count(previous.subrange(0, j)) + k],
                    #[trigger] boundary(previous[j])[k],
                ),
        decreases end - id,
    {
        proof {
            lemma_boundary_count_prefix(previous, id as int);
        }
        let ghost before = graph@;
        let mut node = graph.replace(id, Node::Trap);
        let ghost taken = graph@;
        let ghost initial = node;

        insert_at(graph, &mut node);
        assert(initial == previous[id as int]);
        assert(taken.len() == previous.len() + boundary_count(previous.subrange(0, id as int)));
        assert(node.arguments() == inserted_arguments(initial, taken.len() as int));
        assert(initial.same_except_arguments(&node));

        let ghost grown = graph@;
        assert forall|j: int| 0 <= j < taken.len() implies #[trigger] grown[j] == taken[j] by {
            assert(grown[j] == grown.subrange(0, taken.len() as int)[j]);
        }
        graph.replace(id, node);
        assert forall|j: int, k: int|
            0 <= j <= id && 0 <= k < boundary(previous[j]).len() implies identity_of(
            graph@[previous.len() + boundary_count(previous.subrange(0, j)) + k],
            #[trigger] boundary(previous[j])[k],
        ) by {
            if j < id {
                lemma_boundary_count_prefix(previous, j);
                assert(boundary_count(previous.subrange(0, j + 1)) <= boundary_count(previous.subrange(0, id as int))) by {
                    lemma_boundary_count_monotone(previous, j + 1, id as int);
                }
                assert(grown[previous.len() + boundary_count(previous.subrange(0, j)) + k] == grown.subrange(0, taken.len() as int)[previous.len() + boundary_count(previous.subrange(0, j)) + k]);
            }
        }
        assert forall|j: int| 0 <= j < id implies #[trigger] graph@[j] == before[j] by {
            assert(grown[j] == grown.subrange(0, taken.len() as int)[j]);
        }
        assert forall|j: int| 0 <= j <= id implies previous[j].same_except_arguments(&graph@[j])
            && #[trigger] graph@[j].arguments() == inserted_arguments(
            previous[j],
            (previous.len() + boundary_count(previous.subrange(0, j))) as int,
        ) by {
            if j < id {
                assert(graph@[j] == before[j]);
                assert(previous[j].same_except_arguments(&before[j]));
                assert(before[j].arguments() == inserted_arguments(
                    previous[j],
                    (previous.len() + boundary_count(previous.subrange(0, j))) as int,
                ));
            } else {
                assert(graph@[j] == node);
                assert(previous[j].same_except_arguments(&graph@[j]));
                assert(graph@[j].arguments() == inserted_arguments(
                    previous[j],
                    (previous.len() + boundary_count(previous.subrange(0, j))) as int,
                ));
            }
        }
        id = id + 1;
    }
    assert(previous.subrange(0, previous.len() as int) =~= previous);
}

proof fn lemma_boundary_count_monotone(nodes: Seq<Node>, i: int, j: int)
    requires
        0 <= i <= j <= nodes.len(),
    ensures
        boundary_count(nodes.subrange(0, i)) <= boundary_count(nodes.subrange(0, j)),
    decreases j - i,
{
    if i < j {
        lemma_boundary_count_monotone(nodes, i, j - 1);
        lemma_boundary_count_prefix(nodes, j - 1);
    }
}


/// Whether no node is an identity.
pub open spec fn no_identities(nodes: Seq<Node>) -> bool {
    forall|j: int| 0 <= j < nodes.len() ==> !(#[trigger] nodes[j] is Identity)
}

/// Inserting identities into a graph whose links all name one of its nodes
/// leaves every argument forwardable, so the result can have its identities
/// removed again.
pub proof fn lemma_inserted_forwardable(previous: Seq<Node>, inserted: Seq<Node>)
    requires
        no_identities(previous),
        links_in_range(previous),
        identities_inserted(previous, inserted),
    ensures
        all_forwardable(inserted),
{
    let n = previous.len();
    assert forall|j: int, k: int|
        0 <= j < inserted.len() && 0 <= k < inserted[j].arguments().len() implies forwardable(
        inserted,
        #[trigger] inserted[j].arguments()[k],
    ) by {
        if j < n {
            lemma_inserted_argument(previous, inserted, j, k);
        } else {
            lemma_appended_identity(previous, inserted, j);
        }
    }
}

/// The identifier of the first identity appended for node `j`.
pub open spec fn identity_base(previous: Seq<Node>, j: int) -> int {
    (previous.len() + boundary_count(previous.subrange(0, j))) as int
}

proof fn lemma_find_boundary(previous: Seq<Node>, m: int, i: int) -> (j: int)
    requires
        0 <= i < previous.len(),
        identity_base(previous, i) <= m < previous.len() + boundary_count(previous),
    ensures
        i <= j < previous.len(),
        identity_base(previous, j) <= m < identity_base(previous, j) + boundary(previous[j]).len(),
    decreases previous.len() - i,
{
    lemma_boundary_count_prefix(previous, i);
    if m < identity_base(previous, i) + boundary(previous[i]).len() {
        i
    } else {
        if i + 1 == previous.len() {
            assert(previous.subrange(0, i + 1) =~= previous);
        }
        lemma_find_boundary(previous, m, i + 1)
    }
}

/// A boundary link is the argument at the same position.
proof fn lemma_boundary_is_argument(node: Node, k: int)
    requires
        0 <= k < boundary(node).len(),
    ensures
        node.arguments()[k] == boundary(node)[k],
        k < node.arguments().len(),
{
}

proof fn lemma_kind_kept(a: Node, b: Node)
    requires
        a.same_except_arguments(&b),
    ensures
        a is Identity <==> b is Identity,
{
}

proof fn lemma_previous_forwardable(previous: Seq<Node>, inserted: Seq<Node>, link: Link)
    requires
        no_identities(previous),
        identities_inserted(previous, inserted),
        link.0 < previous.len(),
    ensures
        forwardable(inserted, link),
        !(inserted[link.0 as int] is Identity),
{
    lemma_kind_kept(previous[link.0 as int], inserted[link.0 as int]);
}

proof fn lemma_appended_identity(previous: Seq<Node>, inserted: Seq<Node>, m: int)
    requires
        no_identities(previous),
        links_in_range(previous),
        identities_inserted(previous, inserted),
        previous.len() <= m < inserted.len(),
    ensures
        forall|k: int|
            0 <= k < inserted[m].arguments().len() ==> forwardable(
                inserted,
                #[trigger] inserted[m].arguments()[k],
            ),
{
    assert(previous.subrange(0, 0) =~= Seq::<Node>::empty());
    let j = lemma_find_boundary(previous, m, 0);
    let k = m - identity_base(previous, j);
    let source = boundary(previous[j])[k];
    assert(identity_of(inserted[m], source));
    lemma_boundary_is_argument(previous[j], k);
    assert(source.0 < previous.len());
    lemma_previous_forwardable(previous, inserted, source);
    assert(inserted[m].arguments() =~= seq![source]);
}

proof fn lemma_inserted_argument(previous: Seq<Node>, inserted: Seq<Node>, j: int, k: int)
    requires
        no_identities(previous),
        links_in_range(previous),
        identities_inserted(previous, inserted),
        0 <= j < previous.len(),
        0 <= k < inserted[j].arguments().len(),
    ensures
        forwardable(inserted, inserted[j].arguments()[k]),
        k < boundary(previous[j]).len() ==> {
            &&& inserted[j].arguments()[k] == Link((identity_base(previous, j) + k) as u32, 0)
            &&& identity_base(previous, j) + k < inserted.len()
            &&& identity_of(inserted[identity_base(previous, j) + k], boundary(previous[j])[k])
        },
        k >= boundary(previous[j]).len() ==> inserted[j].arguments()[k] == previous[j].arguments()[k]
            && previous[j].arguments()[k].0 < previous.len(),
{
    let base = identity_base(previous, j);
    lemma_boundary_count_prefix(previous, j);
    assert(inserted[j].arguments() == inserted_arguments(previous[j], base));
    if k < boundary(previous[j]).len() {
        assert(identity_of(inserted[base + k], boundary(previous[j])[k]));
    } else {
        let link = previous[j].arguments()[k];
        assert(link.0 < previous.len());
        lemma_previous_forwardable(previous, inserted, link);
    }
}

/// Inserting identities and then removing them again gives every initial
/// node back its arguments, for a graph that holds no identities and whose
/// links all name one of its nodes.
pub proof fn lemma_insert_then_remove(previous: Seq<Node>, inserted: Seq<Node>, removed: Seq<Node>)
    requires
        no_identities(previous),
        links_in_range(previous),
        identities_inserted(previous, inserted),
        identities_removed(inserted, removed),
    ensures
        forall|j: int|
            0 <= j < previous.len() ==> #[trigger] removed[j].arguments() == previous[j].arguments(),
{
    assert forall|j: int| 0 <= j < previous.len() implies #[trigger] removed[j].arguments()
        == previous[j].arguments() by {
        let inserted_count = inserted[j].arguments().len();
        lemma_boundary_count_prefix(previous, j);
        assert(inserted[j].arguments() == inserted_arguments(previous[j], identity_base(previous, j)));
        assert(inserted_count == previous[j].arguments().len());
        assert forall|k: int| 0 <= k < previous[j].arguments().len() implies #[trigger] removed[j].arguments()[k]
            == previous[j].arguments()[k] by {
            lemma_inserted_argument(previous, inserted, j, k);
            let view = removal_view(inserted, removed, j);
            let link = inserted[j].arguments()[k];
            assert(removed[j].arguments()[k] == forward(view, link));
            if k < boundary(previous[j]).len() {
                lemma_boundary_is_argument(previous[j], k);
                assert(view[link.0 as int] == inserted[link.0 as int]);
            } else {
                let t = link.0 as int;
                if t < j {
                    lemma_kind_kept(inserted[t], removed[t]);
                }
                lemma_previous_forwardable(previous, inserted, link);
            }
        }
        assert(removed[j].arguments() =~= previous[j].arguments());
    }
}


} // verus!
