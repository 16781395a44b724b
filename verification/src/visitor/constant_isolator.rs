//! Constant isolation.

use vstd::prelude::*;

use crate::graph::{DataFlowGraph, Link, Node};

verus! {

impl Node {
    /// Whether this node is a constant: it reads nothing, writes nothing, and
    /// every copy of it produces the same value.
    pub open spec fn is_constant(&self) -> bool {
        ||| self is Null
        ||| self is I32
        ||| self is I64
        ||| self is F32
        ||| self is F64
    }
}

/// Whether every argument link of every node names a node of the graph.
pub open spec fn links_in_range(nodes: Seq<Node>) -> bool {
    forall|j: int, k: int|
        0 <= j < nodes.len() && 0 <= k < nodes[j].arguments().len() ==> #[trigger] nodes[j].arguments()[k].0
            < nodes.len()
}

/// Whether every constant of the graph is read by at most one argument.
pub open spec fn constants_private(nodes: Seq<Node>) -> bool {
    forall|j1: int, k1: int, j2: int, k2: int|
        0 <= j1 < nodes.len() && 0 <= k1 < nodes[j1].arguments().len() && 0 <= j2 < nodes.len() && 0
            <= k2 < nodes[j2].arguments().len() && #[trigger] nodes[j1].arguments()[k1].0
            == #[trigger] nodes[j2].arguments()[k2].0 && nodes[j1].arguments()[k1].0 < nodes.len()
            && nodes[nodes[j1].arguments()[k1].0 as int].is_constant() ==> j1 == j2 && k1 == k2
}

/// Whether `after` is what isolation made of the argument `before`: a read
/// of a constant of the `previous` graph either stays, or is redirected to a
/// copy of that constant appended to the graph; any other read stays.
pub open spec fn isolated_link(previous: Seq<Node>, nodes: Seq<Node>, before: Link, after: Link) -> bool {
    if before.0 < previous.len() && previous[before.0 as int].is_constant() {
        ||| after == before
        ||| {
            &&& previous.len() <= after.0 < nodes.len()
            &&& after.1 == 0
            &&& nodes[after.0 as int] == previous[before.0 as int]
        }
    } else {
        after == before
    }
}

/// Whether an argument of `nodes` that comes before argument `k` of node
/// `j`, in order of node and then of argument, reads node `t`.
pub open spec fn read_before(nodes: Seq<Node>, j: int, k: int, t: u32) -> bool {
    exists|j2: int, k2: int|
        0 <= j2 < nodes.len() && 0 <= k2 < nodes[j2].arguments().len() && (j2 < j || (j2 == j && k2 < k))
            && #[trigger] nodes[j2].arguments()[k2].0 == t
}

/// Whether an argument of one of the first `count` nodes of `nodes` reads
/// node `m`.
pub open spec fn is_read(nodes: Seq<Node>, count: int, m: int) -> bool {
    exists|j: int, k: int|
        0 <= j < count && 0 <= k < nodes[j].arguments().len() && #[trigger] nodes[j].arguments()[k].0 == m
}

/// Whether argument `k` of node `j` reads a constant that an earlier argument,
/// in order of node and then of argument, already reads.
pub open spec fn rereads_constant(nodes: Seq<Node>, j: int, k: int) -> bool {
    let t = nodes[j].arguments()[k].0;
    &&& t < nodes.len()
    &&& nodes[t as int].is_constant()
    &&& read_before(nodes, j, k, t)
}

/// The number of the first `k` arguments of node `j` that read a constant
/// an earlier argument already reads.
pub open spec fn rereads_in_node(nodes: Seq<Node>, j: int, k: int) -> nat
    decreases k,
{
    if k <= 0 {
        0
    } else {
        rereads_in_node(nodes, j, k - 1) + if rereads_constant(nodes, j, k - 1) {
            1nat
        } else {
            0nat
        }
    }
}

/// The number of arguments of the first `j` nodes that read a constant an
/// earlier argument already reads: of all the reads of constants, those that
/// are not the first read of their constant.
pub open spec fn constant_rereads(nodes: Seq<Node>, j: int) -> nat
    decreases j,
{
    if j <= 0 {
        0
    } else {
        constant_rereads(nodes, j - 1) + rereads_in_node(nodes, j - 1, nodes[j - 1].arguments().len() as int)
    }
}

/// Reading one more argument adds its target to what was read before.
proof fn lemma_read_before_step(nodes: Seq<Node>, j: int, k: int, t: u32)
    requires
        0 <= j < nodes.len(),
        0 <= k < nodes[j].arguments().len(),
    ensures
        read_before(nodes, j, k + 1, t) <==> read_before(nodes, j, k, t) || nodes[j].arguments()[k].0 == t,
{
    if read_before(nodes, j, k + 1, t) && !(nodes[j].arguments()[k].0 == t) {
        let (j2, k2) = choose|j2: int, k2: int|
            0 <= j2 < nodes.len() && 0 <= k2 < nodes[j2].arguments().len() && (j2 < j || (j2 == j && k2 < k + 1))
                && #[trigger] nodes[j2].arguments()[k2].0 == t;
        assert(nodes[j2].arguments()[k2].0 == t);
    }
    if nodes[j].arguments()[k].0 == t {
        assert(nodes[j].arguments()[k].0 == t);
    }
    if read_before(nodes, j, k, t) {
        let (j2, k2) = choose|j2: int, k2: int|
            0 <= j2 < nodes.len() && 0 <= k2 < nodes[j2].arguments().len() && (j2 < j || (j2 == j && k2 < k))
                && #[trigger] nodes[j2].arguments()[k2].0 == t;
        assert(nodes[j2].arguments()[k2].0 == t);
    }
}

/// Having read every argument of node `j` is having read up to the next
/// node.
proof fn lemma_read_before_next(nodes: Seq<Node>, j: int, t: u32)
    requires
        0 <= j < nodes.len(),
    ensures
        read_before(nodes, j, nodes[j].arguments().len() as int, t) <==> read_before(nodes, j + 1, 0, t),
{
    if read_before(nodes, j + 1, 0, t) {
        let (j2, k2) = choose|j2: int, k2: int|
            0 <= j2 < nodes.len() && 0 <= k2 < nodes[j2].arguments().len() && (j2 < j + 1 || (j2 == j + 1 && k2 < 0))
                && #[trigger] nodes[j2].arguments()[k2].0 == t;
        assert(nodes[j2].arguments()[k2].0 == t);
    }
    if read_before(nodes, j, nodes[j].arguments().len() as int, t) {
        let (j2, k2) = choose|j2: int, k2: int|
            0 <= j2 < nodes.len() && 0 <= k2 < nodes[j2].arguments().len() && (j2 < j || (j2 == j && k2
                < nodes[j].arguments().len()))
                && #[trigger] nodes[j2].arguments()[k2].0 == t;
        assert(nodes[j2].arguments()[k2].0 == t);
    }
}

/// The number of argument links of all the given nodes.
pub open spec fn argument_count(nodes: Seq<Node>) -> nat
    decreases nodes.len(),
{
    if nodes.len() == 0 {
        0
    } else {
        argument_count(nodes.drop_last()) + nodes.last().arguments().len()
    }
}

proof fn lemma_argument_count_prefix(nodes: Seq<Node>, i: int)
    requires
        0 <= i < nodes.len(),
    ensures
        argument_count(nodes.subrange(0, i)) + nodes[i].arguments().len() == argument_count(
            nodes.subrange(0, i + 1),
        ),
        argument_count(nodes.subrange(0, i + 1)) <= argument_count(nodes),
    decreases nodes.len(),
{
    assert(nodes.subrange(0, i + 1).drop_last() =~= nodes.subrange(0, i));
    if i + 1 < nodes.len() {
        lemma_argument_count_prefix(nodes.drop_last(), i);
        assert(nodes.drop_last().subrange(0, i + 1) =~= nodes.subrange(0, i + 1));
    } else {
        assert(nodes.subrange(0, i + 1) =~= nodes);
    }
}

proof fn lemma_same_kind_keeps_constant(a: Node, b: Node)
    requires
        a.same_except_arguments(&b),
    ensures
        a.is_constant() <==> b.is_constant(),
        a.is_constant() ==> a == b,
{
}

/// Returns a private copy of `node` when it is a constant.
fn clone_constant(node: &Node) -> (copy: Option<Node>)
    ensures
        copy is Some <==> node.is_constant(),
        copy matches Some(value) ==> value == *node,
{
    match node {
        Node::Null => Some(Node::Null),
        Node::I32(value) => Some(Node::I32(*value)),
        Node::I64(value) => Some(Node::I64(*value)),
        Node::F32(value) => Some(Node::F32(*value)),
        Node::F64(value) => Some(Node::F64(*value)),
        _ => None,
    }
}

/// Gives every consumer of a constant its own private copy.
///
/// Sharing one constant between distant consumers forces the backend to keep
/// it in a local for the whole span between them. A private copy per consumer
/// collapses each of those live ranges down to a single use.
pub struct ConstantIsolator {
    claimed: Vec<bool>,
}

impl View for ConstantIsolator {
    type V = Seq<bool>;

    /// Which constants of the graph being isolated have already been claimed
    /// by a reader.
    closed spec fn view(&self) -> Seq<bool> {
        self.claimed@
    }
}

impl ConstantIsolator {
    /// Creates a new constant isolator.
    pub fn new() -> (isolator: Self)
        ensures
            isolator@.len() == 0,
    {
        ConstantIsolator { claimed: Vec::new() }
    }

    fn isolate(&mut self, graph: &mut DataFlowGraph, link: &mut Link)
        requires
            old(self).claimed@.len() <= old(graph)@.len() < u32::MAX,
        ensures
            final(self).claimed@.len() == old(self).claimed@.len(),
            if (old(link).0 as int) < old(self).claimed@.len() && old(graph)@[old(
                link,
            ).0 as int].is_constant() {
                if old(self).claimed@[old(link).0 as int] {
                    &&& final(graph)@ == old(graph)@.push(old(graph)@[old(link).0 as int])
                    &&& *final(link) == Link(old(graph)@.len() as u32, 0)
                    &&& final(self).claimed@ == old(self).claimed@
                } else {
                    &&& final(graph)@ == old(graph)@
                    &&& *final(link) == *old(link)
                    &&& final(self).claimed@ == old(self).claimed@.update(old(link).0 as int, true)
                }
            } else {
                &&& final(graph)@ == old(graph)@
                &&& *final(link) == *old(link)
                &&& final(self).claimed@ == old(self).claimed@
            },
    {
        let index = link.0 as usize;

        // Copies appended by this pass are already private, so they are not tracked.
        if index >= self.claimed.len() {
            return;
        }

        let copy = match clone_constant(graph.get(link.0)) {
            Some(copy) => copy,
            None => return,
        };

        if self.claimed[index] {
            *link = Link(graph.add_node(copy), 0);
        } else {
            self.claimed.set(index, true);
        }
    }

    /// Runs constant isolation on the graph.
    ///
    /// Every node keeps its kind and its fields other than its arguments; each
    /// argument that reads a constant either keeps reading it, for the first
    /// reader, or reads a private copy appended to the graph. When every link
    /// of the graph names one of its nodes, every constant of the result is
    /// read by at most one argument.
    pub fn run(&mut self, graph: &mut DataFlowGraph)
        requires
            old(graph)@.len() + argument_count(old(graph)@) <= u32::MAX,
        ensures
            final(graph)@.len() == old(graph)@.len() + constant_rereads(old(graph)@, old(graph)@.len() as int),
            forall|j: int|
                0 <= j < old(graph)@.len() ==> old(graph)@[j].same_except_arguments(
                    &final(graph)@[j],
                ),
            forall|j: int, k: int|
                0 <= j < old(graph)@.len() && 0 <= k < old(graph)@[j].arguments().len()
                    ==> isolated_link(
                    old(graph)@,
                    final(graph)@,
                    old(graph)@[j].arguments()[k],
                    #[trigger] final(graph)@[j].arguments()[k],
                ),
            forall|m: int|
                old(graph)@.len() <= m < final(graph)@.len() ==> (#[trigger] final(graph)@[m]).is_constant(),
            forall|j: int, k: int|
                0 <= j < old(graph)@.len() && 0 <= k < old(graph)@[j].arguments().len() && old(
                    graph,
                )@[j].arguments()[k].0 < old(graph)@.len() && old(graph)@[old(
                    graph,
                )@[j].arguments()[k].0 as int].is_constant() ==> ((#[trigger] final(graph)@[j].arguments()[k]
                    == old(graph)@[j].arguments()[k]) <==> !read_before(
                    old(graph)@,
                    j,
                    k,
                    old(graph)@[j].arguments()[k].0,
                )),
            forall|m: int|
                old(graph)@.len() <= m < final(graph)@.len() ==> #[trigger] is_read(
                    final(graph)@,
                    old(graph)@.len() as int,
                    m,
                ),
            links_in_range(old(graph)@) ==> links_in_range(final(graph)@) && constants_private(
                final(graph)@,
            ),
    {
        let len = graph.len();
        let ghost previous = graph@;
        let ghost in_range = links_in_range(previous);
        let ghost mut owner: Map<u32, (int, int)> = Map::empty();

        self.claimed.clear();
        self.claimed.resize(len, false);
        assert(self.claimed@ =~= Seq::new(len as nat, |t: int| false));

        let end = len as u32;
        let mut id: u32 = 0;
        while id < end
            invariant
                end == previous.len(),
                id <= end,
                self.claimed@.len() == previous.len(),
                previous.len() + argument_count(previous) <= u32::MAX,
                in_range == links_in_range(previous),
                graph@.len() >= previous.len(),
                graph@.len() - previous.len() <= argument_count(previous.subrange(0, id as int)),
                graph@.len() == previous.len() + constant_rereads(previous, id as int),
                forall|j: int| id <= j < previous.len() ==> graph@[j] == previous[j],
                forall|j: int| 0 <= j < id ==> previous[j].same_except_arguments(&graph@[j]),
                forall|j: int, k: int|
                    0 <= j < id && 0 <= k < previous[j].arguments().len() ==> isolated_link(
                        previous,
                        graph@,
                        previous[j].arguments()[k],
                        #[trigger] graph@[j].arguments()[k],
                    ),
                forall|m: int| previous.len() <= m < graph@.len() ==> (#[trigger] graph@[m]).is_constant(),
                forall|t: u32|
                    t < previous.len() && previous[t as int].is_constant() ==> (self.claimed@[t as int] <==> #[trigger] read_before(
                        previous,
                        id as int,
                        0,
                        t,
                    )),
                forall|j: int, k: int|
                    0 <= j < id && 0 <= k < previous[j].arguments().len() && previous[j].arguments()[k].0
                        < previous.len() && previous[previous[j].arguments()[k].0 as int].is_constant() ==> ((
                    #[trigger] graph@[j].arguments()[k] == previous[j].arguments()[k]) <==> !read_before(
                        previous,
                        j,
                        k,
                        previous[j].arguments()[k].0,
                    )),
                forall|m: int| previous.len() <= m < graph@.len() ==> #[trigger] is_read(graph@, id as int, m),
                forall|c: int|
                    0 <= c < previous.len() && previous[c].is_constant() ==> graph@[c] == previous[c],
                forall|c: int|
                    0 <= c < previous.len() && !previous[c].is_constant() ==> !(
                    #[trigger] graph@[c]).is_constant(),
                in_range ==> forall|t: u32|
                    t < previous.len() ==> (self.claimed@[t as int] <==> #[trigger] owner.contains_key(t)),
                in_range ==> forall|t: u32|
                    previous.len() <= t < graph@.len() ==> #[trigger] owner.contains_key(t),
                in_range ==> forall|j: int, k: int|
                    0 <= j < id && 0 <= k < graph@[j].arguments().len() ==> {
                        let t = #[trigger] graph@[j].arguments()[k].0;
                        &&& t < graph@.len()
                        &&& (t >= previous.len() || previous[t as int].is_constant()) ==> owner.contains_key(t) && owner[t] == (j, k)
                    },
            decreases end - id,
        {
            proof {
                lemma_argument_count_prefix(previous, id as int);
            }
            let ghost entry = graph@;
            let mut node = graph.replace(id, Node::Trap);
            let mut arguments: Vec<Link> = Vec::new();
            node.for_each_argument(&mut arguments);
            assert(arguments@ =~= previous[id as int].arguments());
            let ghost count = arguments@.len();
            proof {
                assert forall|m: int| previous.len() <= m < graph@.len() implies #[trigger] is_read(graph@, id as int, m) by {
                    assert(is_read(entry, id as int, m));
                    let (j, k) = choose|j: int, k: int|
                        0 <= j < id && 0 <= k < entry[j].arguments().len() && #[trigger] entry[j].arguments()[k].0 == m;
                    assert(graph@[j] == entry[j]);
                    assert(graph@[j].arguments()[k].0 == m);
                }
            }

            let mut i: usize = 0;
            while i < arguments.len()
                invariant
                    end == previous.len(),
                    id < end,
                    node == previous[id as int],
                    arguments@.len() == count,
                    count == previous[id as int].arguments().len(),
                    count > 0 ==> !previous[id as int].is_constant(),
                    i <= count,
                    self.claimed@.len() == previous.len(),
                    previous.len() + argument_count(previous) <= u32::MAX,
                    argument_count(previous.subrange(0, id as int)) + count <= argument_count(previous),
                    in_range == links_in_range(previous),
                    graph@.len() >= previous.len(),
                    graph@.len() - previous.len() <= argument_count(previous.subrange(0, id as int)) + i,
                    graph@.len() == previous.len() + constant_rereads(previous, id as int) + rereads_in_node(
                        previous,
                        id as int,
                        i as int,
                    ),
                    graph@[id as int] == Node::Trap,
                    forall|j: int| id < j < previous.len() ==> graph@[j] == previous[j],
                    forall|j: int| 0 <= j < id ==> previous[j].same_except_arguments(&graph@[j]),
                    forall|j: int, k: int|
                        0 <= j < id && 0 <= k < previous[j].arguments().len() ==> isolated_link(
                            previous,
                            graph@,
                            previous[j].arguments()[k],
                            #[trigger] graph@[j].arguments()[k],
                        ),
                    forall|k: int| i <= k < count ==> arguments@[k] == previous[id as int].arguments()[k],
                    forall|k: int|
                        0 <= k < i ==> isolated_link(
                            previous,
                            graph@,
                            previous[id as int].arguments()[k],
                            #[trigger] arguments@[k],
                        ),
                    forall|m: int| previous.len() <= m < graph@.len() ==> (#[trigger] graph@[m]).is_constant(),
                    forall|t: u32|
                        t < previous.len() && previous[t as int].is_constant() ==> (self.claimed@[t as int] <==> #[trigger] read_before(
                            previous,
                            id as int,
                            i as int,
                            t,
                        )),
                    forall|j: int, k: int|
                        0 <= j < id && 0 <= k < previous[j].arguments().len() && previous[j].arguments()[k].0
                            < previous.len() && previous[previous[j].arguments()[k].0 as int].is_constant() ==> ((
                        #[trigger] graph@[j].arguments()[k] == previous[j].arguments()[k]) <==> !read_before(
                            previous,
                            j,
                            k,
                            previous[j].arguments()[k].0,
                        )),
                    forall|k: int|
                        0 <= k < i && previous[id as int].arguments()[k].0 < previous.len()
                            && previous[previous[id as int].arguments()[k].0 as int].is_constant() ==> ((
                        #[trigger] arguments@[k] == previous[id as int].arguments()[k]) <==> !read_before(
                            previous,
                            id as int,
                            k,
                            previous[id as int].arguments()[k].0,
                        )),
                    forall|m: int|
                        previous.len() <= m < graph@.len() ==> #[trigger] is_read(graph@, id as int, m) || exists|k: int|
                            0 <= k < i && #[trigger] arguments@[k].0 == m,
                    forall|c: int|
                        0 <= c < previous.len() && c != id && previous[c].is_constant() ==> graph@[c] == previous[c],
                    forall|c: int|
                        0 <= c < previous.len() && !previous[c].is_constant() ==> !(
                        #[trigger] graph@[c]).is_constant(),
                    in_range ==> forall|t: u32|
                        t < previous.len() ==> (self.claimed@[t as int] <==> #[trigger] owner.contains_key(t)),
                    in_range ==> forall|t: u32|
                        previous.len() <= t < graph@.len() ==> #[trigger] owner.contains_key(t),
                    in_range ==> forall|j: int, k: int|
                        0 <= j < id && 0 <= k < graph@[j].arguments().len() ==> {
                            let t = #[trigger] graph@[j].arguments()[k].0;
                            &&& t < graph@.len()
                            &&& (t >= previous.len() || previous[t as int].is_constant()) ==> owner.contains_key(t) && owner[t] == (j, k)
                        },
                    in_range ==> forall|k: int|
                        0 <= k < i ==> {
                            let t = #[trigger] arguments@[k].0;
                            &&& t < graph@.len()
                            &&& (t >= previous.len() || previous[t as int].is_constant()) ==> owner.contains_key(t) && owner[t] == (id as int, k)
                        },
                decreases count - i,
            {
                let mut link = arguments[i];
                let ghost before = graph@;
                let ghost claimed_before = self.claimed@;
                proof {
                    if in_range {
                        assert(previous[id as int].arguments()[i as int].0 < previous.len());
                    }
                }
                let ghost arguments_before = arguments@;
                self.isolate(graph, &mut link);
                proof {
                    let t0 = previous[id as int].arguments()[i as int].0;
                    assert(arguments_before[i as int] == previous[id as int].arguments()[i as int]);
                    assert forall|t: u32| t < previous.len() && previous[t as int].is_constant() implies (
                    self.claimed@[t as int] <==> #[trigger] read_before(previous, id as int, i + 1, t)) by {
                        lemma_read_before_step(previous, id as int, i as int, t);
                        assert(claimed_before[t as int] <==> read_before(previous, id as int, i as int, t));
                        if t == t0 {
                            assert(before[t as int] == previous[t as int]);
                        } else if (t0 as int) < previous.len() && t0 != id && previous[t0 as int].is_constant() {
                            assert(before[t0 as int] == previous[t0 as int]);
                        }
                    }
                    assert forall|m: int| previous.len() <= m < graph@.len() implies #[trigger] is_read(graph@, id as int, m)
                        || exists|k: int| 0 <= k < i + 1 && #[trigger] arguments@.update(i as int, link)[k].0 == m by {
                        if m < before.len() {
                            if is_read(before, id as int, m) {
                                let (j, k) = choose|j: int, k: int|
                                    0 <= j < id && 0 <= k < before[j].arguments().len() && #[trigger] before[j].arguments()[k].0 == m;
                                assert(graph@[j] == before[j]);
                                assert(graph@[j].arguments()[k].0 == m);
                            } else {
                                let k = choose|k: int| 0 <= k < i && #[trigger] arguments_before[k].0 == m;
                                assert(arguments@.update(i as int, link)[k].0 == m);
                            }
                        } else {
                            assert(arguments@.update(i as int, link)[i as int].0 == m);
                        }
                    }
                }
                proof {
                    let t = arguments@[i as int].0;
                    if (t as int) < previous.len() && before[t as int].is_constant() {
                        if claimed_before[t as int] {
                            owner = owner.insert(before.len() as u32, (id as int, i as int));
                        } else {
                            owner = owner.insert(t, (id as int, i as int));
                        }
                    }
                }
                arguments.set(i, link);
                i = i + 1;
            }

            let ghost inner = graph@;
            node.for_each_mut_argument(arguments.as_slice());
            graph.replace(id, node);
            proof {
                lemma_same_kind_keeps_constant(previous[id as int], graph@[id as int]);
                assert(graph@[id as int].arguments() == arguments@);
                assert forall|t: u32| t < previous.len() && previous[t as int].is_constant() implies (
                self.claimed@[t as int] <==> #[trigger] read_before(previous, id + 1, 0, t)) by {
                    lemma_read_before_next(previous, id as int, t);
                    assert(read_before(previous, id as int, i as int, t) <==> read_before(previous, id as int, count as int, t));
                }
                assert forall|m: int| previous.len() <= m < graph@.len() implies #[trigger] is_read(graph@, id + 1, m) by {
                    if is_read(inner, id as int, m) {
                        let (j, k) = choose|j: int, k: int|
                            0 <= j < id && 0 <= k < inner[j].arguments().len() && #[trigger] inner[j].arguments()[k].0 == m;
                        assert(graph@[j] == inner[j]);
                        assert(graph@[j].arguments()[k].0 == m);
                    } else {
                        let k = choose|k: int| 0 <= k < i && #[trigger] arguments@[k].0 == m;
                        assert(graph@[id as int].arguments()[k].0 == m);
                    }
                }
            }
            id = id + 1;
        }
    }
}

impl Default for ConstantIsolator {
    fn default() -> (isolator: Self)
        ensures
            isolator@.len() == 0,
    {
        ConstantIsolator::new()
    }
}

} // verus!
