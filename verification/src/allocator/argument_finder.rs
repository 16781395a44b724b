//! Finds the values a node reads that would like to share a local, walking
//! back through the values without a preference to the nodes producing them.

use vstd::prelude::*;

use crate::{
    graph::{DataFlowGraph, Link, Node},
    liveness::live_set::LiveSet,
    visitor::link_map::LinkMap,
};

verus! {

/// The first and last node of the function or module that `node` ends.
pub open spec fn region_range(graph: Seq<Node>, node: Node) -> Option<(u32, u32)> {
    match node {
        Node::OmegaOut(out) => match graph[out.input as int] {
            Node::OmegaIn(start) => Some((out.input, start.output)),
            _ => None,
        },
        Node::LambdaOut(out) => match graph[out.input as int] {
            Node::LambdaIn(start) => Some((out.input, start.output)),
            _ => None,
        },
        _ => None,
    }
}

/// Whether `node`, when it ends a function or a module, names the node that
/// starts it.
pub open spec fn region_linked(graph: Seq<Node>, node: Node) -> bool {
    match node {
        Node::OmegaOut(out) => out.input < graph.len() && graph[out.input as int] is OmegaIn,
        Node::LambdaOut(out) => out.input < graph.len() && graph[out.input as int] is LambdaIn,
        _ => true,
    }
}

/// Whether every node of `graph` reads only values of its nodes, and every
/// function and module end names its start.
pub open spec fn graph_linked(graph: Seq<Node>) -> bool {
    &&& forall|i: int| 0 <= i < graph.len() ==> region_linked(graph, #[trigger] graph[i])
    &&& forall|i: int, k: int|
        0 <= i < graph.len() && 0 <= k < graph[i].arguments().len() ==> #[trigger] graph[i].arguments()[k].0
            < graph.len()
}

/// The node that stands for node `id` when values are followed back: the
/// start of the function or module that `id` ends, or `id` itself.
pub open spec fn region_start(graph: Seq<Node>, id: u32) -> u32 {
    match region_range(graph, graph[id as int]) {
        Some(range) => range.0,
        None => id,
    }
}

/// The links of `links` that have a preference, each with it, in order.
pub open spec fn preferred_pairs(links: Seq<Link>, preferences: Map<u64, Link>) -> Seq<(Link, Link)>
    decreases links.len(),
{
    if links.len() == 0 {
        Seq::empty()
    } else {
        let rest = preferred_pairs(links.drop_last(), preferences);
        let last = links.last();
        if preferences.contains_key(last.packed()) {
            rest.push((last, preferences[last.packed()]))
        } else {
            rest
        }
    }
}

/// The producers of the links of `links` that have no preference, in order.
pub open spec fn unpreferred_ids(links: Seq<Link>, preferences: Map<u64, Link>) -> Seq<u32>
    decreases links.len(),
{
    if links.len() == 0 {
        Seq::empty()
    } else {
        let rest = unpreferred_ids(links.drop_last(), preferences);
        let last = links.last();
        if preferences.contains_key(last.packed()) {
            rest
        } else {
            rest.push(last.0)
        }
    }
}

/// The producers of the values without a preference that node `id` reads.
pub open spec fn followed(graph: Seq<Node>, preferences: Map<u64, Link>, id: u32) -> Seq<u32> {
    unpreferred_ids(graph[id as int].arguments(), preferences)
}

/// Whether node `id` produces a value without a preference that a node of
/// `order` reads.
pub open spec fn queued_by(graph: Seq<Node>, preferences: Map<u64, Link>, order: Seq<u32>, id: u32) -> bool {
    exists|j: int, m: int|
        0 <= j < order.len() && 0 <= m < followed(graph, preferences, order[j]).len()
            && followed(graph, preferences, order[j])[m] == id
}

/// The pairs found at each node of `order`, in order.
pub open spec fn visited_pairs(graph: Seq<Node>, preferences: Map<u64, Link>, order: Seq<u32>) -> Seq<
    (Link, Link),
>
    decreases order.len(),
{
    if order.len() == 0 {
        Seq::empty()
    } else {
        visited_pairs(graph, preferences, order.drop_last()) + preferred_pairs(
            graph[order.last() as int].arguments(),
            preferences,
        )
    }
}

/// Whether node `order[k]` is reached from a node listed before it: it
/// stands for the producer of a value without a preference that one reads.
pub open spec fn reached_by(graph: Seq<Node>, preferences: Map<u64, Link>, order: Seq<u32>, k: int) -> bool {
    exists|j: int, m: int|
        0 <= j < k && 0 <= m < followed(graph, preferences, order[j]).len() && region_start(
            graph,
            followed(graph, preferences, order[j])[m],
        ) == order[k]
}

/// Whether every value without a preference read by a node of `order` has
/// the node that stands for its producer in `seen`, or is still `pending`.
pub open spec fn walk_closed(
    graph: Seq<Node>,
    preferences: Map<u64, Link>,
    order: Seq<u32>,
    seen: Set<int>,
    pending: Seq<u32>,
) -> bool {
    forall|j: int, m: int|
        0 <= j < order.len() && 0 <= m < followed(graph, preferences, order[j]).len() ==> {
            let next = #[trigger] followed(graph, preferences, order[j])[m];
            seen.contains(region_start(graph, next) as int) || pending.contains(next)
        }
}

/// Whether `order` lists, once each, exactly the nodes reached from `start`
/// when values without a preference are followed back to their producers
/// (to the start of a function or module they end), without entering the
/// nodes of `seen`; each node after the first is reached from one before it.
pub open spec fn reached_in_order(
    graph: Seq<Node>,
    preferences: Map<u64, Link>,
    seen: Set<int>,
    start: u32,
    order: Seq<u32>,
) -> bool {
    &&& order.no_duplicates()
    &&& forall|k: int| 0 <= k < order.len() ==> !seen.contains(#[trigger] order[k] as int)
    &&& seen.contains(start as int) ==> order.len() == 0
    &&& !seen.contains(start as int) ==> order.len() > 0 && order[0] == start
    &&& forall|k: int| 0 < k < order.len() ==> #[trigger] reached_by(graph, preferences, order, k)
    &&& walk_closed(graph, preferences, order, seen + id_set(order), Seq::empty())
}

/// The state of a walk from `start` that skips the nodes of `seen0`: `order`
/// is visited so far, `seen` is every visited node, and `stack` holds the
/// producers still to visit.
spec fn walk(
    graph: Seq<Node>,
    preferences: Map<u64, Link>,
    seen0: Set<int>,
    start: u32,
    order: Seq<u32>,
    seen: Set<int>,
    stack: Seq<u32>,
) -> bool {
    &&& graph_linked(graph)
    &&& start < graph.len()
    &&& order.no_duplicates()
    &&& forall|k: int| 0 <= k < order.len() ==> #[trigger] order[k] < graph.len()
    &&& forall|k: int| 0 <= k < order.len() ==> !seen0.contains(#[trigger] order[k] as int)
    &&& seen0.contains(start as int) ==> order.len() == 0 && stack.len() == 0
    &&& !seen0.contains(start as int) ==> order.len() > 0 && order[0] == start
    &&& forall|k: int| 0 < k < order.len() ==> #[trigger] reached_by(graph, preferences, order, k)
    &&& forall|s: int| 0 <= s < stack.len() ==> queued_by(graph, preferences, order, #[trigger] stack[s])
    &&& walk_closed(graph, preferences, order, seen, stack)
    &&& seen == seen0 + id_set(order)
}

/// A walk that has nothing left to visit has reached every node it can.
proof fn lemma_walk_done(
    graph: Seq<Node>,
    preferences: Map<u64, Link>,
    seen0: Set<int>,
    start: u32,
    order: Seq<u32>,
    seen: Set<int>,
)
    requires
        walk(graph, preferences, seen0, start, order, seen, Seq::empty()),
    ensures
        reached_in_order(graph, preferences, seen0, start, order),
{
}

/// The node that a walk takes from its stack names a node of the graph, and
/// so does the node that stands for it.
proof fn lemma_walk_next(
    graph: Seq<Node>,
    preferences: Map<u64, Link>,
    seen0: Set<int>,
    start: u32,
    order: Seq<u32>,
    seen: Set<int>,
    stack: Seq<u32>,
)
    requires
        walk(graph, preferences, seen0, start, order, seen, stack),
        stack.len() > 0,
    ensures
        stack.last() < graph.len(),
        region_linked(graph, graph[stack.last() as int]),
        region_start(graph, stack.last()) < graph.len(),
{
    let s = stack.len() - 1;
    assert(queued_by(graph, preferences, order, stack[s]));
    let (j, m) = choose|j: int, m: int|
        0 <= j < order.len() && 0 <= m < followed(graph, preferences, order[j]).len()
            && followed(graph, preferences, order[j])[m] == stack[s];
    let node = order[j];
    assert(node < graph.len());
    lemma_unpreferred_members(graph[node as int].arguments(), preferences, m);
    let i = choose|i: int|
        0 <= i < graph[node as int].arguments().len() && graph[node as int].arguments()[i].0 == followed(
            graph,
            preferences,
            node,
        )[m];
    assert(graph[node as int].arguments()[i].0 < graph.len());
    assert(region_linked(graph, graph[stack.last() as int]));
}

/// Taking from the stack a node that stands for a visited one keeps the walk.
proof fn lemma_walk_skip(
    graph: Seq<Node>,
    preferences: Map<u64, Link>,
    seen0: Set<int>,
    start: u32,
    order: Seq<u32>,
    seen: Set<int>,
    rest: Seq<u32>,
    next: u32,
)
    requires
        walk(graph, preferences, seen0, start, order, seen, rest.push(next)),
        seen.contains(region_start(graph, next) as int),
    ensures
        walk(graph, preferences, seen0, start, order, seen, rest),
{
    let full = rest.push(next);
    assert forall|s: int| 0 <= s < rest.len() implies queued_by(graph, preferences, order, #[trigger] rest[s]) by {
        assert(full[s] == rest[s]);
    }
    assert forall|j: int, m: int|
        0 <= j < order.len() && 0 <= m < followed(graph, preferences, order[j]).len() implies {
            let other = #[trigger] followed(graph, preferences, order[j])[m];
            seen.contains(region_start(graph, other) as int) || rest.contains(other)
        } by {
        let other = followed(graph, preferences, order[j])[m];
        if !seen.contains(region_start(graph, other) as int) {
            let s = choose|s: int| 0 <= s < full.len() && full[s] == other;
            if s < rest.len() {
                assert(rest[s] == other);
            }
        }
    }
}

/// Visiting the node `id` that stands for the node taken from the stack,
/// when it was not visited, keeps the walk with `id` appended.
proof fn lemma_walk_visit(
    graph: Seq<Node>,
    preferences: Map<u64, Link>,
    seen0: Set<int>,
    start: u32,
    order: Seq<u32>,
    seen: Set<int>,
    rest: Seq<u32>,
    next: u32,
)
    requires
        walk(graph, preferences, seen0, start, order, seen, rest.push(next)),
        next < graph.len(),
        region_start(graph, next) < graph.len(),
        !seen.contains(region_start(graph, next) as int),
    ensures
        ({
            let id = region_start(graph, next);
            walk(
                graph,
                preferences,
                seen0,
                start,
                order.push(id),
                seen.insert(id as int),
                rest + followed(graph, preferences, id),
            )
        }),
{
    let id = region_start(graph, next);
    let full = rest.push(next);
    let after = order.push(id);
    let stack = rest + followed(graph, preferences, id);
    lemma_id_set_push(order, id);
    assert forall|k: int| 0 <= k < order.len() implies order[k] != id by {
        assert(id_set(order).contains(order[k] as int));
    }
    assert(after.no_duplicates());
    assert(!seen0.contains(id as int));
    assert forall|k: int| 0 <= k < after.len() implies #[trigger] after[k] < graph.len() by {
        if k < order.len() {
            assert(after[k] == order[k]);
        }
    }
    assert forall|k: int| 0 <= k < after.len() implies !seen0.contains(#[trigger] after[k] as int) by {
        if k < order.len() {
            assert(after[k] == order[k]);
        }
    }
    assert(queued_by(graph, preferences, order, full[full.len() - 1]));
    let (j0, m0) = choose|j: int, m: int|
        0 <= j < order.len() && 0 <= m < followed(graph, preferences, order[j]).len()
            && followed(graph, preferences, order[j])[m] == full[full.len() - 1];
    assert forall|k: int| 0 < k < after.len() implies #[trigger] reached_by(graph, preferences, after, k) by {
        if k < order.len() {
            assert(reached_by(graph, preferences, order, k));
            let (j, m) = choose|j: int, m: int|
                0 <= j < k && 0 <= m < followed(graph, preferences, order[j]).len() && region_start(
                    graph,
                    followed(graph, preferences, order[j])[m],
                ) == order[k];
            assert(after[j] == order[j] && after[k] == order[k]);
        } else {
            assert(after[j0] == order[j0]);
            assert(full[full.len() - 1] == next);
        }
    }
    assert forall|s: int| 0 <= s < stack.len() implies queued_by(graph, preferences, after, #[trigger] stack[s]) by {
        if s < rest.len() {
            assert(full[s] == rest[s]);
            assert(queued_by(graph, preferences, order, full[s]));
            let (j, m) = choose|j: int, m: int|
                0 <= j < order.len() && 0 <= m < followed(graph, preferences, order[j]).len()
                    && followed(graph, preferences, order[j])[m] == full[s];
            assert(after[j] == order[j]);
        } else {
            let m = s - rest.len();
            assert(after[order.len() as int] == id);
            assert(stack[s] == followed(graph, preferences, after[order.len() as int])[m]);
        }
    }
    assert forall|j: int, m: int|
        0 <= j < after.len() && 0 <= m < followed(graph, preferences, after[j]).len() implies {
            let other = #[trigger] followed(graph, preferences, after[j])[m];
            seen.insert(id as int).contains(region_start(graph, other) as int) || stack.contains(other)
        } by {
        let other = followed(graph, preferences, after[j])[m];
        if j == order.len() {
            assert(stack[rest.len() + m] == other);
        } else {
            assert(after[j] == order[j]);
            if !seen.contains(region_start(graph, other) as int) {
                let s = choose|s: int| 0 <= s < full.len() && full[s] == other;
                if s < rest.len() {
                    assert(stack[s] == other);
                }
            }
        }
    }
    assert(seen.insert(id as int) =~= seen0 + id_set(after));
}

/// Appends to `out` each link of `links` that has a preference, with it, and
/// to `stack` the producer of each other one.
fn split_links(
    out: &mut Vec<(Link, Link)>,
    stack: &mut Vec<u32>,
    preferences: &LinkMap,
    links: &Vec<Link>,
)
    ensures
        final(out)@ == old(out)@ + preferred_pairs(links@, preferences@),
        final(stack)@ == old(stack)@ + unpreferred_ids(links@, preferences@),
{
    let mut i: usize = 0;
    while i < links.len()
        invariant
            i <= links@.len(),
            out@ == old(out)@ + preferred_pairs(links@.take(i as int), preferences@),
            stack@ == old(stack)@ + unpreferred_ids(links@.take(i as int), preferences@),
        decreases links@.len() - i,
    {
        let link = links[i];
        proof {
            assert(links@.take(i + 1).drop_last() =~= links@.take(i as int));
            assert(links@.take(i + 1).last() == link);
        }
        match preferences.get(link.into_u64()) {
            Some(preferred) => out.push((link, preferred)),
            None => stack.push(link.0),
        }
        i = i + 1;
    }
    proof {
        assert(links@.take(i as int) =~= links@);
    }
}

/// Each link of `links` with no preference has its producer among `ids`.
proof fn lemma_unpreferred_members(links: Seq<Link>, preferences: Map<u64, Link>, k: int)
    requires
        0 <= k < unpreferred_ids(links, preferences).len(),
    ensures
        exists|i: int| 0 <= i < links.len() && links[i].0 == unpreferred_ids(links, preferences)[k],
    decreases links.len(),
{
    let rest = unpreferred_ids(links.drop_last(), preferences);
    if k < rest.len() {
        lemma_unpreferred_members(links.drop_last(), preferences, k);
        let i = choose|i: int| 0 <= i < links.len() - 1 && links.drop_last()[i].0 == rest[k];
        assert(links[i] == links.drop_last()[i]);
    } else {
        assert(links[links.len() - 1].0 == unpreferred_ids(links, preferences)[k]);
    }
}

/// A list of distinct values below `n` has at most `n` entries.
pub(crate) proof fn lemma_distinct_below(order: Seq<u32>, n: int)
    requires
        0 <= n,
        order.no_duplicates(),
        forall|k: int| 0 <= k < order.len() ==> order[k] < n,
    ensures
        order.len() <= n,
    decreases order.len(),
{
    if order.len() > 0 {
        let x = order.last();
        let rest = order.drop_last();
        let mapped = rest.map_values(|y: u32| if y == n - 1 { x } else { y });
        assert forall|a: int, b: int| 0 <= a < mapped.len() && 0 <= b < mapped.len() && a != b implies mapped[a]
            != mapped[b] by {
            assert(rest[a] == order[a] && rest[b] == order[b]);
            assert(order[a] != x && order[b] != x) by {
                assert(order[order.len() - 1] == x);
            }
        }
        assert forall|k: int| 0 <= k < mapped.len() implies mapped[k] < n - 1 by {
            assert(rest[k] == order[k]);
            assert(order[order.len() - 1] == x);
            if rest[k] == n - 1 {
                assert(x != rest[k]);
            }
        }
        assert(mapped.no_duplicates());
        lemma_distinct_below(mapped, n - 1);
        assert(mapped.len() == order.len() - 1);
    }
}

/// A walk back from a node through the values it reads that have no
/// preference, collecting the values that have one.
pub struct ArgumentFinder {
    seen: LiveSet,
    stack: Vec<u32>,
}

impl ArgumentFinder {
    /// The nodes visited since the finder was last cleared.
    pub closed spec fn seen(&self) -> Set<int> {
        self.seen@
    }

    /// Whether no walk is under way.
    pub closed spec fn idle(&self) -> bool {
        self.stack@.len() == 0
    }

    /// Creates a finder that has visited no node.
    pub fn new() -> (finder: Self)
        ensures
            finder.seen() == Set::<int>::empty(),
            finder.idle(),
    {
        ArgumentFinder { seen: LiveSet::new(), stack: Vec::new() }
    }

    /// Forgets every visited node.
    pub fn clear(&mut self)
        requires
            old(self).idle(),
        ensures
            final(self).seen() == Set::<int>::empty(),
            final(self).idle(),
    {
        self.seen.clear();
    }

    /// Visits node `id` unless it was visited: appends the values it reads
    /// that have a preference to `arguments`, and queues the producers of
    /// the others.
    fn handle_arguments(
        &mut self,
        arguments: &mut Vec<(Link, Link)>,
        preferences: &LinkMap,
        graph: &DataFlowGraph,
        id: u32,
    ) -> (visited: bool)
        requires
            id < graph@.len(),
        ensures
            visited == !old(self).seen().contains(id as int),
            visited ==> {
                &&& final(self).seen() == old(self).seen().insert(id as int)
                &&& final(arguments)@ == old(arguments)@ + preferred_pairs(
                    graph@[id as int].arguments(),
                    preferences@,
                )
                &&& final(self).stack@ == old(self).stack@ + followed(graph@, preferences@, id)
            },
            !visited ==> {
                &&& final(self).seen() == old(self).seen()
                &&& final(arguments)@ == old(arguments)@
                &&& final(self).stack@ == old(self).stack@
            },
    {
        // The graph's length is a `usize`, so every node identifier is below
        // `usize::MAX` and the set can grow to hold it.
        let node_count = graph.len();
        assert(id < node_count);
        if self.seen.contains(id as usize) {
            return false;
        }
        self.seen.grow_insert(id as usize);
        let mut links: Vec<Link> = Vec::new();
        graph.get(id).for_each_argument(&mut links);
        assert(links@ =~= graph@[id as int].arguments());
        split_links(arguments, &mut self.stack, preferences, &links);
        true
    }

    /// Collects into `arguments` every value with a preference read by a node
    /// reached from `start`, walking back through the values without one and
    /// skipping nodes visited before; the end of a function or module is
    /// walked from its start.
    pub fn run(
        &mut self,
        arguments: &mut Vec<(Link, Link)>,
        preferences: &LinkMap,
        graph: &DataFlowGraph,
        start: u32,
    )
        requires
            old(self).idle(),
            graph_linked(graph@),
            start < graph@.len(),
        ensures
            final(self).idle(),
            exists|order: Seq<u32>|
                {
                    &&& reached_in_order(graph@, preferences@, old(self).seen(), start, order)
                    &&& final(self).seen() == old(self).seen() + id_set(order)
                    &&& final(arguments)@ == visited_pairs(graph@, preferences@, order)
                },
    {
        let ghost seen0 = self.seen();
        let ghost prefs = preferences@;
        let ghost nodes = graph@;
        arguments.clear();
        let visited = self.handle_arguments(arguments, preferences, graph, start);
        let ghost mut order: Seq<u32> = if visited {
            seq![start]
        } else {
            Seq::empty()
        };
        proof {
            lemma_id_set_push(Seq::empty(), start);
            assert(id_set(Seq::<u32>::empty()) =~= Set::<int>::empty());
            assert(seq![start] =~= Seq::<u32>::empty().push(start));
            assert(seen0 + Set::<int>::empty() =~= seen0);
            if visited {
                assert(order.drop_last() =~= Seq::<u32>::empty());
                assert(order.last() == start);
                assert(visited_pairs(nodes, prefs, order.drop_last()) =~= Seq::<(Link, Link)>::empty());
                assert(self.stack@ =~= followed(nodes, prefs, start));
                assert forall|s: int|
                    0 <= s < self.stack@.len() implies queued_by(nodes, prefs, order, #[trigger] self.stack@[s]) by {
                    assert(order[0] == start);
                    assert(self.stack@[s] == followed(nodes, prefs, order[0])[s]);
                }
                assert forall|j: int, m: int|
                    0 <= j < order.len() && 0 <= m < followed(nodes, prefs, order[j]).len() implies {
                        let next = #[trigger] followed(nodes, prefs, order[j])[m];
                        self.seen().contains(region_start(nodes, next) as int)
                            || self.stack@.contains(next)
                    } by {
                    assert(self.stack@[m] == followed(nodes, prefs, order[j])[m]);
                }
            } else {
                assert(self.stack@.len() == 0);
            }
            assert(arguments@ =~= visited_pairs(nodes, prefs, order));
            assert(self.seen() =~= seen0 + id_set(order));
            assert(walk(nodes, prefs, seen0, start, order, self.seen(), self.stack@));
        }
        loop
            invariant
                nodes == graph@,
                prefs == preferences@,
                walk(nodes, prefs, seen0, start, order, self.seen(), self.stack@),
                arguments@ == visited_pairs(nodes, prefs, order),
            ensures
                self.stack@.len() == 0,
                walk(nodes, prefs, seen0, start, order, self.seen(), self.stack@),
                arguments@ == visited_pairs(nodes, prefs, order),
            decreases nodes.len() - order.len(), self.stack@.len(),
        {
            proof {
                lemma_distinct_below(order, nodes.len() as int);
            }
            let ghost full = self.stack@;
            proof {
                if full.len() > 0 {
                    lemma_walk_next(nodes, prefs, seen0, start, order, self.seen(), full);
                }
            }
            let next = match self.stack.pop() {
                Some(next) => next,
                None => break,
            };
            let ghost rest = self.stack@;
            assert(full == rest.push(next));
            let node = graph.get(next);
            let id = match get_region_range(graph, node) {
                Some(range) => range.0,
                None => next,
            };
            let ghost seen_before = self.seen();
            let visited = self.handle_arguments(arguments, preferences, graph, id);
            proof {
                if visited {
                    lemma_walk_visit(nodes, prefs, seen0, start, order, seen_before, rest, next);
                    let before = order;
                    order = before.push(id);
                    assert(order.drop_last() =~= before);
                    assert(arguments@ =~= visited_pairs(nodes, prefs, order));
                    lemma_distinct_below(order, nodes.len() as int);
                } else {
                    lemma_walk_skip(nodes, prefs, seen0, start, order, seen_before, rest, next);
                }
            }
        }
        proof {
            assert(self.stack@ =~= Seq::<u32>::empty());
            lemma_walk_done(nodes, prefs, seen0, start, order, self.seen());
        }
    }
}

/// The node identifiers of `order`, as integers.
pub open spec fn id_set(order: Seq<u32>) -> Set<int> {
    Set::new(|x: int| exists|k: int| 0 <= k < order.len() && order[k] as int == x)
}

proof fn lemma_id_set_push(order: Seq<u32>, id: u32)
    ensures
        id_set(order.push(id)) == id_set(order).insert(id as int),
{
    let pushed = order.push(id);
    assert forall|x: int| id_set(pushed).contains(x) <==> id_set(order).insert(id as int).contains(x) by {
        if id_set(pushed).contains(x) {
            let k = choose|k: int| 0 <= k < pushed.len() && pushed[k] as int == x;
            if k < order.len() {
                assert(order[k] == pushed[k]);
            }
        }
        if id_set(order).contains(x) {
            let k = choose|k: int| 0 <= k < order.len() && order[k] as int == x;
            assert(pushed[k] == order[k]);
        }
        if x == id as int {
            assert(pushed[order.len() as int] == id);
        }
    }
    assert(id_set(pushed) =~= id_set(order).insert(id as int));
}

/// The first and last node of the function or module that `node` ends, if
/// it ends one.
pub fn get_region_range(graph: &DataFlowGraph, node: &Node) -> (range: Option<(u32, u32)>)
    requires
        region_linked(graph@, *node),
    ensures
        range == region_range(graph@, *node),
{
    match node {
        Node::OmegaOut(out) => match graph.get(out.input) {
            Node::OmegaIn(start) => Some((out.input, start.output)),
            _ => None,
        },
        Node::LambdaOut(out) => match graph.get(out.input) {
            Node::LambdaIn(start) => Some((out.input, start.output)),
            _ => None,
        },
        _ => None,
    }
}

} // verus!
