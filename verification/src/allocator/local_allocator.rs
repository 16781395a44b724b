//! Assigns a local to every value of the graph that needs one, function by
//! function: values that would like to share a local get it when it is free
//! again, and the others get new ones.

use vstd::prelude::*;

use crate::{
    allocator::{
        argument_finder::{get_region_range, graph_linked, id_set, reached_in_order, region_linked, region_range, visited_pairs, ArgumentFinder},
        declaration_map::DeclarationMap,
        index_provider::{fresh, kept_holds, lemma_released_origin, pulled, pushed, released_names, revived_by, IndexProvider},
        local_map::LocalMap,
        local_provider::{can_pull, pulled_local, Declarations, LocalProvider},
        reference_finder::{self, graph_fits},
        scalar_finder::{uses_within, ScalarFinder},
    },
    graph::{link::lemma_key_injective, DataFlowGraph, Link, Node},
    tree::expression::Local,
    visitor::link_map::LinkMap,
};

verus! {

/// Whether `entry`, a function's first local name, end of local names and
/// spill slot count, declares `local`.
pub open spec fn declares(entry: (u32, u32, u16), local: Local) -> bool {
    match local {
        Local::Fast { name } => entry.0 <= name.id < entry.1,
        Local::Slow { offset } => offset < entry.2,
    }
}

/// Whether some function of `declarations` declares `local`.
pub open spec fn declared(declarations: Map<u32, (u32, u32, u16)>, local: Local) -> bool {
    exists|start: u32| declarations.contains_key(start) && #[trigger] declares(declarations[start], local)
}

/// Whether no two functions of `declarations` declare a common local name.
pub open spec fn disjoint(declarations: Map<u32, (u32, u32, u16)>) -> bool {
    forall|a: u32, b: u32|
        declarations.contains_key(a) && declarations.contains_key(b) && a != b ==> #[trigger] declarations[a].1
            <= #[trigger] declarations[b].0 || declarations[b].1 <= declarations[a].0
}

/// The node that starts each function or module of `graph`.
pub open spec fn function_starts(graph: Seq<Node>) -> Set<u32> {
    Set::new(
        |start: u32|
            exists|i: int|
                0 <= i < graph.len() && (#[trigger] region_range(graph, graph[i]) matches Some(range) && range.0
                    == start),
    )
}

/// Whether each function or module of `graph` starts at a node before the
/// node that ends it, and its start names that end.
pub open spec fn functions_paired(graph: Seq<Node>) -> bool {
    forall|i: int|
        0 <= i < graph.len() ==> match #[trigger] region_range(graph, graph[i]) {
            Some(range) => range.0 < i && range.1 == i,
            None => true,
        }
}

/// The first and last node of each function or module that a node of
/// `graph` from node `from` on ends, from the last such node back.
pub open spec fn ranges_from(graph: Seq<Node>, from: int) -> Seq<(u32, u32)>
    decreases graph.len() - from,
{
    if from >= graph.len() || from < 0 {
        Seq::empty()
    } else {
        let rest = ranges_from(graph, from + 1);
        match region_range(graph, graph[from]) {
            Some(range) => rest.push(range),
            None => rest,
        }
    }
}

/// The output that the node starting a function or module names.
pub open spec fn start_output(node: Node) -> u32 {
    match node {
        Node::OmegaIn(start) => start.output,
        Node::LambdaIn(start) => start.output,
        _ => 0,
    }
}

/// The nodes that start the functions of `ranges`.
pub open spec fn starts_of(ranges: Seq<(u32, u32)>) -> Set<u32> {
    Set::new(|start: u32| exists|k: int| 0 <= k < ranges.len() && (#[trigger] ranges[k]).0 == start)
}

/// Every range listed from node `from` on is the range of its end node,
/// which is a node from `from` on, and the end nodes fall along the list.
proof fn lemma_ranges_from(graph: Seq<Node>, from: int)
    requires
        0 <= from,
        functions_paired(graph),
    ensures
        forall|k: int|
            0 <= k < ranges_from(graph, from).len() ==> {
                let range = #[trigger] ranges_from(graph, from)[k];
                &&& from <= range.1 < graph.len()
                &&& region_range(graph, graph[range.1 as int]) == Some(range)
            },
        forall|j: int, k: int|
            0 <= j < k < ranges_from(graph, from).len() ==> #[trigger] ranges_from(graph, from)[j].1
                > #[trigger] ranges_from(graph, from)[k].1,
        forall|i: int|
            from <= i < graph.len() && (#[trigger] region_range(graph, graph[i])) is Some ==> exists|k: int|
                0 <= k < ranges_from(graph, from).len() && ranges_from(graph, from)[k] == region_range(
                    graph,
                    graph[i],
                )->0,
    decreases graph.len() - from,
{
    if from < graph.len() {
        lemma_ranges_from(graph, from + 1);
        let rest = ranges_from(graph, from + 1);
        let all = ranges_from(graph, from);
        assert(functions_paired(graph));
        if let Some(range) = region_range(graph, graph[from]) {
            assert(range.1 == from);
            assert(all == rest.push(range));
            assert forall|i: int|
                from <= i < graph.len() && (#[trigger] region_range(graph, graph[i])) is Some implies exists|k: int|
                    0 <= k < all.len() && all[k] == region_range(graph, graph[i])->0 by {
                if i == from {
                    assert(all[rest.len() as int] == range);
                } else {
                    let k = choose|k: int| 0 <= k < rest.len() && rest[k] == region_range(graph, graph[i])->0;
                    assert(all[k] == rest[k]);
                }
            }
            assert forall|j: int, k: int| 0 <= j < k < all.len() implies #[trigger] all[j].1 > #[trigger] all[k].1 by {
                assert(all[j] == rest[j]);
                if k < rest.len() {
                    assert(all[k] == rest[k]);
                }
            }
        }
    }
}

/// A function's end is named by its start.
proof fn lemma_range_output(graph: Seq<Node>, node: Node)
    requires
        region_range(graph, node) is Some,
    ensures
        ({
            let range = region_range(graph, node)->0;
            range.1 == start_output(graph[range.0 as int])
        }),
{
}

/// Whether every held or free name of `provider` is at least `first`.
pub open spec fn names_from(provider: IndexProvider, first: u32) -> bool {
    &&& forall|i: int| 0 <= i < provider.holds().len() ==> #[trigger] provider.holds()[i].1 >= first
    &&& forall|i: int| 0 <= i < provider.free().len() ==> #[trigger] provider.free()[i] >= first
}

/// Whether `local` was handed out by `provider` since it numbered register
/// name `first`.
pub open spec fn current(provider: LocalProvider, first: u32, local: Local) -> bool {
    match local {
        Local::Fast { name } => first <= name.id < provider.registers().names(),
        Local::Slow { offset } => offset < provider.table().names(),
    }
}

/// Whether allocation can go on: every assigned local is declared by a
/// finished function or handed out in the current one, which starts at
/// register name `first`, and the finished functions declare disjoint
/// names, all before `first`.
pub open spec fn allocating(
    provider: LocalProvider,
    first: u32,
    assignments: Map<u64, Local>,
    declarations: Map<u32, (u32, u32, u16)>,
) -> bool {
    &&& provider.well_formed()
    &&& first <= provider.registers().names()
    &&& names_from(provider.registers(), first)
    &&& forall|key: u64|
        #[trigger] assignments.contains_key(key) ==> declared(declarations, assignments[key]) || current(
            provider,
            first,
            assignments[key],
        )
    &&& forall|start: u32|
        #[trigger] declarations.contains_key(start) ==> declarations[start].0 <= declarations[start].1 <= first
    &&& disjoint(declarations)
}

/// Whether every register name and spill slot numbered so far went to a
/// value of `assignments`: the numbering never runs ahead of the values.
pub open spec fn counted(provider: LocalProvider, assignments: Map<u64, Local>) -> bool {
    &&& assignments.dom().finite()
    &&& provider.registers().names() <= assignments.dom().len()
    &&& provider.table().names() <= assignments.dom().len()
}

/// Whether more than `0xFFFF` values have a local, which is when the
/// numbering of locals can run out.
pub open spec fn exhausted(assignments: Map<u64, Local>) -> bool {
    assignments.dom().len() > 0xFFFF
}

/// Whether the name or slot of `local` is free to be held again.
pub open spec fn local_free(provider: LocalProvider, local: Local) -> bool {
    match local {
        Local::Fast { name } => provider.registers().free().contains(name.id),
        Local::Slow { offset } => provider.table().free().contains(offset as u32),
    }
}

/// Whether `after` keeps every value that has a local in `before`.
pub open spec fn grows(before: Map<u64, Local>, after: Map<u64, Local>) -> bool {
    forall|key: u64| #[trigger] before.contains_key(key) ==> after.contains_key(key)
}

/// Pulling a local for an unassigned value numbers at most one more name
/// or slot, for one more value.
proof fn lemma_pull_counted(
    before: LocalProvider,
    after: LocalProvider,
    assignments: Map<u64, Local>,
    key: u64,
    start: u32,
    local: Local,
)
    requires
        counted(before, assignments),
        !assignments.contains_key(key),
        pulled_local(before, after, start, local),
    ensures
        counted(after, assignments.insert(key, local)),
        grows(assignments, assignments.insert(key, local)),
{
    assert(assignments.insert(key, local).dom() =~= assignments.dom().insert(key));
}

/// Reviving a local numbers no name or slot.
proof fn lemma_revive_counted(
    before: LocalProvider,
    after: LocalProvider,
    assignments: Map<u64, Local>,
    result: Map<u64, Local>,
)
    requires
        counted(before, assignments),
        after.registers().names() == before.registers().names(),
        after.table().names() == before.table().names(),
        result == assignments || exists|key: u64, local: Local|
            !assignments.contains_key(key) && result == assignments.insert(key, local),
    ensures
        counted(after, result),
        grows(assignments, result),
{
    if result != assignments {
        let (key, local) = choose|key: u64, local: Local|
            !assignments.contains_key(key) && result == assignments.insert(key, local);
        assert(result.dom() =~= assignments.dom().insert(key));
    }
}

/// A provider that cannot pull has numbered more than `0xFFFF` names or
/// slots, so that many values have locals.
proof fn lemma_cannot_pull(provider: LocalProvider, assignments: Map<u64, Local>)
    requires
        provider.well_formed(),
        counted(provider, assignments),
        !can_pull(provider),
    ensures
        exhausted(assignments),
{
    let table = provider.table();
    if provider.registers().holds().len() >= crate::allocator::local_provider::MAX_LOCAL_VARIABLES {
        if table.free().len() > 0 {
            let j = choose|j: int| 0 <= j < table.free().len() && !(table.free()[j] <= 0xFFFF);
            assert(table.free()[j] < table.names());
        }
    }
}

/// Whether each port of node `id` that has a preference, from the first port
/// up to the first without one, has a local.
pub open spec fn definitions_assigned(preferences: Map<u64, Link>, assignments: Map<u64, Local>, id: u32) -> bool {
    exists|stop: u16|
        {
            &&& !preferences.contains_key(Link(id, stop).packed())
            &&& forall|port: u16|
                port < stop ==> preferences.contains_key(#[trigger] Link(id, port).packed())
                    && assignments.contains_key(Link(id, port).packed())
        }
}

/// Whether every value with a preference that the walk from node `id` reads
/// has a local: the walk that the argument finder takes, having `seen` the
/// nodes it did before.
pub open spec fn arguments_assigned(
    graph: Seq<Node>,
    preferences: Map<u64, Link>,
    seen: Set<int>,
    id: u32,
    assignments: Map<u64, Local>,
) -> bool {
    exists|order: Seq<u32>|
        {
            &&& reached_in_order(graph, preferences, seen, id, order)
            &&& forall|i: int|
                0 <= i < visited_pairs(graph, preferences, order).len() ==> assignments.contains_key(
                    (#[trigger] visited_pairs(graph, preferences, order)[i]).0.packed(),
                )
        }
}

/// What has a local keeps it as more values get locals.
proof fn lemma_assigned_grow(
    graph: Seq<Node>,
    preferences: Map<u64, Link>,
    seen: Set<int>,
    id: u32,
    node: u32,
    before: Map<u64, Local>,
    after: Map<u64, Local>,
)
    requires
        grows(before, after),
    ensures
        definitions_assigned(preferences, before, node) ==> definitions_assigned(preferences, after, node),
        arguments_assigned(graph, preferences, seen, id, before) ==> arguments_assigned(graph, preferences, seen, id, after),
{
    if definitions_assigned(preferences, before, node) {
        let stop = choose|stop: u16|
            {
                &&& !preferences.contains_key(Link(node, stop).packed())
                &&& forall|port: u16|
                    port < stop ==> preferences.contains_key(#[trigger] Link(node, port).packed())
                        && before.contains_key(Link(node, port).packed())
            };
        assert forall|port: u16| port < stop implies preferences.contains_key(#[trigger] Link(node, port).packed())
            && after.contains_key(Link(node, port).packed()) by {
            assert(before.contains_key(Link(node, port).packed()));
        }
    }
    if arguments_assigned(graph, preferences, seen, id, before) {
        let order = choose|order: Seq<u32>|
            {
                &&& reached_in_order(graph, preferences, seen, id, order)
                &&& forall|i: int|
                    0 <= i < visited_pairs(graph, preferences, order).len() ==> before.contains_key(
                        (#[trigger] visited_pairs(graph, preferences, order)[i]).0.packed(),
                    )
            };
        let pairs = visited_pairs(graph, preferences, order);
        assert forall|i: int| 0 <= i < pairs.len() implies after.contains_key((#[trigger] pairs[i]).0.packed()) by {
            assert(before.contains_key(pairs[i].0.packed()));
        }
    }
}

/// Growing twice is growing.
proof fn lemma_grows_trans(a: Map<u64, Local>, b: Map<u64, Local>, c: Map<u64, Local>)
    requires
        grows(a, b),
        grows(b, c),
    ensures
        grows(a, c),
{
    assert forall|key: u64| #[trigger] a.contains_key(key) implies c.contains_key(key) by {
        assert(b.contains_key(key));
    }
}

/// Pulling a local for an unassigned link keeps allocation going.
proof fn lemma_pull_allocating(
    before: LocalProvider,
    after: LocalProvider,
    first: u32,
    assignments: Map<u64, Local>,
    declarations: Map<u32, (u32, u32, u16)>,
    key: u64,
    start: u32,
    local: Local,
)
    requires
        allocating(before, first, assignments, declarations),
        pulled_local(before, after, start, local),
        after.well_formed(),
    ensures
        allocating(after, first, assignments.insert(key, local), declarations),
{
    let registers = before.registers();
    let table = before.table();
    assert(after.registers().names() >= registers.names());
    assert(after.table().names() >= table.names());
    match local {
        Local::Fast { name } => {
            if registers.free().len() > 0 {
                let i = choose|i: int|
                    0 <= i < registers.free().len() && registers.free()[i] == name.id && after.registers().free()
                        == registers.free().remove(i);
                assert(registers.free()[i] >= first);
                assert forall|j: int| 0 <= j < after.registers().free().len() implies #[trigger] after.registers().free()[j]
                    >= first by {
                    if j < i {
                        assert(after.registers().free()[j] == registers.free()[j]);
                    } else {
                        assert(after.registers().free()[j] == registers.free()[j + 1]);
                    }
                }
            }
            assert forall|j: int| 0 <= j < after.registers().holds().len() implies #[trigger] after.registers().holds()[j].1
                >= first by {
                if j < registers.holds().len() {
                    assert(after.registers().holds()[j] == registers.holds()[j]);
                }
            }
        },
        Local::Slow { offset } => {
            if table.free().len() > 0 {
                let i = choose|i: int|
                    0 <= i < table.free().len() && table.free()[i] == offset as u32 && after.table().free()
                        == table.free().remove(i);
                assert(table.free()[i] < table.names());
            }
        },
    }
    let assigned = assignments.insert(key, local);
    assert forall|k: u64| #[trigger] assigned.contains_key(k) implies declared(declarations, assigned[k]) || current(
        after,
        first,
        assigned[k],
    ) by {
        if k != key {
            assert(assigned[k] == assignments[k]);
            assert(assignments.contains_key(k));
        }
    }
}

/// Reviving the local of a preferred link for an unassigned link keeps
/// allocation going.
proof fn lemma_revive_allocating(
    before: LocalProvider,
    after: LocalProvider,
    first: u32,
    assignments: Map<u64, Local>,
    declarations: Map<u32, (u32, u32, u16)>,
    key: u64,
    start: u32,
    local: Local,
    revived: bool,
)
    requires
        allocating(before, first, assignments, declarations),
        after.well_formed(),
        match local {
            Local::Fast { name } => {
                &&& revived_by(before.registers(), after.registers(), name.id, start, revived)
                &&& after.table() == before.table()
            },
            Local::Slow { offset } => {
                &&& revived_by(before.table(), after.table(), offset as u32, start, revived)
                &&& after.registers() == before.registers()
            },
        },
    ensures
        allocating(after, first, if revived { assignments.insert(key, local) } else { assignments }, declarations),
{
    let registers = before.registers();
    let table = before.table();
    match local {
        Local::Fast { name } => {
            if revived {
                let i = choose|i: int|
                    0 <= i < registers.free().len() && registers.free()[i] == name.id && after.registers().free()
                        == registers.free().remove(i);
                assert(registers.free()[i] >= first);
                assert(registers.free()[i] < registers.names());
                assert forall|j: int| 0 <= j < after.registers().free().len() implies #[trigger] after.registers().free()[j]
                    >= first by {
                    if j < i {
                        assert(after.registers().free()[j] == registers.free()[j]);
                    } else {
                        assert(after.registers().free()[j] == registers.free()[j + 1]);
                    }
                }
                assert forall|j: int| 0 <= j < after.registers().holds().len() implies #[trigger] after.registers().holds()[j].1
                    >= first by {
                    if j < registers.holds().len() {
                        assert(after.registers().holds()[j] == registers.holds()[j]);
                    }
                }
            }
        },
        Local::Slow { offset } => {
            if revived {
                let i = choose|i: int|
                    0 <= i < table.free().len() && table.free()[i] == offset as u32 && after.table().free()
                        == table.free().remove(i);
                assert(table.free()[i] < table.names());
            }
        },
    }
    let assigned = if revived {
        assignments.insert(key, local)
    } else {
        assignments
    };
    assert forall|k: u64| #[trigger] assigned.contains_key(k) implies declared(declarations, assigned[k]) || current(
        after,
        first,
        assigned[k],
    ) by {
        if !(revived && k == key) {
            assert(assigned[k] == assignments[k]);
            assert(assignments.contains_key(k));
        }
    }
}

/// Ending the holds from a node on keeps allocation going.
proof fn lemma_push_allocating(
    before: LocalProvider,
    after: LocalProvider,
    first: u32,
    assignments: Map<u64, Local>,
    declarations: Map<u32, (u32, u32, u16)>,
    start: u32,
)
    requires
        allocating(before, first, assignments, declarations),
        pushed(before.registers(), after.registers(), start),
        pushed(before.table(), after.table(), start),
        after.well_formed(),
    ensures
        allocating(after, first, assignments, declarations),
{
    let holds = before.registers().holds();
    let free = before.registers().free();
    lemma_released_origin(holds, start);
    assert(after.registers().holds() == kept_holds(holds, start));
    assert forall|i: int| 0 <= i < after.registers().holds().len() implies #[trigger] after.registers().holds()[i].1
        >= first by {
        let j = choose|j: int| 0 <= j < holds.len() && #[trigger] kept_holds(holds, start)[i] == holds[j];
    }
    assert forall|i: int| 0 <= i < after.registers().free().len() implies #[trigger] after.registers().free()[i]
        >= first by {
        if i < free.len() {
            assert(after.registers().free()[i] == free[i]);
        } else {
            let k = i - free.len();
            assert(after.registers().free()[i] == released_names(holds, start)[k]);
            let j = choose|j: int| 0 <= j < holds.len() && #[trigger] released_names(holds, start)[k] == holds[j].1;
        }
    }
    assert forall|k: u64| #[trigger] assignments.contains_key(k) implies declared(declarations, assignments[k]) || current(
        after,
        first,
        assignments[k],
    ) by {
        assert(declared(declarations, assignments[k]) || current(before, first, assignments[k]));
    }
}

/// Recording a finished function that started at register name `first`
/// and took the names up to `last` and `table` spill slots, and starting
/// afresh, keeps allocation going from `last`.
proof fn lemma_finish_allocating(
    before: LocalProvider,
    after: LocalProvider,
    first: u32,
    assignments: Map<u64, Local>,
    declarations: Map<u32, (u32, u32, u16)>,
    start: u32,
    table: u16,
)
    requires
        allocating(before, first, assignments, declarations),
        !declarations.contains_key(start),
        table == before.table().names(),
        fresh(after.registers(), before.registers().names()),
        fresh(after.table(), 0),
        after.well_formed(),
    ensures
        allocating(
            after,
            before.registers().names(),
            assignments,
            declarations.insert(start, (first, before.registers().names(), table)),
        ),
{
    let last = before.registers().names();
    let entry = (first, last, table);
    let finished = declarations.insert(start, entry);
    assert forall|k: u64| #[trigger] assignments.contains_key(k) implies declared(finished, assignments[k]) || current(
        after,
        last,
        assignments[k],
    ) by {
        let local = assignments[k];
        if declared(declarations, local) {
            let s = choose|s: u32| declarations.contains_key(s) && #[trigger] declares(declarations[s], local);
            assert(finished[s] == declarations[s]);
            assert(declares(finished[s], local));
        } else {
            assert(current(before, first, local));
            assert(declares(finished[start], local));
        }
    }
    assert forall|s: u32| #[trigger] finished.contains_key(s) implies finished[s].0 <= finished[s].1 <= last by {
        if s != start {
            assert(declarations.contains_key(s));
        }
    }
    assert forall|a: u32, b: u32|
        finished.contains_key(a) && finished.contains_key(b) && a != b implies #[trigger] finished[a].1
        <= #[trigger] finished[b].0 || finished[b].1 <= finished[a].0 by {
        if a != start && b != start {
            assert(declarations.contains_key(a) && declarations.contains_key(b));
        } else if a == start {
            assert(declarations.contains_key(b));
        } else {
            assert(declarations.contains_key(a));
        }
    }
}

/// Whether pair `a` comes no later than pair `b`: by the first link, then by
/// the second, each by node and then by port.
pub open spec fn pair_le(a: (Link, Link), b: (Link, Link)) -> bool {
    a.0.key() < b.0.key() || (a.0.key() == b.0.key() && a.1.key() <= b.1.key())
}

/// Sorts `pairs` by their links.
fn sort_pairs(pairs: Vec<(Link, Link)>) -> (sorted: Vec<(Link, Link)>)
    ensures
        sorted@.to_multiset() == pairs@.to_multiset(),
        forall|i: int, j: int| 0 <= i < j < sorted@.len() ==> pair_le(#[trigger] sorted@[i], #[trigger] sorted@[j]),
{
    broadcast use vstd::multiset::group_multiset_axioms;

    let ghost initial = pairs@;
    let mut rest = pairs;
    let mut sorted: Vec<(Link, Link)> = Vec::new();
    proof {
        vstd::seq_lib::to_multiset_len(sorted@);
        vstd::multiset::lemma_multiset_empty_len(sorted@.to_multiset());
    }
    while rest.len() > 0
        invariant
            sorted@.to_multiset().add(rest@.to_multiset()) == initial.to_multiset(),
            forall|i: int, j: int| 0 <= i < j < sorted@.len() ==> pair_le(#[trigger] sorted@[i], #[trigger] sorted@[j]),
            forall|i: int, j: int|
                0 <= i < sorted@.len() && 0 <= j < rest@.len() ==> pair_le(#[trigger] sorted@[i], #[trigger] rest@[j]),
        decreases rest@.len(),
    {
        let mut m: usize = 0;
        let mut q: usize = 1;
        while q < rest.len()
            invariant
                m < rest@.len(),
                1 <= q <= rest@.len(),
                forall|j: int| 0 <= j < q ==> pair_le(rest@[m as int], #[trigger] rest@[j]),
            decreases rest@.len() - q,
        {
            let first = rest[q].0.into_u64();
            let second = rest[q].1.into_u64();
            let best_first = rest[m].0.into_u64();
            let best_second = rest[m].1.into_u64();
            if first < best_first || (first == best_first && second < best_second) {
                m = q;
            }
            q = q + 1;
        }
        let ghost rest_before = rest@;
        let ghost sorted_before = sorted@;
        let x = rest.remove(m);
        sorted.push(x);
        proof {
            assert(rest_before[m as int] == x);
            assert(rest@ =~= rest_before.remove(m as int));
            assert(sorted@ =~= sorted_before.push(x));
            vstd::seq_lib::to_multiset_build(sorted_before, x);
            vstd::seq_lib::to_multiset_remove(rest_before, m as int);
            vstd::seq_lib::to_multiset_contains(rest_before, x);
            assert(rest_before.to_multiset().count(x) > 0);
            assert(sorted_before.push(x).to_multiset().add(rest_before.remove(m as int).to_multiset()) =~= sorted_before.to_multiset().add(
                rest_before.to_multiset(),
            ));
            assert forall|i: int, j: int| 0 <= i < j < sorted@.len() implies pair_le(#[trigger] sorted@[i], #[trigger] sorted@[j]) by {
                if j == sorted@.len() - 1 {
                    assert(sorted@[j] == x);
                    assert(rest_before[m as int] == x);
                }
            }
            assert forall|i: int, j: int|
                0 <= i < sorted@.len() && 0 <= j < rest@.len() implies pair_le(#[trigger] sorted@[i], #[trigger] rest@[j]) by {
                if j < m {
                    assert(rest@[j] == rest_before[j]);
                } else {
                    assert(rest@[j] == rest_before[j + 1]);
                }
                if i == sorted@.len() - 1 {
                    assert(sorted@[i] == x);
                }
            }
        }
    }
    proof {
        vstd::seq_lib::to_multiset_len(rest@);
        vstd::multiset::lemma_multiset_empty_len(rest@.to_multiset());
        assert(sorted@.to_multiset().add(vstd::multiset::Multiset::empty()) =~= sorted@.to_multiset());
    }
    sorted
}

/// An allocator of locals to the values of a graph.
pub struct LocalAllocator {
    preferences: LinkMap,
    functions: Vec<(u32, u32)>,
    arguments: Vec<(Link, Link)>,
    provider: LocalProvider,
    scalar_finder: ScalarFinder,
    argument_finder: ArgumentFinder,
}

impl LocalAllocator {
    /// Whether no allocation is under way.
    pub closed spec fn idle(&self) -> bool {
        &&& self.functions@.len() == 0
        &&& self.argument_finder.idle()
    }

    /// Whether `self` has the preferences and the functions still to
    /// allocate of `other`, and a walk that is not under way.
    closed spec fn keeps_plan(&self, other: &Self) -> bool {
        &&& self.preferences == other.preferences
        &&& self.functions@ == other.functions@
        &&& self.argument_finder.idle()
    }

    /// Creates an allocator with nothing under way.
    pub fn new() -> (allocator: Self)
        ensures
            allocator.idle(),
    {
        LocalAllocator {
            preferences: LinkMap::new(),
            functions: Vec::new(),
            arguments: Vec::new(),
            provider: LocalProvider::new(),
            scalar_finder: ScalarFinder::new(),
            argument_finder: ArgumentFinder::new(),
        }
    }

    /// Lists the first and last node of every function and module, from the
    /// last one in the graph back to the first.
    fn find_functions(&mut self, graph: &DataFlowGraph)
        requires
            graph_linked(graph@),
        ensures
            final(self).functions@ == old(self).functions@ + ranges_from(graph@, 0),
            final(self).preferences == old(self).preferences,
            final(self).provider == old(self).provider,
            final(self).argument_finder == old(self).argument_finder,
    {
        let nodes = graph.nodes();
        let mut i: usize = nodes.len();
        while i > 0
            invariant
                nodes@ == graph@,
                graph_linked(graph@),
                i <= nodes@.len(),
                self.functions@ == old(self).functions@ + ranges_from(graph@, i as int),
                self.preferences == old(self).preferences,
                self.provider == old(self).provider,
                self.argument_finder == old(self).argument_finder,
            decreases i,
        {
            i = i - 1;
            assert(region_linked(graph@, graph@[i as int]));
            match get_region_range(graph, &nodes[i]) {
                Some(range) => self.functions.push(range),
                None => {},
            }
            proof {
                assert(self.functions@ =~= old(self).functions@ + ranges_from(graph@, i as int));
            }
        }
    }

    /// Gives a local to every port of node `id` that has a preference, from
    /// the first port on, as long as they do; a port with a preference but
    /// no use still needs its local declared.
    ///
    /// Returns `false`, having stopped, when a local cannot be numbered,
    /// which happens only once more than `0xFFFF` values have locals.
    fn handle_definitions(
        &mut self,
        assignments: &mut LocalMap,
        id: u32,
        Ghost(first): Ghost<u32>,
        Ghost(declarations): Ghost<Map<u32, (u32, u32, u16)>>,
    ) -> (completed: bool)
        requires
            allocating(old(self).provider, first, old(assignments)@, declarations),
            counted(old(self).provider, old(assignments)@),
        ensures
            allocating(final(self).provider, first, final(assignments)@, declarations),
            counted(final(self).provider, final(assignments)@),
            grows(old(assignments)@, final(assignments)@),
            !completed ==> exhausted(final(assignments)@),
            completed ==> definitions_assigned(old(self).preferences@, final(assignments)@, id),
            final(self).preferences == old(self).preferences,
            final(self).functions@ == old(self).functions@,
            final(self).argument_finder == old(self).argument_finder,
    {
        let mut port: u16 = 0;
        let ghost mut seen: Set<u64> = Set::empty();
        loop
            invariant
                allocating(self.provider, first, assignments@, declarations),
                counted(self.provider, assignments@),
                grows(old(assignments)@, assignments@),
                self.preferences == old(self).preferences,
                self.functions@ == old(self).functions@,
                self.argument_finder == old(self).argument_finder,
                seen.finite(),
                seen.len() == port,
                forall|key: u64| #[trigger] seen.contains(key) ==> assignments@.contains_key(key),
                forall|key: u64| #[trigger] seen.contains(key) ==> exists|p: u16| p < port && key == Link(id, p).packed(),
                forall|p: u16|
                    p < port ==> self.preferences@.contains_key(#[trigger] Link(id, p).packed())
                        && assignments@.contains_key(Link(id, p).packed()),
            decreases u16::MAX - port,
        {
            let link = Link(id, port);
            if !self.preferences.contains_key(link.into_u64()) {
                return true;
            }
            if !assignments.contains_key(link) && !self.provider.can_pull() {
                proof {
                    lemma_cannot_pull(self.provider, assignments@);
                }
                return false;
            }
            let ghost provider_before = self.provider;
            let ghost assigned_before = assignments@;
            self.provider.try_pull_into(assignments, link);
            proof {
                if !assigned_before.contains_key(link.packed()) {
                    let local = choose|local: Local|
                        {
                            &&& pulled_local(provider_before, self.provider, link.0, local)
                            &&& assignments@ == assigned_before.insert(link.packed(), local)
                        };
                    lemma_pull_allocating(
                        provider_before,
                        self.provider,
                        first,
                        assigned_before,
                        declarations,
                        link.packed(),
                        link.0,
                        local,
                    );
                    lemma_pull_counted(provider_before, self.provider, assigned_before, link.packed(), link.0, local);
                }
                assert(!seen.contains(link.packed())) by {
                    if seen.contains(link.packed()) {
                        let p = choose|p: u16| p < port && link.packed() == Link(id, p).packed();
                        lemma_key_injective(link, Link(id, p));
                    }
                }
                seen = seen.insert(link.packed());
                assert forall|key: u64| #[trigger] seen.contains(key) implies exists|p: u16| p < port + 1 && key == Link(id, p).packed() by {
                    if key != link.packed() {
                        let p = choose|p: u16| p < port && key == Link(id, p).packed();
                        assert(p < port + 1);
                    }
                }
            }
            if port == u16::MAX {
                proof {
                    assert(seen.subset_of(assignments@.dom()));
                    vstd::set_lib::lemma_len_subset(seen, assignments@.dom());
                }
                return false;
            }
            port = port + 1;
        }
    }

    /// Gives `argument` the local of `preferred` when it is free again;
    /// returns whether `argument` ends up with a local.
    fn revive(
        &mut self,
        assignments: &mut LocalMap,
        argument: Link,
        preferred: Link,
        Ghost(first): Ghost<u32>,
        Ghost(declarations): Ghost<Map<u32, (u32, u32, u16)>>,
    ) -> (done: bool)
        requires
            allocating(old(self).provider, first, old(assignments)@, declarations),
            counted(old(self).provider, old(assignments)@),
        ensures
            allocating(final(self).provider, first, final(assignments)@, declarations),
            counted(final(self).provider, final(assignments)@),
            grows(old(assignments)@, final(assignments)@),
            !old(assignments)@.contains_key(preferred.packed()) ==> !done && final(assignments)@ == old(assignments)@,
            old(assignments)@.contains_key(preferred.packed()) && old(assignments)@.contains_key(argument.packed()) ==> done
                && final(assignments)@ == old(assignments)@,
            old(assignments)@.contains_key(preferred.packed()) && !old(assignments)@.contains_key(argument.packed()) ==> {
                let local = old(assignments)@[preferred.packed()];
                &&& done == local_free(old(self).provider, local)
                &&& done ==> final(assignments)@ == old(assignments)@.insert(argument.packed(), local)
                &&& !done ==> final(assignments)@ == old(assignments)@
            },
            final(self).preferences == old(self).preferences,
            final(self).functions@ == old(self).functions@,
            final(self).argument_finder == old(self).argument_finder,
    {
        let ghost provider_before = self.provider;
        let ghost assigned_before = assignments@;
        let done = self.provider.try_revive_into(assignments, argument, preferred);
        proof {
            if assigned_before.contains_key(preferred.packed()) && !assigned_before.contains_key(argument.packed()) && done {
                let local = assigned_before[preferred.packed()];
                assert(!assigned_before.contains_key(argument.packed()) && assignments@ == assigned_before.insert(
                    argument.packed(),
                    local,
                ));
            }
            lemma_revive_counted(provider_before, self.provider, assigned_before, assignments@);
            if assigned_before.contains_key(preferred.packed()) && !assigned_before.contains_key(argument.packed()) {
                lemma_revive_allocating(
                    provider_before,
                    self.provider,
                    first,
                    assigned_before,
                    declarations,
                    argument.packed(),
                    argument.0,
                    assigned_before[preferred.packed()],
                    done,
                );
            }
        }
        done
    }

    /// Gives a local to every value with a preference that node `id` reads,
    /// walking back through the values without one: first the values whose
    /// preferred local is free again take it, then, in reverse order of
    /// their links, the others take it if it became free, or a new one.
    ///
    /// Returns `false`, having stopped, when a local cannot be numbered.
    fn handle_arguments(
        &mut self,
        assignments: &mut LocalMap,
        graph: &DataFlowGraph,
        id: u32,
        Ghost(first): Ghost<u32>,
        Ghost(declarations): Ghost<Map<u32, (u32, u32, u16)>>,
    ) -> (completed: bool)
        requires
            old(self).argument_finder.idle(),
            graph_linked(graph@),
            id < graph@.len(),
            allocating(old(self).provider, first, old(assignments)@, declarations),
            counted(old(self).provider, old(assignments)@),
        ensures
            allocating(final(self).provider, first, final(assignments)@, declarations),
            counted(final(self).provider, final(assignments)@),
            grows(old(assignments)@, final(assignments)@),
            final(self).keeps_plan(old(self)),
            !completed ==> exhausted(final(assignments)@),
            completed ==> arguments_assigned(
                graph@,
                old(self).preferences@,
                old(self).argument_finder.seen(),
                id,
                final(assignments)@,
            ),
    {
        broadcast use vstd::seq_lib::group_to_multiset_ensures;

        let ghost start = assignments@;
        let mut arguments: Vec<(Link, Link)> = Vec::new();
        core::mem::swap(&mut arguments, &mut self.arguments);
        self.argument_finder.run(&mut arguments, &self.preferences, graph, id);
        let ghost order = choose|order: Seq<u32>|
            {
                &&& reached_in_order(graph@, old(self).preferences@, old(self).argument_finder.seen(), id, order)
                &&& self.argument_finder.seen() == old(self).argument_finder.seen() + id_set(order)
                &&& arguments@ == visited_pairs(graph@, old(self).preferences@, order)
            };
        let mut kept: Vec<(Link, Link)> = Vec::new();
        let mut i: usize = 0;
        while i < arguments.len()
            invariant
                start == old(assignments)@,
                allocating(self.provider, first, assignments@, declarations),
                counted(self.provider, assignments@),
                grows(start, assignments@),
                self.keeps_plan(old(self)),
                i <= arguments@.len(),
                forall|j: int|
                    0 <= j < i ==> assignments@.contains_key((#[trigger] arguments@[j]).0.packed()) || kept@.contains(
                        arguments@[j],
                    ),
            decreases arguments@.len() - i,
        {
            let (argument, preferred) = arguments[i];
            let ghost assigned_before = assignments@;
            let ghost kept_before = kept@;
            let keep = if preferred == Link::dangling() {
                true
            } else {
                !self.revive(assignments, argument, preferred, Ghost(first), Ghost(declarations))
            };
            if keep {
                kept.push(arguments[i]);
            }
            proof {
                assert forall|j: int|
                    0 <= j < i + 1 implies assignments@.contains_key((#[trigger] arguments@[j]).0.packed()) || kept@.contains(
                    arguments@[j],
                ) by {
                    if j < i {
                        if kept_before.contains(arguments@[j]) {
                            let q = choose|q: int| 0 <= q < kept_before.len() && kept_before[q] == arguments@[j];
                            assert(kept@[q] == kept_before[q]);
                        } else {
                            assert(assigned_before.contains_key(arguments@[j].0.packed()));
                        }
                    } else if keep {
                        assert(kept@[kept@.len() - 1] == arguments@[j]);
                    }
                }
            }
            i = i + 1;
        }
        let ghost all_kept = kept@;
        let ghost middle = assignments@;
        let sorted = sort_pairs(kept);
        let mut k: usize = sorted.len();
        while k > 0
            invariant
                start == old(assignments)@,
                allocating(self.provider, first, assignments@, declarations),
                counted(self.provider, assignments@),
                grows(start, assignments@),
                grows(middle, assignments@),
                self.keeps_plan(old(self)),
                k <= sorted@.len(),
                forall|j: int| k <= j < sorted@.len() ==> assignments@.contains_key((#[trigger] sorted@[j]).0.packed()),
            decreases k,
        {
            k = k - 1;
            let (argument, preferred) = sorted[k];
            let ghost assigned_before = assignments@;
            if preferred != Link::dangling() && self.revive(
                assignments,
                argument,
                preferred,
                Ghost(first),
                Ghost(declarations),
            ) {
                proof {
                    assert forall|j: int| k <= j < sorted@.len() implies assignments@.contains_key(
                        (#[trigger] sorted@[j]).0.packed(),
                    ) by {
                        if j > k {
                            assert(assigned_before.contains_key(sorted@[j].0.packed()));
                        }
                    }
                }
                continue;
            }
            if !assignments.contains_key(argument) && !self.provider.can_pull() {
                proof {
                    lemma_cannot_pull(self.provider, assignments@);
                }
                self.arguments = sorted;
                return false;
            }
            let ghost provider_before = self.provider;
            let ghost assigned_middle = assignments@;
            self.provider.try_pull_into(assignments, argument);
            proof {
                if !assigned_middle.contains_key(argument.packed()) {
                    let local = choose|local: Local|
                        {
                            &&& pulled_local(provider_before, self.provider, argument.0, local)
                            &&& assignments@ == assigned_middle.insert(argument.packed(), local)
                        };
                    lemma_pull_allocating(
                        provider_before,
                        self.provider,
                        first,
                        assigned_middle,
                        declarations,
                        argument.packed(),
                        argument.0,
                        local,
                    );
                    lemma_pull_counted(provider_before, self.provider, assigned_middle, argument.packed(), argument.0, local);
                }
                assert forall|j: int| k <= j < sorted@.len() implies assignments@.contains_key(
                    (#[trigger] sorted@[j]).0.packed(),
                ) by {
                    if j > k {
                        assert(assigned_before.contains_key(sorted@[j].0.packed()));
                        assert(assigned_middle.contains_key(sorted@[j].0.packed()));
                    }
                }
            }
        }
        proof {
            let pairs = visited_pairs(graph@, old(self).preferences@, order);
            assert forall|j: int| 0 <= j < pairs.len() implies assignments@.contains_key((#[trigger] pairs[j]).0.packed()) by {
                assert(pairs[j] == arguments@[j]);
                if !assignments@.contains_key(arguments@[j].0.packed()) {
                    assert(!middle.contains_key(arguments@[j].0.packed()));
                    assert(all_kept.contains(arguments@[j]));
                    assert(all_kept.to_multiset().count(arguments@[j]) > 0);
                    assert(sorted@.to_multiset().count(arguments@[j]) > 0);
                    assert(sorted@.contains(arguments@[j]));
                    let q = choose|q: int| 0 <= q < sorted@.len() && sorted@[q] == arguments@[j];
                    assert(assignments@.contains_key(sorted@[q].0.packed()));
                }
            }
        }
        self.arguments = sorted;
        true
    }

    /// Handles node `id` while walking a function back: the ports of the
    /// node ending the region it ends, or of the node itself, get their
    /// locals, the holds from its start on end, and what its start reads gets
    /// locals. Returns its start, or `None` when a local cannot be numbered.
    fn handle_node(
        &mut self,
        assignments: &mut LocalMap,
        graph: &DataFlowGraph,
        id: u32,
        Ghost(first): Ghost<u32>,
        Ghost(declarations): Ghost<Map<u32, (u32, u32, u16)>>,
    ) -> (start: Option<u32>)
        requires
            old(self).argument_finder.idle(),
            graph_linked(graph@),
            functions_paired(graph@),
            id < graph@.len(),
            allocating(old(self).provider, first, old(assignments)@, declarations),
            counted(old(self).provider, old(assignments)@),
        ensures
            allocating(final(self).provider, first, final(assignments)@, declarations),
            counted(final(self).provider, final(assignments)@),
            grows(old(assignments)@, final(assignments)@),
            final(self).keeps_plan(old(self)),
            start is None ==> exhausted(final(assignments)@),
            start matches Some(start) ==> start == (match region_range(graph@, graph@[id as int]) {
                Some(range) => range.0,
                None => id,
            }),
            start matches Some(start) ==> start <= id,
    {
        assert(region_linked(graph@, graph@[id as int]));
        assert(match region_range(graph@, graph@[id as int]) {
            Some(range) => range.0 < id && range.1 == id,
            None => true,
        });
        let (start, end) = match get_region_range(graph, graph.get(id)) {
            Some(range) => range,
            None => (id, id),
        };
        if !self.handle_definitions(assignments, end, Ghost(first), Ghost(declarations)) {
            return None;
        }
        let ghost provider_before = self.provider;
        let ghost defined = assignments@;
        self.provider.push_until(start);
        proof {
            lemma_push_allocating(provider_before, self.provider, first, assignments@, declarations, start);
        }
        if !self.handle_arguments(assignments, graph, start, Ghost(first), Ghost(declarations)) {
            return None;
        }
        proof {
            assert(grows(old(assignments)@, assignments@)) by {
                assert forall|key: u64| #[trigger] old(assignments)@.contains_key(key) implies assignments@.contains_key(key) by {
                    assert(defined.contains_key(key));
                }
            }
        }
        Some(start)
    }

    /// Walks the function from node `start` to node `end` back: the ports of
    /// its start get their locals, what its end reads gets locals, and then
    /// each node before its end is handled, skipping over the regions that
    /// nested functions take. Returns `false` when a local cannot be
    /// numbered.
    fn handle_scope(
        &mut self,
        assignments: &mut LocalMap,
        graph: &DataFlowGraph,
        start: u32,
        end: u32,
        Ghost(first): Ghost<u32>,
        Ghost(declarations): Ghost<Map<u32, (u32, u32, u16)>>,
    ) -> (completed: bool)
        requires
            old(self).argument_finder.idle(),
            graph_linked(graph@),
            functions_paired(graph@),
            start < end < graph@.len(),
            allocating(old(self).provider, first, old(assignments)@, declarations),
            counted(old(self).provider, old(assignments)@),
        ensures
            allocating(final(self).provider, first, final(assignments)@, declarations),
            counted(final(self).provider, final(assignments)@),
            grows(old(assignments)@, final(assignments)@),
            final(self).keeps_plan(old(self)),
            !completed ==> exhausted(final(assignments)@),
            completed ==> definitions_assigned(old(self).preferences@, final(assignments)@, start),
            completed ==> arguments_assigned(
                graph@,
                old(self).preferences@,
                old(self).argument_finder.seen(),
                end,
                final(assignments)@,
            ),
    {
        let ghost seen = self.argument_finder.seen();
        let ghost prefs = self.preferences@;
        if !self.handle_definitions(assignments, start, Ghost(first), Ghost(declarations)) {
            return false;
        }
        let ghost defined = assignments@;
        if !self.handle_arguments(assignments, graph, end, Ghost(first), Ghost(declarations)) {
            proof {
                lemma_grows_trans(old(assignments)@, defined, assignments@);
            }
            return false;
        }
        let ghost reached = assignments@;
        proof {
            lemma_grows_trans(old(assignments)@, defined, reached);
            lemma_assigned_grow(graph@, prefs, seen, end, start, defined, reached);
        }
        let low = start + 1;
        let mut high = end;
        while low < high
            invariant
                graph_linked(graph@),
                functions_paired(graph@),
                high <= end < graph@.len(),
                allocating(self.provider, first, assignments@, declarations),
                counted(self.provider, assignments@),
                grows(old(assignments)@, assignments@),
                grows(reached, assignments@),
                self.keeps_plan(old(self)),
            decreases high,
        {
            let id = high - 1;
            let ghost before = assignments@;
            match self.handle_node(assignments, graph, id, Ghost(first), Ghost(declarations)) {
                Some(next) => high = next,
                None => {
                    proof {
                        lemma_grows_trans(old(assignments)@, before, assignments@);
                    }
                    return false;
                },
            }
            proof {
                lemma_grows_trans(old(assignments)@, before, assignments@);
                lemma_grows_trans(reached, before, assignments@);
            }
        }
        proof {
            lemma_assigned_grow(graph@, prefs, seen, end, start, reached, assignments@);
        }
        true
    }

    /// Allocates the locals of the function from node `start` to node `end`
    /// and returns its declarations: the register names it took, and the
    /// number of spill slots. Returns `None` when a local cannot be numbered
    /// or the spill slots do not fit in a `u16`.
    fn handle_function(
        &mut self,
        assignments: &mut LocalMap,
        graph: &DataFlowGraph,
        start: u32,
        end: u32,
        Ghost(declarations): Ghost<Map<u32, (u32, u32, u16)>>,
    ) -> (found: Option<Declarations>)
        requires
            old(self).argument_finder.idle(),
            graph_linked(graph@),
            functions_paired(graph@),
            start < end < graph@.len(),
            !declarations.contains_key(start),
            allocating(old(self).provider, old(self).provider.registers().names(), old(assignments)@, declarations),
            counted(old(self).provider, old(assignments)@),
        ensures
            final(self).keeps_plan(old(self)),
            counted(final(self).provider, final(assignments)@),
            found is None ==> exhausted(final(assignments)@),
            found is Some ==> fresh(final(self).provider.table(), 0),
            found matches Some(found) ==> {
                let entry = (found.locals.start, found.locals.end, found.stack);
                allocating(
                    final(self).provider,
                    final(self).provider.registers().names(),
                    final(assignments)@,
                    declarations.insert(start, entry),
                )
            },
    {
        let ghost first_names = self.provider.registers().names();
        let (first, _) = self.provider.get_names();
        if !self.handle_scope(assignments, graph, start, end, Ghost(first), Ghost(declarations)) {
            return None;
        }
        let (last, table) = self.provider.get_names();
        let ghost provider_before = self.provider;
        self.provider.refresh();
        if table > 0xFFFF {
            return None;
        }
        let stack = table as u16;
        proof {
            lemma_finish_allocating(
                provider_before,
                self.provider,
                first,
                assignments@,
                declarations,
                start,
                stack,
            );
        }
        Some(Declarations { locals: first..last, stack })
    }

    /// Allocates a local to every value of `graph` that needs one, function
    /// by function, and records the declarations of each function under the
    /// node that starts it.
    ///
    /// Returns `false`, having stopped, when a function needs more register
    /// names than a `u32` numbers, or more spill slots than a `u16` does.
    pub fn run(&mut self, declarations: &mut DeclarationMap, assignments: &mut LocalMap, graph: &DataFlowGraph) -> (completed: bool)
        requires
            old(self).idle(),
            graph_fits(graph@),
            uses_within(graph@),
            graph_linked(graph@),
            functions_paired(graph@),
            graph@.len() <= u32::MAX,
        ensures
            final(self).idle(),
            completed ==> final(declarations)@.dom() == function_starts(graph@),
            completed ==> forall|start: u32|
                #[trigger] final(declarations)@.contains_key(start) ==> final(declarations)@[start].0
                    <= final(declarations)@[start].1,
            completed ==> disjoint(final(declarations)@),
            completed ==> forall|key: u64|
                #[trigger] final(assignments)@.contains_key(key) ==> declared(
                    final(declarations)@,
                    final(assignments)@[key],
                ),
            !completed ==> exhausted(final(assignments)@),
    {
        self.preferences.clear();
        self.provider.clear();
        self.argument_finder.clear();
        reference_finder::run(&mut self.preferences, graph);
        self.scalar_finder.run(&mut self.preferences, graph);
        self.find_functions(graph);
        declarations.clear();
        assignments.clear();
        let ghost all = self.functions@;
        proof {
            assert(all =~= ranges_from(graph@, 0));
            lemma_ranges_from(graph@, 0);
            lemma_ranges_shape(graph@, all);
            assert(all.subrange(all.len() as int, all.len() as int) =~= Seq::<(u32, u32)>::empty());
            assert(declarations@.dom() =~= starts_of(all.subrange(all.len() as int, all.len() as int)));
        }
        loop
            invariant
                graph_linked(graph@),
                functions_paired(graph@),
                self.argument_finder.idle(),
                self.functions@.len() <= all.len(),
                self.functions@ == all.take(self.functions@.len() as int),
                forall|k: int| 0 <= k < all.len() ==> #[trigger] all[k].0 < all[k].1 < graph@.len(),
                forall|j: int, k: int| 0 <= j < all.len() && 0 <= k < all.len() && j != k ==> #[trigger] all[j].0 != #[trigger] all[k].0,
                declarations@.dom() == starts_of(all.subrange(self.functions@.len() as int, all.len() as int)),
                allocating(self.provider, self.provider.registers().names(), assignments@, declarations@),
                fresh(self.provider.table(), 0),
                counted(self.provider, assignments@),
            ensures
                self.argument_finder.idle(),
                self.functions@.len() == 0,
                declarations@.dom() == starts_of(all),
                allocating(self.provider, self.provider.registers().names(), assignments@, declarations@),
                fresh(self.provider.table(), 0),
            decreases self.functions@.len(),
        {
            let ghost count = self.functions@.len();
            let range = match self.functions.pop() {
                Some(range) => range,
                None => {
                    proof {
                        assert(all.subrange(0, all.len() as int) =~= all);
                    }
                    break;
                },
            };
            let (start, end) = range;
            proof {
                assert(range == all[count - 1]);
                assert(self.functions@ =~= all.take(count - 1));
                assert forall|x: u32| declarations@.dom().contains(x) implies x != start by {
                    let k = choose|k: int|
                        0 <= k < all.subrange(count as int, all.len() as int).len() && (#[trigger] all.subrange(
                            count as int,
                            all.len() as int,
                        )[k]).0 == x;
                    assert(all.subrange(count as int, all.len() as int)[k] == all[count + k]);
                }
            }
            match self.handle_function(assignments, graph, start, end, Ghost(declarations@)) {
                Some(found) => {
                    let ghost before = declarations@;
                    declarations.insert(start, found);
                    proof {
                        let rest = all.subrange(count - 1, all.len() as int);
                        let previous = all.subrange(count as int, all.len() as int);
                        assert forall|x: u32| starts_of(rest).contains(x) <==> before.dom().insert(start).contains(x) by {
                            if starts_of(rest).contains(x) {
                                let k = choose|k: int| 0 <= k < rest.len() && (#[trigger] rest[k]).0 == x;
                                if k > 0 {
                                    assert(rest[k] == previous[k - 1]);
                                }
                            }
                            if before.dom().contains(x) {
                                let k = choose|k: int| 0 <= k < previous.len() && (#[trigger] previous[k]).0 == x;
                                assert(rest[k + 1] == previous[k]);
                            }
                            if x == start {
                                assert(rest[0] == all[count - 1]);
                            }
                        }
                        assert(declarations@.dom() =~= starts_of(rest));
                    }
                },
                None => {
                    self.functions.clear();
                    return false;
                },
            }
        }
        proof {
            lemma_starts_complete(graph@, all);
            assert forall|key: u64| #[trigger] assignments@.contains_key(key) implies declared(
                declarations@,
                assignments@[key],
            ) by {
                assert(declared(declarations@, assignments@[key]) || current(
                    self.provider,
                    self.provider.registers().names(),
                    assignments@[key],
                ));
            }
        }
        true
    }
}

/// The ranges of the functions of `graph` each span from a node before
/// their end to a node of the graph, and no two start at the same node.
proof fn lemma_ranges_shape(graph: Seq<Node>, all: Seq<(u32, u32)>)
    requires
        functions_paired(graph),
        all == ranges_from(graph, 0),
    ensures
        forall|k: int| 0 <= k < all.len() ==> #[trigger] all[k].0 < all[k].1 < graph.len(),
        forall|j: int, k: int| 0 <= j < all.len() && 0 <= k < all.len() && j != k ==> #[trigger] all[j].0 != #[trigger] all[k].0,
{
    lemma_ranges_from(graph, 0);
    assert forall|k: int| 0 <= k < all.len() implies #[trigger] all[k].0 < all[k].1 < graph.len() by {
        let range = all[k];
        assert(region_range(graph, graph[range.1 as int]) == Some(range));
        assert(match region_range(graph, graph[range.1 as int]) {
            Some(r) => r.0 < range.1 && r.1 == range.1,
            None => true,
        });
    }
    assert forall|j: int, k: int| 0 <= j < all.len() && 0 <= k < all.len() && j != k implies #[trigger] all[j].0
        != #[trigger] all[k].0 by {
        lemma_range_output(graph, graph[all[j].1 as int]);
        lemma_range_output(graph, graph[all[k].1 as int]);
        if j < k {
            assert(all[j].1 > all[k].1);
        } else {
            assert(all[k].1 > all[j].1);
        }
    }
}

/// The starts of the ranges of the functions of `graph` are the nodes that
/// start its functions.
proof fn lemma_starts_complete(graph: Seq<Node>, all: Seq<(u32, u32)>)
    requires
        functions_paired(graph),
        all == ranges_from(graph, 0),
    ensures
        starts_of(all) == function_starts(graph),
{
    lemma_ranges_from(graph, 0);
    assert forall|x: u32| starts_of(all).contains(x) <==> function_starts(graph).contains(x) by {
        if starts_of(all).contains(x) {
            let k = choose|k: int| 0 <= k < all.len() && (#[trigger] all[k]).0 == x;
            let i = all[k].1 as int;
            assert(region_range(graph, graph[i]) == Some(all[k]));
        }
        if function_starts(graph).contains(x) {
            let i = choose|i: int|
                0 <= i < graph.len() && (#[trigger] region_range(graph, graph[i]) matches Some(range) && range.0 == x);
            let k = choose|k: int| 0 <= k < all.len() && all[k] == region_range(graph, graph[i])->0;
            assert(all[k].0 == x);
        }
    }
    assert(starts_of(all) =~= function_starts(graph));
}

} // verus!
