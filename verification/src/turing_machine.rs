//! A lifter that compiles a Turing machine tape program into a data flow
//! graph: `>` and `<` move the head, `+` and `-` change the current cell, `,`
//! reads a cell from the host, `.` writes one, and `[` ... `]` repeats while
//! the current cell is not zero.

use vstd::prelude::*;
use vstd::string::StringSliceAdditionalSpecFns;

use crate::graph::{
    control::{GammaIn, GammaOut, Import, OmegaIn, OmegaOut, RegionIn, RegionOut, ThetaIn, ThetaOut},
    sinks::gamma_closed,
    simple::{
        Apply, Fence, IntegerBinaryOperation, IntegerBinaryOperator, IntegerCompareOperation,
        IntegerCompareOperator, IntegerType, LoadType, Location, MemoryLoad, MemoryNew,
        MemoryStore, StoreType,
    },
    DataFlowGraph, Link, Node,
};
use crate::graph::graph::extends;

verus! {

/// The size of a tape cell in bytes.
pub const CELL_SIZE: u32 = 4;

/// The size of the tape in bytes.
pub const MEMORY_SIZE: u32 = 16_384;

/// Whether the kinds a lifter reopens to pair them with their outputs.
pub open spec fn reopened(node: Node) -> bool {
    node is GammaIn || node is RegionIn || node is RegionOut || node is ThetaIn
}

/// Whether `after` holds, where `before` held a node, a node of the same kind
/// for the kinds that a lifter reopens, and the very same node otherwise.
pub open spec fn kept(before: Node, after: Node) -> bool {
    &&& (before is GammaIn ==> after is GammaIn)
    &&& (before is RegionIn ==> after is RegionIn)
    &&& (before is RegionOut ==> after is RegionOut)
    &&& (before is ThetaIn ==> after is ThetaIn)
    &&& (!reopened(before) ==> after == before)
}

/// Whether `after` keeps every node of `before` in the sense of [`kept`], and
/// may hold more nodes after them.
pub open spec fn keeps_structure(before: Seq<Node>, after: Seq<Node>) -> bool {
    &&& before.len() <= after.len()
    &&& forall|j: int| 0 <= j < before.len() ==> #[trigger] kept(before[j], after[j])
}

proof fn lemma_keeps_trans(a: Seq<Node>, b: Seq<Node>, c: Seq<Node>)
    requires
        keeps_structure(a, b),
        keeps_structure(b, c),
    ensures
        keeps_structure(a, c),
{
    assert forall|j: int| 0 <= j < a.len() implies #[trigger] kept(a[j], c[j]) by {
        assert(kept(a[j], b[j]));
        assert(kept(b[j], c[j]));
    }
}

proof fn lemma_keeps_push(g: Seq<Node>, node: Node)
    ensures
        keeps_structure(g, g.push(node)),
{
    assert forall|j: int| 0 <= j < g.len() implies #[trigger] kept(g[j], g.push(node)[j]) by {
        assert(g.push(node)[j] == g[j]);
    }
}

proof fn lemma_keeps_output(g: Seq<Node>, node: Node, input: int, to: u32)
    requires
        0 <= input < g.len(),
        reopened(g[input]),
    ensures
        keeps_structure(g, g.push(node).update(input, g[input].with_output(to))),
{
    let after = g.push(node).update(input, g[input].with_output(to));
    assert forall|j: int| 0 <= j < g.len() implies #[trigger] kept(g[j], after[j]) by {
        if j != input {
            assert(after[j] == g[j]);
        }
    }
}

proof fn lemma_keeps_gamma(before: Seq<Node>, input: u32, regions: Seq<u32>, id: u32, node: Node)
    requires
        before.len() <= u32::MAX,
        input < before.len(),
        before[input as int] is GammaIn,
        forall|k: int| 0 <= k < regions.len() ==> regions[k] < before.len() && before[regions[k] as int] is RegionOut,
    ensures
        keeps_structure(before, gamma_closed(before, input, regions, id).push(node)),
{
    let closed = gamma_closed(before, input, regions, id);
    let after = closed.push(node);
    assert forall|j: int| 0 <= j < before.len() implies #[trigger] kept(before[j], after[j]) by {
        assert(after[j] == closed[j]);
        if regions.contains(j as u32) {
            let k = choose|k: int| 0 <= k < regions.len() && regions[k] == j as u32;
            assert(before[regions[k] as int] is RegionOut);
        }
    }
}

proof fn lemma_extends_push(g: Seq<Node>, node: Node)
    ensures
        extends(g, g.push(node)),
{
    assert forall|j: int| 0 <= j < g.len() implies g.push(node)[j] == g[j] by {}
}

proof fn lemma_extends_trans(a: Seq<Node>, b: Seq<Node>, c: Seq<Node>)
    requires
        extends(a, b),
        extends(b, c),
    ensures
        extends(a, c),
{
    assert forall|j: int| 0 <= j < a.len() implies c[j] == a[j] by {
        assert(c[j] == b[j]);
    }
}

proof fn lemma_keeps_refl(g: Seq<Node>)
    ensures
        keeps_structure(g, g),
{
    assert forall|j: int| 0 <= j < g.len() implies #[trigger] kept(g[j], g[j]) by {}
}

/// The nodes that an open `[` left behind: its gamma input, the region input
/// of the branch taken when the cell is not zero, and its theta input.
#[derive(Clone, Copy, Debug)]
struct Block {
    gamma: u32,
    region: u32,
    theta: u32,
}

/// Whether every open block names nodes of `graph` of the right kind.
spec fn blocks_open(blocks: Seq<Block>, graph: Seq<Node>) -> bool {
    forall|k: int|
        0 <= k < blocks.len() ==> {
            &&& (#[trigger] blocks[k]).gamma < graph.len()
            &&& graph[blocks[k].gamma as int] is GammaIn
            &&& blocks[k].region < graph.len()
            &&& graph[blocks[k].region as int] is RegionIn
            &&& blocks[k].theta < graph.len()
            &&& graph[blocks[k].theta as int] is ThetaIn
        }
}

proof fn lemma_blocks_kept(blocks: Seq<Block>, a: Seq<Node>, b: Seq<Node>)
    requires
        blocks_open(blocks, a),
        keeps_structure(a, b),
    ensures
        blocks_open(blocks, b),
{
    assert forall|k: int| 0 <= k < blocks.len() implies {
        &&& (#[trigger] blocks[k]).gamma < b.len()
        &&& b[blocks[k].gamma as int] is GammaIn
        &&& blocks[k].region < b.len()
        &&& b[blocks[k].region as int] is RegionIn
        &&& blocks[k].theta < b.len()
        &&& b[blocks[k].theta as int] is ThetaIn
    } by {
        assert(kept(a[blocks[k].gamma as int], b[blocks[k].gamma as int]));
        assert(kept(a[blocks[k].region as int], b[blocks[k].region as int]));
        assert(kept(a[blocks[k].theta as int], b[blocks[k].theta as int]));
    }
}

/// The depth of `[` ... `]` nesting after the first `n` bytes of `code`.
pub open spec fn depth(code: Seq<u8>, n: int) -> int
    decreases n,
{
    if n <= 0 {
        0
    } else {
        depth(code, n - 1) + if code[n - 1] == 0x5B {
            1int
        } else if code[n - 1] == 0x5D {
            -1int
        } else {
            0int
        }
    }
}

/// Whether no `]` of `code` closes a block that was never opened.
pub open spec fn never_unbalanced(code: Seq<u8>) -> bool {
    forall|n: int| 0 <= n <= code.len() ==> #[trigger] depth(code, n) >= 0
}

/// Whether `node` loads the tape cell at `offset` as an `i32`.
pub open spec fn reads_cell(node: Node, offset: Link) -> bool {
    node matches Node::MemoryLoad(load) && load.source.offset == offset && load.offset == 0
        && load.kind == LoadType::I32
}

/// Whether `node` stores `value` into the tape cell at `offset`.
pub open spec fn writes_cell(node: Node, value: Link, offset: Link) -> bool {
    node matches Node::MemoryStore(store) && store.source == value && store.destination.offset
        == offset
}

/// The operator that a command applies: `Add` for `>` and `+`, `Subtract`
/// for `<` and `-`.
pub open spec fn command_operator(command: u8) -> IntegerBinaryOperator {
    if command == 0x3E || command == 0x2B {
        IntegerBinaryOperator::Add
    } else {
        IntegerBinaryOperator::Subtract
    }
}

/// Whether the nodes of `graph` from `start` up to `end` are those that the
/// byte `command` adds while the head stands at `offset`, and the head then
/// stands at `next`.
///
/// `>` and `<` add or subtract the cell size to the head; `+` and `-` load the
/// cell, add or subtract one and store the sum back; `.` loads the cell and
/// hands it to the host; `,` asks the host for a value and stores it; `[` and
/// `]` open and close blocks; any other byte adds nothing.
pub open spec fn command_lifted(graph: Seq<Node>, command: u8, start: int, end: int, offset: Link, next: Link) -> bool {
    &&& 0 <= start <= end <= graph.len()
    &&& if command == 0x3E || command == 0x3C {
        &&& end == start + 2
        &&& graph[start] == Node::I32(CELL_SIZE as i32)
        &&& graph[start + 1] == Node::IntegerBinaryOperation(
            IntegerBinaryOperation {
                lhs: offset,
                rhs: Link(start as u32, 0),
                kind: IntegerType::I32,
                operator: command_operator(command),
            },
        )
        &&& next == Link((start + 1) as u32, 0)
    } else if command == 0x2B || command == 0x2D {
        &&& start + 4 <= end <= start + 5
        &&& reads_cell(graph[start], offset)
        &&& graph[start + 1] == Node::I32(1)
        &&& graph[start + 2] == Node::IntegerBinaryOperation(
            IntegerBinaryOperation {
                lhs: Link(start as u32, MemoryLoad::RESULT_PORT),
                rhs: Link((start + 1) as u32, 0),
                kind: IntegerType::I32,
                operator: command_operator(command),
            },
        )
        &&& writes_cell(graph[end - 1], Link((start + 2) as u32, 0), offset)
        &&& next == offset
    } else if command == 0x2E {
        &&& end == start + 2
        &&& reads_cell(graph[start], offset)
        &&& graph[start + 1] matches Node::Apply(apply) && apply.arguments@.len() == 2
            && apply.arguments@[1] == Link(start as u32, MemoryLoad::RESULT_PORT) && apply.results == 1
        &&& next == offset
    } else if command == 0x2C {
        &&& start + 2 <= end <= start + 3
        &&& graph[start] matches Node::Apply(apply) && apply.results == 2
        &&& writes_cell(graph[end - 1], Link(start as u32, 1), offset)
        &&& next == offset
    } else if command == 0x5B || command == 0x5D {
        true
    } else {
        &&& end == start
        &&& next == offset
    }
}

/// Whether byte `k` of `code` was lifted into the nodes from `marks[k]` up to
/// `marks[k + 1]`, the head standing at `offsets[k]` before and at
/// `offsets[k + 1]` after.
pub open spec fn lifted_at(graph: Seq<Node>, code: Seq<u8>, marks: Seq<int>, offsets: Seq<Link>, k: int) -> bool {
    command_lifted(graph, code[k], marks[k], marks[k + 1], offsets[k], offsets[k + 1])
}

/// Whether every byte of `code` was lifted, in order, into consecutive runs
/// of nodes of `graph` that `marks` delimit.
pub open spec fn program_lifted(graph: Seq<Node>, code: Seq<u8>, marks: Seq<int>, offsets: Seq<Link>) -> bool {
    &&& marks.len() == code.len() + 1
    &&& offsets.len() == code.len() + 1
    &&& forall|k: int| 0 <= k < code.len() ==> #[trigger] lifted_at(graph, code, marks, offsets, k)
}

proof fn lemma_lifted_kept(a: Seq<Node>, b: Seq<Node>, command: u8, start: int, end: int, offset: Link, next: Link)
    requires
        command_lifted(a, command, start, end, offset, next),
        keeps_structure(a, b),
    ensures
        command_lifted(b, command, start, end, offset, next),
{
    if start < end && command != 0x5B && command != 0x5D {
        assert(kept(a[start], b[start]));
        assert(kept(a[end - 1], b[end - 1]));
        if start + 1 < end {
            assert(kept(a[start + 1], b[start + 1]));
        }
        if start + 2 < end {
            assert(kept(a[start + 2], b[start + 2]));
        }
    }
}

proof fn lemma_lifted_same(a: Seq<Node>, b: Seq<Node>, lo: int, command: u8, start: int, end: int, offset: Link, next: Link)
    requires
        command_lifted(a, command, start, end, offset, next),
        lo <= start,
        a.len() <= b.len(),
        forall|j: int| lo <= j < a.len() ==> b[j] == a[j],
    ensures
        command_lifted(b, command, start, end, offset, next),
{
    if start < end {
        assert(b[start] == a[start]);
        assert(b[end - 1] == a[end - 1]);
        if start + 1 < end {
            assert(b[start + 1] == a[start + 1]);
        }
        if start + 2 < end {
            assert(b[start + 2] == a[start + 2]);
        }
    }
}

/// In a lifted program, a `+` loads the cell under the head, adds the
/// constant one to the loaded value and stores the sum back into the same
/// cell, and a `-` does the same with a subtraction; `>` moves the head one
/// cell forward by adding the cell size to it, and `<` moves it back by
/// subtracting the cell size. Neither `+` nor `-` moves the head.
pub proof fn lemma_tape_commands(graph: Seq<Node>, code: Seq<u8>, marks: Seq<int>, offsets: Seq<Link>, k: int)
    requires
        program_lifted(graph, code, marks, offsets),
        0 <= k < code.len(),
    ensures
        code[k] == 0x2B || code[k] == 0x2D ==> {
            let start = marks[k];
            &&& start + 4 <= marks[k + 1] <= start + 5
            &&& marks[k + 1] <= graph.len()
            &&& graph[start] matches Node::MemoryLoad(load) && load.source.offset == offsets[k]
                && load.kind == LoadType::I32
            &&& graph[start + 1] == Node::I32(1)
            &&& graph[start + 2] matches Node::IntegerBinaryOperation(operation)
                && operation.lhs == Link(start as u32, MemoryLoad::RESULT_PORT)
                && operation.rhs == Link((start + 1) as u32, 0)
                && operation.kind == IntegerType::I32
                && operation.operator == (if code[k] == 0x2B {
                    IntegerBinaryOperator::Add
                } else {
                    IntegerBinaryOperator::Subtract
                })
            &&& graph[marks[k + 1] - 1] matches Node::MemoryStore(store) && store.source == Link(
                (start + 2) as u32,
                0,
            ) && store.destination.offset == offsets[k]
            &&& offsets[k + 1] == offsets[k]
        },
        code[k] == 0x3E || code[k] == 0x3C ==> {
            let start = marks[k];
            &&& marks[k + 1] == start + 2
            &&& marks[k + 1] <= graph.len()
            &&& graph[start] == Node::I32(4)
            &&& graph[start + 1] matches Node::IntegerBinaryOperation(operation)
                && operation.lhs == offsets[k]
                && operation.rhs == Link(start as u32, 0)
                && operation.kind == IntegerType::I32
                && operation.operator == (if code[k] == 0x3E {
                    IntegerBinaryOperator::Add
                } else {
                    IntegerBinaryOperator::Subtract
                })
            &&& offsets[k + 1] == Link((start + 1) as u32, 0)
        },
{
    assert(lifted_at(graph, code, marks, offsets, k));
}

/// A lifter that compiles source code into a data flow graph.
pub struct TuringMachineLifter {
    loads: Vec<Link>,
    store: Link,
    offset: Link,
    io: Link,
    ask: Link,
    tell: Link,
    blocks: Vec<Block>,
}

impl TuringMachineLifter {
    /// The number of blocks that a `[` opened and no `]` closed yet.
    pub closed spec fn open_blocks(&self) -> nat {
        self.blocks@.len()
    }

    /// Whether the open blocks name nodes of `graph` of the right kind.
    spec fn fits(&self, graph: Seq<Node>) -> bool {
        blocks_open(self.blocks@, graph)
    }

    /// Creates a new Turing machine lifter.
    pub fn new() -> (lifter: Self)
        ensures
            lifter.open_blocks() == 0,
    {
        TuringMachineLifter {
            loads: Vec::new(),
            store: Link::dangling(),
            offset: Link::dangling(),
            io: Link::dangling(),
            ask: Link::dangling(),
            tell: Link::dangling(),
            blocks: Vec::new(),
        }
    }

    fn create_memory(&mut self, graph: &mut DataFlowGraph)
        requires
            old(graph)@.len() + 2 <= u32::MAX,
        ensures
            final(graph)@.len() == old(graph)@.len() + 2,
            final(graph)@.subrange(0, old(graph)@.len() as int) == old(graph)@,
            final(graph)@[old(graph)@.len() as int] matches Node::MemoryNew(memory)
                && memory.initializer@.len() == 0 && memory.minimum == MEMORY_SIZE && memory.maximum
                == MEMORY_SIZE,
            final(graph)@[(old(graph)@.len() + 1) as int] == Node::I32(0),
            final(self).loads@.len() == 0,
            final(self).store == Link(old(graph)@.len() as u32, 0),
            final(self).offset == Link((old(graph)@.len() + 1) as u32, 0),
            final(self).blocks == old(self).blocks,
    {
        self.loads.clear();

        let ghost start = graph@;
        self.store = MemoryNew::add_into(graph, Vec::new(), MEMORY_SIZE, MEMORY_SIZE);
        self.offset = Node::add_i32_into(graph, 0);
        assert(graph@.subrange(0, start.len() as int) =~= start);
    }

    fn create_io(&mut self, graph: &mut DataFlowGraph, omega_in: u32)
        requires
            old(graph)@.len() + 2 <= u32::MAX,
        ensures
            keeps_structure(old(graph)@, final(graph)@),
            final(graph)@.len() == old(graph)@.len() + 2,
            final(self).io == Link(omega_in, OmegaIn::STATE_PORT),
            final(self).offset == old(self).offset,
            final(self).blocks == old(self).blocks,
    {
        let environment = Link(omega_in, OmegaIn::ENVIRONMENT_PORT);
        let namespace = "turing".to_owned();

        self.io = Link(omega_in, OmegaIn::STATE_PORT);
        let ghost before = graph@;
        self.ask = Import::add_into(graph, environment, namespace.clone(), "ask".to_owned());
        let ghost middle = graph@;
        self.tell = Import::add_into(graph, environment, namespace, "tell".to_owned());
        proof {
            lemma_keeps_push(before, middle.last());
            assert(middle =~= before.push(middle.last()));
            lemma_keeps_push(middle, graph@.last());
            assert(graph@ =~= middle.push(graph@.last()));
            lemma_keeps_trans(before, middle, graph@);
        }
    }

    fn reconcile_store(&mut self, graph: &mut DataFlowGraph) -> (state: Link)
        requires
            old(graph)@.len() + 1 <= u32::MAX,
        ensures
            extends(old(graph)@, final(graph)@),
            keeps_structure(old(graph)@, final(graph)@),
            final(graph)@.len() <= old(graph)@.len() + 1,
            final(self).loads@.len() == 0,
            final(self).store == old(self).store,
            final(self).offset == old(self).offset,
            final(self).io == old(self).io,
            final(self).ask == old(self).ask,
            final(self).tell == old(self).tell,
            final(self).blocks == old(self).blocks,
            old(self).loads@.len() == 0 ==> state == old(self).store && final(graph)@ == old(graph)@,
            old(self).loads@.len() == 1 ==> state == old(self).loads@[0] && final(graph)@ == old(graph)@,
            old(self).loads@.len() > 1 ==> {
                &&& state == Link(old(graph)@.len() as u32, 0)
                &&& final(graph)@ == old(graph)@.push(Node::Fence(Fence { sources: old(self).loads }))
            },
    {
        let mut sources: Vec<Link> = Vec::new();
        std::mem::swap(&mut sources, &mut self.loads);
        proof {
            lemma_keeps_refl(graph@);
            assert(extends(graph@, graph@));
        }
        if sources.len() == 1 {
            sources[0]
        } else if sources.len() == 0 {
            self.store
        } else {
            let ghost before = graph@;
            let fence = Fence::add_into(graph, sources);
            proof {
                lemma_extends_push(before, graph@.last());
                lemma_keeps_push(before, graph@.last());
                assert(graph@ =~= before.push(graph@.last()));
            }
            Link(fence, 0)
        }
    }

    fn do_load(&mut self, graph: &mut DataFlowGraph) -> (result: Link)
        requires
            old(graph)@.len() + 1 <= u32::MAX,
        ensures
            final(graph)@ == old(graph)@.push(
                Node::MemoryLoad(
                    MemoryLoad {
                        source: Location { reference: old(self).store, offset: old(self).offset },
                        offset: 0,
                        kind: LoadType::I32,
                    },
                ),
            ),
            result == Link(old(graph)@.len() as u32, MemoryLoad::RESULT_PORT),
            final(self).loads@ == old(self).loads@.push(Link(old(graph)@.len() as u32, MemoryLoad::STATE_PORT)),
            final(self).store == old(self).store,
            final(self).offset == old(self).offset,
            final(self).io == old(self).io,
            final(self).ask == old(self).ask,
            final(self).tell == old(self).tell,
            final(self).blocks == old(self).blocks,
    {
        let source = Location { reference: self.store, offset: self.offset };
        let (result, state) = MemoryLoad::add_into(graph, source, 0, LoadType::I32);

        self.loads.push(state);

        result
    }

    fn do_store(&mut self, graph: &mut DataFlowGraph, source: Link)
        requires
            old(graph)@.len() + 2 <= u32::MAX,
        ensures
            extends(old(graph)@, final(graph)@),
            keeps_structure(old(graph)@, final(graph)@),
            old(graph)@.len() + 1 <= final(graph)@.len() <= old(graph)@.len() + 2,
            final(self).loads@.len() == 0,
            final(self).store == Link((final(graph)@.len() - 1) as u32, MemoryStore::STATE_PORT),
            final(graph)@.last() matches Node::MemoryStore(store) && store.source == source
                && store.destination.offset == old(self).offset,
            final(self).offset == old(self).offset,
            final(self).io == old(self).io,
            final(self).ask == old(self).ask,
            final(self).tell == old(self).tell,
            final(self).blocks == old(self).blocks,
    {
        let ghost start = graph@;
        let reference = self.reconcile_store(graph);
        let destination = Location { reference, offset: self.offset };
        let ghost before = graph@;

        self.store = MemoryStore::add_into(graph, destination, source, 0, StoreType::I32);
        proof {
            lemma_extends_push(before, graph@.last());
            lemma_extends_trans(start, before, graph@);
            lemma_keeps_push(before, graph@.last());
            assert(graph@ =~= before.push(graph@.last()));
            lemma_keeps_trans(start, before, graph@);
        }
    }

    fn do_condition(&mut self, graph: &mut DataFlowGraph) -> (condition: Link)
        requires
            old(graph)@.len() + 3 <= u32::MAX,
        ensures
            keeps_structure(old(graph)@, final(graph)@),
            final(graph)@.len() == old(graph)@.len() + 3,
            condition == Link((old(graph)@.len() + 2) as u32, 0),
            final(graph)@[(old(graph)@.len() + 2) as int] == Node::IntegerCompareOperation(
                IntegerCompareOperation {
                    lhs: Link(old(graph)@.len() as u32, MemoryLoad::RESULT_PORT),
                    rhs: Link((old(graph)@.len() + 1) as u32, 0),
                    kind: IntegerType::I32,
                    operator: IntegerCompareOperator::NotEqual,
                },
            ),
            final(graph)@[(old(graph)@.len() + 1) as int] == Node::I32(0),
            final(self).loads@.len() == old(self).loads@.len() + 1,
            final(self).store == old(self).store,
            final(self).offset == old(self).offset,
            final(self).io == old(self).io,
            final(self).ask == old(self).ask,
            final(self).tell == old(self).tell,
            final(self).blocks == old(self).blocks,
    {
        let ghost start = graph@;
        let lhs = self.do_load(graph);
        let rhs = Node::add_i32_into(graph, 0);
        let condition = IntegerCompareOperation::add_into(
            graph,
            lhs,
            rhs,
            IntegerType::I32,
            IntegerCompareOperator::NotEqual,
        );
        proof {
            assert forall|j: int| 0 <= j < start.len() implies #[trigger] kept(start[j], graph@[j]) by {
                assert(graph@[j] == start[j]);
            }
        }
        condition
    }

    fn handle_offset_operation(&mut self, graph: &mut DataFlowGraph, operator: IntegerBinaryOperator)
        requires
            old(graph)@.len() + 2 <= u32::MAX,
        ensures
            final(graph)@ == old(graph)@.push(Node::I32(CELL_SIZE as i32)).push(
                Node::IntegerBinaryOperation(
                    IntegerBinaryOperation {
                        lhs: old(self).offset,
                        rhs: Link(old(graph)@.len() as u32, 0),
                        kind: IntegerType::I32,
                        operator,
                    },
                ),
            ),
            final(self).offset == Link((old(graph)@.len() + 1) as u32, 0),
            final(self).loads == old(self).loads,
            final(self).store == old(self).store,
            final(self).io == old(self).io,
            final(self).ask == old(self).ask,
            final(self).tell == old(self).tell,
            final(self).blocks == old(self).blocks,
    {
        let rhs = Node::add_i32_into(graph, CELL_SIZE as i32);

        self.offset = IntegerBinaryOperation::add_into(graph, self.offset, rhs, IntegerType::I32, operator);
    }

    fn handle_memory_operation(&mut self, graph: &mut DataFlowGraph, operator: IntegerBinaryOperator)
        requires
            old(graph)@.len() + 5 <= u32::MAX,
        ensures
            keeps_structure(old(graph)@, final(graph)@),
            old(graph)@.len() + 4 <= final(graph)@.len() <= old(graph)@.len() + 5,
            reads_cell(final(graph)@[old(graph)@.len() as int], old(self).offset),
            writes_cell(
                final(graph)@.last(),
                Link((old(graph)@.len() + 2) as u32, 0),
                old(self).offset,
            ),
            final(graph)@[(old(graph)@.len() + 2) as int] == Node::IntegerBinaryOperation(
                IntegerBinaryOperation {
                    lhs: Link(old(graph)@.len() as u32, MemoryLoad::RESULT_PORT),
                    rhs: Link((old(graph)@.len() + 1) as u32, 0),
                    kind: IntegerType::I32,
                    operator,
                },
            ),
            final(graph)@[(old(graph)@.len() + 1) as int] == Node::I32(1),
            final(self).loads@.len() == 0,
            final(self).offset == old(self).offset,
            final(self).io == old(self).io,
            final(self).ask == old(self).ask,
            final(self).tell == old(self).tell,
            final(self).blocks == old(self).blocks,
    {
        let ghost start = graph@;
        let lhs = self.do_load(graph);
        let rhs = Node::add_i32_into(graph, 1);
        let source = IntegerBinaryOperation::add_into(graph, lhs, rhs, IntegerType::I32, operator);
        let ghost before = graph@;
        proof {
            assert forall|j: int| 0 <= j < start.len() implies #[trigger] kept(start[j], before[j]) by {
                assert(before[j] == start[j]);
            }
        }

        self.do_store(graph, source);
        proof {
            lemma_keeps_trans(start, before, graph@);
            assert(graph@[(start.len() + 2) as int] == before[(start.len() + 2) as int]);
            assert(graph@[(start.len() + 1) as int] == before[(start.len() + 1) as int]);
            assert(graph@[start.len() as int] == before[start.len() as int]);
        }
    }

    fn handle_ask(&mut self, graph: &mut DataFlowGraph)
        requires
            old(graph)@.len() + 3 <= u32::MAX,
        ensures
            keeps_structure(old(graph)@, final(graph)@),
            old(graph)@.len() + 2 <= final(graph)@.len() <= old(graph)@.len() + 3,
            writes_cell(final(graph)@.last(), Link(old(graph)@.len() as u32, 1), old(self).offset),
            final(graph)@[old(graph)@.len() as int] matches Node::Apply(apply) && apply.function
                == old(self).ask && apply.arguments@ == seq![old(self).io] && apply.results == 2,
            final(self).io == Link(old(graph)@.len() as u32, 0),
            final(self).loads@.len() == 0,
            final(self).offset == old(self).offset,
            final(self).ask == old(self).ask,
            final(self).tell == old(self).tell,
            final(self).blocks == old(self).blocks,
    {
        let ghost start = graph@;
        let arguments = vec![self.io];
        let apply = Apply::add_into(graph, self.ask, arguments, 2);
        let ghost before = graph@;

        self.io = Link(apply, 0);

        self.do_store(graph, Link(apply, 1));
        proof {
            lemma_keeps_push(start, before.last());
            assert(before =~= start.push(before.last()));
            lemma_keeps_trans(start, before, graph@);
            assert(graph@[start.len() as int] == before[start.len() as int]);
        }
    }

    fn handle_tell(&mut self, graph: &mut DataFlowGraph)
        requires
            old(graph)@.len() + 2 <= u32::MAX,
        ensures
            keeps_structure(old(graph)@, final(graph)@),
            final(graph)@.len() == old(graph)@.len() + 2,
            reads_cell(final(graph)@[old(graph)@.len() as int], old(self).offset),
            final(graph)@[(old(graph)@.len() + 1) as int] matches Node::Apply(apply) && apply.function
                == old(self).tell && apply.arguments@ == seq![
                old(self).io,
                Link(old(graph)@.len() as u32, MemoryLoad::RESULT_PORT),
            ] && apply.results == 1,
            final(self).io == Link((old(graph)@.len() + 1) as u32, 0),
            final(self).loads@.len() == old(self).loads@.len() + 1,
            final(self).store == old(self).store,
            final(self).offset == old(self).offset,
            final(self).ask == old(self).ask,
            final(self).tell == old(self).tell,
            final(self).blocks == old(self).blocks,
    {
        let ghost start = graph@;
        let source = self.do_load(graph);
        let arguments = vec![self.io, source];
        let apply = Apply::add_into(graph, self.tell, arguments, 1);

        self.io = Link(apply, 0);
        proof {
            assert forall|j: int| 0 <= j < start.len() implies #[trigger] kept(start[j], graph@[j]) by {
                assert(graph@[j] == start[j]);
            }
        }
    }

    fn pull_all_active(&mut self, graph: &mut DataFlowGraph) -> (active: Vec<Link>)
        requires
            old(graph)@.len() + 1 <= u32::MAX,
        ensures
            keeps_structure(old(graph)@, final(graph)@),
            final(graph)@.len() <= old(graph)@.len() + 1,
            active@.len() == 5,
            active@[1] == old(self).offset,
            active@[2] == old(self).io,
            active@[3] == old(self).ask,
            active@[4] == old(self).tell,
            final(self).loads@.len() == 0,
            final(self).store == old(self).store,
            final(self).offset == old(self).offset,
            final(self).io == old(self).io,
            final(self).ask == old(self).ask,
            final(self).tell == old(self).tell,
            final(self).blocks == old(self).blocks,
    {
        let store = self.reconcile_store(graph);

        vec![store, self.offset, self.io, self.ask, self.tell]
    }

    fn push_all_active(&mut self, source: u32)
        ensures
            final(self).store == Link(source, 0),
            final(self).offset == Link(source, 1),
            final(self).ask == Link(source, 2),
            final(self).io == Link(source, 3),
            final(self).tell == Link(source, 4),
            final(self).loads == old(self).loads,
            final(self).blocks == old(self).blocks,
    {
        self.store = Link(source, 0);
        self.offset = Link(source, 1);
        self.io = Link(source, 3);
        self.ask = Link(source, 2);
        self.tell = Link(source, 4);
    }

    fn create_if_entry(&mut self, graph: &mut DataFlowGraph) -> (gamma_in: u32)
        requires
            old(graph)@.len() + 5 <= u32::MAX,
        ensures
            keeps_structure(old(graph)@, final(graph)@),
            final(graph)@.len() <= old(graph)@.len() + 5,
            gamma_in + 1 == final(graph)@.len(),
            final(graph)@[gamma_in as int] is GammaIn,
            final(self).blocks == old(self).blocks,
    {
        let ghost start = graph@;
        let condition = self.do_condition(graph);
        let ghost middle = graph@;
        let arguments = self.pull_all_active(graph);
        let ghost before = graph@;
        let gamma_in = GammaIn::add_into(graph, arguments, condition);
        proof {
            lemma_keeps_trans(start, middle, before);
            lemma_keeps_push(before, graph@.last());
            assert(graph@ =~= before.push(graph@.last()));
            lemma_keeps_trans(start, before, graph@);
        }
        gamma_in
    }

    fn create_true_entry(&mut self, graph: &mut DataFlowGraph, gamma_in: u32) -> (region_in: u32)
        requires
            old(graph)@.len() + 1 <= u32::MAX,
        ensures
            final(graph)@ == old(graph)@.push(Node::RegionIn(RegionIn { input: gamma_in, output: u32::MAX })),
            region_in == old(graph)@.len(),
            final(self).store == Link(region_in, 0),
            final(self).blocks == old(self).blocks,
            final(self).loads == old(self).loads,
    {
        let region_in = RegionIn::add_into(graph, gamma_in);

        self.push_all_active(region_in);

        region_in
    }

    fn create_repeat_entry(&mut self, graph: &mut DataFlowGraph) -> (theta_in: u32)
        requires
            old(graph)@.len() + 2 <= u32::MAX,
        ensures
            keeps_structure(old(graph)@, final(graph)@),
            final(graph)@.len() <= old(graph)@.len() + 2,
            theta_in + 1 == final(graph)@.len(),
            final(graph)@[theta_in as int] is ThetaIn,
            final(self).blocks == old(self).blocks,
    {
        let ghost start = graph@;
        let arguments = self.pull_all_active(graph);
        let ghost before = graph@;
        let theta_in = ThetaIn::add_into(graph, arguments);
        proof {
            lemma_keeps_push(before, graph@.last());
            assert(graph@ =~= before.push(graph@.last()));
            lemma_keeps_trans(start, before, graph@);
        }

        self.push_all_active(theta_in);

        theta_in
    }

    fn handle_block_start(&mut self, graph: &mut DataFlowGraph)
        requires
            old(graph)@.len() + 8 <= u32::MAX,
            old(self).fits(old(graph)@),
        ensures
            keeps_structure(old(graph)@, final(graph)@),
            final(graph)@.len() <= old(graph)@.len() + 8,
            final(self).blocks@.len() == old(self).blocks@.len() + 1,
            final(self).blocks@.subrange(0, old(self).blocks@.len() as int) == old(self).blocks@,
            final(self).fits(final(graph)@),
    {
        let ghost start = graph@;
        let gamma = self.create_if_entry(graph);
        let ghost first = graph@;
        let region = self.create_true_entry(graph, gamma);
        let ghost second = graph@;
        let theta = self.create_repeat_entry(graph);
        proof {
            lemma_keeps_push(first, second.last());
            assert(second =~= first.push(second.last()));
            lemma_keeps_trans(start, first, second);
            lemma_keeps_trans(start, second, graph@);
            lemma_blocks_kept(self.blocks@, start, graph@);
            assert(kept(first[gamma as int], graph@[gamma as int])) by {
                lemma_keeps_trans(first, second, graph@);
            }
            assert(kept(second[region as int], graph@[region as int]));
        }

        self.blocks.push(Block { gamma, region, theta });
        proof {
            assert(self.blocks@.subrange(0, old(self).blocks@.len() as int) =~= old(self).blocks@);
        }
    }

    fn create_repeat_exit(&mut self, graph: &mut DataFlowGraph, theta_in: u32)
        requires
            old(graph)@.len() + 5 <= u32::MAX,
            theta_in < old(graph)@.len(),
            old(graph)@[theta_in as int] is ThetaIn,
        ensures
            keeps_structure(old(graph)@, final(graph)@),
            old(graph)@.len() + 4 <= final(graph)@.len() <= old(graph)@.len() + 5,
            final(graph)@.last() matches Node::ThetaOut(out) && out.input == theta_in && out.condition == Link(
                (old(graph)@.len() + 2) as u32,
                0,
            ) && out.results@.len() == 5 && out.results@[1] == old(self).offset && out.results@[2] == old(self).io
                && out.results@[3] == old(self).ask && out.results@[4] == old(self).tell,
            final(self).store == Link((final(graph)@.len() - 1) as u32, 0),
            final(self).offset == Link((final(graph)@.len() - 1) as u32, 1),
            final(self).ask == Link((final(graph)@.len() - 1) as u32, 2),
            final(self).io == Link((final(graph)@.len() - 1) as u32, 3),
            final(self).tell == Link((final(graph)@.len() - 1) as u32, 4),
            final(self).blocks == old(self).blocks,
    {
        let ghost start = graph@;
        let condition = self.do_condition(graph);
        let ghost first = graph@;
        let results = self.pull_all_active(graph);
        let ghost second = graph@;
        proof {
            lemma_keeps_trans(start, first, second);
            assert(kept(start[theta_in as int], second[theta_in as int]));
        }
        let theta_out = ThetaOut::add_into(graph, theta_in, results, condition);
        proof {
            lemma_keeps_output(second, graph@.last(), theta_in as int, theta_out);
            assert(graph@ =~= second.push(graph@.last()).update(
                theta_in as int,
                second[theta_in as int].with_output(theta_out),
            ));
            lemma_keeps_trans(start, second, graph@);
            assert(graph@.last() == Node::ThetaOut(ThetaOut { input: theta_in, results, condition }));
        }

        self.push_all_active(theta_out);
    }

    fn create_true_exit(&mut self, graph: &mut DataFlowGraph, region_in: u32) -> (region_out: u32)
        requires
            old(graph)@.len() + 2 <= u32::MAX,
            region_in < old(graph)@.len(),
            old(graph)@[region_in as int] is RegionIn,
        ensures
            keeps_structure(old(graph)@, final(graph)@),
            final(graph)@.len() <= old(graph)@.len() + 2,
            region_out + 1 == final(graph)@.len(),
            old(graph)@.len() <= region_out,
            final(graph)@[region_out as int] is RegionOut,
            final(self).blocks == old(self).blocks,
    {
        let ghost start = graph@;
        let results = self.pull_all_active(graph);
        let ghost before = graph@;
        proof {
            assert(kept(start[region_in as int], before[region_in as int]));
        }
        let region_out = RegionOut::add_into(graph, region_in, results);
        proof {
            lemma_keeps_output(before, graph@.last(), region_in as int, region_out);
            assert(graph@ =~= before.push(graph@.last()).update(
                region_in as int,
                before[region_in as int].with_output(region_out),
            ));
            lemma_keeps_trans(start, before, graph@);
        }
        region_out
    }

    fn create_false_case(&mut self, graph: &mut DataFlowGraph, gamma_in: u32) -> (region_out: u32)
        requires
            old(graph)@.len() + 3 <= u32::MAX,
        ensures
            keeps_structure(old(graph)@, final(graph)@),
            final(graph)@.len() <= old(graph)@.len() + 3,
            region_out + 1 == final(graph)@.len(),
            old(graph)@.len() + 1 <= region_out,
            final(graph)@[region_out as int] is RegionOut,
            final(self).blocks == old(self).blocks,
    {
        let ghost start = graph@;
        let region_in = RegionIn::add_into(graph, gamma_in);
        let ghost first = graph@;

        self.push_all_active(region_in);
        let results = self.pull_all_active(graph);
        let ghost before = graph@;
        proof {
            lemma_keeps_push(start, first.last());
            assert(first =~= start.push(first.last()));
            lemma_keeps_trans(start, first, before);
            assert(kept(first[region_in as int], before[region_in as int]));
        }
        let region_out = RegionOut::add_into(graph, region_in, results);
        proof {
            lemma_keeps_output(before, graph@.last(), region_in as int, region_out);
            assert(graph@ =~= before.push(graph@.last()).update(
                region_in as int,
                before[region_in as int].with_output(region_out),
            ));
            lemma_keeps_trans(start, before, graph@);
        }
        region_out
    }

    fn create_if_exit(&mut self, graph: &mut DataFlowGraph, region_in: u32, gamma_in: u32)
        requires
            old(graph)@.len() + 6 <= u32::MAX,
            region_in < old(graph)@.len(),
            old(graph)@[region_in as int] is RegionIn,
            gamma_in < old(graph)@.len(),
            old(graph)@[gamma_in as int] is GammaIn,
        ensures
            keeps_structure(old(graph)@, final(graph)@),
            old(graph)@.len() + 4 <= final(graph)@.len() <= old(graph)@.len() + 6,
            final(graph)@.last() matches Node::GammaOut(out) && out.input == gamma_in && out.regions@.len() == 2
                && old(graph)@.len() <= out.regions@[1] < out.regions@[0] < final(graph)@.len() - 1,
            final(self).store == Link((final(graph)@.len() - 1) as u32, 0),
            final(self).offset == Link((final(graph)@.len() - 1) as u32, 1),
            final(self).ask == Link((final(graph)@.len() - 1) as u32, 2),
            final(self).io == Link((final(graph)@.len() - 1) as u32, 3),
            final(self).tell == Link((final(graph)@.len() - 1) as u32, 4),
            final(self).blocks == old(self).blocks,
    {
        let ghost start = graph@;
        let on_true = self.create_true_exit(graph, region_in);
        let ghost first = graph@;
        let on_false = self.create_false_case(graph, gamma_in);
        let ghost before = graph@;
        proof {
            lemma_keeps_trans(start, first, before);
            assert(kept(start[gamma_in as int], before[gamma_in as int]));
            assert(kept(first[on_true as int], before[on_true as int]));
        }
        let regions = vec![on_false, on_true];
        let gamma_out = GammaOut::add_into(graph, gamma_in, regions);
        proof {
            lemma_keeps_gamma(before, gamma_in, seq![on_false, on_true], gamma_out, graph@.last());
            assert(regions@ =~= seq![on_false, on_true]);
            lemma_keeps_trans(start, before, graph@);
        }

        self.push_all_active(gamma_out);
    }

    fn handle_block_end(&mut self, graph: &mut DataFlowGraph)
        requires
            old(graph)@.len() + 11 <= u32::MAX,
            old(self).fits(old(graph)@),
            old(self).blocks@.len() > 0,
        ensures
            keeps_structure(old(graph)@, final(graph)@),
            final(graph)@.len() <= old(graph)@.len() + 11,
            final(self).blocks@ == old(self).blocks@.drop_last(),
            final(self).fits(final(graph)@),
    {
        let ghost start = graph@;
        let block = self.blocks.pop().unwrap();
        proof {
            assert(block == old(self).blocks@.last());
            let k = old(self).blocks@.len() - 1;
            assert(old(self).blocks@[k] == block);
            assert(self.blocks@ =~= old(self).blocks@.drop_last());
            assert forall|i: int| 0 <= i < self.blocks@.len() implies #[trigger] self.blocks@[i]
                == old(self).blocks@[i] by {}
        }

        self.create_repeat_exit(graph, block.theta);
        let ghost middle = graph@;
        proof {
            assert(kept(start[block.region as int], middle[block.region as int]));
            assert(kept(start[block.gamma as int], middle[block.gamma as int]));
        }
        self.create_if_exit(graph, block.region, block.gamma);
        proof {
            lemma_keeps_trans(start, middle, graph@);
            lemma_blocks_kept(self.blocks@, start, graph@);
        }
    }

    #[verifier::rlimit(40)]
    fn handle_code(&mut self, graph: &mut DataFlowGraph, code: &[u8])
        requires
            old(graph)@.len() + 11 * code@.len() <= u32::MAX,
            never_unbalanced(code@),
        ensures
            keeps_structure(old(graph)@, final(graph)@),
            final(graph)@.len() <= old(graph)@.len() + 11 * code@.len(),
            final(self).blocks@.len() == depth(code@, code@.len() as int),
            exists|marks: Seq<int>, offsets: Seq<Link>|
                {
                    &&& program_lifted(final(graph)@, code@, marks, offsets)
                    &&& marks[0] == old(graph)@.len()
                    &&& marks[code@.len() as int] == final(graph)@.len()
                    &&& forall|k: int| 0 <= k <= code@.len() ==> old(graph)@.len() <= #[trigger] marks[k]
                    &&& offsets[0] == old(self).offset
                },
    {
        self.blocks.clear();
        let ghost start = graph@;
        let ghost offset = self.offset;
        let ghost mut marks: Seq<int> = seq![start.len() as int];
        let ghost mut offsets: Seq<Link> = seq![offset];
        proof {
            lemma_keeps_refl(start);
        }
        let mut i: usize = 0;
        while i < code.len()
            invariant
                i <= code@.len(),
                start.len() + 11 * code@.len() <= u32::MAX,
                never_unbalanced(code@),
                keeps_structure(start, graph@),
                graph@.len() <= start.len() + 11 * i,
                self.blocks@.len() == depth(code@, i as int),
                self.fits(graph@),
                marks.len() == i + 1,
                offsets.len() == i + 1,
                marks[0] == start.len(),
                offsets[0] == offset,
                marks[i as int] == graph@.len(),
                forall|k: int| 0 <= k <= i ==> start.len() <= #[trigger] marks[k],
                offsets[i as int] == self.offset,
                forall|k: int| 0 <= k < i ==> #[trigger] lifted_at(graph@, code@, marks, offsets, k),
            decreases code@.len() - i,
        {
            let ghost before = graph@;
            let ghost head = self.offset;
            let character = code[i];
            assert(depth(code@, i + 1) >= 0);
            if character == 0x3E {
                self.handle_offset_operation(graph, IntegerBinaryOperator::Add);
                proof {
                    lemma_keeps_push(before, graph@[before.len() as int]);
                    lemma_keeps_push(before.push(graph@[before.len() as int]), graph@.last());
                    assert(graph@ =~= before.push(graph@[before.len() as int]).push(graph@.last()));
                    lemma_keeps_trans(before, before.push(graph@[before.len() as int]), graph@);
                    assert(command_lifted(graph@, character, before.len() as int, graph@.len() as int, head, self.offset));
                }
            } else if character == 0x3C {
                self.handle_offset_operation(graph, IntegerBinaryOperator::Subtract);
                proof {
                    lemma_keeps_push(before, graph@[before.len() as int]);
                    lemma_keeps_push(before.push(graph@[before.len() as int]), graph@.last());
                    assert(graph@ =~= before.push(graph@[before.len() as int]).push(graph@.last()));
                    lemma_keeps_trans(before, before.push(graph@[before.len() as int]), graph@);
                    assert(command_lifted(graph@, character, before.len() as int, graph@.len() as int, head, self.offset));
                }
            } else if character == 0x2B {
                self.handle_memory_operation(graph, IntegerBinaryOperator::Add);
                assert(command_lifted(graph@, character, before.len() as int, graph@.len() as int, head, self.offset));
            } else if character == 0x2D {
                self.handle_memory_operation(graph, IntegerBinaryOperator::Subtract);
                assert(command_lifted(graph@, character, before.len() as int, graph@.len() as int, head, self.offset));
            } else if character == 0x2C {
                self.handle_ask(graph);
                assert(command_lifted(graph@, character, before.len() as int, graph@.len() as int, head, self.offset));
            } else if character == 0x2E {
                self.handle_tell(graph);
                assert(command_lifted(graph@, character, before.len() as int, graph@.len() as int, head, self.offset));
            } else if character == 0x5B {
                self.handle_block_start(graph);
            } else if character == 0x5D {
                self.handle_block_end(graph);
            } else {
                proof {
                    lemma_keeps_refl(graph@);
                }
            }
            proof {
                assert(command_lifted(graph@, character, before.len() as int, graph@.len() as int, head, self.offset));
                lemma_keeps_trans(start, before, graph@);
                if character != 0x5B && character != 0x5D {
                    lemma_blocks_kept(self.blocks@, before, graph@);
                }
                let old_marks = marks;
                let old_offsets = offsets;
                marks = marks.push(graph@.len() as int);
                offsets = offsets.push(self.offset);
                assert forall|k: int| 0 <= k < i + 1 implies #[trigger] lifted_at(graph@, code@, marks, offsets, k) by {
                    if k < i {
                        assert(lifted_at(before, code@, old_marks, old_offsets, k));
                        lemma_lifted_kept(
                            before,
                            graph@,
                            code@[k],
                            old_marks[k],
                            old_marks[k + 1],
                            old_offsets[k],
                            old_offsets[k + 1],
                        );
                        assert(marks[k] == old_marks[k]);
                        assert(marks[k + 1] == old_marks[k + 1]);
                        assert(offsets[k] == old_offsets[k]);
                        assert(offsets[k + 1] == old_offsets[k + 1]);
                    } else {
                        assert(marks[k] == before.len());
                        assert(offsets[k] == head);
                    }
                }
            }
            i = i + 1;
        }
        assert(program_lifted(graph@, code@, marks, offsets));
    }

    /// Compiles `source` into `graph` and returns the omega output node that
    /// closes the program.
    ///
    /// The program's blocks must never close more than they opened, and the
    /// graph must have room for the at most eleven nodes a character adds.
    pub fn run(&mut self, graph: &mut DataFlowGraph, source: &str) -> (omega_out: u32)
        requires
            old(graph)@.len() + 6 + 11 * source.spec_bytes().len() <= u32::MAX,
            never_unbalanced(source.spec_bytes()),
        ensures
            keeps_structure(old(graph)@, final(graph)@),
            omega_out + 1 == final(graph)@.len(),
            final(graph)@[old(graph)@.len() as int] == Node::OmegaIn(OmegaIn { output: omega_out }),
            final(graph)@[omega_out as int] matches Node::OmegaOut(node) && node.input == old(graph)@.len()
                && node.exports@.len() == 0,
            final(self).open_blocks() == depth(source.spec_bytes(), source.spec_bytes().len() as int),
            final(graph)@[old(graph)@.len() + 2int] == Node::I32(0),
            exists|marks: Seq<int>, offsets: Seq<Link>|
                {
                    &&& program_lifted(final(graph)@, source.spec_bytes(), marks, offsets)
                    &&& marks[0] == old(graph)@.len() + 5
                    &&& marks[source.spec_bytes().len() as int] == omega_out
                    &&& offsets[0] == Link((old(graph)@.len() + 2) as u32, 0)
                },
    {
        let ghost start = graph@;
        let omega_in = OmegaIn::add_into(graph);
        let ghost first = graph@;

        self.create_memory(graph);
        let ghost second = graph@;
        self.create_io(graph, omega_in);
        let ghost third = graph@;
        let code = source.as_bytes();
        self.handle_code(graph, code);
        let ghost fourth = graph@;
        proof {
            lemma_keeps_push(start, first.last());
            assert(first =~= start.push(first.last()));
            assert forall|j: int| 0 <= j < first.len() implies #[trigger] kept(first[j], second[j]) by {
                assert(second[j] == second.subrange(0, first.len() as int)[j]);
            }
            lemma_keeps_trans(first, second, third);
            lemma_keeps_trans(first, third, fourth);
            assert(kept(first[omega_in as int], fourth[omega_in as int]));
        }
        let exports: Vec<crate::graph::control::Export> = Vec::new();
        let omega_out = OmegaOut::add_into(graph, omega_in, self.io, exports);
        proof {
            let bytes = source.spec_bytes();
            let (marks, offsets) = choose|marks: Seq<int>, offsets: Seq<Link>|
                {
                    &&& program_lifted(fourth, bytes, marks, offsets)
                    &&& marks[0] == third.len()
                    &&& marks[bytes.len() as int] == fourth.len()
                    &&& forall|k: int| 0 <= k <= bytes.len() ==> third.len() <= #[trigger] marks[k]
                    &&& offsets[0] == Link((start.len() + 2) as u32, 0)
                };
            assert forall|j: int| third.len() <= j < fourth.len() implies graph@[j] == fourth[j] by {}
            assert forall|k: int| 0 <= k < bytes.len() implies #[trigger] lifted_at(graph@, bytes, marks, offsets, k) by {
                assert(lifted_at(fourth, bytes, marks, offsets, k));
                assert(third.len() <= marks[k]);
                lemma_lifted_same(
                    fourth,
                    graph@,
                    third.len() as int,
                    bytes[k],
                    marks[k],
                    marks[k + 1],
                    offsets[k],
                    offsets[k + 1],
                );
            }
            assert(program_lifted(graph@, bytes, marks, offsets));
            lemma_keeps_trans(second, third, fourth);
            assert(kept(second[start.len() + 2int], fourth[start.len() + 2int]));
            assert(graph@[start.len() + 2int] == fourth[start.len() + 2int]);
            lemma_keeps_trans(start, first, fourth);
            assert forall|j: int| 0 <= j < start.len() implies #[trigger] kept(start[j], graph@[j]) by {
                assert(kept(start[j], fourth[j]));
                assert(graph@[j] == fourth[j]);
            }
        }
        omega_out
    }
}

impl Default for TuringMachineLifter {
    fn default() -> (lifter: Self)
        ensures
            lifter.open_blocks() == 0,
    {
        TuringMachineLifter::new()
    }
}

} // verus!
