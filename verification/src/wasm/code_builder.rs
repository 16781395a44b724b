//! Emits the register instructions of a function and cuts them into basic
//! blocks, wiring the jumps between the blocks.

use vstd::prelude::*;

use crate::wasm::{
    graph::{block_views, BasicBlock, BlockView, ControlFlowGraph},
    instruction::{
        Call, DataDrop, ElementsDrop, ExtendType, F32Constant, F64Constant, GlobalGet, GlobalSet, I32Constant,
        I64Constant, Instruction, IntegerBinaryOperation, IntegerBinaryOperator, IntegerCompareOperation,
        IntegerCompareOperator, IntegerConvertToNumber, IntegerExtend, IntegerNarrow, IntegerTransmuteToNumber,
        IntegerType, IntegerUnaryOperation, IntegerUnaryOperator, IntegerWiden, LoadType, LocalBranch, LocalSet,
        Location, MemoryCopy, MemoryFill, MemoryGrow, MemoryInit, MemoryLoad, MemorySize, MemoryStore,
        NumberBinaryOperation, NumberBinaryOperator, NumberCompareOperation, NumberCompareOperator, NumberNarrow,
        NumberTransmuteToInteger, NumberTruncateToInteger, NumberType, NumberUnaryOperation, NumberUnaryOperator,
        NumberWiden, RefFunction, RefIsNull, RefNull, StoreType, TableCopy, TableFill, TableGet, TableGrow,
        TableInit, TableSet, TableSize,
    },
    stack_builder::{Jump, Level, SHARED_LOCAL},
};

verus! {

/// The model of a code builder: the instructions emitted, the blocks cut so
/// far, and the first instruction of the block still open.
#[verifier::ext_equal]
pub struct BuilderView {
    pub instructions: Seq<Instruction>,
    pub blocks: Seq<BlockView>,
    pub position: u32,
}

/// `v` with `code` emitted at the end of the open block.
pub open spec fn emitted(v: BuilderView, code: Seq<Instruction>) -> BuilderView {
    BuilderView { instructions: v.instructions + code, blocks: v.blocks, position: v.position }
}

/// `v` with the open block closed: the new block holds the instructions
/// since the last cut, jumps along each of its `successors` branches to the
/// block after it, and a new block opens after it.
pub open spec fn closed_block(v: BuilderView, successors: nat) -> BuilderView {
    BuilderView {
        instructions: v.instructions,
        blocks: v.blocks.push(
            BlockView {
                predecessors: Seq::empty(),
                successors: Seq::new(successors, |_i: int| (v.blocks.len() + 1) as u16),
                start: v.position,
                end: v.instructions.len() as u32,
            },
        ),
        position: v.instructions.len() as u32,
    }
}

/// Whether block `source` of `v` has a branch `branch`.
pub open spec fn can_jump(v: BuilderView, source: int, branch: int) -> bool {
    0 <= source < v.blocks.len() && 0 <= branch < v.blocks[source].successors.len()
}

/// `v` with branch `branch` of block `source` sent to block `destination`.
pub open spec fn jumped(v: BuilderView, source: int, branch: int, destination: u16) -> BuilderView {
    let block = v.blocks[source];
    BuilderView {
        instructions: v.instructions,
        blocks: v.blocks.update(
            source,
            BlockView {
                predecessors: block.predecessors,
                successors: block.successors.update(branch, destination),
                start: block.start,
                end: block.end,
            },
        ),
        position: v.position,
    }
}

/// The instruction setting register `destination` to register `source`.
pub open spec fn set(destination: u16, source: u16) -> Instruction {
    Instruction::LocalSet(LocalSet { destination, source })
}

/// The moves of `count` consecutive registers from `source` to
/// `destination`, ordered so that no register is overwritten before it is
/// read: upwards when moving down, downwards when moving up.
pub open spec fn local_sets(destination: u16, source: u16, count: u16) -> Seq<Instruction> {
    if destination <= source {
        Seq::new(count as nat, |k: int| set((destination + k) as u16, (source + k) as u16))
    } else {
        Seq::new(count as nat, |k: int| set((destination + count - 1 - k) as u16, (source + count - 1 - k) as u16))
    }
}

/// Whether `count` registers from `destination` and from `source` are all
/// numbered within `u16`.
pub open spec fn sets_fit(destination: u16, source: u16, count: u16) -> bool {
    destination + count <= u16::MAX + 1 && source + count <= u16::MAX + 1
}

/// Whether moving the top `count` values of a stack of height `top` down to
/// `base` takes any instruction: not when they are there already, nor when
/// the stack height is unknown, past the end of dead code.
pub open spec fn adjusts(base: u16, top: u16, count: u16) -> bool {
    base != vstd::wrapping::u16_specs::wrapping_sub(top, count) && top != u16::MAX
}

/// Whether such a move, when it takes instructions, uses registers within
/// `u16`.
pub open spec fn adjustment_fits(base: u16, top: u16, count: u16) -> bool {
    adjusts(base, top, count) ==> sets_fit(base, vstd::wrapping::u16_specs::wrapping_sub(top, count), count)
}

/// `v` with the top `count` values of a stack of height `top` moved down to
/// `base`, when they need to be.
pub open spec fn adjusted(v: BuilderView, base: u16, top: u16, count: u16) -> BuilderView {
    if adjusts(base, top, count) {
        emitted(v, local_sets(base, vstd::wrapping::u16_specs::wrapping_sub(top, count), count))
    } else {
        v
    }
}

/// `v` with a branch on register `condition` emitted and the block closed
/// with two branches.
pub open spec fn if_begun(v: BuilderView, condition: u16) -> BuilderView {
    closed_block(emitted(v, seq![Instruction::LocalBranch(LocalBranch { source: condition })]), 2)
}

/// `v` with the code taken when the condition of block `condition_id` is
/// zero closed by block `false_id`, and the other code closed now: the
/// condition's zero branch goes to the block after it, its other branch to
/// the block after `false_id`, and both ends to the block after the last.
pub open spec fn if_ended(v: BuilderView, condition_id: u16, false_id: u16) -> BuilderView {
    let true_id = v.blocks.len();
    let w = closed_block(v, 1);
    jumped(
        jumped(jumped(w, condition_id as int, 0, (condition_id + 1) as u16), condition_id as int, 1, (false_id + 1) as u16),
        false_id as int,
        0,
        (true_id + 1) as u16,
    )
}

/// `v` with register `destination` set to `on_false` when `condition` is
/// zero and to `on_true` otherwise.
pub open spec fn selected(v: BuilderView, destination: u16, condition: u16, on_false: u16, on_true: u16) -> BuilderView {
    let condition_id = v.blocks.len() as u16;
    let w = emitted(if_begun(v, condition), seq![set(destination, on_false)]);
    let false_id = w.blocks.len() as u16;
    if_ended(emitted(closed_block(w, 1), seq![set(destination, on_true)]), condition_id, false_id)
}

/// The size of a memory page, in bytes.
pub open spec fn page_size() -> i32 {
    0x1_0000
}

/// The code combining `lhs` with the page size, which it loads into `rhs`,
/// by `operator` into `destination`.
pub open spec fn paged(destination: u16, lhs: u16, rhs: u16, operator: IntegerBinaryOperator) -> Seq<Instruction> {
    seq![
        Instruction::I32Constant(I32Constant { destination: rhs, data: page_size() }),
        Instruction::IntegerBinaryOperation(
            IntegerBinaryOperation { destination, lhs, rhs, kind: IntegerType::I32, operator },
        ),
    ]
}

/// The code comparing `lhs` with the constant `rhs`, which it loads into the
/// shared register, by `operator` into `destination`.
pub open spec fn compared_to_constant(destination: u16, lhs: u16, rhs: i32, operator: IntegerCompareOperator) -> Seq<
    Instruction,
> {
    seq![
        Instruction::I32Constant(I32Constant { destination: SHARED_LOCAL, data: rhs }),
        Instruction::IntegerCompareOperation(
            IntegerCompareOperation { destination, lhs, rhs: SHARED_LOCAL, kind: IntegerType::I32, operator },
        ),
    ]
}

/// The code reading the size of `memory` in pages into `destination`.
pub open spec fn paged_memory_size(destination: u16, memory: u16) -> Seq<Instruction> {
    seq![Instruction::MemorySize(MemorySize { destination, memory })] + paged(
        destination,
        destination,
        SHARED_LOCAL,
        IntegerBinaryOperator::Divide { signed: false },
    )
}

/// `v` with `memory` grown by `size` pages, its old size in pages, or -1
/// when it cannot grow, in `destination`.
pub open spec fn sized_memory_grown(v: BuilderView, destination: u16, memory: u16, size: u16) -> BuilderView {
    let w = emitted(
        v,
        paged(SHARED_LOCAL, size, SHARED_LOCAL, IntegerBinaryOperator::Multiply) + seq![
            Instruction::MemoryGrow(MemoryGrow { destination, memory, size: SHARED_LOCAL }),
        ] + compared_to_constant(SHARED_LOCAL, destination, -1i32, IntegerCompareOperator::Equal),
    );
    let condition_id = w.blocks.len() as u16;
    let x = emitted(
        if_begun(w, SHARED_LOCAL),
        paged(destination, destination, SHARED_LOCAL, IntegerBinaryOperator::Divide { signed: false }),
    );
    let false_id = x.blocks.len() as u16;
    if_ended(closed_block(x, 1), condition_id, false_id)
}

/// Growing a memory by `size` pages asks it for `size` times 65536 bytes: the
/// code loads the page size, multiplies the page count by it, and grows the
/// memory by that many bytes. The old size it gives back, unless the grow
/// failed with -1, is turned back into pages by an unsigned division by the
/// page size.
pub proof fn lemma_memory_grow_asks_for_bytes(v: BuilderView, destination: u16, memory: u16, size: u16)
    ensures
        sized_memory_grown(v, destination, memory, size).instructions == v.instructions + seq![
            Instruction::I32Constant(I32Constant { destination: SHARED_LOCAL, data: 65536i32 }),
            Instruction::IntegerBinaryOperation(
                IntegerBinaryOperation {
                    destination: SHARED_LOCAL,
                    lhs: size,
                    rhs: SHARED_LOCAL,
                    kind: IntegerType::I32,
                    operator: IntegerBinaryOperator::Multiply,
                },
            ),
            Instruction::MemoryGrow(MemoryGrow { destination, memory, size: SHARED_LOCAL }),
            Instruction::I32Constant(I32Constant { destination: SHARED_LOCAL, data: -1i32 }),
            Instruction::IntegerCompareOperation(
                IntegerCompareOperation {
                    destination: SHARED_LOCAL,
                    lhs: destination,
                    rhs: SHARED_LOCAL,
                    kind: IntegerType::I32,
                    operator: IntegerCompareOperator::Equal,
                },
            ),
            Instruction::LocalBranch(LocalBranch { source: SHARED_LOCAL }),
            Instruction::I32Constant(I32Constant { destination: SHARED_LOCAL, data: 65536i32 }),
            Instruction::IntegerBinaryOperation(
                IntegerBinaryOperation {
                    destination,
                    lhs: destination,
                    rhs: SHARED_LOCAL,
                    kind: IntegerType::I32,
                    operator: IntegerBinaryOperator::Divide { signed: false },
                },
            ),
        ],
{
    let grown = sized_memory_grown(v, destination, memory, size);
    assert(grown.instructions =~= v.instructions + seq![
        Instruction::I32Constant(I32Constant { destination: SHARED_LOCAL, data: 65536i32 }),
        Instruction::IntegerBinaryOperation(
            IntegerBinaryOperation {
                destination: SHARED_LOCAL,
                lhs: size,
                rhs: SHARED_LOCAL,
                kind: IntegerType::I32,
                operator: IntegerBinaryOperator::Multiply,
            },
        ),
        Instruction::MemoryGrow(MemoryGrow { destination, memory, size: SHARED_LOCAL }),
        Instruction::I32Constant(I32Constant { destination: SHARED_LOCAL, data: -1i32 }),
        Instruction::IntegerCompareOperation(
            IntegerCompareOperation {
                destination: SHARED_LOCAL,
                lhs: destination,
                rhs: SHARED_LOCAL,
                kind: IntegerType::I32,
                operator: IntegerCompareOperator::Equal,
            },
        ),
        Instruction::LocalBranch(LocalBranch { source: SHARED_LOCAL }),
        Instruction::I32Constant(I32Constant { destination: SHARED_LOCAL, data: 65536i32 }),
        Instruction::IntegerBinaryOperation(
            IntegerBinaryOperation {
                destination,
                lhs: destination,
                rhs: SHARED_LOCAL,
                kind: IntegerType::I32,
                operator: IntegerBinaryOperator::Divide { signed: false },
            },
        ),
    ]);
}

/// Reading a memory's size in pages divides its size in bytes by 65536,
/// unsigned.
pub proof fn lemma_memory_size_counts_pages(destination: u16, memory: u16)
    ensures
        paged_memory_size(destination, memory) == seq![
            Instruction::MemorySize(MemorySize { destination, memory }),
            Instruction::I32Constant(I32Constant { destination: SHARED_LOCAL, data: 65536i32 }),
            Instruction::IntegerBinaryOperation(
                IntegerBinaryOperation {
                    destination,
                    lhs: destination,
                    rhs: SHARED_LOCAL,
                    kind: IntegerType::I32,
                    operator: IntegerBinaryOperator::Divide { signed: false },
                },
            ),
        ],
{
    assert(paged_memory_size(destination, memory) =~= seq![
        Instruction::MemorySize(MemorySize { destination, memory }),
        Instruction::I32Constant(I32Constant { destination: SHARED_LOCAL, data: 65536i32 }),
        Instruction::IntegerBinaryOperation(
            IntegerBinaryOperation {
                destination,
                lhs: destination,
                rhs: SHARED_LOCAL,
                kind: IntegerType::I32,
                operator: IntegerBinaryOperator::Divide { signed: false },
            },
        ),
    ]);
}

/// The largest number of pages a memory can grow to.
pub open spec fn page_limit() -> i32 {
    0xFFFF
}

/// `v` with `memory` grown by `size` pages when `size` is within the page
/// limit, and -1 in `destination` otherwise.
pub open spec fn paged_memory_grown(v: BuilderView, destination: u16, memory: u16, size: u16) -> BuilderView {
    let w = emitted(
        v,
        compared_to_constant(SHARED_LOCAL, size, page_limit(), IntegerCompareOperator::LessThanEqual { signed: false }),
    );
    let condition_id = w.blocks.len() as u16;
    let x = emitted(
        if_begun(w, SHARED_LOCAL),
        seq![Instruction::I32Constant(I32Constant { destination, data: -1i32 })],
    );
    let false_id = x.blocks.len() as u16;
    if_ended(sized_memory_grown(closed_block(x, 1), destination, memory, size), condition_id, false_id)
}

/// Whether `v` can take `blocks` more blocks and `instructions` more
/// instructions with their numbers within `u16` and `u32`.
pub open spec fn has_room(v: BuilderView, blocks: int, instructions: int) -> bool {
    v.blocks.len() + blocks <= u16::MAX && v.instructions.len() + instructions <= u32::MAX
}

/// `v` with the branch of each of `jumps` sent to block `destination`.
pub open spec fn jumps_to(v: BuilderView, jumps: Seq<Jump>, destination: u16) -> BuilderView
    decreases jumps.len(),
{
    if jumps.len() == 0 {
        v
    } else {
        jumped(jumps_to(v, jumps.drop_last(), destination), jumps.last().source as int, jumps.last().branch as int, destination)
    }
}

/// Whether each of `jumps` leaves from a branch of `v`.
pub open spec fn can_jump_all(v: BuilderView, jumps: Seq<Jump>) -> bool {
    forall|i: int| 0 <= i < jumps.len() ==> can_jump(v, #[trigger] jumps[i].source as int, jumps[i].branch as int)
}

/// `v` and `jump` once the `count` values the jump carries are moved down
/// to `base`: when that takes instructions they go into a block of their
/// own, the jump enters it, and it is the block that jumps on.
pub open spec fn adjusted_jump(v: BuilderView, base: u16, count: u16, jump: Jump) -> (BuilderView, Jump) {
    if adjusts(base, jump.stack, count) {
        let new_source = v.blocks.len() as u16;
        let w = closed_block(adjusted(v, base, jump.stack, count), 1);
        (jumped(w, jump.source as int, jump.branch as int, new_source), Jump { stack: jump.stack, source: new_source, branch: 0 })
    } else {
        (v, jump)
    }
}

/// `v` and `jumps` once each jump's values are moved down to `base`, in
/// order.
pub open spec fn adjusted_jumps(v: BuilderView, base: u16, count: u16, jumps: Seq<Jump>) -> (BuilderView, Seq<Jump>)
    decreases jumps.len(),
{
    if jumps.len() == 0 {
        (v, Seq::empty())
    } else {
        let (w, done) = adjusted_jumps(v, base, count, jumps.drop_last());
        let (x, last) = adjusted_jump(w, base, count, jumps.last());
        (x, done.push(last))
    }
}

/// Whether each of `jumps` moves its `count` values to `base` within `u16`.
pub open spec fn jumps_fit(base: u16, count: u16, jumps: Seq<Jump>) -> bool {
    forall|i: int| 0 <= i < jumps.len() ==> adjustment_fits(base, #[trigger] jumps[i].stack, count)
}

/// The number of values that the jumps of `level` carry: its parameters
/// when it loops back to a block, its results when it ends.
pub open spec fn carried(level: Level) -> u16 {
    if level.destination is Some {
        level.parameters
    } else {
        level.results
    }
}

/// `v` with the results of `level` moved from a stack of height `top` to its
/// base, an exit block closed, and the jumps to the level adjusted; with
/// those jumps.
pub open spec fn level_adjusted(v: BuilderView, level: Level, top: u16) -> (BuilderView, Seq<Jump>) {
    adjusted_jumps(closed_block(adjusted(v, level.base, top, level.results), 1), level.base, carried(level), level.jumps@)
}

/// `v` with `level` ended on a stack of height `top`: its results moved to
/// its base, an exit block closed, the jumps to the level adjusted and sent
/// to its destination or, without one, to the block after them, and the
/// exit sent to the block after everything.
pub open spec fn level_ended(v: BuilderView, level: Level, top: u16) -> BuilderView {
    let exit = adjusted(v, level.base, top, level.results).blocks.len() as int;
    let (x, jumps) = level_adjusted(v, level, top);
    let y = match level.destination {
        Some(destination) => jumps_to(x, jumps, destination),
        None => jumps_to(x, jumps, x.blocks.len() as u16),
    };
    jumped(y, exit, 0, y.blocks.len() as u16)
}

/// The number of times `target` occurs in `s`.
pub open spec fn count_of(s: Seq<u16>, target: u16) -> nat
    decreases s.len(),
{
    if s.len() == 0 {
        0
    } else {
        count_of(s.drop_last(), target) + if s.last() == target {
            1nat
        } else {
            0nat
        }
    }
}

/// The predecessors that the first `count` blocks of `blocks` give block
/// `target`: each block once per branch to `target`, in block order.
pub open spec fn incoming(blocks: Seq<BlockView>, target: u16, count: int) -> Seq<u16>
    decreases count,
{
    if count <= 0 {
        Seq::empty()
    } else {
        incoming(blocks, target, count - 1) + Seq::new(
            count_of(blocks[count - 1].successors, target),
            |_i: int| (count - 1) as u16,
        )
    }
}

/// `blocks` with each block listed, after its known predecessors, as a
/// predecessor of every block it jumps to.
pub open spec fn with_predecessors(blocks: Seq<BlockView>) -> Seq<BlockView> {
    Seq::new(
        blocks.len(),
        |t: int|
            BlockView {
                predecessors: blocks[t].predecessors + incoming(blocks, t as u16, blocks.len() as int),
                successors: blocks[t].successors,
                start: blocks[t].start,
                end: blocks[t].end,
            },
    )
}

/// Whether every branch of `blocks` goes to one of them, and the blocks are
/// numbered within `u16`.
pub open spec fn edges_inside(blocks: Seq<BlockView>) -> bool {
    &&& blocks.len() <= u16::MAX + 1
    &&& forall|p: int, j: int|
        0 <= p < blocks.len() && 0 <= j < blocks[p].successors.len() ==> #[trigger] blocks[p].successors[j]
            < blocks.len()
}

/// Counting in a concatenation adds the counts of its parts.
proof fn lemma_count_concat(a: Seq<u16>, b: Seq<u16>, target: u16)
    ensures
        count_of(a + b, target) == count_of(a, target) + count_of(b, target),
    decreases b.len(),
{
    if b.len() == 0 {
        assert(a + b =~= a);
    } else {
        lemma_count_concat(a, b.drop_last(), target);
        assert((a + b).drop_last() =~= a + b.drop_last());
    }
}

/// A run of one value counts it as often as the run is long.
proof fn lemma_count_run(n: nat, value: u16, target: u16)
    ensures
        count_of(Seq::new(n, |_i: int| value), target) == if value == target {
            n
        } else {
            0
        },
    decreases n,
{
    if n > 0 {
        lemma_count_run((n - 1) as nat, value, target);
        assert(Seq::new(n, |_i: int| value).drop_last() =~= Seq::new((n - 1) as nat, |_i: int| value));
    }
}

/// Block `source` is a predecessor that the first `count` blocks give block
/// `target` once per branch it has to `target`, when it is among them.
proof fn lemma_incoming_count(blocks: Seq<BlockView>, target: u16, source: int, count: int)
    requires
        0 <= source <= u16::MAX,
        0 <= count <= u16::MAX + 1,
        count <= blocks.len(),
    ensures
        count_of(incoming(blocks, target, count), source as u16) == if source < count {
            count_of(blocks[source].successors, target)
        } else {
            0
        },
    decreases count,
{
    if count > 0 {
        lemma_incoming_count(blocks, target, source, count - 1);
        let run = Seq::new(count_of(blocks[count - 1].successors, target), |_i: int| (count - 1) as u16);
        lemma_count_concat(incoming(blocks, target, count - 1), run, source as u16);
        lemma_count_run(count_of(blocks[count - 1].successors, target), (count - 1) as u16, source as u16);
    }
}

/// Once predecessors are filled in, block `target` lists block `source` as
/// a predecessor once more for every branch of `source` that jumps to
/// `target`.
pub proof fn lemma_predecessors_mirror_successors(blocks: Seq<BlockView>, target: int, source: int)
    requires
        edges_inside(blocks),
        0 <= target < blocks.len(),
        0 <= source < blocks.len(),
    ensures
        count_of(with_predecessors(blocks)[target].predecessors, source as u16) == count_of(
            blocks[target].predecessors,
            source as u16,
        ) + count_of(blocks[source].successors, target as u16),
{
    lemma_count_concat(blocks[target].predecessors, incoming(blocks, target as u16, blocks.len() as int), source as u16);
    lemma_incoming_count(blocks, target as u16, source, blocks.len() as int);
}

/// Whether `w` holds every instruction and block of `v`, each block with as
/// many branches.
spec fn grows(v: BuilderView, w: BuilderView) -> bool {
    &&& v.blocks.len() <= w.blocks.len()
    &&& v.instructions.len() <= w.instructions.len()
    &&& forall|k: int| 0 <= k < v.blocks.len() ==> #[trigger] w.blocks[k].successors.len() == v.blocks[k].successors.len()
}

proof fn lemma_grows_trans(u: BuilderView, v: BuilderView, w: BuilderView)
    requires
        grows(u, v),
        grows(v, w),
    ensures
        grows(u, w),
{
    assert forall|k: int| 0 <= k < u.blocks.len() implies #[trigger] w.blocks[k].successors.len()
        == u.blocks[k].successors.len() by {
        assert(v.blocks[k].successors.len() == u.blocks[k].successors.len());
    }
}

/// Sending a branch somewhere keeps every block and its number of branches.
proof fn lemma_jumped_shape(v: BuilderView, source: int, branch: int, destination: u16)
    requires
        can_jump(v, source, branch),
    ensures
        grows(v, jumped(v, source, branch, destination)),
        jumped(v, source, branch, destination).blocks.len() == v.blocks.len(),
        jumped(v, source, branch, destination).instructions == v.instructions,
{
}

/// Closing a block, after any moves, keeps every block of `v`.
proof fn lemma_closed_grows(v: BuilderView, code: Seq<Instruction>, successors: nat)
    ensures
        grows(v, closed_block(emitted(v, code), successors)),
        grows(v, emitted(v, code)),
{
}

/// Sending each of `jumps` to a block keeps every block and its number of
/// branches.
proof fn lemma_jumps_to_shape(v: BuilderView, jumps: Seq<Jump>, destination: u16)
    requires
        can_jump_all(v, jumps),
    ensures
        grows(v, jumps_to(v, jumps, destination)),
        jumps_to(v, jumps, destination).blocks.len() == v.blocks.len(),
        jumps_to(v, jumps, destination).instructions == v.instructions,
    decreases jumps.len(),
{
    if jumps.len() > 0 {
        let rest = jumps.drop_last();
        assert(can_jump_all(v, rest)) by {
            assert forall|i: int| 0 <= i < rest.len() implies can_jump(v, #[trigger] rest[i].source as int, rest[i].branch as int) by {
                assert(rest[i] == jumps[i]);
            }
        }
        lemma_jumps_to_shape(v, rest, destination);
        let w = jumps_to(v, rest, destination);
        assert(can_jump(v, jumps[jumps.len() - 1].source as int, jumps[jumps.len() - 1].branch as int));
        lemma_jumped_shape(w, jumps.last().source as int, jumps.last().branch as int, destination);
        lemma_grows_trans(v, w, jumps_to(v, jumps, destination));
    }
}

/// Adjusting one jump keeps every block, and leaves a jump from a branch.
proof fn lemma_adjusted_jump(v: BuilderView, base: u16, count: u16, jump: Jump)
    requires
        can_jump(v, jump.source as int, jump.branch as int),
    ensures
        grows(v, adjusted_jump(v, base, count, jump).0),
        adjusted_jump(v, base, count, jump).0.blocks.len() <= u16::MAX ==> can_jump(
            adjusted_jump(v, base, count, jump).0,
            adjusted_jump(v, base, count, jump).1.source as int,
            adjusted_jump(v, base, count, jump).1.branch as int,
        ),
{
    if adjusts(base, jump.stack, count) {
        let w = closed_block(adjusted(v, base, jump.stack, count), 1);
        lemma_closed_grows(v, local_sets(base, vstd::wrapping::u16_specs::wrapping_sub(jump.stack, count), count), 1);
        assert(can_jump(w, jump.source as int, jump.branch as int));
        lemma_jumped_shape(w, jump.source as int, jump.branch as int, v.blocks.len() as u16);
        lemma_grows_trans(v, w, adjusted_jump(v, base, count, jump).0);
        assert(w.blocks[v.blocks.len() as int].successors.len() == 1);
    }
}

/// The jumps of a prefix of `jumps` are all valid jumps of `v`.
proof fn lemma_can_jump_prefix(v: BuilderView, jumps: Seq<Jump>, n: int)
    requires
        can_jump_all(v, jumps),
        0 <= n <= jumps.len(),
    ensures
        can_jump_all(v, jumps.take(n)),
{
    assert forall|i: int| 0 <= i < n implies can_jump(v, #[trigger] jumps.take(n)[i].source as int, jumps.take(n)[i].branch as int) by {
        assert(jumps.take(n)[i] == jumps[i]);
    }
}

/// Adjusting jumps keeps every block, gives a jump for each, and, while the
/// blocks are numbered within `u16`, leaves each from a branch.
proof fn lemma_adjusted_jumps(v: BuilderView, base: u16, count: u16, jumps: Seq<Jump>)
    requires
        can_jump_all(v, jumps),
    ensures
        grows(v, adjusted_jumps(v, base, count, jumps).0),
        adjusted_jumps(v, base, count, jumps).1.len() == jumps.len(),
        adjusted_jumps(v, base, count, jumps).0.blocks.len() <= u16::MAX ==> can_jump_all(
            adjusted_jumps(v, base, count, jumps).0,
            adjusted_jumps(v, base, count, jumps).1,
        ),
    decreases jumps.len(),
{
    if jumps.len() > 0 {
        let rest = jumps.drop_last();
        lemma_can_jump_prefix(v, jumps, jumps.len() - 1);
        assert(jumps.take(jumps.len() - 1) =~= rest);
        lemma_adjusted_jumps(v, base, count, rest);
        let (w, done) = adjusted_jumps(v, base, count, rest);
        let (x, last) = adjusted_jump(w, base, count, jumps.last());
        assert(can_jump(v, jumps[jumps.len() - 1].source as int, jumps[jumps.len() - 1].branch as int));
        assert(can_jump(w, jumps.last().source as int, jumps.last().branch as int));
        lemma_adjusted_jump(w, base, count, jumps.last());
        lemma_grows_trans(v, w, x);
        if x.blocks.len() <= u16::MAX {
            assert forall|i: int| 0 <= i < done.len() + 1 implies can_jump(
                x,
                #[trigger] done.push(last)[i].source as int,
                done.push(last)[i].branch as int,
            ) by {
                if i < done.len() {
                    assert(done.push(last)[i] == done[i]);
                    assert(can_jump(w, done[i].source as int, done[i].branch as int));
                }
            }
        }
    }
}

/// Adjusting a prefix of `jumps` gives a builder that adjusting all of them
/// grows.
proof fn lemma_adjusted_prefix(v: BuilderView, base: u16, count: u16, jumps: Seq<Jump>, n: int)
    requires
        can_jump_all(v, jumps),
        0 <= n <= jumps.len(),
    ensures
        grows(adjusted_jumps(v, base, count, jumps.take(n)).0, adjusted_jumps(v, base, count, jumps).0),
    decreases jumps.len() - n,
{
    if n == jumps.len() {
        assert(jumps.take(n) =~= jumps);
    } else {
        lemma_adjusted_prefix(v, base, count, jumps, n + 1);
        assert(jumps.take(n + 1).drop_last() =~= jumps.take(n));
        lemma_can_jump_prefix(v, jumps, n);
        lemma_adjusted_jumps(v, base, count, jumps.take(n));
        let w = adjusted_jumps(v, base, count, jumps.take(n)).0;
        assert(jumps.take(n + 1).last() == jumps[n]);
        assert(can_jump(v, jumps[n].source as int, jumps[n].branch as int));
        lemma_adjusted_jump(w, base, count, jumps[n]);
        lemma_grows_trans(w, adjusted_jumps(v, base, count, jumps.take(n + 1)).0, adjusted_jumps(v, base, count, jumps).0);
    }
}

/// A builder of the instructions and basic blocks of one function.
pub struct CodeBuilder {
    instructions: Vec<Instruction>,
    basic_blocks: Vec<BasicBlock>,
    position: u32,
}

impl View for CodeBuilder {
    type V = BuilderView;

    closed spec fn view(&self) -> BuilderView {
        BuilderView {
            instructions: self.instructions@,
            blocks: block_views(self.basic_blocks@),
            position: self.position,
        }
    }
}

/// Appends `count` branches to block `destination` to `targets`.
fn push_targets(targets: &mut Vec<u16>, destination: u16, count: usize)
    ensures
        final(targets)@ == old(targets)@ + Seq::new(count as nat, |_i: int| destination),
{
    let mut i: usize = 0;
    while i < count
        invariant
            i <= count,
            targets@ == old(targets)@ + Seq::new(i as nat, |_i: int| destination),
        decreases count - i,
    {
        targets.push(destination);
        i = i + 1;
        assert(targets@ =~= old(targets)@ + Seq::new(i as nat, |_i: int| destination));
    }
}

/// The number of times `target` occurs in `s` grows by one with each push
/// of it.
proof fn lemma_count_push(s: Seq<u16>, x: u16, target: u16)
    ensures
        count_of(s.push(x), target) == count_of(s, target) + if x == target {
            1nat
        } else {
            0nat
        },
{
    assert(s.push(x).drop_last() =~= s);
}

/// Lists each block of `blocks` as a predecessor of every block it jumps
/// to, once per branch.
fn fill_predecessors(blocks: &mut Vec<BasicBlock>)
    requires
        edges_inside(block_views(old(blocks)@)),
    ensures
        block_views(final(blocks)@) == with_predecessors(block_views(old(blocks)@)),
{
    let ghost start = block_views(blocks@);
    let count = blocks.len();
    let mut p: usize = 0;
    while p < count
        invariant
            count == start.len(),
            edges_inside(start),
            p <= count,
            blocks@.len() == count,
            forall|t: int|
                0 <= t < count ==> {
                    let block = #[trigger] block_views(blocks@)[t];
                    &&& block.successors == start[t].successors
                    &&& block.start == start[t].start
                    &&& block.end == start[t].end
                    &&& block.predecessors == start[t].predecessors + incoming(start, t as u16, p as int)
                },
        decreases count - p,
    {
        let predecessor = p as u16;
        let mut j: usize = 0;
        while j < blocks[p].successors.len()
            invariant
                count == start.len(),
                edges_inside(start),
                p < count,
                predecessor == p as u16,
                blocks@.len() == count,
                j <= start[p as int].successors.len(),
                forall|t: int|
                    0 <= t < count ==> {
                        let block = #[trigger] block_views(blocks@)[t];
                        &&& block.successors == start[t].successors
                        &&& block.start == start[t].start
                        &&& block.end == start[t].end
                        &&& block.predecessors == start[t].predecessors + incoming(start, t as u16, p as int)
                            + Seq::new(count_of(start[p as int].successors.take(j as int), t as u16), |_i: int| predecessor)
                    },
            decreases start[p as int].successors.len() - j,
        {
            assert(block_views(blocks@)[p as int].successors == start[p as int].successors);
            let successor = blocks[p].successors[j];
            assert(successor < count);
            let ghost before = blocks@;
            blocks[successor as usize].predecessors.push(predecessor);
            proof {
                let taken = start[p as int].successors.take(j as int);
                assert(start[p as int].successors.take(j + 1) =~= taken.push(successor));
                assert forall|t: int| 0 <= t < count implies {
                    let block = #[trigger] block_views(blocks@)[t];
                    &&& block.successors == start[t].successors
                    &&& block.start == start[t].start
                    &&& block.end == start[t].end
                    &&& block.predecessors == start[t].predecessors + incoming(start, t as u16, p as int) + Seq::new(
                        count_of(start[p as int].successors.take(j + 1), t as u16),
                        |_i: int| predecessor,
                    )
                } by {
                    lemma_count_push(taken, successor, t as u16);
                    assert(block_views(blocks@)[t] == blocks@[t]@);
                    assert(block_views(before)[t] == before[t]@);
                    if t == successor as int {
                        let known = start[t].predecessors + incoming(start, t as u16, p as int);
                        let c = count_of(taken, t as u16);
                        assert(blocks@[t].predecessors@ == before[t].predecessors@.push(predecessor));
                        assert(Seq::new(c + 1, |_i: int| predecessor) =~= Seq::new(c, |_i: int| predecessor).push(predecessor));
                        assert(known + Seq::new(c + 1, |_i: int| predecessor) =~= (known + Seq::new(c, |_i: int| predecessor)).push(predecessor));
                    } else {
                        assert((t as u16) != successor);
                        assert(blocks@[t] == before[t]);
                    }
                }
            }
            j = j + 1;
        }
        proof {
            assert(block_views(blocks@)[p as int] == blocks@[p as int]@);
            assert(start[p as int].successors.take(j as int) =~= start[p as int].successors);
            assert forall|t: int| 0 <= t < count implies #[trigger] block_views(blocks@)[t].predecessors
                == start[t].predecessors + incoming(start, t as u16, p + 1) by {
                assert(incoming(start, t as u16, p + 1) == incoming(start, t as u16, p as int) + Seq::new(
                    count_of(start[p as int].successors, t as u16),
                    |_i: int| (p as int) as u16,
                ));
                assert(start[t].predecessors + incoming(start, t as u16, p as int) + Seq::new(
                    count_of(start[p as int].successors, t as u16),
                    |_i: int| predecessor,
                ) =~= start[t].predecessors + incoming(start, t as u16, p + 1));
            }
        }
        p = p + 1;
    }
    proof {
        assert(block_views(blocks@) =~= with_predecessors(start)) by {
            assert forall|t: int| 0 <= t < count implies #[trigger] block_views(blocks@)[t] == with_predecessors(start)[t] by {
                let block = block_views(blocks@)[t];
                assert(block.predecessors == start[t].predecessors + incoming(start, t as u16, count as int));
            }
        }
    }
}

impl CodeBuilder {
    /// Creates a builder with no instruction and no block.
    pub fn new() -> (builder: Self)
        ensures
            builder@ == (BuilderView { instructions: Seq::empty(), blocks: Seq::empty(), position: 0 }),
    {
        let builder = CodeBuilder { instructions: Vec::new(), basic_blocks: Vec::new(), position: 0 };
        assert(builder@ =~= (BuilderView { instructions: Seq::empty(), blocks: Seq::empty(), position: 0 }));
        builder
    }

    /// Forgets every instruction and block.
    pub fn clear(&mut self)
        ensures
            final(self)@ == (BuilderView { instructions: Seq::empty(), blocks: Seq::empty(), position: 0 }),
    {
        self.instructions.clear();
        self.basic_blocks.clear();
        self.position = 0;
        assert(self@ =~= (BuilderView { instructions: Seq::empty(), blocks: Seq::empty(), position: 0 }));
    }

    /// Hands the instructions and blocks built to `graph`, with the
    /// predecessors of each block filled in, and takes the graph's old
    /// contents in their place.
    pub fn swap_contents(&mut self, graph: &mut ControlFlowGraph)
        requires
            edges_inside(old(self)@.blocks),
        ensures
            final(graph).instructions@ == old(self)@.instructions,
            block_views(final(graph).basic_blocks@) == with_predecessors(old(self)@.blocks),
            final(self)@ == (BuilderView {
                instructions: old(graph).instructions@,
                blocks: block_views(old(graph).basic_blocks@),
                position: old(self)@.position,
            }),
    {
        fill_predecessors(&mut self.basic_blocks);
        std::mem::swap(&mut self.instructions, &mut graph.instructions);
        std::mem::swap(&mut self.basic_blocks, &mut graph.basic_blocks);
    }

    /// Appends `instruction` to the open block.
    fn push_instruction(&mut self, instruction: Instruction)
        ensures
            final(self)@ == emitted(old(self)@, seq![instruction]),
    {
        self.instructions.push(instruction);
        assert(self@ =~= emitted(old(self)@, seq![instruction]));
    }

    /// Closes the open block, with `successors` branches to the block after
    /// it, and returns its number.
    pub fn add_basic_block(&mut self, successors: usize) -> (id: u16)
        requires
            has_room(old(self)@, 1, 0),
        ensures
            id == old(self)@.blocks.len(),
            final(self)@ == closed_block(old(self)@, successors as nat),
    {
        let basic_blocks = self.basic_blocks.len() as u16;
        let instructions = self.instructions.len() as u32;
        let mut targets: Vec<u16> = Vec::new();
        push_targets(&mut targets, basic_blocks + 1, successors);
        let block = BasicBlock { predecessors: Vec::new(), successors: targets, start: self.position, end: instructions };
        self.basic_blocks.push(block);
        self.position = instructions;
        proof {
            assert(targets@ =~= Seq::new(successors as nat, |_i: int| (old(self)@.blocks.len() + 1) as u16));
            assert(block_views(self.basic_blocks@) =~= block_views(old(self).basic_blocks@).push(block@));
            assert(self@ =~= closed_block(old(self)@, successors as nat));
        }
        basic_blocks
    }

    /// Sets `count` consecutive registers from `destination` to the
    /// registers from `source`, in an order that reads each register before
    /// overwriting it.
    pub fn add_locals_set(&mut self, destination: u16, source: u16, count: u16)
        requires
            sets_fit(destination, source, count),
        ensures
            final(self)@ == emitted(old(self)@, local_sets(destination, source, count)),
    {
        let ghost code = local_sets(destination, source, count);
        let mut offset: u16 = 0;
        while offset < count
            invariant
                sets_fit(destination, source, count),
                code == local_sets(destination, source, count),
                offset <= count,
                self@ == emitted(old(self)@, code.take(offset as int)),
            decreases count - offset,
        {
            if destination <= source {
                self.add_local_set(destination + offset, source + offset);
            } else {
                let back = count - 1 - offset;
                self.add_local_set(destination + back, source + back);
            }
            assert(code.take(offset + 1) =~= code.take(offset as int).push(code[offset as int]));
            assert(self@ =~= emitted(old(self)@, code.take(offset + 1)));
            offset = offset + 1;
        }
        assert(code.take(offset as int) =~= code);
    }

    /// Branches on register `source` and closes the block with `successors`
    /// branches, returning its number.
    pub fn add_local_branch(&mut self, source: u16, successors: usize) -> (id: u16)
        requires
            has_room(old(self)@, 1, 1),
        ensures
            id == old(self)@.blocks.len(),
            final(self)@ == closed_block(
                emitted(old(self)@, seq![Instruction::LocalBranch(LocalBranch { source })]),
                successors as nat,
            ),
    {
        self.push_instruction(Instruction::LocalBranch(LocalBranch { source }));
        self.add_basic_block(successors)
    }

    /// Starts a conditional on register `condition`, returning the number of
    /// the block that branches; the code taken when it is zero follows.
    pub fn begin_if(&mut self, condition: u16) -> (condition_id: u16)
        requires
            has_room(old(self)@, 1, 1),
        ensures
            condition_id == old(self)@.blocks.len(),
            final(self)@ == if_begun(old(self)@, condition),
    {
        self.add_local_branch(condition, 2)
    }

    /// Ends the code taken when the condition is zero, returning the number
    /// of the block that ends it; the code taken otherwise follows.
    pub fn begin_else(&mut self) -> (false_id: u16)
        requires
            has_room(old(self)@, 1, 0),
        ensures
            false_id == old(self)@.blocks.len(),
            final(self)@ == closed_block(old(self)@, 1),
    {
        self.add_basic_block(1)
    }

    /// Ends a conditional whose branch is block `condition_id` and whose
    /// zero case ends with block `false_id`, wiring the branches.
    pub fn end_if(&mut self, condition_id: u16, false_id: u16)
        requires
            has_room(old(self)@, 1, 0),
            can_jump(old(self)@, condition_id as int, 1),
            can_jump(old(self)@, false_id as int, 0),
        ensures
            final(self)@ == if_ended(old(self)@, condition_id, false_id),
    {
        let true_id = self.add_basic_block(1);
        self.set_jump_destination(condition_id, 0, condition_id + 1);
        self.set_jump_destination(condition_id, 1, false_id + 1);
        self.set_jump_destination(false_id, 0, true_id + 1);
    }

    /// Sets register `destination` to `on_false` when `condition` is zero,
    /// and to `on_true` otherwise.
    pub fn add_select(&mut self, destination: u16, condition: u16, on_false: u16, on_true: u16)
        requires
            has_room(old(self)@, 3, 3),
        ensures
            final(self)@ == selected(old(self)@, destination, condition, on_false, on_true),
    {
        let condition_id = self.begin_if(condition);
        self.add_local_set(destination, on_false);
        let false_id = self.begin_else();
        self.add_local_set(destination, on_true);
        self.end_if(condition_id, false_id);
    }

    /// Moves the top `count` values of a stack of height `top` down to
    /// `base`, telling whether that took any instruction.
    pub fn try_add_stack_adjustment(&mut self, base: u16, top: u16, count: u16) -> (added: bool)
        requires
            adjustment_fits(base, top, count),
        ensures
            added == adjusts(base, top, count),
            final(self)@ == adjusted(old(self)@, base, top, count),
    {
        let source = top.wrapping_sub(count);
        if base == source || top == u16::MAX {
            return false;
        }
        self.add_locals_set(base, source, count);
        true
    }

    /// Closes the block with an unreachable instruction, returning its
    /// number.
    pub fn add_unreachable(&mut self) -> (id: u16)
        requires
            has_room(old(self)@, 1, 1),
        ensures
            id == old(self)@.blocks.len(),
            final(self)@ == closed_block(emitted(old(self)@, seq![Instruction::Unreachable]), 1),
    {
        self.push_instruction(Instruction::Unreachable);
        self.add_basic_block(1)
    }

    /// Calls the function in register `function` with the registers of
    /// `sources`, its results going to the registers of `destinations`.
    pub fn add_call(&mut self, destinations: (u16, u16), sources: (u16, u16), function: u16)
        ensures
            final(self)@ == emitted(old(self)@, seq![Instruction::Call(Call { destinations, sources, function })]),
    {
        self.push_instruction(Instruction::Call(Call { destinations, sources, function }));
    }

    /// Compares register `lhs` with the constant `rhs` by `operator` into
    /// `destination`, through the shared register.
    pub fn add_i32_compare_constant(&mut self, destination: u16, lhs: u16, rhs: i32, operator: IntegerCompareOperator)
        ensures
            final(self)@ == emitted(old(self)@, compared_to_constant(destination, lhs, rhs, operator)),
    {
        self.add_i32_constant(SHARED_LOCAL, rhs);
        self.add_integer_compare_operation(destination, lhs, SHARED_LOCAL, IntegerType::I32, operator);
        assert(self@ =~= emitted(old(self)@, compared_to_constant(destination, lhs, rhs, operator)));
    }

    /// The static offset of a memory access as the runtime takes it: offsets
    /// past `u32` saturate, which keeps them out of bounds of every memory.
    pub fn static_memory_offset(offset: u64) -> (static_offset: u32)
        ensures
            static_offset == (if offset <= u32::MAX {
                offset as u32
            } else {
                u32::MAX
            }),
    {
        if offset <= u32::MAX as u64 {
            offset as u32
        } else {
            u32::MAX
        }
    }

    /// Combines `lhs` with the page size, loaded into `rhs`, by `operator`
    /// into `destination`: memory is sized in bytes, WebAssembly counts it
    /// in pages.
    fn apply_page_size(&mut self, destination: u16, lhs: u16, rhs: u16, operator: IntegerBinaryOperator)
        ensures
            final(self)@ == emitted(old(self)@, paged(destination, lhs, rhs, operator)),
    {
        self.add_i32_constant(rhs, 0x1_0000);
        self.add_integer_binary_operation(destination, lhs, rhs, IntegerType::I32, operator);
        assert(self@ =~= emitted(old(self)@, paged(destination, lhs, rhs, operator)));
    }

    /// Reads the size of `memory`, in pages, into `destination`.
    pub fn add_paged_memory_size(&mut self, destination: u16, memory: u16)
        ensures
            final(self)@ == emitted(old(self)@, paged_memory_size(destination, memory)),
    {
        self.add_memory_size(destination, memory);
        self.apply_page_size(destination, destination, SHARED_LOCAL, IntegerBinaryOperator::Divide { signed: false });
        assert(self@ =~= emitted(old(self)@, paged_memory_size(destination, memory)));
    }

    /// Grows `memory` by `size` pages, its old size in pages, or -1, going
    /// to `destination`.
    fn add_sized_memory_grow(&mut self, destination: u16, memory: u16, size: u16)
        requires
            has_room(old(self)@, 3, 9),
        ensures
            final(self)@ == sized_memory_grown(old(self)@, destination, memory, size),
    {
        self.apply_page_size(SHARED_LOCAL, size, SHARED_LOCAL, IntegerBinaryOperator::Multiply);
        self.add_memory_grow(destination, memory, SHARED_LOCAL);
        self.add_i32_compare_constant(SHARED_LOCAL, destination, -1, IntegerCompareOperator::Equal);
        proof {
            assert(self@ =~= emitted(
                old(self)@,
                paged(SHARED_LOCAL, size, SHARED_LOCAL, IntegerBinaryOperator::Multiply) + seq![
                    Instruction::MemoryGrow(MemoryGrow { destination, memory, size: SHARED_LOCAL }),
                ] + compared_to_constant(SHARED_LOCAL, destination, -1i32, IntegerCompareOperator::Equal),
            ));
        }
        let condition_id = self.begin_if(SHARED_LOCAL);
        self.apply_page_size(destination, destination, SHARED_LOCAL, IntegerBinaryOperator::Divide { signed: false });
        let false_id = self.begin_else();
        self.end_if(condition_id, false_id);
    }

    /// Grows `memory` by `size` pages when that is within the page limit,
    /// its old size in pages, or -1, going to `destination`.
    pub fn add_paged_memory_grow(&mut self, destination: u16, memory: u16, size: u16)
        requires
            has_room(old(self)@, 6, 13),
        ensures
            final(self)@ == paged_memory_grown(old(self)@, destination, memory, size),
    {
        self.add_i32_compare_constant(SHARED_LOCAL, size, 0xFFFF, IntegerCompareOperator::LessThanEqual { signed: false });
        let condition_id = self.begin_if(SHARED_LOCAL);
        self.add_i32_constant(destination, -1);
        let false_id = self.begin_else();
        self.add_sized_memory_grow(destination, memory, size);
        self.end_if(condition_id, false_id);
    }

    /// Sends branch `branch` of block `source` to block `destination`.
    pub fn set_jump_destination(&mut self, source: u16, branch: u16, destination: u16)
        requires
            can_jump(old(self)@, source as int, branch as int),
        ensures
            final(self)@ == jumped(old(self)@, source as int, branch as int, destination),
    {
        self.basic_blocks[source as usize].successors.set(branch as usize, destination);
        proof {
            let ghost expected = jumped(old(self)@, source as int, branch as int, destination);
            assert(block_views(self.basic_blocks@)[source as int].successors =~= expected.blocks[source as int].successors);
            assert(block_views(self.basic_blocks@) =~= expected.blocks);
            assert(self@ =~= expected);
        }
    }

    /// Sends the branch of each of `jumps` to block `destination`.
    fn set_jump_destinations(&mut self, destination: u16, jumps: &Vec<Jump>)
        requires
            can_jump_all(old(self)@, jumps@),
        ensures
            final(self)@ == jumps_to(old(self)@, jumps@, destination),
    {
        let mut i: usize = 0;
        while i < jumps.len()
            invariant
                can_jump_all(old(self)@, jumps@),
                i <= jumps@.len(),
                self@ == jumps_to(old(self)@, jumps@.take(i as int), destination),
            decreases jumps@.len() - i,
        {
            let jump = jumps[i];
            proof {
                lemma_can_jump_prefix(old(self)@, jumps@, i as int);
                lemma_jumps_to_shape(old(self)@, jumps@.take(i as int), destination);
                assert(can_jump(old(self)@, jumps@[i as int].source as int, jumps@[i as int].branch as int));
                assert(jumps@.take(i + 1).drop_last() =~= jumps@.take(i as int));
                assert(jumps@.take(i + 1).last() == jump);
            }
            self.set_jump_destination(jump.source, jump.branch, destination);
            i = i + 1;
        }
        assert(jumps@.take(i as int) =~= jumps@);
    }

    /// Moves the `count` values of each of `jumps` down to `base` in a block
    /// of its own when they need it, the jump entering that block and the
    /// block jumping on in its place.
    fn add_jump_adjustments(&mut self, base: u16, count: u16, jumps: &mut Vec<Jump>)
        requires
            can_jump_all(old(self)@, old(jumps)@),
            jumps_fit(base, count, old(jumps)@),
            has_room(adjusted_jumps(old(self)@, base, count, old(jumps)@).0, 0, 0),
        ensures
            (final(self)@, final(jumps)@) == adjusted_jumps(old(self)@, base, count, old(jumps)@),
    {
        let ghost start = self@;
        let ghost given = jumps@;
        let ghost last = adjusted_jumps(start, base, count, given).0;
        let mut i: usize = 0;
        while i < jumps.len()
            invariant
                can_jump_all(start, given),
                jumps_fit(base, count, given),
                last == adjusted_jumps(start, base, count, given).0,
                has_room(last, 0, 0),
                jumps@.len() == given.len(),
                i <= given.len(),
                (self@, jumps@.take(i as int)) == adjusted_jumps(start, base, count, given.take(i as int)),
                forall|k: int| i <= k < given.len() ==> #[trigger] jumps@[k] == given[k],
            decreases given.len() - i,
        {
            let jump = jumps[i];
            let ghost before = self@;
            proof {
                lemma_can_jump_prefix(start, given, i as int);
                lemma_adjusted_jumps(start, base, count, given.take(i as int));
                lemma_adjusted_prefix(start, base, count, given, i + 1);
                assert(given.take(i + 1).drop_last() =~= given.take(i as int));
                assert(given.take(i + 1).last() == jump);
                assert(can_jump(start, given[i as int].source as int, given[i as int].branch as int));
                assert(can_jump(before, jump.source as int, jump.branch as int));
                assert(adjustment_fits(base, given[i as int].stack, count));
            }
            if self.try_add_stack_adjustment(base, jump.stack, count) {
                proof {
                    lemma_closed_grows(before, local_sets(base, vstd::wrapping::u16_specs::wrapping_sub(jump.stack, count), count), 1);
                }
                let new_source = self.add_basic_block(1);
                self.set_jump_destination(jump.source, jump.branch, new_source);
                jumps.set(i, Jump { stack: jump.stack, source: new_source, branch: 0 });
            }
            proof {
                assert(jumps@.take(i + 1) =~= jumps@.take(i as int).push(jumps@[i as int]));
            }
            i = i + 1;
        }
        proof {
            assert(given.take(i as int) =~= given);
            assert(jumps@.take(i as int) =~= jumps@);
        }
    }

    /// Ends `level` on a stack of height `top`: moves its results down to its
    /// base, closes an exit block, adjusts the jumps to the level and sends
    /// them to its destination or, without one, past the adjustments, and
    /// sends the exit to the block after everything.
    pub fn handle_level(&mut self, level: Level, top: u16)
        requires
            adjustment_fits(level.base, top, level.results),
            jumps_fit(level.base, carried(level), level.jumps@),
            can_jump_all(old(self)@, level.jumps@),
            has_room(level_adjusted(old(self)@, level, top).0, 0, 0),
        ensures
            final(self)@ == level_ended(old(self)@, level, top),
    {
        let ghost v = self@;
        let ghost w = adjusted(v, level.base, top, level.results);
        let ghost x = closed_block(w, 1);
        let ghost count = carried(level);
        let ghost result = adjusted_jumps(x, level.base, count, level.jumps@);
        let ghost jumps_view = level.jumps@;
        proof {
            lemma_closed_grows(v, if adjusts(level.base, top, level.results) {
                local_sets(level.base, vstd::wrapping::u16_specs::wrapping_sub(top, level.results), level.results)
            } else {
                Seq::empty()
            }, 1);
            assert(adjusted(v, level.base, top, level.results) == emitted(v, if adjusts(level.base, top, level.results) {
                local_sets(level.base, vstd::wrapping::u16_specs::wrapping_sub(top, level.results), level.results)
            } else {
                Seq::empty()
            }));
            assert(can_jump_all(x, jumps_view)) by {
                assert forall|i: int| 0 <= i < jumps_view.len() implies can_jump(x, #[trigger] jumps_view[i].source as int, jumps_view[i].branch as int) by {
                    assert(can_jump(v, jumps_view[i].source as int, jumps_view[i].branch as int));
                }
            }
            lemma_adjusted_jumps(x, level.base, count, jumps_view);
            let target = match level.destination {
                Some(destination) => destination,
                None => result.0.blocks.len() as u16,
            };
            lemma_jumps_to_shape(result.0, result.1, target);
        }
        let base = level.base;
        let parameters = level.parameters;
        let results = level.results;
        let destination = level.destination;
        let mut jumps = level.jumps;
        self.try_add_stack_adjustment(base, top, results);
        let exit = self.add_basic_block(1);
        match destination {
            Some(dest) => {
                self.add_jump_adjustments(base, parameters, &mut jumps);
                self.set_jump_destinations(dest, &jumps);
            },
            None => {
                self.add_jump_adjustments(base, results, &mut jumps);
                let next_destination = self.basic_blocks.len() as u16;
                self.set_jump_destinations(next_destination, &jumps);
            },
        }
        let fall_through = self.basic_blocks.len() as u16;
        proof {
            assert(x.blocks[exit as int].successors.len() == 1);
            assert(can_jump(self@, exit as int, 0));
        }
        self.set_jump_destination(exit, 0, fall_through);
    }

    /// Sets register `destination` to register `source`.
    pub fn add_local_set(&mut self, destination: u16, source: u16)
        ensures
            final(self)@ == emitted(old(self)@, seq![Instruction::LocalSet(LocalSet { destination, source })]),
    {
        self.push_instruction(Instruction::LocalSet(LocalSet { destination, source }));
    }

    /// Loads the 32-bit integer `data` into `destination`.
    pub fn add_i32_constant(&mut self, destination: u16, data: i32)
        ensures
            final(self)@ == emitted(old(self)@, seq![Instruction::I32Constant(I32Constant { destination, data })]),
    {
        self.push_instruction(Instruction::I32Constant(I32Constant { destination, data }));
    }

    /// Loads the 64-bit integer `data` into `destination`.
    pub fn add_i64_constant(&mut self, destination: u16, data: i64)
        ensures
            final(self)@ == emitted(old(self)@, seq![Instruction::I64Constant(I64Constant { destination, data })]),
    {
        self.push_instruction(Instruction::I64Constant(I64Constant { destination, data }));
    }

    /// Loads the 32-bit float with bits `data` into `destination`.
    pub fn add_f32_constant(&mut self, destination: u16, data: u32)
        ensures
            final(self)@ == emitted(old(self)@, seq![Instruction::F32Constant(F32Constant { destination, data })]),
    {
        self.push_instruction(Instruction::F32Constant(F32Constant { destination, data }));
    }

    /// Loads the 64-bit float with bits `data` into `destination`.
    pub fn add_f64_constant(&mut self, destination: u16, data: u64)
        ensures
            final(self)@ == emitted(old(self)@, seq![Instruction::F64Constant(F64Constant { destination, data })]),
    {
        self.push_instruction(Instruction::F64Constant(F64Constant { destination, data }));
    }

    /// Tests whether the reference in `source` is null, into `destination`.
    pub fn add_ref_is_null(&mut self, destination: u16, source: u16)
        ensures
            final(self)@ == emitted(old(self)@, seq![Instruction::RefIsNull(RefIsNull { destination, source })]),
    {
        self.push_instruction(Instruction::RefIsNull(RefIsNull { destination, source }));
    }

    /// Loads the null reference into `destination`.
    pub fn add_ref_null(&mut self, destination: u16)
        ensures
            final(self)@ == emitted(old(self)@, seq![Instruction::RefNull(RefNull { destination })]),
    {
        self.push_instruction(Instruction::RefNull(RefNull { destination }));
    }

    /// Loads a reference to function `function` into `destination`.
    pub fn add_ref_function(&mut self, destination: u16, function: u16)
        ensures
            final(self)@ == emitted(old(self)@, seq![Instruction::RefFunction(RefFunction { destination, function })]),
    {
        self.push_instruction(Instruction::RefFunction(RefFunction { destination, function }));
    }

    /// Applies the integer `operator` to `source` into `destination`.
    pub fn add_integer_unary_operation(&mut self, destination: u16, source: u16, kind: IntegerType, operator: IntegerUnaryOperator)
        ensures
            final(self)@ == emitted(old(self)@, seq![Instruction::IntegerUnaryOperation(IntegerUnaryOperation { destination, source, kind, operator })]),
    {
        self.push_instruction(Instruction::IntegerUnaryOperation(IntegerUnaryOperation { destination, source, kind, operator }));
    }

    /// Combines `lhs` and `rhs` by the integer `operator` into `destination`.
    pub fn add_integer_binary_operation(&mut self, destination: u16, lhs: u16, rhs: u16, kind: IntegerType, operator: IntegerBinaryOperator)
        ensures
            final(self)@ == emitted(old(self)@, seq![Instruction::IntegerBinaryOperation(IntegerBinaryOperation { destination, lhs, rhs, kind, operator })]),
    {
        self.push_instruction(Instruction::IntegerBinaryOperation(IntegerBinaryOperation { destination, lhs, rhs, kind, operator }));
    }

    /// Compares `lhs` with `rhs` by the integer `operator` into `destination`.
    pub fn add_integer_compare_operation(&mut self, destination: u16, lhs: u16, rhs: u16, kind: IntegerType, operator: IntegerCompareOperator)
        ensures
            final(self)@ == emitted(old(self)@, seq![Instruction::IntegerCompareOperation(IntegerCompareOperation { destination, lhs, rhs, kind, operator })]),
    {
        self.push_instruction(Instruction::IntegerCompareOperation(IntegerCompareOperation { destination, lhs, rhs, kind, operator }));
    }

    /// Narrows the 64-bit integer in `source` to 32 bits, into `destination`.
    pub fn add_integer_narrow(&mut self, destination: u16, source: u16)
        ensures
            final(self)@ == emitted(old(self)@, seq![Instruction::IntegerNarrow(IntegerNarrow { destination, source })]),
    {
        self.push_instruction(Instruction::IntegerNarrow(IntegerNarrow { destination, source }));
    }

    /// Widens the 32-bit integer in `source` to 64 bits, into `destination`.
    pub fn add_integer_widen(&mut self, destination: u16, source: u16)
        ensures
            final(self)@ == emitted(old(self)@, seq![Instruction::IntegerWiden(IntegerWiden { destination, source })]),
    {
        self.push_instruction(Instruction::IntegerWiden(IntegerWiden { destination, source }));
    }

    /// Sign extends `source` as `kind` says, into `destination`.
    pub fn add_integer_extend(&mut self, destination: u16, source: u16, kind: ExtendType)
        ensures
            final(self)@ == emitted(old(self)@, seq![Instruction::IntegerExtend(IntegerExtend { destination, source, kind })]),
    {
        self.push_instruction(Instruction::IntegerExtend(IntegerExtend { destination, source, kind }));
    }

    /// Converts the integer in `source` to a float, into `destination`.
    pub fn add_integer_convert_to_number(&mut self, destination: u16, source: u16, signed: bool, to: NumberType, from: IntegerType)
        ensures
            final(self)@ == emitted(old(self)@, seq![Instruction::IntegerConvertToNumber(IntegerConvertToNumber { destination, source, signed, to, from })]),
    {
        self.push_instruction(Instruction::IntegerConvertToNumber(IntegerConvertToNumber { destination, source, signed, to, from }));
    }

    /// Reinterprets the bits of the integer in `source` as a float, into `destination`.
    pub fn add_integer_transmute_to_number(&mut self, destination: u16, source: u16, from: IntegerType)
        ensures
            final(self)@ == emitted(old(self)@, seq![Instruction::IntegerTransmuteToNumber(IntegerTransmuteToNumber { destination, source, from })]),
    {
        self.push_instruction(Instruction::IntegerTransmuteToNumber(IntegerTransmuteToNumber { destination, source, from }));
    }

    /// Applies the float `operator` to `source` into `destination`.
    pub fn add_number_unary_operation(&mut self, destination: u16, source: u16, kind: NumberType, operator: NumberUnaryOperator)
        ensures
            final(self)@ == emitted(old(self)@, seq![Instruction::NumberUnaryOperation(NumberUnaryOperation { destination, source, kind, operator })]),
    {
        self.push_instruction(Instruction::NumberUnaryOperation(NumberUnaryOperation { destination, source, kind, operator }));
    }

    /// Combines `lhs` and `rhs` by the float `operator` into `destination`.
    pub fn add_number_binary_operation(&mut self, destination: u16, lhs: u16, rhs: u16, kind: NumberType, operator: NumberBinaryOperator)
        ensures
            final(self)@ == emitted(old(self)@, seq![Instruction::NumberBinaryOperation(NumberBinaryOperation { destination, lhs, rhs, kind, operator })]),
    {
        self.push_instruction(Instruction::NumberBinaryOperation(NumberBinaryOperation { destination, lhs, rhs, kind, operator }));
    }

    /// Compares `lhs` with `rhs` by the float `operator` into `destination`.
    pub fn add_number_compare_operation(&mut self, destination: u16, lhs: u16, rhs: u16, kind: NumberType, operator: NumberCompareOperator)
        ensures
            final(self)@ == emitted(old(self)@, seq![Instruction::NumberCompareOperation(NumberCompareOperation { destination, lhs, rhs, kind, operator })]),
    {
        self.push_instruction(Instruction::NumberCompareOperation(NumberCompareOperation { destination, lhs, rhs, kind, operator }));
    }

    /// Narrows the 64-bit float in `source` to 32 bits, into `destination`.
    pub fn add_number_narrow(&mut self, destination: u16, source: u16)
        ensures
            final(self)@ == emitted(old(self)@, seq![Instruction::NumberNarrow(NumberNarrow { destination, source })]),
    {
        self.push_instruction(Instruction::NumberNarrow(NumberNarrow { destination, source }));
    }

    /// Widens the 32-bit float in `source` to 64 bits, into `destination`.
    pub fn add_number_widen(&mut self, destination: u16, source: u16)
        ensures
            final(self)@ == emitted(old(self)@, seq![Instruction::NumberWiden(NumberWiden { destination, source })]),
    {
        self.push_instruction(Instruction::NumberWiden(NumberWiden { destination, source }));
    }

    /// Truncates the float in `source` to an integer, into `destination`.
    pub fn add_number_truncate_to_integer(&mut self, destination: u16, source: u16, signed: bool, saturate: bool, to: IntegerType, from: NumberType)
        ensures
            final(self)@ == emitted(old(self)@, seq![Instruction::NumberTruncateToInteger(NumberTruncateToInteger { destination, source, signed, saturate, to, from })]),
    {
        self.push_instruction(Instruction::NumberTruncateToInteger(NumberTruncateToInteger { destination, source, signed, saturate, to, from }));
    }

    /// Reinterprets the bits of the float in `source` as an integer, into `destination`.
    pub fn add_number_transmute_to_integer(&mut self, destination: u16, source: u16, from: NumberType)
        ensures
            final(self)@ == emitted(old(self)@, seq![Instruction::NumberTransmuteToInteger(NumberTransmuteToInteger { destination, source, from })]),
    {
        self.push_instruction(Instruction::NumberTransmuteToInteger(NumberTransmuteToInteger { destination, source, from }));
    }

    /// Reads global `source` into `destination`.
    pub fn add_global_get(&mut self, destination: u16, source: u16)
        ensures
            final(self)@ == emitted(old(self)@, seq![Instruction::GlobalGet(GlobalGet { destination, source })]),
    {
        self.push_instruction(Instruction::GlobalGet(GlobalGet { destination, source }));
    }

    /// Writes `source` into global `destination`.
    pub fn add_global_set(&mut self, destination: u16, source: u16)
        ensures
            final(self)@ == emitted(old(self)@, seq![Instruction::GlobalSet(GlobalSet { destination, source })]),
    {
        self.push_instruction(Instruction::GlobalSet(GlobalSet { destination, source }));
    }

    /// Reads the table element at `source` into `destination`.
    pub fn add_table_get(&mut self, destination: u16, source: Location, kind: Option<u32>)
        ensures
            final(self)@ == emitted(old(self)@, seq![Instruction::TableGet(TableGet { destination, source, kind })]),
    {
        self.push_instruction(Instruction::TableGet(TableGet { destination, source, kind }));
    }

    /// Writes `source` to the table element at `destination`.
    pub fn add_table_set(&mut self, destination: Location, source: u16)
        ensures
            final(self)@ == emitted(old(self)@, seq![Instruction::TableSet(TableSet { destination, source })]),
    {
        self.push_instruction(Instruction::TableSet(TableSet { destination, source }));
    }

    /// Reads the size of table `table` into `destination`.
    pub fn add_table_size(&mut self, destination: u16, table: u16)
        ensures
            final(self)@ == emitted(old(self)@, seq![Instruction::TableSize(TableSize { destination, table })]),
    {
        self.push_instruction(Instruction::TableSize(TableSize { destination, table }));
    }

    /// Grows table `table` by `size` elements of `initializer`, its old size going to `destination`.
    pub fn add_table_grow(&mut self, destination: u16, table: u16, size: u16, initializer: u16)
        ensures
            final(self)@ == emitted(old(self)@, seq![Instruction::TableGrow(TableGrow { destination, table, size, initializer })]),
    {
        self.push_instruction(Instruction::TableGrow(TableGrow { destination, table, size, initializer }));
    }

    /// Fills `size` table elements from `destination` with `source`.
    pub fn add_table_fill(&mut self, destination: Location, source: u16, size: u16)
        ensures
            final(self)@ == emitted(old(self)@, seq![Instruction::TableFill(TableFill { destination, source, size })]),
    {
        self.push_instruction(Instruction::TableFill(TableFill { destination, source, size }));
    }

    /// Copies `size` table elements from `source` to `destination`.
    pub fn add_table_copy(&mut self, destination: Location, source: Location, size: u16)
        ensures
            final(self)@ == emitted(old(self)@, seq![Instruction::TableCopy(TableCopy { destination, source, size })]),
    {
        self.push_instruction(Instruction::TableCopy(TableCopy { destination, source, size }));
    }

    /// Copies `size` elements of a segment at `source` into the table at `destination`.
    pub fn add_table_init(&mut self, destination: Location, source: Location, size: u16)
        ensures
            final(self)@ == emitted(old(self)@, seq![Instruction::TableInit(TableInit { destination, source, size })]),
    {
        self.push_instruction(Instruction::TableInit(TableInit { destination, source, size }));
    }

    /// Drops element segment `source`.
    pub fn add_elements_drop(&mut self, source: u16)
        ensures
            final(self)@ == emitted(old(self)@, seq![Instruction::ElementsDrop(ElementsDrop { source })]),
    {
        self.push_instruction(Instruction::ElementsDrop(ElementsDrop { source }));
    }

    /// Loads from memory at `source` plus `offset` into `destination`.
    pub fn add_memory_load(&mut self, destination: u16, source: Location, offset: u32, kind: LoadType)
        ensures
            final(self)@ == emitted(old(self)@, seq![Instruction::MemoryLoad(MemoryLoad { destination, source, offset, kind })]),
    {
        self.push_instruction(Instruction::MemoryLoad(MemoryLoad { destination, source, offset, kind }));
    }

    /// Stores `source` to memory at `destination` plus `offset`.
    pub fn add_memory_store(&mut self, destination: Location, source: u16, offset: u32, kind: StoreType)
        ensures
            final(self)@ == emitted(old(self)@, seq![Instruction::MemoryStore(MemoryStore { destination, source, offset, kind })]),
    {
        self.push_instruction(Instruction::MemoryStore(MemoryStore { destination, source, offset, kind }));
    }

    /// Reads the size of `memory`, in bytes, into `destination`.
    fn add_memory_size(&mut self, destination: u16, memory: u16)
        ensures
            final(self)@ == emitted(old(self)@, seq![Instruction::MemorySize(MemorySize { destination, memory })]),
    {
        self.push_instruction(Instruction::MemorySize(MemorySize { destination, memory }));
    }

    /// Grows `memory` by `size` bytes, its old size or -1 going to `destination`.
    fn add_memory_grow(&mut self, destination: u16, memory: u16, size: u16)
        ensures
            final(self)@ == emitted(old(self)@, seq![Instruction::MemoryGrow(MemoryGrow { destination, memory, size })]),
    {
        self.push_instruction(Instruction::MemoryGrow(MemoryGrow { destination, memory, size }));
    }

    /// Fills `size` bytes of memory from `destination` with `byte`.
    pub fn add_memory_fill(&mut self, destination: Location, byte: u16, size: u16)
        ensures
            final(self)@ == emitted(old(self)@, seq![Instruction::MemoryFill(MemoryFill { destination, byte, size })]),
    {
        self.push_instruction(Instruction::MemoryFill(MemoryFill { destination, byte, size }));
    }

    /// Copies `size` bytes of memory from `source` to `destination`.
    pub fn add_memory_copy(&mut self, destination: Location, source: Location, size: u16)
        ensures
            final(self)@ == emitted(old(self)@, seq![Instruction::MemoryCopy(MemoryCopy { destination, source, size })]),
    {
        self.push_instruction(Instruction::MemoryCopy(MemoryCopy { destination, source, size }));
    }

    /// Copies `size` bytes of a data segment at `source` into memory at `destination`.
    pub fn add_memory_init(&mut self, destination: Location, source: Location, size: u16)
        ensures
            final(self)@ == emitted(old(self)@, seq![Instruction::MemoryInit(MemoryInit { destination, source, size })]),
    {
        self.push_instruction(Instruction::MemoryInit(MemoryInit { destination, source, size }));
    }

    /// Drops data segment `source`.
    pub fn add_data_drop(&mut self, source: u16)
        ensures
            final(self)@ == emitted(old(self)@, seq![Instruction::DataDrop(DataDrop { source })]),
    {
        self.push_instruction(Instruction::DataDrop(DataDrop { source }));
    }
}

} // verus!
