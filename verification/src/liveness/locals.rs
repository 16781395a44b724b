//! Liveness of registers: which registers hold a value that is still read
//! later, found by walking instructions backwards.

use vstd::prelude::*;

use crate::{
    liveness::live_set::LiveSet,
    wasm::instruction::{
        Call, F32Constant, F64Constant, GlobalGet, GlobalSet, I32Constant, I64Constant,
        Instruction, IntegerBinaryOperation, IntegerCompareOperation, IntegerConvertToNumber,
        IntegerExtend, IntegerNarrow, IntegerTransmuteToNumber, IntegerUnaryOperation,
        IntegerWiden, LocalBranch, LocalSet, MemoryCopy, MemoryFill, MemoryGrow, MemoryInit,
        MemoryLoad, MemorySize, MemoryStore, NumberBinaryOperation, NumberCompareOperation,
        NumberNarrow, NumberTransmuteToInteger, NumberTruncateToInteger, NumberUnaryOperation,
        NumberWiden, RefFunction, RefIsNull, RefNull, TableCopy, TableFill, TableGet, TableGrow,
        TableInit, TableSet, TableSize,
    },
};

verus! {

/// The registers from `range.0` up to, and not including, `range.1`.
pub open spec fn range_set(range: (u16, u16)) -> Set<int> {
    Set::new(|l: int| range.0 <= l < range.1)
}

/// The end of a register range when it holds a register, and zero otherwise.
pub open spec fn range_reach(range: (u16, u16)) -> int {
    if range.0 < range.1 {
        range.1 as int
    } else {
        0
    }
}

/// The larger of two integers.
pub open spec fn max_int(a: int, b: int) -> int {
    if a < b {
        b
    } else {
        a
    }
}

/// The registers that `instruction` writes.
pub open spec fn defs(instruction: Instruction) -> Set<int> {
    match instruction {
        Instruction::LocalSet(x) => set![x.destination as int],
        Instruction::I32Constant(x) => set![x.destination as int],
        Instruction::I64Constant(x) => set![x.destination as int],
        Instruction::F32Constant(x) => set![x.destination as int],
        Instruction::F64Constant(x) => set![x.destination as int],
        Instruction::RefIsNull(x) => set![x.destination as int],
        Instruction::RefNull(x) => set![x.destination as int],
        Instruction::RefFunction(x) => set![x.destination as int],
        Instruction::Call(x) => range_set(x.destinations),
        Instruction::IntegerUnaryOperation(x) => set![x.destination as int],
        Instruction::IntegerBinaryOperation(x) => set![x.destination as int],
        Instruction::IntegerCompareOperation(x) => set![x.destination as int],
        Instruction::IntegerNarrow(x) => set![x.destination as int],
        Instruction::IntegerWiden(x) => set![x.destination as int],
        Instruction::IntegerExtend(x) => set![x.destination as int],
        Instruction::IntegerConvertToNumber(x) => set![x.destination as int],
        Instruction::IntegerTransmuteToNumber(x) => set![x.destination as int],
        Instruction::NumberUnaryOperation(x) => set![x.destination as int],
        Instruction::NumberBinaryOperation(x) => set![x.destination as int],
        Instruction::NumberCompareOperation(x) => set![x.destination as int],
        Instruction::NumberNarrow(x) => set![x.destination as int],
        Instruction::NumberWiden(x) => set![x.destination as int],
        Instruction::NumberTruncateToInteger(x) => set![x.destination as int],
        Instruction::NumberTransmuteToInteger(x) => set![x.destination as int],
        Instruction::GlobalGet(x) => set![x.destination as int],
        Instruction::TableGet(x) => set![x.destination as int],
        Instruction::TableSize(x) => set![x.destination as int],
        Instruction::TableGrow(x) => set![x.destination as int],
        Instruction::MemoryLoad(x) => set![x.destination as int],
        Instruction::MemorySize(x) => set![x.destination as int],
        Instruction::MemoryGrow(x) => set![x.destination as int],
        _ => Set::empty(),
    }
}

/// The registers that `instruction` reads.
pub open spec fn uses(instruction: Instruction) -> Set<int> {
    match instruction {
        Instruction::LocalSet(x) => set![x.source as int],
        Instruction::LocalBranch(x) => set![x.source as int],
        Instruction::RefIsNull(x) => set![x.source as int],
        Instruction::Call(x) => range_set(x.sources).union(set![x.function as int]),
        Instruction::IntegerUnaryOperation(x) => set![x.source as int],
        Instruction::IntegerBinaryOperation(x) => set![x.lhs as int].union(set![x.rhs as int]),
        Instruction::IntegerCompareOperation(x) => set![x.lhs as int].union(set![x.rhs as int]),
        Instruction::IntegerNarrow(x) => set![x.source as int],
        Instruction::IntegerWiden(x) => set![x.source as int],
        Instruction::IntegerExtend(x) => set![x.source as int],
        Instruction::IntegerConvertToNumber(x) => set![x.source as int],
        Instruction::IntegerTransmuteToNumber(x) => set![x.source as int],
        Instruction::NumberUnaryOperation(x) => set![x.source as int],
        Instruction::NumberBinaryOperation(x) => set![x.lhs as int].union(set![x.rhs as int]),
        Instruction::NumberCompareOperation(x) => set![x.lhs as int].union(set![x.rhs as int]),
        Instruction::NumberNarrow(x) => set![x.source as int],
        Instruction::NumberWiden(x) => set![x.source as int],
        Instruction::NumberTruncateToInteger(x) => set![x.source as int],
        Instruction::NumberTransmuteToInteger(x) => set![x.source as int],
        Instruction::GlobalSet(x) => set![x.source as int],
        Instruction::TableGet(x) => set![x.source.offset as int],
        Instruction::TableSet(x) => set![x.destination.offset as int].union(set![x.source as int]),
        Instruction::TableGrow(x) => set![x.size as int].union(set![x.initializer as int]),
        Instruction::TableFill(x) => set![x.destination.offset as int].union(set![x.source as int].union(set![x.size as int])),
        Instruction::TableCopy(x) => set![x.destination.offset as int].union(set![x.source.offset as int].union(set![x.size as int])),
        Instruction::TableInit(x) => set![x.destination.offset as int].union(set![x.source.offset as int].union(set![x.size as int])),
        Instruction::MemoryLoad(x) => set![x.source.offset as int],
        Instruction::MemoryStore(x) => set![x.destination.offset as int].union(set![x.source as int]),
        Instruction::MemoryGrow(x) => set![x.size as int],
        Instruction::MemoryFill(x) => set![x.destination.offset as int].union(set![x.byte as int].union(set![x.size as int])),
        Instruction::MemoryCopy(x) => set![x.destination.offset as int].union(set![x.source.offset as int].union(set![x.size as int])),
        Instruction::MemoryInit(x) => set![x.destination.offset as int].union(set![x.source.offset as int].union(set![x.size as int])),
        _ => Set::empty(),
    }
}

/// One more than the largest register that `instruction` names, or zero.
pub open spec fn reach(instruction: Instruction) -> int {
    match instruction {
        Instruction::LocalSet(x) => max_int(x.destination + 1, x.source + 1),
        Instruction::LocalBranch(x) => x.source + 1,
        Instruction::I32Constant(x) => x.destination + 1,
        Instruction::I64Constant(x) => x.destination + 1,
        Instruction::F32Constant(x) => x.destination + 1,
        Instruction::F64Constant(x) => x.destination + 1,
        Instruction::RefIsNull(x) => max_int(x.destination + 1, x.source + 1),
        Instruction::RefNull(x) => x.destination + 1,
        Instruction::RefFunction(x) => x.destination + 1,
        Instruction::Call(x) => max_int(max_int(range_reach(x.destinations), range_reach(x.sources)), x.function + 1),
        Instruction::IntegerUnaryOperation(x) => max_int(x.destination + 1, x.source + 1),
        Instruction::IntegerBinaryOperation(x) => max_int(max_int(x.destination + 1, x.lhs + 1), x.rhs + 1),
        Instruction::IntegerCompareOperation(x) => max_int(max_int(x.destination + 1, x.lhs + 1), x.rhs + 1),
        Instruction::IntegerNarrow(x) => max_int(x.destination + 1, x.source + 1),
        Instruction::IntegerWiden(x) => max_int(x.destination + 1, x.source + 1),
        Instruction::IntegerExtend(x) => max_int(x.destination + 1, x.source + 1),
        Instruction::IntegerConvertToNumber(x) => max_int(x.destination + 1, x.source + 1),
        Instruction::IntegerTransmuteToNumber(x) => max_int(x.destination + 1, x.source + 1),
        Instruction::NumberUnaryOperation(x) => max_int(x.destination + 1, x.source + 1),
        Instruction::NumberBinaryOperation(x) => max_int(max_int(x.destination + 1, x.lhs + 1), x.rhs + 1),
        Instruction::NumberCompareOperation(x) => max_int(max_int(x.destination + 1, x.lhs + 1), x.rhs + 1),
        Instruction::NumberNarrow(x) => max_int(x.destination + 1, x.source + 1),
        Instruction::NumberWiden(x) => max_int(x.destination + 1, x.source + 1),
        Instruction::NumberTruncateToInteger(x) => max_int(x.destination + 1, x.source + 1),
        Instruction::NumberTransmuteToInteger(x) => max_int(x.destination + 1, x.source + 1),
        Instruction::GlobalGet(x) => x.destination + 1,
        Instruction::GlobalSet(x) => x.source + 1,
        Instruction::TableGet(x) => max_int(x.destination + 1, x.source.offset + 1),
        Instruction::TableSet(x) => max_int(x.destination.offset + 1, x.source + 1),
        Instruction::TableSize(x) => x.destination + 1,
        Instruction::TableGrow(x) => max_int(max_int(x.destination + 1, x.size + 1), x.initializer + 1),
        Instruction::TableFill(x) => max_int(max_int(x.destination.offset + 1, x.source + 1), x.size + 1),
        Instruction::TableCopy(x) => max_int(max_int(x.destination.offset + 1, x.source.offset + 1), x.size + 1),
        Instruction::TableInit(x) => max_int(max_int(x.destination.offset + 1, x.source.offset + 1), x.size + 1),
        Instruction::MemoryLoad(x) => max_int(x.destination + 1, x.source.offset + 1),
        Instruction::MemoryStore(x) => max_int(x.destination.offset + 1, x.source + 1),
        Instruction::MemorySize(x) => x.destination + 1,
        Instruction::MemoryGrow(x) => max_int(x.destination + 1, x.size + 1),
        Instruction::MemoryFill(x) => max_int(max_int(x.destination.offset + 1, x.byte + 1), x.size + 1),
        Instruction::MemoryCopy(x) => max_int(max_int(x.destination.offset + 1, x.source.offset + 1), x.size + 1),
        Instruction::MemoryInit(x) => max_int(max_int(x.destination.offset + 1, x.source.offset + 1), x.size + 1),
        _ => 0,
    }
}

/// Whether every single register that `instruction` names is below the
/// largest `u16`, so that one more than it is a register count.
pub open spec fn registers_fit(instruction: Instruction) -> bool {
    match instruction {
        Instruction::LocalSet(x) => x.destination < u16::MAX && x.source < u16::MAX,
        Instruction::LocalBranch(x) => x.source < u16::MAX,
        Instruction::I32Constant(x) => x.destination < u16::MAX,
        Instruction::I64Constant(x) => x.destination < u16::MAX,
        Instruction::F32Constant(x) => x.destination < u16::MAX,
        Instruction::F64Constant(x) => x.destination < u16::MAX,
        Instruction::RefIsNull(x) => x.destination < u16::MAX && x.source < u16::MAX,
        Instruction::RefNull(x) => x.destination < u16::MAX,
        Instruction::RefFunction(x) => x.destination < u16::MAX,
        Instruction::Call(x) => x.function < u16::MAX,
        Instruction::IntegerUnaryOperation(x) => x.destination < u16::MAX && x.source < u16::MAX,
        Instruction::IntegerBinaryOperation(x) => x.destination < u16::MAX && x.lhs < u16::MAX && x.rhs < u16::MAX,
        Instruction::IntegerCompareOperation(x) => x.destination < u16::MAX && x.lhs < u16::MAX && x.rhs < u16::MAX,
        Instruction::IntegerNarrow(x) => x.destination < u16::MAX && x.source < u16::MAX,
        Instruction::IntegerWiden(x) => x.destination < u16::MAX && x.source < u16::MAX,
        Instruction::IntegerExtend(x) => x.destination < u16::MAX && x.source < u16::MAX,
        Instruction::IntegerConvertToNumber(x) => x.destination < u16::MAX && x.source < u16::MAX,
        Instruction::IntegerTransmuteToNumber(x) => x.destination < u16::MAX && x.source < u16::MAX,
        Instruction::NumberUnaryOperation(x) => x.destination < u16::MAX && x.source < u16::MAX,
        Instruction::NumberBinaryOperation(x) => x.destination < u16::MAX && x.lhs < u16::MAX && x.rhs < u16::MAX,
        Instruction::NumberCompareOperation(x) => x.destination < u16::MAX && x.lhs < u16::MAX && x.rhs < u16::MAX,
        Instruction::NumberNarrow(x) => x.destination < u16::MAX && x.source < u16::MAX,
        Instruction::NumberWiden(x) => x.destination < u16::MAX && x.source < u16::MAX,
        Instruction::NumberTruncateToInteger(x) => x.destination < u16::MAX && x.source < u16::MAX,
        Instruction::NumberTransmuteToInteger(x) => x.destination < u16::MAX && x.source < u16::MAX,
        Instruction::GlobalGet(x) => x.destination < u16::MAX,
        Instruction::GlobalSet(x) => x.source < u16::MAX,
        Instruction::TableGet(x) => x.destination < u16::MAX && x.source.offset < u16::MAX,
        Instruction::TableSet(x) => x.destination.offset < u16::MAX && x.source < u16::MAX,
        Instruction::TableSize(x) => x.destination < u16::MAX,
        Instruction::TableGrow(x) => x.destination < u16::MAX && x.size < u16::MAX && x.initializer < u16::MAX,
        Instruction::TableFill(x) => x.destination.offset < u16::MAX && x.source < u16::MAX && x.size < u16::MAX,
        Instruction::TableCopy(x) => x.destination.offset < u16::MAX && x.source.offset < u16::MAX && x.size < u16::MAX,
        Instruction::TableInit(x) => x.destination.offset < u16::MAX && x.source.offset < u16::MAX && x.size < u16::MAX,
        Instruction::MemoryLoad(x) => x.destination < u16::MAX && x.source.offset < u16::MAX,
        Instruction::MemoryStore(x) => x.destination.offset < u16::MAX && x.source < u16::MAX,
        Instruction::MemorySize(x) => x.destination < u16::MAX,
        Instruction::MemoryGrow(x) => x.destination < u16::MAX && x.size < u16::MAX,
        Instruction::MemoryFill(x) => x.destination.offset < u16::MAX && x.byte < u16::MAX && x.size < u16::MAX,
        Instruction::MemoryCopy(x) => x.destination.offset < u16::MAX && x.source.offset < u16::MAX && x.size < u16::MAX,
        Instruction::MemoryInit(x) => x.destination.offset < u16::MAX && x.source.offset < u16::MAX && x.size < u16::MAX,
        _ => true,
    }
}

/// The registers live before `instruction`, when `live` are live after it.
pub open spec fn transfer(instruction: Instruction, live: Set<int>) -> Set<int> {
    live.difference(defs(instruction)).union(uses(instruction))
}

/// Liveness reads what an instruction reads: every register that an
/// instruction takes as an operand is live before it, whatever is live after.
pub proof fn lemma_operands_live_before(instruction: Instruction, live: Set<int>)
    ensures
        match instruction {
            Instruction::LocalSet(x) => transfer(instruction, live).contains(x.source as int),
            Instruction::LocalBranch(x) => transfer(instruction, live).contains(x.source as int),
            Instruction::RefIsNull(x) => transfer(instruction, live).contains(x.source as int),
            Instruction::Call(x) => transfer(instruction, live).contains(x.function as int) && (forall|l: int| #[trigger] range_set(x.sources).contains(l) ==> transfer(instruction, live).contains(l)),
            Instruction::IntegerUnaryOperation(x) => transfer(instruction, live).contains(x.source as int),
            Instruction::IntegerBinaryOperation(x) => transfer(instruction, live).contains(x.lhs as int) && transfer(instruction, live).contains(x.rhs as int),
            Instruction::IntegerCompareOperation(x) => transfer(instruction, live).contains(x.lhs as int) && transfer(instruction, live).contains(x.rhs as int),
            Instruction::IntegerNarrow(x) => transfer(instruction, live).contains(x.source as int),
            Instruction::IntegerWiden(x) => transfer(instruction, live).contains(x.source as int),
            Instruction::IntegerExtend(x) => transfer(instruction, live).contains(x.source as int),
            Instruction::IntegerConvertToNumber(x) => transfer(instruction, live).contains(x.source as int),
            Instruction::IntegerTransmuteToNumber(x) => transfer(instruction, live).contains(x.source as int),
            Instruction::NumberUnaryOperation(x) => transfer(instruction, live).contains(x.source as int),
            Instruction::NumberBinaryOperation(x) => transfer(instruction, live).contains(x.lhs as int) && transfer(instruction, live).contains(x.rhs as int),
            Instruction::NumberCompareOperation(x) => transfer(instruction, live).contains(x.lhs as int) && transfer(instruction, live).contains(x.rhs as int),
            Instruction::NumberNarrow(x) => transfer(instruction, live).contains(x.source as int),
            Instruction::NumberWiden(x) => transfer(instruction, live).contains(x.source as int),
            Instruction::NumberTruncateToInteger(x) => transfer(instruction, live).contains(x.source as int),
            Instruction::NumberTransmuteToInteger(x) => transfer(instruction, live).contains(x.source as int),
            Instruction::GlobalSet(x) => transfer(instruction, live).contains(x.source as int),
            Instruction::TableGet(x) => transfer(instruction, live).contains(x.source.offset as int),
            Instruction::TableSet(x) => transfer(instruction, live).contains(x.destination.offset as int) && transfer(instruction, live).contains(x.source as int),
            Instruction::TableGrow(x) => transfer(instruction, live).contains(x.size as int) && transfer(instruction, live).contains(x.initializer as int),
            Instruction::TableFill(x) => transfer(instruction, live).contains(x.destination.offset as int) && transfer(instruction, live).contains(x.source as int) && transfer(instruction, live).contains(x.size as int),
            Instruction::TableCopy(x) => transfer(instruction, live).contains(x.destination.offset as int) && transfer(instruction, live).contains(x.source.offset as int) && transfer(instruction, live).contains(x.size as int),
            Instruction::TableInit(x) => transfer(instruction, live).contains(x.destination.offset as int) && transfer(instruction, live).contains(x.source.offset as int) && transfer(instruction, live).contains(x.size as int),
            Instruction::MemoryLoad(x) => transfer(instruction, live).contains(x.source.offset as int),
            Instruction::MemoryStore(x) => transfer(instruction, live).contains(x.destination.offset as int) && transfer(instruction, live).contains(x.source as int),
            Instruction::MemoryGrow(x) => transfer(instruction, live).contains(x.size as int),
            Instruction::MemoryFill(x) => transfer(instruction, live).contains(x.destination.offset as int) && transfer(instruction, live).contains(x.byte as int) && transfer(instruction, live).contains(x.size as int),
            Instruction::MemoryCopy(x) => transfer(instruction, live).contains(x.destination.offset as int) && transfer(instruction, live).contains(x.source.offset as int) && transfer(instruction, live).contains(x.size as int),
            Instruction::MemoryInit(x) => transfer(instruction, live).contains(x.destination.offset as int) && transfer(instruction, live).contains(x.source.offset as int) && transfer(instruction, live).contains(x.size as int),
            _ => true,
        },
{
}

/// Liveness kills what an instruction writes: a register that an instruction
/// writes, and does not also read, is dead before it.
pub proof fn lemma_results_dead_before(instruction: Instruction, live: Set<int>)
    ensures
        match instruction {
            Instruction::LocalSet(x) => (x.destination != x.source) ==> !transfer(instruction, live).contains(x.destination as int),
            Instruction::RefIsNull(x) => (x.destination != x.source) ==> !transfer(instruction, live).contains(x.destination as int),
            Instruction::Call(x) => forall|l: int| #[trigger] range_set(x.destinations).contains(l) && l != x.function as int && !range_set(x.sources).contains(l) ==> !transfer(instruction, live).contains(l),
            Instruction::IntegerUnaryOperation(x) => (x.destination != x.source) ==> !transfer(instruction, live).contains(x.destination as int),
            Instruction::IntegerBinaryOperation(x) => (x.destination != x.lhs && x.destination != x.rhs) ==> !transfer(instruction, live).contains(x.destination as int),
            Instruction::IntegerCompareOperation(x) => (x.destination != x.lhs && x.destination != x.rhs) ==> !transfer(instruction, live).contains(x.destination as int),
            Instruction::IntegerNarrow(x) => (x.destination != x.source) ==> !transfer(instruction, live).contains(x.destination as int),
            Instruction::IntegerWiden(x) => (x.destination != x.source) ==> !transfer(instruction, live).contains(x.destination as int),
            Instruction::IntegerExtend(x) => (x.destination != x.source) ==> !transfer(instruction, live).contains(x.destination as int),
            Instruction::IntegerConvertToNumber(x) => (x.destination != x.source) ==> !transfer(instruction, live).contains(x.destination as int),
            Instruction::IntegerTransmuteToNumber(x) => (x.destination != x.source) ==> !transfer(instruction, live).contains(x.destination as int),
            Instruction::NumberUnaryOperation(x) => (x.destination != x.source) ==> !transfer(instruction, live).contains(x.destination as int),
            Instruction::NumberBinaryOperation(x) => (x.destination != x.lhs && x.destination != x.rhs) ==> !transfer(instruction, live).contains(x.destination as int),
            Instruction::NumberCompareOperation(x) => (x.destination != x.lhs && x.destination != x.rhs) ==> !transfer(instruction, live).contains(x.destination as int),
            Instruction::NumberNarrow(x) => (x.destination != x.source) ==> !transfer(instruction, live).contains(x.destination as int),
            Instruction::NumberWiden(x) => (x.destination != x.source) ==> !transfer(instruction, live).contains(x.destination as int),
            Instruction::NumberTruncateToInteger(x) => (x.destination != x.source) ==> !transfer(instruction, live).contains(x.destination as int),
            Instruction::NumberTransmuteToInteger(x) => (x.destination != x.source) ==> !transfer(instruction, live).contains(x.destination as int),
            Instruction::TableGet(x) => (x.destination != x.source.offset) ==> !transfer(instruction, live).contains(x.destination as int),
            Instruction::TableGrow(x) => (x.destination != x.size && x.destination != x.initializer) ==> !transfer(instruction, live).contains(x.destination as int),
            Instruction::MemoryLoad(x) => (x.destination != x.source.offset) ==> !transfer(instruction, live).contains(x.destination as int),
            Instruction::MemoryGrow(x) => (x.destination != x.size) ==> !transfer(instruction, live).contains(x.destination as int),
            Instruction::I32Constant(x) => (true) ==> !transfer(instruction, live).contains(x.destination as int),
            Instruction::I64Constant(x) => (true) ==> !transfer(instruction, live).contains(x.destination as int),
            Instruction::F32Constant(x) => (true) ==> !transfer(instruction, live).contains(x.destination as int),
            Instruction::F64Constant(x) => (true) ==> !transfer(instruction, live).contains(x.destination as int),
            Instruction::RefNull(x) => (true) ==> !transfer(instruction, live).contains(x.destination as int),
            Instruction::RefFunction(x) => (true) ==> !transfer(instruction, live).contains(x.destination as int),
            Instruction::GlobalGet(x) => (true) ==> !transfer(instruction, live).contains(x.destination as int),
            Instruction::TableSize(x) => (true) ==> !transfer(instruction, live).contains(x.destination as int),
            Instruction::MemorySize(x) => (true) ==> !transfer(instruction, live).contains(x.destination as int),
            _ => true,
        },
{
}

/// Liveness adds nothing an instruction does not read: a register live
/// before an instruction is live after it or one of its operands.
pub proof fn lemma_live_before_is_read_or_live(instruction: Instruction, live: Set<int>)
    ensures
        match instruction {
            Instruction::LocalSet(x) => forall|l: int| #[trigger] transfer(instruction, live).contains(l) ==> live.contains(l) || l == x.source as int,
            Instruction::LocalBranch(x) => forall|l: int| #[trigger] transfer(instruction, live).contains(l) ==> live.contains(l) || l == x.source as int,
            Instruction::RefIsNull(x) => forall|l: int| #[trigger] transfer(instruction, live).contains(l) ==> live.contains(l) || l == x.source as int,
            Instruction::Call(x) => forall|l: int| #[trigger] transfer(instruction, live).contains(l) ==> live.contains(l) || l == x.function as int || range_set(x.sources).contains(l),
            Instruction::IntegerUnaryOperation(x) => forall|l: int| #[trigger] transfer(instruction, live).contains(l) ==> live.contains(l) || l == x.source as int,
            Instruction::IntegerBinaryOperation(x) => forall|l: int| #[trigger] transfer(instruction, live).contains(l) ==> live.contains(l) || l == x.lhs as int || l == x.rhs as int,
            Instruction::IntegerCompareOperation(x) => forall|l: int| #[trigger] transfer(instruction, live).contains(l) ==> live.contains(l) || l == x.lhs as int || l == x.rhs as int,
            Instruction::IntegerNarrow(x) => forall|l: int| #[trigger] transfer(instruction, live).contains(l) ==> live.contains(l) || l == x.source as int,
            Instruction::IntegerWiden(x) => forall|l: int| #[trigger] transfer(instruction, live).contains(l) ==> live.contains(l) || l == x.source as int,
            Instruction::IntegerExtend(x) => forall|l: int| #[trigger] transfer(instruction, live).contains(l) ==> live.contains(l) || l == x.source as int,
            Instruction::IntegerConvertToNumber(x) => forall|l: int| #[trigger] transfer(instruction, live).contains(l) ==> live.contains(l) || l == x.source as int,
            Instruction::IntegerTransmuteToNumber(x) => forall|l: int| #[trigger] transfer(instruction, live).contains(l) ==> live.contains(l) || l == x.source as int,
            Instruction::NumberUnaryOperation(x) => forall|l: int| #[trigger] transfer(instruction, live).contains(l) ==> live.contains(l) || l == x.source as int,
            Instruction::NumberBinaryOperation(x) => forall|l: int| #[trigger] transfer(instruction, live).contains(l) ==> live.contains(l) || l == x.lhs as int || l == x.rhs as int,
            Instruction::NumberCompareOperation(x) => forall|l: int| #[trigger] transfer(instruction, live).contains(l) ==> live.contains(l) || l == x.lhs as int || l == x.rhs as int,
            Instruction::NumberNarrow(x) => forall|l: int| #[trigger] transfer(instruction, live).contains(l) ==> live.contains(l) || l == x.source as int,
            Instruction::NumberWiden(x) => forall|l: int| #[trigger] transfer(instruction, live).contains(l) ==> live.contains(l) || l == x.source as int,
            Instruction::NumberTruncateToInteger(x) => forall|l: int| #[trigger] transfer(instruction, live).contains(l) ==> live.contains(l) || l == x.source as int,
            Instruction::NumberTransmuteToInteger(x) => forall|l: int| #[trigger] transfer(instruction, live).contains(l) ==> live.contains(l) || l == x.source as int,
            Instruction::GlobalSet(x) => forall|l: int| #[trigger] transfer(instruction, live).contains(l) ==> live.contains(l) || l == x.source as int,
            Instruction::TableGet(x) => forall|l: int| #[trigger] transfer(instruction, live).contains(l) ==> live.contains(l) || l == x.source.offset as int,
            Instruction::TableSet(x) => forall|l: int| #[trigger] transfer(instruction, live).contains(l) ==> live.contains(l) || l == x.destination.offset as int || l == x.source as int,
            Instruction::TableGrow(x) => forall|l: int| #[trigger] transfer(instruction, live).contains(l) ==> live.contains(l) || l == x.size as int || l == x.initializer as int,
            Instruction::TableFill(x) => forall|l: int| #[trigger] transfer(instruction, live).contains(l) ==> live.contains(l) || l == x.destination.offset as int || l == x.source as int || l == x.size as int,
            Instruction::TableCopy(x) => forall|l: int| #[trigger] transfer(instruction, live).contains(l) ==> live.contains(l) || l == x.destination.offset as int || l == x.source.offset as int || l == x.size as int,
            Instruction::TableInit(x) => forall|l: int| #[trigger] transfer(instruction, live).contains(l) ==> live.contains(l) || l == x.destination.offset as int || l == x.source.offset as int || l == x.size as int,
            Instruction::MemoryLoad(x) => forall|l: int| #[trigger] transfer(instruction, live).contains(l) ==> live.contains(l) || l == x.source.offset as int,
            Instruction::MemoryStore(x) => forall|l: int| #[trigger] transfer(instruction, live).contains(l) ==> live.contains(l) || l == x.destination.offset as int || l == x.source as int,
            Instruction::MemoryGrow(x) => forall|l: int| #[trigger] transfer(instruction, live).contains(l) ==> live.contains(l) || l == x.size as int,
            Instruction::MemoryFill(x) => forall|l: int| #[trigger] transfer(instruction, live).contains(l) ==> live.contains(l) || l == x.destination.offset as int || l == x.byte as int || l == x.size as int,
            Instruction::MemoryCopy(x) => forall|l: int| #[trigger] transfer(instruction, live).contains(l) ==> live.contains(l) || l == x.destination.offset as int || l == x.source.offset as int || l == x.size as int,
            Instruction::MemoryInit(x) => forall|l: int| #[trigger] transfer(instruction, live).contains(l) ==> live.contains(l) || l == x.destination.offset as int || l == x.source.offset as int || l == x.size as int,
            _ => forall|l: int| #[trigger] transfer(instruction, live).contains(l) ==> live.contains(l),
        },
{
}

/// The registers live before `instructions`, when `live` are live after them.
pub open spec fn live_before(instructions: Seq<Instruction>, live: Set<int>) -> Set<int>
    decreases instructions.len(),
{
    if instructions.len() == 0 {
        live
    } else {
        live_before(instructions.drop_last(), transfer(instructions.last(), live))
    }
}

/// One more than the largest register that `instructions` name, or zero.
pub open spec fn reach_all(instructions: Seq<Instruction>) -> int
    decreases instructions.len(),
{
    if instructions.len() == 0 {
        0
    } else {
        max_int(reach_all(instructions.drop_last()), reach(instructions.last()))
    }
}

/// Whether the items of `list` strictly ascend.
pub open spec fn ascending(list: Seq<u16>) -> bool {
    forall|i: int, j: int| 0 <= i < j < list.len() ==> list[i] < list[j]
}

/// The live registers at the start of each basic block, kept as one list of
/// registers and the range of it that belongs to each block.
pub struct Locals {
    locals: Vec<u16>,
    ranges: Vec<(u32, u32)>,
}

impl Locals {
    /// The number of basic blocks.
    pub closed spec fn block_count(&self) -> nat {
        self.ranges@.len()
    }

    /// The live registers recorded for block `id`.
    pub closed spec fn block(&self, id: int) -> Seq<u16> {
        self.locals@.subrange(self.ranges@[id].0 as int, self.ranges@[id].1 as int)
    }

    /// The number of registers recorded over all blocks.
    pub closed spec fn recorded(&self) -> nat {
        self.locals@.len()
    }

    /// Whether every block's range lies within the recorded registers, and
    /// each block's registers strictly ascend.
    pub closed spec fn well_formed(&self) -> bool {
        &&& forall|id: int|
            0 <= id < self.ranges@.len() ==> #[trigger] self.ranges@[id].0 <= self.ranges@[id].1
                <= self.locals@.len()
        &&& forall|id: int| 0 <= id < self.ranges@.len() ==> ascending(#[trigger] self.block(id))
    }

    /// Creates a new empty locals collection.
    pub fn new() -> (locals: Self)
        ensures
            locals.block_count() == 0,
            locals.recorded() == 0,
            locals.well_formed(),
    {
        Locals { locals: Vec::new(), ranges: Vec::new() }
    }

    /// Returns the live registers recorded for block `id`.
    pub fn get(&self, id: u16) -> (live: &[u16])
        requires
            self.well_formed(),
            id < self.block_count(),
        ensures
            live@ == self.block(id as int),
            ascending(live@),
    {
        let (start, end) = self.ranges[id as usize];
        vstd::slice::slice_subrange(self.locals.as_slice(), start as usize, end as usize)
    }

    /// Sets `successors` to the union of the live registers of the blocks
    /// `ids`, each register once, ascending.
    pub fn get_union(&self, ids: &[u16], successors: &mut Vec<u16>)
        requires
            self.well_formed(),
            forall|k: int| 0 <= k < ids@.len() ==> #[trigger] ids@[k] < self.block_count(),
        ensures
            ascending(final(successors)@),
            forall|x: u16|
                final(successors)@.contains(x) <==> exists|k: int|
                    0 <= k < ids@.len() && #[trigger] self.block(ids@[k] as int).contains(x),
    {
        successors.clear();
        let mut k: usize = 0;
        while k < ids.len()
            invariant
                self.well_formed(),
                forall|k: int| 0 <= k < ids@.len() ==> #[trigger] ids@[k] < self.block_count(),
                k <= ids@.len(),
                ascending(successors@),
                forall|x: u16|
                    successors@.contains(x) <==> exists|j: int|
                        0 <= j < k && #[trigger] self.block(ids@[j] as int).contains(x),
            decreases ids@.len() - k,
        {
            let live = self.get(ids[k]);
            let mut i: usize = 0;
            while i < live.len()
                invariant
                    live@ == self.block(ids@[k as int] as int),
                    k < ids@.len(),
                    i <= live@.len(),
                    ascending(successors@),
                    forall|x: u16|
                        successors@.contains(x) <==> (exists|j: int|
                            0 <= j < k && #[trigger] self.block(ids@[j] as int).contains(x))
                            || exists|a: int| 0 <= a < i && live@[a] == x,
                decreases live@.len() - i,
            {
                insert_ascending(successors, live[i]);
                i = i + 1;
            }
            proof {
                assert forall|x: u16|
                    successors@.contains(x) <==> exists|j: int|
                        0 <= j < k + 1 && #[trigger] self.block(ids@[j] as int).contains(x) by {
                    if exists|a: int| 0 <= a < live@.len() && live@[a] == x {
                        let a = choose|a: int| 0 <= a < live@.len() && live@[a] == x;
                        assert(self.block(ids@[k as int] as int).contains(x));
                    }
                    if self.block(ids@[k as int] as int).contains(x) {
                        let a = choose|a: int| 0 <= a < live@.len() && live@[a] == x;
                    }
                }
            }
            k = k + 1;
        }
    }

    /// Forgets every recorded register and makes room for `len` blocks, each
    /// with no live register.
    pub fn set_len(&mut self, len: usize)
        ensures
            final(self).block_count() == len,
            final(self).recorded() == 0,
            final(self).well_formed(),
            forall|id: int| 0 <= id < len ==> #[trigger] final(self).block(id) == Seq::<u16>::empty(),
    {
        self.locals.clear();
        self.ranges.clear();
        let mut i: usize = 0;
        while i < len
            invariant
                i <= len,
                self.locals@.len() == 0,
                self.ranges@.len() == i,
                forall|id: int| 0 <= id < i ==> #[trigger] self.ranges@[id] == (0u32, 0u32),
            decreases len - i,
        {
            self.ranges.push((0, 0));
            i = i + 1;
        }
        proof {
            assert forall|id: int| 0 <= id < len implies #[trigger] self.block(id) == Seq::<u16>::empty() by {
                assert(self.block(id) =~= Seq::<u16>::empty());
            }
        }
    }

    /// Records `set`, ascending register indices, as the live registers of
    /// block `id`.
    pub fn insert(&mut self, id: u16, set: &[usize])
        requires
            old(self).well_formed(),
            id < old(self).block_count(),
            old(self).recorded() + set@.len() <= u32::MAX,
            forall|k: int| 0 <= k < set@.len() ==> #[trigger] set@[k] <= u16::MAX,
            forall|i: int, j: int| 0 <= i < j < set@.len() ==> set@[i] < set@[j],
        ensures
            final(self).well_formed(),
            final(self).block_count() == old(self).block_count(),
            final(self).recorded() == old(self).recorded() + set@.len(),
            final(self).block(id as int) == set@.map_values(|index: usize| index as u16),
            forall|other: int|
                0 <= other < old(self).block_count() && other != id ==> #[trigger] final(self).block(other)
                    == old(self).block(other),
    {
        let start = self.locals.len() as u32;
        let ghost previous = self.locals@;
        let mut k: usize = 0;
        while k < set.len()
            invariant
                k <= set@.len(),
                start == previous.len(),
                previous.len() + set@.len() <= u32::MAX,
                forall|k: int| 0 <= k < set@.len() ==> #[trigger] set@[k] <= u16::MAX,
                self.locals@ == previous + set@.subrange(0, k as int).map_values(|index: usize| index as u16),
                self.ranges@ == old(self).ranges@,
            decreases set@.len() - k,
        {
            self.locals.push(set[k] as u16);
            k = k + 1;
            assert(set@.subrange(0, k as int).map_values(|index: usize| index as u16) =~= set@.subrange(
                0,
                k - 1,
            ).map_values(|index: usize| index as u16).push(set@[k - 1] as u16));
        }
        let end = self.locals.len() as u32;
        self.ranges.set(id as usize, (start, end));
        proof {
            assert(set@.subrange(0, set@.len() as int) =~= set@);
            assert(self.block(id as int) =~= set@.map_values(|index: usize| index as u16));
            assert forall|other: int|
                0 <= other < old(self).block_count() && other != id implies #[trigger] self.block(other)
                    == old(self).block(other) by {
                assert(self.ranges@[other] == old(self).ranges@[other]);
                assert(self.block(other) =~= old(self).block(other));
            }
            assert forall|other: int| 0 <= other < self.ranges@.len() implies ascending(#[trigger] self.block(other)) by {
                if other == id {
                    assert forall|i: int, j: int| 0 <= i < j < self.block(other).len() implies self.block(other)[i]
                        < self.block(other)[j] by {
                        assert(self.block(other)[i] == set@[i] as u16);
                        assert(self.block(other)[j] == set@[j] as u16);
                    }
                } else {
                    assert(self.block(other) == old(self).block(other));
                }
            }
        }
    }
}

/// Inserts `value` into the ascending `list`, unless it is already there.
fn insert_ascending(list: &mut Vec<u16>, value: u16)
    requires
        ascending(old(list)@),
    ensures
        ascending(final(list)@),
        forall|x: u16| final(list)@.contains(x) <==> (old(list)@.contains(x) || x == value),
{
    let ghost before = list@;
    let mut p: usize = 0;
    while p < list.len() && list[p] < value
        invariant
            list@ == before,
            before == old(list)@,
            p <= before.len(),
            forall|j: int| 0 <= j < p ==> before[j] < value,
        decreases before.len() - p,
    {
        p = p + 1;
    }
    if p < list.len() && list[p] == value {
        assert(before.contains(value));
        return;
    }
    list.insert(p, value);
    proof {
        assert(list@ =~= before.insert(p as int, value));
        assert forall|x: u16| #[trigger] list@.contains(x) <==> (before.contains(x) || x == value) by {
            if list@.contains(x) {
                let k = choose|k: int| 0 <= k < list@.len() && list@[k] == x;
                if k < p {
                    assert(before[k] == x);
                } else if k > p {
                    assert(before[k - 1] == x);
                }
            }
            if before.contains(x) {
                let k = choose|k: int| 0 <= k < before.len() && before[k] == x;
                if k < p {
                    assert(list@[k] == x);
                } else {
                    assert(list@[k + 1] == x);
                }
            }
            if x == value {
                assert(list@[p as int] == x);
            }
        }
    }
}

/// Tracks the live registers while walking a function backwards, and how
/// many registers it names.
pub struct LocalTracker {
    reads: LiveSet,
    count: u16,
}

impl LocalTracker {
    /// The registers live at the current point.
    pub closed spec fn reads(&self) -> Set<int> {
        self.reads@
    }

    /// One more than the largest register named so far.
    pub closed spec fn count(&self) -> u16 {
        self.count
    }

    /// Creates a new local tracker.
    pub fn new() -> (tracker: Self)
        ensures
            tracker.reads() =~= Set::empty(),
            tracker.count() == 0,
    {
        LocalTracker { reads: LiveSet::new(), count: 0 }
    }

    /// Returns one more than the largest register named so far.
    pub fn get_count(&self) -> (count: u16)
        ensures
            count == self.count(),
    {
        self.count
    }

    /// Returns the registers live at the current point, ascending.
    pub fn live(&self) -> (members: Vec<usize>)
        ensures
            forall|i: int, j: int| 0 <= i < j < members@.len() ==> members@[i] < members@[j],
            forall|x: int| self.reads().contains(x) <==> exists|k: int|
                0 <= k < members@.len() && members@[k] == x,
    {
        self.reads.ascending()
    }

    fn read_local(&mut self, local: u16)
        requires
            local < u16::MAX,
        ensures
            final(self).reads() == old(self).reads().insert(local as int),
            final(self).count() == max_int(old(self).count() as int, local + 1),
    {
        if self.count < local + 1 {
            self.count = local + 1;
        }
        self.reads.grow_insert(local as usize);
    }

    fn write_local(&mut self, local: u16)
        requires
            local < u16::MAX,
        ensures
            final(self).reads() == old(self).reads().remove(local as int),
            final(self).count() == max_int(old(self).count() as int, local + 1),
    {
        if self.count < local + 1 {
            self.count = local + 1;
        }
        self.reads.remove(local as usize);
    }

    fn write_range(&mut self, range: (u16, u16))
        ensures
            final(self).reads() == old(self).reads().difference(range_set(range)),
            final(self).count() == max_int(old(self).count() as int, range_reach(range)),
    {
        let ghost before = self.reads();
        let ghost count = self.count();
        let mut local = range.0;
        while local < range.1
            invariant
                range.0 <= local,
                local == range.0 || local <= range.1,
                before == old(self).reads(),
                count == old(self).count(),
                self.reads() == before.difference(Set::new(|l: int| range.0 <= l < local)),
                self.count() == max_int(count as int, if range.0 < local { local as int } else { 0 }),
            decreases range.1 - local,
        {
            let ghost previous = self.reads();
            self.write_local(local);
            local = local + 1;
            assert(self.count() == max_int(count as int, local as int));
            assert(self.reads() =~= before.difference(Set::new(|l: int| range.0 <= l < local)));
        }
        assert(self.reads() =~= before.difference(range_set(range)));
    }

    fn read_range(&mut self, range: (u16, u16))
        ensures
            final(self).reads() == old(self).reads().union(range_set(range)),
            final(self).count() == max_int(old(self).count() as int, range_reach(range)),
    {
        let ghost before = self.reads();
        let ghost count = self.count();
        let mut local = range.0;
        while local < range.1
            invariant
                range.0 <= local,
                local == range.0 || local <= range.1,
                before == old(self).reads(),
                count == old(self).count(),
                self.reads() == before.union(Set::new(|l: int| range.0 <= l < local)),
                self.count() == max_int(count as int, if range.0 < local { local as int } else { 0 }),
            decreases range.1 - local,
        {
            let ghost previous = self.reads();
            self.read_local(local);
            local = local + 1;
            assert(self.count() == max_int(count as int, local as int));
            assert(self.reads() =~= before.union(Set::new(|l: int| range.0 <= l < local)));
        }
        assert(self.reads() =~= before.union(range_set(range)));
    }

    /// Adds the live registers recorded for block `id` to the live registers.
    pub fn read_other_in(&mut self, locals: &Locals, id: u16)
        requires
            locals.well_formed(),
            id < locals.block_count(),
        ensures
            final(self).reads() == old(self).reads().union(
                Set::new(|l: int| exists|k: int| 0 <= k < locals.block(id as int).len() && locals.block(id as int)[k] == l),
            ),
            final(self).count() == old(self).count(),
    {
        let live = locals.get(id);
        let ghost before = self.reads();
        let mut i: usize = 0;
        while i < live.len()
            invariant
                i <= live@.len(),
                live@ == locals.block(id as int),
                self.count() == old(self).count(),
                self.reads() == before.union(Set::new(|l: int| exists|k: int| 0 <= k < i && live@[k] == l)),
            decreases live@.len() - i,
        {
            self.reads.grow_insert(live[i] as usize);
            proof {
                assert forall|l: int| #[trigger] self.reads().contains(l) <==> before.union(
                    Set::new(|l: int| exists|k: int| 0 <= k < i + 1 && live@[k] == l),
                ).contains(l) by {
                    if l == live@[i as int] {
                        assert(0 <= i < i + 1 && live@[i as int] == l);
                    }
                }
                assert(self.reads() =~= before.union(
                    Set::new(|l: int| exists|k: int| 0 <= k < i + 1 && live@[k] == l),
                ));
            }
            i = i + 1;
        }
    }

    fn handle_local_set(&mut self, instruction: LocalSet)
        requires
            registers_fit(Instruction::LocalSet(instruction)),
        ensures
            final(self).reads() == transfer(Instruction::LocalSet(instruction), old(self).reads()),
            final(self).count() == max_int(old(self).count() as int, reach(Instruction::LocalSet(instruction))),
    {
        let ghost before = self.reads();
        self.write_local(instruction.destination);
        self.read_local(instruction.source);
        assert(self.reads() =~= transfer(Instruction::LocalSet(instruction), before));
    }

    fn handle_local_branch(&mut self, instruction: LocalBranch)
        requires
            registers_fit(Instruction::LocalBranch(instruction)),
        ensures
            final(self).reads() == transfer(Instruction::LocalBranch(instruction), old(self).reads()),
            final(self).count() == max_int(old(self).count() as int, reach(Instruction::LocalBranch(instruction))),
    {
        let ghost before = self.reads();
        self.read_local(instruction.source);
        assert(self.reads() =~= transfer(Instruction::LocalBranch(instruction), before));
    }

    fn handle_i32_constant(&mut self, instruction: I32Constant)
        requires
            registers_fit(Instruction::I32Constant(instruction)),
        ensures
            final(self).reads() == transfer(Instruction::I32Constant(instruction), old(self).reads()),
            final(self).count() == max_int(old(self).count() as int, reach(Instruction::I32Constant(instruction))),
    {
        let ghost before = self.reads();
        self.write_local(instruction.destination);
        assert(self.reads() =~= transfer(Instruction::I32Constant(instruction), before));
    }

    fn handle_i64_constant(&mut self, instruction: I64Constant)
        requires
            registers_fit(Instruction::I64Constant(instruction)),
        ensures
            final(self).reads() == transfer(Instruction::I64Constant(instruction), old(self).reads()),
            final(self).count() == max_int(old(self).count() as int, reach(Instruction::I64Constant(instruction))),
    {
        let ghost before = self.reads();
        self.write_local(instruction.destination);
        assert(self.reads() =~= transfer(Instruction::I64Constant(instruction), before));
    }

    fn handle_f32_constant(&mut self, instruction: F32Constant)
        requires
            registers_fit(Instruction::F32Constant(instruction)),
        ensures
            final(self).reads() == transfer(Instruction::F32Constant(instruction), old(self).reads()),
            final(self).count() == max_int(old(self).count() as int, reach(Instruction::F32Constant(instruction))),
    {
        let ghost before = self.reads();
        self.write_local(instruction.destination);
        assert(self.reads() =~= transfer(Instruction::F32Constant(instruction), before));
    }

    fn handle_f64_constant(&mut self, instruction: F64Constant)
        requires
            registers_fit(Instruction::F64Constant(instruction)),
        ensures
            final(self).reads() == transfer(Instruction::F64Constant(instruction), old(self).reads()),
            final(self).count() == max_int(old(self).count() as int, reach(Instruction::F64Constant(instruction))),
    {
        let ghost before = self.reads();
        self.write_local(instruction.destination);
        assert(self.reads() =~= transfer(Instruction::F64Constant(instruction), before));
    }

    fn handle_ref_is_null(&mut self, instruction: RefIsNull)
        requires
            registers_fit(Instruction::RefIsNull(instruction)),
        ensures
            final(self).reads() == transfer(Instruction::RefIsNull(instruction), old(self).reads()),
            final(self).count() == max_int(old(self).count() as int, reach(Instruction::RefIsNull(instruction))),
    {
        let ghost before = self.reads();
        self.write_local(instruction.destination);
        self.read_local(instruction.source);
        assert(self.reads() =~= transfer(Instruction::RefIsNull(instruction), before));
    }

    fn handle_ref_null(&mut self, instruction: RefNull)
        requires
            registers_fit(Instruction::RefNull(instruction)),
        ensures
            final(self).reads() == transfer(Instruction::RefNull(instruction), old(self).reads()),
            final(self).count() == max_int(old(self).count() as int, reach(Instruction::RefNull(instruction))),
    {
        let ghost before = self.reads();
        self.write_local(instruction.destination);
        assert(self.reads() =~= transfer(Instruction::RefNull(instruction), before));
    }

    fn handle_ref_function(&mut self, instruction: RefFunction)
        requires
            registers_fit(Instruction::RefFunction(instruction)),
        ensures
            final(self).reads() == transfer(Instruction::RefFunction(instruction), old(self).reads()),
            final(self).count() == max_int(old(self).count() as int, reach(Instruction::RefFunction(instruction))),
    {
        let ghost before = self.reads();
        self.write_local(instruction.destination);
        assert(self.reads() =~= transfer(Instruction::RefFunction(instruction), before));
    }

    fn handle_call(&mut self, instruction: Call)
        requires
            registers_fit(Instruction::Call(instruction)),
        ensures
            final(self).reads() == transfer(Instruction::Call(instruction), old(self).reads()),
            final(self).count() == max_int(old(self).count() as int, reach(Instruction::Call(instruction))),
    {
        let ghost before = self.reads();
        self.write_range(instruction.destinations);
        self.read_range(instruction.sources);
        self.read_local(instruction.function);
        assert(self.reads() =~= transfer(Instruction::Call(instruction), before));
    }

    fn handle_integer_unary_operation(&mut self, instruction: IntegerUnaryOperation)
        requires
            registers_fit(Instruction::IntegerUnaryOperation(instruction)),
        ensures
            final(self).reads() == transfer(Instruction::IntegerUnaryOperation(instruction), old(self).reads()),
            final(self).count() == max_int(old(self).count() as int, reach(Instruction::IntegerUnaryOperation(instruction))),
    {
        let ghost before = self.reads();
        self.write_local(instruction.destination);
        self.read_local(instruction.source);
        assert(self.reads() =~= transfer(Instruction::IntegerUnaryOperation(instruction), before));
    }

    fn handle_integer_binary_operation(&mut self, instruction: IntegerBinaryOperation)
        requires
            registers_fit(Instruction::IntegerBinaryOperation(instruction)),
        ensures
            final(self).reads() == transfer(Instruction::IntegerBinaryOperation(instruction), old(self).reads()),
            final(self).count() == max_int(old(self).count() as int, reach(Instruction::IntegerBinaryOperation(instruction))),
    {
        let ghost before = self.reads();
        self.write_local(instruction.destination);
        self.read_local(instruction.lhs);
        self.read_local(instruction.rhs);
        assert(self.reads() =~= transfer(Instruction::IntegerBinaryOperation(instruction), before));
    }

    fn handle_integer_compare_operation(&mut self, instruction: IntegerCompareOperation)
        requires
            registers_fit(Instruction::IntegerCompareOperation(instruction)),
        ensures
            final(self).reads() == transfer(Instruction::IntegerCompareOperation(instruction), old(self).reads()),
            final(self).count() == max_int(old(self).count() as int, reach(Instruction::IntegerCompareOperation(instruction))),
    {
        let ghost before = self.reads();
        self.write_local(instruction.destination);
        self.read_local(instruction.lhs);
        self.read_local(instruction.rhs);
        assert(self.reads() =~= transfer(Instruction::IntegerCompareOperation(instruction), before));
    }

    fn handle_integer_narrow(&mut self, instruction: IntegerNarrow)
        requires
            registers_fit(Instruction::IntegerNarrow(instruction)),
        ensures
            final(self).reads() == transfer(Instruction::IntegerNarrow(instruction), old(self).reads()),
            final(self).count() == max_int(old(self).count() as int, reach(Instruction::IntegerNarrow(instruction))),
    {
        let ghost before = self.reads();
        self.write_local(instruction.destination);
        self.read_local(instruction.source);
        assert(self.reads() =~= transfer(Instruction::IntegerNarrow(instruction), before));
    }

    fn handle_integer_widen(&mut self, instruction: IntegerWiden)
        requires
            registers_fit(Instruction::IntegerWiden(instruction)),
        ensures
            final(self).reads() == transfer(Instruction::IntegerWiden(instruction), old(self).reads()),
            final(self).count() == max_int(old(self).count() as int, reach(Instruction::IntegerWiden(instruction))),
    {
        let ghost before = self.reads();
        self.write_local(instruction.destination);
        self.read_local(instruction.source);
        assert(self.reads() =~= transfer(Instruction::IntegerWiden(instruction), before));
    }

    fn handle_integer_extend(&mut self, instruction: IntegerExtend)
        requires
            registers_fit(Instruction::IntegerExtend(instruction)),
        ensures
            final(self).reads() == transfer(Instruction::IntegerExtend(instruction), old(self).reads()),
            final(self).count() == max_int(old(self).count() as int, reach(Instruction::IntegerExtend(instruction))),
    {
        let ghost before = self.reads();
        self.write_local(instruction.destination);
        self.read_local(instruction.source);
        assert(self.reads() =~= transfer(Instruction::IntegerExtend(instruction), before));
    }

    fn handle_integer_convert_to_number(&mut self, instruction: IntegerConvertToNumber)
        requires
            registers_fit(Instruction::IntegerConvertToNumber(instruction)),
        ensures
            final(self).reads() == transfer(Instruction::IntegerConvertToNumber(instruction), old(self).reads()),
            final(self).count() == max_int(old(self).count() as int, reach(Instruction::IntegerConvertToNumber(instruction))),
    {
        let ghost before = self.reads();
        self.write_local(instruction.destination);
        self.read_local(instruction.source);
        assert(self.reads() =~= transfer(Instruction::IntegerConvertToNumber(instruction), before));
    }

    fn handle_integer_transmute_to_number(&mut self, instruction: IntegerTransmuteToNumber)
        requires
            registers_fit(Instruction::IntegerTransmuteToNumber(instruction)),
        ensures
            final(self).reads() == transfer(Instruction::IntegerTransmuteToNumber(instruction), old(self).reads()),
            final(self).count() == max_int(old(self).count() as int, reach(Instruction::IntegerTransmuteToNumber(instruction))),
    {
        let ghost before = self.reads();
        self.write_local(instruction.destination);
        self.read_local(instruction.source);
        assert(self.reads() =~= transfer(Instruction::IntegerTransmuteToNumber(instruction), before));
    }

    fn handle_number_unary_operation(&mut self, instruction: NumberUnaryOperation)
        requires
            registers_fit(Instruction::NumberUnaryOperation(instruction)),
        ensures
            final(self).reads() == transfer(Instruction::NumberUnaryOperation(instruction), old(self).reads()),
            final(self).count() == max_int(old(self).count() as int, reach(Instruction::NumberUnaryOperation(instruction))),
    {
        let ghost before = self.reads();
        self.write_local(instruction.destination);
        self.read_local(instruction.source);
        assert(self.reads() =~= transfer(Instruction::NumberUnaryOperation(instruction), before));
    }

    fn handle_number_binary_operation(&mut self, instruction: NumberBinaryOperation)
        requires
            registers_fit(Instruction::NumberBinaryOperation(instruction)),
        ensures
            final(self).reads() == transfer(Instruction::NumberBinaryOperation(instruction), old(self).reads()),
            final(self).count() == max_int(old(self).count() as int, reach(Instruction::NumberBinaryOperation(instruction))),
    {
        let ghost before = self.reads();
        self.write_local(instruction.destination);
        self.read_local(instruction.lhs);
        self.read_local(instruction.rhs);
        assert(self.reads() =~= transfer(Instruction::NumberBinaryOperation(instruction), before));
    }

    fn handle_number_compare_operation(&mut self, instruction: NumberCompareOperation)
        requires
            registers_fit(Instruction::NumberCompareOperation(instruction)),
        ensures
            final(self).reads() == transfer(Instruction::NumberCompareOperation(instruction), old(self).reads()),
            final(self).count() == max_int(old(self).count() as int, reach(Instruction::NumberCompareOperation(instruction))),
    {
        let ghost before = self.reads();
        self.write_local(instruction.destination);
        self.read_local(instruction.lhs);
        self.read_local(instruction.rhs);
        assert(self.reads() =~= transfer(Instruction::NumberCompareOperation(instruction), before));
    }

    fn handle_number_narrow(&mut self, instruction: NumberNarrow)
        requires
            registers_fit(Instruction::NumberNarrow(instruction)),
        ensures
            final(self).reads() == transfer(Instruction::NumberNarrow(instruction), old(self).reads()),
            final(self).count() == max_int(old(self).count() as int, reach(Instruction::NumberNarrow(instruction))),
    {
        let ghost before = self.reads();
        self.write_local(instruction.destination);
        self.read_local(instruction.source);
        assert(self.reads() =~= transfer(Instruction::NumberNarrow(instruction), before));
    }

    fn handle_number_widen(&mut self, instruction: NumberWiden)
        requires
            registers_fit(Instruction::NumberWiden(instruction)),
        ensures
            final(self).reads() == transfer(Instruction::NumberWiden(instruction), old(self).reads()),
            final(self).count() == max_int(old(self).count() as int, reach(Instruction::NumberWiden(instruction))),
    {
        let ghost before = self.reads();
        self.write_local(instruction.destination);
        self.read_local(instruction.source);
        assert(self.reads() =~= transfer(Instruction::NumberWiden(instruction), before));
    }

    fn handle_number_truncate_to_integer(&mut self, instruction: NumberTruncateToInteger)
        requires
            registers_fit(Instruction::NumberTruncateToInteger(instruction)),
        ensures
            final(self).reads() == transfer(Instruction::NumberTruncateToInteger(instruction), old(self).reads()),
            final(self).count() == max_int(old(self).count() as int, reach(Instruction::NumberTruncateToInteger(instruction))),
    {
        let ghost before = self.reads();
        self.write_local(instruction.destination);
        self.read_local(instruction.source);
        assert(self.reads() =~= transfer(Instruction::NumberTruncateToInteger(instruction), before));
    }

    fn handle_number_transmute_to_integer(&mut self, instruction: NumberTransmuteToInteger)
        requires
            registers_fit(Instruction::NumberTransmuteToInteger(instruction)),
        ensures
            final(self).reads() == transfer(Instruction::NumberTransmuteToInteger(instruction), old(self).reads()),
            final(self).count() == max_int(old(self).count() as int, reach(Instruction::NumberTransmuteToInteger(instruction))),
    {
        let ghost before = self.reads();
        self.write_local(instruction.destination);
        self.read_local(instruction.source);
        assert(self.reads() =~= transfer(Instruction::NumberTransmuteToInteger(instruction), before));
    }

    fn handle_global_get(&mut self, instruction: GlobalGet)
        requires
            registers_fit(Instruction::GlobalGet(instruction)),
        ensures
            final(self).reads() == transfer(Instruction::GlobalGet(instruction), old(self).reads()),
            final(self).count() == max_int(old(self).count() as int, reach(Instruction::GlobalGet(instruction))),
    {
        let ghost before = self.reads();
        self.write_local(instruction.destination);
        assert(self.reads() =~= transfer(Instruction::GlobalGet(instruction), before));
    }

    fn handle_global_set(&mut self, instruction: GlobalSet)
        requires
            registers_fit(Instruction::GlobalSet(instruction)),
        ensures
            final(self).reads() == transfer(Instruction::GlobalSet(instruction), old(self).reads()),
            final(self).count() == max_int(old(self).count() as int, reach(Instruction::GlobalSet(instruction))),
    {
        let ghost before = self.reads();
        self.read_local(instruction.source);
        assert(self.reads() =~= transfer(Instruction::GlobalSet(instruction), before));
    }

    fn handle_table_get(&mut self, instruction: TableGet)
        requires
            registers_fit(Instruction::TableGet(instruction)),
        ensures
            final(self).reads() == transfer(Instruction::TableGet(instruction), old(self).reads()),
            final(self).count() == max_int(old(self).count() as int, reach(Instruction::TableGet(instruction))),
    {
        let ghost before = self.reads();
        self.write_local(instruction.destination);
        self.read_local(instruction.source.offset);
        assert(self.reads() =~= transfer(Instruction::TableGet(instruction), before));
    }

    fn handle_table_set(&mut self, instruction: TableSet)
        requires
            registers_fit(Instruction::TableSet(instruction)),
        ensures
            final(self).reads() == transfer(Instruction::TableSet(instruction), old(self).reads()),
            final(self).count() == max_int(old(self).count() as int, reach(Instruction::TableSet(instruction))),
    {
        let ghost before = self.reads();
        self.read_local(instruction.destination.offset);
        self.read_local(instruction.source);
        assert(self.reads() =~= transfer(Instruction::TableSet(instruction), before));
    }

    fn handle_table_size(&mut self, instruction: TableSize)
        requires
            registers_fit(Instruction::TableSize(instruction)),
        ensures
            final(self).reads() == transfer(Instruction::TableSize(instruction), old(self).reads()),
            final(self).count() == max_int(old(self).count() as int, reach(Instruction::TableSize(instruction))),
    {
        let ghost before = self.reads();
        self.write_local(instruction.destination);
        assert(self.reads() =~= transfer(Instruction::TableSize(instruction), before));
    }

    fn handle_table_grow(&mut self, instruction: TableGrow)
        requires
            registers_fit(Instruction::TableGrow(instruction)),
        ensures
            final(self).reads() == transfer(Instruction::TableGrow(instruction), old(self).reads()),
            final(self).count() == max_int(old(self).count() as int, reach(Instruction::TableGrow(instruction))),
    {
        let ghost before = self.reads();
        self.write_local(instruction.destination);
        self.read_local(instruction.size);
        self.read_local(instruction.initializer);
        assert(self.reads() =~= transfer(Instruction::TableGrow(instruction), before));
    }

    fn handle_table_fill(&mut self, instruction: TableFill)
        requires
            registers_fit(Instruction::TableFill(instruction)),
        ensures
            final(self).reads() == transfer(Instruction::TableFill(instruction), old(self).reads()),
            final(self).count() == max_int(old(self).count() as int, reach(Instruction::TableFill(instruction))),
    {
        let ghost before = self.reads();
        self.read_local(instruction.destination.offset);
        self.read_local(instruction.source);
        self.read_local(instruction.size);
        assert(self.reads() =~= transfer(Instruction::TableFill(instruction), before));
    }

    fn handle_table_copy(&mut self, instruction: TableCopy)
        requires
            registers_fit(Instruction::TableCopy(instruction)),
        ensures
            final(self).reads() == transfer(Instruction::TableCopy(instruction), old(self).reads()),
            final(self).count() == max_int(old(self).count() as int, reach(Instruction::TableCopy(instruction))),
    {
        let ghost before = self.reads();
        self.read_local(instruction.destination.offset);
        self.read_local(instruction.source.offset);
        self.read_local(instruction.size);
        assert(self.reads() =~= transfer(Instruction::TableCopy(instruction), before));
    }

    fn handle_table_init(&mut self, instruction: TableInit)
        requires
            registers_fit(Instruction::TableInit(instruction)),
        ensures
            final(self).reads() == transfer(Instruction::TableInit(instruction), old(self).reads()),
            final(self).count() == max_int(old(self).count() as int, reach(Instruction::TableInit(instruction))),
    {
        let ghost before = self.reads();
        self.read_local(instruction.destination.offset);
        self.read_local(instruction.source.offset);
        self.read_local(instruction.size);
        assert(self.reads() =~= transfer(Instruction::TableInit(instruction), before));
    }

    fn handle_memory_load(&mut self, instruction: MemoryLoad)
        requires
            registers_fit(Instruction::MemoryLoad(instruction)),
        ensures
            final(self).reads() == transfer(Instruction::MemoryLoad(instruction), old(self).reads()),
            final(self).count() == max_int(old(self).count() as int, reach(Instruction::MemoryLoad(instruction))),
    {
        let ghost before = self.reads();
        self.write_local(instruction.destination);
        self.read_local(instruction.source.offset);
        assert(self.reads() =~= transfer(Instruction::MemoryLoad(instruction), before));
    }

    fn handle_memory_store(&mut self, instruction: MemoryStore)
        requires
            registers_fit(Instruction::MemoryStore(instruction)),
        ensures
            final(self).reads() == transfer(Instruction::MemoryStore(instruction), old(self).reads()),
            final(self).count() == max_int(old(self).count() as int, reach(Instruction::MemoryStore(instruction))),
    {
        let ghost before = self.reads();
        self.read_local(instruction.destination.offset);
        self.read_local(instruction.source);
        assert(self.reads() =~= transfer(Instruction::MemoryStore(instruction), before));
    }

    fn handle_memory_size(&mut self, instruction: MemorySize)
        requires
            registers_fit(Instruction::MemorySize(instruction)),
        ensures
            final(self).reads() == transfer(Instruction::MemorySize(instruction), old(self).reads()),
            final(self).count() == max_int(old(self).count() as int, reach(Instruction::MemorySize(instruction))),
    {
        let ghost before = self.reads();
        self.write_local(instruction.destination);
        assert(self.reads() =~= transfer(Instruction::MemorySize(instruction), before));
    }

    fn handle_memory_grow(&mut self, instruction: MemoryGrow)
        requires
            registers_fit(Instruction::MemoryGrow(instruction)),
        ensures
            final(self).reads() == transfer(Instruction::MemoryGrow(instruction), old(self).reads()),
            final(self).count() == max_int(old(self).count() as int, reach(Instruction::MemoryGrow(instruction))),
    {
        let ghost before = self.reads();
        self.write_local(instruction.destination);
        self.read_local(instruction.size);
        assert(self.reads() =~= transfer(Instruction::MemoryGrow(instruction), before));
    }

    fn handle_memory_fill(&mut self, instruction: MemoryFill)
        requires
            registers_fit(Instruction::MemoryFill(instruction)),
        ensures
            final(self).reads() == transfer(Instruction::MemoryFill(instruction), old(self).reads()),
            final(self).count() == max_int(old(self).count() as int, reach(Instruction::MemoryFill(instruction))),
    {
        let ghost before = self.reads();
        self.read_local(instruction.destination.offset);
        self.read_local(instruction.byte);
        self.read_local(instruction.size);
        assert(self.reads() =~= transfer(Instruction::MemoryFill(instruction), before));
    }

    fn handle_memory_copy(&mut self, instruction: MemoryCopy)
        requires
            registers_fit(Instruction::MemoryCopy(instruction)),
        ensures
            final(self).reads() == transfer(Instruction::MemoryCopy(instruction), old(self).reads()),
            final(self).count() == max_int(old(self).count() as int, reach(Instruction::MemoryCopy(instruction))),
    {
        let ghost before = self.reads();
        self.read_local(instruction.destination.offset);
        self.read_local(instruction.source.offset);
        self.read_local(instruction.size);
        assert(self.reads() =~= transfer(Instruction::MemoryCopy(instruction), before));
    }

    fn handle_memory_init(&mut self, instruction: MemoryInit)
        requires
            registers_fit(Instruction::MemoryInit(instruction)),
        ensures
            final(self).reads() == transfer(Instruction::MemoryInit(instruction), old(self).reads()),
            final(self).count() == max_int(old(self).count() as int, reach(Instruction::MemoryInit(instruction))),
    {
        let ghost before = self.reads();
        self.read_local(instruction.destination.offset);
        self.read_local(instruction.source.offset);
        self.read_local(instruction.size);
        assert(self.reads() =~= transfer(Instruction::MemoryInit(instruction), before));
    }

    /// Steps the live registers back over `instruction`: the registers it
    /// writes stop being live before it, and the registers it reads start.
    pub fn handle_instruction(&mut self, instruction: Instruction)
        requires
            registers_fit(instruction),
        ensures
            final(self).reads() == transfer(instruction, old(self).reads()),
            final(self).count() == max_int(old(self).count() as int, reach(instruction)),
    {
        match instruction {
            Instruction::Unreachable | Instruction::ElementsDrop(_) | Instruction::DataDrop(_) => {
                assert(self.reads() =~= transfer(instruction, self.reads()));
            },
            Instruction::LocalSet(instruction) => self.handle_local_set(instruction),
            Instruction::LocalBranch(instruction) => self.handle_local_branch(instruction),
            Instruction::I32Constant(instruction) => self.handle_i32_constant(instruction),
            Instruction::I64Constant(instruction) => self.handle_i64_constant(instruction),
            Instruction::F32Constant(instruction) => self.handle_f32_constant(instruction),
            Instruction::F64Constant(instruction) => self.handle_f64_constant(instruction),
            Instruction::RefIsNull(instruction) => self.handle_ref_is_null(instruction),
            Instruction::RefNull(instruction) => self.handle_ref_null(instruction),
            Instruction::RefFunction(instruction) => self.handle_ref_function(instruction),
            Instruction::Call(instruction) => self.handle_call(instruction),
            Instruction::IntegerUnaryOperation(instruction) => self.handle_integer_unary_operation(instruction),
            Instruction::IntegerBinaryOperation(instruction) => self.handle_integer_binary_operation(instruction),
            Instruction::IntegerCompareOperation(instruction) => self.handle_integer_compare_operation(instruction),
            Instruction::IntegerNarrow(instruction) => self.handle_integer_narrow(instruction),
            Instruction::IntegerWiden(instruction) => self.handle_integer_widen(instruction),
            Instruction::IntegerExtend(instruction) => self.handle_integer_extend(instruction),
            Instruction::IntegerConvertToNumber(instruction) => self.handle_integer_convert_to_number(instruction),
            Instruction::IntegerTransmuteToNumber(instruction) => self.handle_integer_transmute_to_number(instruction),
            Instruction::NumberUnaryOperation(instruction) => self.handle_number_unary_operation(instruction),
            Instruction::NumberBinaryOperation(instruction) => self.handle_number_binary_operation(instruction),
            Instruction::NumberCompareOperation(instruction) => self.handle_number_compare_operation(instruction),
            Instruction::NumberNarrow(instruction) => self.handle_number_narrow(instruction),
            Instruction::NumberWiden(instruction) => self.handle_number_widen(instruction),
            Instruction::NumberTruncateToInteger(instruction) => self.handle_number_truncate_to_integer(instruction),
            Instruction::NumberTransmuteToInteger(instruction) => self.handle_number_transmute_to_integer(instruction),
            Instruction::GlobalGet(instruction) => self.handle_global_get(instruction),
            Instruction::GlobalSet(instruction) => self.handle_global_set(instruction),
            Instruction::TableGet(instruction) => self.handle_table_get(instruction),
            Instruction::TableSet(instruction) => self.handle_table_set(instruction),
            Instruction::TableSize(instruction) => self.handle_table_size(instruction),
            Instruction::TableGrow(instruction) => self.handle_table_grow(instruction),
            Instruction::TableFill(instruction) => self.handle_table_fill(instruction),
            Instruction::TableCopy(instruction) => self.handle_table_copy(instruction),
            Instruction::TableInit(instruction) => self.handle_table_init(instruction),
            Instruction::MemoryLoad(instruction) => self.handle_memory_load(instruction),
            Instruction::MemoryStore(instruction) => self.handle_memory_store(instruction),
            Instruction::MemorySize(instruction) => self.handle_memory_size(instruction),
            Instruction::MemoryGrow(instruction) => self.handle_memory_grow(instruction),
            Instruction::MemoryFill(instruction) => self.handle_memory_fill(instruction),
            Instruction::MemoryCopy(instruction) => self.handle_memory_copy(instruction),
            Instruction::MemoryInit(instruction) => self.handle_memory_init(instruction),
        }
    }

    /// Steps the live registers back over `instructions`, from the last to the
    /// first.
    pub fn handle_instructions(&mut self, instructions: &[Instruction])
        requires
            forall|k: int| 0 <= k < instructions@.len() ==> registers_fit(#[trigger] instructions@[k]),
        ensures
            final(self).reads() == live_before(instructions@, old(self).reads()),
            final(self).count() == max_int(old(self).count() as int, reach_all(instructions@)),
    {
        let mut k: usize = instructions.len();
        assert(instructions@.subrange(0, k as int) =~= instructions@);
        while k > 0
            invariant
                k <= instructions@.len(),
                forall|k: int| 0 <= k < instructions@.len() ==> registers_fit(#[trigger] instructions@[k]),
                live_before(instructions@.subrange(0, k as int), self.reads()) == live_before(
                    instructions@,
                    old(self).reads(),
                ),
                max_int(self.count() as int, reach_all(instructions@.subrange(0, k as int))) == max_int(
                    old(self).count() as int,
                    reach_all(instructions@),
                ),
            decreases k,
        {
            proof {
                let prefix = instructions@.subrange(0, k as int);
                assert(prefix.drop_last() =~= instructions@.subrange(0, k - 1));
                assert(prefix.last() == instructions@[k - 1]);
            }
            self.handle_instruction(instructions[k - 1]);
            k = k - 1;
        }
        assert(instructions@.subrange(0, 0) =~= Seq::<Instruction>::empty());
    }
}

impl Default for Locals {
    fn default() -> (locals: Self)
        ensures
            locals.block_count() == 0,
            locals.recorded() == 0,
            locals.well_formed(),
    {
        Locals::new()
    }
}

impl Default for LocalTracker {
    fn default() -> (tracker: Self)
        ensures
            tracker.reads() =~= Set::empty(),
            tracker.count() == 0,
    {
        LocalTracker::new()
    }
}

} // verus!
