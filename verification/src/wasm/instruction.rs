//! The instructions of a WebAssembly function once its stack is turned into
//! numbered registers.

use vstd::prelude::*;

pub use crate::graph::simple::{
    ExtendType, IntegerBinaryOperator, IntegerCompareOperator, IntegerType, IntegerUnaryOperator,
    LoadType, NumberBinaryOperator, NumberCompareOperator, NumberType, NumberUnaryOperator,
    StoreType,
};

verus! {

/// Local variable names used as branch conditions.
#[derive(PartialEq, Eq, Clone, Copy, Debug, Structural)]
pub enum Name {
    /// Variable A.
    A,
    /// Variable B.
    B,
    /// Variable C.
    C,
    /// Variable D.
    D,
}

impl Name {
    /// The number of named variables.
    pub const COUNT: u16 = 4;
}

/// A location in a table or a memory: the register of the table or memory
/// reference and the register of the offset.
#[derive(Clone, Copy, Debug)]
pub struct Location {
    /// The reference register.
    pub reference: u16,
    /// The offset register.
    pub offset: u16,
}

/// A local variable assignment.
#[derive(Clone, Copy, Debug)]
pub struct LocalSet {
    /// The destination register.
    pub destination: u16,
    /// The source register.
    pub source: u16,
}

/// A conditional branch on a local variable.
#[derive(Clone, Copy, Debug)]
pub struct LocalBranch {
    /// The source register.
    pub source: u16,
}

/// A 32-bit integer constant assignment.
#[derive(Clone, Copy, Debug)]
pub struct I32Constant {
    /// The destination register.
    pub destination: u16,
    /// The constant value.
    pub data: i32,
}

/// A 64-bit integer constant assignment.
#[derive(Clone, Copy, Debug)]
pub struct I64Constant {
    /// The destination register.
    pub destination: u16,
    /// The constant value.
    pub data: i64,
}

/// A 32-bit float constant assignment.
#[derive(Clone, Copy, Debug)]
pub struct F32Constant {
    /// The destination register.
    pub destination: u16,
    /// The bits of the constant value.
    pub data: u32,
}

/// A 64-bit float constant assignment.
#[derive(Clone, Copy, Debug)]
pub struct F64Constant {
    /// The destination register.
    pub destination: u16,
    /// The bits of the constant value.
    pub data: u64,
}

/// A function call.
#[derive(Clone, Copy, Debug)]
pub struct Call {
    /// The destination register range.
    pub destinations: (u16, u16),
    /// The source register range.
    pub sources: (u16, u16),
    /// The function register.
    pub function: u16,
}

/// A reference null check.
#[derive(Clone, Copy, Debug)]
pub struct RefIsNull {
    /// The destination register.
    pub destination: u16,
    /// The source register.
    pub source: u16,
}

/// A null reference assignment.
#[derive(Clone, Copy, Debug)]
pub struct RefNull {
    /// The destination register.
    pub destination: u16,
}

/// A function reference assignment.
#[derive(Clone, Copy, Debug)]
pub struct RefFunction {
    /// The destination register.
    pub destination: u16,
    /// The function index.
    pub function: u16,
}

/// An integer unary operation.
#[derive(Clone, Copy, Debug)]
pub struct IntegerUnaryOperation {
    /// The destination register.
    pub destination: u16,
    /// The source register.
    pub source: u16,
    /// The integer type.
    pub kind: IntegerType,
    /// The operator.
    pub operator: IntegerUnaryOperator,
}

/// An integer binary operation.
#[derive(Clone, Copy, Debug)]
pub struct IntegerBinaryOperation {
    /// The destination register.
    pub destination: u16,
    /// The left-hand side register.
    pub lhs: u16,
    /// The right-hand side register.
    pub rhs: u16,
    /// The integer type.
    pub kind: IntegerType,
    /// The operator.
    pub operator: IntegerBinaryOperator,
}

/// An integer comparison.
#[derive(Clone, Copy, Debug)]
pub struct IntegerCompareOperation {
    /// The destination register.
    pub destination: u16,
    /// The left-hand side register.
    pub lhs: u16,
    /// The right-hand side register.
    pub rhs: u16,
    /// The integer type.
    pub kind: IntegerType,
    /// The operator.
    pub operator: IntegerCompareOperator,
}

/// An integer narrowing from 64 to 32 bits.
#[derive(Clone, Copy, Debug)]
pub struct IntegerNarrow {
    /// The destination register.
    pub destination: u16,
    /// The source register.
    pub source: u16,
}

/// An integer widening from 32 to 64 bits.
#[derive(Clone, Copy, Debug)]
pub struct IntegerWiden {
    /// The destination register.
    pub destination: u16,
    /// The source register.
    pub source: u16,
}

/// An integer sign extension.
#[derive(Clone, Copy, Debug)]
pub struct IntegerExtend {
    /// The destination register.
    pub destination: u16,
    /// The source register.
    pub source: u16,
    /// The extension kind.
    pub kind: ExtendType,
}

/// An integer-to-float conversion.
#[derive(Clone, Copy, Debug)]
pub struct IntegerConvertToNumber {
    /// The destination register.
    pub destination: u16,
    /// The source register.
    pub source: u16,
    /// Whether the source is signed.
    pub signed: bool,
    /// The target float type.
    pub to: NumberType,
    /// The source integer type.
    pub from: IntegerType,
}

/// An integer-to-float bit reinterpretation.
#[derive(Clone, Copy, Debug)]
pub struct IntegerTransmuteToNumber {
    /// The destination register.
    pub destination: u16,
    /// The source register.
    pub source: u16,
    /// The source integer type.
    pub from: IntegerType,
}

/// A float unary operation.
#[derive(Clone, Copy, Debug)]
pub struct NumberUnaryOperation {
    /// The destination register.
    pub destination: u16,
    /// The source register.
    pub source: u16,
    /// The float type.
    pub kind: NumberType,
    /// The operator.
    pub operator: NumberUnaryOperator,
}

/// A float binary operation.
#[derive(Clone, Copy, Debug)]
pub struct NumberBinaryOperation {
    /// The destination register.
    pub destination: u16,
    /// The left-hand side register.
    pub lhs: u16,
    /// The right-hand side register.
    pub rhs: u16,
    /// The float type.
    pub kind: NumberType,
    /// The operator.
    pub operator: NumberBinaryOperator,
}

/// A float comparison.
#[derive(Clone, Copy, Debug)]
pub struct NumberCompareOperation {
    /// The destination register.
    pub destination: u16,
    /// The left-hand side register.
    pub lhs: u16,
    /// The right-hand side register.
    pub rhs: u16,
    /// The float type.
    pub kind: NumberType,
    /// The operator.
    pub operator: NumberCompareOperator,
}

/// A float-to-integer truncation.
#[derive(Clone, Copy, Debug)]
pub struct NumberTruncateToInteger {
    /// The destination register.
    pub destination: u16,
    /// The source register.
    pub source: u16,
    /// Whether the result is signed.
    pub signed: bool,
    /// Whether to saturate on overflow.
    pub saturate: bool,
    /// The target integer type.
    pub to: IntegerType,
    /// The source float type.
    pub from: NumberType,
}

/// A float-to-integer bit reinterpretation.
#[derive(Clone, Copy, Debug)]
pub struct NumberTransmuteToInteger {
    /// The destination register.
    pub destination: u16,
    /// The source register.
    pub source: u16,
    /// The source float type.
    pub from: NumberType,
}

/// A float narrowing from 64 to 32 bits.
#[derive(Clone, Copy, Debug)]
pub struct NumberNarrow {
    /// The destination register.
    pub destination: u16,
    /// The source register.
    pub source: u16,
}

/// A float widening from 32 to 64 bits.
#[derive(Clone, Copy, Debug)]
pub struct NumberWiden {
    /// The destination register.
    pub destination: u16,
    /// The source register.
    pub source: u16,
}

/// A global variable read.
#[derive(Clone, Copy, Debug)]
pub struct GlobalGet {
    /// The destination register.
    pub destination: u16,
    /// The global index.
    pub source: u16,
}

/// A global variable write.
#[derive(Clone, Copy, Debug)]
pub struct GlobalSet {
    /// The global index.
    pub destination: u16,
    /// The source register.
    pub source: u16,
}

/// A table element read.
#[derive(Clone, Copy, Debug)]
pub struct TableGet {
    /// The destination register.
    pub destination: u16,
    /// The table location.
    pub source: Location,
    /// The element type, if known.
    pub kind: Option<u32>,
}

/// A table element write.
#[derive(Clone, Copy, Debug)]
pub struct TableSet {
    /// The table location.
    pub destination: Location,
    /// The source register.
    pub source: u16,
}

/// A table size query.
#[derive(Clone, Copy, Debug)]
pub struct TableSize {
    /// The destination register.
    pub destination: u16,
    /// The table index.
    pub table: u16,
}

/// A table grow.
#[derive(Clone, Copy, Debug)]
pub struct TableGrow {
    /// The destination register.
    pub destination: u16,
    /// The table index.
    pub table: u16,
    /// The size register.
    pub size: u16,
    /// The initializer register.
    pub initializer: u16,
}

/// A table fill.
#[derive(Clone, Copy, Debug)]
pub struct TableFill {
    /// The table location.
    pub destination: Location,
    /// The value register.
    pub source: u16,
    /// The size register.
    pub size: u16,
}

/// A table copy.
#[derive(Clone, Copy, Debug)]
pub struct TableCopy {
    /// The destination location.
    pub destination: Location,
    /// The source location.
    pub source: Location,
    /// The size register.
    pub size: u16,
}

/// A table initialization from an element segment.
#[derive(Clone, Copy, Debug)]
pub struct TableInit {
    /// The destination location.
    pub destination: Location,
    /// The source location.
    pub source: Location,
    /// The size register.
    pub size: u16,
}

/// An element segment drop.
#[derive(Clone, Copy, Debug)]
pub struct ElementsDrop {
    /// The element segment index.
    pub source: u16,
}

/// A memory load.
#[derive(Clone, Copy, Debug)]
pub struct MemoryLoad {
    /// The destination register.
    pub destination: u16,
    /// The memory location.
    pub source: Location,
    /// The static offset.
    pub offset: u32,
    /// The load type.
    pub kind: LoadType,
}

/// A memory store.
#[derive(Clone, Copy, Debug)]
pub struct MemoryStore {
    /// The memory location.
    pub destination: Location,
    /// The source register.
    pub source: u16,
    /// The static offset.
    pub offset: u32,
    /// The store type.
    pub kind: StoreType,
}

/// A memory size query.
#[derive(Clone, Copy, Debug)]
pub struct MemorySize {
    /// The destination register.
    pub destination: u16,
    /// The memory index.
    pub memory: u16,
}

/// A memory grow.
#[derive(Clone, Copy, Debug)]
pub struct MemoryGrow {
    /// The destination register.
    pub destination: u16,
    /// The memory index.
    pub memory: u16,
    /// The size register.
    pub size: u16,
}

/// A memory fill.
#[derive(Clone, Copy, Debug)]
pub struct MemoryFill {
    /// The memory location.
    pub destination: Location,
    /// The byte register.
    pub byte: u16,
    /// The size register.
    pub size: u16,
}

/// A memory copy.
#[derive(Clone, Copy, Debug)]
pub struct MemoryCopy {
    /// The destination location.
    pub destination: Location,
    /// The source location.
    pub source: Location,
    /// The size register.
    pub size: u16,
}

/// A memory initialization from a data segment.
#[derive(Clone, Copy, Debug)]
pub struct MemoryInit {
    /// The destination location.
    pub destination: Location,
    /// The source location.
    pub source: Location,
    /// The size register.
    pub size: u16,
}

/// A data segment drop.
#[derive(Clone, Copy, Debug)]
pub struct DataDrop {
    /// The data segment index.
    pub source: u16,
}

impl MemorySize {
    /// The size of a memory page in bytes.
    pub const PAGE_SIZE: usize = 0x1_0000;
    /// The largest number of pages a memory can have.
    pub const PAGE_LIMIT: usize = 0xFFFF;
}

/// An instruction.
#[derive(Clone, Copy, Debug)]
pub enum Instruction {
    LocalSet(LocalSet),
    LocalBranch(LocalBranch),
    I32Constant(I32Constant),
    I64Constant(I64Constant),
    F32Constant(F32Constant),
    F64Constant(F64Constant),
    RefIsNull(RefIsNull),
    RefNull(RefNull),
    RefFunction(RefFunction),
    Call(Call),
    Unreachable,
    IntegerUnaryOperation(IntegerUnaryOperation),
    IntegerBinaryOperation(IntegerBinaryOperation),
    IntegerCompareOperation(IntegerCompareOperation),
    IntegerNarrow(IntegerNarrow),
    IntegerWiden(IntegerWiden),
    IntegerExtend(IntegerExtend),
    IntegerConvertToNumber(IntegerConvertToNumber),
    IntegerTransmuteToNumber(IntegerTransmuteToNumber),
    NumberUnaryOperation(NumberUnaryOperation),
    NumberBinaryOperation(NumberBinaryOperation),
    NumberCompareOperation(NumberCompareOperation),
    NumberNarrow(NumberNarrow),
    NumberWiden(NumberWiden),
    NumberTruncateToInteger(NumberTruncateToInteger),
    NumberTransmuteToInteger(NumberTransmuteToInteger),
    GlobalGet(GlobalGet),
    GlobalSet(GlobalSet),
    TableGet(TableGet),
    TableSet(TableSet),
    TableSize(TableSize),
    TableGrow(TableGrow),
    TableFill(TableFill),
    TableCopy(TableCopy),
    TableInit(TableInit),
    ElementsDrop(ElementsDrop),
    MemoryLoad(MemoryLoad),
    MemoryStore(MemoryStore),
    MemorySize(MemorySize),
    MemoryGrow(MemoryGrow),
    MemoryFill(MemoryFill),
    MemoryCopy(MemoryCopy),
    MemoryInit(MemoryInit),
    DataDrop(DataDrop),
}

} // verus!
