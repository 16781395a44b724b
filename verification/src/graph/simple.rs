//! Simple operation node types.

use vstd::prelude::*;

use crate::graph::link::Link;

verus! {

/// Integer types.
#[derive(PartialEq, Eq, Clone, Copy, Debug, Structural)]
pub enum IntegerType {
    /// A 32-bit integer.
    I32,
    /// A 64-bit integer.
    I64,
}

/// Unary operators for integers.
#[derive(PartialEq, Eq, Clone, Copy, Debug, Structural)]
pub enum IntegerUnaryOperator {
    /// Population count.
    CountOnes,
    /// Count of leading zero bits.
    LeadingZeroes,
    /// Count of trailing zero bits.
    TrailingZeroes,
}

/// Binary operators for integer arithmetic.
#[derive(PartialEq, Eq, Clone, Copy, Debug, Structural)]
pub enum IntegerBinaryOperator {
    /// Addition.
    Add,
    /// Subtraction.
    Subtract,
    /// Multiplication.
    Multiply,
    /// Division, signed or unsigned.
    Divide { signed: bool },
    /// Remainder, signed or unsigned.
    Remainder { signed: bool },
    /// Bitwise AND.
    And,
    /// Bitwise OR.
    Or,
    /// Bitwise exclusive OR.
    ExclusiveOr,
    /// Left shift.
    ShiftLeft,
    /// Right shift, arithmetic when signed.
    ShiftRight { signed: bool },
    /// Left rotation.
    RotateLeft,
    /// Right rotation.
    RotateRight,
}

/// Comparison operators for integers.
#[derive(PartialEq, Eq, Clone, Copy, Debug, Structural)]
pub enum IntegerCompareOperator {
    /// Equality.
    Equal,
    /// Inequality.
    NotEqual,
    /// Less than.
    LessThan { signed: bool },
    /// Greater than.
    GreaterThan { signed: bool },
    /// Less than or equal.
    LessThanEqual { signed: bool },
    /// Greater than or equal.
    GreaterThanEqual { signed: bool },
}

/// Source and target type pairs for integer sign extension.
#[allow(non_camel_case_types)]
#[derive(PartialEq, Eq, Clone, Copy, Debug, Structural)]
pub enum ExtendType {
    /// Extends a signed 8-bit value to a 32-bit integer.
    I32_S8,
    /// Extends a signed 16-bit value to a 32-bit integer.
    I32_S16,
    /// Extends a signed 8-bit value to a 64-bit integer.
    I64_S8,
    /// Extends a signed 16-bit value to a 64-bit integer.
    I64_S16,
    /// Extends a signed 32-bit value to a 64-bit integer.
    I64_S32,
}

/// Floating-point types.
#[derive(PartialEq, Eq, Clone, Copy, Debug, Structural)]
pub enum NumberType {
    /// A 32-bit float.
    F32,
    /// A 64-bit float.
    F64,
}

/// Unary operators for floating-point values.
#[derive(PartialEq, Eq, Clone, Copy, Debug, Structural)]
pub enum NumberUnaryOperator {
    /// Absolute value.
    Absolute,
    /// Negation.
    Negate,
    /// Square root.
    SquareRoot,
    /// Rounds toward positive infinity.
    RoundUp,
    /// Rounds toward negative infinity.
    RoundDown,
    /// Truncates toward zero.
    Truncate,
    /// Rounds to the nearest integer.
    Nearest,
}

/// Binary operators for floating-point arithmetic.
#[derive(PartialEq, Eq, Clone, Copy, Debug, Structural)]
pub enum NumberBinaryOperator {
    /// Addition.
    Add,
    /// Subtraction.
    Subtract,
    /// Multiplication.
    Multiply,
    /// Division.
    Divide,
    /// Minimum.
    Minimum,
    /// Maximum.
    Maximum,
    /// Copies the sign of one operand to the other.
    CopySign,
}

/// Comparison operators for floating-point values.
#[derive(PartialEq, Eq, Clone, Copy, Debug, Structural)]
pub enum NumberCompareOperator {
    /// Equality.
    Equal,
    /// Inequality.
    NotEqual,
    /// Less than.
    LessThan,
    /// Greater than.
    GreaterThan,
    /// Less than or equal.
    LessThanEqual,
    /// Greater than or equal.
    GreaterThanEqual,
}

/// Source and target type pairs for memory loads.
#[allow(non_camel_case_types)]
#[derive(PartialEq, Eq, Clone, Copy, Debug, Structural)]
pub enum LoadType {
    /// Loads a signed 8-bit value into a 32-bit integer.
    I32_S8,
    /// Loads an unsigned 8-bit value into a 32-bit integer.
    I32_U8,
    /// Loads a signed 16-bit value into a 32-bit integer.
    I32_S16,
    /// Loads an unsigned 16-bit value into a 32-bit integer.
    I32_U16,
    /// Loads a 32-bit integer.
    I32,
    /// Loads a signed 8-bit value into a 64-bit integer.
    I64_S8,
    /// Loads an unsigned 8-bit value into a 64-bit integer.
    I64_U8,
    /// Loads a signed 16-bit value into a 64-bit integer.
    I64_S16,
    /// Loads an unsigned 16-bit value into a 64-bit integer.
    I64_U16,
    /// Loads a signed 32-bit value into a 64-bit integer.
    I64_S32,
    /// Loads an unsigned 32-bit value into a 64-bit integer.
    I64_U32,
    /// Loads a 64-bit integer.
    I64,
    /// Loads a 32-bit float.
    F32,
    /// Loads a 64-bit float.
    F64,
}

/// Source and target type pairs for memory stores.
#[allow(non_camel_case_types)]
#[derive(PartialEq, Eq, Clone, Copy, Debug, Structural)]
pub enum StoreType {
    /// Stores the low 8 bits of a 32-bit integer.
    I32_I8,
    /// Stores the low 16 bits of a 32-bit integer.
    I32_I16,
    /// Stores a 32-bit integer.
    I32,
    /// Stores the low 8 bits of a 64-bit integer.
    I64_I8,
    /// Stores the low 16 bits of a 64-bit integer.
    I64_I16,
    /// Stores the low 32 bits of a 64-bit integer.
    I64_I32,
    /// Stores a 64-bit integer.
    I64,
    /// Stores a 32-bit float.
    F32,
    /// Stores a 64-bit float.
    F64,
}

/// A memory location specified by a base reference and an offset.
#[derive(Clone, Copy, Debug, PartialEq, Eq, Structural)]
pub struct Location {
    /// The base reference.
    pub reference: Link,
    /// The offset from the base reference.
    pub offset: Link,
}

/// A node that passes through its sources unchanged.
#[derive(Debug)]
pub struct Identity {
    /// The source links.
    pub sources: Vec<Link>,
}

/// A fence node that orders its sources.
#[derive(Debug)]
pub struct Fence {
    /// The source links.
    pub sources: Vec<Link>,
}

/// A function application node.
#[derive(Debug)]
pub struct Apply {
    /// The link to the function being applied.
    pub function: Link,
    /// The argument links passed to the function.
    pub arguments: Vec<Link>,
    /// The number of results produced.
    pub results: u16,
}

/// A reference null check node.
#[derive(Clone, Copy, Debug, PartialEq, Eq, Structural)]
pub struct RefIsNull {
    /// The link to the source value.
    pub source: Link,
}

/// An integer unary operation node.
#[derive(Clone, Copy, Debug, PartialEq, Eq, Structural)]
pub struct IntegerUnaryOperation {
    /// The link to the source value.
    pub source: Link,
    /// The type of the operation.
    pub kind: IntegerType,
    /// The operator to apply.
    pub operator: IntegerUnaryOperator,
}

/// An integer binary operation node.
#[derive(Clone, Copy, Debug, PartialEq, Eq, Structural)]
pub struct IntegerBinaryOperation {
    /// The left-hand operand.
    pub lhs: Link,
    /// The right-hand operand.
    pub rhs: Link,
    /// The type of the operation.
    pub kind: IntegerType,
    /// The operator to apply.
    pub operator: IntegerBinaryOperator,
}

/// An integer comparison operation node.
#[derive(Clone, Copy, Debug, PartialEq, Eq, Structural)]
pub struct IntegerCompareOperation {
    /// The left-hand operand.
    pub lhs: Link,
    /// The right-hand operand.
    pub rhs: Link,
    /// The type of the operation.
    pub kind: IntegerType,
    /// The operator to apply.
    pub operator: IntegerCompareOperator,
}

/// An integer narrowing node from 64-bit to 32-bit.
#[derive(Clone, Copy, Debug, PartialEq, Eq, Structural)]
pub struct IntegerNarrow {
    /// The link to the source value.
    pub source: Link,
}

/// An integer widening node from 32-bit to 64-bit.
#[derive(Clone, Copy, Debug, PartialEq, Eq, Structural)]
pub struct IntegerWiden {
    /// The link to the source value.
    pub source: Link,
}

/// An integer sign-extension node.
#[derive(Clone, Copy, Debug, PartialEq, Eq, Structural)]
pub struct IntegerExtend {
    /// The link to the source value.
    pub source: Link,
    /// The type of the operation.
    pub kind: ExtendType,
}

/// An integer-to-floating-point conversion node.
#[derive(Clone, Copy, Debug, PartialEq, Eq, Structural)]
pub struct IntegerConvertToNumber {
    /// The link to the source value.
    pub source: Link,
    /// Whether the integer side is signed.
    pub signed: bool,
    /// The target type.
    pub to: NumberType,
    /// The source type.
    pub from: IntegerType,
}

/// An integer-to-floating-point bit reinterpretation node.
#[derive(Clone, Copy, Debug, PartialEq, Eq, Structural)]
pub struct IntegerTransmuteToNumber {
    /// The link to the source value.
    pub source: Link,
    /// The source type.
    pub from: IntegerType,
}

/// A floating-point unary operation node.
#[derive(Clone, Copy, Debug, PartialEq, Eq, Structural)]
pub struct NumberUnaryOperation {
    /// The link to the source value.
    pub source: Link,
    /// The type of the operation.
    pub kind: NumberType,
    /// The operator to apply.
    pub operator: NumberUnaryOperator,
}

/// A floating-point binary operation node.
#[derive(Clone, Copy, Debug, PartialEq, Eq, Structural)]
pub struct NumberBinaryOperation {
    /// The left-hand operand.
    pub lhs: Link,
    /// The right-hand operand.
    pub rhs: Link,
    /// The type of the operation.
    pub kind: NumberType,
    /// The operator to apply.
    pub operator: NumberBinaryOperator,
}

/// A floating-point comparison operation node.
#[derive(Clone, Copy, Debug, PartialEq, Eq, Structural)]
pub struct NumberCompareOperation {
    /// The left-hand operand.
    pub lhs: Link,
    /// The right-hand operand.
    pub rhs: Link,
    /// The type of the operation.
    pub kind: NumberType,
    /// The operator to apply.
    pub operator: NumberCompareOperator,
}

/// A floating-point-to-integer truncation node.
#[derive(Clone, Copy, Debug, PartialEq, Eq, Structural)]
pub struct NumberTruncateToInteger {
    /// The link to the source value.
    pub source: Link,
    /// Whether the integer side is signed.
    pub signed: bool,
    /// Whether to use saturating semantics.
    pub saturate: bool,
    /// The target type.
    pub to: IntegerType,
    /// The source type.
    pub from: NumberType,
}

/// A floating-point-to-integer bit reinterpretation node.
#[derive(Clone, Copy, Debug, PartialEq, Eq, Structural)]
pub struct NumberTransmuteToInteger {
    /// The link to the source value.
    pub source: Link,
    /// The source type.
    pub from: NumberType,
}

/// A floating-point narrowing node from 64-bit to 32-bit.
#[derive(Clone, Copy, Debug, PartialEq, Eq, Structural)]
pub struct NumberNarrow {
    /// The link to the source value.
    pub source: Link,
}

/// A floating-point widening node from 32-bit to 64-bit.
#[derive(Clone, Copy, Debug, PartialEq, Eq, Structural)]
pub struct NumberWiden {
    /// The link to the source value.
    pub source: Link,
}

/// A global variable creation node.
#[derive(Clone, Copy, Debug, PartialEq, Eq, Structural)]
pub struct GlobalNew {
    /// The initial value or contents.
    pub initializer: Link,
}

/// A global variable read node.
#[derive(Clone, Copy, Debug, PartialEq, Eq, Structural)]
pub struct GlobalGet {
    /// The link to the source value.
    pub source: Link,
}

/// A global variable write node.
#[derive(Clone, Copy, Debug, PartialEq, Eq, Structural)]
pub struct GlobalSet {
    /// The destination being written.
    pub destination: Link,
    /// The link to the source value.
    pub source: Link,
}

/// A table creation node.
#[derive(Debug)]
pub struct TableNew {
    /// The initial value or contents.
    pub initializer: Vec<(Link, u32)>,
    /// The minimum size.
    pub minimum: u32,
    /// The maximum size.
    pub maximum: u32,
}

/// A table element read node.
#[derive(Debug)]
pub struct TableGet {
    /// The link to the source value.
    pub source: Location,
    /// The structural function type key, if any.
    pub key: Option<String>,
}

/// A table element write node.
#[derive(Clone, Copy, Debug, PartialEq, Eq, Structural)]
pub struct TableSet {
    /// The destination being written.
    pub destination: Location,
    /// The link to the source value.
    pub source: Link,
}

/// A table size query node.
#[derive(Clone, Copy, Debug, PartialEq, Eq, Structural)]
pub struct TableSize {
    /// The link to the source value.
    pub source: Link,
}

/// A table grow node.
#[derive(Clone, Copy, Debug, PartialEq, Eq, Structural)]
pub struct TableGrow {
    /// The destination being written.
    pub destination: Link,
    /// The initial value or contents.
    pub initializer: Link,
    /// The link to the size operand.
    pub size: Link,
}

/// A table fill node.
#[derive(Clone, Copy, Debug, PartialEq, Eq, Structural)]
pub struct TableFill {
    /// The destination being written.
    pub destination: Location,
    /// The link to the source value.
    pub source: Link,
    /// The link to the size operand.
    pub size: Link,
}

/// A table copy node.
#[derive(Clone, Copy, Debug, PartialEq, Eq, Structural)]
pub struct TableCopy {
    /// The destination being written.
    pub destination: Location,
    /// The link to the source value.
    pub source: Location,
    /// The link to the size operand.
    pub size: Link,
}

/// A table drop node.
#[derive(Clone, Copy, Debug, PartialEq, Eq, Structural)]
pub struct TableDrop {
    /// The link to the source value.
    pub source: Link,
}

/// A memory creation node.
#[derive(Debug)]
pub struct MemoryNew {
    /// The initial value or contents.
    pub initializer: Vec<(Vec<u8>, u32)>,
    /// The minimum size.
    pub minimum: u32,
    /// The maximum size.
    pub maximum: u32,
}

/// A memory load node.
#[derive(Clone, Copy, Debug, PartialEq, Eq, Structural)]
pub struct MemoryLoad {
    /// The link to the source value.
    pub source: Location,
    /// The static byte offset added to the address.
    pub offset: u32,
    /// The type of the operation.
    pub kind: LoadType,
}

/// A memory store node.
#[derive(Clone, Copy, Debug, PartialEq, Eq, Structural)]
pub struct MemoryStore {
    /// The destination being written.
    pub destination: Location,
    /// The link to the source value.
    pub source: Link,
    /// The static byte offset added to the address.
    pub offset: u32,
    /// The type of the operation.
    pub kind: StoreType,
}

/// A memory size query node.
#[derive(Clone, Copy, Debug, PartialEq, Eq, Structural)]
pub struct MemorySize {
    /// The link to the source value.
    pub source: Link,
}

/// A memory grow node.
#[derive(Clone, Copy, Debug, PartialEq, Eq, Structural)]
pub struct MemoryGrow {
    /// The destination being written.
    pub destination: Link,
    /// The link to the size operand.
    pub size: Link,
}

/// A memory fill node.
#[derive(Clone, Copy, Debug, PartialEq, Eq, Structural)]
pub struct MemoryFill {
    /// The destination being written.
    pub destination: Location,
    /// The byte value to fill with.
    pub byte: Link,
    /// The link to the size operand.
    pub size: Link,
}

/// A memory copy node.
#[derive(Clone, Copy, Debug, PartialEq, Eq, Structural)]
pub struct MemoryCopy {
    /// The destination being written.
    pub destination: Location,
    /// The link to the source value.
    pub source: Location,
    /// The link to the size operand.
    pub size: Link,
}

/// A memory drop node.
#[derive(Clone, Copy, Debug, PartialEq, Eq, Structural)]
pub struct MemoryDrop {
    /// The link to the source value.
    pub source: Link,
}

} // verus!
