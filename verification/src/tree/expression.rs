//! Expressions of the Lua trees: names, locals and the expression nodes.

use vstd::prelude::*;

use crate::graph::simple::{
    ExtendType, IntegerBinaryOperator, IntegerCompareOperator, IntegerType, IntegerUnaryOperator,
    LoadType, MemoryNew, NumberBinaryOperator, NumberCompareOperator, NumberType,
    NumberUnaryOperator,
};
use crate::tree::statement::Sequence;

verus! {

/// A variable name identifier.
#[derive(Clone, Copy, Debug, Hash, PartialEq, Eq, Structural, PartialOrd, Ord)]
pub struct Name {
    /// The name identifier.
    pub id: u32,
}

/// A local variable reference.
#[derive(Clone, Copy, Debug, PartialEq, Eq, Structural, PartialOrd, Ord)]
pub enum Local {
    /// A fast register variable.
    Fast {
        /// The variable name.
        name: Name,
    },
    /// A slow stack variable.
    Slow {
        /// The stack offset.
        offset: u16,
    },
}

impl Local {
    /// Returns the name of a fast local; a slow local has none.
    pub fn into_name(self) -> (name: Name)
        requires
            self is Fast,
        ensures
            name == self->name,
    {
        match self {
            Local::Fast { name } => name,
            Local::Slow { .. } => vstd::pervasive::unreached(),
        }
    }
}

/// A function definition.
pub struct Function {
    /// The argument names.
    pub arguments: Vec<Name>,
    /// The local variable names.
    pub locals: Vec<Name>,
    /// The stack size.
    pub stack: u16,
    /// The function body.
    pub code: Sequence,
    /// The return expressions.
    pub returns: Vec<Expression>,
    /// The structural WebAssembly type key registered for this function, if
    /// any, in UTF-8.
    pub key: Option<Vec<u8>>,
}

/// A scoped function with captured dependencies.
pub struct Scoped {
    /// The captured dependencies.
    pub dependencies: Vec<(Name, Expression)>,
    /// The function definition.
    pub function: Function,
}

/// A conditional match expression.
pub struct Match {
    /// The condition expression.
    pub condition: Expression,
    /// The branch expressions.
    pub branches: Vec<Expression>,
}

/// An external import.
pub struct Import {
    /// The environment expression.
    pub environment: Expression,
    /// The import namespace.
    pub namespace: String,
    /// The import name.
    pub identifier: String,
}

/// A function call.
pub struct Call {
    /// The function expression.
    pub function: Expression,
    /// The argument expressions.
    pub arguments: Vec<Expression>,
}

/// A boolean-to-integer conversion.
pub struct BooleanToInteger {
    /// The source expression.
    pub source: Expression,
}

/// A reference null check.
pub struct RefIsNull {
    /// The source expression.
    pub source: Expression,
}

/// An integer unary operation.
pub struct IntegerUnaryOperation {
    /// The source expression.
    pub source: Expression,
    /// The integer type.
    pub kind: IntegerType,
    /// The operator.
    pub operator: IntegerUnaryOperator,
}

impl IntegerUnaryOperation {
    fn should_be_boolean(&self) -> (b: bool)
        ensures
            b == (self.kind is I32),
    {
        matches!(self.kind, IntegerType::I32)
    }
}

/// An integer binary operation.
pub struct IntegerBinaryOperation {
    /// The left-hand operand.
    pub lhs: Expression,
    /// The right-hand operand.
    pub rhs: Expression,
    /// The integer type.
    pub kind: IntegerType,
    /// The operator.
    pub operator: IntegerBinaryOperator,
}

impl IntegerBinaryOperation {
    fn should_be_boolean(&self) -> (b: bool)
        ensures
            b == (self.kind is I32),
    {
        matches!(self.kind, IntegerType::I32)
    }
}

/// An integer comparison.
pub struct IntegerCompareOperation {
    /// The left-hand operand.
    pub lhs: Expression,
    /// The right-hand operand.
    pub rhs: Expression,
    /// The integer type.
    pub kind: IntegerType,
    /// The comparison operator.
    pub operator: IntegerCompareOperator,
}

/// An integer narrowing.
pub struct IntegerNarrow {
    /// The source expression.
    pub source: Expression,
}

/// An integer widening.
pub struct IntegerWiden {
    /// The source expression.
    pub source: Expression,
}

/// An integer sign extension.
pub struct IntegerExtend {
    /// The source expression.
    pub source: Expression,
    /// The extension type pair.
    pub kind: ExtendType,
}

impl IntegerExtend {
    fn should_be_boolean(&self) -> (b: bool)
        ensures
            b == (self.kind is I32_S8 || self.kind is I32_S16),
    {
        matches!(self.kind, ExtendType::I32_S8 | ExtendType::I32_S16)
    }
}

/// An integer-to-floating-point conversion.
pub struct IntegerConvertToNumber {
    /// The source expression.
    pub source: Expression,
    /// Whether the source integer is signed.
    pub signed: bool,
    /// The target floating-point type.
    pub to: NumberType,
    /// The source integer type.
    pub from: IntegerType,
}

/// An integer-to-floating-point reinterpretation.
pub struct IntegerTransmuteToNumber {
    /// The source expression.
    pub source: Expression,
    /// The source integer type.
    pub from: IntegerType,
}

/// A floating-point unary operation.
pub struct NumberUnaryOperation {
    /// The source expression.
    pub source: Expression,
    /// The floating-point type.
    pub kind: NumberType,
    /// The operator.
    pub operator: NumberUnaryOperator,
}

/// A floating-point binary operation.
pub struct NumberBinaryOperation {
    /// The left-hand operand.
    pub lhs: Expression,
    /// The right-hand operand.
    pub rhs: Expression,
    /// The floating-point type.
    pub kind: NumberType,
    /// The operator.
    pub operator: NumberBinaryOperator,
}

/// A floating-point comparison.
pub struct NumberCompareOperation {
    /// The left-hand operand.
    pub lhs: Expression,
    /// The right-hand operand.
    pub rhs: Expression,
    /// The floating-point type.
    pub kind: NumberType,
    /// The comparison operator.
    pub operator: NumberCompareOperator,
}

/// A floating-point narrowing.
pub struct NumberNarrow {
    /// The source expression.
    pub source: Expression,
}

/// A floating-point widening.
pub struct NumberWiden {
    /// The source expression.
    pub source: Expression,
}

/// A floating-point-to-integer truncation.
pub struct NumberTruncateToInteger {
    /// The source expression.
    pub source: Expression,
    /// Whether the target integer is signed.
    pub signed: bool,
    /// Whether to use saturating semantics.
    pub saturate: bool,
    /// The target integer type.
    pub to: IntegerType,
    /// The source floating-point type.
    pub from: NumberType,
}

impl NumberTruncateToInteger {
    fn should_be_boolean(&self) -> (b: bool)
        ensures
            b == (self.to is I32),
    {
        matches!(self.to, IntegerType::I32)
    }
}

/// A floating-point-to-integer reinterpretation.
pub struct NumberTransmuteToInteger {
    /// The source expression.
    pub source: Expression,
    /// The source floating-point type.
    pub from: NumberType,
}

impl NumberTransmuteToInteger {
    fn should_be_boolean(&self) -> (b: bool)
        ensures
            b == (self.from is F32),
    {
        matches!(self.from, NumberType::F32)
    }
}

/// A memory or table location.
pub struct Location {
    /// The base reference expression.
    pub reference: Expression,
    /// The offset expression.
    pub offset: Expression,
}

/// A global variable creation.
pub struct GlobalNew {
    /// The initial value expression.
    pub initializer: Expression,
}

/// A global variable read.
pub struct GlobalGet {
    /// The source expression.
    pub source: Expression,
}

/// A table creation.
pub struct TableNew {
    /// The initial elements and their offsets.
    pub initializer: Vec<(Expression, u32)>,
    /// The minimum element count.
    pub minimum: u32,
    /// The maximum element count.
    pub maximum: u32,
}

/// A table element read.
pub struct TableGet {
    /// The source location.
    pub source: Location,
    /// The structural WebAssembly function type key the element is checked against.
    pub key: Option<String>,
}

/// A table size query.
pub struct TableSize {
    /// The source expression.
    pub source: Expression,
}

/// A table grow.
pub struct TableGrow {
    /// The destination expression.
    pub destination: Expression,
    /// The initial value expression.
    pub initializer: Expression,
    /// The size expression.
    pub size: Expression,
}

/// A memory load.
pub struct MemoryLoad {
    /// The source location.
    pub source: Location,
    /// The static byte offset added to the address.
    pub offset: u32,
    /// The load type.
    pub kind: LoadType,
}

impl MemoryLoad {
    fn should_be_boolean(&self) -> (b: bool)
        ensures
            b == (self.kind is I32_S8 || self.kind is I32_U8 || self.kind is I32_S16
                || self.kind is I32_U16 || self.kind is I32),
    {
        matches!(
            self.kind,
            LoadType::I32_S8 | LoadType::I32_U8 | LoadType::I32_S16 | LoadType::I32_U16
                | LoadType::I32
        )
    }
}

/// A memory size query.
pub struct MemorySize {
    /// The source expression.
    pub source: Expression,
}

/// A memory grow.
pub struct MemoryGrow {
    /// The destination expression.
    pub destination: Expression,
    /// The size expression.
    pub size: Expression,
}

/// An expression node.
pub enum Expression {
    /// A function definition.
    Function(Box<Function>),
    /// A scoped function with captured dependencies.
    Scoped(Box<Scoped>),
    /// A conditional match expression.
    Match(Box<Match>),
    /// An external import.
    Import(Box<Import>),
    /// An unreachable trap.
    Trap,
    /// A null reference constant.
    Null,
    /// A local variable reference.
    Local(Local),
    /// A 32-bit integer constant.
    I32(i32),
    /// A 64-bit integer constant.
    I64(i64),
    /// A 32-bit float constant, by its IEEE 754 bits.
    F32(u32),
    /// A 64-bit float constant, by its IEEE 754 bits.
    F64(u64),
    /// A function call.
    Call(Box<Call>),
    /// A boolean-to-integer conversion.
    BooleanToInteger(Box<BooleanToInteger>),
    /// A reference null check.
    RefIsNull(Box<RefIsNull>),
    /// An integer unary operation.
    IntegerUnaryOperation(Box<IntegerUnaryOperation>),
    /// An integer binary operation.
    IntegerBinaryOperation(Box<IntegerBinaryOperation>),
    /// An integer comparison.
    IntegerCompareOperation(Box<IntegerCompareOperation>),
    /// An integer narrowing.
    IntegerNarrow(Box<IntegerNarrow>),
    /// An integer widening.
    IntegerWiden(Box<IntegerWiden>),
    /// An integer sign extension.
    IntegerExtend(Box<IntegerExtend>),
    /// An integer-to-floating-point conversion.
    IntegerConvertToNumber(Box<IntegerConvertToNumber>),
    /// An integer-to-floating-point reinterpretation.
    IntegerTransmuteToNumber(Box<IntegerTransmuteToNumber>),
    /// A floating-point unary operation.
    NumberUnaryOperation(Box<NumberUnaryOperation>),
    /// A floating-point binary operation.
    NumberBinaryOperation(Box<NumberBinaryOperation>),
    /// A floating-point comparison.
    NumberCompareOperation(Box<NumberCompareOperation>),
    /// A floating-point narrowing.
    NumberNarrow(Box<NumberNarrow>),
    /// A floating-point widening.
    NumberWiden(Box<NumberWiden>),
    /// A floating-point-to-integer truncation.
    NumberTruncateToInteger(Box<NumberTruncateToInteger>),
    /// A floating-point-to-integer reinterpretation.
    NumberTransmuteToInteger(Box<NumberTransmuteToInteger>),
    /// A global variable creation.
    GlobalNew(Box<GlobalNew>),
    /// A global variable read.
    GlobalGet(Box<GlobalGet>),
    /// A table creation.
    TableNew(Box<TableNew>),
    /// A table element read.
    TableGet(Box<TableGet>),
    /// A table size query.
    TableSize(Box<TableSize>),
    /// A table grow.
    TableGrow(Box<TableGrow>),
    /// A memory creation.
    MemoryNew(MemoryNew),
    /// A memory load.
    MemoryLoad(Box<MemoryLoad>),
    /// A memory size query.
    MemorySize(Box<MemorySize>),
    /// A memory grow.
    MemoryGrow(Box<MemoryGrow>),
}

/// Whether the expression yields a 32-bit integer, which Lua's truth test
/// does not read as WebAssembly does: zero is truthy in Lua.
pub open spec fn yields_i32(e: Expression) -> bool {
    match e {
        Expression::Match(_) | Expression::Local(_) | Expression::I32(_) | Expression::Call(_)
        | Expression::IntegerNarrow(_) | Expression::GlobalGet(_) | Expression::TableSize(_)
        | Expression::TableGrow(_) | Expression::MemorySize(_) | Expression::MemoryGrow(_) => true,
        Expression::IntegerUnaryOperation(operation) => operation.kind is I32,
        Expression::IntegerBinaryOperation(operation) => operation.kind is I32,
        Expression::IntegerExtend(extend) => extend.kind is I32_S8 || extend.kind is I32_S16,
        Expression::NumberTruncateToInteger(truncate) => truncate.to is I32,
        Expression::NumberTransmuteToInteger(transmute) => transmute.from is F32,
        Expression::MemoryLoad(load) => load.kind is I32_S8 || load.kind is I32_U8
            || load.kind is I32_S16 || load.kind is I32_U16 || load.kind is I32,
        _ => false,
    }
}

/// Whether the expression already yields a boolean, or never yields at all.
pub open spec fn yields_boolean(e: Expression) -> bool {
    e is Trap || e is RefIsNull || e is IntegerCompareOperation || e is NumberCompareOperation
}

/// Whether the expression has a boolean form: a 32-bit integer, a boolean, or
/// a boolean turned into an integer.
pub open spec fn has_boolean_form(e: Expression) -> bool {
    yields_i32(e) || yields_boolean(e) || e is BooleanToInteger
}

/// The test that a 32-bit integer is not zero.
pub open spec fn nonzero_test(e: Expression) -> Expression {
    Expression::IntegerCompareOperation(
        Box::new(
            IntegerCompareOperation {
                lhs: e,
                rhs: Expression::I32(0),
                kind: IntegerType::I32,
                operator: IntegerCompareOperator::NotEqual,
            },
        ),
    )
}

/// The boolean form of an expression: a 32-bit integer is compared with zero,
/// a boolean turned into an integer gives back the boolean, and a boolean stays.
pub open spec fn boolean_form(e: Expression) -> Expression {
    if yields_i32(e) {
        nonzero_test(e)
    } else {
        match e {
            Expression::BooleanToInteger(conversion) => conversion.source,
            _ => e,
        }
    }
}

impl Expression {
    /// Returns the local variable that a `Local` expression reads.
    pub fn into_local(&self) -> (local: Local)
        requires
            *self is Local,
        ensures
            *self == Expression::Local(local),
    {
        match self {
            Expression::Local(local) => *local,
            _ => vstd::pervasive::unreached(),
        }
    }

    fn into_boolean_unchecked(self) -> (e: Expression)
        ensures
            e == nonzero_test(self),
    {
        let operation = IntegerCompareOperation {
            lhs: self,
            rhs: Expression::I32(0),
            kind: IntegerType::I32,
            operator: IntegerCompareOperator::NotEqual,
        };
        Expression::IntegerCompareOperation(Box::new(operation))
    }

    /// Converts this expression into a boolean. Only expressions with a boolean
    /// form can be converted.
    pub fn into_boolean(self) -> (e: Expression)
        requires
            has_boolean_form(self),
        ensures
            e == boolean_form(self),
    {
        match self {
            Expression::Match(_) | Expression::Local(_) | Expression::I32(_)
            | Expression::Call(_) | Expression::IntegerNarrow(_) | Expression::GlobalGet(_)
            | Expression::TableSize(_) | Expression::TableGrow(_) | Expression::MemorySize(_)
            | Expression::MemoryGrow(_) => self.into_boolean_unchecked(),
            Expression::Trap | Expression::RefIsNull(_) | Expression::IntegerCompareOperation(_)
            | Expression::NumberCompareOperation(_) => self,
            Expression::BooleanToInteger(boolean_to_integer) => boolean_to_integer.source,
            Expression::IntegerUnaryOperation(operation) => {
                if operation.should_be_boolean() {
                    Expression::IntegerUnaryOperation(operation).into_boolean_unchecked()
                } else {
                    vstd::pervasive::unreached()
                }
            },
            Expression::IntegerBinaryOperation(operation) => {
                if operation.should_be_boolean() {
                    Expression::IntegerBinaryOperation(operation).into_boolean_unchecked()
                } else {
                    vstd::pervasive::unreached()
                }
            },
            Expression::IntegerExtend(extend) => {
                if extend.should_be_boolean() {
                    Expression::IntegerExtend(extend).into_boolean_unchecked()
                } else {
                    vstd::pervasive::unreached()
                }
            },
            Expression::NumberTruncateToInteger(truncate) => {
                if truncate.should_be_boolean() {
                    Expression::NumberTruncateToInteger(truncate).into_boolean_unchecked()
                } else {
                    vstd::pervasive::unreached()
                }
            },
            Expression::NumberTransmuteToInteger(transmute) => {
                if transmute.should_be_boolean() {
                    Expression::NumberTransmuteToInteger(transmute).into_boolean_unchecked()
                } else {
                    vstd::pervasive::unreached()
                }
            },
            Expression::MemoryLoad(load) => {
                if load.should_be_boolean() {
                    Expression::MemoryLoad(load).into_boolean_unchecked()
                } else {
                    vstd::pervasive::unreached()
                }
            },
            _ => vstd::pervasive::unreached(),
        }
    }
}

} // verus!
