//! The node enumeration and the visitors that dispatch over every node kind.

use vstd::prelude::*;

use crate::graph::{
    control::{GammaIn, GammaOut, Import, LambdaIn, LambdaOut, OmegaIn, OmegaOut, RegionIn, RegionOut, ThetaIn, ThetaOut},
    link::Link,
    simple::{Apply, Fence, GlobalGet, GlobalNew, GlobalSet, Identity, IntegerBinaryOperation, IntegerCompareOperation, IntegerConvertToNumber, IntegerExtend, IntegerNarrow, IntegerTransmuteToNumber, IntegerUnaryOperation, IntegerWiden, MemoryCopy, MemoryDrop, MemoryFill, MemoryGrow, MemoryLoad, MemoryNew, MemorySize, MemoryStore, NumberBinaryOperation, NumberCompareOperation, NumberNarrow, NumberTransmuteToInteger, NumberTruncateToInteger, NumberUnaryOperation, NumberWiden, RefIsNull, TableCopy, TableDrop, TableFill, TableGet, TableGrow, TableNew, TableSet, TableSize},
};

verus! {

/// A node of the data flow graph.
#[derive(Debug)]
pub enum Node {
    /// A lambda (function) input node.
    LambdaIn(LambdaIn),
    /// A lambda (function) output node.
    LambdaOut(LambdaOut),
    /// A region (scope) input node.
    RegionIn(RegionIn),
    /// A region (scope) output node.
    RegionOut(RegionOut),
    /// A gamma (conditional) input node.
    GammaIn(GammaIn),
    /// A gamma (conditional) output node.
    GammaOut(GammaOut),
    /// A theta (loop) input node.
    ThetaIn(ThetaIn),
    /// A theta (loop) output node.
    ThetaOut(ThetaOut),
    /// An omega (program) input node.
    OmegaIn(OmegaIn),
    /// An omega (program) output node.
    OmegaOut(OmegaOut),
    /// An external import node.
    Import(Import),
    /// A node that traps when evaluated.
    Trap,
    /// The null reference constant.
    Null,
    /// A 32-bit integer constant.
    I32(i32),
    /// A 64-bit integer constant.
    I64(i64),
    /// A 32-bit float constant, held by its bit pattern.
    F32(u32),
    /// A 64-bit float constant, held by its bit pattern.
    F64(u64),
    /// A node that passes through its sources unchanged.
    Identity(Identity),
    /// A fence node that orders its sources.
    Fence(Fence),
    /// A function application node.
    Apply(Apply),
    /// A reference null check node.
    RefIsNull(RefIsNull),
    /// An integer unary operation node.
    IntegerUnaryOperation(IntegerUnaryOperation),
    /// An integer binary operation node.
    IntegerBinaryOperation(IntegerBinaryOperation),
    /// An integer comparison operation node.
    IntegerCompareOperation(IntegerCompareOperation),
    /// An integer narrowing node from 64-bit to 32-bit.
    IntegerNarrow(IntegerNarrow),
    /// An integer widening node from 32-bit to 64-bit.
    IntegerWiden(IntegerWiden),
    /// An integer sign-extension node.
    IntegerExtend(IntegerExtend),
    /// An integer-to-floating-point conversion node.
    IntegerConvertToNumber(IntegerConvertToNumber),
    /// An integer-to-floating-point bit reinterpretation node.
    IntegerTransmuteToNumber(IntegerTransmuteToNumber),
    /// A floating-point unary operation node.
    NumberUnaryOperation(NumberUnaryOperation),
    /// A floating-point binary operation node.
    NumberBinaryOperation(NumberBinaryOperation),
    /// A floating-point comparison operation node.
    NumberCompareOperation(NumberCompareOperation),
    /// A floating-point-to-integer truncation node.
    NumberTruncateToInteger(NumberTruncateToInteger),
    /// A floating-point-to-integer bit reinterpretation node.
    NumberTransmuteToInteger(NumberTransmuteToInteger),
    /// A floating-point narrowing node from 64-bit to 32-bit.
    NumberNarrow(NumberNarrow),
    /// A floating-point widening node from 32-bit to 64-bit.
    NumberWiden(NumberWiden),
    /// A global variable creation node.
    GlobalNew(GlobalNew),
    /// A global variable read node.
    GlobalGet(GlobalGet),
    /// A global variable write node.
    GlobalSet(GlobalSet),
    /// A table creation node.
    TableNew(TableNew),
    /// A table element read node.
    TableGet(TableGet),
    /// A table element write node.
    TableSet(TableSet),
    /// A table size query node.
    TableSize(TableSize),
    /// A table grow node.
    TableGrow(TableGrow),
    /// A table fill node.
    TableFill(TableFill),
    /// A table copy node.
    TableCopy(TableCopy),
    /// A table drop node.
    TableDrop(TableDrop),
    /// A memory creation node.
    MemoryNew(MemoryNew),
    /// A memory load node.
    MemoryLoad(MemoryLoad),
    /// A memory store node.
    MemoryStore(MemoryStore),
    /// A memory size query node.
    MemorySize(MemorySize),
    /// A memory grow node.
    MemoryGrow(MemoryGrow),
    /// A memory fill node.
    MemoryFill(MemoryFill),
    /// A memory copy node.
    MemoryCopy(MemoryCopy),
    /// A memory drop node.
    MemoryDrop(MemoryDrop),
}

impl Node {
    /// The argument links this node reads, in visiting order.
    pub open spec fn arguments(&self) -> Seq<Link> {
        match self {
            Node::LambdaIn(node) => node.arguments(),
            Node::LambdaOut(node) => node.arguments(),
            Node::RegionIn(node) => node.arguments(),
            Node::RegionOut(node) => node.arguments(),
            Node::GammaIn(node) => node.arguments(),
            Node::GammaOut(node) => node.arguments(),
            Node::ThetaIn(node) => node.arguments(),
            Node::ThetaOut(node) => node.arguments(),
            Node::OmegaIn(node) => node.arguments(),
            Node::OmegaOut(node) => node.arguments(),
            Node::Import(node) => node.arguments(),
            Node::Identity(node) => node.arguments(),
            Node::Fence(node) => node.arguments(),
            Node::Apply(node) => node.arguments(),
            Node::RefIsNull(node) => node.arguments(),
            Node::IntegerUnaryOperation(node) => node.arguments(),
            Node::IntegerBinaryOperation(node) => node.arguments(),
            Node::IntegerCompareOperation(node) => node.arguments(),
            Node::IntegerNarrow(node) => node.arguments(),
            Node::IntegerWiden(node) => node.arguments(),
            Node::IntegerExtend(node) => node.arguments(),
            Node::IntegerConvertToNumber(node) => node.arguments(),
            Node::IntegerTransmuteToNumber(node) => node.arguments(),
            Node::NumberUnaryOperation(node) => node.arguments(),
            Node::NumberBinaryOperation(node) => node.arguments(),
            Node::NumberCompareOperation(node) => node.arguments(),
            Node::NumberTruncateToInteger(node) => node.arguments(),
            Node::NumberTransmuteToInteger(node) => node.arguments(),
            Node::NumberNarrow(node) => node.arguments(),
            Node::NumberWiden(node) => node.arguments(),
            Node::GlobalNew(node) => node.arguments(),
            Node::GlobalGet(node) => node.arguments(),
            Node::GlobalSet(node) => node.arguments(),
            Node::TableNew(node) => node.arguments(),
            Node::TableGet(node) => node.arguments(),
            Node::TableSet(node) => node.arguments(),
            Node::TableSize(node) => node.arguments(),
            Node::TableGrow(node) => node.arguments(),
            Node::TableFill(node) => node.arguments(),
            Node::TableCopy(node) => node.arguments(),
            Node::TableDrop(node) => node.arguments(),
            Node::MemoryNew(node) => node.arguments(),
            Node::MemoryLoad(node) => node.arguments(),
            Node::MemoryStore(node) => node.arguments(),
            Node::MemorySize(node) => node.arguments(),
            Node::MemoryGrow(node) => node.arguments(),
            Node::MemoryFill(node) => node.arguments(),
            Node::MemoryCopy(node) => node.arguments(),
            Node::MemoryDrop(node) => node.arguments(),
            _ => Seq::empty(),
        }
    }

    /// The node identifiers this node mentions, in visiting order.
    pub open spec fn ids(&self) -> Seq<u32> {
        match self {
            Node::LambdaIn(node) => node.ids(),
            Node::LambdaOut(node) => node.ids(),
            Node::RegionIn(node) => node.ids(),
            Node::RegionOut(node) => node.ids(),
            Node::GammaIn(node) => node.ids(),
            Node::GammaOut(node) => node.ids(),
            Node::ThetaIn(node) => node.ids(),
            Node::ThetaOut(node) => node.ids(),
            Node::OmegaIn(node) => node.ids(),
            Node::OmegaOut(node) => node.ids(),
            Node::Import(node) => node.ids(),
            Node::Identity(node) => node.ids(),
            Node::Fence(node) => node.ids(),
            Node::Apply(node) => node.ids(),
            Node::RefIsNull(node) => node.ids(),
            Node::IntegerUnaryOperation(node) => node.ids(),
            Node::IntegerBinaryOperation(node) => node.ids(),
            Node::IntegerCompareOperation(node) => node.ids(),
            Node::IntegerNarrow(node) => node.ids(),
            Node::IntegerWiden(node) => node.ids(),
            Node::IntegerExtend(node) => node.ids(),
            Node::IntegerConvertToNumber(node) => node.ids(),
            Node::IntegerTransmuteToNumber(node) => node.ids(),
            Node::NumberUnaryOperation(node) => node.ids(),
            Node::NumberBinaryOperation(node) => node.ids(),
            Node::NumberCompareOperation(node) => node.ids(),
            Node::NumberTruncateToInteger(node) => node.ids(),
            Node::NumberTransmuteToInteger(node) => node.ids(),
            Node::NumberNarrow(node) => node.ids(),
            Node::NumberWiden(node) => node.ids(),
            Node::GlobalNew(node) => node.ids(),
            Node::GlobalGet(node) => node.ids(),
            Node::GlobalSet(node) => node.ids(),
            Node::TableNew(node) => node.ids(),
            Node::TableGet(node) => node.ids(),
            Node::TableSet(node) => node.ids(),
            Node::TableSize(node) => node.ids(),
            Node::TableGrow(node) => node.ids(),
            Node::TableFill(node) => node.ids(),
            Node::TableCopy(node) => node.ids(),
            Node::TableDrop(node) => node.ids(),
            Node::MemoryNew(node) => node.ids(),
            Node::MemoryLoad(node) => node.ids(),
            Node::MemoryStore(node) => node.ids(),
            Node::MemorySize(node) => node.ids(),
            Node::MemoryGrow(node) => node.ids(),
            Node::MemoryFill(node) => node.ids(),
            Node::MemoryCopy(node) => node.ids(),
            Node::MemoryDrop(node) => node.ids(),
            _ => Seq::empty(),
        }
    }

    /// The nodes this node structurally depends on, in visiting order.
    pub open spec fn requirements(&self) -> Seq<u32> {
        match self {
            Node::LambdaOut(node) => node.requirements(),
            Node::RegionIn(node) => node.requirements(),
            Node::RegionOut(node) => node.requirements(),
            Node::GammaOut(node) => node.requirements(),
            Node::ThetaOut(node) => node.requirements(),
            Node::OmegaOut(node) => node.requirements(),
            _ => Seq::empty(),
        }
    }

    /// Whether `other` is the same kind of node as this one and agrees with it on
    /// everything but its argument links.
    pub open spec fn same_except_arguments(&self, other: &Self) -> bool {
        match (self, other) {
            (Node::LambdaIn(a), Node::LambdaIn(b)) => a.same_except_arguments(b),
            (Node::LambdaOut(a), Node::LambdaOut(b)) => a.same_except_arguments(b),
            (Node::RegionIn(a), Node::RegionIn(b)) => a.same_except_arguments(b),
            (Node::RegionOut(a), Node::RegionOut(b)) => a.same_except_arguments(b),
            (Node::GammaIn(a), Node::GammaIn(b)) => a.same_except_arguments(b),
            (Node::GammaOut(a), Node::GammaOut(b)) => a.same_except_arguments(b),
            (Node::ThetaIn(a), Node::ThetaIn(b)) => a.same_except_arguments(b),
            (Node::ThetaOut(a), Node::ThetaOut(b)) => a.same_except_arguments(b),
            (Node::OmegaIn(a), Node::OmegaIn(b)) => a.same_except_arguments(b),
            (Node::OmegaOut(a), Node::OmegaOut(b)) => a.same_except_arguments(b),
            (Node::Import(a), Node::Import(b)) => a.same_except_arguments(b),
            (Node::Trap, Node::Trap) => true,
            (Node::Null, Node::Null) => true,
            (Node::I32(a), Node::I32(b)) => a == b,
            (Node::I64(a), Node::I64(b)) => a == b,
            (Node::F32(a), Node::F32(b)) => a == b,
            (Node::F64(a), Node::F64(b)) => a == b,
            (Node::Identity(a), Node::Identity(b)) => a.same_except_arguments(b),
            (Node::Fence(a), Node::Fence(b)) => a.same_except_arguments(b),
            (Node::Apply(a), Node::Apply(b)) => a.same_except_arguments(b),
            (Node::RefIsNull(a), Node::RefIsNull(b)) => a.same_except_arguments(b),
            (Node::IntegerUnaryOperation(a), Node::IntegerUnaryOperation(b)) => a.same_except_arguments(b),
            (Node::IntegerBinaryOperation(a), Node::IntegerBinaryOperation(b)) => a.same_except_arguments(b),
            (Node::IntegerCompareOperation(a), Node::IntegerCompareOperation(b)) => a.same_except_arguments(b),
            (Node::IntegerNarrow(a), Node::IntegerNarrow(b)) => a.same_except_arguments(b),
            (Node::IntegerWiden(a), Node::IntegerWiden(b)) => a.same_except_arguments(b),
            (Node::IntegerExtend(a), Node::IntegerExtend(b)) => a.same_except_arguments(b),
            (Node::IntegerConvertToNumber(a), Node::IntegerConvertToNumber(b)) => a.same_except_arguments(b),
            (Node::IntegerTransmuteToNumber(a), Node::IntegerTransmuteToNumber(b)) => a.same_except_arguments(b),
            (Node::NumberUnaryOperation(a), Node::NumberUnaryOperation(b)) => a.same_except_arguments(b),
            (Node::NumberBinaryOperation(a), Node::NumberBinaryOperation(b)) => a.same_except_arguments(b),
            (Node::NumberCompareOperation(a), Node::NumberCompareOperation(b)) => a.same_except_arguments(b),
            (Node::NumberTruncateToInteger(a), Node::NumberTruncateToInteger(b)) => a.same_except_arguments(b),
            (Node::NumberTransmuteToInteger(a), Node::NumberTransmuteToInteger(b)) => a.same_except_arguments(b),
            (Node::NumberNarrow(a), Node::NumberNarrow(b)) => a.same_except_arguments(b),
            (Node::NumberWiden(a), Node::NumberWiden(b)) => a.same_except_arguments(b),
            (Node::GlobalNew(a), Node::GlobalNew(b)) => a.same_except_arguments(b),
            (Node::GlobalGet(a), Node::GlobalGet(b)) => a.same_except_arguments(b),
            (Node::GlobalSet(a), Node::GlobalSet(b)) => a.same_except_arguments(b),
            (Node::TableNew(a), Node::TableNew(b)) => a.same_except_arguments(b),
            (Node::TableGet(a), Node::TableGet(b)) => a.same_except_arguments(b),
            (Node::TableSet(a), Node::TableSet(b)) => a.same_except_arguments(b),
            (Node::TableSize(a), Node::TableSize(b)) => a.same_except_arguments(b),
            (Node::TableGrow(a), Node::TableGrow(b)) => a.same_except_arguments(b),
            (Node::TableFill(a), Node::TableFill(b)) => a.same_except_arguments(b),
            (Node::TableCopy(a), Node::TableCopy(b)) => a.same_except_arguments(b),
            (Node::TableDrop(a), Node::TableDrop(b)) => a.same_except_arguments(b),
            (Node::MemoryNew(a), Node::MemoryNew(b)) => a.same_except_arguments(b),
            (Node::MemoryLoad(a), Node::MemoryLoad(b)) => a.same_except_arguments(b),
            (Node::MemoryStore(a), Node::MemoryStore(b)) => a.same_except_arguments(b),
            (Node::MemorySize(a), Node::MemorySize(b)) => a.same_except_arguments(b),
            (Node::MemoryGrow(a), Node::MemoryGrow(b)) => a.same_except_arguments(b),
            (Node::MemoryFill(a), Node::MemoryFill(b)) => a.same_except_arguments(b),
            (Node::MemoryCopy(a), Node::MemoryCopy(b)) => a.same_except_arguments(b),
            (Node::MemoryDrop(a), Node::MemoryDrop(b)) => a.same_except_arguments(b),
            _ => false,
        }
    }

    /// Whether `other` is the same kind of node as this one and agrees with it on
    /// everything but the nodes it mentions.
    pub open spec fn same_except_ids(&self, other: &Self) -> bool {
        match (self, other) {
            (Node::LambdaIn(a), Node::LambdaIn(b)) => a.same_except_ids(b),
            (Node::LambdaOut(a), Node::LambdaOut(b)) => a.same_except_ids(b),
            (Node::RegionIn(a), Node::RegionIn(b)) => a.same_except_ids(b),
            (Node::RegionOut(a), Node::RegionOut(b)) => a.same_except_ids(b),
            (Node::GammaIn(a), Node::GammaIn(b)) => a.same_except_ids(b),
            (Node::GammaOut(a), Node::GammaOut(b)) => a.same_except_ids(b),
            (Node::ThetaIn(a), Node::ThetaIn(b)) => a.same_except_ids(b),
            (Node::ThetaOut(a), Node::ThetaOut(b)) => a.same_except_ids(b),
            (Node::OmegaIn(a), Node::OmegaIn(b)) => a.same_except_ids(b),
            (Node::OmegaOut(a), Node::OmegaOut(b)) => a.same_except_ids(b),
            (Node::Import(a), Node::Import(b)) => a.same_except_ids(b),
            (Node::Trap, Node::Trap) => true,
            (Node::Null, Node::Null) => true,
            (Node::I32(a), Node::I32(b)) => a == b,
            (Node::I64(a), Node::I64(b)) => a == b,
            (Node::F32(a), Node::F32(b)) => a == b,
            (Node::F64(a), Node::F64(b)) => a == b,
            (Node::Identity(a), Node::Identity(b)) => a.same_except_ids(b),
            (Node::Fence(a), Node::Fence(b)) => a.same_except_ids(b),
            (Node::Apply(a), Node::Apply(b)) => a.same_except_ids(b),
            (Node::RefIsNull(a), Node::RefIsNull(b)) => a.same_except_ids(b),
            (Node::IntegerUnaryOperation(a), Node::IntegerUnaryOperation(b)) => a.same_except_ids(b),
            (Node::IntegerBinaryOperation(a), Node::IntegerBinaryOperation(b)) => a.same_except_ids(b),
            (Node::IntegerCompareOperation(a), Node::IntegerCompareOperation(b)) => a.same_except_ids(b),
            (Node::IntegerNarrow(a), Node::IntegerNarrow(b)) => a.same_except_ids(b),
            (Node::IntegerWiden(a), Node::IntegerWiden(b)) => a.same_except_ids(b),
            (Node::IntegerExtend(a), Node::IntegerExtend(b)) => a.same_except_ids(b),
            (Node::IntegerConvertToNumber(a), Node::IntegerConvertToNumber(b)) => a.same_except_ids(b),
            (Node::IntegerTransmuteToNumber(a), Node::IntegerTransmuteToNumber(b)) => a.same_except_ids(b),
            (Node::NumberUnaryOperation(a), Node::NumberUnaryOperation(b)) => a.same_except_ids(b),
            (Node::NumberBinaryOperation(a), Node::NumberBinaryOperation(b)) => a.same_except_ids(b),
            (Node::NumberCompareOperation(a), Node::NumberCompareOperation(b)) => a.same_except_ids(b),
            (Node::NumberTruncateToInteger(a), Node::NumberTruncateToInteger(b)) => a.same_except_ids(b),
            (Node::NumberTransmuteToInteger(a), Node::NumberTransmuteToInteger(b)) => a.same_except_ids(b),
            (Node::NumberNarrow(a), Node::NumberNarrow(b)) => a.same_except_ids(b),
            (Node::NumberWiden(a), Node::NumberWiden(b)) => a.same_except_ids(b),
            (Node::GlobalNew(a), Node::GlobalNew(b)) => a.same_except_ids(b),
            (Node::GlobalGet(a), Node::GlobalGet(b)) => a.same_except_ids(b),
            (Node::GlobalSet(a), Node::GlobalSet(b)) => a.same_except_ids(b),
            (Node::TableNew(a), Node::TableNew(b)) => a.same_except_ids(b),
            (Node::TableGet(a), Node::TableGet(b)) => a.same_except_ids(b),
            (Node::TableSet(a), Node::TableSet(b)) => a.same_except_ids(b),
            (Node::TableSize(a), Node::TableSize(b)) => a.same_except_ids(b),
            (Node::TableGrow(a), Node::TableGrow(b)) => a.same_except_ids(b),
            (Node::TableFill(a), Node::TableFill(b)) => a.same_except_ids(b),
            (Node::TableCopy(a), Node::TableCopy(b)) => a.same_except_ids(b),
            (Node::TableDrop(a), Node::TableDrop(b)) => a.same_except_ids(b),
            (Node::MemoryNew(a), Node::MemoryNew(b)) => a.same_except_ids(b),
            (Node::MemoryLoad(a), Node::MemoryLoad(b)) => a.same_except_ids(b),
            (Node::MemoryStore(a), Node::MemoryStore(b)) => a.same_except_ids(b),
            (Node::MemorySize(a), Node::MemorySize(b)) => a.same_except_ids(b),
            (Node::MemoryGrow(a), Node::MemoryGrow(b)) => a.same_except_ids(b),
            (Node::MemoryFill(a), Node::MemoryFill(b)) => a.same_except_ids(b),
            (Node::MemoryCopy(a), Node::MemoryCopy(b)) => a.same_except_ids(b),
            (Node::MemoryDrop(a), Node::MemoryDrop(b)) => a.same_except_ids(b),
            _ => false,
        }
    }

    /// Appends each argument link to `out`, in visiting order.
    pub fn for_each_argument(&self, out: &mut Vec<Link>)
        ensures
            final(out)@ == old(out)@ + self.arguments(),
    {
        match self {
            Node::LambdaIn(node) => node.for_each_argument(out),
            Node::LambdaOut(node) => node.for_each_argument(out),
            Node::RegionIn(node) => node.for_each_argument(out),
            Node::RegionOut(node) => node.for_each_argument(out),
            Node::GammaIn(node) => node.for_each_argument(out),
            Node::GammaOut(node) => node.for_each_argument(out),
            Node::ThetaIn(node) => node.for_each_argument(out),
            Node::ThetaOut(node) => node.for_each_argument(out),
            Node::OmegaIn(node) => node.for_each_argument(out),
            Node::OmegaOut(node) => node.for_each_argument(out),
            Node::Import(node) => node.for_each_argument(out),
            Node::Identity(node) => node.for_each_argument(out),
            Node::Fence(node) => node.for_each_argument(out),
            Node::Apply(node) => node.for_each_argument(out),
            Node::RefIsNull(node) => node.for_each_argument(out),
            Node::IntegerUnaryOperation(node) => node.for_each_argument(out),
            Node::IntegerBinaryOperation(node) => node.for_each_argument(out),
            Node::IntegerCompareOperation(node) => node.for_each_argument(out),
            Node::IntegerNarrow(node) => node.for_each_argument(out),
            Node::IntegerWiden(node) => node.for_each_argument(out),
            Node::IntegerExtend(node) => node.for_each_argument(out),
            Node::IntegerConvertToNumber(node) => node.for_each_argument(out),
            Node::IntegerTransmuteToNumber(node) => node.for_each_argument(out),
            Node::NumberUnaryOperation(node) => node.for_each_argument(out),
            Node::NumberBinaryOperation(node) => node.for_each_argument(out),
            Node::NumberCompareOperation(node) => node.for_each_argument(out),
            Node::NumberTruncateToInteger(node) => node.for_each_argument(out),
            Node::NumberTransmuteToInteger(node) => node.for_each_argument(out),
            Node::NumberNarrow(node) => node.for_each_argument(out),
            Node::NumberWiden(node) => node.for_each_argument(out),
            Node::GlobalNew(node) => node.for_each_argument(out),
            Node::GlobalGet(node) => node.for_each_argument(out),
            Node::GlobalSet(node) => node.for_each_argument(out),
            Node::TableNew(node) => node.for_each_argument(out),
            Node::TableGet(node) => node.for_each_argument(out),
            Node::TableSet(node) => node.for_each_argument(out),
            Node::TableSize(node) => node.for_each_argument(out),
            Node::TableGrow(node) => node.for_each_argument(out),
            Node::TableFill(node) => node.for_each_argument(out),
            Node::TableCopy(node) => node.for_each_argument(out),
            Node::TableDrop(node) => node.for_each_argument(out),
            Node::MemoryNew(node) => node.for_each_argument(out),
            Node::MemoryLoad(node) => node.for_each_argument(out),
            Node::MemoryStore(node) => node.for_each_argument(out),
            Node::MemorySize(node) => node.for_each_argument(out),
            Node::MemoryGrow(node) => node.for_each_argument(out),
            Node::MemoryFill(node) => node.for_each_argument(out),
            Node::MemoryCopy(node) => node.for_each_argument(out),
            Node::MemoryDrop(node) => node.for_each_argument(out),
            Node::Trap
            | Node::Null
            | Node::I32(_)
            | Node::I64(_)
            | Node::F32(_)
            | Node::F64(_) => {},
        }
    }

    /// Appends each node identifier this node mentions to `out`, in visiting order.
    pub fn for_each_id(&self, out: &mut Vec<u32>)
        ensures
            final(out)@ == old(out)@ + self.ids(),
    {
        match self {
            Node::LambdaIn(node) => node.for_each_id(out),
            Node::LambdaOut(node) => node.for_each_id(out),
            Node::RegionIn(node) => node.for_each_id(out),
            Node::RegionOut(node) => node.for_each_id(out),
            Node::GammaIn(node) => node.for_each_id(out),
            Node::GammaOut(node) => node.for_each_id(out),
            Node::ThetaIn(node) => node.for_each_id(out),
            Node::ThetaOut(node) => node.for_each_id(out),
            Node::OmegaIn(node) => node.for_each_id(out),
            Node::OmegaOut(node) => node.for_each_id(out),
            Node::Import(node) => node.for_each_id(out),
            Node::Identity(node) => node.for_each_id(out),
            Node::Fence(node) => node.for_each_id(out),
            Node::Apply(node) => node.for_each_id(out),
            Node::RefIsNull(node) => node.for_each_id(out),
            Node::IntegerUnaryOperation(node) => node.for_each_id(out),
            Node::IntegerBinaryOperation(node) => node.for_each_id(out),
            Node::IntegerCompareOperation(node) => node.for_each_id(out),
            Node::IntegerNarrow(node) => node.for_each_id(out),
            Node::IntegerWiden(node) => node.for_each_id(out),
            Node::IntegerExtend(node) => node.for_each_id(out),
            Node::IntegerConvertToNumber(node) => node.for_each_id(out),
            Node::IntegerTransmuteToNumber(node) => node.for_each_id(out),
            Node::NumberUnaryOperation(node) => node.for_each_id(out),
            Node::NumberBinaryOperation(node) => node.for_each_id(out),
            Node::NumberCompareOperation(node) => node.for_each_id(out),
            Node::NumberTruncateToInteger(node) => node.for_each_id(out),
            Node::NumberTransmuteToInteger(node) => node.for_each_id(out),
            Node::NumberNarrow(node) => node.for_each_id(out),
            Node::NumberWiden(node) => node.for_each_id(out),
            Node::GlobalNew(node) => node.for_each_id(out),
            Node::GlobalGet(node) => node.for_each_id(out),
            Node::GlobalSet(node) => node.for_each_id(out),
            Node::TableNew(node) => node.for_each_id(out),
            Node::TableGet(node) => node.for_each_id(out),
            Node::TableSet(node) => node.for_each_id(out),
            Node::TableSize(node) => node.for_each_id(out),
            Node::TableGrow(node) => node.for_each_id(out),
            Node::TableFill(node) => node.for_each_id(out),
            Node::TableCopy(node) => node.for_each_id(out),
            Node::TableDrop(node) => node.for_each_id(out),
            Node::MemoryNew(node) => node.for_each_id(out),
            Node::MemoryLoad(node) => node.for_each_id(out),
            Node::MemoryStore(node) => node.for_each_id(out),
            Node::MemorySize(node) => node.for_each_id(out),
            Node::MemoryGrow(node) => node.for_each_id(out),
            Node::MemoryFill(node) => node.for_each_id(out),
            Node::MemoryCopy(node) => node.for_each_id(out),
            Node::MemoryDrop(node) => node.for_each_id(out),
            Node::Trap
            | Node::Null
            | Node::I32(_)
            | Node::I64(_)
            | Node::F32(_)
            | Node::F64(_) => {},
        }
    }

    /// Appends each structural requirement to `out`, in visiting order.
    pub fn for_each_requirement(&self, out: &mut Vec<u32>)
        ensures
            final(out)@ == old(out)@ + self.requirements(),
    {
        match self {
            Node::LambdaOut(node) => node.for_each_requirement(out),
            Node::RegionIn(node) => node.for_each_requirement(out),
            Node::RegionOut(node) => node.for_each_requirement(out),
            Node::GammaOut(node) => node.for_each_requirement(out),
            Node::ThetaOut(node) => node.for_each_requirement(out),
            Node::OmegaOut(node) => node.for_each_requirement(out),
            Node::LambdaIn(_)
            | Node::GammaIn(_)
            | Node::ThetaIn(_)
            | Node::OmegaIn(_)
            | Node::Import(_)
            | Node::Trap
            | Node::Null
            | Node::I32(_)
            | Node::I64(_)
            | Node::F32(_)
            | Node::F64(_)
            | Node::Identity(_)
            | Node::Fence(_)
            | Node::Apply(_)
            | Node::RefIsNull(_)
            | Node::IntegerUnaryOperation(_)
            | Node::IntegerBinaryOperation(_)
            | Node::IntegerCompareOperation(_)
            | Node::IntegerNarrow(_)
            | Node::IntegerWiden(_)
            | Node::IntegerExtend(_)
            | Node::IntegerConvertToNumber(_)
            | Node::IntegerTransmuteToNumber(_)
            | Node::NumberUnaryOperation(_)
            | Node::NumberBinaryOperation(_)
            | Node::NumberCompareOperation(_)
            | Node::NumberTruncateToInteger(_)
            | Node::NumberTransmuteToInteger(_)
            | Node::NumberNarrow(_)
            | Node::NumberWiden(_)
            | Node::GlobalNew(_)
            | Node::GlobalGet(_)
            | Node::GlobalSet(_)
            | Node::TableNew(_)
            | Node::TableGet(_)
            | Node::TableSet(_)
            | Node::TableSize(_)
            | Node::TableGrow(_)
            | Node::TableFill(_)
            | Node::TableCopy(_)
            | Node::TableDrop(_)
            | Node::MemoryNew(_)
            | Node::MemoryLoad(_)
            | Node::MemoryStore(_)
            | Node::MemorySize(_)
            | Node::MemoryGrow(_)
            | Node::MemoryFill(_)
            | Node::MemoryCopy(_)
            | Node::MemoryDrop(_) => {},
        }
    }

    /// Replaces the argument links, in visiting order, with `new`.
    pub fn for_each_mut_argument(&mut self, new: &[Link])
        requires
            new@.len() == old(self).arguments().len(),
        ensures
            final(self).arguments() == new@,
            old(self).same_except_arguments(&*final(self)),
    {
        match self {
            Node::LambdaIn(node) => node.for_each_mut_argument(new),
            Node::LambdaOut(node) => node.for_each_mut_argument(new),
            Node::RegionIn(node) => node.for_each_mut_argument(new),
            Node::RegionOut(node) => node.for_each_mut_argument(new),
            Node::GammaIn(node) => node.for_each_mut_argument(new),
            Node::GammaOut(node) => node.for_each_mut_argument(new),
            Node::ThetaIn(node) => node.for_each_mut_argument(new),
            Node::ThetaOut(node) => node.for_each_mut_argument(new),
            Node::OmegaIn(node) => node.for_each_mut_argument(new),
            Node::OmegaOut(node) => node.for_each_mut_argument(new),
            Node::Import(node) => node.for_each_mut_argument(new),
            Node::Identity(node) => node.for_each_mut_argument(new),
            Node::Fence(node) => node.for_each_mut_argument(new),
            Node::Apply(node) => node.for_each_mut_argument(new),
            Node::RefIsNull(node) => node.for_each_mut_argument(new),
            Node::IntegerUnaryOperation(node) => node.for_each_mut_argument(new),
            Node::IntegerBinaryOperation(node) => node.for_each_mut_argument(new),
            Node::IntegerCompareOperation(node) => node.for_each_mut_argument(new),
            Node::IntegerNarrow(node) => node.for_each_mut_argument(new),
            Node::IntegerWiden(node) => node.for_each_mut_argument(new),
            Node::IntegerExtend(node) => node.for_each_mut_argument(new),
            Node::IntegerConvertToNumber(node) => node.for_each_mut_argument(new),
            Node::IntegerTransmuteToNumber(node) => node.for_each_mut_argument(new),
            Node::NumberUnaryOperation(node) => node.for_each_mut_argument(new),
            Node::NumberBinaryOperation(node) => node.for_each_mut_argument(new),
            Node::NumberCompareOperation(node) => node.for_each_mut_argument(new),
            Node::NumberTruncateToInteger(node) => node.for_each_mut_argument(new),
            Node::NumberTransmuteToInteger(node) => node.for_each_mut_argument(new),
            Node::NumberNarrow(node) => node.for_each_mut_argument(new),
            Node::NumberWiden(node) => node.for_each_mut_argument(new),
            Node::GlobalNew(node) => node.for_each_mut_argument(new),
            Node::GlobalGet(node) => node.for_each_mut_argument(new),
            Node::GlobalSet(node) => node.for_each_mut_argument(new),
            Node::TableNew(node) => node.for_each_mut_argument(new),
            Node::TableGet(node) => node.for_each_mut_argument(new),
            Node::TableSet(node) => node.for_each_mut_argument(new),
            Node::TableSize(node) => node.for_each_mut_argument(new),
            Node::TableGrow(node) => node.for_each_mut_argument(new),
            Node::TableFill(node) => node.for_each_mut_argument(new),
            Node::TableCopy(node) => node.for_each_mut_argument(new),
            Node::TableDrop(node) => node.for_each_mut_argument(new),
            Node::MemoryNew(node) => node.for_each_mut_argument(new),
            Node::MemoryLoad(node) => node.for_each_mut_argument(new),
            Node::MemoryStore(node) => node.for_each_mut_argument(new),
            Node::MemorySize(node) => node.for_each_mut_argument(new),
            Node::MemoryGrow(node) => node.for_each_mut_argument(new),
            Node::MemoryFill(node) => node.for_each_mut_argument(new),
            Node::MemoryCopy(node) => node.for_each_mut_argument(new),
            Node::MemoryDrop(node) => node.for_each_mut_argument(new),
            Node::Trap
            | Node::Null
            | Node::I32(_)
            | Node::I64(_)
            | Node::F32(_)
            | Node::F64(_) => {},
        }
    }

    /// Replaces the node identifiers this node mentions, in visiting order, with `new`.
    pub fn for_each_mut_id(&mut self, new: &[u32])
        requires
            new@.len() == old(self).ids().len(),
        ensures
            final(self).ids() == new@,
            old(self).same_except_ids(&*final(self)),
    {
        match self {
            Node::LambdaIn(node) => node.for_each_mut_id(new),
            Node::LambdaOut(node) => node.for_each_mut_id(new),
            Node::RegionIn(node) => node.for_each_mut_id(new),
            Node::RegionOut(node) => node.for_each_mut_id(new),
            Node::GammaIn(node) => node.for_each_mut_id(new),
            Node::GammaOut(node) => node.for_each_mut_id(new),
            Node::ThetaIn(node) => node.for_each_mut_id(new),
            Node::ThetaOut(node) => node.for_each_mut_id(new),
            Node::OmegaIn(node) => node.for_each_mut_id(new),
            Node::OmegaOut(node) => node.for_each_mut_id(new),
            Node::Import(node) => node.for_each_mut_id(new),
            Node::Identity(node) => node.for_each_mut_id(new),
            Node::Fence(node) => node.for_each_mut_id(new),
            Node::Apply(node) => node.for_each_mut_id(new),
            Node::RefIsNull(node) => node.for_each_mut_id(new),
            Node::IntegerUnaryOperation(node) => node.for_each_mut_id(new),
            Node::IntegerBinaryOperation(node) => node.for_each_mut_id(new),
            Node::IntegerCompareOperation(node) => node.for_each_mut_id(new),
            Node::IntegerNarrow(node) => node.for_each_mut_id(new),
            Node::IntegerWiden(node) => node.for_each_mut_id(new),
            Node::IntegerExtend(node) => node.for_each_mut_id(new),
            Node::IntegerConvertToNumber(node) => node.for_each_mut_id(new),
            Node::IntegerTransmuteToNumber(node) => node.for_each_mut_id(new),
            Node::NumberUnaryOperation(node) => node.for_each_mut_id(new),
            Node::NumberBinaryOperation(node) => node.for_each_mut_id(new),
            Node::NumberCompareOperation(node) => node.for_each_mut_id(new),
            Node::NumberTruncateToInteger(node) => node.for_each_mut_id(new),
            Node::NumberTransmuteToInteger(node) => node.for_each_mut_id(new),
            Node::NumberNarrow(node) => node.for_each_mut_id(new),
            Node::NumberWiden(node) => node.for_each_mut_id(new),
            Node::GlobalNew(node) => node.for_each_mut_id(new),
            Node::GlobalGet(node) => node.for_each_mut_id(new),
            Node::GlobalSet(node) => node.for_each_mut_id(new),
            Node::TableNew(node) => node.for_each_mut_id(new),
            Node::TableGet(node) => node.for_each_mut_id(new),
            Node::TableSet(node) => node.for_each_mut_id(new),
            Node::TableSize(node) => node.for_each_mut_id(new),
            Node::TableGrow(node) => node.for_each_mut_id(new),
            Node::TableFill(node) => node.for_each_mut_id(new),
            Node::TableCopy(node) => node.for_each_mut_id(new),
            Node::TableDrop(node) => node.for_each_mut_id(new),
            Node::MemoryNew(node) => node.for_each_mut_id(new),
            Node::MemoryLoad(node) => node.for_each_mut_id(new),
            Node::MemoryStore(node) => node.for_each_mut_id(new),
            Node::MemorySize(node) => node.for_each_mut_id(new),
            Node::MemoryGrow(node) => node.for_each_mut_id(new),
            Node::MemoryFill(node) => node.for_each_mut_id(new),
            Node::MemoryCopy(node) => node.for_each_mut_id(new),
            Node::MemoryDrop(node) => node.for_each_mut_id(new),
            Node::Trap
            | Node::Null
            | Node::I32(_)
            | Node::I64(_)
            | Node::F32(_)
            | Node::F64(_) => {},
        }
    }
}

} // verus!
