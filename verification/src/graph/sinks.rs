//! Builders that add nodes to a graph.

use vstd::prelude::*;

use crate::graph::{
    control::{Export, FunctionType, GammaIn, GammaOut, Import, LambdaIn, LambdaOut, OmegaIn, OmegaOut, RegionIn, RegionOut, ThetaIn, ThetaOut},
    graph::{extends, DataFlowGraph},
    link::Link,
    node::Node,
    simple::{Apply, ExtendType, Fence, GlobalGet, GlobalNew, GlobalSet, Identity, IntegerBinaryOperation, IntegerBinaryOperator, IntegerCompareOperation, IntegerCompareOperator, IntegerConvertToNumber, IntegerExtend, IntegerNarrow, IntegerTransmuteToNumber, IntegerType, IntegerUnaryOperation, IntegerUnaryOperator, IntegerWiden, LoadType, Location, MemoryCopy, MemoryDrop, MemoryFill, MemoryGrow, MemoryLoad, MemoryNew, MemorySize, MemoryStore, NumberBinaryOperation, NumberBinaryOperator, NumberCompareOperation, NumberCompareOperator, NumberNarrow, NumberTransmuteToInteger, NumberTruncateToInteger, NumberType, NumberUnaryOperation, NumberUnaryOperator, NumberWiden, RefIsNull, StoreType, TableCopy, TableDrop, TableFill, TableGet, TableGrow, TableNew, TableSet, TableSize},
};

verus! {

impl Identity {
    /// Adds an identity node to the graph.
    pub fn add_into(graph: &mut DataFlowGraph, sources: Vec<Link>) -> (id: u32)
        requires
            old(graph)@.len() <= u32::MAX,
        ensures
            final(graph)@ == old(graph)@.push(Node::Identity(Identity { sources })),
            id == old(graph)@.len(),
    {
        let node = Node::Identity(Identity { sources });
        graph.add_node(node)
    }
}

impl Fence {
    /// Adds a fence node to the graph.
    pub fn add_into(graph: &mut DataFlowGraph, sources: Vec<Link>) -> (id: u32)
        requires
            old(graph)@.len() <= u32::MAX,
        ensures
            final(graph)@ == old(graph)@.push(Node::Fence(Fence { sources })),
            id == old(graph)@.len(),
    {
        let node = Node::Fence(Fence { sources });
        graph.add_node(node)
    }
}

impl Apply {
    /// Adds a function application node to the graph.
    pub fn add_into(graph: &mut DataFlowGraph, function: Link, arguments: Vec<Link>, results: u16) -> (id: u32)
        requires
            old(graph)@.len() <= u32::MAX,
        ensures
            final(graph)@ == old(graph)@.push(Node::Apply(Apply { function, arguments, results })),
            id == old(graph)@.len(),
    {
        let node = Node::Apply(Apply { function, arguments, results });
        graph.add_node(node)
    }
}

impl RefIsNull {
    /// Adds a reference null check node to the graph.
    pub fn add_into(graph: &mut DataFlowGraph, source: Link) -> (link: Link)
        requires
            old(graph)@.len() <= u32::MAX,
        ensures
            final(graph)@ == old(graph)@.push(Node::RefIsNull(RefIsNull { source })),
            link == Link(old(graph)@.len() as u32, 0),
    {
        let node = Node::RefIsNull(RefIsNull { source });
        Link(graph.add_node(node), 0)
    }
}

impl IntegerUnaryOperation {
    /// Adds an integer unary operation node to the graph.
    pub fn add_into(graph: &mut DataFlowGraph, source: Link, kind: IntegerType, operator: IntegerUnaryOperator) -> (link: Link)
        requires
            old(graph)@.len() <= u32::MAX,
        ensures
            final(graph)@ == old(graph)@.push(Node::IntegerUnaryOperation(IntegerUnaryOperation { source, kind, operator })),
            link == Link(old(graph)@.len() as u32, 0),
    {
        let node = Node::IntegerUnaryOperation(IntegerUnaryOperation { source, kind, operator });
        Link(graph.add_node(node), 0)
    }
}

impl IntegerBinaryOperation {
    /// Adds an integer binary operation node to the graph.
    pub fn add_into(graph: &mut DataFlowGraph, lhs: Link, rhs: Link, kind: IntegerType, operator: IntegerBinaryOperator) -> (link: Link)
        requires
            old(graph)@.len() <= u32::MAX,
        ensures
            final(graph)@ == old(graph)@.push(Node::IntegerBinaryOperation(IntegerBinaryOperation { lhs, rhs, kind, operator })),
            link == Link(old(graph)@.len() as u32, 0),
    {
        let node = Node::IntegerBinaryOperation(IntegerBinaryOperation { lhs, rhs, kind, operator });
        Link(graph.add_node(node), 0)
    }
}

impl IntegerCompareOperation {
    /// Adds an integer comparison node to the graph.
    pub fn add_into(graph: &mut DataFlowGraph, lhs: Link, rhs: Link, kind: IntegerType, operator: IntegerCompareOperator) -> (link: Link)
        requires
            old(graph)@.len() <= u32::MAX,
        ensures
            final(graph)@ == old(graph)@.push(Node::IntegerCompareOperation(IntegerCompareOperation { lhs, rhs, kind, operator })),
            link == Link(old(graph)@.len() as u32, 0),
    {
        let node = Node::IntegerCompareOperation(IntegerCompareOperation { lhs, rhs, kind, operator });
        Link(graph.add_node(node), 0)
    }
}

impl IntegerNarrow {
    /// Adds an integer narrowing node to the graph.
    pub fn add_into(graph: &mut DataFlowGraph, source: Link) -> (link: Link)
        requires
            old(graph)@.len() <= u32::MAX,
        ensures
            final(graph)@ == old(graph)@.push(Node::IntegerNarrow(IntegerNarrow { source })),
            link == Link(old(graph)@.len() as u32, 0),
    {
        let node = Node::IntegerNarrow(IntegerNarrow { source });
        Link(graph.add_node(node), 0)
    }
}

impl IntegerWiden {
    /// Adds an integer widening node to the graph.
    pub fn add_into(graph: &mut DataFlowGraph, source: Link) -> (link: Link)
        requires
            old(graph)@.len() <= u32::MAX,
        ensures
            final(graph)@ == old(graph)@.push(Node::IntegerWiden(IntegerWiden { source })),
            link == Link(old(graph)@.len() as u32, 0),
    {
        let node = Node::IntegerWiden(IntegerWiden { source });
        Link(graph.add_node(node), 0)
    }
}

impl IntegerExtend {
    /// Adds an integer sign-extension node to the graph.
    pub fn add_into(graph: &mut DataFlowGraph, source: Link, kind: ExtendType) -> (link: Link)
        requires
            old(graph)@.len() <= u32::MAX,
        ensures
            final(graph)@ == old(graph)@.push(Node::IntegerExtend(IntegerExtend { source, kind })),
            link == Link(old(graph)@.len() as u32, 0),
    {
        let node = Node::IntegerExtend(IntegerExtend { source, kind });
        Link(graph.add_node(node), 0)
    }
}

impl IntegerConvertToNumber {
    /// Adds an integer-to-floating-point conversion node to the graph.
    pub fn add_into(graph: &mut DataFlowGraph, source: Link, signed: bool, to: NumberType, from: IntegerType) -> (link: Link)
        requires
            old(graph)@.len() <= u32::MAX,
        ensures
            final(graph)@ == old(graph)@.push(Node::IntegerConvertToNumber(IntegerConvertToNumber { source, signed, to, from })),
            link == Link(old(graph)@.len() as u32, 0),
    {
        let node = Node::IntegerConvertToNumber(IntegerConvertToNumber { source, signed, to, from });
        Link(graph.add_node(node), 0)
    }
}

impl IntegerTransmuteToNumber {
    /// Adds an integer-to-floating-point reinterpretation node to the graph.
    pub fn add_into(graph: &mut DataFlowGraph, source: Link, from: IntegerType) -> (link: Link)
        requires
            old(graph)@.len() <= u32::MAX,
        ensures
            final(graph)@ == old(graph)@.push(Node::IntegerTransmuteToNumber(IntegerTransmuteToNumber { source, from })),
            link == Link(old(graph)@.len() as u32, 0),
    {
        let node = Node::IntegerTransmuteToNumber(IntegerTransmuteToNumber { source, from });
        Link(graph.add_node(node), 0)
    }
}

impl NumberUnaryOperation {
    /// Adds a floating-point unary operation node to the graph.
    pub fn add_into(graph: &mut DataFlowGraph, source: Link, kind: NumberType, operator: NumberUnaryOperator) -> (link: Link)
        requires
            old(graph)@.len() <= u32::MAX,
        ensures
            final(graph)@ == old(graph)@.push(Node::NumberUnaryOperation(NumberUnaryOperation { source, kind, operator })),
            link == Link(old(graph)@.len() as u32, 0),
    {
        let node = Node::NumberUnaryOperation(NumberUnaryOperation { source, kind, operator });
        Link(graph.add_node(node), 0)
    }
}

impl NumberBinaryOperation {
    /// Adds a floating-point binary operation node to the graph.
    pub fn add_into(graph: &mut DataFlowGraph, lhs: Link, rhs: Link, kind: NumberType, operator: NumberBinaryOperator) -> (link: Link)
        requires
            old(graph)@.len() <= u32::MAX,
        ensures
            final(graph)@ == old(graph)@.push(Node::NumberBinaryOperation(NumberBinaryOperation { lhs, rhs, kind, operator })),
            link == Link(old(graph)@.len() as u32, 0),
    {
        let node = Node::NumberBinaryOperation(NumberBinaryOperation { lhs, rhs, kind, operator });
        Link(graph.add_node(node), 0)
    }
}

impl NumberCompareOperation {
    /// Adds a floating-point comparison node to the graph.
    pub fn add_into(graph: &mut DataFlowGraph, lhs: Link, rhs: Link, kind: NumberType, operator: NumberCompareOperator) -> (link: Link)
        requires
            old(graph)@.len() <= u32::MAX,
        ensures
            final(graph)@ == old(graph)@.push(Node::NumberCompareOperation(NumberCompareOperation { lhs, rhs, kind, operator })),
            link == Link(old(graph)@.len() as u32, 0),
    {
        let node = Node::NumberCompareOperation(NumberCompareOperation { lhs, rhs, kind, operator });
        Link(graph.add_node(node), 0)
    }
}

impl NumberTruncateToInteger {
    /// Adds a floating-point-to-integer truncation node to the graph.
    pub fn add_into(graph: &mut DataFlowGraph, source: Link, signed: bool, saturate: bool, to: IntegerType, from: NumberType) -> (link: Link)
        requires
            old(graph)@.len() <= u32::MAX,
        ensures
            final(graph)@ == old(graph)@.push(Node::NumberTruncateToInteger(NumberTruncateToInteger { source, signed, saturate, to, from })),
            link == Link(old(graph)@.len() as u32, 0),
    {
        let node = Node::NumberTruncateToInteger(NumberTruncateToInteger { source, signed, saturate, to, from });
        Link(graph.add_node(node), 0)
    }
}

impl NumberTransmuteToInteger {
    /// Adds a floating-point-to-integer reinterpretation node to the graph.
    pub fn add_into(graph: &mut DataFlowGraph, source: Link, from: NumberType) -> (link: Link)
        requires
            old(graph)@.len() <= u32::MAX,
        ensures
            final(graph)@ == old(graph)@.push(Node::NumberTransmuteToInteger(NumberTransmuteToInteger { source, from })),
            link == Link(old(graph)@.len() as u32, 0),
    {
        let node = Node::NumberTransmuteToInteger(NumberTransmuteToInteger { source, from });
        Link(graph.add_node(node), 0)
    }
}

impl NumberNarrow {
    /// Adds a floating-point narrowing node to the graph.
    pub fn add_into(graph: &mut DataFlowGraph, source: Link) -> (link: Link)
        requires
            old(graph)@.len() <= u32::MAX,
        ensures
            final(graph)@ == old(graph)@.push(Node::NumberNarrow(NumberNarrow { source })),
            link == Link(old(graph)@.len() as u32, 0),
    {
        let node = Node::NumberNarrow(NumberNarrow { source });
        Link(graph.add_node(node), 0)
    }
}

impl NumberWiden {
    /// Adds a floating-point widening node to the graph.
    pub fn add_into(graph: &mut DataFlowGraph, source: Link) -> (link: Link)
        requires
            old(graph)@.len() <= u32::MAX,
        ensures
            final(graph)@ == old(graph)@.push(Node::NumberWiden(NumberWiden { source })),
            link == Link(old(graph)@.len() as u32, 0),
    {
        let node = Node::NumberWiden(NumberWiden { source });
        Link(graph.add_node(node), 0)
    }
}

impl GlobalNew {
    /// Adds a global creation node to the graph.
    pub fn add_into(graph: &mut DataFlowGraph, initializer: Link) -> (link: Link)
        requires
            old(graph)@.len() <= u32::MAX,
        ensures
            final(graph)@ == old(graph)@.push(Node::GlobalNew(GlobalNew { initializer })),
            link == Link(old(graph)@.len() as u32, 0),
    {
        let node = Node::GlobalNew(GlobalNew { initializer });
        Link(graph.add_node(node), 0)
    }
}

impl GlobalGet {
    /// The port index for the result value.
    pub const RESULT_PORT: u16 = 0;
    /// The port index for the state token.
    pub const STATE_PORT: u16 = 1;

    /// Adds a global read node to the graph.
    pub fn add_into(graph: &mut DataFlowGraph, source: Link) -> (ports: (Link, Link))
        requires
            old(graph)@.len() <= u32::MAX,
        ensures
            final(graph)@ == old(graph)@.push(Node::GlobalGet(GlobalGet { source })),
            ports == (Link(old(graph)@.len() as u32, Self::RESULT_PORT), Link(old(graph)@.len() as u32, Self::STATE_PORT)),
    {
        let node = Node::GlobalGet(GlobalGet { source });
        let id = graph.add_node(node);

        (Link(id, Self::RESULT_PORT), Link(id, Self::STATE_PORT))
    }
}

impl GlobalSet {
    /// The port index for the state token.
    pub const STATE_PORT: u16 = 0;

    /// Adds a global write node to the graph.
    pub fn add_into(graph: &mut DataFlowGraph, destination: Link, source: Link) -> (link: Link)
        requires
            old(graph)@.len() <= u32::MAX,
        ensures
            final(graph)@ == old(graph)@.push(Node::GlobalSet(GlobalSet { destination, source })),
            link == Link(old(graph)@.len() as u32, Self::STATE_PORT),
    {
        let node = Node::GlobalSet(GlobalSet { destination, source });
        Link(graph.add_node(node), Self::STATE_PORT)
    }
}

impl TableNew {
    /// Adds a table creation node to the graph.
    pub fn add_into(graph: &mut DataFlowGraph, initializer: Vec<(Link, u32)>, minimum: u32, maximum: u32) -> (link: Link)
        requires
            old(graph)@.len() <= u32::MAX,
        ensures
            final(graph)@ == old(graph)@.push(Node::TableNew(TableNew { initializer, minimum, maximum })),
            link == Link(old(graph)@.len() as u32, 0),
    {
        let node = Node::TableNew(TableNew { initializer, minimum, maximum });
        Link(graph.add_node(node), 0)
    }
}

impl TableGet {
    /// The port index for the result value.
    pub const RESULT_PORT: u16 = 0;
    /// The port index for the state token.
    pub const STATE_PORT: u16 = 1;

    /// Adds a table read node to the graph.
    pub fn add_into(graph: &mut DataFlowGraph, source: Location, key: Option<String>) -> (ports: (Link, Link))
        requires
            old(graph)@.len() <= u32::MAX,
        ensures
            final(graph)@ == old(graph)@.push(Node::TableGet(TableGet { source, key })),
            ports == (Link(old(graph)@.len() as u32, Self::RESULT_PORT), Link(old(graph)@.len() as u32, Self::STATE_PORT)),
    {
        let node = Node::TableGet(TableGet { source, key });
        let id = graph.add_node(node);

        (Link(id, Self::RESULT_PORT), Link(id, Self::STATE_PORT))
    }
}

impl TableSet {
    /// The port index for the state token.
    pub const STATE_PORT: u16 = 0;

    /// Adds a table write node to the graph.
    pub fn add_into(graph: &mut DataFlowGraph, destination: Location, source: Link) -> (link: Link)
        requires
            old(graph)@.len() <= u32::MAX,
        ensures
            final(graph)@ == old(graph)@.push(Node::TableSet(TableSet { destination, source })),
            link == Link(old(graph)@.len() as u32, Self::STATE_PORT),
    {
        let node = Node::TableSet(TableSet { destination, source });
        Link(graph.add_node(node), Self::STATE_PORT)
    }
}

impl TableSize {
    /// The port index for the result value.
    pub const RESULT_PORT: u16 = 0;
    /// The port index for the state token.
    pub const STATE_PORT: u16 = 1;

    /// Adds a table size query node to the graph.
    pub fn add_into(graph: &mut DataFlowGraph, source: Link) -> (ports: (Link, Link))
        requires
            old(graph)@.len() <= u32::MAX,
        ensures
            final(graph)@ == old(graph)@.push(Node::TableSize(TableSize { source })),
            ports == (Link(old(graph)@.len() as u32, Self::RESULT_PORT), Link(old(graph)@.len() as u32, Self::STATE_PORT)),
    {
        let node = Node::TableSize(TableSize { source });
        let id = graph.add_node(node);

        (Link(id, Self::RESULT_PORT), Link(id, Self::STATE_PORT))
    }
}

impl TableGrow {
    /// The port index for the result value.
    pub const RESULT_PORT: u16 = 0;
    /// The port index for the state token.
    pub const STATE_PORT: u16 = 1;

    /// Adds a table grow node to the graph.
    pub fn add_into(graph: &mut DataFlowGraph, destination: Link, initializer: Link, size: Link) -> (ports: (Link, Link))
        requires
            old(graph)@.len() <= u32::MAX,
        ensures
            final(graph)@ == old(graph)@.push(Node::TableGrow(TableGrow { destination, initializer, size })),
            ports == (Link(old(graph)@.len() as u32, Self::RESULT_PORT), Link(old(graph)@.len() as u32, Self::STATE_PORT)),
    {
        let node = Node::TableGrow(TableGrow { destination, initializer, size });
        let id = graph.add_node(node);

        (Link(id, Self::RESULT_PORT), Link(id, Self::STATE_PORT))
    }
}

impl TableFill {
    /// The port index for the state token.
    pub const STATE_PORT: u16 = 0;

    /// Adds a table fill node to the graph.
    pub fn add_into(graph: &mut DataFlowGraph, destination: Location, source: Link, size: Link) -> (link: Link)
        requires
            old(graph)@.len() <= u32::MAX,
        ensures
            final(graph)@ == old(graph)@.push(Node::TableFill(TableFill { destination, source, size })),
            link == Link(old(graph)@.len() as u32, Self::STATE_PORT),
    {
        let node = Node::TableFill(TableFill { destination, source, size });
        Link(graph.add_node(node), Self::STATE_PORT)
    }
}

impl TableCopy {
    /// The port index for the destination state token.
    pub const DESTINATION_STATE_PORT: u16 = 0;
    /// The port index for the source state token.
    pub const SOURCE_STATE_PORT: u16 = 1;

    /// Adds a table copy node to the graph.
    pub fn add_into(graph: &mut DataFlowGraph, destination: Location, source: Location, size: Link) -> (ports: (Link, Link))
        requires
            old(graph)@.len() <= u32::MAX,
        ensures
            final(graph)@ == old(graph)@.push(Node::TableCopy(TableCopy { destination, source, size })),
            ports == (Link(old(graph)@.len() as u32, Self::DESTINATION_STATE_PORT), Link(old(graph)@.len() as u32, Self::SOURCE_STATE_PORT)),
    {
        let node = Node::TableCopy(TableCopy { destination, source, size });
        let id = graph.add_node(node);

        (Link(id, Self::DESTINATION_STATE_PORT), Link(id, Self::SOURCE_STATE_PORT))
    }
}

impl TableDrop {
    /// The port index for the state token.
    pub const STATE_PORT: u16 = 0;

    /// Adds a table drop node to the graph.
    pub fn add_into(graph: &mut DataFlowGraph, source: Link) -> (link: Link)
        requires
            old(graph)@.len() <= u32::MAX,
        ensures
            final(graph)@ == old(graph)@.push(Node::TableDrop(TableDrop { source })),
            link == Link(old(graph)@.len() as u32, Self::STATE_PORT),
    {
        let node = Node::TableDrop(TableDrop { source });
        Link(graph.add_node(node), Self::STATE_PORT)
    }
}

impl MemoryNew {
    /// Adds a memory creation node to the graph.
    pub fn add_into(graph: &mut DataFlowGraph, initializer: Vec<(Vec<u8>, u32)>, minimum: u32, maximum: u32) -> (link: Link)
        requires
            old(graph)@.len() <= u32::MAX,
        ensures
            final(graph)@ == old(graph)@.push(Node::MemoryNew(MemoryNew { initializer, minimum, maximum })),
            link == Link(old(graph)@.len() as u32, 0),
    {
        let node = Node::MemoryNew(MemoryNew { initializer, minimum, maximum });
        Link(graph.add_node(node), 0)
    }
}

impl MemoryLoad {
    /// The port index for the result value.
    pub const RESULT_PORT: u16 = 0;
    /// The port index for the state token.
    pub const STATE_PORT: u16 = 1;

    /// Adds a memory load node to the graph.
    pub fn add_into(graph: &mut DataFlowGraph, source: Location, offset: u32, kind: LoadType) -> (ports: (Link, Link))
        requires
            old(graph)@.len() <= u32::MAX,
        ensures
            final(graph)@ == old(graph)@.push(Node::MemoryLoad(MemoryLoad { source, offset, kind })),
            ports == (Link(old(graph)@.len() as u32, Self::RESULT_PORT), Link(old(graph)@.len() as u32, Self::STATE_PORT)),
    {
        let node = Node::MemoryLoad(MemoryLoad { source, offset, kind });
        let id = graph.add_node(node);

        (Link(id, Self::RESULT_PORT), Link(id, Self::STATE_PORT))
    }
}

impl MemoryStore {
    /// The port index for the state token.
    pub const STATE_PORT: u16 = 0;

    /// Adds a memory store node to the graph.
    pub fn add_into(graph: &mut DataFlowGraph, destination: Location, source: Link, offset: u32, kind: StoreType) -> (link: Link)
        requires
            old(graph)@.len() <= u32::MAX,
        ensures
            final(graph)@ == old(graph)@.push(Node::MemoryStore(MemoryStore { destination, source, offset, kind })),
            link == Link(old(graph)@.len() as u32, Self::STATE_PORT),
    {
        let node = Node::MemoryStore(MemoryStore { destination, source, offset, kind });
        Link(graph.add_node(node), Self::STATE_PORT)
    }
}

impl MemorySize {
    /// The port index for the result value.
    pub const RESULT_PORT: u16 = 0;
    /// The port index for the state token.
    pub const STATE_PORT: u16 = 1;

    /// Adds a memory size query node to the graph.
    pub fn add_into(graph: &mut DataFlowGraph, source: Link) -> (ports: (Link, Link))
        requires
            old(graph)@.len() <= u32::MAX,
        ensures
            final(graph)@ == old(graph)@.push(Node::MemorySize(MemorySize { source })),
            ports == (Link(old(graph)@.len() as u32, Self::RESULT_PORT), Link(old(graph)@.len() as u32, Self::STATE_PORT)),
    {
        let node = Node::MemorySize(MemorySize { source });
        let id = graph.add_node(node);

        (Link(id, Self::RESULT_PORT), Link(id, Self::STATE_PORT))
    }
}

impl MemoryGrow {
    /// The port index for the result value.
    pub const RESULT_PORT: u16 = 0;
    /// The port index for the state token.
    pub const STATE_PORT: u16 = 1;

    /// Adds a memory grow node to the graph.
    pub fn add_into(graph: &mut DataFlowGraph, destination: Link, size: Link) -> (ports: (Link, Link))
        requires
            old(graph)@.len() <= u32::MAX,
        ensures
            final(graph)@ == old(graph)@.push(Node::MemoryGrow(MemoryGrow { destination, size })),
            ports == (Link(old(graph)@.len() as u32, Self::RESULT_PORT), Link(old(graph)@.len() as u32, Self::STATE_PORT)),
    {
        let node = Node::MemoryGrow(MemoryGrow { destination, size });
        let id = graph.add_node(node);

        (Link(id, Self::RESULT_PORT), Link(id, Self::STATE_PORT))
    }
}

impl MemoryFill {
    /// The port index for the state token.
    pub const STATE_PORT: u16 = 0;

    /// Adds a memory fill node to the graph.
    pub fn add_into(graph: &mut DataFlowGraph, destination: Location, byte: Link, size: Link) -> (link: Link)
        requires
            old(graph)@.len() <= u32::MAX,
        ensures
            final(graph)@ == old(graph)@.push(Node::MemoryFill(MemoryFill { destination, byte, size })),
            link == Link(old(graph)@.len() as u32, Self::STATE_PORT),
    {
        let node = Node::MemoryFill(MemoryFill { destination, byte, size });
        Link(graph.add_node(node), Self::STATE_PORT)
    }
}

impl MemoryCopy {
    /// The port index for the destination state token.
    pub const DESTINATION_STATE_PORT: u16 = 0;
    /// The port index for the source state token.
    pub const SOURCE_STATE_PORT: u16 = 1;

    /// Adds a memory copy node to the graph.
    pub fn add_into(graph: &mut DataFlowGraph, destination: Location, source: Location, size: Link) -> (ports: (Link, Link))
        requires
            old(graph)@.len() <= u32::MAX,
        ensures
            final(graph)@ == old(graph)@.push(Node::MemoryCopy(MemoryCopy { destination, source, size })),
            ports == (Link(old(graph)@.len() as u32, Self::DESTINATION_STATE_PORT), Link(old(graph)@.len() as u32, Self::SOURCE_STATE_PORT)),
    {
        let node = Node::MemoryCopy(MemoryCopy { destination, source, size });
        let id = graph.add_node(node);

        (Link(id, Self::DESTINATION_STATE_PORT), Link(id, Self::SOURCE_STATE_PORT))
    }
}

impl MemoryDrop {
    /// The port index for the state token.
    pub const STATE_PORT: u16 = 0;

    /// Adds a memory drop node to the graph.
    pub fn add_into(graph: &mut DataFlowGraph, source: Link) -> (link: Link)
        requires
            old(graph)@.len() <= u32::MAX,
        ensures
            final(graph)@ == old(graph)@.push(Node::MemoryDrop(MemoryDrop { source })),
            link == Link(old(graph)@.len() as u32, Self::STATE_PORT),
    {
        let node = Node::MemoryDrop(MemoryDrop { source });
        Link(graph.add_node(node), Self::STATE_PORT)
    }
}

impl Import {
    /// Adds an import node to the graph.
    pub fn add_into(graph: &mut DataFlowGraph, environment: Link, namespace: String, identifier: String) -> (link: Link)
        requires
            old(graph)@.len() <= u32::MAX,
        ensures
            final(graph)@ == old(graph)@.push(Node::Import(Import { environment, namespace, identifier })),
            link == Link(old(graph)@.len() as u32, 0),
    {
        let node = Node::Import(Import { environment, namespace, identifier });
        Link(graph.add_node(node), 0)
    }
}

impl Node {
    /// This node with its paired output node set to `to`, for the node kinds
    /// that open a structure closed by an output node; any other node is
    /// returned as it is.
    pub open spec fn with_output(self, to: u32) -> Node {
        match self {
            Node::LambdaIn(n) => Node::LambdaIn(
                LambdaIn { output: to, kind: n.kind, dependencies: n.dependencies, key: n.key },
            ),
            Node::RegionIn(n) => Node::RegionIn(RegionIn { input: n.input, output: to }),
            Node::RegionOut(n) => Node::RegionOut(
                RegionOut { input: n.input, output: to, results: n.results },
            ),
            Node::GammaIn(n) => Node::GammaIn(
                GammaIn { output: to, arguments: n.arguments, condition: n.condition },
            ),
            Node::ThetaIn(n) => Node::ThetaIn(ThetaIn { output: to, arguments: n.arguments }),
            Node::OmegaIn(_) => Node::OmegaIn(OmegaIn { output: to }),
            _ => self,
        }
    }

    /// Adds a trap node to the graph.
    pub fn add_trap_into(graph: &mut DataFlowGraph) -> (link: Link)
        requires
            old(graph)@.len() <= u32::MAX,
        ensures
            final(graph)@ == old(graph)@.push(Node::Trap),
            link == Link(old(graph)@.len() as u32, 0),
    {
        Link(graph.add_node(Node::Trap), 0)
    }

    /// Adds a null reference constant node to the graph.
    pub fn add_null_into(graph: &mut DataFlowGraph) -> (link: Link)
        requires
            old(graph)@.len() <= u32::MAX,
        ensures
            final(graph)@ == old(graph)@.push(Node::Null),
            link == Link(old(graph)@.len() as u32, 0),
    {
        Link(graph.add_node(Node::Null), 0)
    }

    /// Adds a 32-bit integer constant node to the graph.
    pub fn add_i32_into(graph: &mut DataFlowGraph, source: i32) -> (link: Link)
        requires
            old(graph)@.len() <= u32::MAX,
        ensures
            final(graph)@ == old(graph)@.push(Node::I32(source)),
            link == Link(old(graph)@.len() as u32, 0),
    {
        let node = Node::I32(source);

        Link(graph.add_node(node), 0)
    }

    /// Adds a 64-bit integer constant node to the graph.
    pub fn add_i64_into(graph: &mut DataFlowGraph, source: i64) -> (link: Link)
        requires
            old(graph)@.len() <= u32::MAX,
        ensures
            final(graph)@ == old(graph)@.push(Node::I64(source)),
            link == Link(old(graph)@.len() as u32, 0),
    {
        let node = Node::I64(source);

        Link(graph.add_node(node), 0)
    }

    /// Adds a 32-bit floating-point constant node to the graph, given by the
    /// bits of the value.
    pub fn add_f32_into(graph: &mut DataFlowGraph, source: u32) -> (link: Link)
        requires
            old(graph)@.len() <= u32::MAX,
        ensures
            final(graph)@ == old(graph)@.push(Node::F32(source)),
            link == Link(old(graph)@.len() as u32, 0),
    {
        let node = Node::F32(source);

        Link(graph.add_node(node), 0)
    }

    /// Adds a 64-bit floating-point constant node to the graph, given by the
    /// bits of the value.
    pub fn add_f64_into(graph: &mut DataFlowGraph, source: u64) -> (link: Link)
        requires
            old(graph)@.len() <= u32::MAX,
        ensures
            final(graph)@ == old(graph)@.push(Node::F64(source)),
            link == Link(old(graph)@.len() as u32, 0),
    {
        let node = Node::F64(source);

        Link(graph.add_node(node), 0)
    }
}

impl LambdaIn {
    /// Returns the port range of the captured dependencies.
    pub fn dependency_ports(&self) -> (ports: core::ops::Range<u16>)
        requires
            self.dependencies@.len() <= u16::MAX,
        ensures
            ports.start == 0,
            ports.end == self.dependencies@.len(),
    {
        0..self.dependencies.len() as u16
    }

    /// Returns the port range of the function arguments, which follow the
    /// dependencies.
    pub fn argument_ports(&self) -> (ports: core::ops::Range<u16>)
        requires
            self.dependencies@.len() + self.kind.arguments@.len() <= u16::MAX,
        ensures
            ports.start == self.dependencies@.len(),
            ports.end == self.dependencies@.len() + self.kind.arguments@.len(),
    {
        let dependencies = self.dependencies.len() as u16;
        let arguments = self.kind.arguments.len() as u16;

        dependencies..dependencies + arguments
    }

    /// Returns the port range of every output: the dependencies, then the
    /// function arguments.
    pub fn output_ports(&self) -> (ports: core::ops::Range<u16>)
        requires
            self.dependencies@.len() + self.kind.arguments@.len() <= u16::MAX,
        ensures
            ports.start == 0,
            ports.end == self.dependencies@.len() + self.kind.arguments@.len(),
    {
        let dependencies = self.dependencies.len() as u16;
        let arguments = self.kind.arguments.len() as u16;

        0..dependencies + arguments
    }

    fn set_output_indirectly(graph: &mut DataFlowGraph, id: u32, to: u32)
        requires
            id < old(graph)@.len(),
            old(graph)@[id as int] is LambdaIn,
        ensures
            final(graph)@ == old(graph)@.update(id as int, old(graph)@[id as int].with_output(to)),
    {
        match graph.get_mut(id) {
            Node::LambdaIn(node) => node.output = to,
            _ => {},
        }
    }

    /// Adds a lambda input node to the graph, not yet paired with an output.
    pub fn add_into(
        graph: &mut DataFlowGraph,
        kind: Box<FunctionType>,
        dependencies: Vec<Link>,
        key: Option<String>,
    ) -> (id: u32)
        requires
            old(graph)@.len() <= u32::MAX,
        ensures
            id == old(graph)@.len(),
            final(graph)@ == old(graph)@.push(
                Node::LambdaIn(LambdaIn { output: u32::MAX, kind, dependencies, key }),
            ),
    {
        let node = Node::LambdaIn(LambdaIn { output: u32::MAX, kind, dependencies, key });

        graph.add_node(node)
    }
}

impl LambdaOut {
    /// Adds a lambda output node to the graph and pairs it with its input.
    pub fn add_into(graph: &mut DataFlowGraph, input: u32, results: Vec<Link>) -> (id: u32)
        requires
            old(graph)@.len() <= u32::MAX,
            input < old(graph)@.len(),
            old(graph)@[input as int] is LambdaIn,
        ensures
            id == old(graph)@.len(),
            final(graph)@ == old(graph)@.push(Node::LambdaOut(LambdaOut { input, results })).update(
                input as int,
                old(graph)@[input as int].with_output(id),
            ),
    {
        let node = Node::LambdaOut(LambdaOut { input, results });
        let id = graph.add_node(node);

        LambdaIn::set_output_indirectly(graph, input, id);

        id
    }
}

impl RegionIn {
    fn set_output_indirectly(graph: &mut DataFlowGraph, id: u32, to: u32)
        requires
            id < old(graph)@.len(),
            old(graph)@[id as int] is RegionIn,
        ensures
            final(graph)@ == old(graph)@.update(id as int, old(graph)@[id as int].with_output(to)),
    {
        match graph.get_mut(id) {
            Node::RegionIn(node) => node.output = to,
            _ => {},
        }
    }

    /// Adds a region input node to the graph, not yet paired with an output.
    pub fn add_into(graph: &mut DataFlowGraph, input: u32) -> (id: u32)
        requires
            old(graph)@.len() <= u32::MAX,
        ensures
            id == old(graph)@.len(),
            final(graph)@ == old(graph)@.push(
                Node::RegionIn(RegionIn { input, output: u32::MAX }),
            ),
    {
        let node = Node::RegionIn(RegionIn { input, output: u32::MAX });

        graph.add_node(node)
    }
}

impl RegionOut {
    fn set_output_indirectly(graph: &mut DataFlowGraph, id: u32, to: u32)
        requires
            id < old(graph)@.len(),
            old(graph)@[id as int] is RegionOut,
        ensures
            final(graph)@ == old(graph)@.update(id as int, old(graph)@[id as int].with_output(to)),
    {
        match graph.get_mut(id) {
            Node::RegionOut(node) => node.output = to,
            _ => {},
        }
    }

    /// Adds a region output node to the graph and pairs it with its input.
    pub fn add_into(graph: &mut DataFlowGraph, input: u32, results: Vec<Link>) -> (id: u32)
        requires
            old(graph)@.len() <= u32::MAX,
            input < old(graph)@.len(),
            old(graph)@[input as int] is RegionIn,
        ensures
            id == old(graph)@.len(),
            final(graph)@ == old(graph)@.push(
                Node::RegionOut(RegionOut { input, output: u32::MAX, results }),
            ).update(input as int, old(graph)@[input as int].with_output(id)),
    {
        let node = Node::RegionOut(RegionOut { input, output: u32::MAX, results });
        let id = graph.add_node(node);

        RegionIn::set_output_indirectly(graph, input, id);

        id
    }

    /// Adds a scoped region to the graph: a region input node, whatever
    /// `handler` builds inside it, and the region output node closing it with
    /// the results `handler` returns.
    ///
    /// `handler` is given the graph and the region input node, which closing
    /// the region needs it to leave as it is.
    pub fn add_scoped_into<H>(graph: &mut DataFlowGraph, input: u32, handler: H) -> (id: u32) where
        H: FnOnce(&mut DataFlowGraph, u32) -> Vec<Link>,

        requires
            old(graph)@.len() < u32::MAX,
            forall|g: &mut DataFlowGraph, i: u32| #[trigger] call_requires(handler, (g, i)),
            forall|g: &mut DataFlowGraph, i: u32, r: Vec<Link>|
                #[trigger] call_ensures(handler, (g, i), r) ==> keeps_region_in((*g)@, (*final(g))@, i)
                    && (*final(g))@.len() <= u32::MAX,
        ensures
            id + 1 == final(graph)@.len(),
            final(graph)@[old(graph)@.len() as int] == Node::RegionIn(RegionIn { input, output: id }),
            exists|g: &mut DataFlowGraph, results: Vec<Link>|
                {
                    &&& #[trigger] call_ensures(handler, (g, old(graph)@.len() as u32), results)
                    &&& (*g)@ == old(graph)@.push(Node::RegionIn(RegionIn { input, output: u32::MAX }))
                    &&& (*final(g))@.len() == id
                    &&& final(graph)@ == region_closed((*final(g))@, old(graph)@.len() as u32, results)
                    &&& final(graph)@[id as int] == Node::RegionOut(
                        RegionOut { input: old(graph)@.len() as u32, output: u32::MAX, results },
                    )
                },
    {
        let ghost start = graph@;
        let arguments = RegionIn::add_into(graph, input);
        let ghost before = graph@;
        let results = handler(graph, arguments);
        let ghost after = graph@;
        assert(exists|g: &mut DataFlowGraph|
            #[trigger] call_ensures(handler, (g, arguments), results) && (*g)@ == before && (*final(g))@ == after);
        assert(keeps_region_in(before, after, arguments));
        assert(after[arguments as int] == Node::RegionIn(RegionIn { input, output: u32::MAX }));
        let id = Self::add_into(graph, arguments, results);
        proof {
            let g = choose|g: &mut DataFlowGraph|
                #[trigger] call_ensures(handler, (g, arguments), results) && (*g)@ == before && (*final(g))@ == after;
            assert(graph@ =~= region_closed(after, arguments, results));
            assert({
                &&& #[trigger] call_ensures(handler, (g, start.len() as u32), results)
                &&& (*g)@ == start.push(Node::RegionIn(RegionIn { input, output: u32::MAX }))
                &&& (*final(g))@.len() == id
                &&& graph@ == region_closed((*final(g))@, start.len() as u32, results)
                &&& graph@[id as int] == Node::RegionOut(
                    RegionOut { input: start.len() as u32, output: u32::MAX, results },
                )
            });
        }
        id
    }
}

/// Whether the node `i` of `before`, when it is a region input, is still in
/// `after` as it was.
pub open spec fn keeps_region_in(before: Seq<Node>, after: Seq<Node>, i: u32) -> bool {
    i < before.len() && before[i as int] is RegionIn ==> i < after.len() && after[i as int] == before[i as int]
}

/// Whether every region input, region output and gamma input node of
/// `before` is still in `after` as it was, `after` being no shorter: what
/// closing the structures that those nodes open needs of the work done in
/// between.
pub open spec fn keeps_structure(before: Seq<Node>, after: Seq<Node>) -> bool {
    &&& before.len() <= after.len()
    &&& forall|j: int|
        #![trigger after[j]]
        0 <= j < before.len() && (before[j] is RegionIn || before[j] is RegionOut || before[j] is GammaIn)
            ==> after[j] == before[j]
}

/// The graph after a region output node with the given results closed the
/// region that `region_in` opened in `inside`.
pub open spec fn region_closed(inside: Seq<Node>, region_in: u32, results: Vec<Link>) -> Seq<Node> {
    inside.push(Node::RegionOut(RegionOut { input: region_in, output: u32::MAX, results })).update(
        region_in as int,
        inside[region_in as int].with_output(inside.len() as u32),
    )
}

impl GammaIn {
    fn set_output_indirectly(graph: &mut DataFlowGraph, id: u32, to: u32)
        requires
            id < old(graph)@.len(),
            old(graph)@[id as int] is GammaIn,
        ensures
            final(graph)@ == old(graph)@.update(id as int, old(graph)@[id as int].with_output(to)),
    {
        match graph.get_mut(id) {
            Node::GammaIn(node) => node.output = to,
            _ => {},
        }
    }

    /// Adds a gamma input node to the graph, not yet paired with an output.
    pub fn add_into(graph: &mut DataFlowGraph, arguments: Vec<Link>, condition: Link) -> (id: u32)
        requires
            old(graph)@.len() <= u32::MAX,
        ensures
            id == old(graph)@.len(),
            final(graph)@ == old(graph)@.push(
                Node::GammaIn(GammaIn { output: u32::MAX, arguments, condition }),
            ),
    {
        let node = Node::GammaIn(GammaIn { output: u32::MAX, arguments, condition });

        graph.add_node(node)
    }
}

/// The graph after a gamma output node with identifier `id` closed the gamma
/// opened by `input` over the given region outputs: the input and every region
/// output are paired with `id`, and nothing else changes.
pub open spec fn gamma_closed(previous: Seq<Node>, input: u32, regions: Seq<u32>, id: u32) -> Seq<
    Node,
> {
    Seq::new(
        previous.len(),
        |j: int|
            if j == input || regions.contains(j as u32) {
                previous[j].with_output(id)
            } else {
                previous[j]
            },
    )
}

impl GammaOut {
    /// Adds a gamma output node to the graph and pairs it with its input and
    /// with the output of every region.
    pub fn add_into(graph: &mut DataFlowGraph, input: u32, regions: Vec<u32>) -> (id: u32)
        requires
            old(graph)@.len() <= u32::MAX,
            input < old(graph)@.len(),
            old(graph)@[input as int] is GammaIn,
            forall|k: int|
                0 <= k < regions@.len() ==> regions@[k] < old(graph)@.len()
                    && old(graph)@[regions@[k] as int] is RegionOut,
        ensures
            id == old(graph)@.len(),
            final(graph)@ == gamma_closed(old(graph)@, input, regions@, id).push(
                Node::GammaOut(GammaOut { input, regions }),
            ),
    {
        let ghost previous = graph@;
        let id = graph.add_node(Node::Trap);

        GammaIn::set_output_indirectly(graph, input, id);

        let mut i: usize = 0;
        while i < regions.len()
            invariant
                id == previous.len(),
                graph@.len() == previous.len() + 1,
                graph@[id as int] == Node::Trap,
                input < previous.len(),
                previous[input as int] is GammaIn,
                i <= regions@.len(),
                forall|k: int|
                    0 <= k < regions@.len() ==> regions@[k] < previous.len()
                        && previous[regions@[k] as int] is RegionOut,
                forall|j: int|
                    0 <= j < previous.len() ==> graph@[j] == if j == input
                        || regions@.subrange(0, i as int).contains(j as u32) {
                        previous[j].with_output(id)
                    } else {
                        previous[j]
                    },
            decreases regions@.len() - i,
        {
            let region = regions[i];
            RegionOut::set_output_indirectly(graph, region, id);
            i = i + 1;
            assert forall|j: int| 0 <= j < previous.len() implies graph@[j] == if j == input
                || regions@.subrange(0, i as int).contains(j as u32) {
                previous[j].with_output(id)
            } else {
                previous[j]
            } by {
                if regions@.subrange(0, i - 1).contains(j as u32) {
                    let k = choose|k: int| 0 <= k < i - 1 && #[trigger] regions@.subrange(0, i - 1)[k] == j as u32;
                    assert(regions@.subrange(0, i as int)[k] == j as u32);
                }
                if j == region as int {
                    assert(regions@.subrange(0, i as int)[i - 1] == j as u32);
                }
                if regions@.subrange(0, i as int).contains(j as u32) && j != region as int {
                    let k = choose|k: int| 0 <= k < i && #[trigger] regions@.subrange(0, i as int)[k] == j as u32;
                    assert(regions@.subrange(0, i - 1)[k] == j as u32);
                }
            }
        }
        assert(regions@.subrange(0, i as int) =~= regions@);
        let ghost closed = gamma_closed(previous, input, regions@, id);
        graph.replace(id, Node::GammaOut(GammaOut { input, regions }));
        assert(graph@ =~= closed.push(Node::GammaOut(GammaOut { input, regions })));
        id
    }

    /// Adds an if-else structure to the graph: a gamma over `arguments` and
    /// `condition` whose first region is built by `on_false` and whose second
    /// region is built by `on_true`, in that order.
    ///
    /// Each handler is given the graph and its region input node; closing the
    /// gamma needs the gamma and region nodes opened before it returns left
    /// as they are.
    pub fn add_if_into<F, T>(
        graph: &mut DataFlowGraph,
        arguments: Vec<Link>,
        condition: Link,
        on_false: F,
        on_true: T,
    ) -> (id: u32) where
        F: FnOnce(&mut DataFlowGraph, u32) -> Vec<Link>,
        T: FnOnce(&mut DataFlowGraph, u32) -> Vec<Link>,

        requires
            old(graph)@.len() + 1 < u32::MAX,
            forall|g: &mut DataFlowGraph, i: u32| #[trigger] call_requires(on_false, (g, i)),
            forall|g: &mut DataFlowGraph, i: u32, r: Vec<Link>|
                #[trigger] call_ensures(on_false, (g, i), r) ==> keeps_structure((*g)@, (*final(g))@)
                    && (*final(g))@.len() + 2 < u32::MAX,
            forall|g: &mut DataFlowGraph, i: u32| #[trigger] call_requires(on_true, (g, i)),
            forall|g: &mut DataFlowGraph, i: u32, r: Vec<Link>|
                #[trigger] call_ensures(on_true, (g, i), r) ==> keeps_structure((*g)@, (*final(g))@)
                    && (*final(g))@.len() < u32::MAX,
        ensures
            id + 1 == final(graph)@.len(),
            final(graph)@[old(graph)@.len() as int] == Node::GammaIn(
                GammaIn { output: id, arguments, condition },
            ),
            exists|gf: &mut DataFlowGraph, fs: Vec<Link>, gt: &mut DataFlowGraph, ts: Vec<Link>|
                {
                    let gamma_in = old(graph)@.len() as u32;
                    let false_out = (*final(gf))@.len() as u32;
                    let true_out = (*final(gt))@.len() as u32;
                    &&& #[trigger] call_ensures(on_false, (gf, (old(graph)@.len() + 1) as u32), fs)
                    &&& (*gf)@ == old(graph)@.push(
                        Node::GammaIn(GammaIn { output: u32::MAX, arguments, condition }),
                    ).push(Node::RegionIn(RegionIn { input: gamma_in, output: u32::MAX }))
                    &&& #[trigger] call_ensures(on_true, (gt, ((*final(gf))@.len() + 1) as u32), ts)
                    &&& (*gt)@ == region_closed((*final(gf))@, (gamma_in + 1) as u32, fs).push(
                        Node::RegionIn(RegionIn { input: gamma_in, output: u32::MAX }),
                    )
                    &&& final(graph)@.drop_last() == gamma_closed(
                        region_closed((*final(gt))@, (false_out + 1) as u32, ts),
                        gamma_in,
                        seq![false_out, true_out],
                        id,
                    )
                    &&& final(graph)@.last() matches Node::GammaOut(out) && out.input == gamma_in
                        && out.regions@ == seq![false_out, true_out]
                    &&& final(graph)@[gamma_in + 1] == Node::RegionIn(
                        RegionIn { input: gamma_in, output: false_out },
                    )
                    &&& final(graph)@[false_out as int] == Node::RegionOut(
                        RegionOut { input: (gamma_in + 1) as u32, output: id, results: fs },
                    )
                    &&& final(graph)@[false_out + 1] == Node::RegionIn(
                        RegionIn { input: gamma_in, output: true_out },
                    )
                    &&& final(graph)@[true_out as int] == Node::RegionOut(
                        RegionOut { input: (false_out + 1) as u32, output: id, results: ts },
                    )
                },
    {
        let ghost start = graph@;
        let gamma_in = GammaIn::add_into(graph, arguments, condition);
        let ghost opened = graph@;
        proof {
            assert forall|g: &mut DataFlowGraph, i: u32, r: Vec<Link>|
                #[trigger] call_ensures(on_false, (g, i), r) implies keeps_region_in((*g)@, (*final(g))@, i)
                    && (*final(g))@.len() <= u32::MAX by {
                assert(keeps_structure((*g)@, (*final(g))@));
                if i < (*g)@.len() && (*g)@[i as int] is RegionIn {
                    assert((*final(g))@[i as int] == (*g)@[i as int]);
                }
            }
        }
        let first = RegionOut::add_scoped_into(graph, gamma_in, on_false);
        let ghost after_false = graph@;
        proof {
            assert forall|g: &mut DataFlowGraph, i: u32, r: Vec<Link>|
                #[trigger] call_ensures(on_true, (g, i), r) implies keeps_region_in((*g)@, (*final(g))@, i)
                    && (*final(g))@.len() <= u32::MAX by {
                assert(keeps_structure((*g)@, (*final(g))@));
                if i < (*g)@.len() && (*g)@[i as int] is RegionIn {
                    assert((*final(g))@[i as int] == (*g)@[i as int]);
                }
            }
        }
        let second = RegionOut::add_scoped_into(graph, gamma_in, on_true);
        let ghost after_true = graph@;
        let regions = vec![first, second];
        let ghost (gf, fs) = choose|g: &mut DataFlowGraph, results: Vec<Link>|
            {
                &&& #[trigger] call_ensures(on_false, (g, opened.len() as u32), results)
                &&& (*g)@ == opened.push(Node::RegionIn(RegionIn { input: gamma_in, output: u32::MAX }))
                &&& (*final(g))@.len() == first
                &&& after_false == region_closed((*final(g))@, opened.len() as u32, results)
                &&& after_false[first as int] == Node::RegionOut(
                    RegionOut { input: opened.len() as u32, output: u32::MAX, results },
                )
            };
        let ghost (gt, ts) = choose|g: &mut DataFlowGraph, results: Vec<Link>|
            {
                &&& #[trigger] call_ensures(on_true, (g, after_false.len() as u32), results)
                &&& (*g)@ == after_false.push(Node::RegionIn(RegionIn { input: gamma_in, output: u32::MAX }))
                &&& (*final(g))@.len() == second
                &&& after_true == region_closed((*final(g))@, after_false.len() as u32, results)
                &&& after_true[second as int] == Node::RegionOut(
                    RegionOut { input: after_false.len() as u32, output: u32::MAX, results },
                )
            };
        proof {
            let inside_false = (*final(gf))@;
            let inside_true = (*final(gt))@;
            assert(keeps_structure((*gf)@, inside_false));
            assert(keeps_structure((*gt)@, inside_true));
            assert(inside_false[gamma_in as int] == (*gf)@[gamma_in as int]);
            assert(inside_false[gamma_in + 1] == (*gf)@[gamma_in + 1]);
            assert(after_false[gamma_in as int] == Node::GammaIn(GammaIn { output: u32::MAX, arguments, condition }));
            assert(after_false[gamma_in + 1] == Node::RegionIn(RegionIn { input: gamma_in, output: first }));
            assert((*gt)@[gamma_in as int] == after_false[gamma_in as int]);
            assert((*gt)@[gamma_in + 1] == after_false[gamma_in + 1]);
            assert((*gt)@[first as int] == after_false[first as int]);
            assert(inside_true[gamma_in as int] == (*gt)@[gamma_in as int]);
            assert(inside_true[gamma_in + 1] == (*gt)@[gamma_in + 1]);
            assert(inside_true[first as int] == (*gt)@[first as int]);
            assert(inside_true[first + 1] == (*gt)@[first + 1]);
            assert(after_true[gamma_in as int] is GammaIn);
            assert(after_true[first as int] is RegionOut);
            assert(after_true[first + 1] == Node::RegionIn(RegionIn { input: gamma_in, output: second }));
        }
        let id = Self::add_into(graph, gamma_in, regions);
        proof {
            assert(regions@ == seq![first, second]);
            assert(graph@.drop_last() =~= gamma_closed(after_true, gamma_in, regions@, id));
            assert(graph@[gamma_in as int] == gamma_closed(after_true, gamma_in, regions@, id)[gamma_in as int]);
            assert(graph@[gamma_in + 1] == gamma_closed(after_true, gamma_in, regions@, id)[gamma_in + 1]);
            assert(!regions@.contains((gamma_in + 1) as u32)) by {
                assert(regions@[0] != gamma_in + 1 && regions@[1] != gamma_in + 1);
            }
            assert(!regions@.contains((first + 1) as u32)) by {
                assert(regions@[0] != first + 1 && regions@[1] != first + 1);
            }
            assert(regions@.contains(first)) by {
                assert(regions@[0] == first);
            }
            assert(regions@.contains(second)) by {
                assert(regions@[1] == second);
            }
            assert(graph@[first as int] == gamma_closed(after_true, gamma_in, regions@, id)[first as int]);
            assert(graph@[first + 1] == gamma_closed(after_true, gamma_in, regions@, id)[first + 1]);
            assert(graph@[second as int] == gamma_closed(after_true, gamma_in, regions@, id)[second as int]);
        }
        id
    }
}

impl ThetaIn {
    fn set_output_indirectly(graph: &mut DataFlowGraph, id: u32, to: u32)
        requires
            id < old(graph)@.len(),
            old(graph)@[id as int] is ThetaIn,
        ensures
            final(graph)@ == old(graph)@.update(id as int, old(graph)@[id as int].with_output(to)),
    {
        match graph.get_mut(id) {
            Node::ThetaIn(node) => node.output = to,
            _ => {},
        }
    }

    /// Adds a theta input node to the graph, not yet paired with an output.
    pub fn add_into(graph: &mut DataFlowGraph, arguments: Vec<Link>) -> (id: u32)
        requires
            old(graph)@.len() <= u32::MAX,
        ensures
            id == old(graph)@.len(),
            final(graph)@ == old(graph)@.push(
                Node::ThetaIn(ThetaIn { output: u32::MAX, arguments }),
            ),
    {
        let node = Node::ThetaIn(ThetaIn { output: u32::MAX, arguments });

        graph.add_node(node)
    }
}

impl ThetaOut {
    /// Adds a theta output node to the graph and pairs it with its input.
    pub fn add_into(graph: &mut DataFlowGraph, input: u32, results: Vec<Link>, condition: Link) -> (id:
        u32)
        requires
            old(graph)@.len() <= u32::MAX,
            input < old(graph)@.len(),
            old(graph)@[input as int] is ThetaIn,
        ensures
            id == old(graph)@.len(),
            final(graph)@ == old(graph)@.push(
                Node::ThetaOut(ThetaOut { input, results, condition }),
            ).update(input as int, old(graph)@[input as int].with_output(id)),
    {
        let node = Node::ThetaOut(ThetaOut { input, results, condition });
        let id = graph.add_node(node);

        ThetaIn::set_output_indirectly(graph, input, id);

        id
    }
}

impl OmegaIn {
    /// The port index for the environment.
    pub const ENVIRONMENT_PORT: u16 = 0;
    /// The port index for the state token.
    pub const STATE_PORT: u16 = 1;

    fn set_output_indirectly(graph: &mut DataFlowGraph, id: u32, to: u32)
        requires
            id < old(graph)@.len(),
            old(graph)@[id as int] is OmegaIn,
        ensures
            final(graph)@ == old(graph)@.update(id as int, old(graph)@[id as int].with_output(to)),
    {
        match graph.get_mut(id) {
            Node::OmegaIn(node) => node.output = to,
            _ => {},
        }
    }

    /// Adds an omega input node to the graph, not yet paired with an output.
    pub fn add_into(graph: &mut DataFlowGraph) -> (id: u32)
        requires
            old(graph)@.len() <= u32::MAX,
        ensures
            id == old(graph)@.len(),
            final(graph)@ == old(graph)@.push(Node::OmegaIn(OmegaIn { output: u32::MAX })),
    {
        let node = Node::OmegaIn(OmegaIn { output: u32::MAX });

        graph.add_node(node)
    }
}

impl OmegaOut {
    /// Adds an omega output node to the graph and pairs it with its input.
    pub fn add_into(graph: &mut DataFlowGraph, input: u32, state: Link, exports: Vec<Export>) -> (id:
        u32)
        requires
            old(graph)@.len() <= u32::MAX,
            input < old(graph)@.len(),
            old(graph)@[input as int] is OmegaIn,
        ensures
            id == old(graph)@.len(),
            final(graph)@ == old(graph)@.push(
                Node::OmegaOut(OmegaOut { input, state, exports }),
            ).update(input as int, old(graph)@[input as int].with_output(id)),
    {
        let node = Node::OmegaOut(OmegaOut { input, state, exports });
        let id = graph.add_node(node);

        OmegaIn::set_output_indirectly(graph, input, id);

        id
    }
}

} // verus!
