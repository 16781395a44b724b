//! Lifting of a basic block: each instruction of a WebAssembly function
//! becomes nodes of the data flow graph, while each register, each module
//! entity the function refers to and the trap state hold the link of their
//! current value.

use vstd::prelude::*;

use crate::{
    graph::{control::ValueType, graph::extends, simple, DataFlowGraph, Link, Node},
    lifter::dependency_map::{mutable_count, mutable_links, ports_from, renumbered, DependencyMap},
    liveness::references::{Reference, ReferenceType},
    wasm::{
        instruction::{
            Call, DataDrop, ElementsDrop, F32Constant, F64Constant, GlobalGet, GlobalSet, I32Constant,
            I64Constant, Instruction, IntegerBinaryOperation, IntegerBinaryOperator, IntegerCompareOperation,
            IntegerConvertToNumber, IntegerExtend, IntegerNarrow, IntegerTransmuteToNumber, IntegerUnaryOperation,
            IntegerWiden, LocalBranch, LocalSet, Location, MemoryCopy, MemoryFill, MemoryGrow, MemoryInit,
            MemoryLoad, MemorySize, MemoryStore, NumberBinaryOperation, NumberCompareOperation, NumberNarrow,
            NumberTransmuteToInteger, NumberTruncateToInteger, NumberUnaryOperation, NumberWiden, RefFunction,
            RefIsNull, RefNull, TableCopy, TableFill, TableGet, TableGrow, TableInit, TableSet, TableSize,
        },
        stack_builder::LOCAL_BASE,
        types::Types,
    },
};

verus! {

/// What a lifter holds while it lifts a block: the link of each register,
/// the branch condition, the trap state, and the state of each module
/// entity the function refers to.
pub struct LifterState {
    /// The value of each register.
    pub locals: Seq<Link>,
    /// The value the block branches on.
    pub condition: Link,
    /// The trap state.
    pub trap: Link,
    /// The module entities the function refers to.
    pub keys: Seq<Reference>,
    /// The state of each module entity, in the order of `keys`.
    pub links: Seq<Link>,
}

/// Whether the function refers to entity `index` of kind `kind`.
pub open spec fn has(state: LifterState, kind: ReferenceType, index: u16) -> bool {
    state.keys.contains(Reference { kind, index })
}

/// The state of entity `index` of kind `kind`.
pub open spec fn dependency(state: LifterState, kind: ReferenceType, index: u16) -> Link {
    state.links[state.keys.index_of(Reference { kind, index })]
}

/// `state` once entity `index` of kind `kind` has the state `link`.
pub open spec fn with_dependency(state: LifterState, kind: ReferenceType, index: u16, link: Link) -> LifterState {
    LifterState { links: state.links.update(state.keys.index_of(Reference { kind, index }), link), ..state }
}

/// `state` once register `destination` holds `link`.
pub open spec fn with_local(state: LifterState, destination: u16, link: Link) -> LifterState {
    LifterState { locals: state.locals.update(destination as int, link), ..state }
}

/// `state` once the trap state is `link`.
pub open spec fn with_trap(state: LifterState, link: Link) -> LifterState {
    LifterState { trap: link, ..state }
}

/// Whether `location` names a register and an entity of kind `kind` that the
/// function refers to.
pub open spec fn location_fits(state: LifterState, kind: ReferenceType, location: Location) -> bool {
    &&& location.offset < state.locals.len()
    &&& has(state, kind, location.reference)
}

/// The graph location of `location`: the state of its entity of kind `kind`
/// and the value of its offset register.
pub open spec fn location(state: LifterState, kind: ReferenceType, location: Location) -> simple::Location {
    simple::Location {
        reference: dependency(state, kind, location.reference),
        offset: state.locals[location.offset as int],
    }
}

/// Port `port` of the next node added to `graph`.
pub open spec fn new_link(graph: Seq<Node>, port: u16) -> Link {
    Link(graph.len() as u32, port)
}

/// Whether node `at` of `graph` is a fence of `sources`.
pub open spec fn fence_at(graph: Seq<Node>, at: int, sources: Seq<Link>) -> bool {
    graph[at] matches Node::Fence(fence) && fence.sources@ == sources
}

/// Whether `after` and `graph_after` are `before` and `graph` once the trap
/// state and the state of each entity that instructions change pass through
/// a new fence, and are then taken from its ports, in order.
pub open spec fn fenced(before: LifterState, graph: Seq<Node>, after: LifterState, graph_after: Seq<Node>) -> bool {
    &&& graph_after.len() == graph.len() + 1
    &&& graph_after.take(graph.len() as int) == graph
    &&& fence_at(graph_after, graph.len() as int, seq![before.trap] + mutable_links(before.keys, before.links))
    &&& after == LifterState {
        trap: new_link(graph, 0),
        links: renumbered(before.keys, before.links, graph.len() as u32, 1),
        ..before
    }
}

/// Whether `after` and `graph_after` are `before` and `graph` once `value`
/// is chained onto the trap state by a new fence.
pub open spec fn pinned(before: LifterState, graph: Seq<Node>, value: Link, after: LifterState, graph_after: Seq<Node>) -> bool {
    &&& graph_after.len() == graph.len() + 1
    &&& graph_after.take(graph.len() as int) == graph
    &&& fence_at(graph_after, graph.len() as int, seq![before.trap, value])
    &&& after == with_trap(before, new_link(graph, 0))
}

/// Whether lifting appends `node` and register `destination` takes its value.
pub open spec fn produces(
    before: LifterState,
    graph: Seq<Node>,
    after: LifterState,
    graph_after: Seq<Node>,
    destination: u16,
    node: Node,
) -> bool {
    &&& graph_after == graph.push(node)
    &&& after == with_local(before, destination, new_link(graph, 0))
}

/// Whether lifting appends `node`, register `destination` takes its value,
/// and its value is chained onto the trap state.
pub open spec fn produces_pinned(
    before: LifterState,
    graph: Seq<Node>,
    after: LifterState,
    graph_after: Seq<Node>,
    destination: u16,
    node: Node,
) -> bool {
    pinned(
        with_local(before, destination, new_link(graph, 0)),
        graph.push(node),
        new_link(graph, 0),
        after,
        graph_after,
    )
}

/// Whether lifting appends `node`, register `destination` takes its value
/// and entity `index` of kind `kind` its new state.
pub open spec fn reads(
    before: LifterState,
    graph: Seq<Node>,
    after: LifterState,
    graph_after: Seq<Node>,
    destination: u16,
    node: Node,
    kind: ReferenceType,
    index: u16,
) -> bool {
    &&& graph_after == graph.push(node)
    &&& after == with_dependency(with_local(before, destination, new_link(graph, 0)), kind, index, new_link(graph, 1))
}

/// Whether lifting appends `node` and entity `index` of kind `kind` takes
/// its new state.
pub open spec fn writes(
    before: LifterState,
    graph: Seq<Node>,
    after: LifterState,
    graph_after: Seq<Node>,
    node: Node,
    kind: ReferenceType,
    index: u16,
) -> bool {
    &&& graph_after == graph.push(node)
    &&& after == with_dependency(before, kind, index, new_link(graph, 0))
}

/// Whether lifting appends `node`, the destination entity takes its first
/// state and then the source entity its second.
pub open spec fn copies(
    before: LifterState,
    graph: Seq<Node>,
    after: LifterState,
    graph_after: Seq<Node>,
    node: Node,
    destination_kind: ReferenceType,
    destination: u16,
    source_kind: ReferenceType,
    source: u16,
) -> bool {
    &&& graph_after == graph.push(node)
    &&& after == with_dependency(
        with_dependency(before, destination_kind, destination, new_link(graph, 0)),
        source_kind,
        source,
        new_link(graph, 1),
    )
}

/// `locals` once the registers from `first` to before `last` take the
/// results of node `call`, in order.
pub open spec fn with_results(locals: Seq<Link>, first: u16, last: u16, call: u32) -> Seq<Link> {
    Seq::new(
        locals.len(),
        |i: int|
            if first <= i < last {
                Link(call, (i - first) as u16)
            } else {
                locals[i]
            },
    )
}

/// Whether a call's registers are in order and name registers, its function
/// register names one, and its results number fewer than a node has ports.
pub open spec fn call_fits(state: LifterState, call: Call) -> bool {
    &&& call.sources.0 <= call.sources.1 <= state.locals.len()
    &&& call.destinations.0 <= call.destinations.1 <= state.locals.len()
    &&& call.function < state.locals.len()
    &&& call.destinations.1 - call.destinations.0 < u16::MAX
}

/// Whether lifting a call fences the trap state and the entity states,
/// applies the function register to the argument registers and the trap
/// state, gives the result registers and the trap state the application's
/// results, and fences again.
pub open spec fn calls(before: LifterState, graph: Seq<Node>, after: LifterState, graph_after: Seq<Node>, call: Call) -> bool {
    let start = graph.len();
    let fenced_first = LifterState {
        trap: new_link(graph, 0),
        links: renumbered(before.keys, before.links, start as u32, 1),
        ..before
    };
    let applied = LifterState {
        locals: with_results(before.locals, call.destinations.0, call.destinations.1, (start + 1) as u32),
        trap: Link((start + 1) as u32, (call.destinations.1 - call.destinations.0) as u16),
        ..fenced_first
    };
    &&& graph_after.len() == start + 3
    &&& graph_after.take(start as int) == graph
    &&& fence_at(graph_after, start as int, seq![before.trap] + mutable_links(before.keys, before.links))
    &&& graph_after[start as int + 1] matches Node::Apply(apply) && {
        &&& apply.function == before.locals[call.function as int]
        &&& apply.arguments@ == before.locals.subrange(call.sources.0 as int, call.sources.1 as int).push(
            new_link(graph, 0),
        )
        &&& apply.results == call.destinations.1 - call.destinations.0
    }
    &&& fenced(applied, graph_after.take(start as int + 2), after, graph_after)
}

/// Whether `instruction` reads and writes only registers that exist and
/// entities that the function refers to, with types among `keys`.
pub open spec fn fits(state: LifterState, keys: Seq<String>, instruction: Instruction) -> bool {
    match instruction {
        Instruction::LocalSet(i) => i.destination < state.locals.len() && i.source < state.locals.len(),
        Instruction::LocalBranch(i) => i.source < state.locals.len(),
        Instruction::I32Constant(i) => i.destination < state.locals.len(),
        Instruction::I64Constant(i) => i.destination < state.locals.len(),
        Instruction::F32Constant(i) => i.destination < state.locals.len(),
        Instruction::F64Constant(i) => i.destination < state.locals.len(),
        Instruction::RefIsNull(i) => i.destination < state.locals.len() && i.source < state.locals.len(),
        Instruction::RefNull(i) => i.destination < state.locals.len(),
        Instruction::RefFunction(i) => i.destination < state.locals.len() && has(state, ReferenceType::Function, i.function),
        Instruction::Call(i) => call_fits(state, i),
        Instruction::Unreachable => true,
        Instruction::IntegerUnaryOperation(i) => i.destination < state.locals.len() && i.source < state.locals.len(),
        Instruction::IntegerBinaryOperation(i) => i.destination < state.locals.len() && i.lhs < state.locals.len() && i.rhs < state.locals.len(),
        Instruction::IntegerCompareOperation(i) => i.destination < state.locals.len() && i.lhs < state.locals.len() && i.rhs < state.locals.len(),
        Instruction::IntegerNarrow(i) => i.destination < state.locals.len() && i.source < state.locals.len(),
        Instruction::IntegerWiden(i) => i.destination < state.locals.len() && i.source < state.locals.len(),
        Instruction::IntegerExtend(i) => i.destination < state.locals.len() && i.source < state.locals.len(),
        Instruction::IntegerConvertToNumber(i) => i.destination < state.locals.len() && i.source < state.locals.len(),
        Instruction::IntegerTransmuteToNumber(i) => i.destination < state.locals.len() && i.source < state.locals.len(),
        Instruction::NumberUnaryOperation(i) => i.destination < state.locals.len() && i.source < state.locals.len(),
        Instruction::NumberBinaryOperation(i) => i.destination < state.locals.len() && i.lhs < state.locals.len() && i.rhs < state.locals.len(),
        Instruction::NumberCompareOperation(i) => i.destination < state.locals.len() && i.lhs < state.locals.len() && i.rhs < state.locals.len(),
        Instruction::NumberNarrow(i) => i.destination < state.locals.len() && i.source < state.locals.len(),
        Instruction::NumberWiden(i) => i.destination < state.locals.len() && i.source < state.locals.len(),
        Instruction::NumberTruncateToInteger(i) => i.destination < state.locals.len() && i.source < state.locals.len(),
        Instruction::NumberTransmuteToInteger(i) => i.destination < state.locals.len() && i.source < state.locals.len(),
        Instruction::GlobalGet(i) => i.destination < state.locals.len() && has(state, ReferenceType::Global, i.source),
        Instruction::GlobalSet(i) => i.source < state.locals.len() && has(state, ReferenceType::Global, i.destination),
        Instruction::TableGet(i) => i.destination < state.locals.len() && location_fits(state, ReferenceType::Table, i.source) && (i.kind matches Some(kind) ==> kind < keys.len()),
        Instruction::TableSet(i) => i.source < state.locals.len() && location_fits(state, ReferenceType::Table, i.destination),
        Instruction::TableSize(i) => i.destination < state.locals.len() && has(state, ReferenceType::Table, i.table),
        Instruction::TableGrow(i) => i.destination < state.locals.len() && i.initializer < state.locals.len() && i.size < state.locals.len() && has(state, ReferenceType::Table, i.table),
        Instruction::TableFill(i) => i.source < state.locals.len() && i.size < state.locals.len() && location_fits(state, ReferenceType::Table, i.destination),
        Instruction::TableCopy(i) => i.size < state.locals.len() && location_fits(state, ReferenceType::Table, i.destination) && location_fits(state, ReferenceType::Table, i.source),
        Instruction::TableInit(i) => i.size < state.locals.len() && location_fits(state, ReferenceType::Table, i.destination) && location_fits(state, ReferenceType::Elements, i.source),
        Instruction::ElementsDrop(i) => has(state, ReferenceType::Elements, i.source),
        Instruction::MemoryLoad(i) => i.destination < state.locals.len() && location_fits(state, ReferenceType::Memory, i.source),
        Instruction::MemoryStore(i) => i.source < state.locals.len() && location_fits(state, ReferenceType::Memory, i.destination),
        Instruction::MemorySize(i) => i.destination < state.locals.len() && has(state, ReferenceType::Memory, i.memory),
        Instruction::MemoryGrow(i) => i.destination < state.locals.len() && i.size < state.locals.len() && has(state, ReferenceType::Memory, i.memory),
        Instruction::MemoryFill(i) => i.byte < state.locals.len() && i.size < state.locals.len() && location_fits(state, ReferenceType::Memory, i.destination),
        Instruction::MemoryCopy(i) => i.size < state.locals.len() && location_fits(state, ReferenceType::Memory, i.destination) && location_fits(state, ReferenceType::Memory, i.source),
        Instruction::MemoryInit(i) => i.size < state.locals.len() && location_fits(state, ReferenceType::Memory, i.destination) && location_fits(state, ReferenceType::Data, i.source),
        Instruction::DataDrop(i) => has(state, ReferenceType::Data, i.source),
    }
}

/// Whether `after` and `graph_after` are `before` and `graph` once
/// `instruction` is lifted, with `keys` the keys of the module's types.
pub open spec fn lifted(
    before: LifterState,
    graph: Seq<Node>,
    keys: Seq<String>,
    instruction: Instruction,
    after: LifterState,
    graph_after: Seq<Node>,
) -> bool {
    match instruction {
        Instruction::LocalSet(i) => after == with_local(before, i.destination, before.locals[i.source as int]) && graph_after == graph,
        Instruction::LocalBranch(i) => after == (LifterState { condition: before.locals[i.source as int], ..before }) && graph_after == graph,
        Instruction::I32Constant(i) => produces(before, graph, after, graph_after, i.destination, Node::I32(i.data)),
        Instruction::I64Constant(i) => produces(before, graph, after, graph_after, i.destination, Node::I64(i.data)),
        Instruction::F32Constant(i) => produces(before, graph, after, graph_after, i.destination, Node::F32(i.data)),
        Instruction::F64Constant(i) => produces(before, graph, after, graph_after, i.destination, Node::F64(i.data)),
        Instruction::RefIsNull(i) => produces(before, graph, after, graph_after, i.destination, Node::RefIsNull(simple::RefIsNull { source: before.locals[i.source as int] })),
        Instruction::RefNull(i) => produces(before, graph, after, graph_after, i.destination, Node::Null),
        Instruction::RefFunction(i) => produces(before, graph, after, graph_after, i.destination, Node::GlobalGet(simple::GlobalGet { source: dependency(before, ReferenceType::Function, i.function) })),
        Instruction::Call(i) => calls(before, graph, after, graph_after, i),
        Instruction::Unreachable => after == with_trap(before, new_link(graph, 0)) && graph_after == graph.push(Node::Trap),
        Instruction::IntegerUnaryOperation(i) => produces(before, graph, after, graph_after, i.destination, Node::IntegerUnaryOperation(simple::IntegerUnaryOperation { source: before.locals[i.source as int], kind: i.kind, operator: i.operator })),
        Instruction::IntegerBinaryOperation(i) => if (i.operator matches IntegerBinaryOperator::Divide { .. } || i.operator matches IntegerBinaryOperator::Remainder { .. }) { produces_pinned(before, graph, after, graph_after, i.destination, Node::IntegerBinaryOperation(simple::IntegerBinaryOperation { lhs: before.locals[i.lhs as int], rhs: before.locals[i.rhs as int], kind: i.kind, operator: i.operator })) } else { produces(before, graph, after, graph_after, i.destination, Node::IntegerBinaryOperation(simple::IntegerBinaryOperation { lhs: before.locals[i.lhs as int], rhs: before.locals[i.rhs as int], kind: i.kind, operator: i.operator })) },
        Instruction::IntegerCompareOperation(i) => produces(before, graph, after, graph_after, i.destination, Node::IntegerCompareOperation(simple::IntegerCompareOperation { lhs: before.locals[i.lhs as int], rhs: before.locals[i.rhs as int], kind: i.kind, operator: i.operator })),
        Instruction::IntegerNarrow(i) => produces(before, graph, after, graph_after, i.destination, Node::IntegerNarrow(simple::IntegerNarrow { source: before.locals[i.source as int] })),
        Instruction::IntegerWiden(i) => produces(before, graph, after, graph_after, i.destination, Node::IntegerWiden(simple::IntegerWiden { source: before.locals[i.source as int] })),
        Instruction::IntegerExtend(i) => produces(before, graph, after, graph_after, i.destination, Node::IntegerExtend(simple::IntegerExtend { source: before.locals[i.source as int], kind: i.kind })),
        Instruction::IntegerConvertToNumber(i) => produces(before, graph, after, graph_after, i.destination, Node::IntegerConvertToNumber(simple::IntegerConvertToNumber { source: before.locals[i.source as int], signed: i.signed, to: i.to, from: i.from })),
        Instruction::IntegerTransmuteToNumber(i) => produces(before, graph, after, graph_after, i.destination, Node::IntegerTransmuteToNumber(simple::IntegerTransmuteToNumber { source: before.locals[i.source as int], from: i.from })),
        Instruction::NumberUnaryOperation(i) => produces(before, graph, after, graph_after, i.destination, Node::NumberUnaryOperation(simple::NumberUnaryOperation { source: before.locals[i.source as int], kind: i.kind, operator: i.operator })),
        Instruction::NumberBinaryOperation(i) => produces(before, graph, after, graph_after, i.destination, Node::NumberBinaryOperation(simple::NumberBinaryOperation { lhs: before.locals[i.lhs as int], rhs: before.locals[i.rhs as int], kind: i.kind, operator: i.operator })),
        Instruction::NumberCompareOperation(i) => produces(before, graph, after, graph_after, i.destination, Node::NumberCompareOperation(simple::NumberCompareOperation { lhs: before.locals[i.lhs as int], rhs: before.locals[i.rhs as int], kind: i.kind, operator: i.operator })),
        Instruction::NumberNarrow(i) => produces(before, graph, after, graph_after, i.destination, Node::NumberNarrow(simple::NumberNarrow { source: before.locals[i.source as int] })),
        Instruction::NumberWiden(i) => produces(before, graph, after, graph_after, i.destination, Node::NumberWiden(simple::NumberWiden { source: before.locals[i.source as int] })),
        Instruction::NumberTruncateToInteger(i) => if !i.saturate { produces_pinned(before, graph, after, graph_after, i.destination, Node::NumberTruncateToInteger(simple::NumberTruncateToInteger { source: before.locals[i.source as int], signed: i.signed, saturate: i.saturate, to: i.to, from: i.from })) } else { produces(before, graph, after, graph_after, i.destination, Node::NumberTruncateToInteger(simple::NumberTruncateToInteger { source: before.locals[i.source as int], signed: i.signed, saturate: i.saturate, to: i.to, from: i.from })) },
        Instruction::NumberTransmuteToInteger(i) => produces(before, graph, after, graph_after, i.destination, Node::NumberTransmuteToInteger(simple::NumberTransmuteToInteger { source: before.locals[i.source as int], from: i.from })),
        Instruction::GlobalGet(i) => reads(before, graph, after, graph_after, i.destination, Node::GlobalGet(simple::GlobalGet { source: dependency(before, ReferenceType::Global, i.source) }), ReferenceType::Global, i.source),
        Instruction::GlobalSet(i) => writes(before, graph, after, graph_after, Node::GlobalSet(simple::GlobalSet { destination: dependency(before, ReferenceType::Global, i.destination), source: before.locals[i.source as int] }), ReferenceType::Global, i.destination),
        Instruction::TableGet(i) => reads(before, graph, after, graph_after, i.destination, Node::TableGet(simple::TableGet { source: location(before, ReferenceType::Table, i.source), key: match i.kind { Some(kind) => Some(keys[kind as int]), None => None } }), ReferenceType::Table, i.source.reference),
        Instruction::TableSet(i) => writes(before, graph, after, graph_after, Node::TableSet(simple::TableSet { destination: location(before, ReferenceType::Table, i.destination), source: before.locals[i.source as int] }), ReferenceType::Table, i.destination.reference),
        Instruction::TableSize(i) => reads(before, graph, after, graph_after, i.destination, Node::TableSize(simple::TableSize { source: dependency(before, ReferenceType::Table, i.table) }), ReferenceType::Table, i.table),
        Instruction::TableGrow(i) => reads(before, graph, after, graph_after, i.destination, Node::TableGrow(simple::TableGrow { destination: dependency(before, ReferenceType::Table, i.table), initializer: before.locals[i.initializer as int], size: before.locals[i.size as int] }), ReferenceType::Table, i.table),
        Instruction::TableFill(i) => writes(before, graph, after, graph_after, Node::TableFill(simple::TableFill { destination: location(before, ReferenceType::Table, i.destination), source: before.locals[i.source as int], size: before.locals[i.size as int] }), ReferenceType::Table, i.destination.reference),
        Instruction::TableCopy(i) => copies(before, graph, after, graph_after, Node::TableCopy(simple::TableCopy { destination: location(before, ReferenceType::Table, i.destination), source: location(before, ReferenceType::Table, i.source), size: before.locals[i.size as int] }), ReferenceType::Table, i.destination.reference, ReferenceType::Table, i.source.reference),
        Instruction::TableInit(i) => copies(before, graph, after, graph_after, Node::TableCopy(simple::TableCopy { destination: location(before, ReferenceType::Table, i.destination), source: location(before, ReferenceType::Elements, i.source), size: before.locals[i.size as int] }), ReferenceType::Table, i.destination.reference, ReferenceType::Elements, i.source.reference),
        Instruction::ElementsDrop(i) => writes(before, graph, after, graph_after, Node::TableDrop(simple::TableDrop { source: dependency(before, ReferenceType::Elements, i.source) }), ReferenceType::Elements, i.source),
        Instruction::MemoryLoad(i) => reads(before, graph, after, graph_after, i.destination, Node::MemoryLoad(simple::MemoryLoad { source: location(before, ReferenceType::Memory, i.source), offset: i.offset, kind: i.kind }), ReferenceType::Memory, i.source.reference),
        Instruction::MemoryStore(i) => writes(before, graph, after, graph_after, Node::MemoryStore(simple::MemoryStore { destination: location(before, ReferenceType::Memory, i.destination), source: before.locals[i.source as int], offset: i.offset, kind: i.kind }), ReferenceType::Memory, i.destination.reference),
        Instruction::MemorySize(i) => reads(before, graph, after, graph_after, i.destination, Node::MemorySize(simple::MemorySize { source: dependency(before, ReferenceType::Memory, i.memory) }), ReferenceType::Memory, i.memory),
        Instruction::MemoryGrow(i) => reads(before, graph, after, graph_after, i.destination, Node::MemoryGrow(simple::MemoryGrow { destination: dependency(before, ReferenceType::Memory, i.memory), size: before.locals[i.size as int] }), ReferenceType::Memory, i.memory),
        Instruction::MemoryFill(i) => writes(before, graph, after, graph_after, Node::MemoryFill(simple::MemoryFill { destination: location(before, ReferenceType::Memory, i.destination), byte: before.locals[i.byte as int], size: before.locals[i.size as int] }), ReferenceType::Memory, i.destination.reference),
        Instruction::MemoryCopy(i) => copies(before, graph, after, graph_after, Node::MemoryCopy(simple::MemoryCopy { destination: location(before, ReferenceType::Memory, i.destination), source: location(before, ReferenceType::Memory, i.source), size: before.locals[i.size as int] }), ReferenceType::Memory, i.destination.reference, ReferenceType::Memory, i.source.reference),
        Instruction::MemoryInit(i) => copies(before, graph, after, graph_after, Node::MemoryCopy(simple::MemoryCopy { destination: location(before, ReferenceType::Memory, i.destination), source: location(before, ReferenceType::Data, i.source), size: before.locals[i.size as int] }), ReferenceType::Memory, i.destination.reference, ReferenceType::Data, i.source.reference),
        Instruction::DataDrop(i) => writes(before, graph, after, graph_after, Node::MemoryDrop(simple::MemoryDrop { source: dependency(before, ReferenceType::Data, i.source) }), ReferenceType::Data, i.source),
    }
}

/// Whether `states` and `graphs` trace the lifting of `instructions` one by
/// one, from their first entries to their last.
pub open spec fn lifted_all(
    states: Seq<LifterState>,
    graphs: Seq<Seq<Node>>,
    keys: Seq<String>,
    instructions: Seq<Instruction>,
) -> bool {
    &&& states.len() == instructions.len() + 1
    &&& graphs.len() == instructions.len() + 1
    &&& forall|k: int|
        0 <= k < instructions.len() ==> lifted(
            states[k],
            graphs[k],
            keys,
            #[trigger] instructions[k],
            states[k + 1],
            graphs[k + 1],
        )
}

/// The constant node holding the zero of type `kind`.
pub open spec fn zero_of(kind: ValueType) -> Node {
    match kind {
        ValueType::I32 => Node::I32(0),
        ValueType::I64 => Node::I64(0),
        ValueType::F32 => Node::F32(0),
        ValueType::F64 => Node::F64(0),
        ValueType::Reference => Node::Null,
    }
}

/// The first port of each of `count` nodes from node `first` on.
pub open spec fn ports_from_each(first: int, count: nat) -> Seq<Link> {
    Seq::new(count, |i: int| Link((first + i) as u32, 0))
}

/// `locals` sized to at least `size` registers, the new ones holding the
/// null of node `null`, and the reserved ones the zero of the node after it.
pub open spec fn sized(locals: Seq<Link>, size: int, null: u32) -> Seq<Link> {
    let len = if size > locals.len() {
        size
    } else {
        locals.len() as int
    };
    Seq::new(
        len as nat,
        |i: int|
            if i < LOCAL_BASE {
                Link((null + 1) as u32, 0)
            } else if i < locals.len() {
                locals[i]
            } else {
                Link(null, 0)
            },
    )
}

/// `locals` once each register of `registers`, in order, takes the port of
/// `producer` numbered from `first` by its rank.
pub open spec fn bound(locals: Seq<Link>, registers: Seq<u16>, producer: u32, first: int) -> Seq<Link>
    decreases registers.len(),
{
    if registers.len() == 0 {
        locals
    } else {
        bound(locals, registers.drop_last(), producer, first).update(
            registers.last() as int,
            Link(producer, (first + registers.len() - 1) as u16),
        )
    }
}

/// Binding registers keeps the number of registers.
proof fn lemma_bound_len(locals: Seq<Link>, registers: Seq<u16>, producer: u32, first: int)
    requires
        forall|k: int| 0 <= k < registers.len() ==> #[trigger] registers[k] < locals.len(),
    ensures
        bound(locals, registers, producer, first).len() == locals.len(),
    decreases registers.len(),
{
    if registers.len() > 0 {
        lemma_bound_len(locals, registers.drop_last(), producer, first);
    }
}

/// A lifter of basic blocks into a data flow graph.
pub struct BasicBlockLifter {
    locals: Vec<Link>,
    condition: Link,
    trap: Link,
    dependencies: DependencyMap,
}

impl View for BasicBlockLifter {
    type V = LifterState;

    closed spec fn view(&self) -> LifterState {
        LifterState {
            locals: self.locals@,
            condition: self.condition,
            trap: self.trap,
            keys: self.dependencies.keys(),
            links: self.dependencies.links(),
        }
    }
}

impl BasicBlockLifter {
    /// Whether each entity has one state and appears once, and the entities
    /// that instructions change fit among the ports of a fence.
    pub closed spec fn well_formed(&self) -> bool {
        &&& self.dependencies.well_formed()
        &&& mutable_count(self.dependencies.keys()) < u16::MAX
    }

    /// Creates a lifter with no register and no entity.
    pub fn new() -> (lifter: Self)
        ensures
            lifter.well_formed(),
            lifter@.locals == Seq::<Link>::empty(),
            lifter@.keys == Seq::<Reference>::empty(),
            lifter@.condition == Link::spec_dangling(),
            lifter@.trap == Link::spec_dangling(),
    {
        BasicBlockLifter {
            locals: Vec::new(),
            condition: Link::dangling(),
            trap: Link::dangling(),
            dependencies: DependencyMap::new(),
        }
    }

    /// The value the block branches on.
    pub fn get_condition(&self) -> (condition: Link)
        ensures
            condition == self@.condition,
    {
        self.condition
    }

    /// Chains `value` onto the trap state so that an operation that may trap
    /// is still evaluated when nothing else reads its result.
    fn pin_to_trap(&mut self, graph: &mut DataFlowGraph, value: Link)
        requires
            old(graph)@.len() <= u32::MAX,
        ensures
            pinned(old(self)@, old(graph)@, value, final(self)@, final(graph)@),
            final(self).well_formed() == old(self).well_formed(),
    {
        let mut sources: Vec<Link> = Vec::new();
        sources.push(self.trap);
        sources.push(value);
        assert(sources@ =~= seq![old(self)@.trap, value]);
        let fence = simple::Fence::add_into(graph, sources);
        self.trap = Link(fence, 0);
        proof {
            assert(final(graph)@.take(old(graph)@.len() as int) =~= old(graph)@);
        }
    }

    /// Passes the trap state and the state of each entity that instructions
    /// change through a new fence, and takes them from its ports.
    fn create_fence(&mut self, graph: &mut DataFlowGraph)
        requires
            old(self).well_formed(),
            old(graph)@.len() <= u32::MAX,
        ensures
            fenced(old(self)@, old(graph)@, final(self)@, final(graph)@),
            final(self).well_formed(),
    {
        let mut sources: Vec<Link> = Vec::new();
        sources.push(self.trap);
        self.dependencies.get_mutable_into(&mut sources);
        let fence = simple::Fence::add_into(graph, sources);
        self.trap = Link(fence, 0);
        self.dependencies.set_mutable_from(fence, 1);
        proof {
            assert(final(graph)@.take(old(graph)@.len() as int) =~= old(graph)@);
            assert(seq![old(self)@.trap] + mutable_links(old(self)@.keys, old(self)@.links) =~= sources@);
        }
    }

    /// Returns the first `results` registers after the reserved ones, then,
    /// once the states are fenced, the trap state: the outputs of the
    /// function.
    pub fn get_function_outputs(&mut self, graph: &mut DataFlowGraph, results: usize) -> (links: Vec<Link>)
        requires
            old(self).well_formed(),
            old(graph)@.len() <= u32::MAX,
            LOCAL_BASE + results <= old(self)@.locals.len(),
        ensures
            fenced(old(self)@, old(graph)@, final(self)@, final(graph)@),
            final(self).well_formed(),
            links@ == old(self)@.locals.subrange(LOCAL_BASE as int, LOCAL_BASE + results).push(final(self)@.trap),
    {
        let mut links: Vec<Link> = Vec::new();
        let base: usize = LOCAL_BASE as usize;
        let available = self.locals.len();
        assert(base + results <= available);
        let end = base + results;
        let mut index: usize = base;
        while index < end
            invariant
                end == base + results,
                base == LOCAL_BASE,
                base <= index <= base + results,
                base + results <= self.locals@.len(),
                links@ == self.locals@.subrange(base as int, index as int),
            decreases base + results - index,
        {
            links.push(self.locals[index]);
            proof {
                assert(links@ =~= self.locals@.subrange(base as int, index + 1));
            }
            index = index + 1;
        }
        self.create_fence(graph);
        links.push(self.trap);
        links
    }

    /// Starts a function whose inputs are the ports of `lambda_in`: first the
    /// state of each of `dependencies`, then `arguments` argument registers
    /// after the reserved ones, which hold no value yet, then the trap state.
    pub fn set_function_inputs(&mut self, lambda_in: u32, arguments: usize, dependencies: &[Reference])
        requires
            dependencies@.no_duplicates(),
            mutable_count(dependencies@) < u16::MAX,
            dependencies@.len() + arguments < u16::MAX,
        ensures
            final(self).well_formed(),
            final(self)@ == (LifterState {
                locals: Seq::new(LOCAL_BASE as nat, |i: int| Link::spec_dangling()) + ports_from(
                    lambda_in,
                    dependencies@.len() as int,
                    arguments as nat,
                ),
                condition: old(self)@.condition,
                trap: Link(lambda_in, (dependencies@.len() + arguments) as u16),
                keys: dependencies@,
                links: ports_from(lambda_in, 0, dependencies@.len()),
            }),
    {
        self.dependencies.fill_keys(dependencies);
        let next = self.dependencies.set_all_from(lambda_in, 0);
        self.locals.clear();
        let ghost dependencies_after = self.dependencies;
        let mut index: usize = 0;
        while index < LOCAL_BASE as usize
            invariant
                self.dependencies == dependencies_after,
                self.condition == old(self).condition,
                index <= LOCAL_BASE,
                self.locals@ == Seq::new(index as nat, |i: int| Link::spec_dangling()),
            decreases LOCAL_BASE - index,
        {
            self.locals.push(Link::dangling());
            proof {
                assert(self.locals@ =~= Seq::new((index + 1) as nat, |i: int| Link::spec_dangling()));
            }
            index = index + 1;
        }
        let ghost reserved = self.locals@;
        let mut port: u16 = next;
        let mut count: usize = 0;
        while count < arguments
            invariant
                self.dependencies == dependencies_after,
                self.condition == old(self).condition,
                next == dependencies@.len(),
                dependencies@.len() + arguments < u16::MAX,
                count <= arguments,
                port == next + count,
                self.locals@ == reserved + ports_from(lambda_in, next as int, count as nat),
            decreases arguments - count,
        {
            self.locals.push(Link(lambda_in, port));
            proof {
                assert(self.locals@ =~= reserved + ports_from(lambda_in, next as int, (count + 1) as nat));
            }
            port = port + 1;
            count = count + 1;
        }
        self.trap = Link(lambda_in, port);
    }

    /// Gives each local of the function, after its arguments, a new constant
    /// node holding the zero of its type.
    pub fn set_local_types(&mut self, graph: &mut DataFlowGraph, types: &[ValueType])
        requires
            old(graph)@.len() + types@.len() <= u32::MAX,
        ensures
            final(self).well_formed() == old(self).well_formed(),
            final(graph)@ == old(graph)@ + types@.map_values(|kind: ValueType| zero_of(kind)),
            final(self)@ == (LifterState {
                locals: old(self)@.locals + ports_from_each(old(graph)@.len() as int, types@.len()),
                ..old(self)@
            }),
    {
        let ghost start = graph@.len();
        let mut index: usize = 0;
        while index < types.len()
            invariant
                start == old(graph)@.len(),
                start + types@.len() <= u32::MAX,
                index <= types@.len(),
                graph@ == old(graph)@ + types@.take(index as int).map_values(|kind: ValueType| zero_of(kind)),
                self@ == (LifterState {
                    locals: old(self)@.locals + ports_from_each(start as int, index as nat),
                    ..old(self)@
                }),
                self.dependencies == old(self).dependencies,
            decreases types@.len() - index,
        {
            let link = match types[index] {
                ValueType::I32 => Node::add_i32_into(graph, 0),
                ValueType::I64 => Node::add_i64_into(graph, 0),
                ValueType::F32 => Node::add_f32_into(graph, 0),
                ValueType::F64 => Node::add_f64_into(graph, 0),
                ValueType::Reference => Node::add_null_into(graph),
            };
            self.locals.push(link);
            proof {
                assert(types@.take(index + 1) =~= types@.take(index as int).push(types@[index as int]));
                assert(graph@ =~= old(graph)@ + types@.take(index + 1).map_values(|kind: ValueType| zero_of(kind)));
                assert(self.locals@ =~= old(self)@.locals + ports_from_each(start as int, (index + 1) as nat));
            }
            index = index + 1;
        }
        proof {
            assert(types@.take(index as int) =~= types@);
        }
    }

    /// Sizes the registers to at least `size`, filling new ones with a null
    /// reference, and seeds the reserved registers, which hold dispatcher
    /// indices, with the integer zero.
    pub fn set_stack_size(&mut self, graph: &mut DataFlowGraph, size: u16)
        requires
            old(self)@.locals.len() >= LOCAL_BASE,
            old(graph)@.len() + 2 <= u32::MAX,
        ensures
            final(self).well_formed() == old(self).well_formed(),
            final(graph)@ == old(graph)@.push(Node::Null).push(Node::I32(0)),
            final(self)@ == (LifterState { locals: sized(old(self)@.locals, size as int, old(graph)@.len() as u32), ..old(self)@ }),
    {
        let null = Node::add_null_into(graph);
        let mut count: usize = if (size as usize) > self.locals.len() {
            size as usize - self.locals.len()
        } else {
            0
        };
        let ghost target = sized(old(self)@.locals, size as int, old(graph)@.len() as u32);
        while count > 0
            invariant
                self.locals@.len() + count == if size > old(self)@.locals.len() {
                    size as int
                } else {
                    old(self)@.locals.len() as int
                },
                forall|i: int|
                    0 <= i < self.locals@.len() ==> #[trigger] self.locals@[i] == if i < old(self)@.locals.len() {
                        old(self)@.locals[i]
                    } else {
                        null
                    },
                null == Link(old(graph)@.len() as u32, 0),
                self.locals@.len() >= old(self)@.locals.len(),
                self.dependencies == old(self).dependencies,
                self.condition == old(self).condition,
                self.trap == old(self).trap,
            decreases count,
        {
            self.locals.push(null);
            count = count - 1;
        }
        let zero = Node::add_i32_into(graph, 0);
        let mut index: usize = 0;
        while index < LOCAL_BASE as usize
            invariant
                index <= LOCAL_BASE,
                LOCAL_BASE <= old(self)@.locals.len() <= self.locals@.len(),
                self.locals@.len() == target.len(),
                forall|i: int|
                    0 <= i < self.locals@.len() ==> #[trigger] self.locals@[i] == if i < index {
                        zero
                    } else if i < old(self)@.locals.len() {
                        old(self)@.locals[i]
                    } else {
                        null
                    },
                zero == Link((old(graph)@.len() + 1) as u32, 0),
                null == Link(old(graph)@.len() as u32, 0),
                target == sized(old(self)@.locals, size as int, old(graph)@.len() as u32),
                self.dependencies == old(self).dependencies,
                self.condition == old(self).condition,
                self.trap == old(self).trap,
            decreases LOCAL_BASE - index,
        {
            self.locals.set(index, zero);
            index = index + 1;
        }
        proof {
            assert(self.locals@ =~= target);
        }
    }

    /// Returns the state of each entity, the value of each of `locals`, and
    /// the trap state, in order.
    pub fn get_active_bindings(&self, locals: &[u16]) -> (results: Vec<Link>)
        requires
            forall|k: int| 0 <= k < locals@.len() ==> #[trigger] locals@[k] < self@.locals.len(),
        ensures
            results@ == self@.links + locals@.map_values(|local: u16| self@.locals[local as int]) + seq![
                self@.trap,
            ],
    {
        let mut results: Vec<Link> = Vec::new();
        self.dependencies.get_all_into(&mut results);
        let ghost front = results@;
        let mut index: usize = 0;
        while index < locals.len()
            invariant
                index <= locals@.len(),
                forall|k: int| 0 <= k < locals@.len() ==> #[trigger] locals@[k] < self@.locals.len(),
                results@ == front + locals@.take(index as int).map_values(|local: u16| self@.locals[local as int]),
            decreases locals@.len() - index,
        {
            results.push(self.locals[locals[index] as usize]);
            proof {
                assert(locals@.take(index + 1) =~= locals@.take(index as int).push(locals@[index as int]));
                assert(results@ =~= front + locals@.take(index + 1).map_values(|local: u16| self@.locals[local as int]));
            }
            index = index + 1;
        }
        results.push(self.trap);
        proof {
            assert(locals@.take(index as int) =~= locals@);
        }
        results
    }

    /// Takes the state of each entity, then the value of each of `locals`,
    /// then the trap state, from the ports of `producer`, in order.
    pub fn set_active_bindings(&mut self, producer: u32, locals: &[u16])
        requires
            old(self).well_formed(),
            old(self)@.keys.len() + locals@.len() < u16::MAX,
            forall|k: int| 0 <= k < locals@.len() ==> #[trigger] locals@[k] < old(self)@.locals.len(),
        ensures
            final(self).well_formed(),
            final(self)@ == (LifterState {
                locals: bound(old(self)@.locals, locals@, producer, old(self)@.keys.len() as int),
                trap: Link(producer, (old(self)@.keys.len() + locals@.len()) as u16),
                links: ports_from(producer, 0, old(self)@.keys.len()),
                ..old(self)@
            }),
    {
        let next = self.dependencies.set_all_from(producer, 0);
        let ghost first = self.locals@;
        let ghost dependencies_after = self.dependencies;
        let mut index: usize = 0;
        while index < locals.len()
            invariant
                self.dependencies == dependencies_after,
                self.condition == old(self).condition,
                self.well_formed(),
                next == old(self)@.keys.len(),
                next + locals@.len() < u16::MAX,
                index <= locals@.len(),
                forall|k: int| 0 <= k < locals@.len() ==> #[trigger] locals@[k] < first.len(),
                self.locals@ == bound(first, locals@.take(index as int), producer, next as int),
            decreases locals@.len() - index,
        {
            proof {
                assert(locals@.take(index + 1).drop_last() =~= locals@.take(index as int));
                lemma_bound_len(first, locals@.take(index as int), producer, next as int);
                assert(locals@.take(index + 1).last() == locals@[index as int]);
            }
            self.locals.set(locals[index] as usize, Link(producer, next + index as u16));
            index = index + 1;
        }
        self.trap = Link(producer, next + index as u16);
        proof {
            assert(locals@.take(index as int) =~= locals@);
        }
    }

    /// The entity state of `location` of kind `kind`, and the value of its
    /// offset register.
    fn load_location(&self, kind: ReferenceType, place: Location) -> (loaded: simple::Location)
        requires
            self.well_formed(),
            location_fits(self@, kind, place),
        ensures
            loaded == location(self@, kind, place),
    {
        simple::Location {
            reference: self.dependencies.get(kind, place.reference),
            offset: self.locals[place.offset as usize],
        }
    }

    /// Lifts a register copy.
    fn handle_local_set(&mut self, instruction: LocalSet)
        requires
            instruction.destination < old(self)@.locals.len(),
            instruction.source < old(self)@.locals.len(),
        ensures
            final(self)@ == with_local(old(self)@, instruction.destination, old(self)@.locals[instruction.source as int]),
            final(self).well_formed() == old(self).well_formed(),
    {
        let value = self.locals[instruction.source as usize];
        self.locals.set(instruction.destination as usize, value);
    }

    /// Lifts the choice of the register the block branches on.
    fn handle_local_branch(&mut self, instruction: LocalBranch)
        requires
            instruction.source < old(self)@.locals.len(),
        ensures
            final(self)@ == (LifterState { condition: old(self)@.locals[instruction.source as int], ..old(self)@ }),
            final(self).well_formed() == old(self).well_formed(),
    {
        self.condition = self.locals[instruction.source as usize];
    }

    /// Lifts an instruction that always traps: the trap state becomes a trap.
    fn handle_unreachable(&mut self, graph: &mut DataFlowGraph)
        requires
            old(graph)@.len() <= u32::MAX,
        ensures
            final(self)@ == with_trap(old(self)@, new_link(old(graph)@, 0)),
            final(graph)@ == old(graph)@.push(Node::Trap),
            final(self).well_formed() == old(self).well_formed(),
    {
        self.trap = Node::add_trap_into(graph);
    }

    /// Lifts a call: the arguments and the trap state, once fenced, are
    /// applied to the function register, and the results land in the
    /// destination registers and the trap state, which are fenced again.
    fn handle_call(&mut self, graph: &mut DataFlowGraph, instruction: Call)
        requires
            old(self).well_formed(),
            old(graph)@.len() + 3 <= u32::MAX,
            call_fits(old(self)@, instruction),
        ensures
            calls(old(self)@, old(graph)@, final(self)@, final(graph)@, instruction),
            final(self).well_formed(),
    {
        let ghost start: int = graph@.len() as int;
        let (from, to) = instruction.sources;
        let mut arguments: Vec<Link> = Vec::new();
        let mut index: u16 = from;
        while index < to
            invariant
                from <= index <= to,
                to <= self.locals@.len(),
                arguments@ == self.locals@.subrange(from as int, index as int),
            decreases to - index,
        {
            arguments.push(self.locals[index as usize]);
            proof {
                assert(arguments@ =~= self.locals@.subrange(from as int, index + 1));
            }
            index = index + 1;
        }
        let ghost state0 = self@;
        let ghost graph0 = graph@;
        self.create_fence(graph);
        let ghost graph1 = graph@;
        arguments.push(self.trap);
        let function = self.locals[instruction.function as usize];
        let (first, last) = instruction.destinations;
        let results: u16 = last - first;
        let call = simple::Apply::add_into(graph, function, arguments, results);
        let ghost graph2 = graph@;
        let ghost fenced_first = self@;
        let mut destination: u16 = first;
        while destination < last
            invariant
                self.well_formed(),
                self@.keys == fenced_first.keys,
                self@.links == fenced_first.links,
                self@.trap == fenced_first.trap,
                self@.condition == fenced_first.condition,
                first <= destination <= last,
                last <= self.locals@.len(),
                self.locals@.len() == state0.locals.len(),
                forall|i: int|
                    0 <= i < self.locals@.len() ==> #[trigger] self.locals@[i] == if first <= i < destination {
                        Link(call, (i - first) as u16)
                    } else {
                        state0.locals[i]
                    },
            decreases last - destination,
        {
            self.locals.set(destination as usize, Link(call, destination - first));
            destination = destination + 1;
        }
        self.trap = Link(call, results);
        let ghost applied = self@;
        self.create_fence(graph);
        proof {
            assert(applied.locals =~= with_results(state0.locals, first, last, call));
            assert(graph2.len() == start + 2);
            assert(graph@.take(start as int + 2) == graph2);
            assert(graph@[start as int] == graph2[start as int]);
            assert(graph2[start as int] == graph1[start as int]);
            assert(graph@[start as int + 1] == graph2[start as int + 1]);
            assert(graph@.take(start as int) =~= graph0) by {
                assert(graph1.take(start as int) == graph0);
                assert forall|j: int| 0 <= j < start implies graph@[j] == graph0[j] by {
                    assert(graph@[j] == graph2[j]);
                    assert(graph2[j] == graph1[j]);
                    assert(graph1[j] == graph1.take(start as int)[j]);
                }
            }
        }
    }

    /// Lifts an integer unary operation.
    fn handle_integer_unary_operation(&mut self, graph: &mut DataFlowGraph, instruction: IntegerUnaryOperation)
        requires
            old(self).well_formed(),
            old(graph)@.len() + 3 <= u32::MAX,
            instruction.destination < old(self)@.locals.len() && instruction.source < old(self)@.locals.len(),
        ensures
            produces(old(self)@, old(graph)@, final(self)@, final(graph)@, instruction.destination, Node::IntegerUnaryOperation(simple::IntegerUnaryOperation { source: old(self)@.locals[instruction.source as int], kind: instruction.kind, operator: instruction.operator })),
            final(self).well_formed(),
    {
        let result = simple::IntegerUnaryOperation::add_into(graph, self.locals[instruction.source as usize], instruction.kind, instruction.operator);
        self.locals.set(instruction.destination as usize, result);
    }

    /// Lifts an integer binary operation; a division or a remainder, which may trap, is also chained onto the trap state.
    fn handle_integer_binary_operation(&mut self, graph: &mut DataFlowGraph, instruction: IntegerBinaryOperation)
        requires
            old(self).well_formed(),
            old(graph)@.len() + 3 <= u32::MAX,
            instruction.destination < old(self)@.locals.len() && instruction.lhs < old(self)@.locals.len() && instruction.rhs < old(self)@.locals.len(),
        ensures
            if (instruction.operator matches IntegerBinaryOperator::Divide { .. } || instruction.operator matches IntegerBinaryOperator::Remainder { .. }) { produces_pinned(old(self)@, old(graph)@, final(self)@, final(graph)@, instruction.destination, Node::IntegerBinaryOperation(simple::IntegerBinaryOperation { lhs: old(self)@.locals[instruction.lhs as int], rhs: old(self)@.locals[instruction.rhs as int], kind: instruction.kind, operator: instruction.operator })) } else { produces(old(self)@, old(graph)@, final(self)@, final(graph)@, instruction.destination, Node::IntegerBinaryOperation(simple::IntegerBinaryOperation { lhs: old(self)@.locals[instruction.lhs as int], rhs: old(self)@.locals[instruction.rhs as int], kind: instruction.kind, operator: instruction.operator })) },
            final(self).well_formed(),
    {
        let result = simple::IntegerBinaryOperation::add_into(graph, self.locals[instruction.lhs as usize], self.locals[instruction.rhs as usize], instruction.kind, instruction.operator);
        self.locals.set(instruction.destination as usize, result);
        if matches!(instruction.operator, IntegerBinaryOperator::Divide { .. } | IntegerBinaryOperator::Remainder { .. }) {
            self.pin_to_trap(graph, result);
        }
    }

    /// Lifts an integer comparison.
    fn handle_integer_compare_operation(&mut self, graph: &mut DataFlowGraph, instruction: IntegerCompareOperation)
        requires
            old(self).well_formed(),
            old(graph)@.len() + 3 <= u32::MAX,
            instruction.destination < old(self)@.locals.len() && instruction.lhs < old(self)@.locals.len() && instruction.rhs < old(self)@.locals.len(),
        ensures
            produces(old(self)@, old(graph)@, final(self)@, final(graph)@, instruction.destination, Node::IntegerCompareOperation(simple::IntegerCompareOperation { lhs: old(self)@.locals[instruction.lhs as int], rhs: old(self)@.locals[instruction.rhs as int], kind: instruction.kind, operator: instruction.operator })),
            final(self).well_formed(),
    {
        let result = simple::IntegerCompareOperation::add_into(graph, self.locals[instruction.lhs as usize], self.locals[instruction.rhs as usize], instruction.kind, instruction.operator);
        self.locals.set(instruction.destination as usize, result);
    }

    /// Lifts an integer narrowing.
    fn handle_integer_narrow(&mut self, graph: &mut DataFlowGraph, instruction: IntegerNarrow)
        requires
            old(self).well_formed(),
            old(graph)@.len() + 3 <= u32::MAX,
            instruction.destination < old(self)@.locals.len() && instruction.source < old(self)@.locals.len(),
        ensures
            produces(old(self)@, old(graph)@, final(self)@, final(graph)@, instruction.destination, Node::IntegerNarrow(simple::IntegerNarrow { source: old(self)@.locals[instruction.source as int] })),
            final(self).well_formed(),
    {
        let result = simple::IntegerNarrow::add_into(graph, self.locals[instruction.source as usize]);
        self.locals.set(instruction.destination as usize, result);
    }

    /// Lifts an integer widening.
    fn handle_integer_widen(&mut self, graph: &mut DataFlowGraph, instruction: IntegerWiden)
        requires
            old(self).well_formed(),
            old(graph)@.len() + 3 <= u32::MAX,
            instruction.destination < old(self)@.locals.len() && instruction.source < old(self)@.locals.len(),
        ensures
            produces(old(self)@, old(graph)@, final(self)@, final(graph)@, instruction.destination, Node::IntegerWiden(simple::IntegerWiden { source: old(self)@.locals[instruction.source as int] })),
            final(self).well_formed(),
    {
        let result = simple::IntegerWiden::add_into(graph, self.locals[instruction.source as usize]);
        self.locals.set(instruction.destination as usize, result);
    }

    /// Lifts an integer sign extension.
    fn handle_integer_extend(&mut self, graph: &mut DataFlowGraph, instruction: IntegerExtend)
        requires
            old(self).well_formed(),
            old(graph)@.len() + 3 <= u32::MAX,
            instruction.destination < old(self)@.locals.len() && instruction.source < old(self)@.locals.len(),
        ensures
            produces(old(self)@, old(graph)@, final(self)@, final(graph)@, instruction.destination, Node::IntegerExtend(simple::IntegerExtend { source: old(self)@.locals[instruction.source as int], kind: instruction.kind })),
            final(self).well_formed(),
    {
        let result = simple::IntegerExtend::add_into(graph, self.locals[instruction.source as usize], instruction.kind);
        self.locals.set(instruction.destination as usize, result);
    }

    /// Lifts an integer to floating-point conversion.
    fn handle_integer_convert_to_number(&mut self, graph: &mut DataFlowGraph, instruction: IntegerConvertToNumber)
        requires
            old(self).well_formed(),
            old(graph)@.len() + 3 <= u32::MAX,
            instruction.destination < old(self)@.locals.len() && instruction.source < old(self)@.locals.len(),
        ensures
            produces(old(self)@, old(graph)@, final(self)@, final(graph)@, instruction.destination, Node::IntegerConvertToNumber(simple::IntegerConvertToNumber { source: old(self)@.locals[instruction.source as int], signed: instruction.signed, to: instruction.to, from: instruction.from })),
            final(self).well_formed(),
    {
        let result = simple::IntegerConvertToNumber::add_into(graph, self.locals[instruction.source as usize], instruction.signed, instruction.to, instruction.from);
        self.locals.set(instruction.destination as usize, result);
    }

    /// Lifts an integer to floating-point reinterpretation.
    fn handle_integer_transmute_to_number(&mut self, graph: &mut DataFlowGraph, instruction: IntegerTransmuteToNumber)
        requires
            old(self).well_formed(),
            old(graph)@.len() + 3 <= u32::MAX,
            instruction.destination < old(self)@.locals.len() && instruction.source < old(self)@.locals.len(),
        ensures
            produces(old(self)@, old(graph)@, final(self)@, final(graph)@, instruction.destination, Node::IntegerTransmuteToNumber(simple::IntegerTransmuteToNumber { source: old(self)@.locals[instruction.source as int], from: instruction.from })),
            final(self).well_formed(),
    {
        let result = simple::IntegerTransmuteToNumber::add_into(graph, self.locals[instruction.source as usize], instruction.from);
        self.locals.set(instruction.destination as usize, result);
    }

    /// Lifts a floating-point unary operation.
    fn handle_number_unary_operation(&mut self, graph: &mut DataFlowGraph, instruction: NumberUnaryOperation)
        requires
            old(self).well_formed(),
            old(graph)@.len() + 3 <= u32::MAX,
            instruction.destination < old(self)@.locals.len() && instruction.source < old(self)@.locals.len(),
        ensures
            produces(old(self)@, old(graph)@, final(self)@, final(graph)@, instruction.destination, Node::NumberUnaryOperation(simple::NumberUnaryOperation { source: old(self)@.locals[instruction.source as int], kind: instruction.kind, operator: instruction.operator })),
            final(self).well_formed(),
    {
        let result = simple::NumberUnaryOperation::add_into(graph, self.locals[instruction.source as usize], instruction.kind, instruction.operator);
        self.locals.set(instruction.destination as usize, result);
    }

    /// Lifts a floating-point binary operation.
    fn handle_number_binary_operation(&mut self, graph: &mut DataFlowGraph, instruction: NumberBinaryOperation)
        requires
            old(self).well_formed(),
            old(graph)@.len() + 3 <= u32::MAX,
            instruction.destination < old(self)@.locals.len() && instruction.lhs < old(self)@.locals.len() && instruction.rhs < old(self)@.locals.len(),
        ensures
            produces(old(self)@, old(graph)@, final(self)@, final(graph)@, instruction.destination, Node::NumberBinaryOperation(simple::NumberBinaryOperation { lhs: old(self)@.locals[instruction.lhs as int], rhs: old(self)@.locals[instruction.rhs as int], kind: instruction.kind, operator: instruction.operator })),
            final(self).well_formed(),
    {
        let result = simple::NumberBinaryOperation::add_into(graph, self.locals[instruction.lhs as usize], self.locals[instruction.rhs as usize], instruction.kind, instruction.operator);
        self.locals.set(instruction.destination as usize, result);
    }

    /// Lifts a floating-point comparison.
    fn handle_number_compare_operation(&mut self, graph: &mut DataFlowGraph, instruction: NumberCompareOperation)
        requires
            old(self).well_formed(),
            old(graph)@.len() + 3 <= u32::MAX,
            instruction.destination < old(self)@.locals.len() && instruction.lhs < old(self)@.locals.len() && instruction.rhs < old(self)@.locals.len(),
        ensures
            produces(old(self)@, old(graph)@, final(self)@, final(graph)@, instruction.destination, Node::NumberCompareOperation(simple::NumberCompareOperation { lhs: old(self)@.locals[instruction.lhs as int], rhs: old(self)@.locals[instruction.rhs as int], kind: instruction.kind, operator: instruction.operator })),
            final(self).well_formed(),
    {
        let result = simple::NumberCompareOperation::add_into(graph, self.locals[instruction.lhs as usize], self.locals[instruction.rhs as usize], instruction.kind, instruction.operator);
        self.locals.set(instruction.destination as usize, result);
    }

    /// Lifts a floating-point narrowing.
    fn handle_number_narrow(&mut self, graph: &mut DataFlowGraph, instruction: NumberNarrow)
        requires
            old(self).well_formed(),
            old(graph)@.len() + 3 <= u32::MAX,
            instruction.destination < old(self)@.locals.len() && instruction.source < old(self)@.locals.len(),
        ensures
            produces(old(self)@, old(graph)@, final(self)@, final(graph)@, instruction.destination, Node::NumberNarrow(simple::NumberNarrow { source: old(self)@.locals[instruction.source as int] })),
            final(self).well_formed(),
    {
        let result = simple::NumberNarrow::add_into(graph, self.locals[instruction.source as usize]);
        self.locals.set(instruction.destination as usize, result);
    }

    /// Lifts a floating-point widening.
    fn handle_number_widen(&mut self, graph: &mut DataFlowGraph, instruction: NumberWiden)
        requires
            old(self).well_formed(),
            old(graph)@.len() + 3 <= u32::MAX,
            instruction.destination < old(self)@.locals.len() && instruction.source < old(self)@.locals.len(),
        ensures
            produces(old(self)@, old(graph)@, final(self)@, final(graph)@, instruction.destination, Node::NumberWiden(simple::NumberWiden { source: old(self)@.locals[instruction.source as int] })),
            final(self).well_formed(),
    {
        let result = simple::NumberWiden::add_into(graph, self.locals[instruction.source as usize]);
        self.locals.set(instruction.destination as usize, result);
    }

    /// Lifts a floating-point to integer truncation; one that does not saturate, which may trap, is also chained onto the trap state.
    fn handle_number_truncate_to_integer(&mut self, graph: &mut DataFlowGraph, instruction: NumberTruncateToInteger)
        requires
            old(self).well_formed(),
            old(graph)@.len() + 3 <= u32::MAX,
            instruction.destination < old(self)@.locals.len() && instruction.source < old(self)@.locals.len(),
        ensures
            if !instruction.saturate { produces_pinned(old(self)@, old(graph)@, final(self)@, final(graph)@, instruction.destination, Node::NumberTruncateToInteger(simple::NumberTruncateToInteger { source: old(self)@.locals[instruction.source as int], signed: instruction.signed, saturate: instruction.saturate, to: instruction.to, from: instruction.from })) } else { produces(old(self)@, old(graph)@, final(self)@, final(graph)@, instruction.destination, Node::NumberTruncateToInteger(simple::NumberTruncateToInteger { source: old(self)@.locals[instruction.source as int], signed: instruction.signed, saturate: instruction.saturate, to: instruction.to, from: instruction.from })) },
            final(self).well_formed(),
    {
        let result = simple::NumberTruncateToInteger::add_into(graph, self.locals[instruction.source as usize], instruction.signed, instruction.saturate, instruction.to, instruction.from);
        self.locals.set(instruction.destination as usize, result);
        if !instruction.saturate {
            self.pin_to_trap(graph, result);
        }
    }

    /// Lifts a floating-point to integer reinterpretation.
    fn handle_number_transmute_to_integer(&mut self, graph: &mut DataFlowGraph, instruction: NumberTransmuteToInteger)
        requires
            old(self).well_formed(),
            old(graph)@.len() + 3 <= u32::MAX,
            instruction.destination < old(self)@.locals.len() && instruction.source < old(self)@.locals.len(),
        ensures
            produces(old(self)@, old(graph)@, final(self)@, final(graph)@, instruction.destination, Node::NumberTransmuteToInteger(simple::NumberTransmuteToInteger { source: old(self)@.locals[instruction.source as int], from: instruction.from })),
            final(self).well_formed(),
    {
        let result = simple::NumberTransmuteToInteger::add_into(graph, self.locals[instruction.source as usize], instruction.from);
        self.locals.set(instruction.destination as usize, result);
    }

    /// Lifts a reference null check.
    fn handle_ref_is_null(&mut self, graph: &mut DataFlowGraph, instruction: RefIsNull)
        requires
            old(self).well_formed(),
            old(graph)@.len() + 3 <= u32::MAX,
            instruction.destination < old(self)@.locals.len() && instruction.source < old(self)@.locals.len(),
        ensures
            produces(old(self)@, old(graph)@, final(self)@, final(graph)@, instruction.destination, Node::RefIsNull(simple::RefIsNull { source: old(self)@.locals[instruction.source as int] })),
            final(self).well_formed(),
    {
        let result = simple::RefIsNull::add_into(graph, self.locals[instruction.source as usize]);
        self.locals.set(instruction.destination as usize, result);
    }

    /// Lifts a 32-bit integer constant.
    fn handle_i32_constant(&mut self, graph: &mut DataFlowGraph, instruction: I32Constant)
        requires
            old(self).well_formed(),
            old(graph)@.len() + 3 <= u32::MAX,
            instruction.destination < old(self)@.locals.len(),
        ensures
            produces(old(self)@, old(graph)@, final(self)@, final(graph)@, instruction.destination, Node::I32(instruction.data)),
            final(self).well_formed(),
    {
        let result = Node::add_i32_into(graph, instruction.data);
        self.locals.set(instruction.destination as usize, result);
    }

    /// Lifts a 64-bit integer constant.
    fn handle_i64_constant(&mut self, graph: &mut DataFlowGraph, instruction: I64Constant)
        requires
            old(self).well_formed(),
            old(graph)@.len() + 3 <= u32::MAX,
            instruction.destination < old(self)@.locals.len(),
        ensures
            produces(old(self)@, old(graph)@, final(self)@, final(graph)@, instruction.destination, Node::I64(instruction.data)),
            final(self).well_formed(),
    {
        let result = Node::add_i64_into(graph, instruction.data);
        self.locals.set(instruction.destination as usize, result);
    }

    /// Lifts a 32-bit floating-point constant.
    fn handle_f32_constant(&mut self, graph: &mut DataFlowGraph, instruction: F32Constant)
        requires
            old(self).well_formed(),
            old(graph)@.len() + 3 <= u32::MAX,
            instruction.destination < old(self)@.locals.len(),
        ensures
            produces(old(self)@, old(graph)@, final(self)@, final(graph)@, instruction.destination, Node::F32(instruction.data)),
            final(self).well_formed(),
    {
        let result = Node::add_f32_into(graph, instruction.data);
        self.locals.set(instruction.destination as usize, result);
    }

    /// Lifts a 64-bit floating-point constant.
    fn handle_f64_constant(&mut self, graph: &mut DataFlowGraph, instruction: F64Constant)
        requires
            old(self).well_formed(),
            old(graph)@.len() + 3 <= u32::MAX,
            instruction.destination < old(self)@.locals.len(),
        ensures
            produces(old(self)@, old(graph)@, final(self)@, final(graph)@, instruction.destination, Node::F64(instruction.data)),
            final(self).well_formed(),
    {
        let result = Node::add_f64_into(graph, instruction.data);
        self.locals.set(instruction.destination as usize, result);
    }

    /// Lifts a null reference.
    fn handle_ref_null(&mut self, graph: &mut DataFlowGraph, instruction: RefNull)
        requires
            old(self).well_formed(),
            old(graph)@.len() + 3 <= u32::MAX,
            instruction.destination < old(self)@.locals.len(),
        ensures
            produces(old(self)@, old(graph)@, final(self)@, final(graph)@, instruction.destination, Node::Null),
            final(self).well_formed(),
    {
        let result = Node::add_null_into(graph);
        self.locals.set(instruction.destination as usize, result);
    }

    /// Lifts a reference to a function, read from the function's state.
    fn handle_ref_function(&mut self, graph: &mut DataFlowGraph, instruction: RefFunction)
        requires
            old(self).well_formed(),
            old(graph)@.len() + 3 <= u32::MAX,
            instruction.destination < old(self)@.locals.len() && has(old(self)@, ReferenceType::Function, instruction.function),
        ensures
            produces(old(self)@, old(graph)@, final(self)@, final(graph)@, instruction.destination, Node::GlobalGet(simple::GlobalGet { source: dependency(old(self)@, ReferenceType::Function, instruction.function) })),
            final(self).well_formed(),
    {
        let state = self.dependencies.get(ReferenceType::Function, instruction.function);
        let result = simple::GlobalGet::add_into(graph, state).0;
        self.locals.set(instruction.destination as usize, result);
    }

    /// Lifts a global read.
    fn handle_global_get(&mut self, graph: &mut DataFlowGraph, instruction: GlobalGet)
        requires
            old(self).well_formed(),
            old(graph)@.len() + 3 <= u32::MAX,
            instruction.destination < old(self)@.locals.len() && has(old(self)@, ReferenceType::Global, instruction.source),
        ensures
            reads(old(self)@, old(graph)@, final(self)@, final(graph)@, instruction.destination, Node::GlobalGet(simple::GlobalGet { source: dependency(old(self)@, ReferenceType::Global, instruction.source) }), ReferenceType::Global, instruction.source),
            final(self).well_formed(),
    {
        let state = self.dependencies.get(ReferenceType::Global, instruction.source);
        let (result, state) = simple::GlobalGet::add_into(graph, state);
        self.locals.set(instruction.destination as usize, result);
        self.dependencies.set(ReferenceType::Global, instruction.source, state);
    }

    /// Lifts a global write.
    fn handle_global_set(&mut self, graph: &mut DataFlowGraph, instruction: GlobalSet)
        requires
            old(self).well_formed(),
            old(graph)@.len() + 3 <= u32::MAX,
            instruction.source < old(self)@.locals.len() && has(old(self)@, ReferenceType::Global, instruction.destination),
        ensures
            writes(old(self)@, old(graph)@, final(self)@, final(graph)@, Node::GlobalSet(simple::GlobalSet { destination: dependency(old(self)@, ReferenceType::Global, instruction.destination), source: old(self)@.locals[instruction.source as int] }), ReferenceType::Global, instruction.destination),
            final(self).well_formed(),
    {
        let state = simple::GlobalSet::add_into(
            graph,
            self.dependencies.get(ReferenceType::Global, instruction.destination),
            self.locals[instruction.source as usize],
        );
        self.dependencies.set(ReferenceType::Global, instruction.destination, state);
    }

    /// Lifts a table read; the read is typed by the key of the element type, when there is one.
    fn handle_table_get(&mut self, graph: &mut DataFlowGraph, types: &Types, instruction: TableGet)
        requires
            old(self).well_formed(),
            old(graph)@.len() + 3 <= u32::MAX,
            instruction.destination < old(self)@.locals.len() && location_fits(old(self)@, ReferenceType::Table, instruction.source) && (instruction.kind matches Some(kind) ==> kind < types.keys().len()),
        ensures
            reads(old(self)@, old(graph)@, final(self)@, final(graph)@, instruction.destination, Node::TableGet(simple::TableGet { source: location(old(self)@, ReferenceType::Table, instruction.source), key: match instruction.kind { Some(kind) => Some(types.keys()[kind as int]), None => None } }), ReferenceType::Table, instruction.source.reference),
            final(self).well_formed(),
    {
        let key = match instruction.kind {
            Some(kind) => Some(types.get_type_key(kind)),
            None => None,
        };
        let state = self.load_location(ReferenceType::Table, instruction.source);
        let (result, state) = simple::TableGet::add_into(graph, state, key);
        self.locals.set(instruction.destination as usize, result);
        self.dependencies.set(ReferenceType::Table, instruction.source.reference, state);
    }

    /// Lifts a table write.
    fn handle_table_set(&mut self, graph: &mut DataFlowGraph, instruction: TableSet)
        requires
            old(self).well_formed(),
            old(graph)@.len() + 3 <= u32::MAX,
            instruction.source < old(self)@.locals.len() && location_fits(old(self)@, ReferenceType::Table, instruction.destination),
        ensures
            writes(old(self)@, old(graph)@, final(self)@, final(graph)@, Node::TableSet(simple::TableSet { destination: location(old(self)@, ReferenceType::Table, instruction.destination), source: old(self)@.locals[instruction.source as int] }), ReferenceType::Table, instruction.destination.reference),
            final(self).well_formed(),
    {
        let state = simple::TableSet::add_into(
            graph,
            self.load_location(ReferenceType::Table, instruction.destination),
            self.locals[instruction.source as usize],
        );
        self.dependencies.set(ReferenceType::Table, instruction.destination.reference, state);
    }

    /// Lifts a table size query.
    fn handle_table_size(&mut self, graph: &mut DataFlowGraph, instruction: TableSize)
        requires
            old(self).well_formed(),
            old(graph)@.len() + 3 <= u32::MAX,
            instruction.destination < old(self)@.locals.len() && has(old(self)@, ReferenceType::Table, instruction.table),
        ensures
            reads(old(self)@, old(graph)@, final(self)@, final(graph)@, instruction.destination, Node::TableSize(simple::TableSize { source: dependency(old(self)@, ReferenceType::Table, instruction.table) }), ReferenceType::Table, instruction.table),
            final(self).well_formed(),
    {
        let state = self.dependencies.get(ReferenceType::Table, instruction.table);
        let (result, state) = simple::TableSize::add_into(graph, state);
        self.locals.set(instruction.destination as usize, result);
        self.dependencies.set(ReferenceType::Table, instruction.table, state);
    }

    /// Lifts a table growth.
    fn handle_table_grow(&mut self, graph: &mut DataFlowGraph, instruction: TableGrow)
        requires
            old(self).well_formed(),
            old(graph)@.len() + 3 <= u32::MAX,
            instruction.destination < old(self)@.locals.len() && instruction.initializer < old(self)@.locals.len() && instruction.size < old(self)@.locals.len() && has(old(self)@, ReferenceType::Table, instruction.table),
        ensures
            reads(old(self)@, old(graph)@, final(self)@, final(graph)@, instruction.destination, Node::TableGrow(simple::TableGrow { destination: dependency(old(self)@, ReferenceType::Table, instruction.table), initializer: old(self)@.locals[instruction.initializer as int], size: old(self)@.locals[instruction.size as int] }), ReferenceType::Table, instruction.table),
            final(self).well_formed(),
    {
        let (result, state) = simple::TableGrow::add_into(
            graph,
            self.dependencies.get(ReferenceType::Table, instruction.table),
            self.locals[instruction.initializer as usize],
            self.locals[instruction.size as usize],
        );
        self.locals.set(instruction.destination as usize, result);
        self.dependencies.set(ReferenceType::Table, instruction.table, state);
    }

    /// Lifts a table fill.
    fn handle_table_fill(&mut self, graph: &mut DataFlowGraph, instruction: TableFill)
        requires
            old(self).well_formed(),
            old(graph)@.len() + 3 <= u32::MAX,
            instruction.source < old(self)@.locals.len() && instruction.size < old(self)@.locals.len() && location_fits(old(self)@, ReferenceType::Table, instruction.destination),
        ensures
            writes(old(self)@, old(graph)@, final(self)@, final(graph)@, Node::TableFill(simple::TableFill { destination: location(old(self)@, ReferenceType::Table, instruction.destination), source: old(self)@.locals[instruction.source as int], size: old(self)@.locals[instruction.size as int] }), ReferenceType::Table, instruction.destination.reference),
            final(self).well_formed(),
    {
        let state = simple::TableFill::add_into(
            graph,
            self.load_location(ReferenceType::Table, instruction.destination),
            self.locals[instruction.source as usize],
            self.locals[instruction.size as usize],
        );
        self.dependencies.set(ReferenceType::Table, instruction.destination.reference, state);
    }

    /// Lifts a copy between tables.
    fn handle_table_copy(&mut self, graph: &mut DataFlowGraph, instruction: TableCopy)
        requires
            old(self).well_formed(),
            old(graph)@.len() + 3 <= u32::MAX,
            instruction.size < old(self)@.locals.len() && location_fits(old(self)@, ReferenceType::Table, instruction.destination) && location_fits(old(self)@, ReferenceType::Table, instruction.source),
        ensures
            copies(old(self)@, old(graph)@, final(self)@, final(graph)@, Node::TableCopy(simple::TableCopy { destination: location(old(self)@, ReferenceType::Table, instruction.destination), source: location(old(self)@, ReferenceType::Table, instruction.source), size: old(self)@.locals[instruction.size as int] }), ReferenceType::Table, instruction.destination.reference, ReferenceType::Table, instruction.source.reference),
            final(self).well_formed(),
    {
        let (destination_state, source_state) = simple::TableCopy::add_into(
            graph,
            self.load_location(ReferenceType::Table, instruction.destination),
            self.load_location(ReferenceType::Table, instruction.source),
            self.locals[instruction.size as usize],
        );
        self.dependencies.set(ReferenceType::Table, instruction.destination.reference, destination_state);
        self.dependencies.set(ReferenceType::Table, instruction.source.reference, source_state);
    }

    /// Lifts a copy from an element segment into a table.
    fn handle_table_init(&mut self, graph: &mut DataFlowGraph, instruction: TableInit)
        requires
            old(self).well_formed(),
            old(graph)@.len() + 3 <= u32::MAX,
            instruction.size < old(self)@.locals.len() && location_fits(old(self)@, ReferenceType::Table, instruction.destination) && location_fits(old(self)@, ReferenceType::Elements, instruction.source),
        ensures
            copies(old(self)@, old(graph)@, final(self)@, final(graph)@, Node::TableCopy(simple::TableCopy { destination: location(old(self)@, ReferenceType::Table, instruction.destination), source: location(old(self)@, ReferenceType::Elements, instruction.source), size: old(self)@.locals[instruction.size as int] }), ReferenceType::Table, instruction.destination.reference, ReferenceType::Elements, instruction.source.reference),
            final(self).well_formed(),
    {
        let elements = self.load_location(ReferenceType::Elements, instruction.source);
        let (destination_state, source_state) = simple::TableCopy::add_into(
            graph,
            self.load_location(ReferenceType::Table, instruction.destination),
            elements,
            self.locals[instruction.size as usize],
        );
        self.dependencies.set(ReferenceType::Table, instruction.destination.reference, destination_state);
        self.dependencies.set(ReferenceType::Elements, instruction.source.reference, source_state);
    }

    /// Lifts the drop of an element segment.
    fn handle_elements_drop(&mut self, graph: &mut DataFlowGraph, instruction: ElementsDrop)
        requires
            old(self).well_formed(),
            old(graph)@.len() + 3 <= u32::MAX,
            has(old(self)@, ReferenceType::Elements, instruction.source),
        ensures
            writes(old(self)@, old(graph)@, final(self)@, final(graph)@, Node::TableDrop(simple::TableDrop { source: dependency(old(self)@, ReferenceType::Elements, instruction.source) }), ReferenceType::Elements, instruction.source),
            final(self).well_formed(),
    {
        let state = self.dependencies.get(ReferenceType::Elements, instruction.source);
        let state = simple::TableDrop::add_into(graph, state);
        self.dependencies.set(ReferenceType::Elements, instruction.source, state);
    }

    /// Lifts a memory load.
    fn handle_memory_load(&mut self, graph: &mut DataFlowGraph, instruction: MemoryLoad)
        requires
            old(self).well_formed(),
            old(graph)@.len() + 3 <= u32::MAX,
            instruction.destination < old(self)@.locals.len() && location_fits(old(self)@, ReferenceType::Memory, instruction.source),
        ensures
            reads(old(self)@, old(graph)@, final(self)@, final(graph)@, instruction.destination, Node::MemoryLoad(simple::MemoryLoad { source: location(old(self)@, ReferenceType::Memory, instruction.source), offset: instruction.offset, kind: instruction.kind }), ReferenceType::Memory, instruction.source.reference),
            final(self).well_formed(),
    {
        let state = self.load_location(ReferenceType::Memory, instruction.source);
        let (result, state) = simple::MemoryLoad::add_into(graph, state, instruction.offset, instruction.kind);
        self.locals.set(instruction.destination as usize, result);
        self.dependencies.set(ReferenceType::Memory, instruction.source.reference, state);
    }

    /// Lifts a memory store.
    fn handle_memory_store(&mut self, graph: &mut DataFlowGraph, instruction: MemoryStore)
        requires
            old(self).well_formed(),
            old(graph)@.len() + 3 <= u32::MAX,
            instruction.source < old(self)@.locals.len() && location_fits(old(self)@, ReferenceType::Memory, instruction.destination),
        ensures
            writes(old(self)@, old(graph)@, final(self)@, final(graph)@, Node::MemoryStore(simple::MemoryStore { destination: location(old(self)@, ReferenceType::Memory, instruction.destination), source: old(self)@.locals[instruction.source as int], offset: instruction.offset, kind: instruction.kind }), ReferenceType::Memory, instruction.destination.reference),
            final(self).well_formed(),
    {
        let state = simple::MemoryStore::add_into(
            graph,
            self.load_location(ReferenceType::Memory, instruction.destination),
            self.locals[instruction.source as usize],
            instruction.offset,
            instruction.kind,
        );
        self.dependencies.set(ReferenceType::Memory, instruction.destination.reference, state);
    }

    /// Lifts a memory size query.
    fn handle_memory_size(&mut self, graph: &mut DataFlowGraph, instruction: MemorySize)
        requires
            old(self).well_formed(),
            old(graph)@.len() + 3 <= u32::MAX,
            instruction.destination < old(self)@.locals.len() && has(old(self)@, ReferenceType::Memory, instruction.memory),
        ensures
            reads(old(self)@, old(graph)@, final(self)@, final(graph)@, instruction.destination, Node::MemorySize(simple::MemorySize { source: dependency(old(self)@, ReferenceType::Memory, instruction.memory) }), ReferenceType::Memory, instruction.memory),
            final(self).well_formed(),
    {
        let state = self.dependencies.get(ReferenceType::Memory, instruction.memory);
        let (result, state) = simple::MemorySize::add_into(graph, state);
        self.locals.set(instruction.destination as usize, result);
        self.dependencies.set(ReferenceType::Memory, instruction.memory, state);
    }

    /// Lifts a memory growth.
    fn handle_memory_grow(&mut self, graph: &mut DataFlowGraph, instruction: MemoryGrow)
        requires
            old(self).well_formed(),
            old(graph)@.len() + 3 <= u32::MAX,
            instruction.destination < old(self)@.locals.len() && instruction.size < old(self)@.locals.len() && has(old(self)@, ReferenceType::Memory, instruction.memory),
        ensures
            reads(old(self)@, old(graph)@, final(self)@, final(graph)@, instruction.destination, Node::MemoryGrow(simple::MemoryGrow { destination: dependency(old(self)@, ReferenceType::Memory, instruction.memory), size: old(self)@.locals[instruction.size as int] }), ReferenceType::Memory, instruction.memory),
            final(self).well_formed(),
    {
        let (result, state) = simple::MemoryGrow::add_into(
            graph,
            self.dependencies.get(ReferenceType::Memory, instruction.memory),
            self.locals[instruction.size as usize],
        );
        self.locals.set(instruction.destination as usize, result);
        self.dependencies.set(ReferenceType::Memory, instruction.memory, state);
    }

    /// Lifts a memory fill.
    fn handle_memory_fill(&mut self, graph: &mut DataFlowGraph, instruction: MemoryFill)
        requires
            old(self).well_formed(),
            old(graph)@.len() + 3 <= u32::MAX,
            instruction.byte < old(self)@.locals.len() && instruction.size < old(self)@.locals.len() && location_fits(old(self)@, ReferenceType::Memory, instruction.destination),
        ensures
            writes(old(self)@, old(graph)@, final(self)@, final(graph)@, Node::MemoryFill(simple::MemoryFill { destination: location(old(self)@, ReferenceType::Memory, instruction.destination), byte: old(self)@.locals[instruction.byte as int], size: old(self)@.locals[instruction.size as int] }), ReferenceType::Memory, instruction.destination.reference),
            final(self).well_formed(),
    {
        let state = simple::MemoryFill::add_into(
            graph,
            self.load_location(ReferenceType::Memory, instruction.destination),
            self.locals[instruction.byte as usize],
            self.locals[instruction.size as usize],
        );
        self.dependencies.set(ReferenceType::Memory, instruction.destination.reference, state);
    }

    /// Lifts a copy between memories.
    fn handle_memory_copy(&mut self, graph: &mut DataFlowGraph, instruction: MemoryCopy)
        requires
            old(self).well_formed(),
            old(graph)@.len() + 3 <= u32::MAX,
            instruction.size < old(self)@.locals.len() && location_fits(old(self)@, ReferenceType::Memory, instruction.destination) && location_fits(old(self)@, ReferenceType::Memory, instruction.source),
        ensures
            copies(old(self)@, old(graph)@, final(self)@, final(graph)@, Node::MemoryCopy(simple::MemoryCopy { destination: location(old(self)@, ReferenceType::Memory, instruction.destination), source: location(old(self)@, ReferenceType::Memory, instruction.source), size: old(self)@.locals[instruction.size as int] }), ReferenceType::Memory, instruction.destination.reference, ReferenceType::Memory, instruction.source.reference),
            final(self).well_formed(),
    {
        let (destination_state, source_state) = simple::MemoryCopy::add_into(
            graph,
            self.load_location(ReferenceType::Memory, instruction.destination),
            self.load_location(ReferenceType::Memory, instruction.source),
            self.locals[instruction.size as usize],
        );
        self.dependencies.set(ReferenceType::Memory, instruction.destination.reference, destination_state);
        self.dependencies.set(ReferenceType::Memory, instruction.source.reference, source_state);
    }

    /// Lifts a copy from a data segment into a memory.
    fn handle_memory_init(&mut self, graph: &mut DataFlowGraph, instruction: MemoryInit)
        requires
            old(self).well_formed(),
            old(graph)@.len() + 3 <= u32::MAX,
            instruction.size < old(self)@.locals.len() && location_fits(old(self)@, ReferenceType::Memory, instruction.destination) && location_fits(old(self)@, ReferenceType::Data, instruction.source),
        ensures
            copies(old(self)@, old(graph)@, final(self)@, final(graph)@, Node::MemoryCopy(simple::MemoryCopy { destination: location(old(self)@, ReferenceType::Memory, instruction.destination), source: location(old(self)@, ReferenceType::Data, instruction.source), size: old(self)@.locals[instruction.size as int] }), ReferenceType::Memory, instruction.destination.reference, ReferenceType::Data, instruction.source.reference),
            final(self).well_formed(),
    {
        let (destination_state, source_state) = simple::MemoryCopy::add_into(
            graph,
            self.load_location(ReferenceType::Memory, instruction.destination),
            self.load_location(ReferenceType::Data, instruction.source),
            self.locals[instruction.size as usize],
        );
        self.dependencies.set(ReferenceType::Memory, instruction.destination.reference, destination_state);
        self.dependencies.set(ReferenceType::Data, instruction.source.reference, source_state);
    }

    /// Lifts the drop of a data segment.
    fn handle_data_drop(&mut self, graph: &mut DataFlowGraph, instruction: DataDrop)
        requires
            old(self).well_formed(),
            old(graph)@.len() + 3 <= u32::MAX,
            has(old(self)@, ReferenceType::Data, instruction.source),
        ensures
            writes(old(self)@, old(graph)@, final(self)@, final(graph)@, Node::MemoryDrop(simple::MemoryDrop { source: dependency(old(self)@, ReferenceType::Data, instruction.source) }), ReferenceType::Data, instruction.source),
            final(self).well_formed(),
    {
        let state = self.dependencies.get(ReferenceType::Data, instruction.source);
        let state = simple::MemoryDrop::add_into(graph, state);
        self.dependencies.set(ReferenceType::Data, instruction.source, state);
    }

    /// Lifts one instruction.
    fn handle_instruction(&mut self, graph: &mut DataFlowGraph, types: &Types, instruction: Instruction)
        requires
            old(self).well_formed(),
            old(graph)@.len() + 3 <= u32::MAX,
            fits(old(self)@, types.keys(), instruction),
        ensures
            lifted(old(self)@, old(graph)@, types.keys(), instruction, final(self)@, final(graph)@),
            final(self).well_formed(),
            final(self)@.locals.len() == old(self)@.locals.len(),
            final(self)@.keys == old(self)@.keys,
            old(graph)@.len() <= final(graph)@.len() <= old(graph)@.len() + 3,
    {
        match instruction {
            Instruction::LocalSet(instruction) => self.handle_local_set(instruction),
            Instruction::LocalBranch(instruction) => self.handle_local_branch(instruction),
            Instruction::I32Constant(instruction) => self.handle_i32_constant(graph, instruction),
            Instruction::I64Constant(instruction) => self.handle_i64_constant(graph, instruction),
            Instruction::F32Constant(instruction) => self.handle_f32_constant(graph, instruction),
            Instruction::F64Constant(instruction) => self.handle_f64_constant(graph, instruction),
            Instruction::RefIsNull(instruction) => self.handle_ref_is_null(graph, instruction),
            Instruction::RefNull(instruction) => self.handle_ref_null(graph, instruction),
            Instruction::RefFunction(instruction) => self.handle_ref_function(graph, instruction),
            Instruction::Call(instruction) => self.handle_call(graph, instruction),
            Instruction::Unreachable => self.handle_unreachable(graph),
            Instruction::IntegerUnaryOperation(instruction) => self.handle_integer_unary_operation(graph, instruction),
            Instruction::IntegerBinaryOperation(instruction) => self.handle_integer_binary_operation(graph, instruction),
            Instruction::IntegerCompareOperation(instruction) => self.handle_integer_compare_operation(graph, instruction),
            Instruction::IntegerNarrow(instruction) => self.handle_integer_narrow(graph, instruction),
            Instruction::IntegerWiden(instruction) => self.handle_integer_widen(graph, instruction),
            Instruction::IntegerExtend(instruction) => self.handle_integer_extend(graph, instruction),
            Instruction::IntegerConvertToNumber(instruction) => self.handle_integer_convert_to_number(graph, instruction),
            Instruction::IntegerTransmuteToNumber(instruction) => self.handle_integer_transmute_to_number(graph, instruction),
            Instruction::NumberUnaryOperation(instruction) => self.handle_number_unary_operation(graph, instruction),
            Instruction::NumberBinaryOperation(instruction) => self.handle_number_binary_operation(graph, instruction),
            Instruction::NumberCompareOperation(instruction) => self.handle_number_compare_operation(graph, instruction),
            Instruction::NumberNarrow(instruction) => self.handle_number_narrow(graph, instruction),
            Instruction::NumberWiden(instruction) => self.handle_number_widen(graph, instruction),
            Instruction::NumberTruncateToInteger(instruction) => self.handle_number_truncate_to_integer(graph, instruction),
            Instruction::NumberTransmuteToInteger(instruction) => self.handle_number_transmute_to_integer(graph, instruction),
            Instruction::GlobalGet(instruction) => self.handle_global_get(graph, instruction),
            Instruction::GlobalSet(instruction) => self.handle_global_set(graph, instruction),
            Instruction::TableGet(instruction) => self.handle_table_get(graph, types, instruction),
            Instruction::TableSet(instruction) => self.handle_table_set(graph, instruction),
            Instruction::TableSize(instruction) => self.handle_table_size(graph, instruction),
            Instruction::TableGrow(instruction) => self.handle_table_grow(graph, instruction),
            Instruction::TableFill(instruction) => self.handle_table_fill(graph, instruction),
            Instruction::TableCopy(instruction) => self.handle_table_copy(graph, instruction),
            Instruction::TableInit(instruction) => self.handle_table_init(graph, instruction),
            Instruction::ElementsDrop(instruction) => self.handle_elements_drop(graph, instruction),
            Instruction::MemoryLoad(instruction) => self.handle_memory_load(graph, instruction),
            Instruction::MemoryStore(instruction) => self.handle_memory_store(graph, instruction),
            Instruction::MemorySize(instruction) => self.handle_memory_size(graph, instruction),
            Instruction::MemoryGrow(instruction) => self.handle_memory_grow(graph, instruction),
            Instruction::MemoryFill(instruction) => self.handle_memory_fill(graph, instruction),
            Instruction::MemoryCopy(instruction) => self.handle_memory_copy(graph, instruction),
            Instruction::MemoryInit(instruction) => self.handle_memory_init(graph, instruction),
            Instruction::DataDrop(instruction) => self.handle_data_drop(graph, instruction),
        }
    }

    /// Lifts each of `instructions` in turn.
    pub fn run(&mut self, graph: &mut DataFlowGraph, types: &Types, instructions: &[Instruction])
        requires
            old(self).well_formed(),
            old(graph)@.len() + 3 * instructions@.len() <= u32::MAX,
            forall|k: int| 0 <= k < instructions@.len() ==> fits(old(self)@, types.keys(), #[trigger] instructions@[k]),
        ensures
            final(self).well_formed(),
            exists|states: Seq<LifterState>, graphs: Seq<Seq<Node>>|
                {
                    &&& lifted_all(states, graphs, types.keys(), instructions@)
                    &&& states[0] == old(self)@
                    &&& graphs[0] == old(graph)@
                    &&& states.last() == final(self)@
                    &&& graphs.last() == final(graph)@
                },
    {
        let ghost mut states: Seq<LifterState> = seq![self@];
        let ghost mut graphs: Seq<Seq<Node>> = seq![graph@];
        let ghost first = self@;
        let mut k: usize = 0;
        while k < instructions.len()
            invariant
                self.well_formed(),
                k <= instructions@.len(),
                self@.locals.len() == first.locals.len(),
                self@.keys == first.keys,
                graph@.len() <= old(graph)@.len() + 3 * k,
                old(graph)@.len() + 3 * instructions@.len() <= u32::MAX,
                forall|j: int| 0 <= j < instructions@.len() ==> fits(first, types.keys(), #[trigger] instructions@[j]),
                lifted_all(states, graphs, types.keys(), instructions@.take(k as int)),
                states[0] == first,
                graphs[0] == old(graph)@,
                states.last() == self@,
                graphs.last() == graph@,
            decreases instructions@.len() - k,
        {
            let instruction = instructions[k];
            proof {
                assert(fits(first, types.keys(), instructions@[k as int]));
                lemma_fits_same_shape(first, self@, types.keys(), instruction);
            }
            let ghost before = self@;
            let ghost graph_before = graph@;
            self.handle_instruction(graph, types, instruction);
            proof {
                let old_states = states;
                let old_graphs = graphs;
                states = states.push(self@);
                graphs = graphs.push(graph@);
                assert forall|j: int| 0 <= j < k + 1 implies lifted(
                    states[j],
                    graphs[j],
                    types.keys(),
                    #[trigger] instructions@.take(k + 1)[j],
                    states[j + 1],
                    graphs[j + 1],
                ) by {
                    if j < k {
                        assert(instructions@.take(k as int)[j] == instructions@.take(k + 1)[j]);
                        assert(states[j] == old_states[j] && states[j + 1] == old_states[j + 1]);
                        assert(graphs[j] == old_graphs[j] && graphs[j + 1] == old_graphs[j + 1]);
                    } else {
                        assert(instructions@.take(k + 1)[j] == instruction);
                    }
                }
            }
            k = k + 1;
        }
        proof {
            assert(instructions@.take(k as int) =~= instructions@);
        }
    }
}

/// Lifting one instruction only appends nodes to the graph, and keeps the
/// number of registers and the entities the function refers to.
pub proof fn lemma_lifting_step_appends(
    before: LifterState,
    graph: Seq<Node>,
    keys: Seq<String>,
    instruction: Instruction,
    after: LifterState,
    graph_after: Seq<Node>,
)
    requires
        fits(before, keys, instruction),
        lifted(before, graph, keys, instruction, after, graph_after),
    ensures
        extends(graph, graph_after),
        after.locals.len() == before.locals.len(),
        after.keys == before.keys,
{
    assert forall|j: int| 0 <= j < graph.len() implies graph_after[j] == graph[j] by {
        if graph_after.len() >= graph.len() {
            assert(graph_after.take(graph.len() as int)[j] == graph_after[j]);
        }
        if graph_after.len() >= graph.len() + 1 {
            assert(graph_after.take(graph.len() as int + 1)[j] == graph_after[j]);
        }
        match instruction {
            Instruction::Call(call) => {
                let start = graph.len() as int;
                assert(graph_after.take(start)[j] == graph_after[j]);
            },
            _ => {},
        }
    }
    match instruction {
        Instruction::Call(call) => {
            let start = graph.len() as int;
            assert(graph_after.take(start + 2).len() == start + 2);
        },
        _ => {},
    }
}

/// Lifting a block only appends nodes to the graph, and keeps the number of
/// registers and the entities the function refers to.
pub proof fn lemma_lifting_appends(
    states: Seq<LifterState>,
    graphs: Seq<Seq<Node>>,
    keys: Seq<String>,
    instructions: Seq<Instruction>,
)
    requires
        lifted_all(states, graphs, keys, instructions),
        forall|k: int| 0 <= k < instructions.len() ==> fits(states[0], keys, #[trigger] instructions[k]),
    ensures
        extends(graphs[0], graphs.last()),
        states.last().locals.len() == states[0].locals.len(),
        states.last().keys == states[0].keys,
    decreases instructions.len(),
{
    let n = instructions.len();
    if n > 0 {
        let front = instructions.drop_last();
        assert forall|k: int| 0 <= k < front.len() implies lifted(
            states.drop_last()[k],
            graphs.drop_last()[k],
            keys,
            #[trigger] front[k],
            states.drop_last()[k + 1],
            graphs.drop_last()[k + 1],
        ) by {
            assert(front[k] == instructions[k]);
            assert(lifted(states[k], graphs[k], keys, instructions[k], states[k + 1], graphs[k + 1]));
        }
        assert forall|k: int| 0 <= k < front.len() implies fits(states.drop_last()[0], keys, #[trigger] front[k]) by {
            assert(front[k] == instructions[k]);
        }
        lemma_lifting_appends(states.drop_last(), graphs.drop_last(), keys, front);
        assert(lifted(states[n - 1], graphs[n - 1], keys, instructions[n - 1], states[n as int], graphs[n as int]));
        assert(fits(states[0], keys, instructions[n - 1]));
        lemma_fits_same_shape(states[0], states[n - 1], keys, instructions[n - 1]);
        lemma_lifting_step_appends(states[n - 1], graphs[n - 1], keys, instructions[n - 1], states[n as int], graphs[n as int]);
    }
}

/// Whether `instruction` fits a state depends only on its number of
/// registers and on its entities.
proof fn lemma_fits_same_shape(first: LifterState, state: LifterState, keys: Seq<String>, instruction: Instruction)
    requires
        fits(first, keys, instruction),
        state.locals.len() == first.locals.len(),
        state.keys == first.keys,
    ensures
        fits(state, keys, instruction),
{
}

} // verus!
