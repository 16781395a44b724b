use spider::graph::{DataFlowGraph, Link, Node};
use spider::lifter::basic_block_lifter::BasicBlockLifter;
use spider::lifter::dependency_map::DependencyMap;
use spider::liveness::references::{Reference, ReferenceType};
use spider::wasm::instruction::{
    Call, GlobalGet, GlobalSet, I32Constant, Instruction, IntegerBinaryOperation, IntegerBinaryOperator,
    IntegerType, LocalBranch, LocalSet, RefFunction,
};
use spider::wasm::types::Types;

fn global(index: u16) -> Reference {
    Reference { kind: ReferenceType::Global, index }
}

fn function(index: u16) -> Reference {
    Reference { kind: ReferenceType::Function, index }
}

#[test]
fn dependencies_take_consecutive_ports() {
    let mut map = DependencyMap::new();
    map.fill_keys(&[global(0), function(3), global(1)]);

    assert_eq!(map.get(ReferenceType::Global, 1), Link::dangling());

    let next = map.set_all_from(9, 2);

    assert_eq!(next, 5);
    assert_eq!(map.get(ReferenceType::Global, 0), Link(9, 2));
    assert_eq!(map.get(ReferenceType::Function, 3), Link(9, 3));
    assert_eq!(map.get(ReferenceType::Global, 1), Link(9, 4));
    assert_eq!(map.count(), 3);
}

#[test]
fn only_changing_dependencies_pass_through_fences() {
    let mut map = DependencyMap::new();
    map.fill_keys(&[global(0), function(3), global(1)]);
    map.set_all_from(9, 0);

    assert_eq!(map.mutable_count(), 2);

    let mut states = Vec::new();
    map.get_mutable_into(&mut states);
    assert_eq!(states, vec![Link(9, 0), Link(9, 2)]);

    map.set_mutable_from(4, 1);
    assert_eq!(map.get(ReferenceType::Global, 0), Link(4, 1));
    assert_eq!(map.get(ReferenceType::Function, 3), Link(9, 1));
    assert_eq!(map.get(ReferenceType::Global, 1), Link(4, 2));

    let mut all = Vec::new();
    map.get_all_into(&mut all);
    assert_eq!(all, vec![Link(4, 1), Link(9, 1), Link(4, 2)]);
}

#[test]
fn setting_a_dependency_leaves_the_others() {
    let mut map = DependencyMap::new();
    map.fill_keys(&[global(0), global(1)]);
    map.set_all_from(1, 0);
    map.set(ReferenceType::Global, 1, Link(8, 8));

    assert_eq!(map.get(ReferenceType::Global, 0), Link(1, 0));
    assert_eq!(map.get(ReferenceType::Global, 1), Link(8, 8));
}

fn started(arguments: usize) -> BasicBlockLifter {
    let mut lifter = BasicBlockLifter::new();
    lifter.set_function_inputs(7, arguments, &[global(0), function(1)]);
    lifter
}

#[test]
fn function_inputs_follow_the_dependencies() {
    let lifter = started(2);

    let bindings = lifter.get_active_bindings(&[0, 4, 5]);
    assert_eq!(
        bindings,
        vec![Link(7, 0), Link(7, 1), Link::dangling(), Link(7, 2), Link(7, 3), Link(7, 4)],
    );
}

#[test]
fn local_types_get_zero_constants() {
    let mut graph = DataFlowGraph::new();
    let mut lifter = started(0);
    lifter.set_local_types(&mut graph, &[spider::graph::control::ValueType::I64, spider::graph::control::ValueType::Reference]);

    assert_eq!(graph.len(), 2);
    assert!(matches!(graph.get(0), Node::I64(0)));
    assert!(matches!(graph.get(1), Node::Null));
    assert_eq!(lifter.get_active_bindings(&[4, 5]), vec![Link(7, 0), Link(7, 1), Link(0, 0), Link(1, 0), Link(7, 2)]);
}

#[test]
fn the_stack_is_sized_and_the_reserved_registers_zeroed() {
    let mut graph = DataFlowGraph::new();
    let mut lifter = started(1);
    lifter.set_stack_size(&mut graph, 7);

    assert_eq!(graph.len(), 2);
    assert!(matches!(graph.get(0), Node::Null));
    assert!(matches!(graph.get(1), Node::I32(0)));
    let bindings = lifter.get_active_bindings(&[0, 3, 4, 5, 6]);
    assert_eq!(
        bindings,
        vec![Link(7, 0), Link(7, 1), Link(1, 0), Link(1, 0), Link(7, 2), Link(0, 0), Link(0, 0), Link(7, 3)],
    );
}

#[test]
fn constants_and_copies_move_between_registers() {
    let mut graph = DataFlowGraph::new();
    let mut lifter = started(2);
    let types = Types::new();
    lifter.run(
        &mut graph,
        &types,
        &[
            Instruction::I32Constant(I32Constant { destination: 4, data: 42 }),
            Instruction::LocalSet(LocalSet { destination: 5, source: 4 }),
            Instruction::LocalBranch(LocalBranch { source: 5 }),
        ],
    );

    assert_eq!(graph.len(), 1);
    assert!(matches!(graph.get(0), Node::I32(42)));
    assert_eq!(lifter.get_condition(), Link(0, 0));
    assert_eq!(lifter.get_active_bindings(&[4, 5]), vec![Link(7, 0), Link(7, 1), Link(0, 0), Link(0, 0), Link(7, 4)]);
}

#[test]
fn a_division_is_pinned_to_the_trap_state() {
    let mut graph = DataFlowGraph::new();
    let mut lifter = started(2);
    let types = Types::new();
    lifter.run(
        &mut graph,
        &types,
        &[Instruction::IntegerBinaryOperation(IntegerBinaryOperation {
            destination: 4,
            lhs: 4,
            rhs: 5,
            kind: IntegerType::I32,
            operator: IntegerBinaryOperator::Divide { signed: true },
        })],
    );

    assert_eq!(graph.len(), 2);
    let Node::IntegerBinaryOperation(division) = graph.get(0) else { panic!("the division should come first") };
    assert_eq!(division.lhs, Link(7, 2));
    assert_eq!(division.rhs, Link(7, 3));
    let Node::Fence(fence) = graph.get(1) else { panic!("the division should be fenced") };
    assert_eq!(fence.sources, vec![Link(7, 4), Link(0, 0)]);
    assert_eq!(lifter.get_active_bindings(&[4]), vec![Link(7, 0), Link(7, 1), Link(0, 0), Link(1, 0)]);
}

#[test]
fn an_addition_is_not_pinned() {
    let mut graph = DataFlowGraph::new();
    let mut lifter = started(2);
    lifter.run(
        &mut graph,
        &Types::new(),
        &[Instruction::IntegerBinaryOperation(IntegerBinaryOperation {
            destination: 5,
            lhs: 4,
            rhs: 5,
            kind: IntegerType::I64,
            operator: IntegerBinaryOperator::Add,
        })],
    );

    assert_eq!(graph.len(), 1);
    assert_eq!(lifter.get_active_bindings(&[5]), vec![Link(7, 0), Link(7, 1), Link(0, 0), Link(7, 4)]);
}

#[test]
fn globals_thread_their_state() {
    let mut graph = DataFlowGraph::new();
    let mut lifter = started(1);
    lifter.run(
        &mut graph,
        &Types::new(),
        &[
            Instruction::GlobalGet(GlobalGet { destination: 4, source: 0 }),
            Instruction::GlobalSet(GlobalSet { destination: 0, source: 4 }),
            Instruction::RefFunction(RefFunction { destination: 4, function: 1 }),
        ],
    );

    assert_eq!(graph.len(), 3);
    let Node::GlobalGet(read) = graph.get(0) else { panic!("the read comes first") };
    assert_eq!(read.source, Link(7, 0));
    let Node::GlobalSet(write) = graph.get(1) else { panic!("the write comes second") };
    assert_eq!(write.destination, Link(0, 1));
    assert_eq!(write.source, Link(0, 0));
    let Node::GlobalGet(function) = graph.get(2) else { panic!("the function reference reads its state") };
    assert_eq!(function.source, Link(7, 1));
    assert_eq!(lifter.get_active_bindings(&[4]), vec![Link(1, 0), Link(7, 1), Link(2, 0), Link(7, 3)]);
}

#[test]
fn a_call_is_fenced_on_both_sides() {
    let mut graph = DataFlowGraph::new();
    let mut lifter = started(3);
    lifter.run(
        &mut graph,
        &Types::new(),
        &[Instruction::Call(Call { destinations: (4, 6), sources: (5, 7), function: 4 })],
    );

    assert_eq!(graph.len(), 3);
    let Node::Fence(before) = graph.get(0) else { panic!("the call is fenced before") };
    assert_eq!(before.sources, vec![Link(7, 5), Link(7, 0)]);
    let Node::Apply(apply) = graph.get(1) else { panic!("the call applies its function") };
    assert_eq!(apply.function, Link(7, 2));
    assert_eq!(apply.arguments, vec![Link(7, 3), Link(7, 4), Link(0, 0)]);
    assert_eq!(apply.results, 2);
    let Node::Fence(after) = graph.get(2) else { panic!("the call is fenced after") };
    assert_eq!(after.sources, vec![Link(1, 2), Link(0, 1)]);
    assert_eq!(
        lifter.get_active_bindings(&[4, 5, 6]),
        vec![Link(2, 1), Link(7, 1), Link(1, 0), Link(1, 1), Link(7, 4), Link(2, 0)],
    );
}

#[test]
fn function_outputs_follow_the_reserved_registers() {
    let mut graph = DataFlowGraph::new();
    let mut lifter = started(2);
    let outputs = lifter.get_function_outputs(&mut graph, 1);

    assert_eq!(outputs, vec![Link(7, 2), Link(0, 0)]);
    let Node::Fence(fence) = graph.get(0) else { panic!("the outputs are fenced") };
    assert_eq!(fence.sources, vec![Link(7, 4), Link(7, 0)]);
}

#[test]
fn active_bindings_come_from_one_producer() {
    let mut lifter = started(2);
    lifter.set_active_bindings(3, &[5, 4]);

    assert_eq!(
        lifter.get_active_bindings(&[4, 5]),
        vec![Link(3, 0), Link(3, 1), Link(3, 3), Link(3, 2), Link(3, 4)],
    );
}

#[test]
fn types_number_their_functions() {
    let mut types = Types::new();
    types.add_function(3);
    types.add_function(1);

    assert_eq!(types.get_function_index(0), 3);
    assert_eq!(types.get_function_index(1), 1);
}
