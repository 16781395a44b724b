use spider::allocator::argument_finder::{get_region_range, ArgumentFinder};
use spider::allocator::declaration_map::DeclarationMap;
use spider::allocator::local_allocator::LocalAllocator;
use spider::allocator::local_map::LocalMap;
use spider::graph::simple::{IntegerBinaryOperation, IntegerBinaryOperator, IntegerType};
use spider::graph::{DataFlowGraph, Link, Node};
use spider::turing_machine::TuringMachineLifter;
use spider::visitor::link_map::LinkMap;

fn sum_graph() -> DataFlowGraph {
    let mut graph = DataFlowGraph::new();
    let lhs = Node::add_i32_into(&mut graph, 1);
    let rhs = Node::add_i32_into(&mut graph, 2);
    IntegerBinaryOperation::add_into(&mut graph, lhs, rhs, IntegerType::I32, IntegerBinaryOperator::Add);
    graph
}

#[test]
fn preferred_arguments_are_collected_and_the_others_followed() {
    let graph = sum_graph();
    let mut preferences = LinkMap::new();
    preferences.insert(Link(1, 0).into_u64(), Link(9, 9));

    let mut finder = ArgumentFinder::new();
    let mut arguments = Vec::new();
    finder.run(&mut arguments, &preferences, &graph, 2);

    assert_eq!(arguments, vec![(Link(1, 0), Link(9, 9))]);
}

#[test]
fn visited_nodes_are_not_walked_again() {
    let graph = sum_graph();
    let mut preferences = LinkMap::new();
    preferences.insert(Link(0, 0).into_u64(), Link(9, 9));

    let mut finder = ArgumentFinder::new();
    let mut arguments = Vec::new();
    finder.run(&mut arguments, &preferences, &graph, 2);
    assert_eq!(arguments, vec![(Link(0, 0), Link(9, 9))]);

    finder.run(&mut arguments, &preferences, &graph, 2);
    assert!(arguments.is_empty());

    finder.clear();
    finder.run(&mut arguments, &preferences, &graph, 2);
    assert_eq!(arguments, vec![(Link(0, 0), Link(9, 9))]);
}

#[test]
fn a_module_end_has_its_range() {
    let mut graph = DataFlowGraph::new();
    let end = TuringMachineLifter::new().run(&mut graph, "+");

    assert_eq!(get_region_range(&graph, graph.get(end)), Some((0, end)));
    assert_eq!(get_region_range(&graph, graph.get(1)), None);
}

#[test]
fn each_function_declares_its_locals() {
    let mut graph = DataFlowGraph::new();
    let end = TuringMachineLifter::new().run(&mut graph, "+.");

    let mut allocator = LocalAllocator::new();
    let mut declarations = DeclarationMap::new();
    let mut assignments = LocalMap::new();
    assert!(allocator.run(&mut declarations, &mut assignments, &graph));

    let (first, last, stack) = declarations.get(0).expect("the module is a function");
    assert_eq!(first, 0);
    assert!(first <= last);
    assert_eq!(stack, 0);
    assert_eq!(declarations.get(end), None);
}

#[test]
fn running_again_gives_the_same_declarations() {
    let mut graph = DataFlowGraph::new();
    TuringMachineLifter::new().run(&mut graph, "+[-]");

    let mut allocator = LocalAllocator::new();
    let mut declarations = DeclarationMap::new();
    let mut assignments = LocalMap::new();
    assert!(allocator.run(&mut declarations, &mut assignments, &graph));
    let once = declarations.get(0);

    assert!(allocator.run(&mut declarations, &mut assignments, &graph));
    assert_eq!(declarations.get(0), once);
}
