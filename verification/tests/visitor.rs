use spider::graph::{
    control::{ThetaIn, ThetaOut},
    simple::{
        Identity, IntegerBinaryOperation, IntegerBinaryOperator, IntegerType,
        IntegerUnaryOperation, IntegerUnaryOperator,
    },
    DataFlowGraph, Link, Node,
};
use spider::visitor::constant_isolator::ConstantIsolator;
use spider::visitor::invariant_port_mover::InvariantPortMover;
use spider::visitor::isle::find_first_producer;
use spider::visitor::region_identity::{insert, remove};

// A loop whose only port passes its argument through unchanged, and a reader
// of the loop's result after it.
fn invariant_loop() -> (DataFlowGraph, u32, u32) {
    let mut graph = DataFlowGraph::new();
    let constant = graph.add_node(Node::I32(5));
    let condition = graph.add_node(Node::I32(1));
    let theta_in = graph.add_node(Node::ThetaIn(ThetaIn { output: 3, arguments: vec![Link(constant, 0)] }));
    let theta_out = graph.add_node(Node::ThetaOut(ThetaOut {
        input: theta_in,
        results: vec![Link(theta_in, 0)],
        condition: Link(condition, 0),
    }));
    let reader = graph.add_node(Node::IntegerUnaryOperation(IntegerUnaryOperation {
        source: Link(theta_out, 0),
        kind: IntegerType::I32,
        operator: IntegerUnaryOperator::CountOnes,
    }));

    (graph, constant, reader)
}

#[test]
fn each_consumer_gets_its_own_constant() {
    let mut graph = DataFlowGraph::new();
    let constant = graph.add_node(Node::I32(7));
    let sum = graph.add_node(Node::IntegerBinaryOperation(IntegerBinaryOperation {
        lhs: Link(constant, 0),
        rhs: Link(constant, 0),
        kind: IntegerType::I32,
        operator: IntegerBinaryOperator::Add,
    }));

    ConstantIsolator::new().run(&mut graph);

    assert_eq!(graph.len(), 3);
    assert!(matches!(graph.get(2), Node::I32(7)));
    let Node::IntegerBinaryOperation(operation) = graph.get(sum) else {
        panic!("the sum should stay an operation")
    };
    assert_eq!(operation.lhs, Link(constant, 0));
    assert_eq!(operation.rhs, Link(2, 0));
}

#[test]
fn a_single_consumer_keeps_its_constant() {
    let mut graph = DataFlowGraph::new();
    let constant = graph.add_node(Node::I64(-3));
    graph.add_node(Node::IntegerUnaryOperation(IntegerUnaryOperation {
        source: Link(constant, 0),
        kind: IntegerType::I64,
        operator: IntegerUnaryOperator::LeadingZeroes,
    }));

    ConstantIsolator::new().run(&mut graph);

    assert_eq!(graph.len(), 2);
}

#[test]
fn loop_invariant_ports_are_read_from_outside() {
    let (mut graph, constant, reader) = invariant_loop();

    assert!(InvariantPortMover::new().run(&mut graph));

    let Node::IntegerUnaryOperation(operation) = graph.get(reader) else {
        panic!("the reader should stay an operation")
    };
    assert_eq!(operation.source, Link(constant, 0));

    // A second run finds nothing left to move.
    assert!(!InvariantPortMover::new().run(&mut graph));
}

#[test]
fn identities_are_inserted_and_removed_again() {
    let (mut graph, constant, _) = invariant_loop();

    insert(&mut graph);

    assert_eq!(graph.len(), 7);
    let Node::ThetaIn(theta_in) = graph.get(2) else { panic!("the theta input should stay") };
    assert_eq!(theta_in.arguments, vec![Link(5, 0)]);
    let Node::Identity(identity) = graph.get(5) else { panic!("an identity should be appended") };
    assert_eq!(identity.sources, vec![Link(constant, 0)]);
    let Node::ThetaOut(theta_out) = graph.get(3) else { panic!("the theta output should stay") };
    assert_eq!(theta_out.results, vec![Link(6, 0)]);

    assert!(remove(&mut graph));

    let Node::ThetaIn(theta_in) = graph.get(2) else { panic!("the theta input should stay") };
    assert_eq!(theta_in.arguments, vec![Link(constant, 0)]);
    let Node::ThetaOut(theta_out) = graph.get(3) else { panic!("the theta output should stay") };
    assert_eq!(theta_out.results, vec![Link(2, 0)]);
    assert!(!remove(&mut graph));
}

#[test]
fn producers_are_found_through_identities() {
    let mut graph = DataFlowGraph::new();
    let constant = graph.add_node(Node::I32(1));
    let first = graph.add_node(Node::Identity(Identity { sources: vec![Link(constant, 0)] }));
    let second = graph.add_node(Node::Identity(Identity { sources: vec![Link(first, 0)] }));

    assert_eq!(find_first_producer(&graph, Link(second, 0)), Link(constant, 0));
    assert_eq!(find_first_producer(&graph, Link(constant, 0)), Link(constant, 0));
    assert_eq!(find_first_producer(&graph, Link(second, 1)), Link(second, 1));
}

#[test]
fn integer_arithmetic_wraps() {
    let graph = DataFlowGraph::new();

    assert_eq!(graph.raw_add_i32(i32::MAX, 1), i32::MIN);
    assert_eq!(graph.raw_sub_i32(i32::MIN, 1), i32::MAX);
    assert_eq!(graph.raw_add_i32(2, 3), 5);
}

#[test]
fn constants_are_read_back() {
    let mut graph = DataFlowGraph::new();
    let small = graph.add_i32(-4);
    let large = graph.add_i64(1 << 40);

    assert_eq!(graph.get_i32(small), Some(-4));
    assert_eq!(graph.get_i32(large), None);
    assert_eq!(graph.get_i64(large), Some(1 << 40));
}

#[test]
fn a_node_added_by_a_rewrite_is_moved_into_place() {
    let mut graph = DataFlowGraph::new();
    let lhs = graph.add_node(Node::I32(2));
    let rhs = graph.add_node(Node::I32(3));
    let destination = graph.add_node(Node::IntegerBinaryOperation(IntegerBinaryOperation {
        lhs: Link(lhs, 0),
        rhs: Link(rhs, 0),
        kind: IntegerType::I32,
        operator: IntegerBinaryOperator::Add,
    }));
    let added = spider::visitor::isle::next_id(&graph);
    let folded = graph.add_i32(5);

    spider::visitor::isle::replace_node(&mut graph, destination, &[folded], added);

    assert!(matches!(graph.get(destination), Node::I32(5)));
    assert!(matches!(graph.get(folded.0), Node::Trap));
}

#[test]
fn an_existing_source_is_forwarded_not_moved() {
    let mut graph = DataFlowGraph::new();
    let zero = graph.add_node(Node::I32(0));
    let destination = graph.add_node(Node::Null);
    let operand = graph.add_node(Node::Null);
    let added = spider::visitor::isle::next_id(&graph);

    spider::visitor::isle::replace_node(&mut graph, destination, &[Link(operand, 0)], added);

    let Node::Identity(identity) = graph.get(destination) else {
        panic!("destination should forward to the operand")
    };
    assert_eq!(identity.sources, vec![Link(operand, 0)]);
    assert!(matches!(graph.get(operand), Node::Null));
    assert!(matches!(graph.get(zero), Node::I32(0)));
}
