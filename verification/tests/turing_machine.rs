use spider::graph::{DataFlowGraph, Link, Node};
use spider::turing_machine::TuringMachineLifter;

#[test]
fn a_program_is_framed_by_its_omega_nodes() {
    let mut graph = DataFlowGraph::new();
    let omega_out = TuringMachineLifter::new().run(&mut graph, "+.");

    assert_eq!(omega_out, 11);
    assert_eq!(graph.len(), 12);

    let Node::OmegaIn(omega_in) = graph.get(0) else { panic!("the program should open with an omega input") };
    assert_eq!(omega_in.output, omega_out);

    let Node::OmegaOut(node) = graph.get(omega_out) else { panic!("the program should close with an omega output") };
    assert_eq!(node.input, 0);
    assert_eq!(node.state, Link(10, 0));
    assert!(node.exports.is_empty());
}

#[test]
fn a_cell_increment_loads_adds_and_stores() {
    let mut graph = DataFlowGraph::new();
    TuringMachineLifter::new().run(&mut graph, "+");

    assert!(matches!(graph.get(5), Node::MemoryLoad(_)));
    assert!(matches!(graph.get(6), Node::I32(1)));
    let Node::IntegerBinaryOperation(sum) = graph.get(7) else { panic!("the increment should add") };
    assert_eq!(sum.lhs, Link(5, 0));
    assert_eq!(sum.rhs, Link(6, 0));
    let Node::MemoryStore(store) = graph.get(8) else { panic!("the sum should be stored") };
    assert_eq!(store.source, Link(7, 0));
    assert_eq!(store.destination.reference, Link(5, 1));
}

#[test]
fn head_moves_step_by_a_cell() {
    let mut graph = DataFlowGraph::new();
    TuringMachineLifter::new().run(&mut graph, "><");

    assert!(matches!(graph.get(5), Node::I32(4)));
    let Node::IntegerBinaryOperation(right) = graph.get(6) else { panic!("a move should be arithmetic") };
    assert_eq!(right.lhs, Link(2, 0));
    let Node::IntegerBinaryOperation(left) = graph.get(8) else { panic!("a move should be arithmetic") };
    assert_eq!(left.lhs, Link(6, 0));
}

#[test]
fn a_loop_becomes_a_gamma_around_a_theta() {
    let mut graph = DataFlowGraph::new();
    let omega_out = TuringMachineLifter::new().run(&mut graph, "[-]");

    assert_eq!(omega_out, 23);
    let Node::GammaIn(gamma_in) = graph.get(8) else { panic!("the loop should open with a gamma") };
    assert_eq!(gamma_in.output, 22);
    let Node::ThetaIn(theta_in) = graph.get(10) else { panic!("the loop body should be a theta") };
    assert_eq!(theta_in.output, 18);
    let Node::GammaOut(gamma_out) = graph.get(22) else { panic!("the loop should close with a gamma") };
    assert_eq!(gamma_out.input, 8);
    assert_eq!(gamma_out.regions, vec![21, 19]);
}

#[test]
fn other_characters_are_ignored() {
    let mut graph = DataFlowGraph::new();
    let omega_out = TuringMachineLifter::new().run(&mut graph, "hello world");

    assert_eq!(omega_out, 5);
}
