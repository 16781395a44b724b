use spider::graph::{
    control::{GammaIn, GammaOut, RegionIn, RegionOut},
    simple::{IntegerBinaryOperation, IntegerBinaryOperator, IntegerType},
    DataFlowGraph, Link, Node,
};
use spider::visitor::region_scope::find_escape;

// A gamma with a single region, whose body adds the region's only port to itself.
// The outer value the port carries lives at `outer`.
fn gamma_graph() -> (DataFlowGraph, u32, u32) {
    let mut graph = DataFlowGraph::new();
    let outer = graph.add_node(Node::I32(1));
    let condition = graph.add_node(Node::I32(0));

    let gamma_in = graph.add_node(Node::GammaIn(GammaIn {
        output: 0,
        arguments: vec![Link(outer, 0)],
        condition: Link(condition, 0),
    }));

    let region_in = graph.add_node(Node::RegionIn(RegionIn { input: gamma_in, output: 0 }));

    let inner = graph.add_node(Node::IntegerBinaryOperation(IntegerBinaryOperation {
        lhs: Link(region_in, 0),
        rhs: Link(region_in, 0),
        kind: IntegerType::I32,
        operator: IntegerBinaryOperator::Add,
    }));

    let region_out = graph.add_node(Node::RegionOut(RegionOut {
        input: region_in,
        output: 0,
        results: vec![Link(inner, 0)],
    }));

    let gamma_out = graph.add_node(Node::GammaOut(GammaOut {
        input: gamma_in,
        regions: vec![region_out],
    }));

    if let Node::GammaIn(node) = graph.get_mut(gamma_in) {
        node.output = gamma_out;
    }
    if let Node::RegionIn(node) = graph.get_mut(region_in) {
        node.output = region_out;
    }
    if let Node::RegionOut(node) = graph.get_mut(region_out) {
        node.output = gamma_out;
    }

    (graph, outer, inner)
}

#[test]
fn a_port_read_is_within_the_region() {
    let (graph, _, _) = gamma_graph();

    assert!(find_escape(&graph).is_none());
}

#[test]
fn an_outer_read_escapes_the_region() {
    let (mut graph, outer, inner) = gamma_graph();

    let Node::IntegerBinaryOperation(operation) = graph.get_mut(inner) else {
        panic!("the inner node should be an operation")
    };

    operation.lhs = Link(outer, 0);

    assert_eq!(find_escape(&graph), Some((inner, Link(outer, 0))));
}

#[test]
fn a_graph_without_regions_has_no_escape() {
    let mut graph = DataFlowGraph::new();
    let a = graph.add_node(Node::I32(1));
    let b = graph.add_node(Node::I32(2));
    graph.add_node(Node::IntegerBinaryOperation(IntegerBinaryOperation {
        lhs: Link(a, 0),
        rhs: Link(b, 0),
        kind: IntegerType::I32,
        operator: IntegerBinaryOperator::Add,
    }));

    assert_eq!(find_escape(&graph), None);
}
