use spider::graph::control::{GammaOut, RegionIn, RegionOut};
use spider::graph::{DataFlowGraph, Link, Node};

fn region_out(graph: &DataFlowGraph, id: u32) -> (u32, u32, Vec<Link>) {
    match graph.get(id) {
        Node::RegionOut(node) => (node.input, node.output, node.results.clone()),
        _ => panic!("expected a region output"),
    }
}

#[test]
fn scoped_region_closes_with_the_handler_results() {
    let mut graph = DataFlowGraph::new();
    Node::add_trap_into(&mut graph);
    let id = RegionOut::add_scoped_into(&mut graph, 0, |g: &mut DataFlowGraph, region: u32| {
        assert_eq!(region, 1);
        let value = Node::add_i32_into(g, 9);
        vec![Link(region, 0), value]
    });
    assert_eq!(id, 3);
    assert_eq!(graph.len(), 4);
    assert!(matches!(graph.get(1), Node::RegionIn(RegionIn { input: 0, output: 3 })));
    assert!(matches!(graph.get(2), Node::I32(9)));
    assert_eq!(region_out(&graph, 3), (1, u32::MAX, vec![Link(1, 0), Link(2, 0)]));
}

#[test]
fn if_structure_builds_false_region_first() {
    let mut graph = DataFlowGraph::new();
    let condition = Node::add_i32_into(&mut graph, 1);
    let id = GammaOut::add_if_into(
        &mut graph,
        vec![condition],
        condition,
        |g: &mut DataFlowGraph, region: u32| {
            assert_eq!(region, 2);
            vec![Node::add_i32_into(g, 0)]
        },
        |g: &mut DataFlowGraph, region: u32| {
            assert_eq!(region, 5);
            vec![Node::add_i32_into(g, 1), Link(region, 0)]
        },
    );
    assert_eq!(id, 8);
    assert_eq!(graph.len(), 9);
    match graph.get(1) {
        Node::GammaIn(node) => {
            assert_eq!(node.output, 8);
            assert_eq!(node.arguments, vec![Link(0, 0)]);
            assert_eq!(node.condition, Link(0, 0));
        }
        _ => panic!("expected a gamma input"),
    }
    assert!(matches!(graph.get(2), Node::RegionIn(RegionIn { input: 1, output: 4 })));
    assert!(matches!(graph.get(3), Node::I32(0)));
    assert_eq!(region_out(&graph, 4), (2, 8, vec![Link(3, 0)]));
    assert!(matches!(graph.get(5), Node::RegionIn(RegionIn { input: 1, output: 7 })));
    assert!(matches!(graph.get(6), Node::I32(1)));
    assert_eq!(region_out(&graph, 7), (5, 8, vec![Link(6, 0), Link(5, 0)]));
    match graph.get(8) {
        Node::GammaOut(node) => {
            assert_eq!(node.input, 1);
            assert_eq!(node.regions, vec![4, 7]);
        }
        _ => panic!("expected a gamma output"),
    }
}
