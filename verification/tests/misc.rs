use spider::cli::{Arguments, Source, Target};
use spider::json::{region_to_subgraph, should_skip_node, JsonPrinter};
use spider::graph::{
    control::{GammaIn, GammaOut, RegionIn, RegionOut},
    DataFlowGraph, Link, Node,
};
use spider::runner::{ensure_success, parse_fixture, parse_mode, required_func, FixtureKind, RunnerError, RunnerMode};
use spider::wasm::types::sanitize;

#[test]
fn fixtures_are_named_on_the_command_line() {
    assert_eq!(parse_fixture("plmpeg").unwrap(), FixtureKind::Plmpeg);
    assert_eq!(parse_fixture("gbc").unwrap(), FixtureKind::Binjgb);
    assert_eq!(parse_fixture("mjpeg").unwrap(), FixtureKind::LibjpegTurboMjpeg);
    assert_eq!(parse_fixture("libjpegturbo-mjpeg").unwrap(), FixtureKind::LibjpegTurboMjpeg);
    assert_eq!(parse_fixture("h264mp4").unwrap(), FixtureKind::H264Mp4);
    assert_eq!(parse_fixture("cgltf").unwrap(), FixtureKind::Cgltf);
    assert!(matches!(parse_fixture("doom"), Err(RunnerError::UnsupportedFixture(name)) if name == "doom"));
}

#[test]
fn modes_are_named_on_the_command_line() {
    assert_eq!(parse_mode("baseline").unwrap(), RunnerMode::Baseline);
    assert_eq!(parse_mode("stream").unwrap(), RunnerMode::Stream);
    assert!(matches!(parse_mode("Stream"), Err(RunnerError::UnsupportedMode(name)) if name == "Stream"));
}

#[test]
fn fixture_calls_succeed_only_on_one() {
    assert!(ensure_success(1, "begin").is_ok());
    assert!(matches!(ensure_success(0, "begin failed"), Err(RunnerError::Failed(text)) if text == "begin failed"));
    assert!(matches!(ensure_success(-1, "x"), Err(RunnerError::Failed(_))));
}

#[test]
fn missing_exports_are_reported() {
    let value = 3;

    assert_eq!(*required_func(Some(&value), "missing").unwrap(), 3);
    assert!(matches!(required_func::<i32>(None, "missing"), Err(RunnerError::NotFound(text)) if text == "missing"));
}

#[test]
fn type_keys_keep_only_safe_characters() {
    assert_eq!(sanitize('a'), 'a');
    assert_eq!(sanitize('Z'), 'Z');
    assert_eq!(sanitize('7'), '7');
    assert_eq!(sanitize('>'), '>');
    assert_eq!(sanitize(','), ',');
    assert_eq!(sanitize('('), '_');
    assert_eq!(sanitize(' '), '_');
    assert_eq!(sanitize('"'), '_');
    assert_eq!(sanitize('é'), '_');
}

#[test]
fn arguments_hold_the_command_line_choices() {
    let arguments = Arguments {
        file: "module.wasm".to_string(),
        source: Source::WebAssembly,
        target: Target::Luau,
        optimize: true,
    };

    assert_eq!(arguments.source, Source::WebAssembly);
    assert_eq!(arguments.target, Target::Luau);
    assert!(arguments.optimize);
}

#[test]
fn json_form_skips_closing_nodes() {
    let region_out = Node::RegionOut(RegionOut { input: 0, output: 0, results: vec![] });
    let region_in = Node::RegionIn(RegionIn { input: 4, output: 9 });

    assert!(should_skip_node(&region_out));
    assert!(should_skip_node(&region_in));
    assert!(!should_skip_node(&Node::I32(0)));
    assert_eq!(region_to_subgraph(&region_in, 6), Some((4, 6, 9)));
    assert_eq!(region_to_subgraph(&Node::I32(0), 6), None);
}

#[test]
fn json_edges_are_drawn_from_gamma_inputs() {
    let mut graph = DataFlowGraph::new();
    let value = graph.add_node(Node::I32(1));
    let gamma_in = graph.add_node(Node::GammaIn(GammaIn {
        output: 4,
        arguments: vec![Link(value, 0)],
        condition: Link(value, 0),
    }));
    let region_in = graph.add_node(Node::RegionIn(RegionIn { input: gamma_in, output: 3 }));
    let region_out = graph.add_node(Node::RegionOut(RegionOut {
        input: region_in,
        output: 4,
        results: vec![Link(region_in, 0)],
    }));
    graph.add_node(Node::GammaOut(GammaOut { input: gamma_in, regions: vec![region_out] }));
    graph.add_node(Node::Identity(spider::graph::simple::Identity { sources: vec![Link(4, 0)] }));

    let mut printer = JsonPrinter::new();
    printer.find_subgraphs(&graph);
    printer.find_edges(&graph);

    assert_eq!(printer.subgraph_fields(), vec![gamma_in, region_in, region_out]);
    assert_eq!(
        printer.edge_fields(),
        vec![value, 0, gamma_in, 0, value, 0, gamma_in, 1, region_in, 0, region_out, 0, gamma_in, 0, 5, 0]
    );
}
