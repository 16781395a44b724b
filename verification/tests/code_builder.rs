use spider::wasm::code_builder::CodeBuilder;
use spider::wasm::graph::ControlFlowGraph;
use spider::wasm::instruction::{
    I32Constant, Instruction, IntegerBinaryOperation, IntegerBinaryOperator, IntegerCompareOperation,
    IntegerCompareOperator, IntegerType, LocalBranch, LocalSet, MemoryGrow, MemorySize,
};
use spider::wasm::stack_builder::{Jump, Level, SHARED_LOCAL};

fn finish(builder: &mut CodeBuilder) -> ControlFlowGraph {
    let mut graph = ControlFlowGraph::new();

    builder.swap_contents(&mut graph);
    graph
}

fn sets(instructions: &[Instruction]) -> Vec<(u16, u16)> {
    instructions
        .iter()
        .map(|instruction| match instruction {
            Instruction::LocalSet(LocalSet { destination, source }) => (*destination, *source),
            other => panic!("not a local set: {other:?}"),
        })
        .collect()
}

fn successors(graph: &ControlFlowGraph) -> Vec<Vec<u16>> {
    graph.basic_blocks.iter().map(|block| block.successors.clone()).collect()
}

fn predecessors(graph: &ControlFlowGraph) -> Vec<Vec<u16>> {
    graph.basic_blocks.iter().map(|block| block.predecessors.clone()).collect()
}

#[test]
fn blocks_are_numbered_and_fall_through() {
    let mut builder = CodeBuilder::new();

    builder.add_local_set(5, 6);
    assert_eq!(builder.add_basic_block(1), 0);
    builder.add_local_set(6, 7);
    builder.add_local_set(7, 8);
    assert_eq!(builder.add_basic_block(2), 1);
    assert_eq!(builder.add_basic_block(0), 2);

    let graph = finish(&mut builder);

    assert_eq!(successors(&graph), vec![vec![1], vec![2, 2], vec![]]);
    assert_eq!((graph.basic_blocks[0].start, graph.basic_blocks[0].end), (0, 1));
    assert_eq!((graph.basic_blocks[1].start, graph.basic_blocks[1].end), (1, 3));
    assert_eq!(predecessors(&graph), vec![vec![], vec![0], vec![1, 1]]);
}

#[test]
fn moves_down_copy_upwards_and_moves_up_copy_downwards() {
    let mut builder = CodeBuilder::new();

    builder.add_locals_set(4, 6, 3);
    builder.add_locals_set(10, 8, 3);

    let graph = finish(&mut builder);

    assert_eq!(
        sets(&graph.instructions),
        vec![(4, 6), (5, 7), (6, 8), (12, 10), (11, 9), (10, 8)]
    );
}

#[test]
fn stack_adjustments_skip_values_in_place_and_dead_stacks() {
    let mut builder = CodeBuilder::new();

    assert!(!builder.try_add_stack_adjustment(4, 6, 2));
    assert!(!builder.try_add_stack_adjustment(4, u16::MAX, 2));
    assert!(builder.try_add_stack_adjustment(4, 9, 2));

    let graph = finish(&mut builder);

    assert_eq!(sets(&graph.instructions), vec![(4, 7), (5, 8)]);
}

#[test]
fn selects_branch_into_two_arms_that_meet() {
    let mut builder = CodeBuilder::new();

    builder.add_select(5, 6, 7, 8);
    builder.add_basic_block(0);

    let graph = finish(&mut builder);

    assert!(matches!(graph.instructions[0], Instruction::LocalBranch(LocalBranch { source: 6 })));
    assert_eq!(sets(&graph.instructions[1..]), vec![(5, 7), (5, 8)]);
    assert_eq!(successors(&graph), vec![vec![1, 2], vec![3], vec![3], vec![]]);
    assert_eq!(predecessors(&graph), vec![vec![], vec![0], vec![0], vec![1, 2]]);
}

#[test]
fn paged_memory_size_divides_by_the_page_size() {
    let mut builder = CodeBuilder::new();

    builder.add_paged_memory_size(5, 0);

    let graph = finish(&mut builder);

    assert!(matches!(
        graph.instructions[..],
        [
            Instruction::MemorySize(MemorySize { destination: 5, memory: 0 }),
            Instruction::I32Constant(I32Constant { destination: SHARED_LOCAL, data: 0x1_0000 }),
            Instruction::IntegerBinaryOperation(IntegerBinaryOperation {
                destination: 5,
                lhs: 5,
                rhs: SHARED_LOCAL,
                kind: IntegerType::I32,
                operator: IntegerBinaryOperator::Divide { signed: false },
            }),
        ]
    ));
}

#[test]
fn paged_memory_grow_checks_the_page_limit_first() {
    let mut builder = CodeBuilder::new();

    builder.add_paged_memory_grow(5, 0, 6);
    builder.add_basic_block(0);

    let graph = finish(&mut builder);

    assert!(matches!(
        graph.instructions[..3],
        [
            Instruction::I32Constant(I32Constant { destination: SHARED_LOCAL, data: 0xFFFF }),
            Instruction::IntegerCompareOperation(IntegerCompareOperation {
                destination: SHARED_LOCAL,
                lhs: 6,
                rhs: SHARED_LOCAL,
                operator: IntegerCompareOperator::LessThanEqual { signed: false },
                ..
            }),
            Instruction::LocalBranch(LocalBranch { source: SHARED_LOCAL }),
        ]
    ));
    assert!(matches!(graph.instructions[3], Instruction::I32Constant(I32Constant { destination: 5, data: -1 })));
    assert!(graph
        .instructions
        .iter()
        .any(|instruction| matches!(instruction, Instruction::MemoryGrow(MemoryGrow { destination: 5, memory: 0, size: SHARED_LOCAL }))));
    assert_eq!(graph.basic_blocks.len(), 7);
    assert_eq!(successors(&graph), vec![vec![1, 2], vec![6], vec![3, 4], vec![5], vec![5], vec![6], vec![]]);
}

#[test]
fn jumps_are_sent_on() {
    let mut builder = CodeBuilder::new();

    builder.add_basic_block(2);
    builder.add_basic_block(1);
    builder.add_basic_block(0);
    builder.set_jump_destination(0, 1, 0);

    let graph = finish(&mut builder);

    assert_eq!(successors(&graph), vec![vec![1, 0], vec![2], vec![]]);
    assert_eq!(predecessors(&graph), vec![vec![0], vec![0], vec![1]]);
}

#[test]
fn levels_without_a_destination_jump_past_their_adjustments() {
    let mut builder = CodeBuilder::new();

    builder.add_basic_block(2);
    builder.add_basic_block(1);

    let level = Level {
        parameters: 0,
        results: 1,
        base: 4,
        destination: None,
        jumps: vec![Jump { stack: 5, source: 0, branch: 1 }, Jump { stack: 6, source: 1, branch: 0 }],
    };

    builder.handle_level(level, 5);
    builder.add_basic_block(0);

    let graph = finish(&mut builder);

    assert_eq!(sets(&graph.instructions), vec![(4, 5)]);
    assert_eq!(successors(&graph), vec![vec![1, 4], vec![3], vec![4], vec![4], vec![]]);
    assert_eq!(predecessors(&graph), vec![vec![], vec![0], vec![], vec![1], vec![0, 2, 3]]);
}

#[test]
fn levels_with_a_destination_send_their_jumps_there() {
    let mut builder = CodeBuilder::new();

    builder.add_basic_block(1);

    let level = Level {
        parameters: 1,
        results: 0,
        base: 4,
        destination: Some(0),
        jumps: vec![Jump { stack: 6, source: 0, branch: 0 }],
    };

    builder.handle_level(level, 4);
    builder.add_basic_block(0);

    let graph = finish(&mut builder);

    assert_eq!(sets(&graph.instructions), vec![(4, 5)]);
    assert_eq!(successors(&graph), vec![vec![2], vec![3], vec![0], vec![]]);
    assert_eq!(predecessors(&graph), vec![vec![2], vec![], vec![0], vec![1]]);
}

#[test]
fn static_offsets_saturate() {
    assert_eq!(CodeBuilder::static_memory_offset(12), 12);
    assert_eq!(CodeBuilder::static_memory_offset(u64::from(u32::MAX)), u32::MAX);
    assert_eq!(CodeBuilder::static_memory_offset(u64::from(u32::MAX) + 1), u32::MAX);
}
