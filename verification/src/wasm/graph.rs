//! The control flow graph of a WebAssembly function: its register
//! instructions and the basic blocks they are cut into.

use vstd::prelude::*;

use crate::wasm::instruction::Instruction;

verus! {

/// A basic block: the blocks that jump to it, the blocks it jumps to, one
/// per branch, and the range of instructions it holds.
pub struct BasicBlock {
    /// The blocks jumping to this one, once per jump.
    pub predecessors: Vec<u16>,
    /// The block each branch jumps to.
    pub successors: Vec<u16>,
    /// The first instruction of the block.
    pub start: u32,
    /// The instruction after the last one of the block.
    pub end: u32,
}

/// The model of a basic block.
pub struct BlockView {
    pub predecessors: Seq<u16>,
    pub successors: Seq<u16>,
    pub start: u32,
    pub end: u32,
}

impl View for BasicBlock {
    type V = BlockView;

    open spec fn view(&self) -> BlockView {
        BlockView {
            predecessors: self.predecessors@,
            successors: self.successors@,
            start: self.start,
            end: self.end,
        }
    }
}

/// The models of a sequence of basic blocks.
pub open spec fn block_views(blocks: Seq<BasicBlock>) -> Seq<BlockView> {
    blocks.map_values(|block: BasicBlock| block@)
}

/// The instructions of a function and the basic blocks cutting them.
pub struct ControlFlowGraph {
    /// The instructions, in order.
    pub instructions: Vec<Instruction>,
    /// The basic blocks; the first one is the entry.
    pub basic_blocks: Vec<BasicBlock>,
}

impl ControlFlowGraph {
    /// Creates a graph with no instruction and no block.
    pub fn new() -> (graph: Self)
        ensures
            graph.instructions@.len() == 0,
            graph.basic_blocks@.len() == 0,
    {
        ControlFlowGraph { instructions: Vec::new(), basic_blocks: Vec::new() }
    }
}

} // verus!
