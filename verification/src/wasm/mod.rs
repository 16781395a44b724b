//! The WebAssembly side: the register instructions that a function body is
//! lowered to before it is lifted into the data flow graph.

pub mod code_builder;
pub mod graph;
pub mod instruction;
pub mod locals;
pub mod stack_builder;
pub mod types;
