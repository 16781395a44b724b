//! Spider: a compiler from WebAssembly to Lua-family targets, centred on a
//! region-structured data flow graph and the passes that transform it.

pub mod allocator;
pub mod builder;
pub mod cli;
pub mod graph;
pub mod json;
pub mod library;
pub mod lua;
pub mod lifter;
pub mod liveness;
pub mod printer;
pub mod runner;
pub mod tree;
pub mod turing_machine;
pub mod visitor;
pub mod wasm;
