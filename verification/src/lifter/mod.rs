//! Lifting of WebAssembly function bodies into the data flow graph.

pub mod dependency_map;
pub mod basic_block_lifter;
