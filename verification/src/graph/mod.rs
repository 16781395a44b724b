//! The data flow graph: links, node types and the graph container.

pub mod control;
pub mod graph;
pub mod link;
pub mod node;
pub mod ports;
pub mod sequences;
pub mod simple;
pub mod sinks;
pub mod sources;

pub use link::Link;
pub use node::Node;
pub use graph::DataFlowGraph;
