//! Liveness of the registers of a WebAssembly function.

pub mod live_set;
pub mod locals;
pub mod references;
