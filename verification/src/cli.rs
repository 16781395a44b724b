//! The choices of the command line: what the input is and what to print.

use vstd::prelude::*;

verus! {

/// The format of the source file.
#[derive(Clone, Copy, Debug, PartialEq, Eq, Structural)]
pub enum Source {
    TuringMachine,
    WebAssembly,
}

/// The format of the output.
#[derive(Clone, Copy, Debug, PartialEq, Eq, Structural)]
pub enum Target {
    Json,
    Luau,
    LuaJIT,
    LuaNoFFI,
}

/// The command line arguments.
#[derive(Debug)]
pub struct Arguments {
    /// The source file for processing.
    pub file: String,
    /// The format of the source file.
    pub source: Source,
    /// The format of the output file.
    pub target: Target,
    /// Whether to run all optimization passes.
    pub optimize: bool,
}

} // verus!
