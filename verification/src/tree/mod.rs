//! The trees that the Lua targets print.

use vstd::prelude::*;

use crate::tree::expression::Name;
use crate::tree::statement::{Export, Sequence};

pub mod expression;
pub mod statement;

verus! {

/// The root of the tree of a compiled module.
pub struct LuaNoFFITree {
    /// The environment variable name.
    pub environment: Name,
    /// The local variable names.
    pub locals: Vec<Name>,
    /// The stack size.
    pub stack: u16,
    /// The main code sequence.
    pub code: Sequence,
    /// The export declarations.
    pub exports: Vec<Export>,
}

} // verus!
