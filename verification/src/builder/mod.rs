//! Lowering of data flow into Lua statements.

pub mod assignment_simplifier;
