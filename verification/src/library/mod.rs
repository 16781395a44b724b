//! The runtime library that the Lua target prints: its sources are split into
//! named sections that declare locals and depend on one another.

pub mod printer;
pub mod sections;
pub mod text;
