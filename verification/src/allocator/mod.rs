//! Local variable allocation for the Lua target: names are handed out to
//! values for the span they are live, and taken back when that span ends.

pub mod argument_finder;
pub mod declaration_map;
pub mod flag_map;
pub mod index_provider;
pub mod local_allocator;
pub mod local_map;
pub mod local_provider;
pub mod preferences;
pub mod reference_finder;
pub mod scalar_finder;
