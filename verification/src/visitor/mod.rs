//! Passes that transform or check a data flow graph.

pub mod constant_isolator;
pub mod invariant_port_mover;
pub mod isle;
pub mod link_map;
pub mod region_identity;
pub mod region_scope;
