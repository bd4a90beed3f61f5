//! Device specific primitives.

pub mod lattice;
