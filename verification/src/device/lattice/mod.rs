//! Lattice parts.

pub mod ecp5;
