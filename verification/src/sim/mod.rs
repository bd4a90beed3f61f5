//! Simulation models of memory chips: their commands, and the clocked
//! state machines that check how a controller drives them.

pub mod clocked;
pub mod micron_sdr_sdram_sim;
pub mod sdr_sdram;
