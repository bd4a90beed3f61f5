//! Building blocks for high level synthesis: controllers that carry
//! commands from a CPU onto an on-chip bus.

pub mod controller;
pub mod controller_laws;
pub mod sdram_controller_tester;
pub mod router;
pub mod mosi_port;
pub mod mosi_wide_port;
