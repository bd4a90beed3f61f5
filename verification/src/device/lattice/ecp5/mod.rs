//! Primitives of the ECP5 family, given as Verilog text.

pub mod edge_flip_flop;
pub mod edge_tristate_buffer;
pub mod edge_tristate_buffer_delayed;
pub mod io_delay;
