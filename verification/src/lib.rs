//! A hardware description library: fixed-width bit vectors, the Verilog
//! syntax tree and its code generator, design-rule checkers driven by a
//! circuit walk, the simulation scheduler, cycle models of memories and
//! controllers, and the text renderer for simulation traces.

pub mod hdl_core;
pub mod text;
pub mod bsp;
pub mod sim;
pub mod docs;
pub mod toolchain;
pub mod device;
pub mod hls;
