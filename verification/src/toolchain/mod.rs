//! Toolchain support: files that the FPGA tools read.

pub mod ecp5;
