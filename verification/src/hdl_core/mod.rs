//! Bit vectors, code generation helpers and design checks.

pub mod bit_math;
pub mod short_bit_vec;
pub mod bit_vec;
pub mod bits;
pub mod bits_ops;
pub mod ordering;
pub mod bits_text;
pub mod ast;
pub mod atom;
pub mod ident_fixup;
pub mod named_path;
pub mod code_writer;
pub mod verilog_gen;
pub mod verilog_code;
pub mod block;
pub mod check_error;
pub mod probe;
pub mod check_connected;
pub mod check_write_inputs;
pub mod check_all;
pub mod logic;
pub mod simulate;
pub mod bits_laws;
