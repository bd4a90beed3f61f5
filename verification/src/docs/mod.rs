//! Documentation helpers: rendering simulation traces as text waveforms.

pub mod vcd2svg;
