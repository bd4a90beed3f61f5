//! Waveform rendering of value-change traces.

pub mod display_metrics;
pub mod draw;
pub mod render;
pub mod symbols;
pub mod text_frame;
pub mod trace_text;
pub mod timed_value;
pub mod trace_collection;
pub mod utils;
pub mod waveform;
