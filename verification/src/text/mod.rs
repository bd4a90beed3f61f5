//! Building and reading strings character by character.

pub mod chars;
pub mod lines;
pub mod decimal;
