//! The XEM6010 board: its memory interface generator and the FIFO that
//! buffers a stream of words in the board's DDR memory.

pub mod ddr_fifo;
pub mod mig;
pub mod ddr_fifo_laws;
pub mod mig_laws;
