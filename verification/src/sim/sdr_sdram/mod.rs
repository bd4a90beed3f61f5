//! A generic SDR SDRAM model.

pub mod bank;
pub mod bank_laws;
pub mod chip;
pub mod sdr_sdram_bank_sim;
pub mod sdr_sdram_cmd_sim;
