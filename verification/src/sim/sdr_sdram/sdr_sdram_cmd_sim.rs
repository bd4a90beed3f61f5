//! Commands of the generic SDR SDRAM model.
use vstd::prelude::*;

verus! {

/// A command on the SDRAM command pins.
#[derive(Copy, Clone, PartialEq, Eq, Structural, Debug)]
pub enum SDRAMCommand {
    LoadModeRegister,
    AutoRefresh,
    Precharge,
    BurstTerminate,
    Write,
    Read,
    Active,
    NOP,
}

} // verus!
