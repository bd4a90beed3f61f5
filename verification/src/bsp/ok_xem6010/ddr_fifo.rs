//! A FIFO backed by the board's DDR memory.  Words written to the FIFO
//! gather in a front porch FIFO; packets of 32 words move from there into
//! the DDR memory and, when the back porch FIFO has room, from the DDR
//! memory into the back porch, where they are read.  The DDR memory is used
//! as a ring: a write address and a read address, in bytes, advance by one
//! packet (128 bytes) at a time, and the memory holds data while they
//! differ.
use crate::bsp::ok_xem6010::mig::{MIGCommand, MIGInstruction, MaskedWrite};
use crate::hdl_core::bits::{bit_cast, Bits};
use crate::sim::clocked::{decreased, lemma_zero, zero};
use crate::sim::sdr_sdram::bank::bit_cast_spec;
use vstd::arithmetic::power2::*;
use vstd::prelude::*;

verus! {

/// States of the DDR-backed FIFO controller.
#[derive(Debug, Copy, Clone, PartialEq, Eq, Structural)]
pub enum DDRFIFOState {
    Booting,
    Idle,
    Read,
    Write,
    ReadComplete,
    WriteComplete,
    UpdateWriteAddress,
    Busy,
}

/// What the FIFO reads in one clock: its pins, the status of its two porch
/// FIFOs, and the ports of the memory interface generator.
#[derive(Copy, Clone, Debug)]
pub struct DDRFIFOInputs {
    pub read: bool,
    pub write: bool,
    pub data_in: Bits<32>,
    pub calib_done: bool,
    pub mig_cmd_full: bool,
    pub mig_wr_full: bool,
    pub mig_wr_error: bool,
    pub mig_wr_underrun: bool,
    pub mig_rd_empty: bool,
    pub mig_rd_error: bool,
    pub mig_rd_overflow: bool,
    pub mig_rd_data: Bits<32>,
    pub front_porch_empty: bool,
    pub front_porch_almost_empty: bool,
    pub front_porch_almost_full: bool,
    pub front_porch_full: bool,
    pub front_porch_data_out: Bits<32>,
    pub back_porch_empty: bool,
    pub back_porch_almost_empty: bool,
    pub back_porch_almost_full: bool,
    pub back_porch_full: bool,
    pub back_porch_data_out: Bits<32>,
}

/// What the FIFO drives in one clock.
#[derive(Copy, Clone, Debug)]
pub struct DDRFIFOOutputs {
    pub data_out: Bits<32>,
    pub empty: bool,
    pub almost_empty: bool,
    pub almost_full: bool,
    pub full: bool,
    /// Bit 0: write port error, 1: write underrun, 2: command queue full,
    /// 3: read port error, 4: read overflow, 5: the DDR memory holds data.
    pub status: Bits<8>,
    pub mig_cmd: MIGCommand,
    pub mig_cmd_enable: bool,
    pub mig_wr_data: MaskedWrite,
    pub mig_wr_enable: bool,
    pub mig_rd_enable: bool,
    pub front_porch_data_in: Bits<32>,
    pub front_porch_write: bool,
    pub front_porch_read: bool,
    pub back_porch_data_in: Bits<32>,
    pub back_porch_write: bool,
    pub back_porch_read: bool,
}

/// The FIFO controller's registers.
#[derive(Copy, Clone, Debug)]
pub struct DDRFIFO {
    pub write_address: Bits<27>,
    pub read_address: Bits<27>,
    pub state: DDRFIFOState,
    /// Words of the packet under way still to move into the DDR memory.
    pub transfer_in_count: Bits<7>,
    /// Words of the packet under way still to move out of the DDR memory.
    pub transfer_out_count: Bits<7>,
}

impl DDRFIFOInputs {
    pub open spec fn wf(self) -> bool {
        &&& self.data_in.wf()
        &&& self.mig_rd_data.wf()
        &&& self.front_porch_data_out.wf()
        &&& self.back_porch_data_out.wf()
    }
}

/// The DDR memory holds data: the two addresses differ.
pub open spec fn has_data(f: DDRFIFO) -> bool {
    f.write_address.val() != f.read_address.val()
}

/// A word moves from the front porch into the DDR memory in this clock.
pub open spec fn transfers_in(f: DDRFIFO, i: DDRFIFOInputs) -> bool {
    f.transfer_in_count.val() != 0 && !i.mig_wr_full && !i.front_porch_empty
}

/// A word moves from the DDR memory into the back porch in this clock.
pub open spec fn transfers_out(f: DDRFIFO, i: DDRFIFOInputs) -> bool {
    f.transfer_out_count.val() != 0 && !i.mig_rd_empty && !i.back_porch_full
}

/// The number a flag adds: 1 when set.
pub open spec fn flag(b: bool) -> nat {
    if b {
        1
    } else {
        0
    }
}

/// A command of a 32-word packet at a byte address.
pub open spec fn packet_command(instruction: MIGInstruction, address: Bits<27>) -> MIGCommand {
    MIGCommand {
        instruction,
        burst_len: Bits::<6>::from_val(31),
        byte_address: bit_cast_spec::<30, 27>(address),
    }
}

/// The registers after one clock edge.
pub open spec fn next_fifo(f: DDRFIFO, i: DDRFIFOInputs) -> DDRFIFO {
    let counted = DDRFIFO {
        transfer_in_count: decreased(f.transfer_in_count, flag(transfers_in(f, i))),
        transfer_out_count: decreased(f.transfer_out_count, flag(transfers_out(f, i))),
        ..f
    };
    match f.state {
        DDRFIFOState::Booting => {
            if i.calib_done {
                DDRFIFO { state: DDRFIFOState::Busy, ..counted }
            } else {
                counted
            }
        },
        DDRFIFOState::Idle => {
            if has_data(f) && !i.back_porch_almost_full {
                DDRFIFO {
                    transfer_out_count: Bits::<7>::from_val(32),
                    state: DDRFIFOState::Read,
                    ..counted
                }
            } else if !i.front_porch_almost_empty {
                DDRFIFO {
                    transfer_in_count: Bits::<7>::from_val(32),
                    state: DDRFIFOState::Write,
                    ..counted
                }
            } else {
                counted
            }
        },
        DDRFIFOState::Read => {
            if f.transfer_out_count.val() == 0 {
                DDRFIFO { state: DDRFIFOState::ReadComplete, ..counted }
            } else {
                counted
            }
        },
        DDRFIFOState::ReadComplete => DDRFIFO {
            read_address: f.read_address.sum(Bits::<27>::from_val(128)),
            state: DDRFIFOState::Busy,
            ..counted
        },
        DDRFIFOState::Write => {
            if f.transfer_in_count.val() == 0 {
                DDRFIFO { state: DDRFIFOState::WriteComplete, ..counted }
            } else {
                counted
            }
        },
        DDRFIFOState::WriteComplete => DDRFIFO {
            state: DDRFIFOState::UpdateWriteAddress,
            ..counted
        },
        DDRFIFOState::UpdateWriteAddress => DDRFIFO {
            write_address: f.write_address.sum(Bits::<27>::from_val(128)),
            state: DDRFIFOState::Busy,
            ..counted
        },
        DDRFIFOState::Busy => {
            if !i.mig_cmd_full {
                DDRFIFO { state: DDRFIFOState::Idle, ..counted }
            } else {
                counted
            }
        },
    }
}

/// The command the FIFO puts to the memory controller in this clock, if
/// any: a packet read from the read address when it starts a read, a
/// packet write to the write address when a write is complete.
pub open spec fn fifo_command(f: DDRFIFO, i: DDRFIFOInputs) -> Option<MIGCommand> {
    match f.state {
        DDRFIFOState::Idle => {
            if has_data(f) && !i.back_porch_almost_full {
                Some(packet_command(MIGInstruction::Read, f.read_address))
            } else {
                None
            }
        },
        DDRFIFOState::WriteComplete => Some(packet_command(MIGInstruction::Write, f.write_address)),
        _ => None,
    }
}

/// What the FIFO drives during a clock.
pub open spec fn fifo_outputs(f: DDRFIFO, i: DDRFIFOInputs) -> DDRFIFOOutputs {
    let cmd = fifo_command(f, i);
    DDRFIFOOutputs {
        data_out: i.back_porch_data_out,
        empty: i.back_porch_empty,
        almost_empty: i.back_porch_almost_empty,
        almost_full: i.front_porch_almost_full,
        full: i.front_porch_full,
        status: Bits::<8>::from_val(
            flag(i.mig_wr_error) + 2 * flag(i.mig_wr_underrun) + 4 * flag(i.mig_cmd_full) + 8
                * flag(i.mig_rd_error) + 16 * flag(i.mig_rd_overflow) + 32 * flag(has_data(f)),
        ),
        mig_cmd: match cmd {
            Some(c) => c,
            None => packet_command(MIGInstruction::Refresh, zero()),
        },
        mig_cmd_enable: cmd is Some,
        mig_wr_data: MaskedWrite { mask: zero(), data: i.front_porch_data_out },
        mig_wr_enable: transfers_in(f, i),
        mig_rd_enable: transfers_out(f, i),
        front_porch_data_in: i.data_in,
        front_porch_write: i.write,
        front_porch_read: transfers_in(f, i),
        back_porch_data_in: i.mig_rd_data,
        back_porch_write: transfers_out(f, i),
        back_porch_read: i.read,
    }
}

impl DDRFIFO {
    pub open spec fn wf(self) -> bool {
        &&& self.write_address.wf()
        &&& self.read_address.wf()
        &&& self.transfer_in_count.wf()
        &&& self.transfer_out_count.wf()
    }

    /// A FIFO at power on: booting, both addresses and counters clear.
    pub fn new() -> (f: Self)
        ensures
            f.wf(),
            f.state == DDRFIFOState::Booting,
            f.write_address == zero::<27>(),
            f.read_address == zero::<27>(),
            f.transfer_in_count == zero::<7>(),
            f.transfer_out_count == zero::<7>(),
    {
        proof {
            lemma2_to64();
        }
        DDRFIFO {
            write_address: Bits::from(0u64),
            read_address: Bits::from(0u64),
            state: DDRFIFOState::Booting,
            transfer_in_count: Bits::from(0u64),
            transfer_out_count: Bits::from(0u64),
        }
    }

    /// One clock: what the FIFO drives while `inputs` hold, and its
    /// registers after the clock edge.
    pub fn update(&mut self, inputs: &DDRFIFOInputs) -> (out: DDRFIFOOutputs)
        requires
            old(self).wf(),
            inputs.wf(),
        ensures
            final(self).wf(),
            *final(self) == next_fifo(*old(self), *inputs),
            out == fifo_outputs(*old(self), *inputs),
    {
        proof {
            lemma2_to64();
        }
        let f = *self;
        let have_data = !(f.write_address == f.read_address);
        proof {
            Bits::<27>::law_eq_matches_values(f.write_address, f.read_address);
            lemma_zero::<27>();
        }
        let mut cmd = MIGCommand {
            instruction: MIGInstruction::Refresh,
            burst_len: Bits::from(31u64),
            byte_address: Bits::from(0u64),
        };
        let mut cmd_enable = false;
        let will_transfer_in = f.transfer_in_count.any() && !inputs.mig_wr_full
            && !inputs.front_porch_empty;
        let will_transfer_out = f.transfer_out_count.any() && !inputs.mig_rd_empty
            && !inputs.back_porch_full;
        let step_in: u64 = if will_transfer_in {
            1
        } else {
            0
        };
        let step_out: u64 = if will_transfer_out {
            1
        } else {
            0
        };
        self.transfer_in_count = f.transfer_in_count - step_in;
        self.transfer_out_count = f.transfer_out_count - step_out;
        match f.state {
            DDRFIFOState::Booting => {
                if inputs.calib_done {
                    self.state = DDRFIFOState::Busy;
                }
            },
            DDRFIFOState::Idle => {
                if have_data && !inputs.back_porch_almost_full {
                    cmd.instruction = MIGInstruction::Read;
                    cmd.byte_address = bit_cast::<30, 27>(f.read_address);
                    cmd_enable = true;
                    self.transfer_out_count = Bits::from(32u64);
                    self.state = DDRFIFOState::Read;
                } else if !inputs.front_porch_almost_empty {
                    self.transfer_in_count = Bits::from(32u64);
                    self.state = DDRFIFOState::Write;
                }
            },
            DDRFIFOState::Read => {
                if !f.transfer_out_count.any() {
                    self.state = DDRFIFOState::ReadComplete;
                }
            },
            DDRFIFOState::ReadComplete => {
                self.read_address = f.read_address + 128u64;
                self.state = DDRFIFOState::Busy;
            },
            DDRFIFOState::Write => {
                if !f.transfer_in_count.any() {
                    self.state = DDRFIFOState::WriteComplete;
                }
            },
            DDRFIFOState::WriteComplete => {
                cmd.instruction = MIGInstruction::Write;
                cmd.byte_address = bit_cast::<30, 27>(f.write_address);
                cmd_enable = true;
                self.state = DDRFIFOState::UpdateWriteAddress;
            },
            DDRFIFOState::UpdateWriteAddress => {
                self.write_address = f.write_address + 128u64;
                self.state = DDRFIFOState::Busy;
            },
            DDRFIFOState::Busy => {
                if !inputs.mig_cmd_full {
                    self.state = DDRFIFOState::Idle;
                }
            },
        }
        let status = (if inputs.mig_wr_error {
            1u64
        } else {
            0
        }) + (if inputs.mig_wr_underrun {
            2u64
        } else {
            0
        }) + (if inputs.mig_cmd_full {
            4u64
        } else {
            0
        }) + (if inputs.mig_rd_error {
            8u64
        } else {
            0
        }) + (if inputs.mig_rd_overflow {
            16u64
        } else {
            0
        }) + (if have_data {
            32u64
        } else {
            0
        });
        DDRFIFOOutputs {
            data_out: inputs.back_porch_data_out,
            empty: inputs.back_porch_empty,
            almost_empty: inputs.back_porch_almost_empty,
            almost_full: inputs.front_porch_almost_full,
            full: inputs.front_porch_full,
            status: Bits::from(status),
            mig_cmd: cmd,
            mig_cmd_enable: cmd_enable,
            mig_wr_data: MaskedWrite { mask: Bits::from(0u64), data: inputs.front_porch_data_out },
            mig_wr_enable: will_transfer_in,
            mig_rd_enable: will_transfer_out,
            front_porch_data_in: inputs.data_in,
            front_porch_write: inputs.write,
            front_porch_read: will_transfer_in,
            back_porch_data_in: inputs.mig_rd_data,
            back_porch_write: will_transfer_out,
            back_porch_read: inputs.read,
        }
    }
}

} // verus!
