//! The XEM6010 memory interface generator: the command, write and read
//! ports of its memory controller, and a model of the controller that
//! keeps the DDR memory's words in a map.  Commands, write words and read
//! words pass through three FIFOs; after a calibration delay the model
//! takes commands off the command FIFO and moves bursts of words between
//! the DDR memory and the data FIFOs.
use crate::hdl_core::bits::{bit_cast, Bits};
use crate::sim::clocked::{bit_field, decreased, field, incremented, lemma_zero, same, zero};
use crate::sim::sdr_sdram::bank::bit_cast_spec;
use std::collections::BTreeMap;
use vstd::arithmetic::power2::*;
use vstd::prelude::*;

verus! {

/// The instructions of the memory interface generator's command port.
#[derive(Copy, Clone, Debug, PartialEq, Eq, Structural, Default)]
pub enum MIGInstruction {
    #[default]
    Write,
    Read,
    WritePrecharge,
    ReadPrecharge,
    Refresh,
}

/// One command for the memory interface generator.
#[derive(Copy, Clone, Debug, Default, PartialEq)]
pub struct MIGCommand {
    pub instruction: MIGInstruction,
    pub burst_len: Bits<6>,
    pub byte_address: Bits<30>,
}

/// A word to write together with its byte mask.
#[derive(Copy, Clone, Debug, Default, PartialEq)]
pub struct MaskedWrite {
    pub mask: Bits<4>,
    pub data: Bits<32>,
}


/// Where the memory controller is.
#[derive(Copy, Clone, Debug, PartialEq, Eq, Structural)]
pub enum MIGState {
    Init,
    Calibrating,
    Idle,
    Reading,
    Writing,
    Error,
    Refresh,
}

/// The controller's registers.
#[derive(Copy, Clone, Debug)]
pub struct MIGRegisters {
    pub state: MIGState,
    /// Set once calibration is done.
    pub calib: bool,
    /// Clocks of calibration, or words of the burst, still to go.
    pub timer: Bits<16>,
    /// The word address of the burst under way.
    pub address: Bits<32>,
}

/// What the controller reads in one clock: its three ports and what its
/// three FIFOs put out.
#[derive(Copy, Clone, Debug)]
pub struct MIGInputs {
    pub p0_cmd_enable: bool,
    pub p0_cmd: MIGCommand,
    pub p0_wr_enable: bool,
    pub p0_wr_data: MaskedWrite,
    pub p0_rd_enable: bool,
    pub cmd_fifo_empty: bool,
    pub cmd_fifo_full: bool,
    pub cmd_fifo_write_fill: Bits<3>,
    pub cmd_fifo_data_out: MIGCommand,
    pub write_fifo_full: bool,
    pub write_fifo_underflow: bool,
    pub write_fifo_overflow: bool,
    pub write_fifo_write_fill: Bits<7>,
    pub write_fifo_data_out: MaskedWrite,
    pub read_fifo_empty: bool,
    pub read_fifo_full: bool,
    pub read_fifo_underflow: bool,
    pub read_fifo_overflow: bool,
    pub read_fifo_read_fill: Bits<7>,
    pub read_fifo_data_out: Bits<32>,
}

/// What the controller drives in one clock.
#[derive(Copy, Clone, Debug)]
pub struct MIGOutputs {
    pub calib_done: bool,
    /// The reset handed on to the logic that uses the memory: held until
    /// calibration is done.
    pub reset_out: bool,
    pub p0_cmd_empty: bool,
    pub p0_cmd_full: bool,
    pub p0_wr_empty: bool,
    pub p0_wr_full: bool,
    pub p0_wr_error: bool,
    pub p0_wr_underrun: bool,
    pub p0_wr_count: Bits<7>,
    pub p0_rd_data: Bits<32>,
    pub p0_rd_error: bool,
    pub p0_rd_overflow: bool,
    pub p0_rd_empty: bool,
    pub p0_rd_full: bool,
    pub p0_rd_count: Bits<7>,
    pub cmd_fifo_data_in: MIGCommand,
    pub cmd_fifo_write: bool,
    pub cmd_fifo_read: bool,
    pub write_fifo_data_in: MaskedWrite,
    pub write_fifo_write: bool,
    pub write_fifo_read: bool,
    pub read_fifo_data_in: Bits<32>,
    pub read_fifo_write: bool,
}

impl MIGRegisters {
    pub open spec fn wf(self) -> bool {
        self.timer.wf() && self.address.wf()
    }
}

impl MIGInputs {
    pub open spec fn wf(self) -> bool {
        &&& self.cmd_fifo_write_fill.wf()
        &&& self.cmd_fifo_data_out.burst_len.wf()
        &&& self.cmd_fifo_data_out.byte_address.wf()
        &&& self.write_fifo_write_fill.wf()
        &&& self.write_fifo_data_out.data.wf()
        &&& self.read_fifo_read_fill.wf()
        &&& self.read_fifo_data_out.wf()
    }
}

/// The key of a word address in the memory map.
pub open spec fn word_key(a: Bits<32>) -> u32 {
    a.val() as u32
}

/// The word the memory holds at an address; words never written read as
/// zero.
pub open spec fn stored(m: Map<u32, Bits<32>>, a: Bits<32>) -> Bits<32> {
    if m.contains_key(word_key(a)) {
        m[word_key(a)]
    } else {
        zero()
    }
}

/// The burst a command starts: `burst_len + 1` words from the word holding
/// the byte address.
pub open spec fn burst_started(r: MIGRegisters, c: MIGCommand, s: MIGState) -> MIGRegisters {
    MIGRegisters {
        state: s,
        timer: incremented(bit_cast_spec::<16, 6>(c.burst_len)),
        address: bit_cast_spec::<32, 30>(c.byte_address).shr_bits(Bits::<32>::from_val(2)),
        ..r
    }
}

/// The registers after one clock edge.
pub open spec fn next_registers(r: MIGRegisters, i: MIGInputs) -> MIGRegisters {
    let t = MIGRegisters {
        timer: if r.timer.val() != 0 {
            decreased(r.timer, 1)
        } else {
            r.timer
        },
        ..r
    };
    let c = i.cmd_fifo_data_out;
    match r.state {
        MIGState::Init => MIGRegisters {
            state: MIGState::Calibrating,
            timer: Bits::<16>::from_val(100),
            ..t
        },
        MIGState::Calibrating => {
            if r.timer.val() == 0 {
                MIGRegisters { calib: true, state: MIGState::Idle, ..t }
            } else {
                t
            }
        },
        MIGState::Idle => {
            if i.cmd_fifo_empty {
                t
            } else if bit_field::<2, 30>(c.byte_address, 0).val() != 0 {
                MIGRegisters { state: MIGState::Error, ..t }
            } else {
                match c.instruction {
                    MIGInstruction::Write => burst_started(t, c, MIGState::Writing),
                    MIGInstruction::WritePrecharge => burst_started(t, c, MIGState::Writing),
                    MIGInstruction::Read => burst_started(t, c, MIGState::Reading),
                    MIGInstruction::ReadPrecharge => burst_started(t, c, MIGState::Reading),
                    MIGInstruction::Refresh => MIGRegisters { state: MIGState::Refresh, ..t },
                }
            }
        },
        MIGState::Reading | MIGState::Writing => {
            if r.timer.val() != 0 {
                MIGRegisters { address: incremented(r.address), ..t }
            } else {
                MIGRegisters { state: MIGState::Idle, ..t }
            }
        },
        MIGState::Refresh => MIGRegisters { state: MIGState::Idle, ..t },
        MIGState::Error => t,
    }
}

/// The memory after one clock edge: a writing burst stores the head word of
/// the write FIFO at the burst's address.
pub open spec fn next_memory(r: MIGRegisters, m: Map<u32, Bits<32>>, i: MIGInputs) -> Map<
    u32,
    Bits<32>,
> {
    if r.state == MIGState::Writing && r.timer.val() != 0 {
        m.insert(word_key(r.address), i.write_fifo_data_out.data)
    } else {
        m
    }
}

/// Whether the controller takes the head command off the command FIFO.
pub open spec fn takes_command(r: MIGRegisters, i: MIGInputs) -> bool {
    match r.state {
        MIGState::Idle => !i.cmd_fifo_empty && bit_field::<2, 30>(
            i.cmd_fifo_data_out.byte_address,
            0,
        ).val() == 0 && i.cmd_fifo_data_out.instruction != MIGInstruction::Refresh,
        MIGState::Refresh => true,
        _ => false,
    }
}

/// The outputs that only pass the ports and the FIFOs' status through,
/// with every strobe of the controller clear.
pub open spec fn port_outputs(i: MIGInputs) -> MIGOutputs {
    MIGOutputs {
        calib_done: false,
        reset_out: true,
        p0_cmd_empty: i.cmd_fifo_write_fill.val() == 0,
        p0_cmd_full: i.cmd_fifo_full,
        p0_wr_empty: i.write_fifo_write_fill.val() == 0,
        p0_wr_full: i.write_fifo_full,
        p0_wr_error: i.write_fifo_underflow || i.write_fifo_overflow,
        p0_wr_underrun: i.write_fifo_underflow,
        p0_wr_count: i.write_fifo_write_fill,
        p0_rd_data: i.read_fifo_data_out,
        p0_rd_error: i.read_fifo_underflow || i.read_fifo_overflow,
        p0_rd_overflow: i.read_fifo_overflow,
        p0_rd_empty: i.read_fifo_empty,
        p0_rd_full: i.read_fifo_full,
        p0_rd_count: i.read_fifo_read_fill,
        cmd_fifo_data_in: i.p0_cmd,
        cmd_fifo_write: i.p0_cmd_enable,
        cmd_fifo_read: false,
        write_fifo_data_in: i.p0_wr_data,
        write_fifo_write: i.p0_wr_enable,
        write_fifo_read: false,
        read_fifo_data_in: zero(),
        read_fifo_write: false,
    }
}

/// What the controller drives during a clock.
pub open spec fn mig_outputs(r: MIGRegisters, m: Map<u32, Bits<32>>, i: MIGInputs) -> MIGOutputs {
    let reading = r.state == MIGState::Reading && r.timer.val() != 0;
    MIGOutputs {
        calib_done: r.calib,
        reset_out: !(r.state == MIGState::Calibrating && r.timer.val() == 0),
        cmd_fifo_read: takes_command(r, i),
        write_fifo_read: r.state == MIGState::Writing && r.timer.val() != 0,
        read_fifo_data_in: if reading {
            stored(m, r.address)
        } else {
            zero()
        },
        read_fifo_write: reading,
        ..port_outputs(i)
    }
}

/// The memory controller and the words of its DDR memory.
pub struct MemoryInterfaceGenerator {
    regs: MIGRegisters,
    dram: BTreeMap<u32, Bits<32>>,
}

impl View for MemoryInterfaceGenerator {
    type V = Map<u32, Bits<32>>;

    /// The words of the DDR memory, by word address.
    closed spec fn view(&self) -> Map<u32, Bits<32>> {
        self.dram@
    }
}

impl MemoryInterfaceGenerator {
    /// The controller's registers.
    pub closed spec fn registers(&self) -> MIGRegisters {
        self.regs
    }

    /// The controller's registers.
    pub fn registers_now(&self) -> (r: MIGRegisters)
        ensures
            r == self.registers(),
    {
        self.regs
    }

    /// The word the memory holds at `a`.
    fn read_word(&self, a: Bits<32>) -> (w: Bits<32>)
        requires
            a.wf(),
        ensures
            w == stored(self@, a),
    {
        broadcast use vstd::std_specs::btree::group_btree_axioms;
        broadcast use vstd::laws_cmp::group_laws_cmp;

        proof {
            lemma2_to64();
        }
        let key = a.to_u32();
        match self.dram.get(&key) {
            Some(w) => *w,
            None => Bits::from(0u64),
        }
    }

    /// Stores `w` at `a`.
    fn write_word(&mut self, a: Bits<32>, w: Bits<32>)
        requires
            a.wf(),
        ensures
            final(self)@ == old(self)@.insert(word_key(a), w),
            final(self).regs == old(self).regs,
    {
        broadcast use vstd::std_specs::btree::group_btree_axioms;
        broadcast use vstd::laws_cmp::group_laws_cmp;

        let key = a.to_u32();
        self.dram.insert(key, w);
    }

    /// A controller at power on, before calibration, with an empty memory.
    pub fn new() -> (g: Self)
        ensures
            g.registers() == (MIGRegisters {
                state: MIGState::Init,
                calib: false,
                timer: zero(),
                address: zero(),
            }),
            g.registers().wf(),
            g@ == Map::<u32, Bits<32>>::empty(),
    {
        proof {
            lemma_zero::<16>();
            lemma_zero::<32>();
        }
        MemoryInterfaceGenerator {
            regs: MIGRegisters {
                state: MIGState::Init,
                calib: false,
                timer: Bits::from(0u64),
                address: Bits::from(0u64),
            },
            dram: BTreeMap::new(),
        }
    }

    /// One clock: what the controller drives while `inputs` hold, and its
    /// registers and memory after the clock edge.
    pub fn update(&mut self, inputs: &MIGInputs) -> (out: MIGOutputs)
        requires
            old(self).registers().wf(),
            inputs.wf(),
        ensures
            final(self).registers().wf(),
            final(self).registers() == next_registers(old(self).registers(), *inputs),
            final(self)@ == next_memory(old(self).registers(), old(self)@, *inputs),
            out == mig_outputs(old(self).registers(), old(self)@, *inputs),
    {
        let r = self.regs;
        let out = self.drive(inputs);
        if r.state == MIGState::Writing && r.timer.any() {
            self.write_word(r.address, inputs.write_fifo_data_out.data);
        }
        self.regs = step_registers(&r, inputs);
        out
    }

    /// What the controller drives while `inputs` hold.
    #[verifier::rlimit(20)]
    fn drive(&self, inputs: &MIGInputs) -> (out: MIGOutputs)
        requires
            self.registers().wf(),
            inputs.wf(),
        ensures
            out == mig_outputs(self.registers(), self@, *inputs),
    {
        proof {
            lemma_zero::<32>();
        }
        let r = self.regs;
        let running = r.timer.any();
        let mut out = pass_through(inputs);
        out.calib_done = r.calib;
        out.cmd_fifo_read = takes_command_now(&r, inputs);
        match r.state {
            MIGState::Calibrating => {
                if !running {
                    out.reset_out = false;
                }
            },
            MIGState::Reading => {
                if running {
                    out.read_fifo_data_in = self.read_word(r.address);
                    out.read_fifo_write = true;
                }
            },
            MIGState::Writing => {
                if running {
                    out.write_fifo_read = true;
                }
            },
            _ => {},
        }
        out
    }
}

/// The outputs that only pass the ports and the FIFOs' status through.
fn pass_through(inputs: &MIGInputs) -> (out: MIGOutputs)
    requires
        inputs.wf(),
    ensures
        out == port_outputs(*inputs),
{
    MIGOutputs {
        calib_done: false,
        reset_out: true,
        p0_cmd_empty: !inputs.cmd_fifo_write_fill.any(),
        p0_cmd_full: inputs.cmd_fifo_full,
        p0_wr_empty: !inputs.write_fifo_write_fill.any(),
        p0_wr_full: inputs.write_fifo_full,
        p0_wr_error: inputs.write_fifo_underflow || inputs.write_fifo_overflow,
        p0_wr_underrun: inputs.write_fifo_underflow,
        p0_wr_count: inputs.write_fifo_write_fill,
        p0_rd_data: inputs.read_fifo_data_out,
        p0_rd_error: inputs.read_fifo_underflow || inputs.read_fifo_overflow,
        p0_rd_overflow: inputs.read_fifo_overflow,
        p0_rd_empty: inputs.read_fifo_empty,
        p0_rd_full: inputs.read_fifo_full,
        p0_rd_count: inputs.read_fifo_read_fill,
        cmd_fifo_data_in: inputs.p0_cmd,
        cmd_fifo_write: inputs.p0_cmd_enable,
        cmd_fifo_read: false,
        write_fifo_data_in: inputs.p0_wr_data,
        write_fifo_write: inputs.p0_wr_enable,
        write_fifo_read: false,
        read_fifo_data_in: Bits::from(0u64),
        read_fifo_write: false,
    }
}

/// Whether the head command's byte address is not word aligned.
fn misaligned(c: &MIGCommand) -> (m: bool)
    requires
        c.byte_address.wf(),
    ensures
        m == (bit_field::<2, 30>(c.byte_address, 0).val() != 0),
{
    let low: Bits<2> = field::<2, 30>(&c.byte_address, 0);
    low.any()
}

/// Whether the controller takes the head command off the command FIFO.
fn takes_command_now(r: &MIGRegisters, inputs: &MIGInputs) -> (t: bool)
    requires
        inputs.wf(),
    ensures
        t == takes_command(*r, *inputs),
{
    match r.state {
        MIGState::Idle => !inputs.cmd_fifo_empty && !misaligned(&inputs.cmd_fifo_data_out)
            && inputs.cmd_fifo_data_out.instruction != MIGInstruction::Refresh,
        MIGState::Refresh => true,
        _ => false,
    }
}

/// The registers after one clock edge.
fn step_registers(r: &MIGRegisters, inputs: &MIGInputs) -> (n: MIGRegisters)
    requires
        r.wf(),
        inputs.wf(),
    ensures
        n.wf(),
        n == next_registers(*r, *inputs),
{
    proof {
        lemma2_to64();
    }
    let c = inputs.cmd_fifo_data_out;
    let mut n = *r;
    let running = r.timer.any();
    if running {
        n.timer = r.timer - 1u64;
    }
    match r.state {
        MIGState::Init => {
            n.state = MIGState::Calibrating;
            n.timer = Bits::from(100u64);
        },
        MIGState::Calibrating => {
            if !running {
                n.calib = true;
                n.state = MIGState::Idle;
            }
        },
        MIGState::Idle => {
            if !inputs.cmd_fifo_empty {
                if misaligned(&c) {
                    n.state = MIGState::Error;
                } else {
                    match c.instruction {
                        MIGInstruction::Write | MIGInstruction::WritePrecharge => {
                            n.state = MIGState::Writing;
                            n.timer = bit_cast::<16, 6>(c.burst_len) + 1u64;
                            n.address = bit_cast::<32, 30>(c.byte_address) >> 2u64;
                        },
                        MIGInstruction::Read | MIGInstruction::ReadPrecharge => {
                            n.timer = bit_cast::<16, 6>(c.burst_len) + 1u64;
                            n.address = bit_cast::<32, 30>(c.byte_address) >> 2u64;
                            n.state = MIGState::Reading;
                        },
                        MIGInstruction::Refresh => {
                            n.state = MIGState::Refresh;
                        },
                    }
                }
            }
        },
        MIGState::Reading | MIGState::Writing => {
            if running {
                n.address = r.address + 1u64;
            } else {
                n.state = MIGState::Idle;
            }
        },
        MIGState::Refresh => {
            n.state = MIGState::Idle;
        },
        MIGState::Error => {},
    }
    n
}

} // verus!
