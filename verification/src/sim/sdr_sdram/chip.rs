//! The controller of a simulated SDR SDRAM chip with four banks.  Each
//! clock it checks the start up sequence (a quiet boot delay, a precharge of
//! all banks, at least two auto refreshes, a mode register load), tells the
//! four bank models which of them a command is for and with which burst
//! length and CAS delay, and drives the data bus from the bank that reads.
//! The banks themselves are [MemoryBank](crate::sim::sdr_sdram::bank::MemoryBank)
//! models; the chip sees, of each, whether it is busy, failed, or has read
//! data.  Clock enable and the data masks are ignored.
use crate::hdl_core::bits::Bits;
use crate::sim::clocked::{below, bit_field, field, incremented, same, zero};
use crate::sim::sdr_sdram::sdr_sdram_cmd_sim::SDRAMCommand;
use vstd::arithmetic::power2::*;
use vstd::prelude::*;

verus! {

/// Where the chip is in its start up.
#[derive(Copy, Clone, PartialEq, Eq, Structural, Debug)]
pub enum MasterState {
    Boot,
    WaitPrecharge,
    Precharge,
    WaitAutorefresh,
    LoadModeRegister,
    Ready,
    Error,
}

/// What the chip's flip-flops hold between two clock edges.
#[derive(Copy, Clone, Debug)]
pub struct ChipRegisters {
    pub state: MasterState,
    /// Clocks spent in the current timed step.
    pub counter: Bits<32>,
    /// Auto refreshes done during start up.
    pub auto_refresh_init_counter: Bits<32>,
    /// The fields of the mode register.
    pub write_burst_mode: bool,
    pub cas_latency: Bits<3>,
    pub burst_type: bool,
    pub burst_len: Bits<3>,
    pub op_mode: Bits<2>,
}

/// How many clocks the timed steps of the start up take, less one.
#[derive(Copy, Clone, Debug)]
pub struct ChipDelays {
    pub boot_delay: Bits<32>,
    pub t_rp: Bits<32>,
    pub load_mode_timing: Bits<32>,
    pub t_rrd: Bits<32>,
}

/// What the chip sees of one bank in a clock.
#[derive(Copy, Clone, Debug)]
pub struct BankStatus<const D: usize> {
    pub busy: bool,
    pub error: bool,
    pub read_valid: bool,
    pub read_data: Bits<D>,
}

/// The pins the chip reads in one clock, and what its banks report.
#[derive(Copy, Clone, Debug)]
pub struct ChipInputs<const D: usize> {
    pub cmd: SDRAMCommand,
    pub bank: Bits<2>,
    pub address: Bits<12>,
    pub banks: [BankStatus<D>; 4],
}

/// What the chip drives in one clock: its test outputs, which banks a
/// command is for, the burst length and CAS delay for the banks, and the
/// data bus.  The banks also see the command, the address and the bus.
#[derive(Copy, Clone, Debug)]
pub struct ChipOutputs<const D: usize> {
    pub test_error: bool,
    pub test_ready: bool,
    pub select: [bool; 4],
    pub write_burst: bool,
    pub burst_len: Bits<4>,
    pub cas_delay: Bits<3>,
    pub bus_write_enable: bool,
    pub bus_write_data: Bits<D>,
}

impl ChipRegisters {
    pub open spec fn wf(self) -> bool {
        &&& self.counter.wf()
        &&& self.auto_refresh_init_counter.wf()
        &&& self.cas_latency.wf()
        &&& self.burst_len.wf()
        &&& self.op_mode.wf()
    }

    /// The registers at power on: booting, every field clear.
    pub open spec fn power_on() -> Self {
        ChipRegisters {
            state: MasterState::Boot,
            counter: zero(),
            auto_refresh_init_counter: zero(),
            write_burst_mode: false,
            cas_latency: zero(),
            burst_type: false,
            burst_len: zero(),
            op_mode: zero(),
        }
    }
}

impl ChipDelays {
    pub open spec fn wf(self) -> bool {
        &&& self.boot_delay.wf()
        &&& self.t_rp.wf()
        &&& self.load_mode_timing.wf()
        &&& self.t_rrd.wf()
    }
}

/// The inputs are well formed.
pub open spec fn inputs_wf<const D: usize>(i: ChipInputs<D>) -> bool {
    &&& i.bank.wf()
    &&& i.address.wf()
    &&& forall|k: int| 0 <= k < 4 ==> (#[trigger] i.banks@[k]).read_data.wf()
}

/// The burst length the banks are told: 1, 2, 4 or 8 words by the mode
/// register, 1 for a setting the chip does not know.
pub open spec fn burst_words(r: ChipRegisters) -> nat {
    if r.burst_len.val() == 0 {
        1
    } else if r.burst_len.val() == 1 {
        2
    } else if r.burst_len.val() == 2 {
        4
    } else if r.burst_len.val() == 3 {
        8
    } else {
        1
    }
}

/// The CAS delay the banks are told: 0, 2 or 3 clocks by the mode
/// register, 2 for a setting the chip does not know.
pub open spec fn cas_clocks(r: ChipRegisters) -> nat {
    if r.cas_latency.val() == 0 {
        0
    } else if r.cas_latency.val() == 3 {
        3
    } else {
        2
    }
}

/// The mode register holds a burst length or CAS latency the chip does
/// not know.
pub open spec fn mode_unknown(r: ChipRegisters) -> bool {
    r.burst_len.val() > 3 || !(r.cas_latency.val() == 0 || r.cas_latency.val() == 2
        || r.cas_latency.val() == 3)
}

/// Whether bank `k` takes the command: it is addressed, or the command is
/// an auto refresh, or a precharge of all banks (address bit 10).
pub open spec fn selects<const D: usize>(i: ChipInputs<D>, k: nat) -> bool {
    i.bank.val() == k || i.cmd == SDRAMCommand::AutoRefresh || (i.cmd == SDRAMCommand::Precharge
        && i.address@[10])
}

/// Some bank is busy.
pub open spec fn any_busy<const D: usize>(i: ChipInputs<D>) -> bool {
    exists|k: int| 0 <= k < 4 && (#[trigger] i.banks@[k]).busy
}

/// Some bank failed.
pub open spec fn any_error<const D: usize>(i: ChipInputs<D>) -> bool {
    exists|k: int| 0 <= k < 4 && (#[trigger] i.banks@[k]).error
}

/// The data on the bus: that of the last bank with read data, or zero.
pub open spec fn bus_data<const D: usize>(i: ChipInputs<D>) -> Bits<D> {
    if i.banks@[3].read_valid {
        i.banks@[3].read_data
    } else if i.banks@[2].read_valid {
        i.banks@[2].read_data
    } else if i.banks@[1].read_valid {
        i.banks@[1].read_data
    } else if i.banks@[0].read_valid {
        i.banks@[0].read_data
    } else {
        zero()
    }
}

/// The mode register load: the fields come from the address bits; bits 10
/// and 11 must be clear.
pub open spec fn mode_loaded(r: ChipRegisters, a: Bits<12>) -> ChipRegisters {
    ChipRegisters {
        counter: zero(),
        state: if bit_field::<2, 12>(a, 10).val() != 0 {
            MasterState::Error
        } else {
            MasterState::LoadModeRegister
        },
        burst_len: bit_field::<3, 12>(a, 0),
        burst_type: a@[3],
        cas_latency: bit_field::<3, 12>(a, 4),
        op_mode: bit_field::<2, 12>(a, 7),
        write_burst_mode: a@[9],
        ..r
    }
}

/// The registers after one clock edge, before the banks are heard: an
/// unknown mode makes the state an error unless the step sets it.
pub open spec fn stepped<const D: usize>(
    r: ChipRegisters,
    i: ChipInputs<D>,
    d: ChipDelays,
) -> ChipRegisters {
    let kept = if mode_unknown(r) {
        MasterState::Error
    } else {
        r.state
    };
    let quiet = i.cmd == SDRAMCommand::NOP;
    let counted = ChipRegisters { counter: incremented(r.counter), state: kept, ..r };
    match r.state {
        MasterState::Boot => ChipRegisters {
            state: if r.counter.val() == d.boot_delay.val() {
                MasterState::WaitPrecharge
            } else if !quiet {
                MasterState::Error
            } else {
                kept
            },
            ..counted
        },
        MasterState::WaitPrecharge => match i.cmd {
            SDRAMCommand::NOP => ChipRegisters { state: kept, ..r },
            SDRAMCommand::Precharge => {
                if !i.address@[10] {
                    ChipRegisters { state: MasterState::Error, ..r }
                } else {
                    ChipRegisters { counter: zero(), state: MasterState::Precharge, ..r }
                }
            },
            _ => ChipRegisters { state: MasterState::Error, ..r },
        },
        MasterState::Precharge => ChipRegisters {
            state: if !quiet {
                MasterState::Error
            } else if r.counter.val() == d.t_rp.val() {
                MasterState::WaitAutorefresh
            } else {
                kept
            },
            ..counted
        },
        MasterState::WaitAutorefresh => match i.cmd {
            SDRAMCommand::NOP => ChipRegisters { state: kept, ..r },
            SDRAMCommand::AutoRefresh => {
                if any_busy(i) {
                    ChipRegisters { state: MasterState::Error, ..r }
                } else {
                    ChipRegisters {
                        state: kept,
                        auto_refresh_init_counter: incremented(r.auto_refresh_init_counter),
                        ..r
                    }
                }
            },
            SDRAMCommand::LoadModeRegister => {
                if r.auto_refresh_init_counter.val() < 2 {
                    ChipRegisters { state: MasterState::Error, ..r }
                } else {
                    mode_loaded(r, i.address)
                }
            },
            _ => ChipRegisters { state: MasterState::Error, ..r },
        },
        MasterState::LoadModeRegister => ChipRegisters {
            state: if !quiet || r.burst_len.val() > 3 || r.cas_latency.val() > 3
                || r.cas_latency.val() == 0 || r.op_mode.val() != 0 {
                MasterState::Error
            } else if r.counter.val() == d.load_mode_timing.val() {
                MasterState::Ready
            } else {
                kept
            },
            ..counted
        },
        MasterState::Error => ChipRegisters { state: kept, ..r },
        MasterState::Ready => ChipRegisters { state: kept, ..r },
    }
}

/// The registers after one clock edge: a failed bank fails the chip.
pub open spec fn next_registers<const D: usize>(
    r: ChipRegisters,
    i: ChipInputs<D>,
    d: ChipDelays,
) -> ChipRegisters {
    if any_error(i) {
        ChipRegisters { state: MasterState::Error, ..stepped(r, i, d) }
    } else {
        stepped(r, i, d)
    }
}

/// `out` is what the chip drives while the registers hold `r` and the
/// inputs are `i`.
pub open spec fn drives<const D: usize>(out: ChipOutputs<D>, r: ChipRegisters, i: ChipInputs<D>) -> bool {
    &&& out.test_error == (r.state == MasterState::Error)
    &&& out.test_ready == (r.state == MasterState::Ready)
    &&& forall|k: int| 0 <= k < 4 ==> #[trigger] out.select@[k] == selects(i, k as nat)
    &&& out.write_burst == r.write_burst_mode
    &&& out.burst_len.wf() && out.burst_len.val() == burst_words(r)
    &&& out.cas_delay.wf() && out.cas_delay.val() == cas_clocks(r)
    &&& out.bus_write_enable == (exists|k: int| 0 <= k < 4 && (#[trigger] i.banks@[k]).read_valid)
    &&& out.bus_write_data == bus_data(i)
}

/// The controller of a chip, with its start up delays in clocks.
pub struct SDRAMSimulator<const D: usize> {
    pub regs: ChipRegisters,
    pub delays: ChipDelays,
}

impl<const D: usize> SDRAMSimulator<D> {
    pub open spec fn wf(self) -> bool {
        self.regs.wf() && self.delays.wf()
    }

    /// A chip at power on that boots in `boot_delay` clocks, precharges in
    /// `t_rp`, activates two banks `t_rrd` apart and loads its mode
    /// register in `load_mode_timing`.
    pub fn new(boot_delay: u32, t_rp: u32, t_rrd: u32, load_mode_timing: u32) -> (s: Self)
        requires
            t_rp >= 1,
            t_rrd >= 1,
            load_mode_timing >= 1,
        ensures
            s.wf(),
            s.regs == ChipRegisters::power_on(),
            s.delays.boot_delay.val() == boot_delay,
            s.delays.t_rp.val() == t_rp - 1,
            s.delays.t_rrd.val() == t_rrd - 1,
            s.delays.load_mode_timing.val() == load_mode_timing - 1,
    {
        proof {
            lemma2_to64();
        }
        SDRAMSimulator {
            regs: ChipRegisters {
                state: MasterState::Boot,
                counter: Bits::from(0u64),
                auto_refresh_init_counter: Bits::from(0u64),
                write_burst_mode: false,
                cas_latency: Bits::from(0u64),
                burst_type: false,
                burst_len: Bits::from(0u64),
                op_mode: Bits::from(0u64),
            },
            delays: ChipDelays {
                boot_delay: Bits::from(boot_delay as u64),
                t_rp: Bits::from((t_rp - 1) as u64),
                t_rrd: Bits::from((t_rrd - 1) as u64),
                load_mode_timing: Bits::from((load_mode_timing - 1) as u64),
            },
        }
    }

    /// One clock: what the chip drives while `inputs` hold, and the
    /// registers after the clock edge.
    pub fn update(&mut self, inputs: &ChipInputs<D>) -> (out: ChipOutputs<D>)
        requires
            old(self).wf(),
            inputs_wf(*inputs),
        ensures
            final(self).wf(),
            final(self).regs == next_registers(old(self).regs, *inputs, old(self).delays),
            final(self).delays == old(self).delays,
            drives(out, old(self).regs, *inputs),
    {
        proof {
            lemma2_to64();
        }
        let r = self.regs;
        let d = self.delays;
        let address = inputs.address;
        let quiet = inputs.cmd == SDRAMCommand::NOP;
        let b = &inputs.banks;
        let three3: Bits<3> = Bits::from(3u64);
        let zero3: Bits<3> = Bits::from(0u64);
        let two3: Bits<3> = Bits::from(2u64);
        let one3: Bits<3> = Bits::from(1u64);
        // The banks' settings, from the mode register.
        let burst_len: Bits<4> = if same(&r.burst_len, &zero3) {
            Bits::from(1u64)
        } else if same(&r.burst_len, &one3) {
            Bits::from(2u64)
        } else if same(&r.burst_len, &two3) {
            Bits::from(4u64)
        } else if same(&r.burst_len, &three3) {
            Bits::from(8u64)
        } else {
            Bits::from(1u64)
        };
        let cas_delay: Bits<3> = if same(&r.cas_latency, &zero3) {
            Bits::from(0u64)
        } else if same(&r.cas_latency, &three3) {
            Bits::from(3u64)
        } else {
            Bits::from(2u64)
        };
        let unknown = below(&three3, &r.burst_len) || !(same(&r.cas_latency, &zero3) || same(
            &r.cas_latency,
            &two3,
        ) || same(&r.cas_latency, &three3));
        let bank_index = inputs.bank.index();
        let all = inputs.cmd == SDRAMCommand::AutoRefresh || (inputs.cmd == SDRAMCommand::Precharge
            && address.get_bit(10));
        let select = [
            bank_index == 0 || all,
            bank_index == 1 || all,
            bank_index == 2 || all,
            bank_index == 3 || all,
        ];
        let bus_write_enable = b[0].read_valid || b[1].read_valid || b[2].read_valid
            || b[3].read_valid;
        let bus_write_data = if b[3].read_valid {
            b[3].read_data
        } else if b[2].read_valid {
            b[2].read_data
        } else if b[1].read_valid {
            b[1].read_data
        } else if b[0].read_valid {
            b[0].read_data
        } else {
            Bits::from(0u64)
        };
        let banks_busy = b[0].busy || b[1].busy || b[2].busy || b[3].busy;
        let banks_error = b[0].error || b[1].error || b[2].error || b[3].error;
        proof {
            assert(banks_busy == any_busy(*inputs)) by {
                if any_busy(*inputs) {
                    let k = choose|k: int| 0 <= k < 4 && (#[trigger] inputs.banks@[k]).busy;
                    assert(k == 0 || k == 1 || k == 2 || k == 3);
                }
            }
            assert(banks_error == any_error(*inputs)) by {
                if any_error(*inputs) {
                    let k = choose|k: int| 0 <= k < 4 && (#[trigger] inputs.banks@[k]).error;
                    assert(k == 0 || k == 1 || k == 2 || k == 3);
                }
            }
        }
        // The next state.
        let mut n = r;
        if unknown {
            n.state = MasterState::Error;
        }
        match r.state {
            MasterState::Boot => {
                if !quiet {
                    n.state = MasterState::Error;
                }
                n.counter = r.counter + 1u64;
                if same(&r.counter, &d.boot_delay) {
                    n.state = MasterState::WaitPrecharge;
                }
            },
            MasterState::WaitPrecharge => {
                match inputs.cmd {
                    SDRAMCommand::NOP => {},
                    SDRAMCommand::Precharge => {
                        if !address.get_bit(10) {
                            n.state = MasterState::Error;
                        } else {
                            n.counter = Bits::from(0u64);
                            n.state = MasterState::Precharge;
                        }
                    },
                    _ => {
                        n.state = MasterState::Error;
                    },
                }
            },
            MasterState::Precharge => {
                n.counter = r.counter + 1u64;
                if same(&r.counter, &d.t_rp) {
                    n.state = MasterState::WaitAutorefresh;
                }
                if !quiet {
                    n.state = MasterState::Error;
                }
            },
            MasterState::WaitAutorefresh => {
                match inputs.cmd {
                    SDRAMCommand::NOP => {},
                    SDRAMCommand::AutoRefresh => {
                        if banks_busy {
                            n.state = MasterState::Error;
                        } else {
                            n.auto_refresh_init_counter = r.auto_refresh_init_counter + 1u64;
                        }
                    },
                    SDRAMCommand::LoadModeRegister => {
                        let two: Bits<32> = Bits::from(2u64);
                        if below(&r.auto_refresh_init_counter, &two) {
                            n.state = MasterState::Error;
                        } else {
                            n.counter = Bits::from(0u64);
                            n.state = MasterState::LoadModeRegister;
                            n.burst_len = field::<3, 12>(&address, 0);
                            n.burst_type = address.get_bit(3);
                            n.cas_latency = field::<3, 12>(&address, 4);
                            n.op_mode = field::<2, 12>(&address, 7);
                            n.write_burst_mode = address.get_bit(9);
                            let reserved = field::<2, 12>(&address, 10);
                            let clear: Bits<2> = Bits::from(0u64);
                            if !same(&reserved, &clear) {
                                n.state = MasterState::Error;
                            }
                        }
                    },
                    _ => {
                        n.state = MasterState::Error;
                    },
                }
            },
            MasterState::LoadModeRegister => {
                n.counter = r.counter + 1u64;
                if same(&r.counter, &d.load_mode_timing) {
                    n.state = MasterState::Ready;
                }
                if !quiet {
                    n.state = MasterState::Error;
                }
                let zero2: Bits<2> = Bits::from(0u64);
                if below(&three3, &r.burst_len) {
                    n.state = MasterState::Error;
                }
                if below(&three3, &r.cas_latency) || same(&r.cas_latency, &zero3) {
                    n.state = MasterState::Error;
                }
                if !same(&r.op_mode, &zero2) {
                    n.state = MasterState::Error;
                }
            },
            MasterState::Error => {},
            MasterState::Ready => {},
        }
        if banks_error {
            n.state = MasterState::Error;
        }
        self.regs = n;
        ChipOutputs {
            test_error: r.state == MasterState::Error,
            test_ready: r.state == MasterState::Ready,
            select,
            write_burst: r.write_burst_mode,
            burst_len,
            cas_delay,
            bus_write_enable,
            bus_write_data,
        }
    }
}

/// The registers after one clock for each element of `ins`, in order.
pub open spec fn run<const D: usize>(
    r: ChipRegisters,
    ins: Seq<ChipInputs<D>>,
    d: ChipDelays,
) -> ChipRegisters
    decreases ins.len(),
{
    if ins.len() == 0 {
        r
    } else {
        run(next_registers(r, ins[0], d), ins.drop_first(), d)
    }
}

/// A failed chip stays failed whatever it is given.
pub proof fn law_error_is_final<const D: usize>(
    r: ChipRegisters,
    ins: Seq<ChipInputs<D>>,
    d: ChipDelays,
)
    requires
        r.state == MasterState::Error,
    ensures
        run(r, ins, d).state == MasterState::Error,
    decreases ins.len(),
{
    if ins.len() > 0 {
        law_error_is_final(next_registers(r, ins[0], d), ins.drop_first(), d);
    }
}

/// A failed bank fails the chip.
pub proof fn law_bank_error_fails_chip<const D: usize>(
    r: ChipRegisters,
    i: ChipInputs<D>,
    d: ChipDelays,
)
    requires
        any_error(i),
    ensures
        next_registers(r, i, d).state == MasterState::Error,
{
}

/// An auto refresh during start up while a bank is busy fails the chip.
pub proof fn law_refresh_while_busy_fails<const D: usize>(
    r: ChipRegisters,
    i: ChipInputs<D>,
    d: ChipDelays,
)
    requires
        r.state == MasterState::WaitAutorefresh,
        i.cmd == SDRAMCommand::AutoRefresh,
        any_busy(i),
    ensures
        next_registers(r, i, d).state == MasterState::Error,
{
}

/// The chip becomes ready only from loading a mode it supports, with
/// nothing but NOPs on the command pins and no bank failed.
pub proof fn law_ready_only_from_mode_load<const D: usize>(
    r: ChipRegisters,
    i: ChipInputs<D>,
    d: ChipDelays,
)
    requires
        r.state != MasterState::Ready,
        next_registers(r, i, d).state == MasterState::Ready,
    ensures
        r.state == MasterState::LoadModeRegister,
        i.cmd == SDRAMCommand::NOP,
        r.counter.val() == d.load_mode_timing.val(),
        r.burst_len.val() <= 3,
        1 <= r.cas_latency.val() <= 3,
        r.op_mode.val() == 0,
        !any_error(i),
{
}

/// A chip loading its mode register or ready has seen at least two auto
/// refreshes.
pub open spec fn refreshed_twice(r: ChipRegisters) -> bool {
    (r.state == MasterState::LoadModeRegister || r.state == MasterState::Ready)
        ==> r.auto_refresh_init_counter.val() >= 2
}

proof fn lemma_refreshed_twice_kept<const D: usize>(
    r: ChipRegisters,
    ins: Seq<ChipInputs<D>>,
    d: ChipDelays,
)
    requires
        refreshed_twice(r),
    ensures
        refreshed_twice(run(r, ins, d)),
    decreases ins.len(),
{
    if ins.len() > 0 {
        lemma_refreshed_twice_kept(next_registers(r, ins[0], d), ins.drop_first(), d);
    }
}

/// Whatever it is given from power on, a chip that is loading its mode
/// register or ready has seen at least two auto refreshes.
pub proof fn law_ready_means_refreshed<const D: usize>(ins: Seq<ChipInputs<D>>, d: ChipDelays)
    ensures
        refreshed_twice(run(ChipRegisters::power_on(), ins, d)),
{
    lemma_refreshed_twice_kept(ChipRegisters::power_on(), ins, d);
}

/// Law: whatever the chip is told in a clock, the banks are told bursts of
/// `2^code` words for a mode-register burst length code of 0 to 3 (1, 2, 4
/// or 8 words), and the CAS delay the mode register sets when it is 0, 2 or
/// 3 clocks.
pub proof fn law_banks_get_the_mode_register<const D: usize>(
    out: ChipOutputs<D>,
    r: ChipRegisters,
    i: ChipInputs<D>,
)
    requires
        drives(out, r, i),
    ensures
        r.burst_len.val() < 4 ==> out.burst_len.val() == pow2(r.burst_len.val()),
        (r.cas_latency.val() == 0 || r.cas_latency.val() == 2 || r.cas_latency.val() == 3)
            ==> out.cas_delay.val() == r.cas_latency.val(),
{
    lemma2_to64();
}

} // verus!
