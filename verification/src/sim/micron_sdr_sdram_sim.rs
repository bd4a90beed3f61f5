//! A model of a Micron SDR SDRAM that checks, clock by clock, that a
//! controller brings the chip up the way its data sheet asks: a quiet boot
//! delay, a precharge of all banks, at least two auto refreshes, and a mode
//! register load with a supported burst length and CAS latency.  Clock
//! enable and the data masks are ignored.
use crate::hdl_core::bits::Bits;
use crate::sim::clocked::{below, bit_field, field, incremented, same, zero};
use vstd::arithmetic::power2::*;
use vstd::prelude::*;

verus! {

/// Where the chip is in its start up.
#[derive(Copy, Clone, PartialEq, Eq, Structural, Debug)]
pub enum MasterState {
    Boot,
    WaitPrecharge,
    Precharge,
    WaitAutorefresh,
    Autorefresh,
    LoadModeRegister,
    Ready,
    Error,
}

/// A command on the SDRAM command pins.
#[derive(Copy, Clone, PartialEq, Eq, Structural, Debug)]
pub enum MicronCommand {
    LoadModeRegister,
    AutoRefresh,
    Precharge,
    BurstTerminate,
    Write,
    Read,
    Active,
    NOP,
}

/// What the chip's flip-flops hold between two clock edges.
#[derive(Copy, Clone, Debug)]
pub struct MicronRegisters {
    pub state: MasterState,
    /// Clocks spent in the current timed step.
    pub counter: Bits<32>,
    /// Auto refreshes done so far.
    pub auto_refresh_init_counter: Bits<32>,
    /// The fields of the mode register.
    pub write_burst_mode: bool,
    pub cas_latency: Bits<3>,
    pub burst_type: bool,
    pub burst_len: Bits<3>,
    pub op_mode: Bits<2>,
}

/// How many clocks each step of the start up takes.
#[derive(Copy, Clone, Debug)]
pub struct MicronDelays {
    pub boot_delay: Bits<32>,
    pub precharge_delay: Bits<32>,
    pub autorefresh_delay: Bits<32>,
    pub load_mode_timing: Bits<32>,
}

/// The pins the chip reads in one clock.
#[derive(Copy, Clone, Debug)]
pub struct MicronInputs {
    pub cmd: MicronCommand,
    pub address: Bits<12>,
}

/// The chip's test outputs: a fault was seen, or start up is complete.
#[derive(Copy, Clone, Debug)]
pub struct MicronOutputs {
    pub test_error: bool,
    pub test_ready: bool,
}

impl MicronRegisters {
    pub open spec fn wf(self) -> bool {
        &&& self.counter.wf()
        &&& self.auto_refresh_init_counter.wf()
        &&& self.cas_latency.wf()
        &&& self.burst_len.wf()
        &&& self.op_mode.wf()
    }

    /// The registers at power on: booting, every field clear.
    pub open spec fn power_on() -> Self {
        MicronRegisters {
            state: MasterState::Boot,
            counter: zero(),
            auto_refresh_init_counter: zero(),
            write_burst_mode: false,
            cas_latency: zero(),
            burst_type: false,
            burst_len: zero(),
            op_mode: zero(),
        }
    }
}

impl MicronDelays {
    pub open spec fn wf(self) -> bool {
        &&& self.boot_delay.wf()
        &&& self.precharge_delay.wf()
        &&& self.autorefresh_delay.wf()
        &&& self.load_mode_timing.wf()
    }
}

/// `s`, unless the command was not a NOP, which is an error.
pub open spec fn quiet_or_error(cmd: MicronCommand, s: MasterState) -> MasterState {
    if cmd != MicronCommand::NOP {
        MasterState::Error
    } else {
        s
    }
}

/// Whether the mode register holds a setting the model supports: a burst
/// of at most 8 words, a CAS latency of 1 to 3 clocks, the standard
/// operating mode.
pub open spec fn mode_supported(r: MicronRegisters) -> bool {
    &&& r.burst_len.val() <= 3
    &&& 1 <= r.cas_latency.val() <= 3
    &&& r.op_mode.val() == 0
}

/// The mode register load: the fields come from the address bits.
pub open spec fn mode_loaded(r: MicronRegisters, a: Bits<12>) -> MicronRegisters {
    MicronRegisters {
        counter: zero(),
        state: if bit_field::<3, 12>(a, 10).val() != 0 {
            MasterState::Error
        } else {
            MasterState::LoadModeRegister
        },
        burst_len: bit_field::<3, 12>(a, 0),
        burst_type: a@[3],
        cas_latency: bit_field::<3, 12>(a, 4),
        op_mode: bit_field::<2, 12>(a, 7),
        write_burst_mode: a@[9],
        ..r
    }
}

/// The registers after one clock edge.
pub open spec fn next_registers(r: MicronRegisters, i: MicronInputs, d: MicronDelays) -> MicronRegisters {
    let counted = MicronRegisters { counter: incremented(r.counter), ..r };
    match r.state {
        MasterState::Boot => MicronRegisters {
            state: if r.counter.val() == d.boot_delay.val() {
                MasterState::WaitPrecharge
            } else {
                quiet_or_error(i.cmd, MasterState::Boot)
            },
            ..counted
        },
        MasterState::WaitPrecharge => match i.cmd {
            MicronCommand::NOP => r,
            MicronCommand::Precharge => {
                if !i.address@[10] {
                    MicronRegisters { state: MasterState::Error, ..r }
                } else {
                    MicronRegisters { counter: zero(), state: MasterState::Precharge, ..r }
                }
            },
            _ => MicronRegisters { state: MasterState::Error, ..r },
        },
        MasterState::Precharge => MicronRegisters {
            state: quiet_or_error(
                i.cmd,
                if r.counter.val() == d.precharge_delay.val() {
                    MasterState::WaitAutorefresh
                } else {
                    MasterState::Precharge
                },
            ),
            ..counted
        },
        MasterState::WaitAutorefresh => match i.cmd {
            MicronCommand::NOP => r,
            MicronCommand::AutoRefresh => MicronRegisters {
                counter: zero(),
                state: MasterState::Autorefresh,
                ..r
            },
            MicronCommand::LoadModeRegister => {
                if r.auto_refresh_init_counter.val() < 2 {
                    MicronRegisters { state: MasterState::Error, ..r }
                } else {
                    mode_loaded(r, i.address)
                }
            },
            _ => MicronRegisters { state: MasterState::Error, ..r },
        },
        MasterState::LoadModeRegister => MicronRegisters {
            state: if i.cmd != MicronCommand::NOP || !mode_supported(r) {
                MasterState::Error
            } else if r.counter.val() == d.load_mode_timing.val() {
                MasterState::Ready
            } else {
                MasterState::LoadModeRegister
            },
            ..counted
        },
        MasterState::Autorefresh => {
            let done = r.counter.val() == d.autorefresh_delay.val();
            MicronRegisters {
                state: quiet_or_error(
                    i.cmd,
                    if done {
                        MasterState::WaitAutorefresh
                    } else {
                        MasterState::Autorefresh
                    },
                ),
                auto_refresh_init_counter: if done {
                    incremented(r.auto_refresh_init_counter)
                } else {
                    r.auto_refresh_init_counter
                },
                ..counted
            }
        },
        MasterState::Error => r,
        MasterState::Ready => r,
    }
}

/// The chip at power on, with its start up delays in clocks.
pub struct MicronSDRSimulator<const D: usize> {
    pub regs: MicronRegisters,
    pub delays: MicronDelays,
}

impl<const D: usize> MicronSDRSimulator<D> {
    pub open spec fn wf(self) -> bool {
        self.regs.wf() && self.delays.wf()
    }

    /// A chip at power on that takes the given numbers of clocks to boot,
    /// to precharge, to auto refresh and to load its mode register.
    pub fn new(boot_delay: u32, precharge_delay: u32, autorefresh_delay: u32, load_mode_timing: u32) -> (s:
        Self)
        ensures
            s.wf(),
            s.regs == MicronRegisters::power_on(),
            s.delays.boot_delay.val() == boot_delay,
            s.delays.precharge_delay.val() == precharge_delay,
            s.delays.autorefresh_delay.val() == autorefresh_delay,
            s.delays.load_mode_timing.val() == load_mode_timing,
    {
        proof {
            lemma2_to64();
        }
        MicronSDRSimulator {
            regs: MicronRegisters {
                state: MasterState::Boot,
                counter: Bits::from(0u64),
                auto_refresh_init_counter: Bits::from(0u64),
                write_burst_mode: false,
                cas_latency: Bits::from(0u64),
                burst_type: false,
                burst_len: Bits::from(0u64),
                op_mode: Bits::from(0u64),
            },
            delays: MicronDelays {
                boot_delay: Bits::from(boot_delay as u64),
                precharge_delay: Bits::from(precharge_delay as u64),
                autorefresh_delay: Bits::from(autorefresh_delay as u64),
                load_mode_timing: Bits::from(load_mode_timing as u64),
            },
        }
    }

    /// One clock: the test outputs while `inputs` hold, and the registers
    /// after the clock edge.
    pub fn update(&mut self, inputs: &MicronInputs) -> (out: MicronOutputs)
        requires
            old(self).wf(),
            inputs.address.wf(),
        ensures
            final(self).wf(),
            final(self).regs == next_registers(old(self).regs, *inputs, old(self).delays),
            final(self).delays == old(self).delays,
            out == (MicronOutputs {
                test_error: old(self).regs.state == MasterState::Error,
                test_ready: old(self).regs.state == MasterState::Ready,
            }),
    {
        proof {
            lemma2_to64();
        }
        let r = self.regs;
        let d = self.delays;
        let address = inputs.address;
        let quiet = inputs.cmd == MicronCommand::NOP;
        let mut n = r;
        match r.state {
            MasterState::Boot => {
                if !quiet {
                    n.state = MasterState::Error;
                }
                n.counter = r.counter + 1u64;
                if same(&r.counter, &d.boot_delay) {
                    n.state = MasterState::WaitPrecharge;
                }
            },
            MasterState::WaitPrecharge => {
                match inputs.cmd {
                    MicronCommand::NOP => {},
                    MicronCommand::Precharge => {
                        if !address.get_bit(10) {
                            n.state = MasterState::Error;
                        } else {
                            n.counter = Bits::from(0u64);
                            n.state = MasterState::Precharge;
                        }
                    },
                    _ => {
                        n.state = MasterState::Error;
                    },
                }
            },
            MasterState::Precharge => {
                n.counter = r.counter + 1u64;
                if same(&r.counter, &d.precharge_delay) {
                    n.state = MasterState::WaitAutorefresh;
                }
                if !quiet {
                    n.state = MasterState::Error;
                }
            },
            MasterState::WaitAutorefresh => {
                match inputs.cmd {
                    MicronCommand::NOP => {},
                    MicronCommand::AutoRefresh => {
                        n.counter = Bits::from(0u64);
                        n.state = MasterState::Autorefresh;
                    },
                    MicronCommand::LoadModeRegister => {
                        let two: Bits<32> = Bits::from(2u64);
                        if below(&r.auto_refresh_init_counter, &two) {
                            n.state = MasterState::Error;
                        } else {
                            n.counter = Bits::from(0u64);
                            n.state = MasterState::LoadModeRegister;
                            n.burst_len = field::<3, 12>(&address, 0);
                            n.burst_type = address.get_bit(3);
                            n.cas_latency = field::<3, 12>(&address, 4);
                            n.op_mode = field::<2, 12>(&address, 7);
                            n.write_burst_mode = address.get_bit(9);
                            let reserved = field::<3, 12>(&address, 10);
                            let clear: Bits<3> = Bits::from(0u64);
                            if !same(&reserved, &clear) {
                                n.state = MasterState::Error;
                            }
                        }
                    },
                    _ => {
                        n.state = MasterState::Error;
                    },
                }
            },
            MasterState::LoadModeRegister => {
                n.counter = r.counter + 1u64;
                if same(&r.counter, &d.load_mode_timing) {
                    n.state = MasterState::Ready;
                }
                if !quiet {
                    n.state = MasterState::Error;
                }
                let three: Bits<3> = Bits::from(3u64);
                let zero3: Bits<3> = Bits::from(0u64);
                let zero2: Bits<2> = Bits::from(0u64);
                if below(&three, &r.burst_len) {
                    n.state = MasterState::Error;
                }
                if below(&three, &r.cas_latency) || same(&r.cas_latency, &zero3) {
                    n.state = MasterState::Error;
                }
                if !same(&r.op_mode, &zero2) {
                    n.state = MasterState::Error;
                }
            },
            MasterState::Autorefresh => {
                n.counter = r.counter + 1u64;
                if same(&r.counter, &d.autorefresh_delay) {
                    n.state = MasterState::WaitAutorefresh;
                    n.auto_refresh_init_counter = r.auto_refresh_init_counter + 1u64;
                }
                if !quiet {
                    n.state = MasterState::Error;
                }
            },
            MasterState::Error => {},
            MasterState::Ready => {},
        }
        self.regs = n;
        MicronOutputs {
            test_error: r.state == MasterState::Error,
            test_ready: r.state == MasterState::Ready,
        }
    }
}


/// The registers after one clock for each element of `ins`, in order.
pub open spec fn run(r: MicronRegisters, ins: Seq<MicronInputs>, d: MicronDelays) -> MicronRegisters
    decreases ins.len(),
{
    if ins.len() == 0 {
        r
    } else {
        run(next_registers(r, ins[0], d), ins.drop_first(), d)
    }
}

/// A chip loading its mode register or ready has seen at least two auto
/// refreshes, and a ready chip holds a supported mode.
pub open spec fn start_up_kept(r: MicronRegisters) -> bool {
    &&& (r.state == MasterState::LoadModeRegister || r.state == MasterState::Ready)
        ==> r.auto_refresh_init_counter.val() >= 2
    &&& r.state == MasterState::Ready ==> mode_supported(r)
}

/// A failed chip stays failed, and a ready chip stays ready, whatever it
/// is given.
pub proof fn law_error_and_ready_are_final(r: MicronRegisters, ins: Seq<MicronInputs>, d: MicronDelays)
    requires
        r.state == MasterState::Error || r.state == MasterState::Ready,
    ensures
        run(r, ins, d) == r,
    decreases ins.len(),
{
    if ins.len() > 0 {
        law_error_and_ready_are_final(next_registers(r, ins[0], d), ins.drop_first(), d);
    }
}

/// The chip becomes ready only from loading a supported mode with nothing
/// but NOPs on the command pins.
pub proof fn law_ready_only_from_mode_load(r: MicronRegisters, i: MicronInputs, d: MicronDelays)
    requires
        r.state != MasterState::Ready,
        next_registers(r, i, d).state == MasterState::Ready,
    ensures
        r.state == MasterState::LoadModeRegister,
        mode_supported(r),
        i.cmd == MicronCommand::NOP,
        r.counter.val() == d.load_mode_timing.val(),
{
}

/// Each clock keeps [start_up_kept].
pub proof fn lemma_start_up_kept(r: MicronRegisters, i: MicronInputs, d: MicronDelays)
    requires
        start_up_kept(r),
    ensures
        start_up_kept(next_registers(r, i, d)),
{
}

/// Whatever commands it is given from power on, a chip that is ready has
/// seen at least two auto refreshes and holds a supported mode.
pub proof fn law_ready_means_started_up(ins: Seq<MicronInputs>, d: MicronDelays)
    ensures
        run(MicronRegisters::power_on(), ins, d).state == MasterState::Ready ==> {
            &&& run(MicronRegisters::power_on(), ins, d).auto_refresh_init_counter.val() >= 2
            &&& mode_supported(run(MicronRegisters::power_on(), ins, d))
        },
{
    lemma_run_keeps_start_up(MicronRegisters::power_on(), ins, d);
}

proof fn lemma_run_keeps_start_up(r: MicronRegisters, ins: Seq<MicronInputs>, d: MicronDelays)
    requires
        start_up_kept(r),
    ensures
        start_up_kept(run(r, ins, d)),
    decreases ins.len(),
{
    if ins.len() > 0 {
        lemma_start_up_kept(r, ins[0], d);
        lemma_run_keeps_start_up(next_registers(r, ins[0], d), ins.drop_first(), d);
    }
}

} // verus!
