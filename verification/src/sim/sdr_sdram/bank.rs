//! One bank of a simulated SDR SDRAM with auto refresh.  The bank checks,
//! clock by clock, that the commands it is given keep the chip's timing
//! rules, and drops into [BankState::Error] when they do not.
//!
//! The bank's memory array and its two read-latency delay lines are parts of
//! their own: [MemoryBank::update] reads what they put out (in
//! [BankInputs]) and says what they are to be driven with (in
//! [BankOutputs]).
use crate::hdl_core::bits::{bit_cast, Bits};
use crate::sim::clocked::{below, decreased, incremented, same, zero};
use crate::sim::sdr_sdram::sdr_sdram_cmd_sim::SDRAMCommand;
use vstd::arithmetic::power2::*;
use vstd::prelude::*;

verus! {

/// The state of one bank.
#[derive(Copy, Clone, PartialEq, Eq, Structural, Debug)]
pub enum BankState {
    Idle,
    Active,
    Reading,
    Precharging,
    Writing,
    Error,
    Autorefreshing,
}

/// What the bank's flip-flops hold between two clock edges.  A bank has
/// `2^R` rows of `2^C` columns of `D`-bit words.
#[derive(Copy, Clone, Debug)]
pub struct BankRegisters<const R: usize, const C: usize, const D: usize> {
    pub state: BankState,
    /// Whether the burst under way ends with a precharge (address bit 10 of
    /// its read or write command).
    pub auto_precharge: bool,
    pub active_row: Bits<R>,
    /// Words of the burst under way done so far.
    pub burst_counter: Bits<4>,
    pub active_col: Bits<C>,
    /// Clocks spent precharging.
    pub delay_counter: Bits<32>,
    /// Clocks since the last row activation.
    pub t_activate: Bits<32>,
    /// The write data of the previous clock.
    pub write_reg: Bits<D>,
    /// Clocks since the last auto refresh began.
    pub refresh_counter: Bits<32>,
    /// Set once the first auto refresh has begun.
    pub refresh_active: bool,
}

/// What the bank reads in one clock: its pins, and what its memory array
/// and its delay lines put out.
#[derive(Copy, Clone, Debug)]
pub struct BankInputs<const D: usize> {
    pub cas_delay: Bits<3>,
    pub address: Bits<12>,
    pub burst_len: Bits<4>,
    pub cmd: SDRAMCommand,
    pub write_data: Bits<D>,
    /// Whether the command is meant for this bank.
    pub select: bool,
    /// The word the memory array reads at the current address.
    pub mem_read_data: Bits<D>,
    /// The output of the read-data delay line.
    pub delayed_data: Bits<D>,
    /// The output of the read-valid delay line.
    pub delayed_valid: bool,
}

/// The timing limits of a bank, in clocks less one.
#[derive(Copy, Clone, Debug)]
pub struct BankTimings<const A: usize> {
    /// Least time from activation to precharge.
    pub t_ras: Bits<32>,
    /// Least time from activation to activation.
    pub t_rc: Bits<32>,
    /// Least time from activation to read or write.
    pub t_rcd: Bits<32>,
    /// Time a precharge takes.
    pub t_rp: Bits<32>,
    /// Longest time allowed between two auto refreshes.
    pub t_refresh_max: Bits<32>,
    /// Time an auto refresh takes.
    pub t_rfc: Bits<32>,
    /// The position of the row number in a memory address.
    pub row_shift: Bits<A>,
}

/// What the bank drives in one clock: its pins, and the inputs of its
/// memory array and its delay lines.
#[derive(Copy, Clone, Debug)]
pub struct BankOutputs<const A: usize, const D: usize> {
    pub error: bool,
    pub busy: bool,
    pub read_data: Bits<D>,
    pub read_valid: bool,
    /// The memory address, row above column, for reading and writing.
    pub mem_address: Bits<A>,
    pub mem_write_data: Bits<D>,
    pub mem_write_enable: bool,
    /// The input of the read-data delay line, and its delay.
    pub data_delay_in: Bits<D>,
    pub data_delay: Bits<3>,
    /// The input of the read-valid delay line, and its delay.
    pub valid_delay_in: bool,
    pub valid_delay: Bits<3>,
}

impl<const R: usize, const C: usize, const D: usize> BankRegisters<R, C, D> {
    pub open spec fn wf(self) -> bool {
        &&& self.active_row.wf()
        &&& self.burst_counter.wf()
        &&& self.active_col.wf()
        &&& self.delay_counter.wf()
        &&& self.t_activate.wf()
        &&& self.write_reg.wf()
        &&& self.refresh_counter.wf()
    }

    /// The registers at power on: idle, every counter clear.
    pub open spec fn power_on() -> Self {
        BankRegisters {
            state: BankState::Idle,
            auto_precharge: false,
            active_row: zero(),
            burst_counter: zero(),
            active_col: zero(),
            delay_counter: zero(),
            t_activate: zero(),
            write_reg: zero(),
            refresh_counter: zero(),
            refresh_active: false,
        }
    }
}

impl<const D: usize> BankInputs<D> {
    pub open spec fn wf(self) -> bool {
        &&& self.cas_delay.wf()
        &&& self.address.wf()
        &&& self.burst_len.wf()
        &&& self.write_data.wf()
        &&& self.mem_read_data.wf()
        &&& self.delayed_data.wf()
    }
}

impl<const A: usize> BankTimings<A> {
    pub open spec fn wf(self) -> bool {
        &&& self.t_ras.wf()
        &&& self.t_rc.wf()
        &&& self.t_rcd.wf()
        &&& self.t_rp.wf()
        &&& self.t_refresh_max.wf()
        &&& self.t_rfc.wf()
        &&& self.row_shift.wf()
    }
}

/// The registers as the clock leaves them when no command changes them:
/// the activation timer counts, the write data is latched, and the refresh
/// timer counts once refreshing has begun.
pub open spec fn held<const R: usize, const C: usize, const D: usize>(
    r: BankRegisters<R, C, D>,
    i: BankInputs<D>,
) -> BankRegisters<R, C, D> {
    BankRegisters {
        t_activate: incremented(r.t_activate),
        write_reg: i.write_data,
        refresh_counter: if r.refresh_active {
            incremented(r.refresh_counter)
        } else {
            r.refresh_counter
        },
        ..r
    }
}

/// `r` in the error state.
pub open spec fn failed<const R: usize, const C: usize, const D: usize>(
    r: BankRegisters<R, C, D>,
) -> BankRegisters<R, C, D> {
    BankRegisters { state: BankState::Error, ..r }
}

/// A read or write burst starts at the column the address gives.
pub open spec fn burst_started<const R: usize, const C: usize, const D: usize>(
    h: BankRegisters<R, C, D>,
    i: BankInputs<D>,
) -> BankRegisters<R, C, D> {
    BankRegisters { active_col: Bits::<C>::from_val(i.address.val()), burst_counter: zero(), ..h }
}

/// Precharging begins.
pub open spec fn precharge_started<const R: usize, const C: usize, const D: usize>(
    h: BankRegisters<R, C, D>,
) -> BankRegisters<R, C, D> {
    BankRegisters { delay_counter: zero(), state: BankState::Precharging, ..h }
}

/// One word of a burst is done.
pub open spec fn burst_advanced<const R: usize, const C: usize, const D: usize>(
    h: BankRegisters<R, C, D>,
) -> BankRegisters<R, C, D> {
    BankRegisters {
        burst_counter: incremented(h.burst_counter),
        active_col: incremented(h.active_col),
        ..h
    }
}

/// Where a finished burst leaves the bank: precharging when it asked for
/// it, else with its row still open.
pub open spec fn burst_finished<const R: usize, const C: usize, const D: usize>(
    b: BankRegisters<R, C, D>,
    auto_precharge: bool,
) -> BankRegisters<R, C, D> {
    if auto_precharge {
        precharge_started(b)
    } else {
        BankRegisters { state: BankState::Active, ..b }
    }
}

/// The registers after one clock edge, before the refresh deadline is
/// checked.
pub open spec fn stepped<const R: usize, const C: usize, const A: usize, const D: usize>(
    r: BankRegisters<R, C, D>,
    i: BankInputs<D>,
    t: BankTimings<A>,
) -> BankRegisters<R, C, D> {
    let h = held(r, i);
    match r.state {
        BankState::Idle => {
            if !i.select {
                h
            } else {
                match i.cmd {
                    SDRAMCommand::Active => {
                        if r.t_activate.val() < t.t_rcd.val() {
                            failed(h)
                        } else {
                            BankRegisters {
                                t_activate: zero(),
                                active_row: Bits::<R>::from_val(i.address.val()),
                                delay_counter: zero(),
                                state: BankState::Active,
                                ..h
                            }
                        }
                    },
                    SDRAMCommand::NOP => h,
                    SDRAMCommand::Precharge => h,
                    SDRAMCommand::LoadModeRegister => h,
                    SDRAMCommand::AutoRefresh => BankRegisters {
                        state: BankState::Autorefreshing,
                        refresh_active: true,
                        refresh_counter: zero(),
                        ..h
                    },
                    _ => failed(h),
                }
            }
        },
        BankState::Active => match i.cmd {
            SDRAMCommand::NOP => h,
            SDRAMCommand::Read => {
                if r.t_activate.val() < t.t_rcd.val() {
                    failed(h)
                } else {
                    BankRegisters {
                        state: BankState::Reading,
                        auto_precharge: i.address@[10],
                        ..burst_started(h, i)
                    }
                }
            },
            SDRAMCommand::Write => {
                if r.t_activate.val() < t.t_rcd.val() {
                    failed(h)
                } else {
                    BankRegisters { state: BankState::Writing, ..burst_started(h, i) }
                }
            },
            SDRAMCommand::Precharge => {
                if r.t_activate.val() < t.t_ras.val() {
                    failed(h)
                } else {
                    precharge_started(h)
                }
            },
            _ => failed(h),
        },
        BankState::Reading => match i.cmd {
            SDRAMCommand::NOP => {
                if r.burst_counter.val() == i.burst_len.val() {
                    burst_finished(burst_advanced(h), r.auto_precharge)
                } else {
                    burst_advanced(h)
                }
            },
            SDRAMCommand::Read => BankRegisters {
                auto_precharge: i.address@[10],
                ..burst_started(h, i)
            },
            SDRAMCommand::Precharge => {
                if r.auto_precharge {
                    failed(h)
                } else {
                    precharge_started(h)
                }
            },
            _ => failed(h),
        },
        BankState::Precharging => match i.cmd {
            SDRAMCommand::NOP => BankRegisters {
                delay_counter: incremented(r.delay_counter),
                state: if r.delay_counter.val() == t.t_rp.val() {
                    BankState::Idle
                } else {
                    r.state
                },
                ..h
            },
            _ => failed(h),
        },
        BankState::Autorefreshing => match i.cmd {
            SDRAMCommand::NOP => {
                if r.refresh_counter.val() == t.t_rfc.val() {
                    BankRegisters { state: BankState::Idle, ..h }
                } else {
                    h
                }
            },
            _ => failed(h),
        },
        BankState::Writing => match i.cmd {
            SDRAMCommand::NOP => {
                if r.burst_counter.val() == decreased(i.burst_len, 1).val() {
                    burst_finished(burst_advanced(h), r.auto_precharge)
                } else {
                    burst_advanced(h)
                }
            },
            SDRAMCommand::Write => BankRegisters {
                auto_precharge: i.address@[10],
                ..burst_started(h, i)
            },
            SDRAMCommand::Precharge => {
                if r.auto_precharge {
                    failed(h)
                } else {
                    precharge_started(h)
                }
            },
            _ => failed(h),
        },
        BankState::Error => h,
    }
}

/// The registers after one clock edge: a bank whose refresh timer has
/// reached the longest time allowed between refreshes fails.
pub open spec fn next_registers<const R: usize, const C: usize, const A: usize, const D: usize>(
    r: BankRegisters<R, C, D>,
    i: BankInputs<D>,
    t: BankTimings<A>,
) -> BankRegisters<R, C, D> {
    if r.refresh_counter.val() >= t.t_refresh_max.val() {
        failed(stepped(r, i, t))
    } else {
        stepped(r, i, t)
    }
}

/// What the bank drives during a clock.
pub open spec fn bank_outputs<const R: usize, const C: usize, const A: usize, const D: usize>(
    r: BankRegisters<R, C, D>,
    i: BankInputs<D>,
    t: BankTimings<A>,
) -> BankOutputs<A, D> {
    BankOutputs {
        error: r.state == BankState::Error,
        busy: r.state != BankState::Idle,
        read_data: i.delayed_data,
        read_valid: i.delayed_valid,
        mem_address: bit_cast_spec::<A, R>(r.active_row).shl_bits(t.row_shift).or_bits(
            bit_cast_spec::<A, C>(r.active_col),
        ),
        mem_write_data: r.write_reg,
        mem_write_enable: r.state == BankState::Writing,
        data_delay_in: i.mem_read_data,
        data_delay: decreased(i.cas_delay, 2),
        valid_delay_in: r.state == BankState::Reading && i.cmd == SDRAMCommand::NOP
            && r.burst_counter.val() != i.burst_len.val(),
        valid_delay: decreased(i.cas_delay, 1),
    }
}

/// `x` narrowed or widened to `M` bits, as [bit_cast] gives it.
pub open spec fn bit_cast_spec<const M: usize, const N: usize>(x: Bits<N>) -> Bits<M> {
    Bits::<M>::from_val(x.val())
}

/// A bank: its registers and its timing limits.
pub struct MemoryBank<const R: usize, const C: usize, const A: usize, const D: usize> {
    pub regs: BankRegisters<R, C, D>,
    pub timings: BankTimings<A>,
}

impl<const R: usize, const C: usize, const A: usize, const D: usize> MemoryBank<R, C, A, D> {
    pub open spec fn wf(self) -> bool {
        self.regs.wf() && self.timings.wf()
    }

    /// A bank at power on, with timing limits given in clocks: each limit is
    /// kept less one, and the row sits above the `C` column bits.
    pub fn new(
        t_ras_clocks: u32,
        t_rc_clocks: u32,
        t_rcd_clocks: u32,
        t_rp_clocks: u32,
        t_refresh_max_clocks: u32,
        t_rfc_clocks: u32,
    ) -> (b: Self)
        requires
            R + C == A,
            t_ras_clocks >= 1,
            t_rc_clocks >= 1,
            t_rcd_clocks >= 1,
            t_rp_clocks >= 1,
            t_refresh_max_clocks >= 1,
            t_rfc_clocks >= 1,
        ensures
            b.wf(),
            b.regs == BankRegisters::<R, C, D>::power_on(),
            b.timings.t_ras.val() == t_ras_clocks - 1,
            b.timings.t_rc.val() == t_rc_clocks - 1,
            b.timings.t_rcd.val() == t_rcd_clocks - 1,
            b.timings.t_rp.val() == t_rp_clocks - 1,
            b.timings.t_refresh_max.val() == t_refresh_max_clocks - 1,
            b.timings.t_rfc.val() == t_rfc_clocks - 1,
            b.timings.row_shift == Bits::<A>::from_val(C as nat),
    {
        proof {
            lemma2_to64();
        }
        let regs = BankRegisters {
            state: BankState::Idle,
            auto_precharge: false,
            active_row: Bits::from(0u64),
            burst_counter: Bits::from(0u64),
            active_col: Bits::from(0u64),
            delay_counter: Bits::from(0u64),
            t_activate: Bits::from(0u64),
            write_reg: Bits::from(0u64),
            refresh_counter: Bits::from(0u64),
            refresh_active: false,
        };
        let timings = BankTimings {
            t_ras: Bits::from((t_ras_clocks - 1) as u64),
            t_rc: Bits::from((t_rc_clocks - 1) as u64),
            t_rcd: Bits::from((t_rcd_clocks - 1) as u64),
            t_rp: Bits::from((t_rp_clocks - 1) as u64),
            t_refresh_max: Bits::from((t_refresh_max_clocks - 1) as u64),
            t_rfc: Bits::from((t_rfc_clocks - 1) as u64),
            row_shift: Bits::from(C as u64),
        };
        MemoryBank { regs, timings }
    }

    /// One clock: what the bank drives while `inputs` hold, and its
    /// registers after the clock edge.
    pub fn update(&mut self, inputs: &BankInputs<D>) -> (out: BankOutputs<A, D>)
        requires
            old(self).wf(),
            inputs.wf(),
        ensures
            final(self).wf(),
            final(self).regs == next_registers(old(self).regs, *inputs, old(self).timings),
            final(self).timings == old(self).timings,
            out == bank_outputs(old(self).regs, *inputs, old(self).timings),
    {
        proof {
            lemma2_to64();
        }
        let r = self.regs;
        let t = self.timings;
        let address = inputs.address;
        let mut n = r;
        n.t_activate = r.t_activate + 1u64;
        n.write_reg = inputs.write_data;
        n.refresh_counter = r.refresh_counter + r.refresh_active;
        let mut valid_delay_in = false;
        let col_one: Bits<C> = Bits::from(1u64);
        match r.state {
            BankState::Idle => {
                if inputs.select {
                    match inputs.cmd {
                        SDRAMCommand::Active => {
                            if below(&r.t_activate, &t.t_rcd) {
                                n.state = BankState::Error;
                            } else {
                                n.t_activate = Bits::from(0u64);
                                n.active_row = bit_cast::<R, 12>(address);
                                n.delay_counter = Bits::from(0u64);
                                n.state = BankState::Active;
                            }
                        },
                        SDRAMCommand::NOP => {},
                        SDRAMCommand::Precharge => {},
                        SDRAMCommand::AutoRefresh => {
                            n.state = BankState::Autorefreshing;
                            n.refresh_active = true;
                            n.refresh_counter = Bits::from(0u64);
                        },
                        SDRAMCommand::LoadModeRegister => {},
                        _ => {
                            n.state = BankState::Error;
                        },
                    }
                }
            },
            BankState::Active => {
                match inputs.cmd {
                    SDRAMCommand::NOP => {},
                    SDRAMCommand::Read => {
                        if below(&r.t_activate, &t.t_rcd) {
                            n.state = BankState::Error;
                        } else {
                            n.active_col = bit_cast::<C, 12>(address);
                            n.burst_counter = Bits::from(0u64);
                            n.state = BankState::Reading;
                            n.auto_precharge = address.get_bit(10);
                        }
                    },
                    SDRAMCommand::Write => {
                        if below(&r.t_activate, &t.t_rcd) {
                            n.state = BankState::Error;
                        } else {
                            n.active_col = bit_cast::<C, 12>(address);
                            n.burst_counter = Bits::from(0u64);
                            n.state = BankState::Writing;
                        }
                    },
                    SDRAMCommand::Precharge => {
                        if below(&r.t_activate, &t.t_ras) {
                            n.state = BankState::Error;
                        } else {
                            n.delay_counter = Bits::from(0u64);
                            n.state = BankState::Precharging;
                        }
                    },
                    _ => {
                        n.state = BankState::Error;
                    },
                }
            },
            BankState::Reading => {
                match inputs.cmd {
                    SDRAMCommand::NOP => {
                        n.burst_counter = r.burst_counter + 1u64;
                        n.active_col = r.active_col + col_one;
                        valid_delay_in = true;
                        if same(&r.burst_counter, &inputs.burst_len) {
                            valid_delay_in = false;
                            if r.auto_precharge {
                                n.delay_counter = Bits::from(0u64);
                                n.state = BankState::Precharging;
                            } else {
                                n.state = BankState::Active;
                            }
                        }
                    },
                    SDRAMCommand::Read => {
                        n.active_col = bit_cast::<C, 12>(address);
                        n.burst_counter = Bits::from(0u64);
                        n.auto_precharge = address.get_bit(10);
                    },
                    SDRAMCommand::Precharge => {
                        if r.auto_precharge {
                            n.state = BankState::Error;
                        } else {
                            n.delay_counter = Bits::from(0u64);
                            n.state = BankState::Precharging;
                        }
                    },
                    _ => {
                        n.state = BankState::Error;
                    },
                }
            },
            BankState::Precharging => {
                match inputs.cmd {
                    SDRAMCommand::NOP => {
                        n.delay_counter = r.delay_counter + 1u64;
                        if same(&r.delay_counter, &t.t_rp) {
                            n.state = BankState::Idle;
                        }
                    },
                    _ => {
                        n.state = BankState::Error;
                    },
                }
            },
            BankState::Autorefreshing => {
                match inputs.cmd {
                    SDRAMCommand::NOP => {
                        if same(&r.refresh_counter, &t.t_rfc) {
                            n.state = BankState::Idle;
                        }
                    },
                    _ => {
                        n.state = BankState::Error;
                    },
                }
            },
            BankState::Writing => {
                match inputs.cmd {
                    SDRAMCommand::NOP => {
                        n.burst_counter = r.burst_counter + 1u64;
                        n.active_col = r.active_col + col_one;
                        let last = inputs.burst_len - 1u64;
                        if same(&r.burst_counter, &last) {
                            if r.auto_precharge {
                                n.delay_counter = Bits::from(0u64);
                                n.state = BankState::Precharging;
                            } else {
                                n.state = BankState::Active;
                            }
                        }
                    },
                    SDRAMCommand::Write => {
                        n.active_col = bit_cast::<C, 12>(address);
                        n.burst_counter = Bits::from(0u64);
                        n.auto_precharge = address.get_bit(10);
                    },
                    SDRAMCommand::Precharge => {
                        if r.auto_precharge {
                            n.state = BankState::Error;
                        } else {
                            n.delay_counter = Bits::from(0u64);
                            n.state = BankState::Precharging;
                        }
                    },
                    _ => {
                        n.state = BankState::Error;
                    },
                }
            },
            BankState::Error => {},
        }
        if !below(&r.refresh_counter, &t.t_refresh_max) {
            n.state = BankState::Error;
        }
        self.regs = n;
        let row = bit_cast::<A, R>(r.active_row);
        let col = bit_cast::<A, C>(r.active_col);
        BankOutputs {
            error: r.state == BankState::Error,
            busy: r.state != BankState::Idle,
            read_data: inputs.delayed_data,
            read_valid: inputs.delayed_valid,
            mem_address: (row << t.row_shift) | col,
            mem_write_data: r.write_reg,
            mem_write_enable: r.state == BankState::Writing,
            data_delay_in: inputs.mem_read_data,
            data_delay: inputs.cas_delay - 2u64,
            valid_delay_in,
            valid_delay: inputs.cas_delay - 1u64,
        }
    }
}

} // verus!
