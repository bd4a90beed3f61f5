//! One bank of a simulated SDR SDRAM without refresh: it reads and writes
//! its memory array directly and checks, clock by clock, the row timing
//! rules of the commands it is given.
use crate::hdl_core::bits::{bit_cast, Bits};
use crate::sim::clocked::{below, incremented, same, zero};
use crate::sim::sdr_sdram::bank::bit_cast_spec;
use crate::sim::sdr_sdram::sdr_sdram_cmd_sim::SDRAMCommand;
use crate::sim::clocked::lemma_incremented;
use vstd::arithmetic::div_mod::lemma_small_mod;
use vstd::arithmetic::power2::*;
use vstd::prelude::*;

verus! {

/// The state of one bank.
#[derive(Copy, Clone, PartialEq, Eq, Structural, Debug)]
pub enum BankState {
    Idle,
    Active,
    Reading,
    Precharging,
    Writing,
    Error,
}

/// What the bank's flip-flops hold between two clock edges.
#[derive(Copy, Clone, Debug)]
pub struct BankRegisters<const R: usize, const C: usize> {
    pub state: BankState,
    /// Whether the burst under way ends with a precharge.
    pub auto_precharge: bool,
    pub active_row: Bits<R>,
    pub burst_counter: Bits<4>,
    pub active_col: Bits<C>,
    /// Clocks spent precharging.
    pub delay_counter: Bits<32>,
    /// Clocks since the row was opened.
    pub t_activate: Bits<32>,
}

/// What the bank reads in one clock: its pins and what its memory array
/// reads at the current address.
#[derive(Copy, Clone, Debug)]
pub struct BankInputs<const D: usize> {
    pub address: Bits<12>,
    pub burst_len: Bits<4>,
    pub cmd: SDRAMCommand,
    pub write_data: Bits<D>,
    pub mem_read_data: Bits<D>,
}

/// The timing limits of a bank, in clocks less one.
#[derive(Copy, Clone, Debug)]
pub struct BankTimings<const A: usize> {
    pub t_ras: Bits<32>,
    pub t_rc: Bits<32>,
    pub t_rcd: Bits<32>,
    pub t_rp: Bits<32>,
    pub row_shift: Bits<A>,
}

/// What the bank drives in one clock.
#[derive(Copy, Clone, Debug)]
pub struct BankOutputs<const A: usize, const D: usize> {
    pub error: bool,
    pub busy: bool,
    pub read_data: Bits<D>,
    pub mem_address: Bits<A>,
    pub mem_write_data: Bits<D>,
    pub mem_write_enable: bool,
}

impl<const R: usize, const C: usize> BankRegisters<R, C> {
    pub open spec fn wf(self) -> bool {
        &&& self.active_row.wf()
        &&& self.burst_counter.wf()
        &&& self.active_col.wf()
        &&& self.delay_counter.wf()
        &&& self.t_activate.wf()
    }

    /// The registers at power on: idle, every counter clear.
    pub open spec fn power_on() -> Self {
        BankRegisters {
            state: BankState::Idle,
            auto_precharge: false,
            active_row: zero(),
            burst_counter: zero(),
            active_col: zero(),
            delay_counter: zero(),
            t_activate: zero(),
        }
    }
}

impl<const D: usize> BankInputs<D> {
    pub open spec fn wf(self) -> bool {
        &&& self.address.wf()
        &&& self.burst_len.wf()
        &&& self.write_data.wf()
        &&& self.mem_read_data.wf()
    }
}

impl<const A: usize> BankTimings<A> {
    pub open spec fn wf(self) -> bool {
        &&& self.t_ras.wf()
        &&& self.t_rc.wf()
        &&& self.t_rcd.wf()
        &&& self.t_rp.wf()
        &&& self.row_shift.wf()
    }
}

/// `r` in the error state.
pub open spec fn failed<const R: usize, const C: usize>(r: BankRegisters<R, C>) -> BankRegisters<
    R,
    C,
> {
    BankRegisters { state: BankState::Error, ..r }
}

/// A burst starts at the column the address gives.
pub open spec fn burst_started<const R: usize, const C: usize, const D: usize>(
    h: BankRegisters<R, C>,
    i: BankInputs<D>,
) -> BankRegisters<R, C> {
    BankRegisters { active_col: Bits::<C>::from_val(i.address.val()), burst_counter: zero(), ..h }
}

/// Precharging begins.
pub open spec fn precharge_started<const R: usize, const C: usize>(
    h: BankRegisters<R, C>,
) -> BankRegisters<R, C> {
    BankRegisters { delay_counter: zero(), state: BankState::Precharging, ..h }
}

/// One word of a burst is done; the burst of `burst_len` words ends when
/// the counter reads `burst_len`.
pub open spec fn burst_step<const R: usize, const C: usize, const D: usize>(
    r: BankRegisters<R, C>,
    h: BankRegisters<R, C>,
    i: BankInputs<D>,
) -> BankRegisters<R, C> {
    let b = BankRegisters {
        burst_counter: incremented(r.burst_counter),
        active_col: incremented(r.active_col),
        ..h
    };
    if r.burst_counter.val() == i.burst_len.val() {
        if r.auto_precharge {
            precharge_started(b)
        } else {
            BankRegisters { state: BankState::Active, ..b }
        }
    } else {
        b
    }
}

/// The registers after one clock edge.
pub open spec fn next_registers<const R: usize, const C: usize, const A: usize, const D: usize>(
    r: BankRegisters<R, C>,
    i: BankInputs<D>,
    t: BankTimings<A>,
) -> BankRegisters<R, C> {
    let h = BankRegisters { t_activate: incremented(r.t_activate), ..r };
    match r.state {
        BankState::Idle => {
            let idle = BankRegisters { t_activate: zero(), ..r };
            match i.cmd {
                SDRAMCommand::Active => BankRegisters {
                    active_row: Bits::<R>::from_val(i.address.val()),
                    delay_counter: zero(),
                    state: BankState::Active,
                    ..idle
                },
                SDRAMCommand::NOP => idle,
                _ => failed(idle),
            }
        },
        BankState::Active => match i.cmd {
            SDRAMCommand::NOP => h,
            SDRAMCommand::Read => {
                if r.t_activate.val() < t.t_rcd.val() {
                    failed(h)
                } else {
                    BankRegisters {
                        state: BankState::Reading,
                        auto_precharge: i.address@[10],
                        ..burst_started(h, i)
                    }
                }
            },
            SDRAMCommand::Write => {
                if r.t_activate.val() < t.t_rcd.val() {
                    failed(h)
                } else {
                    BankRegisters { state: BankState::Writing, ..burst_started(h, i) }
                }
            },
            SDRAMCommand::Precharge => {
                if r.t_activate.val() < t.t_ras.val() {
                    failed(h)
                } else {
                    precharge_started(h)
                }
            },
            _ => failed(h),
        },
        BankState::Reading => match i.cmd {
            SDRAMCommand::NOP => burst_step(r, h, i),
            SDRAMCommand::Read => BankRegisters {
                auto_precharge: i.address@[10],
                ..burst_started(h, i)
            },
            SDRAMCommand::Precharge => {
                if r.auto_precharge {
                    failed(h)
                } else {
                    precharge_started(h)
                }
            },
            _ => failed(h),
        },
        BankState::Precharging => match i.cmd {
            SDRAMCommand::NOP => BankRegisters {
                delay_counter: incremented(r.delay_counter),
                state: if r.delay_counter.val() == t.t_rp.val() {
                    BankState::Idle
                } else {
                    r.state
                },
                ..h
            },
            _ => failed(h),
        },
        BankState::Writing => match i.cmd {
            SDRAMCommand::NOP => burst_step(r, h, i),
            SDRAMCommand::Write => BankRegisters {
                auto_precharge: i.address@[10],
                ..burst_started(h, i)
            },
            SDRAMCommand::Precharge => {
                if r.auto_precharge {
                    failed(h)
                } else {
                    precharge_started(h)
                }
            },
            _ => failed(h),
        },
        BankState::Error => h,
    }
}

/// What the bank drives during a clock.
pub open spec fn bank_outputs<const R: usize, const C: usize, const A: usize, const D: usize>(
    r: BankRegisters<R, C>,
    i: BankInputs<D>,
    t: BankTimings<A>,
) -> BankOutputs<A, D> {
    BankOutputs {
        error: r.state == BankState::Error,
        busy: r.state != BankState::Idle,
        read_data: i.mem_read_data,
        mem_address: bit_cast_spec::<A, R>(r.active_row).shl_bits(t.row_shift).or_bits(
            bit_cast_spec::<A, C>(r.active_col),
        ),
        mem_write_data: i.write_data,
        mem_write_enable: r.state == BankState::Writing,
    }
}

/// A bank: its registers and its timing limits.
pub struct MemoryBank<const R: usize, const C: usize, const A: usize, const D: usize> {
    pub regs: BankRegisters<R, C>,
    pub timings: BankTimings<A>,
}

impl<const R: usize, const C: usize, const A: usize, const D: usize> MemoryBank<R, C, A, D> {
    pub open spec fn wf(self) -> bool {
        self.regs.wf() && self.timings.wf()
    }

    /// A bank at power on, with timing limits given in clocks: each limit is
    /// kept less one, and the row sits above the `C` column bits.
    pub fn new(t_ras_clocks: u32, t_rc_clocks: u32, t_rcd_clocks: u32, t_rp_clocks: u32) -> (b:
        Self)
        requires
            R + C == A,
            t_ras_clocks >= 1,
            t_rc_clocks >= 1,
            t_rcd_clocks >= 1,
            t_rp_clocks >= 1,
        ensures
            b.wf(),
            b.regs == BankRegisters::<R, C>::power_on(),
            b.timings.t_ras.val() == t_ras_clocks - 1,
            b.timings.t_rc.val() == t_rc_clocks - 1,
            b.timings.t_rcd.val() == t_rcd_clocks - 1,
            b.timings.t_rp.val() == t_rp_clocks - 1,
            b.timings.row_shift == Bits::<A>::from_val(C as nat),
    {
        proof {
            lemma2_to64();
        }
        let regs = BankRegisters {
            state: BankState::Idle,
            auto_precharge: false,
            active_row: Bits::from(0u64),
            burst_counter: Bits::from(0u64),
            active_col: Bits::from(0u64),
            delay_counter: Bits::from(0u64),
            t_activate: Bits::from(0u64),
        };
        let timings = BankTimings {
            t_ras: Bits::from((t_ras_clocks - 1) as u64),
            t_rc: Bits::from((t_rc_clocks - 1) as u64),
            t_rcd: Bits::from((t_rcd_clocks - 1) as u64),
            t_rp: Bits::from((t_rp_clocks - 1) as u64),
            row_shift: Bits::from(C as u64),
        };
        MemoryBank { regs, timings }
    }

    /// One clock: what the bank drives while `inputs` hold, and its
    /// registers after the clock edge.
    pub fn update(&mut self, inputs: &BankInputs<D>) -> (out: BankOutputs<A, D>)
        requires
            old(self).wf(),
            inputs.wf(),
        ensures
            final(self).wf(),
            final(self).regs == next_registers(old(self).regs, *inputs, old(self).timings),
            final(self).timings == old(self).timings,
            out == bank_outputs(old(self).regs, *inputs, old(self).timings),
    {
        proof {
            lemma2_to64();
        }
        let r = self.regs;
        let t = self.timings;
        let address = inputs.address;
        let col_one: Bits<C> = Bits::from(1u64);
        let mut n = r;
        n.t_activate = r.t_activate + 1u64;
        match r.state {
            BankState::Idle => {
                n.t_activate = Bits::from(0u64);
                match inputs.cmd {
                    SDRAMCommand::Active => {
                        n.active_row = bit_cast::<R, 12>(address);
                        n.delay_counter = Bits::from(0u64);
                        n.state = BankState::Active;
                    },
                    SDRAMCommand::NOP => {},
                    _ => {
                        n.state = BankState::Error;
                    },
                }
            },
            BankState::Active => {
                match inputs.cmd {
                    SDRAMCommand::NOP => {},
                    SDRAMCommand::Read => {
                        if below(&r.t_activate, &t.t_rcd) {
                            n.state = BankState::Error;
                        } else {
                            n.active_col = bit_cast::<C, 12>(address);
                            n.burst_counter = Bits::from(0u64);
                            n.state = BankState::Reading;
                            n.auto_precharge = address.get_bit(10);
                        }
                    },
                    SDRAMCommand::Write => {
                        if below(&r.t_activate, &t.t_rcd) {
                            n.state = BankState::Error;
                        } else {
                            n.active_col = bit_cast::<C, 12>(address);
                            n.burst_counter = Bits::from(0u64);
                            n.state = BankState::Writing;
                        }
                    },
                    SDRAMCommand::Precharge => {
                        if below(&r.t_activate, &t.t_ras) {
                            n.state = BankState::Error;
                        } else {
                            n.delay_counter = Bits::from(0u64);
                            n.state = BankState::Precharging;
                        }
                    },
                    _ => {
                        n.state = BankState::Error;
                    },
                }
            },
            BankState::Reading | BankState::Writing => {
                let reading = r.state == BankState::Reading;
                match inputs.cmd {
                    SDRAMCommand::NOP => {
                        n.burst_counter = r.burst_counter + 1u64;
                        n.active_col = r.active_col + col_one;
                        if same(&r.burst_counter, &inputs.burst_len) {
                            if r.auto_precharge {
                                n.delay_counter = Bits::from(0u64);
                                n.state = BankState::Precharging;
                            } else {
                                n.state = BankState::Active;
                            }
                        }
                    },
                    SDRAMCommand::Read if reading => {
                        n.active_col = bit_cast::<C, 12>(address);
                        n.burst_counter = Bits::from(0u64);
                        n.auto_precharge = address.get_bit(10);
                    },
                    SDRAMCommand::Write if !reading => {
                        n.active_col = bit_cast::<C, 12>(address);
                        n.burst_counter = Bits::from(0u64);
                        n.auto_precharge = address.get_bit(10);
                    },
                    SDRAMCommand::Precharge => {
                        if r.auto_precharge {
                            n.state = BankState::Error;
                        } else {
                            n.delay_counter = Bits::from(0u64);
                            n.state = BankState::Precharging;
                        }
                    },
                    _ => {
                        n.state = BankState::Error;
                    },
                }
            },
            BankState::Precharging => {
                match inputs.cmd {
                    SDRAMCommand::NOP => {
                        n.delay_counter = r.delay_counter + 1u64;
                        if same(&r.delay_counter, &t.t_rp) {
                            n.state = BankState::Idle;
                        }
                    },
                    _ => {
                        n.state = BankState::Error;
                    },
                }
            },
            BankState::Error => {},
        }
        self.regs = n;
        let row = bit_cast::<A, R>(r.active_row);
        let col = bit_cast::<A, C>(r.active_col);
        BankOutputs {
            error: r.state == BankState::Error,
            busy: r.state != BankState::Idle,
            read_data: inputs.mem_read_data,
            mem_address: (row << t.row_shift) | col,
            mem_write_data: inputs.write_data,
            mem_write_enable: r.state == BankState::Writing,
        }
    }
}

/// The registers after one clock for each element of `ins`, in order.
pub open spec fn run<const R: usize, const C: usize, const A: usize, const D: usize>(
    r: BankRegisters<R, C>,
    ins: Seq<BankInputs<D>>,
    t: BankTimings<A>,
) -> BankRegisters<R, C>
    decreases ins.len(),
{
    if ins.len() == 0 {
        r
    } else {
        run(next_registers(r, ins[0], t), ins.drop_first(), t)
    }
}

/// `ins` is some NOPs followed by one `last` command.
pub open spec fn nops_then<const D: usize>(ins: Seq<BankInputs<D>>, last: SDRAMCommand) -> bool {
    &&& ins.len() >= 1
    &&& forall|j: int| 0 <= j < ins.len() - 1 ==> #[trigger] ins[j].cmd == SDRAMCommand::NOP
    &&& ins.last().cmd == last
}

/// A failed bank stays failed, whatever it is given.
pub proof fn law_error_is_final<const R: usize, const C: usize, const A: usize, const D: usize>(
    r: BankRegisters<R, C>,
    ins: Seq<BankInputs<D>>,
    t: BankTimings<A>,
)
    requires
        r.state == BankState::Error,
    ensures
        run(r, ins, t).state == BankState::Error,
    decreases ins.len(),
{
    if ins.len() > 0 {
        law_error_is_final(next_registers(r, ins[0], t), ins.drop_first(), t);
    }
}

/// Closing a row: from an open row whose timer reads `a`, `k` NOPs and a
/// precharge fail the bank exactly when `a + k < t_ras`, and start
/// precharging otherwise, when the timer does not wrap.
pub proof fn law_row_close_timing<const R: usize, const C: usize, const A: usize, const D: usize>(
    r: BankRegisters<R, C>,
    ins: Seq<BankInputs<D>>,
    t: BankTimings<A>,
)
    requires
        r.state == BankState::Active,
        nops_then(ins, SDRAMCommand::Precharge),
        r.t_activate.val() + ins.len() - 1 < pow2(32),
    ensures
        run(r, ins, t).state == (if r.t_activate.val() + ins.len() - 1 < t.t_ras.val() {
            BankState::Error
        } else {
            BankState::Precharging
        }),
    decreases ins.len(),
{
    let n = next_registers(r, ins[0], t);
    let rest = ins.drop_first();
    if ins.len() == 1 {
        assert(ins.last() == ins[0]);
        assert(rest.len() == 0);
        assert(run(n, rest, t) == n);
    } else {
        assert(ins[0].cmd == SDRAMCommand::NOP);
        assert forall|j: int| 0 <= j < rest.len() - 1 implies #[trigger] rest[j].cmd
            == SDRAMCommand::NOP by {
            assert(rest[j] == ins[j + 1]);
        }
        assert(rest.last() == ins.last());
        lemma_incremented(r.t_activate);
        lemma_small_mod((r.t_activate.val() + 1) as nat, pow2(32));
        law_row_close_timing(n, rest, t);
    }
}

} // verus!
