//! The timing rules a bank enforces, stated over runs of clocks.
use crate::hdl_core::bits::Bits;
use crate::sim::clocked::{lemma_incremented, zero};
use crate::sim::sdr_sdram::bank::{
    next_registers, BankInputs, BankRegisters, BankState, BankTimings,
};
use crate::sim::sdr_sdram::sdr_sdram_cmd_sim::SDRAMCommand;
use vstd::arithmetic::div_mod::lemma_small_mod;
use vstd::arithmetic::power2::*;
use vstd::prelude::*;

verus! {

/// The registers after one clock for each element of `ins`, in order.
pub open spec fn run<const R: usize, const C: usize, const A: usize, const D: usize>(
    r: BankRegisters<R, C, D>,
    ins: Seq<BankInputs<D>>,
    t: BankTimings<A>,
) -> BankRegisters<R, C, D>
    decreases ins.len(),
{
    if ins.len() == 0 {
        r
    } else {
        run(next_registers(r, ins[0], t), ins.drop_first(), t)
    }
}

/// Every command in `ins` is a NOP.
pub open spec fn all_nops<const D: usize>(ins: Seq<BankInputs<D>>) -> bool {
    forall|j: int| 0 <= j < ins.len() ==> #[trigger] ins[j].cmd == SDRAMCommand::NOP
}

/// `ins` is some NOPs followed by one `last` command.
pub open spec fn nops_then<const D: usize>(ins: Seq<BankInputs<D>>, last: SDRAMCommand) -> bool {
    &&& ins.len() >= 1
    &&& all_nops(ins.drop_last())
    &&& ins.last().cmd == last
}

/// No refresh deadline is running, and none has passed.
pub open spec fn refresh_quiet<const R: usize, const C: usize, const A: usize, const D: usize>(
    r: BankRegisters<R, C, D>,
    t: BankTimings<A>,
) -> bool {
    !r.refresh_active && r.refresh_counter.val() < t.t_refresh_max.val()
}

proof fn lemma_rest_nops<const D: usize>(ins: Seq<BankInputs<D>>, last: SDRAMCommand)
    requires
        nops_then(ins, last),
        ins.len() >= 2,
    ensures
        ins[0].cmd == SDRAMCommand::NOP,
        nops_then(ins.drop_first(), last),
{
    let rest = ins.drop_first();
    assert(ins.drop_last()[0] == ins[0]);
    assert forall|j: int| 0 <= j < rest.drop_last().len() implies #[trigger] rest.drop_last()[j].cmd
        == SDRAMCommand::NOP by {
        assert(rest.drop_last()[j] == ins.drop_last()[j + 1]);
    }
}

proof fn lemma_rest_all_nops<const D: usize>(ins: Seq<BankInputs<D>>)
    requires
        all_nops(ins),
        ins.len() >= 1,
    ensures
        ins[0].cmd == SDRAMCommand::NOP,
        all_nops(ins.drop_first()),
{
    assert forall|j: int| 0 <= j < ins.drop_first().len() implies #[trigger] ins.drop_first()[j].cmd
        == SDRAMCommand::NOP by {
        assert(ins.drop_first()[j] == ins[j + 1]);
    }
}

/// A bank whose refresh timer has reached the longest time allowed between
/// refreshes fails at the next clock, whatever it is given.
pub proof fn law_missed_refresh_fails<const R: usize, const C: usize, const A: usize, const D: usize>(
    r: BankRegisters<R, C, D>,
    i: BankInputs<D>,
    t: BankTimings<A>,
)
    requires
        r.refresh_counter.val() >= t.t_refresh_max.val(),
    ensures
        next_registers(r, i, t).state == BankState::Error,
{
}

/// A failed bank stays failed, whatever it is given.
pub proof fn law_error_is_final<const R: usize, const C: usize, const A: usize, const D: usize>(
    r: BankRegisters<R, C, D>,
    ins: Seq<BankInputs<D>>,
    t: BankTimings<A>,
)
    requires
        r.state == BankState::Error,
    ensures
        run(r, ins, t).state == BankState::Error,
    decreases ins.len(),
{
    if ins.len() > 0 {
        law_error_is_final(next_registers(r, ins[0], t), ins.drop_first(), t);
    }
}

/// Closing a row sooner than `t_ras` clocks after opening it fails the
/// bank: from an open row whose activation timer reads `a`, `k` NOPs and a
/// precharge with `a + k < t_ras` end in the error state.
pub proof fn law_early_precharge_fails<const R: usize, const C: usize, const A: usize, const D: usize>(
    r: BankRegisters<R, C, D>,
    ins: Seq<BankInputs<D>>,
    t: BankTimings<A>,
)
    requires
        t.wf(),
        r.state == BankState::Active,
        nops_then(ins, SDRAMCommand::Precharge),
        r.t_activate.val() + ins.len() - 1 < t.t_ras.val(),
    ensures
        run(r, ins, t).state == BankState::Error,
    decreases ins.len(),
{
    let n = next_registers(r, ins[0], t);
    let rest = ins.drop_first();
    if ins.len() == 1 {
        assert(ins.last() == ins[0]);
        assert(rest.len() == 0);
        assert(n.state == BankState::Error);
        assert(run(n, rest, t) == n);
    } else {
        lemma_rest_nops(ins, SDRAMCommand::Precharge);
        Bits::<32>::lemma_wf_view(t.t_ras);
        lemma_incremented(r.t_activate);
        lemma_small_mod((r.t_activate.val() + 1) as nat, pow2(32));
        if n.state == BankState::Error {
            law_error_is_final(n, rest, t);
        } else {
            law_early_precharge_fails(n, rest, t);
        }
    }
}

/// A row held open for at least `t_ras` clocks closes: from an open row
/// whose activation timer reads `a`, `k` NOPs and a precharge with
/// `a + k >= t_ras` start precharging, when no refresh deadline is running
/// and the timer does not wrap.
pub proof fn law_timely_precharge_closes_row<const R: usize, const C: usize, const A: usize, const D: usize>(
    r: BankRegisters<R, C, D>,
    ins: Seq<BankInputs<D>>,
    t: BankTimings<A>,
)
    requires
        r.state == BankState::Active,
        refresh_quiet(r, t),
        nops_then(ins, SDRAMCommand::Precharge),
        r.t_activate.val() + ins.len() - 1 >= t.t_ras.val(),
        r.t_activate.val() + ins.len() - 1 < pow2(32),
    ensures
        run(r, ins, t).state == BankState::Precharging,
        run(r, ins, t).delay_counter == zero::<32>(),
        refresh_quiet(run(r, ins, t), t),
    decreases ins.len(),
{
    let n = next_registers(r, ins[0], t);
    let rest = ins.drop_first();
    if ins.len() == 1 {
        assert(ins.last() == ins[0]);
        assert(rest.len() == 0);
    } else {
        lemma_rest_nops(ins, SDRAMCommand::Precharge);
        lemma_incremented(r.t_activate);
        lemma_small_mod((r.t_activate.val() + 1) as nat, pow2(32));
        law_timely_precharge_closes_row(n, rest, t);
    }
}

/// An idle bank given only NOPs stays idle, when no refresh deadline is
/// running.
pub proof fn law_idle_stays_idle<const R: usize, const C: usize, const A: usize, const D: usize>(
    r: BankRegisters<R, C, D>,
    ins: Seq<BankInputs<D>>,
    t: BankTimings<A>,
)
    requires
        r.state == BankState::Idle,
        refresh_quiet(r, t),
        all_nops(ins),
    ensures
        run(r, ins, t).state == BankState::Idle,
    decreases ins.len(),
{
    if ins.len() > 0 {
        lemma_rest_all_nops(ins);
        law_idle_stays_idle(next_registers(r, ins[0], t), ins.drop_first(), t);
    }
}

/// A precharge takes `t_rp + 1` clocks: a bank that has precharged for `p`
/// clocks, given `k` NOPs, is still precharging when `p + k <= t_rp` and
/// idle when `p + k > t_rp`, when no refresh deadline is running.
pub proof fn law_precharge_takes_t_rp<const R: usize, const C: usize, const A: usize, const D: usize>(
    r: BankRegisters<R, C, D>,
    ins: Seq<BankInputs<D>>,
    t: BankTimings<A>,
)
    requires
        t.wf(),
        r.state == BankState::Precharging,
        refresh_quiet(r, t),
        r.delay_counter.val() <= t.t_rp.val(),
        all_nops(ins),
    ensures
        r.delay_counter.val() + ins.len() <= t.t_rp.val() ==> run(r, ins, t).state
            == BankState::Precharging,
        r.delay_counter.val() + ins.len() > t.t_rp.val() ==> run(r, ins, t).state
            == BankState::Idle,
    decreases ins.len(),
{
    if ins.len() > 0 {
        let n = next_registers(r, ins[0], t);
        let rest = ins.drop_first();
        lemma_rest_all_nops(ins);
        if n.state == BankState::Idle {
            law_idle_stays_idle(n, rest, t);
        } else {
            Bits::<32>::lemma_wf_view(t.t_rp);
            lemma_incremented(r.delay_counter);
            lemma_small_mod((r.delay_counter.val() + 1) as nat, pow2(32));
            law_precharge_takes_t_rp(n, rest, t);
        }
    }
}

} // verus!
