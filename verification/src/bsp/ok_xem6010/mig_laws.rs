//! What the memory interface generator model promises: the words it
//! stores are the words it reads back, commands start bursts at the word
//! their byte address names, and calibration takes a fixed time.
use crate::bsp::ok_xem6010::mig::{
    mig_outputs, next_memory, next_registers, stored, word_key, MIGInputs, MIGInstruction,
    MIGRegisters, MIGState,
};
use crate::hdl_core::bit_math::lemma_seq_val_shr;
use crate::hdl_core::bits::Bits;
use crate::sim::clocked::{bit_field, lemma_decreased, lemma_incremented};
use vstd::arithmetic::div_mod::lemma_small_mod;
use vstd::arithmetic::power2::*;
use vstd::prelude::*;

verus! {

/// The registers after one clock for each element of `ins`, in order.
pub open spec fn run_registers(r: MIGRegisters, ins: Seq<MIGInputs>) -> MIGRegisters
    decreases ins.len(),
{
    if ins.len() == 0 {
        r
    } else {
        run_registers(next_registers(r, ins[0]), ins.drop_first())
    }
}

/// A word written is the word a later read of its address gets: after a
/// clock of a write burst stores the write FIFO's word at an address, a
/// clock of a read burst at that address sends that word to the read FIFO.
pub proof fn law_read_returns_written(
    w: MIGRegisters,
    m: Map<u32, Bits<32>>,
    i: MIGInputs,
    r: MIGRegisters,
    j: MIGInputs,
)
    requires
        w.state == MIGState::Writing,
        w.timer.val() != 0,
        r.state == MIGState::Reading,
        r.timer.val() != 0,
        word_key(r.address) == word_key(w.address),
    ensures
        mig_outputs(r, next_memory(w, m, i), j).read_fifo_write,
        mig_outputs(r, next_memory(w, m, i), j).read_fifo_data_in == i.write_fifo_data_out.data,
{
}

/// A clock that stores no word at an address leaves the word there as it
/// was.
pub proof fn law_other_words_kept(r: MIGRegisters, m: Map<u32, Bits<32>>, i: MIGInputs, a: Bits<32>)
    requires
        !(r.state == MIGState::Writing && r.timer.val() != 0) || word_key(r.address) != word_key(
            a,
        ),
    ensures
        stored(next_memory(r, m, i), a) == stored(m, a),
{
}

/// A command whose byte address is not word aligned fails the controller,
/// which then stays failed whatever it is given.
pub proof fn law_misaligned_command_fails(r: MIGRegisters, i: MIGInputs, ins: Seq<MIGInputs>)
    requires
        r.state == MIGState::Idle,
        !i.cmd_fifo_empty,
        bit_field::<2, 30>(i.cmd_fifo_data_out.byte_address, 0).val() != 0,
    ensures
        next_registers(r, i).state == MIGState::Error,
        run_registers(next_registers(r, i), ins).state == MIGState::Error,
{
    lemma_error_is_final(next_registers(r, i), ins);
}

proof fn lemma_error_is_final(r: MIGRegisters, ins: Seq<MIGInputs>)
    requires
        r.state == MIGState::Error,
    ensures
        run_registers(r, ins).state == MIGState::Error,
    decreases ins.len(),
{
    if ins.len() > 0 {
        lemma_error_is_final(next_registers(r, ins[0]), ins.drop_first());
    }
}

/// A read or write command starts a burst of `burst_len + 1` words at the
/// word that holds its byte address.
pub proof fn law_burst_start(r: MIGRegisters, i: MIGInputs)
    requires
        i.wf(),
        r.state == MIGState::Idle,
        !i.cmd_fifo_empty,
        bit_field::<2, 30>(i.cmd_fifo_data_out.byte_address, 0).val() == 0,
        i.cmd_fifo_data_out.instruction != MIGInstruction::Refresh,
    ensures
        next_registers(r, i).timer.val() == i.cmd_fifo_data_out.burst_len.val() + 1,
        next_registers(r, i).address.val() == i.cmd_fifo_data_out.byte_address.val() / 4,
        next_registers(r, i).state == (if i.cmd_fifo_data_out.instruction == MIGInstruction::Write
            || i.cmd_fifo_data_out.instruction == MIGInstruction::WritePrecharge {
            MIGState::Writing
        } else {
            MIGState::Reading
        }),
{
    let c = i.cmd_fifo_data_out;
    lemma2_to64();
    Bits::<6>::lemma_wf_view(c.burst_len);
    lemma_pow2_strictly_increases(6, 16);
    lemma_small_mod(c.burst_len.val(), pow2(16));
    Bits::<16>::lemma_from_val(c.burst_len.val());
    lemma_incremented(Bits::<16>::from_val(c.burst_len.val()));
    lemma_small_mod(c.burst_len.val() + 1, pow2(16));
    Bits::<30>::lemma_wf_view(c.byte_address);
    lemma_pow2_strictly_increases(30, 32);
    lemma_small_mod(c.byte_address.val(), pow2(32));
    let x = Bits::<32>::from_val(c.byte_address.val());
    Bits::<32>::lemma_from_val(c.byte_address.val());
    Bits::<32>::lemma_wf_view(x);
    Bits::<32>::lemma_from_val(2);
    lemma_small_mod(2, pow2(32));
    lemma_small_mod(2, 32);
    lemma_seq_val_shr(x@, 2);
    lemma_small_mod(x.val() / 4, pow2(32));
    Bits::<32>::lemma_from_val(x.val() / 4);
}

/// Calibration of `t` more clocks: the controller calibrates while the
/// timer runs down, and is idle and calibrated one clock after it reads
/// zero.
proof fn lemma_calibrating(r: MIGRegisters, ins: Seq<MIGInputs>)
    requires
        r.wf(),
        r.state == MIGState::Calibrating,
        !r.calib,
        ins.len() <= r.timer.val() + 1,
    ensures
        ins.len() <= r.timer.val() ==> {
            &&& run_registers(r, ins).state == MIGState::Calibrating
            &&& !run_registers(r, ins).calib
            &&& run_registers(r, ins).timer.val() == r.timer.val() - ins.len()
        },
        ins.len() == r.timer.val() + 1 ==> {
            &&& run_registers(r, ins).state == MIGState::Idle
            &&& run_registers(r, ins).calib
        },
    decreases ins.len(),
{
    if ins.len() > 0 {
        let n = next_registers(r, ins[0]);
        let rest = ins.drop_first();
        if r.timer.val() != 0 {
            lemma_decreased(r.timer, 1);
            lemma_calibrating(n, rest);
        } else {
            assert(rest.len() == 0);
            assert(run_registers(n, rest) == n);
        }
    }
}

/// Calibration takes a fixed time whatever the ports see: from power on
/// the controller calibrates through its first 101 clocks and is idle and
/// calibrated after 102.
pub proof fn law_calibration_time(r: MIGRegisters, ins: Seq<MIGInputs>)
    requires
        r.wf(),
        r.state == MIGState::Init,
        !r.calib,
        1 <= ins.len() <= 102,
    ensures
        ins.len() <= 101 ==> run_registers(r, ins).state == MIGState::Calibrating && !run_registers(
            r,
            ins,
        ).calib,
        ins.len() == 102 ==> run_registers(r, ins).state == MIGState::Idle && run_registers(
            r,
            ins,
        ).calib,
{
    lemma2_to64();
    lemma_small_mod(100, pow2(16));
    Bits::<16>::lemma_from_val(100);
    lemma_calibrating(next_registers(r, ins[0]), ins.drop_first());
}

} // verus!
