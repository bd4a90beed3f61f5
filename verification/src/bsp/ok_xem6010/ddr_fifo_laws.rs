//! What the DDR-backed FIFO promises over runs of clocks.
use crate::bsp::ok_xem6010::ddr_fifo::{
    fifo_command, fifo_outputs, flag, has_data, next_fifo, packet_command, transfers_in,
    transfers_out, DDRFIFO, DDRFIFOInputs, DDRFIFOState,
};
use crate::bsp::ok_xem6010::mig::MIGInstruction;
use crate::hdl_core::bits::Bits;
use crate::sim::clocked::{lemma_decreased, lemma_zero};
use vstd::arithmetic::div_mod::lemma_small_mod;
use vstd::arithmetic::power2::*;
use vstd::prelude::*;

verus! {

/// The registers after one clock for each element of `ins`, in order.
pub open spec fn run(f: DDRFIFO, ins: Seq<DDRFIFOInputs>) -> DDRFIFO
    decreases ins.len(),
{
    if ins.len() == 0 {
        f
    } else {
        run(next_fifo(f, ins[0]), ins.drop_first())
    }
}

/// A word can move from the front porch into the DDR memory in this clock:
/// the write port has room and the front porch holds a word.
pub open spec fn can_feed(i: DDRFIFOInputs) -> bool {
    !i.mig_wr_full && !i.front_porch_empty
}

/// The clocks of `ins` in which a word can move into the DDR memory.
pub open spec fn feeds(ins: Seq<DDRFIFOInputs>) -> nat
    decreases ins.len(),
{
    if ins.len() == 0 {
        0
    } else {
        (if can_feed(ins[0]) {
            1nat
        } else {
            0nat
        }) + feeds(ins.drop_first())
    }
}

/// No packet counter ever holds more than one packet.
pub open spec fn counts_bounded(f: DDRFIFO) -> bool {
    f.transfer_in_count.val() <= 32 && f.transfer_out_count.val() <= 32
}

/// A FIFO at power on has bounded counters, and each clock keeps them
/// bounded: a counter is loaded with one packet, 32 words, and counts down
/// by one word per transfer, never below zero.
pub proof fn law_counts_stay_bounded(f: DDRFIFO, i: DDRFIFOInputs)
    requires
        f.wf(),
        counts_bounded(f),
    ensures
        next_fifo(f, i).wf(),
        counts_bounded(next_fifo(f, i)),
{
    lemma2_to64();
    lemma_small_mod(32, pow2(7));
    Bits::<7>::lemma_from_val(32);
    lemma_decreased(f.transfer_in_count, if transfers_in(f, i) { 1 } else { 0 });
    lemma_decreased(
        f.transfer_out_count,
        if transfers_out(f, i) {
            1
        } else {
            0
        },
    );
    Bits::<27>::lemma_from_val(128);
    Bits::<27>::lemma_from_val(f.read_address.val() + Bits::<27>::from_val(128).val());
    Bits::<27>::lemma_from_val(f.write_address.val() + Bits::<27>::from_val(128).val());
}

/// The FIFO reads a packet from the DDR memory only when the memory holds
/// data, and then from the read address.
pub proof fn law_reads_only_data(f: DDRFIFO, i: DDRFIFOInputs)
    requires
        f.wf(),
        fifo_command(f, i) matches Some(c) && c.instruction == MIGInstruction::Read,
    ensures
        has_data(f),
        fifo_command(f, i)->0.byte_address.val() == f.read_address.val(),
        next_fifo(f, i).state == DDRFIFOState::Read,
{
    Bits::<27>::lemma_wf_view(f.read_address);
    lemma2_to64();
    lemma_pow2_strictly_increases(27, 30);
    lemma_small_mod(f.read_address.val(), pow2(30));
    Bits::<30>::lemma_from_val(f.read_address.val());
}

/// Bit 5 of the status byte reports whether the DDR memory holds data.
pub proof fn law_status_reports_data(f: DDRFIFO, i: DDRFIFOInputs)
    ensures
        fifo_outputs(f, i).status@[5] == has_data(f),
{
    let low = flag(i.mig_wr_error) + 2 * flag(i.mig_wr_underrun) + 4 * flag(i.mig_cmd_full) + 8
        * flag(i.mig_rd_error) + 16 * flag(i.mig_rd_overflow);
    let high = flag(has_data(f));
    let v = low + 32 * high;
    lemma2_to64();
    lemma_small_mod(v, pow2(8));
    Bits::<8>::lemma_from_val(v);
    assert(v / 32 == high) by (nonlinear_arith)
        requires
            v == low + 32 * high,
            0 <= low < 32,
    ;
}

/// While fewer words than the packet counter holds can have moved, a
/// packet write goes on, its counter holding the words still to move.
pub proof fn law_write_packet_in_progress(f: DDRFIFO, ins: Seq<DDRFIFOInputs>)
    requires
        f.wf(),
        f.state == DDRFIFOState::Write,
        feeds(ins) < f.transfer_in_count.val(),
    ensures
        run(f, ins).state == DDRFIFOState::Write,
        run(f, ins).transfer_in_count.val() == f.transfer_in_count.val() - feeds(ins),
    decreases ins.len(),
{
    if ins.len() > 0 {
        let n = next_fifo(f, ins[0]);
        lemma_decreased(f.transfer_in_count, if can_feed(ins[0]) { 1 } else { 0 });
        lemma_decreased(
            f.transfer_out_count,
            if transfers_out(f, ins[0]) {
                1
            } else {
                0
            },
        );
        law_write_packet_in_progress(n, ins.drop_first());
    }
}

/// A packet write whose words have all moved completes: the next clock
/// puts a 32-word write of the packet to the write address, and the clock
/// after that advances the write address by one packet.
pub proof fn law_write_packet_completes(f: DDRFIFO, i: DDRFIFOInputs, j: DDRFIFOInputs)
    requires
        f.wf(),
        f.state == DDRFIFOState::Write,
        f.transfer_in_count.val() == 0,
    ensures
        next_fifo(f, i).state == DDRFIFOState::WriteComplete,
        fifo_command(next_fifo(f, i), j) == Some(
            packet_command(MIGInstruction::Write, f.write_address),
        ),
        next_fifo(next_fifo(f, i), j).state == DDRFIFOState::UpdateWriteAddress,
        next_fifo(next_fifo(next_fifo(f, i), j), i).write_address.val() == (f.write_address.val()
            + 128) % pow2(27),
{
    lemma2_to64();
    Bits::<27>::lemma_from_val(128);
    lemma_small_mod(128, pow2(27));
    Bits::<27>::lemma_from_val(f.write_address.val() + 128);
}

} // verus!
