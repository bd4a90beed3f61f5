//! What the base controller promises over runs of clocks.
use crate::hdl_core::bits::Bits;
use crate::hls::controller::{
    controller_outputs, next_registers, opcode, read_transfer, write_transfer,
    BaseControllerState, ControllerInputs,
};
use crate::sim::clocked::lemma_decreased;
use vstd::prelude::*;

verus! {

/// The state and counter after one clock for each element of `ins`.
pub open spec fn run(
    s: BaseControllerState,
    c: Bits<16>,
    ins: Seq<ControllerInputs>,
) -> (BaseControllerState, Bits<16>)
    decreases ins.len(),
{
    if ins.len() == 0 {
        (s, c)
    } else {
        let (s1, c1) = next_registers(s, c, ins[0]);
        run(s1, c1, ins.drop_first())
    }
}

/// The clocks of `ins` in which a word can move from the bus to the CPU.
pub open spec fn read_transfers(ins: Seq<ControllerInputs>) -> nat
    decreases ins.len(),
{
    if ins.len() == 0 {
        0
    } else {
        (if read_transfer(ins[0]) {
            1nat
        } else {
            0nat
        }) + read_transfers(ins.drop_first())
    }
}

/// The clocks of `ins` in which a word can move from the CPU to the bus.
pub open spec fn write_transfers(ins: Seq<ControllerInputs>) -> nat
    decreases ins.len(),
{
    if ins.len() == 0 {
        0
    } else {
        (if write_transfer(ins[0]) {
            1nat
        } else {
            0nat
        }) + write_transfers(ins.drop_first())
    }
}

/// A PING word is answered with itself: the controller leaves the word on
/// the queue for a clock, then sends it back, takes it off the queue and
/// is idle again.
pub proof fn law_ping_echoes<const A: usize>(c: Bits<16>, i: ControllerInputs)
    requires
        !i.from_cpu_empty,
        opcode(i.from_cpu_data) == 1,
    ensures
        next_registers(BaseControllerState::Idle, c, i) == (BaseControllerState::Ping, c),
        !controller_outputs::<A>(BaseControllerState::Idle, i).from_cpu_read,
        controller_outputs::<A>(BaseControllerState::Ping, i).to_cpu_write,
        controller_outputs::<A>(BaseControllerState::Ping, i).to_cpu_data == i.from_cpu_data,
        controller_outputs::<A>(BaseControllerState::Ping, i).from_cpu_read,
        next_registers(BaseControllerState::Ping, c, i).0 == BaseControllerState::Idle,
{
}

/// A NOOP word is taken off the queue and nothing else happens.
pub proof fn law_noop_is_skipped<const A: usize>(c: Bits<16>, i: ControllerInputs)
    requires
        !i.from_cpu_empty,
        opcode(i.from_cpu_data) == 0,
    ensures
        next_registers(BaseControllerState::Idle, c, i) == (BaseControllerState::Idle, c),
        controller_outputs::<A>(BaseControllerState::Idle, i).from_cpu_read,
        !controller_outputs::<A>(BaseControllerState::Idle, i).to_cpu_write,
        !controller_outputs::<A>(BaseControllerState::Idle, i).bus_strobe,
        !controller_outputs::<A>(BaseControllerState::Idle, i).bus_address_strobe,
{
}

/// While fewer words than the count have moved, a read goes on, its
/// counter holding the words still to move.
pub proof fn law_read_in_progress(c: Bits<16>, ins: Seq<ControllerInputs>)
    requires
        c.wf(),
        read_transfers(ins) < c.val(),
    ensures
        run(BaseControllerState::Read, c, ins).0 == BaseControllerState::Read,
        run(BaseControllerState::Read, c, ins).1.wf(),
        run(BaseControllerState::Read, c, ins).1.val() == c.val() - read_transfers(ins),
    decreases ins.len(),
{
    if ins.len() > 0 {
        let (s1, c1) = next_registers(BaseControllerState::Read, c, ins[0]);
        if read_transfer(ins[0]) {
            lemma_decreased(c, 1);
        }
        law_read_in_progress(c1, ins.drop_first());
    }
}

proof fn lemma_last_counts(ins: Seq<ControllerInputs>, reading: bool)
    requires
        ins.len() >= 1,
        reading ==> read_transfer(ins.last()),
        !reading ==> write_transfer(ins.last()),
    ensures
        reading ==> read_transfers(ins) >= 1,
        !reading ==> write_transfers(ins) >= 1,
    decreases ins.len(),
{
    if ins.len() > 1 {
        assert(ins.drop_first().last() == ins.last());
        lemma_last_counts(ins.drop_first(), reading);
    }
}

/// A read of count `n >= 1` ends, and the controller is idle, in the clock
/// in which the `n`-th word moves from the bus to the CPU.
pub proof fn law_read_moves_count_words(c: Bits<16>, ins: Seq<ControllerInputs>)
    requires
        c.wf(),
        c.val() >= 1,
        ins.len() >= 1,
        read_transfers(ins) == c.val(),
        read_transfer(ins.last()),
    ensures
        run(BaseControllerState::Read, c, ins).0 == BaseControllerState::Idle,
    decreases ins.len(),
{
    let (s1, c1) = next_registers(BaseControllerState::Read, c, ins[0]);
    let rest = ins.drop_first();
    if ins.len() == 1 {
        assert(ins.last() == ins[0]);
        assert(rest.len() == 0);
        assert(run(s1, c1, rest) == (s1, c1));
    } else {
        assert(rest.last() == ins.last());
        lemma_last_counts(rest, true);
        if read_transfer(ins[0]) {
            lemma_decreased(c, 1);
        }
        law_read_moves_count_words(c1, rest);
    }
}

/// While fewer words than the count have moved, a write goes on, its
/// counter holding the words still to move.
pub proof fn law_write_in_progress(c: Bits<16>, ins: Seq<ControllerInputs>)
    requires
        c.wf(),
        write_transfers(ins) < c.val(),
    ensures
        run(BaseControllerState::Write, c, ins).0 == BaseControllerState::Write,
        run(BaseControllerState::Write, c, ins).1.wf(),
        run(BaseControllerState::Write, c, ins).1.val() == c.val() - write_transfers(ins),
    decreases ins.len(),
{
    if ins.len() > 0 {
        let (s1, c1) = next_registers(BaseControllerState::Write, c, ins[0]);
        if write_transfer(ins[0]) {
            lemma_decreased(c, 1);
        }
        law_write_in_progress(c1, ins.drop_first());
    }
}

/// A write of count `n >= 1` ends, and the controller is idle, in the clock
/// in which the `n`-th word moves from the CPU to the bus.
pub proof fn law_write_moves_count_words(c: Bits<16>, ins: Seq<ControllerInputs>)
    requires
        c.wf(),
        c.val() >= 1,
        ins.len() >= 1,
        write_transfers(ins) == c.val(),
        write_transfer(ins.last()),
    ensures
        run(BaseControllerState::Write, c, ins).0 == BaseControllerState::Idle,
    decreases ins.len(),
{
    let (s1, c1) = next_registers(BaseControllerState::Write, c, ins[0]);
    let rest = ins.drop_first();
    if ins.len() == 1 {
        assert(ins.last() == ins[0]);
        assert(rest.len() == 0);
        assert(run(s1, c1, rest) == (s1, c1));
    } else {
        assert(rest.last() == ins.last());
        lemma_last_counts(rest, false);
        if write_transfer(ins[0]) {
            lemma_decreased(c, 1);
        }
        law_write_moves_count_words(c1, rest);
    }
}

/// A stream goes on while the CPU sends nothing or zero words, and stops
/// at the first word that is not zero, which it takes off the queue.
pub proof fn law_stream_stops_on_nonzero<const A: usize>(c: Bits<16>, i: ControllerInputs)
    ensures
        !i.from_cpu_empty && i.from_cpu_data.val() != 0 ==> next_registers(
            BaseControllerState::Stream,
            c,
            i,
        ).0 == BaseControllerState::Idle,
        i.from_cpu_empty || i.from_cpu_data.val() == 0 ==> next_registers(
            BaseControllerState::Stream,
            c,
            i,
        ).0 == BaseControllerState::Stream,
        controller_outputs::<A>(BaseControllerState::Stream, i).from_cpu_read == !i.from_cpu_empty,
{
}

} // verus!
