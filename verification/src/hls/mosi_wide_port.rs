//! A wide output port: the master writes a `W`-bit value as `W / D` words
//! of `D` bits, most significant word first.  The port shifts each word
//! into an accumulator and, after the last word of a value, latches the
//! accumulator and announces it with a strobe.
use crate::hdl_core::bits::{bit_cast, Bits};
use crate::sim::clocked::{incremented, same, zero};
use crate::sim::sdr_sdram::bank::bit_cast_spec;
use crate::hdl_core::bit_math::{lemma_lt_pow2, lemma_mod_pow2_mod, lemma_shift_in_val, lemma_val_bits};
use vstd::arithmetic::div_mod::{lemma_add_mod_noop, lemma_small_mod, lemma_truncate_middle};
use vstd::arithmetic::power2::*;
use vstd::prelude::*;

verus! {

/// The port's registers.
#[derive(Copy, Clone, Debug)]
pub struct WidePortRegisters<const W: usize> {
    /// The words written so far, the latest in the low bits.
    pub accum: Bits<W>,
    /// The latched value.
    pub state: Bits<W>,
    /// The port was selected in the previous clock.
    pub address_active: bool,
    /// Words of the value under way written so far.
    pub count: Bits<8>,
    /// A value was completed in the previous clock.
    pub strobe: bool,
}

/// What the port reads in one clock.
#[derive(Copy, Clone, Debug)]
pub struct WidePortInputs<const D: usize> {
    pub select: bool,
    pub strobe: bool,
    pub from_controller: Bits<D>,
}

/// What the port drives in one clock.
#[derive(Copy, Clone, Debug)]
pub struct WidePortOutputs<const W: usize, const D: usize> {
    pub port_out: Bits<W>,
    pub strobe_out: bool,
    pub bus_ready: bool,
    pub to_controller: Bits<D>,
}

/// The accumulator with one more word shifted in at the low end.
pub open spec fn shifted_in<const W: usize, const D: usize>(accum: Bits<W>, w: Bits<D>) -> Bits<W> {
    accum.shl_bits(Bits::<W>::from_val(D as nat)).or_bits(bit_cast_spec::<W, D>(w))
}

/// The registers after one clock edge, for values of `words` words.
pub open spec fn next_registers<const W: usize, const D: usize>(
    r: WidePortRegisters<W>,
    i: WidePortInputs<D>,
    words: nat,
) -> WidePortRegisters<W> {
    if r.address_active && i.strobe {
        let last = r.count.val() == words - 1;
        WidePortRegisters {
            accum: shifted_in(r.accum, i.from_controller),
            count: if last {
                zero()
            } else {
                incremented(r.count)
            },
            state: if last {
                r.accum
            } else {
                r.state
            },
            strobe: last,
            address_active: i.select,
        }
    } else {
        WidePortRegisters { address_active: i.select, strobe: false, ..r }
    }
}

/// What the port drives during a clock.
pub open spec fn wide_port_outputs<const W: usize, const D: usize>(
    r: WidePortRegisters<W>,
) -> WidePortOutputs<W, D> {
    WidePortOutputs {
        port_out: r.accum,
        strobe_out: r.strobe,
        bus_ready: r.address_active,
        to_controller: zero(),
    }
}

/// A wide output port of `W` bits written in words of `D` bits.
pub struct MOSIWidePort<const W: usize, const D: usize> {
    pub regs: WidePortRegisters<W>,
    /// The shift of one word, `D`.
    pub offset: Bits<W>,
    /// The count of the last word of a value, `W / D - 1`.
    pub modulo: Bits<8>,
}

impl<const W: usize, const D: usize> MOSIWidePort<W, D> {
    pub open spec fn wf(self) -> bool {
        &&& self.regs.accum.wf()
        &&& self.regs.state.wf()
        &&& self.regs.count.wf()
        &&& 0 < D < W
        &&& W / D < 256
        &&& self.offset == Bits::<W>::from_val(D as nat)
        &&& self.modulo.wf()
        &&& self.modulo.val() == W / D - 1
    }

    /// An empty port.  A value must be wider than a word, a whole number of
    /// words, and fewer than 256 of them.
    pub fn new() -> (p: Self)
        requires
            0 < D < W,
            W % D == 0,
            W / D < 256,
        ensures
            p.wf(),
            p.regs == (WidePortRegisters::<W> {
                accum: zero(),
                state: zero(),
                address_active: false,
                count: zero(),
                strobe: false,
            }),
    {
        proof {
            lemma2_to64();
            lemma_pow2_pos(W as nat);
            Bits::<W>::lemma_from_val(0);
            Bits::<8>::lemma_from_val(0);
            assert(W / D >= 1) by (nonlinear_arith)
                requires
                    W > D,
                    D > 0,
            ;
            lemma_small_mod((W / D - 1) as nat, pow2(8));
            Bits::<8>::lemma_from_val((W / D - 1) as nat);
        }
        MOSIWidePort {
            regs: WidePortRegisters {
                accum: Bits::from(0u64),
                state: Bits::from(0u64),
                address_active: false,
                count: Bits::from(0u64),
                strobe: false,
            },
            offset: Bits::from(D as u64),
            modulo: Bits::from((W / D - 1) as u64),
        }
    }

    /// One clock: what the port drives, and its registers after the clock
    /// edge.
    pub fn update(&mut self, inputs: &WidePortInputs<D>) -> (out: WidePortOutputs<W, D>)
        requires
            old(self).wf(),
            inputs.from_controller.wf(),
        ensures
            final(self).wf(),
            final(self).offset == old(self).offset,
            final(self).modulo == old(self).modulo,
            final(self).regs == next_registers(old(self).regs, *inputs, (W / D) as nat),
            out == wide_port_outputs::<W, D>(old(self).regs),
    {
        proof {
            lemma2_to64();
        }
        let r = self.regs;
        let out = WidePortOutputs {
            port_out: r.accum,
            strobe_out: r.strobe,
            bus_ready: r.address_active,
            to_controller: Bits::from(0u64),
        };
        self.regs.address_active = inputs.select;
        self.regs.strobe = false;
        if r.address_active && inputs.strobe {
            proof {
                Bits::<W>::lemma_from_val(D as nat);
                crate::sim::clocked::lemma_incremented(r.count);
            }
            self.regs.accum = (r.accum << self.offset) | bit_cast::<W, D>(inputs.from_controller);
            self.regs.count = r.count + 1u64;
            if same(&r.count, &self.modulo) {
                self.regs.count = Bits::from(0u64);
                self.regs.state = r.accum;
                self.regs.strobe = true;
                proof {
                    lemma_pow2_pos(8);
                    Bits::<8>::lemma_from_val(0);
                }
            }
        }
        out
    }
}

/// Shifting a word in: the word's value plus `2^D` times the low `W - D`
/// bits of the accumulator.
pub proof fn lemma_shifted_in<const W: usize, const D: usize>(accum: Bits<W>, w: Bits<D>)
    requires
        accum.wf(),
        w.wf(),
        0 < D < W,
    ensures
        shifted_in(accum, w).wf(),
        shifted_in(accum, w).val() == w.val() + pow2(D as nat) * (accum.val() % pow2(
            (W - D) as nat,
        )),
{
    lemma2_to64();
    Bits::<W>::lemma_wf_view(accum);
    Bits::<D>::lemma_wf_view(w);
    lemma_lt_pow2(W as nat);
    lemma_pow2_strictly_increases(D as nat, W as nat);
    lemma_small_mod(D as nat, pow2(W as nat));
    Bits::<W>::lemma_from_val(D as nat);
    if W <= 32 {
        lemma_small_mod(D as nat, 32);
    } else {
        crate::hdl_core::bit_vec::lemma_usize_pow2();
        lemma_small_mod(D as nat, pow2(usize::BITS as nat));
    }
    let t = crate::hdl_core::bit_math::shl_seq(accum@, D as nat);
    Bits::<W>::lemma_from_val(crate::hdl_core::bit_math::seq_val(t));
    crate::hdl_core::bit_math::lemma_seq_val_bound(t);
    lemma_small_mod(crate::hdl_core::bit_math::seq_val(t), pow2(W as nat));
    lemma_val_bits(t);
    lemma_pow2_strictly_increases(D as nat, W as nat);
    lemma_small_mod(w.val(), pow2(W as nat));
    Bits::<W>::lemma_from_val(w.val());
    lemma_shift_in_val(accum@, w.val(), D as nat);
    let lo = accum.val() % pow2((W - D) as nat);
    let v = w.val() + pow2(D as nat) * lo;
    lemma_pow2_adds(D as nat, (W - D) as nat);
    lemma_pow2_pos((W - D) as nat);
    assert(v < pow2(W as nat)) by (nonlinear_arith)
        requires
            v == w.val() + pow2(D as nat) * lo,
            w.val() < pow2(D as nat),
            lo < pow2((W - D) as nat),
            pow2(W as nat) == pow2(D as nat) * pow2((W - D) as nat),
    ;
    lemma_small_mod(v, pow2(W as nat));
    Bits::<W>::lemma_from_val(v);
}

/// The number that words stand for, the first word most significant.
pub open spec fn packed(ws: Seq<nat>, d: nat) -> nat
    decreases ws.len(),
{
    if ws.len() == 0 {
        0
    } else {
        packed(ws.drop_last(), d) * pow2(d) + ws.last()
    }
}

/// The values of written words.
pub open spec fn word_values<const D: usize>(ins: Seq<WidePortInputs<D>>) -> Seq<nat> {
    ins.map_values(|i: WidePortInputs<D>| i.from_controller.val())
}

/// The registers after one clock for each element of `ins`, in order.
pub open spec fn run<const W: usize, const D: usize>(
    r: WidePortRegisters<W>,
    ins: Seq<WidePortInputs<D>>,
    words: nat,
) -> WidePortRegisters<W>
    decreases ins.len(),
{
    if ins.len() == 0 {
        r
    } else {
        next_registers(run(r, ins.drop_last(), words), ins.last(), words)
    }
}

/// Clocks in which the selected port is written.
pub open spec fn all_writes<const D: usize>(ins: Seq<WidePortInputs<D>>) -> bool {
    forall|k: int|
        #![trigger ins[k]]
        0 <= k < ins.len() ==> ins[k].select && ins[k].strobe && ins[k].from_controller.wf()
}

/// After `m` written words the accumulator holds the old accumulator
/// shifted up by `m` words with the words below it, first word most
/// significant, all modulo `2^W`.
proof fn lemma_accumulated<const W: usize, const D: usize>(
    r: WidePortRegisters<W>,
    ins: Seq<WidePortInputs<D>>,
    words: nat,
)
    requires
        r.accum.wf(),
        r.address_active,
        all_writes(ins),
        0 < D < W,
    ensures
        run(r, ins, words).accum.wf(),
        run(r, ins, words).address_active,
        run(r, ins, words).accum.val() == (r.accum.val() * pow2((D * ins.len()) as nat) + packed(
            word_values(ins),
            D as nat,
        )) % pow2(W as nat),
    decreases ins.len(),
{
    lemma_pow2_pos(W as nat);
    if ins.len() == 0 {
        lemma2_to64();
        Bits::<W>::lemma_wf_view(r.accum);
        assert(D * ins.len() == 0);
        lemma_small_mod(r.accum.val(), pow2(W as nat));
    } else {
        let m = ins.len();
        let prev = ins.drop_last();
        assert forall|k: int|
            #![trigger prev[k]]
            0 <= k < prev.len() implies prev[k].select && prev[k].strobe
                && prev[k].from_controller.wf() by {
            assert(prev[k] == ins[k]);
        }
        assert(ins.last() == ins[ins.len() - 1]);
        assert(ins[ins.len() - 1].select);
        lemma_accumulated(r, prev, words);
        let q = run(r, prev, words);
        let w = ins.last().from_controller;
        lemma_shifted_in(q.accum, w);
        assert(word_values(ins).drop_last() =~= word_values(prev));
        let x = r.accum.val() * pow2((D * (m - 1)) as nat) + packed(word_values(prev), D as nat);
        let pd = pow2(D as nat);
        let pr = pow2((W - D) as nat);
        lemma_pow2_pos(D as nat);
        lemma_pow2_pos((W - D) as nat);
        lemma_pow2_adds(D as nat, (W - D) as nat);
        lemma_mod_pow2_mod(x as int, (W - D) as nat, W as nat);
        lemma_truncate_middle(x as int, pd as int, pr as int);
        lemma_add_mod_noop((pd * x) as int, w.val() as int, pow2(W as nat) as int);
        Bits::<W>::lemma_wf_view(run(r, ins, words).accum);
        lemma_small_mod(run(r, ins, words).accum.val(), pow2(W as nat));
        let pw = pow2(W as nat);
        assert(run(r, ins, words).accum == shifted_in(q.accum, w));
        assert(q.accum.val() == x % pow2(W as nat));
        assert(q.accum.val() % pr == x % pr);
        assert(pd * (x % pr) == (pd * x) % pw);
        Bits::<D>::lemma_wf_view(w);
        lemma_pow2_strictly_increases(D as nat, W as nat);
        lemma_small_mod(w.val(), pow2(W as nat));
        assert(run(r, ins, words).accum.val() == w.val() + (pd * x) % pw);
        assert(run(r, ins, words).accum.val() == (pd * x + w.val()) % pw);
        lemma_pow2_adds((D * (m - 1)) as nat, D as nat);
        assert(D * (m - 1) + D == D * m) by (nonlinear_arith);
        assert(pd * x + w.val() == r.accum.val() * pow2((D * m) as nat) + packed(
            word_values(ins),
            D as nat,
        )) by (nonlinear_arith)
            requires
                x == r.accum.val() * pow2((D * (m - 1)) as nat) + packed(word_values(prev), D as nat),
                pow2((D * m) as nat) == pow2((D * (m - 1)) as nat) * pd,
                packed(word_values(ins), D as nat) == packed(word_values(prev), D as nat) * pd
                    + w.val(),
        ;
    }
}

/// A value written as `W / D` words is assembled in the port, its first
/// word most significant, whatever the port held before: after the writes
/// the port puts it out.
pub proof fn law_value_assembled<const W: usize, const D: usize>(
    r: WidePortRegisters<W>,
    ins: Seq<WidePortInputs<D>>,
)
    requires
        r.accum.wf(),
        r.address_active,
        all_writes(ins),
        0 < D < W,
        W % D == 0,
        ins.len() == W / D,
    ensures
        wide_port_outputs::<W, D>(run(r, ins, (W / D) as nat)).port_out.val() == packed(
            word_values(ins),
            D as nat,
        ),
{
    lemma_accumulated(r, ins, (W / D) as nat);
    assert(D * ins.len() == W) by (nonlinear_arith)
        requires
            ins.len() == W / D,
            W % D == 0,
            D > 0,
    {
        vstd::arithmetic::div_mod::lemma_fundamental_div_mod(W as int, D as int);
    }
    lemma_packed_bound(word_values(ins), D as nat, ins);
    lemma_pow2_pos(W as nat);
    vstd::arithmetic::div_mod::lemma_mod_multiples_vanish(
        r.accum.val() as int,
        packed(word_values(ins), D as nat) as int,
        pow2(W as nat) as int,
    );
    lemma_small_mod(packed(word_values(ins), D as nat), pow2(W as nat));
    assert(r.accum.val() * pow2(W as nat) == pow2(W as nat) * r.accum.val()) by (nonlinear_arith);
}

/// Words of `d` bits pack into `d` bits each.
proof fn lemma_packed_bound<const D: usize>(ws: Seq<nat>, d: nat, ins: Seq<WidePortInputs<D>>)
    requires
        d == D,
        ws == word_values(ins),
        all_writes(ins),
    ensures
        packed(ws, d) < pow2((d * ws.len()) as nat),
    decreases ws.len(),
{
    lemma_pow2_pos((d * ws.len()) as nat);
    if ws.len() > 0 {
        let m = ws.len();
        assert(ws.len() == ins.len());
        assert(ws.drop_last() == word_values(ins.drop_last()));
        assert forall|k: int|
            #![trigger ins.drop_last()[k]]
            0 <= k < ins.drop_last().len() implies ins.drop_last()[k].select
                && ins.drop_last()[k].strobe && ins.drop_last()[k].from_controller.wf() by {
            assert(ins.drop_last()[k] == ins[k]);
        }
        lemma_packed_bound(ws.drop_last(), d, ins.drop_last());
        assert(ins.last() == ins[ins.len() - 1]);
        assert(ins[ins.len() - 1].from_controller.wf());
        Bits::<D>::lemma_wf_view(ins.last().from_controller);
        let p = packed(ws.drop_last(), d);
        lemma_pow2_adds((d * (m - 1)) as nat, d);
        assert(d * (m - 1) + d == d * m) by (nonlinear_arith);
        assert(p * pow2(d) + ws.last() < pow2((d * m) as nat)) by (nonlinear_arith)
            requires
                p < pow2((d * (m - 1)) as nat),
                ws.last() < pow2(d),
                pow2((d * m) as nat) == pow2((d * (m - 1)) as nat) * pow2(d),
        ;
    }
}

} // verus!
