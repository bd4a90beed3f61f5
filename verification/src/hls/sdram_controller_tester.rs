//! A self test for an SDRAM controller.  On a command it writes a stream
//! of pseudo random words, four bytes at a time, until `count` bytes are
//! written, then reads them back; a second generator, started from the
//! same seed, predicts each word read, and the tester counts the words
//! checked and the words that differ.  Counts go up by two per checked
//! pipeline word, which carries two 16-bit words.
use crate::hdl_core::bits::Bits;
use crate::sim::clocked::{below, lemma_zero, same, zero};
use vstd::arithmetic::div_mod::lemma_small_mod;
use vstd::arithmetic::power2::*;
use vstd::prelude::*;

verus! {

/// What the tester is doing.
#[derive(Debug, Copy, Clone, PartialEq, Eq, Structural)]
pub enum TesterState {
    Idle,
    Writing,
    Reading,
}

/// The tester's registers.
#[derive(Copy, Clone, Debug)]
pub struct TesterRegisters {
    pub state: TesterState,
    /// The byte address of the next command to the controller.
    pub dram_address: Bits<32>,
    pub error_count: Bits<32>,
    pub validation_count: Bits<32>,
    pub write_count: Bits<32>,
    /// The word read back, waiting to be checked.
    pub output_pipeline: Bits<32>,
    /// Set while `output_pipeline` holds a word to check.
    pub output_avail: bool,
}

/// What the tester reads in one clock.
#[derive(Copy, Clone, Debug)]
pub struct TesterInputs {
    /// A command was written to the tester's command port.
    pub cmd_strobe: bool,
    /// The number of bytes to write and read back.
    pub count: Bits<32>,
    pub controller_busy: bool,
    pub controller_data_out: Bits<64>,
    pub controller_data_valid: bool,
    /// The pseudo random word the writing generator offers.
    pub lsfr_num: Bits<32>,
    pub entropy_full: bool,
    pub entropy_empty: bool,
    pub entropy_data_out: Bits<64>,
    pub output_full: bool,
    pub output_empty: bool,
    pub output_data_out: Bits<32>,
    /// The word the checking generator predicts.
    pub lsfr_validate_num: Bits<32>,
}

/// What the tester drives in one clock.
#[derive(Copy, Clone, Debug)]
pub struct TesterOutputs {
    pub cmd_ready: bool,
    pub controller_cmd_address: Bits<32>,
    pub controller_write_not_read: bool,
    pub controller_cmd_strobe: bool,
    pub controller_data_in: Bits<64>,
    pub lsfr_strobe: bool,
    pub entropy_data_in: Bits<32>,
    pub entropy_write: bool,
    pub entropy_read: bool,
    pub output_data_in: Bits<64>,
    pub output_write: bool,
    pub output_read: bool,
    pub lsfr_validate_strobe: bool,
    /// The three result ports: the strobe that publishes each, and its
    /// value.
    pub write_strobe: bool,
    pub error_strobe: bool,
    pub validation_strobe: bool,
    pub write_port: Bits<32>,
    pub error_port: Bits<32>,
    pub validation_port: Bits<32>,
}

impl TesterRegisters {
    pub open spec fn wf(self) -> bool {
        &&& self.dram_address.wf()
        &&& self.error_count.wf()
        &&& self.validation_count.wf()
        &&& self.write_count.wf()
        &&& self.output_pipeline.wf()
    }
}

impl TesterInputs {
    pub open spec fn wf(self) -> bool {
        &&& self.count.wf()
        &&& self.controller_data_out.wf()
        &&& self.lsfr_num.wf()
        &&& self.entropy_data_out.wf()
        &&& self.output_data_out.wf()
        &&& self.lsfr_validate_num.wf()
    }
}

/// `x + k`, wrapping at `2^32`.
pub open spec fn plus(x: Bits<32>, k: nat) -> Bits<32> {
    x.sum(Bits::<32>::from_val(k))
}

/// A write command goes to the controller in this clock.
pub open spec fn writes_now(r: TesterRegisters, i: TesterInputs) -> bool {
    r.state == TesterState::Writing && r.write_count.val() < i.count.val() && !i.controller_busy
        && !i.entropy_empty
}

/// A read command goes to the controller in this clock.
pub open spec fn reads_now(r: TesterRegisters, i: TesterInputs) -> bool {
    r.state == TesterState::Reading && r.dram_address.val() < i.count.val() && !i.controller_busy
        && !i.output_full
}

/// The command and write/read phases after one clock edge.
pub open spec fn next_phase(r: TesterRegisters, i: TesterInputs) -> TesterRegisters {
    match r.state {
        TesterState::Idle => {
            if i.cmd_strobe {
                TesterRegisters {
                    error_count: zero(),
                    dram_address: zero(),
                    state: TesterState::Writing,
                    validation_count: zero(),
                    write_count: zero(),
                    ..r
                }
            } else {
                r
            }
        },
        TesterState::Writing => {
            if r.write_count.val() >= i.count.val() {
                if !i.controller_busy {
                    TesterRegisters { dram_address: zero(), state: TesterState::Reading, ..r }
                } else {
                    r
                }
            } else if writes_now(r, i) {
                TesterRegisters {
                    dram_address: plus(r.dram_address, 4),
                    write_count: plus(r.write_count, 4),
                    ..r
                }
            } else {
                r
            }
        },
        TesterState::Reading => {
            if r.dram_address.val() >= i.count.val() {
                if r.validation_count.val() >= i.count.val() {
                    TesterRegisters { state: TesterState::Idle, ..r }
                } else {
                    r
                }
            } else if reads_now(r, i) {
                TesterRegisters { dram_address: plus(r.dram_address, 4), ..r }
            } else {
                r
            }
        },
    }
}

/// The registers after one clock edge: the phases, and the check of the
/// word in the pipeline, which a word from the output FIFO refills.
pub open spec fn next_registers(r: TesterRegisters, i: TesterInputs) -> TesterRegisters {
    let p = next_phase(r, i);
    if r.output_avail {
        TesterRegisters {
            error_count: if r.output_pipeline.val() != i.lsfr_validate_num.val() {
                plus(r.error_count, 2)
            } else {
                p.error_count
            },
            validation_count: plus(r.validation_count, 2),
            output_avail: false,
            ..p
        }
    } else if !i.output_empty {
        TesterRegisters { output_pipeline: i.output_data_out, output_avail: true, ..p }
    } else {
        p
    }
}

/// What the tester drives during a clock.
pub open spec fn tester_outputs(r: TesterRegisters, i: TesterInputs) -> TesterOutputs {
    let finishing_writes = r.state == TesterState::Writing && r.write_count.val() >= i.count.val()
        && !i.controller_busy;
    let finishing_reads = r.state == TesterState::Reading && r.dram_address.val() >= i.count.val()
        && r.validation_count.val() >= i.count.val();
    TesterOutputs {
        cmd_ready: r.state == TesterState::Idle,
        controller_cmd_address: r.dram_address,
        controller_write_not_read: writes_now(r, i),
        controller_cmd_strobe: writes_now(r, i) || reads_now(r, i),
        controller_data_in: i.entropy_data_out,
        lsfr_strobe: !i.entropy_full,
        entropy_data_in: i.lsfr_num,
        entropy_write: !i.entropy_full,
        entropy_read: writes_now(r, i),
        output_data_in: i.controller_data_out,
        output_write: i.controller_data_valid,
        output_read: !r.output_avail && !i.output_empty,
        lsfr_validate_strobe: r.output_avail,
        write_strobe: finishing_writes,
        error_strobe: finishing_reads,
        validation_strobe: finishing_reads,
        write_port: r.write_count,
        error_port: r.error_count,
        validation_port: r.validation_count,
    }
}

/// The SDRAM controller tester for a memory of `2^R` rows of `2^C`
/// columns.
pub struct SDRAMControllerTester<const R: usize, const C: usize> {
    pub regs: TesterRegisters,
}

impl<const R: usize, const C: usize> SDRAMControllerTester<R, C> {
    /// An idle tester with every count clear.
    pub fn new() -> (t: Self)
        ensures
            t.regs.wf(),
            t.regs == (TesterRegisters {
                state: TesterState::Idle,
                dram_address: zero(),
                error_count: zero(),
                validation_count: zero(),
                write_count: zero(),
                output_pipeline: zero(),
                output_avail: false,
            }),
    {
        proof {
            lemma2_to64();
        }
        SDRAMControllerTester {
            regs: TesterRegisters {
                state: TesterState::Idle,
                dram_address: Bits::from(0u64),
                error_count: Bits::from(0u64),
                validation_count: Bits::from(0u64),
                write_count: Bits::from(0u64),
                output_pipeline: Bits::from(0u64),
                output_avail: false,
            },
        }
    }

    /// One clock: what the tester drives while `inputs` hold, and its
    /// registers after the clock edge.
    pub fn update(&mut self, inputs: &TesterInputs) -> (out: TesterOutputs)
        requires
            old(self).regs.wf(),
            inputs.wf(),
        ensures
            final(self).regs.wf(),
            final(self).regs == next_registers(old(self).regs, *inputs),
            out == tester_outputs(old(self).regs, *inputs),
    {
        proof {
            lemma2_to64();
        }
        let r = self.regs;
        let mut n = r;
        let mut out = TesterOutputs {
            cmd_ready: false,
            controller_cmd_address: r.dram_address,
            controller_write_not_read: false,
            controller_cmd_strobe: false,
            controller_data_in: inputs.entropy_data_out,
            lsfr_strobe: !inputs.entropy_full,
            entropy_data_in: inputs.lsfr_num,
            entropy_write: !inputs.entropy_full,
            entropy_read: false,
            output_data_in: inputs.controller_data_out,
            output_write: inputs.controller_data_valid,
            output_read: false,
            lsfr_validate_strobe: false,
            write_strobe: false,
            error_strobe: false,
            validation_strobe: false,
            write_port: r.write_count,
            error_port: r.error_count,
            validation_port: r.validation_count,
        };
        match r.state {
            TesterState::Idle => {
                out.cmd_ready = true;
                if inputs.cmd_strobe {
                    n.error_count = Bits::from(0u64);
                    n.dram_address = Bits::from(0u64);
                    n.state = TesterState::Writing;
                    n.validation_count = Bits::from(0u64);
                    n.write_count = Bits::from(0u64);
                }
            },
            TesterState::Writing => {
                if !below(&r.write_count, &inputs.count) {
                    if !inputs.controller_busy {
                        n.dram_address = Bits::from(0u64);
                        n.state = TesterState::Reading;
                        out.write_strobe = true;
                    }
                } else if !inputs.controller_busy && !inputs.entropy_empty {
                    out.controller_write_not_read = true;
                    out.controller_cmd_strobe = true;
                    n.dram_address = r.dram_address + 4u64;
                    out.entropy_read = true;
                    n.write_count = r.write_count + 4u64;
                }
            },
            TesterState::Reading => {
                if !below(&r.dram_address, &inputs.count) {
                    if !below(&r.validation_count, &inputs.count) {
                        n.state = TesterState::Idle;
                        out.error_strobe = true;
                        out.validation_strobe = true;
                    }
                } else if !inputs.controller_busy && !inputs.output_full {
                    out.controller_write_not_read = false;
                    out.controller_cmd_strobe = true;
                    n.dram_address = r.dram_address + 4u64;
                }
            },
        }
        if !r.output_avail && !inputs.output_empty {
            n.output_pipeline = inputs.output_data_out;
            out.output_read = true;
            n.output_avail = true;
        }
        if r.output_avail {
            if !same(&r.output_pipeline, &inputs.lsfr_validate_num) {
                n.error_count = r.error_count + 2u64;
            }
            n.output_avail = false;
            out.lsfr_validate_strobe = true;
            n.validation_count = r.validation_count + 2u64;
        }
        self.regs = n;
        out
    }
}

/// `x + k` does not wrap when it stays below `2^32`.
proof fn lemma_plus(x: Bits<32>, k: nat)
    requires
        x.wf(),
        x.val() + k < pow2(32),
    ensures
        plus(x, k).wf(),
        plus(x, k).val() == x.val() + k,
{
    lemma2_to64();
    lemma_small_mod(k, pow2(32));
    Bits::<32>::lemma_from_val(k);
    lemma_small_mod(x.val() + k, pow2(32));
    Bits::<32>::lemma_from_val(x.val() + k);
}

/// The tester never counts more differing words than checked words: each
/// check adds two to the checked count, and two to the differing count
/// only when the word differs from the prediction; a new run clears both.
/// This holds while the checked count does not wrap.
pub proof fn law_errors_within_checks(r: TesterRegisters, i: TesterInputs)
    requires
        r.wf(),
        r.error_count.val() <= r.validation_count.val(),
        r.validation_count.val() + 2 < pow2(32),
    ensures
        next_registers(r, i).error_count.val() <= next_registers(r, i).validation_count.val(),
{
    lemma_zero::<32>();
    lemma_plus(r.validation_count, 2);
    lemma_plus(r.error_count, 2);
}

/// A command to an idle tester starts a run: it writes from address zero
/// with every count clear, when no check of an old word is under way.
pub proof fn law_command_starts_run(r: TesterRegisters, i: TesterInputs)
    requires
        r.state == TesterState::Idle,
        i.cmd_strobe,
        !r.output_avail,
    ensures
        next_registers(r, i).state == TesterState::Writing,
        next_registers(r, i).dram_address.val() == 0,
        next_registers(r, i).write_count.val() == 0,
        next_registers(r, i).error_count.val() == 0,
        next_registers(r, i).validation_count.val() == 0,
{
    lemma_zero::<32>();
}

/// Each write command the tester sends goes to the next four bytes, and
/// counts four bytes written; no write is sent once `count` bytes are
/// written.
pub proof fn law_writes_advance(r: TesterRegisters, i: TesterInputs)
    requires
        r.wf(),
        i.wf(),
        r.state == TesterState::Writing,
        r.dram_address.val() + 4 < pow2(32),
        r.write_count.val() + 4 < pow2(32),
    ensures
        tester_outputs(r, i).controller_cmd_strobe ==> {
            &&& r.write_count.val() < i.count.val()
            &&& tester_outputs(r, i).controller_write_not_read
            &&& tester_outputs(r, i).controller_cmd_address == r.dram_address
            &&& next_registers(r, i).dram_address.val() == r.dram_address.val() + 4
            &&& next_registers(r, i).write_count.val() == r.write_count.val() + 4
        },
        r.write_count.val() >= i.count.val() ==> !tester_outputs(r, i).controller_cmd_strobe,
{
    lemma_plus(r.dram_address, 4);
    lemma_plus(r.write_count, 4);
}

/// A run ends only when every byte has been read back and checked: the
/// tester goes idle from reading only when the read address and the
/// checked count have both reached `count`, and then publishes its counts.
pub proof fn law_run_ends_when_checked(r: TesterRegisters, i: TesterInputs)
    requires
        r.state == TesterState::Reading,
        next_registers(r, i).state == TesterState::Idle,
    ensures
        r.dram_address.val() >= i.count.val(),
        r.validation_count.val() >= i.count.val(),
        tester_outputs(r, i).error_strobe,
        tester_outputs(r, i).validation_strobe,
        tester_outputs(r, i).error_port == r.error_count,
{
}

} // verus!
