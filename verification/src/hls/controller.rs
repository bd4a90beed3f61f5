//! The base controller: it reads 16-bit words from the CPU and carries out
//! the commands they hold on a 16-bit bus.  The upper byte of a command
//! word is its opcode, the lower bits its bus address:
//!
//! * 0, NOOP: skipped;
//! * 1, PING: the word is sent back to the CPU;
//! * 2, READ: the next word is a count, and that many words are read from
//!   the bus and sent to the CPU;
//! * 3, WRITE: the next word is a count, and that many words from the CPU
//!   are written to the bus;
//! * 4, POLL: the CPU is sent `0xFF00`, plus one when the bus is ready;
//! * 5, STREAM: words are read from the bus and sent to the CPU until the
//!   CPU sends a word that is not zero.
//!
//! Other opcodes wait at the head of the CPU's queue.
use crate::hdl_core::bits::Bits;
use crate::sim::clocked::{bit_field, decreased, field, same};
use vstd::arithmetic::power2::*;
use vstd::prelude::*;

verus! {

/// Where the controller is in carrying out a command.
#[derive(Copy, Clone, PartialEq, Eq, Structural, Debug)]
pub enum BaseControllerState {
    Idle,
    Ping,
    ReadLoadCount,
    Read,
    Write,
    WriteLoadCount,
    PollWait,
    Poll,
    StreamWait,
    Stream,
}

/// What the controller reads in one clock: the head of the queue from the
/// CPU, whether the queue to the CPU is full, and the bus.
#[derive(Copy, Clone, Debug)]
pub struct ControllerInputs {
    pub from_cpu_data: Bits<16>,
    pub from_cpu_empty: bool,
    pub to_cpu_full: bool,
    pub bus_ready: bool,
    pub bus_to_controller: Bits<16>,
}

/// What the controller drives in one clock.
#[derive(Copy, Clone, Debug)]
pub struct ControllerOutputs<const A: usize> {
    /// Takes the head word off the queue from the CPU.
    pub from_cpu_read: bool,
    pub to_cpu_data: Bits<16>,
    /// Puts `to_cpu_data` on the queue to the CPU.
    pub to_cpu_write: bool,
    pub bus_from_controller: Bits<16>,
    /// Moves one word over the bus.
    pub bus_strobe: bool,
    pub bus_address: Bits<A>,
    /// Selects `bus_address` on the bus.
    pub bus_address_strobe: bool,
}

impl ControllerInputs {
    pub open spec fn wf(self) -> bool {
        self.from_cpu_data.wf() && self.bus_to_controller.wf()
    }
}

/// The opcode of a command word: its upper byte.
pub open spec fn opcode(w: Bits<16>) -> nat {
    bit_field::<8, 16>(w, 8).val()
}

/// A word moves from the bus to the CPU in this clock.
pub open spec fn read_transfer(i: ControllerInputs) -> bool {
    i.bus_ready && !i.to_cpu_full
}

/// A word moves from the CPU to the bus in this clock.
pub open spec fn write_transfer(i: ControllerInputs) -> bool {
    i.bus_ready && !i.from_cpu_empty
}

/// The state a command word of opcode `op` starts.
pub open spec fn command_state(op: nat) -> BaseControllerState {
    if op == 1 {
        BaseControllerState::Ping
    } else if op == 2 {
        BaseControllerState::ReadLoadCount
    } else if op == 3 {
        BaseControllerState::WriteLoadCount
    } else if op == 4 {
        BaseControllerState::PollWait
    } else if op == 5 {
        BaseControllerState::StreamWait
    } else {
        BaseControllerState::Idle
    }
}

/// The state and word counter after one clock edge.
pub open spec fn next_registers(
    s: BaseControllerState,
    counter: Bits<16>,
    i: ControllerInputs,
) -> (BaseControllerState, Bits<16>) {
    match s {
        BaseControllerState::Idle => {
            if i.from_cpu_empty {
                (s, counter)
            } else {
                (command_state(opcode(i.from_cpu_data)), counter)
            }
        },
        BaseControllerState::Ping => (BaseControllerState::Idle, counter),
        BaseControllerState::ReadLoadCount => {
            if i.from_cpu_empty {
                (s, counter)
            } else {
                (BaseControllerState::Read, i.from_cpu_data)
            }
        },
        BaseControllerState::Read => {
            if read_transfer(i) {
                (
                    if counter.val() == 1 {
                        BaseControllerState::Idle
                    } else {
                        s
                    },
                    decreased(counter, 1),
                )
            } else {
                (s, counter)
            }
        },
        BaseControllerState::WriteLoadCount => {
            if i.from_cpu_empty {
                (s, counter)
            } else {
                (BaseControllerState::Write, i.from_cpu_data)
            }
        },
        BaseControllerState::Write => {
            if write_transfer(i) {
                (
                    if counter.val() == 1 {
                        BaseControllerState::Idle
                    } else {
                        s
                    },
                    decreased(counter, 1),
                )
            } else {
                (s, counter)
            }
        },
        BaseControllerState::PollWait => (BaseControllerState::Poll, counter),
        BaseControllerState::Poll => {
            if i.to_cpu_full {
                (s, counter)
            } else {
                (BaseControllerState::Idle, counter)
            }
        },
        BaseControllerState::StreamWait => (BaseControllerState::Stream, counter),
        BaseControllerState::Stream => {
            if !i.from_cpu_empty && i.from_cpu_data.val() != 0 {
                (BaseControllerState::Idle, counter)
            } else {
                (s, counter)
            }
        },
    }
}

/// Nothing driven: no queue or bus strobe, all data clear.
pub open spec fn quiet_outputs<const A: usize>() -> ControllerOutputs<A> {
    ControllerOutputs {
        from_cpu_read: false,
        to_cpu_data: Bits::<16>::from_val(0),
        to_cpu_write: false,
        bus_from_controller: Bits::<16>::from_val(0),
        bus_strobe: false,
        bus_address: Bits::<A>::from_val(0),
        bus_address_strobe: false,
    }
}

/// A word from the bus is sent to the CPU.
pub open spec fn bus_to_cpu<const A: usize>(o: ControllerOutputs<A>, i: ControllerInputs) -> ControllerOutputs<A> {
    ControllerOutputs {
        to_cpu_data: i.bus_to_controller,
        bus_strobe: true,
        to_cpu_write: true,
        ..o
    }
}

/// What the controller drives during a clock.
pub open spec fn controller_outputs<const A: usize>(
    s: BaseControllerState,
    i: ControllerInputs,
) -> ControllerOutputs<A> {
    let q = quiet_outputs::<A>();
    let take = ControllerOutputs { from_cpu_read: true, ..q };
    match s {
        BaseControllerState::Idle => {
            let op = opcode(i.from_cpu_data);
            if i.from_cpu_empty || op == 1 || op > 5 {
                q
            } else if op == 0 {
                take
            } else {
                ControllerOutputs {
                    bus_address: Bits::<A>::from_val(i.from_cpu_data.val()),
                    bus_address_strobe: true,
                    ..take
                }
            }
        },
        BaseControllerState::Ping => ControllerOutputs {
            to_cpu_data: i.from_cpu_data,
            to_cpu_write: true,
            ..take
        },
        BaseControllerState::ReadLoadCount | BaseControllerState::WriteLoadCount => {
            if i.from_cpu_empty {
                q
            } else {
                take
            }
        },
        BaseControllerState::Read => {
            if read_transfer(i) {
                bus_to_cpu(q, i)
            } else {
                q
            }
        },
        BaseControllerState::Write => {
            if write_transfer(i) {
                ControllerOutputs { bus_from_controller: i.from_cpu_data, bus_strobe: true, ..take }
            } else {
                q
            }
        },
        BaseControllerState::PollWait | BaseControllerState::StreamWait => q,
        BaseControllerState::Poll => {
            if i.to_cpu_full {
                q
            } else {
                ControllerOutputs {
                    to_cpu_data: Bits::<16>::from_val(
                        0xFF00 + if i.bus_ready {
                            1nat
                        } else {
                            0nat
                        },
                    ),
                    to_cpu_write: true,
                    ..q
                }
            }
        },
        BaseControllerState::Stream => {
            let sent = if read_transfer(i) {
                bus_to_cpu(q, i)
            } else {
                q
            };
            ControllerOutputs { from_cpu_read: !i.from_cpu_empty, ..sent }
        },
    }
}

/// A base controller addressing a bus of `A` address bits.
pub struct BaseController<const A: usize> {
    pub state: BaseControllerState,
    /// Words left to move in a read or a write.
    pub counter: Bits<16>,
}

impl<const A: usize> BaseController<A> {
    /// An idle controller with a clear counter.
    pub fn new() -> (c: Self)
        ensures
            c.state == BaseControllerState::Idle,
            c.counter == Bits::<16>::from_val(0),
            c.counter.wf(),
    {
        proof {
            lemma2_to64();
        }
        BaseController { state: BaseControllerState::Idle, counter: Bits::from(0u64) }
    }

    /// One clock: what the controller drives while `inputs` hold, and its
    /// state and counter after the clock edge.
    pub fn update(&mut self, inputs: &ControllerInputs) -> (out: ControllerOutputs<A>)
        requires
            old(self).counter.wf(),
            inputs.wf(),
        ensures
            final(self).counter.wf(),
            (final(self).state, final(self).counter) == next_registers(
                old(self).state,
                old(self).counter,
                *inputs,
            ),
            out == controller_outputs::<A>(old(self).state, *inputs),
    {
        proof {
            lemma2_to64();
        }
        let data = inputs.from_cpu_data;
        let op = field::<8, 16>(&data, 8).to_u8();
        let counter = self.counter;
        let one: Bits<16> = Bits::from(1u64);
        let mut out = ControllerOutputs {
            from_cpu_read: false,
            to_cpu_data: Bits::from(0u64),
            to_cpu_write: false,
            bus_from_controller: Bits::from(0u64),
            bus_strobe: false,
            bus_address: Bits::from(0u64),
            bus_address_strobe: false,
        };
        match self.state {
            BaseControllerState::Idle => {
                if !inputs.from_cpu_empty {
                    if op == 0 {
                        out.from_cpu_read = true;
                    } else if op == 1 {
                        self.state = BaseControllerState::Ping;
                    } else if 2 <= op && op <= 5 {
                        out.bus_address = field::<A, 16>(&data, 0);
                        out.bus_address_strobe = true;
                        out.from_cpu_read = true;
                        self.state = if op == 2 {
                            BaseControllerState::ReadLoadCount
                        } else if op == 3 {
                            BaseControllerState::WriteLoadCount
                        } else if op == 4 {
                            BaseControllerState::PollWait
                        } else {
                            BaseControllerState::StreamWait
                        };
                    }
                }
            },
            BaseControllerState::Ping => {
                out.to_cpu_data = data;
                out.to_cpu_write = true;
                out.from_cpu_read = true;
                self.state = BaseControllerState::Idle;
            },
            BaseControllerState::ReadLoadCount => {
                if !inputs.from_cpu_empty {
                    self.counter = data;
                    out.from_cpu_read = true;
                    self.state = BaseControllerState::Read;
                }
            },
            BaseControllerState::Read => {
                if inputs.bus_ready && !inputs.to_cpu_full {
                    out.to_cpu_data = inputs.bus_to_controller;
                    out.bus_strobe = true;
                    out.to_cpu_write = true;
                    self.counter = counter - 1u64;
                    if same(&counter, &one) {
                        self.state = BaseControllerState::Idle;
                    }
                }
            },
            BaseControllerState::WriteLoadCount => {
                if !inputs.from_cpu_empty {
                    self.counter = data;
                    out.from_cpu_read = true;
                    self.state = BaseControllerState::Write;
                }
            },
            BaseControllerState::Write => {
                if inputs.bus_ready && !inputs.from_cpu_empty {
                    out.bus_from_controller = data;
                    out.bus_strobe = true;
                    out.from_cpu_read = true;
                    self.counter = counter - 1u64;
                    if same(&counter, &one) {
                        self.state = BaseControllerState::Idle;
                    }
                }
            },
            BaseControllerState::PollWait => {
                self.state = BaseControllerState::Poll;
            },
            BaseControllerState::Poll => {
                if !inputs.to_cpu_full {
                    out.to_cpu_data = Bits::from(
                        if inputs.bus_ready {
                            0xFF01u64
                        } else {
                            0xFF00u64
                        },
                    );
                    out.to_cpu_write = true;
                    self.state = BaseControllerState::Idle;
                }
            },
            BaseControllerState::StreamWait => {
                self.state = BaseControllerState::Stream;
            },
            BaseControllerState::Stream => {
                if inputs.bus_ready && !inputs.to_cpu_full {
                    out.to_cpu_data = inputs.bus_to_controller;
                    out.bus_strobe = true;
                    out.to_cpu_write = true;
                }
                if !inputs.from_cpu_empty {
                    if data.any() {
                        self.state = BaseControllerState::Idle;
                    }
                    out.from_cpu_read = true;
                }
            },
        }
        out
    }
}

/// Law: whenever the controller strobes the bus and writes to the CPU in
/// the same clock, the word it writes to the CPU is the word on the bus;
/// and in a read or a stream, a clock in which the bus is ready and the
/// CPU's queue has room moves exactly that word.
pub proof fn law_bus_words_reach_the_cpu<const A: usize>(s: BaseControllerState, i: ControllerInputs)
    ensures
        controller_outputs::<A>(s, i).to_cpu_write && controller_outputs::<A>(s, i).bus_strobe
            ==> controller_outputs::<A>(s, i).to_cpu_data == i.bus_to_controller,
        (s == BaseControllerState::Read || s == BaseControllerState::Stream) && i.bus_ready
            && !i.to_cpu_full ==> {
            &&& controller_outputs::<A>(s, i).to_cpu_write
            &&& controller_outputs::<A>(s, i).bus_strobe
            &&& controller_outputs::<A>(s, i).to_cpu_data == i.bus_to_controller
        },
{
}

/// Law: a word the controller puts on the bus without sending anything to
/// the CPU is the word it takes from the CPU's queue; a ping sends the
/// CPU's own word back; a poll that can write tells the CPU `0xFF00`, plus
/// one when the bus is ready.
pub proof fn law_words_reach_the_bus<const A: usize>(s: BaseControllerState, i: ControllerInputs)
    ensures
        controller_outputs::<A>(s, i).bus_strobe && !controller_outputs::<A>(s, i).to_cpu_write
            ==> controller_outputs::<A>(s, i).from_cpu_read && controller_outputs::<A>(
            s,
            i,
        ).bus_from_controller == i.from_cpu_data,
        s == BaseControllerState::Ping ==> controller_outputs::<A>(s, i).to_cpu_write
            && controller_outputs::<A>(s, i).to_cpu_data == i.from_cpu_data,
        s == BaseControllerState::Poll && !i.to_cpu_full ==> controller_outputs::<A>(s, i).to_cpu_write
            && controller_outputs::<A>(s, i).to_cpu_data.val() == (if i.bus_ready {
            0xFF01nat
        } else {
            0xFF00nat
        }),
{
    lemma2_to64();
    if s == BaseControllerState::Poll && !i.to_cpu_full {
        Bits::<16>::lemma_from_val(0xFF00nat + if i.bus_ready { 1nat } else { 0nat });
    }
}

} // verus!
