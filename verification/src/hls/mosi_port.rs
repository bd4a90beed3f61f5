//! An output port on the bus: it latches the value the master writes to
//! its address, and forwards the master's strobe one clock later, so that
//! logic behind it can tell when the value changed, or use the strobe as a
//! trigger.
use crate::hdl_core::bits::Bits;
use crate::sim::clocked::zero;
use vstd::arithmetic::power2::*;
use vstd::prelude::*;

verus! {

/// The port's registers.
#[derive(Copy, Clone, Debug)]
pub struct MOSIPortRegisters<const D: usize> {
    /// The latched value.
    pub state: Bits<D>,
    /// The port was selected in the previous clock.
    pub address_active: bool,
    /// A write took place in the previous clock.
    pub strobe: bool,
}

/// What the port reads in one clock.
#[derive(Copy, Clone, Debug)]
pub struct MOSIPortInputs<const D: usize> {
    pub select: bool,
    pub strobe: bool,
    pub from_controller: Bits<D>,
    /// The logic behind the port can take a value.
    pub ready: bool,
}

/// What the port drives in one clock.
#[derive(Copy, Clone, Debug)]
pub struct MOSIPortOutputs<const D: usize> {
    pub port_out: Bits<D>,
    pub strobe_out: bool,
    pub bus_ready: bool,
    pub to_controller: Bits<D>,
}

/// The registers after one clock edge.
pub open spec fn next_registers<const D: usize>(
    r: MOSIPortRegisters<D>,
    i: MOSIPortInputs<D>,
) -> MOSIPortRegisters<D> {
    MOSIPortRegisters {
        state: if r.address_active && i.strobe {
            i.from_controller
        } else {
            r.state
        },
        address_active: i.select,
        strobe: r.address_active && i.strobe && i.ready,
    }
}

/// What the port drives during a clock.
pub open spec fn port_outputs<const D: usize>(
    r: MOSIPortRegisters<D>,
    i: MOSIPortInputs<D>,
) -> MOSIPortOutputs<D> {
    MOSIPortOutputs {
        port_out: r.state,
        strobe_out: r.strobe,
        bus_ready: r.address_active && i.ready && i.select,
        to_controller: zero(),
    }
}

/// An output port of `D` bits.
pub struct MOSIPort<const D: usize> {
    pub regs: MOSIPortRegisters<D>,
}

impl<const D: usize> MOSIPort<D> {
    /// A port holding zero.
    pub fn new() -> (p: Self)
        ensures
            p.regs == (MOSIPortRegisters::<D> { state: zero(), address_active: false, strobe: false }),
    {
        MOSIPort {
            regs: MOSIPortRegisters { state: Bits::from(0u64), address_active: false, strobe: false },
        }
    }

    /// One clock: what the port drives while `inputs` hold, and its
    /// registers after the clock edge.
    pub fn update(&mut self, inputs: &MOSIPortInputs<D>) -> (out: MOSIPortOutputs<D>)
        ensures
            final(self).regs == next_registers(old(self).regs, *inputs),
            out == port_outputs(old(self).regs, *inputs),
    {
        let r = self.regs;
        let mut out = MOSIPortOutputs {
            port_out: r.state,
            strobe_out: r.strobe,
            bus_ready: false,
            to_controller: Bits::from(0u64),
        };
        self.regs.address_active = inputs.select;
        self.regs.strobe = false;
        if r.address_active {
            out.bus_ready = inputs.ready && inputs.select;
            if inputs.strobe {
                self.regs.state = inputs.from_controller;
            }
            self.regs.strobe = inputs.strobe && inputs.ready;
        }
        out
    }
}

/// A value the master writes to a selected port is what the port puts out
/// from the next clock on, and the write is announced by a strobe in the
/// next clock when the logic behind the port was ready.
pub proof fn law_port_latches_write<const D: usize>(
    r: MOSIPortRegisters<D>,
    i: MOSIPortInputs<D>,
    j: MOSIPortInputs<D>,
)
    requires
        r.address_active,
        i.strobe,
    ensures
        port_outputs(next_registers(r, i), j).port_out == i.from_controller,
        port_outputs(next_registers(r, i), j).strobe_out == i.ready,
{
}

/// A port not selected in the previous clock ignores the master's strobe.
pub proof fn law_unselected_port_holds<const D: usize>(
    r: MOSIPortRegisters<D>,
    i: MOSIPortInputs<D>,
)
    requires
        !r.address_active,
    ensures
        next_registers(r, i).state == r.state,
        !next_registers(r, i).strobe,
        !port_outputs(r, i).bus_ready,
{
}

} // verus!
