//! Circuits that can be simulated and walked.
use crate::hdl_core::probe::{replay, Probe, ProbeEvent};
use vstd::prelude::*;

verus! {

/// A circuit: it can be connected, updated until it settles, and walked by a
/// [Probe].
pub trait Block: Sized {
    /// `next` is the circuit after one update of `self`. A circuit that
    /// does not define it says nothing of its updates.
    open spec fn steps_to(&self, next: Self) -> bool {
        true
    }

    /// Nothing changed in the last update. A circuit that does not define
    /// it counts as settled.
    open spec fn settled(&self) -> bool {
        true
    }

    /// The steps of a walk over the circuit under the given name. A circuit
    /// that does not define it has an empty walk.
    open spec fn walk(&self, name: Seq<char>) -> Seq<ProbeEvent> {
        Seq::empty()
    }

    /// Connects the internal signals of the circuit.
    fn connect_all(&mut self);

    /// Propagates changes from inputs to outputs within the circuit.
    fn update_all(&mut self)
        ensures
            old(self).steps_to(*final(self)),
    ;

    /// True when anything in the circuit changed in the last update.
    fn has_changed(&self) -> (r: bool)
        ensures
            r == !self.settled(),
    ;

    /// Walks the circuit, reporting its modules and signals to `probe`.
    fn accept<P: Probe>(&self, name: &str, probe: &mut P)
        ensures
            final(probe)@ == replay::<P>(old(probe)@, self.walk(name@)),
    ;
}

} // verus!
