//! The walk over a circuit's modules and signals.
use crate::hdl_core::atom::AtomKind;
use crate::text::lines::strings_view;
use vstd::prelude::*;

verus! {

/// What a walk reports about one signal.
#[derive(Clone, Debug)]
pub struct AtomInfo {
    /// The signal's unique id.
    pub id: usize,
    /// Whether something drives the signal.
    pub connected: bool,
    /// How the signal is declared.
    pub kind: AtomKind,
    /// The signal's width in bits.
    pub bits: usize,
}

/// One step of a walk, as a probe is told of it.
pub enum ProbeEvent {
    StartScope(Seq<char>),
    StartNamespace(Seq<char>),
    Atom(Seq<char>, AtomInfo),
    EndNamespace(Seq<char>),
    /// A module closes; the second field names the signals its own logic
    /// writes.
    EndScope(Seq<char>, Seq<Seq<char>>),
}

/// A visitor of the walk over a circuit: modules (scopes) and groups of
/// signals within them (namespaces) open and close around the signals they
/// hold.  What a probe has gathered is its view; [Probe::step] says how
/// each step of a walk changes it.
pub trait Probe: View + Sized {
    /// What the probe has gathered after one more step of a walk.
    spec fn step(v: <Self as View>::V, e: ProbeEvent) -> <Self as View>::V;

    fn visit_start_scope(&mut self, name: &str)
        ensures
            final(self)@ == Self::step(old(self)@, ProbeEvent::StartScope(name@)),
    ;

    fn visit_start_namespace(&mut self, name: &str)
        ensures
            final(self)@ == Self::step(old(self)@, ProbeEvent::StartNamespace(name@)),
    ;

    fn visit_atom(&mut self, name: &str, signal: &AtomInfo)
        ensures
            final(self)@ == Self::step(old(self)@, ProbeEvent::Atom(name@, *signal)),
    ;

    fn visit_end_namespace(&mut self, name: &str)
        ensures
            final(self)@ == Self::step(old(self)@, ProbeEvent::EndNamespace(name@)),
    ;

    /// Closes a module; `written` names the signals that its own logic writes.
    fn visit_end_scope(&mut self, name: &str, written: &Vec<String>)
        ensures
            final(self)@ == Self::step(
                old(self)@,
                ProbeEvent::EndScope(name@, strings_view(written@)),
            ),
    ;
}

/// What a probe has gathered after the steps `es` of a walk, in order.
pub open spec fn replay<P: Probe>(v: <P as View>::V, es: Seq<ProbeEvent>) -> <P as View>::V
    decreases es.len(),
{
    if es.len() == 0 {
        v
    } else {
        replay::<P>(P::step(v, es[0]), es.drop_first())
    }
}

} // verus!
