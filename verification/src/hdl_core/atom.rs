//! The roles a signal can play in a circuit.
use vstd::prelude::*;

verus! {

/// How a signal is declared in the module that owns it.
#[derive(Copy, Clone, Debug, PartialEq, Eq, Structural)]
pub enum AtomKind {
    InputParameter,
    OutputParameter,
    StubInputSignal,
    StubOutputSignal,
    Constant,
    LocalSignal,
    InOutParameter,
    OutputPassthrough,
}

impl AtomKind {
    /// True for the kinds that are ports of the module.
    pub fn is_parameter(&self) -> (r: bool)
        ensures
            r == (*self == AtomKind::InputParameter || *self == AtomKind::OutputParameter || *self
                == AtomKind::InOutParameter || *self == AtomKind::OutputPassthrough),
    {
        match self {
            AtomKind::InputParameter
            | AtomKind::OutputParameter
            | AtomKind::InOutParameter
            | AtomKind::OutputPassthrough => true,
            _ => false,
        }
    }

    /// True for the stub signals that stand in for a submodule's ports.
    pub fn is_stub(&self) -> (r: bool)
        ensures
            r == (*self == AtomKind::StubInputSignal || *self == AtomKind::StubOutputSignal),
    {
        match self {
            AtomKind::StubInputSignal | AtomKind::StubOutputSignal => true,
            _ => false,
        }
    }
}

} // verus!
