//! The design rule violations the circuit checks report.
use std::collections::HashMap;
use vstd::prelude::*;

verus! {

/// A signal that nothing drives.
#[derive(Clone, Debug, PartialEq)]
pub struct OpenConnection {
    pub path: String,
    pub name: String,
}

/// Open signals by signal id.
pub type OpenMap = HashMap<usize, OpenConnection>;

/// A signal named by the path of the module that owns it.
#[derive(Clone, Debug, PartialEq)]
pub struct PathedName {
    pub path: String,
    pub name: String,
}

/// A list of named signals.
pub type PathedNameList = Vec<PathedName>;

/// Why a circuit fails its checks.
#[derive(Debug, Clone, PartialEq)]
pub enum CheckError {
    OpenSignal(OpenMap),
    LogicLoops(PathedNameList),
    WritesToInputs(PathedNameList),
}

} // verus!
