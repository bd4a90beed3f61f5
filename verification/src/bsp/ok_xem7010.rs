//! The XEM7010 board.
use vstd::prelude::*;

verus! {

/// The Opal Kelly XEM7010 board.
#[derive(Clone, Debug)]
pub struct XEM7010 {}

} // verus!
