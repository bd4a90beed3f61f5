//! All design rule checks in turn.
use crate::hdl_core::block::Block;
use crate::hdl_core::check_connected::{check_connected, connections_view, open_signals};
use crate::hdl_core::check_error::CheckError;
use crate::hdl_core::check_write_inputs::{check_inputs_not_written, pathed_view, written_inputs};
use vstd::prelude::*;

verus! {

/// Checks that no module writes its own inputs, then that every signal is
/// driven; the first failing check gives the error.
pub fn check_all<B: Block>(uut: &B) -> (r: Result<(), CheckError>)
    ensures
        written_inputs(*uut).len() > 0 ==> (r matches Err(CheckError::WritesToInputs(v))
            && pathed_view(v@) == written_inputs(*uut)),
        written_inputs(*uut).len() == 0 ==> (r is Ok <==> open_signals(*uut).is_empty()),
        written_inputs(*uut).len() == 0 && !open_signals(*uut).is_empty() ==> (r matches Err(
            CheckError::OpenSignal(m),
        ) && connections_view(m@) == open_signals(*uut)),
{
    match check_inputs_not_written(uut) {
        Ok(()) => {},
        Err(e) => {
            return Err(e);
        },
    }
    check_connected(uut)
}

} // verus!
