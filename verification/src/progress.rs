//! Outcome of one step of a procedure that waits for the hardware.
use vstd::prelude::*;

verus! {

/// What one step of a waiting procedure came to.
///
/// `S` names the stage at which the procedure is to be entered again.
#[derive(Clone, Copy, PartialEq, Eq, Structural, Debug)]
pub enum Progress<S, T> {
    /// Perform the queued operations and enter stage `S` right away.
    Again(S),
    /// A waker is registered by the queued operations: enter stage `S` when it fires.
    Wait(S),
    /// The procedure is over.
    Ready(T),
}

} // verus!
