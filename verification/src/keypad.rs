//! Host-loop control requests raised by the input layer.

use vstd::prelude::*;

verus! {

/// What the host loop should do after one round of input polling.
#[derive(Clone, Copy, PartialEq, Eq, Structural, Debug)]
pub enum State {
    Exit,
    Continue,
    Increase,
    Decrease,
    Debug,
    Reset,
    PauseToggle,
    Pause,
    Unpause,
}

} // verus!
