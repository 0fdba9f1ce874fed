//! Voice-activity decisions.

use vstd::prelude::*;

verus! {

/// One frame's voice-activity decision.
#[derive(Clone, Copy, Debug, PartialEq, Eq, Structural)]
pub enum VadDecision {
    Speech,
    Silence,
}

} // verus!
