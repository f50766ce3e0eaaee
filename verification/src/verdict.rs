//! Verdicts of the admission engine, its errors, and the action codes that
//! carry a decision back to the receive path.

use vstd::prelude::*;

verus! {

/// Action code for a frame that could not be judged.
pub const XDP_ABORTED: u32 = 0;

/// Action code for a frame that is refused.
pub const XDP_DROP: u32 = 1;

/// Action code for a frame that is handed on to the host.
pub const XDP_PASS: u32 = 2;

/// A policy decision on one frame.
#[derive(Clone, Copy, Debug, PartialEq, Eq, Structural)]
pub enum Verdict {
    /// The frame is refused.
    Drop,
    /// The frame is handed on to the host.
    Pass,
}

/// Why a frame could not be judged, or a table not be changed.
#[derive(Clone, Copy, Debug, PartialEq, Eq, Structural)]
pub enum GuardError {
    /// The frame ends before the header that was to be read.
    Truncated,
    /// The table holds as many entries as it may and the key is new.
    TableFull,
}

impl Verdict {
    /// The slot of the decision counters that counts this verdict.
    pub open spec fn spec_index(self) -> int {
        match self {
            Verdict::Drop => 0,
            Verdict::Pass => 1,
        }
    }

    /// The action code that carries this verdict.
    pub open spec fn spec_action(self) -> u32 {
        match self {
            Verdict::Drop => XDP_DROP,
            Verdict::Pass => XDP_PASS,
        }
    }

    /// The slot of the decision counters in which this verdict is counted,
    /// 0 for `Drop` and 1 for `Pass`.
    pub fn index(self) -> (slot: u32)
        ensures
            slot == self.spec_index(),
    {
        match self {
            Verdict::Drop => 0,
            Verdict::Pass => 1,
        }
    }

    /// The action code that carries this verdict.
    pub fn action(self) -> (code: u32)
        ensures
            code == self.spec_action(),
    {
        match self {
            Verdict::Drop => XDP_DROP,
            Verdict::Pass => XDP_PASS,
        }
    }
}

/// The action code for the outcome of one decision: the verdict's own code,
/// and `XDP_ABORTED` for every error.
pub open spec fn spec_action_of(outcome: Result<Verdict, GuardError>) -> u32 {
    match outcome {
        Ok(verdict) => verdict.spec_action(),
        Err(_) => XDP_ABORTED,
    }
}

/// The action code for the outcome of one decision.
pub fn action_of(outcome: Result<Verdict, GuardError>) -> (code: u32)
    ensures
        code == spec_action_of(outcome),
{
    match outcome {
        Ok(verdict) => verdict.action(),
        Err(_) => XDP_ABORTED,
    }
}

/// The answer a lane gives for a frame whose decision it cannot finish:
/// the frame is never admitted.
pub fn panic() -> (action: u32)
    ensures
        action == XDP_ABORTED,
{
    XDP_ABORTED
}

} // verus!
