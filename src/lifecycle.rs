//! The scan lifecycle: a flag that goes from not started to running to
//! finished, once each.
use vstd::prelude::*;

verus! {

/// The state of one scan.
#[derive(Clone, Copy, Debug, PartialEq, Eq, Structural)]
pub enum ScanState {
    NotStarted,
    Running,
    Finished,
}

/// Position of a state in the lifecycle.
pub open spec fn rank(s: ScanState) -> int {
    match s {
        ScanState::NotStarted => 0,
        ScanState::Running => 1,
        ScanState::Finished => 2,
    }
}

/// The state that follows `s`, if any.
pub open spec fn next_state(s: ScanState) -> Option<ScanState> {
    match s {
        ScanState::NotStarted => Some(ScanState::Running),
        ScanState::Running => Some(ScanState::Finished),
        ScanState::Finished => None,
    }
}

/// The flag's integer code: -1 not started, 0 running, 1 finished.
pub open spec fn code_of(s: ScanState) -> int {
    match s {
        ScanState::NotStarted => -1,
        ScanState::Running => 0,
        ScanState::Finished => 1,
    }
}

/// Each consecutive pair of `trace` is one step of the lifecycle.
pub open spec fn is_run(trace: Seq<ScanState>) -> bool {
    forall|i: int| 0 <= i < trace.len() - 1 ==> next_state(#[trigger] trace[i]) == Some(trace[i + 1])
}

impl ScanState {
    /// The integer code of the flag.
    pub fn code(&self) -> (r: i8)
        ensures
            r == code_of(*self),
    {
        match self {
            ScanState::NotStarted => -1,
            ScanState::Running => 0,
            ScanState::Finished => 1,
        }
    }

    /// The state with the given integer code, if one has it.
    pub fn from_code(c: i8) -> (r: Option<ScanState>)
        ensures
            r matches Some(s) ==> code_of(s) == c,
            r is None <==> (c != -1 && c != 0 && c != 1),
    {
        if c == -1 {
            Some(ScanState::NotStarted)
        } else if c == 0 {
            Some(ScanState::Running)
        } else if c == 1 {
            Some(ScanState::Finished)
        } else {
            None
        }
    }

    /// The state that follows this one; a finished scan has none.
    pub fn advance(&self) -> (r: Option<ScanState>)
        ensures
            r == next_state(*self),
    {
        match self {
            ScanState::NotStarted => Some(ScanState::Running),
            ScanState::Running => Some(ScanState::Finished),
            ScanState::Finished => None,
        }
    }

    /// Whether the scan has left the not-started state.
    pub fn has_started(&self) -> (r: bool)
        ensures
            r <==> rank(*self) >= 1,
    {
        !matches!(self, ScanState::NotStarted)
    }

    /// Whether the scan has finished.
    pub fn is_finished(&self) -> (r: bool)
        ensures
            r <==> *self == ScanState::Finished,
    {
        matches!(self, ScanState::Finished)
    }
}

/// Every step of the lifecycle moves exactly one place forward, and nothing
/// comes back to the not-started state.
pub proof fn lemma_step_forward(s: ScanState)
    ensures
        next_state(s) matches Some(t) ==> rank(t) == rank(s) + 1 && t != ScanState::NotStarted,
        next_state(s) is None <==> s == ScanState::Finished,
{
}

/// A run of the lifecycle from the not-started state visits the states in
/// order, never skips one and never goes back: its `i`-th state is the
/// `i`-th of not started, running, finished, so it has at most three.
pub proof fn lemma_run_in_order(trace: Seq<ScanState>)
    requires
        trace.len() >= 1,
        trace[0] == ScanState::NotStarted,
        is_run(trace),
    ensures
        trace.len() <= 3,
        forall|i: int| 0 <= i < trace.len() ==> rank(#[trigger] trace[i]) == i,
{
    assert forall|i: int| 0 <= i < trace.len() implies rank(#[trigger] trace[i]) == i by {
        lemma_rank_at(trace, i);
    }
    if trace.len() > 3 {
        lemma_rank_at(trace, 2);
        assert(next_state(trace[2]) == Some(trace[3]));
    }
}

proof fn lemma_rank_at(trace: Seq<ScanState>, i: int)
    requires
        trace.len() >= 1,
        trace[0] == ScanState::NotStarted,
        is_run(trace),
        0 <= i < trace.len(),
    ensures
        rank(trace[i]) == i,
    decreases i,
{
    if i > 0 {
        lemma_rank_at(trace, i - 1);
        assert(next_state(trace[i - 1]) == Some(trace[i]));
    }
}

} // verus!
