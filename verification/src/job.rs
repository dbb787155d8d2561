//! What the scheduling algorithm needs to know about a job.

use vstd::prelude::*;

verus! {

/// How a job decides *when* to run.
#[derive(Debug, Clone, Copy, PartialEq, Eq, Structural)]
pub enum Policy {
    /// Run right away regardless of price.
    Immediate,
    /// Run as soon as the current hour's price drops to or below the
    /// threshold (µNOK/kWh). A deadline, if set, can still force a run.
    Threshold { max_nok_per_kwh: i64 },
    /// Run in the cheapest contiguous block of hours long enough to fit the
    /// job, optionally finishing before a deadline.
    CheapestWindow,
}

impl Policy {
    /// With no policy specified, the cheapest-window policy is assumed.
    pub fn default_policy() -> (p: Policy)
        ensures
            p == Policy::CheapestWindow,
    {
        Policy::CheapestWindow
    }
}

/// Orders jobs when the concurrency cap forces a choice.
#[derive(Debug, Clone, Copy, PartialEq, Eq, Structural)]
pub enum Priority {
    Low,
    Normal,
    High,
    Critical,
}

impl Priority {
    /// The rank of a priority, lowest to highest.
    pub open spec fn spec_rank(self) -> int {
        match self {
            Priority::Low => 0,
            Priority::Normal => 1,
            Priority::High => 2,
            Priority::Critical => 3,
        }
    }

    /// The rank of a priority: `Low` is 0 and `Critical` is 3.
    pub fn rank(&self) -> (r: u8)
        ensures
            r as int == self.spec_rank(),
    {
        match self {
            Priority::Low => 0,
            Priority::Normal => 1,
            Priority::High => 2,
            Priority::Critical => 3,
        }
    }

    /// The priority a job gets when none is given.
    pub fn default_priority() -> (p: Priority)
        ensures
            p == Priority::Normal,
    {
        Priority::Normal
    }
}

/// The part of a job that drives the *when* decision.
#[derive(Debug, Clone, Copy, PartialEq, Eq, Structural)]
pub struct JobSpec {
    pub policy: Policy,
    pub duration_minutes: i64,
    /// Instant (Unix seconds) by which the job should have finished.
    pub deadline: Option<i64>,
    /// Do not start before this instant, regardless of policy or price.
    pub earliest_start: Option<i64>,
}

/// Priorities rank in their declared order: `Low` below `Normal` below
/// `High` below `Critical`.
pub proof fn priorities_rank_in_declared_order()
    ensures
        Priority::Low.spec_rank() < Priority::Normal.spec_rank(),
        Priority::Normal.spec_rank() < Priority::High.spec_rank(),
        Priority::High.spec_rank() < Priority::Critical.spec_rank(),
{
}

} // verus!
