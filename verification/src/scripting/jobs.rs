//! The bounded job loop: how many jobs one drain of the queues may run, and
//! when it stops.
use vstd::prelude::*;

verus! {

/// A runaway loop throws after this many iterations (per loop), so
/// `while (true) {}` becomes a catchable JS error instead of a hang.
pub const LOOP_ITERATION_BUDGET: u64 = 1_000_000;

/// Jobs a single drain may run before yielding the rest to the next entry —
/// a promise that re-schedules itself otherwise keeps the drain loop spinning
/// forever.
pub const MAX_JOBS_PER_TICK: usize = 10_000;

/// What a round of the job loop leads to.
#[derive(Debug, Clone, Copy, PartialEq, Eq, Structural)]
pub enum JobStep {
    /// Another round.
    Again,
    /// Sleep a moment, then another round: only parked jobs remain, and a
    /// module load that is in flight will unblock one.
    Nap,
    /// Nothing can progress inside this drain.
    Stop,
}

/// The budget of one drain of the job queues.
#[derive(Debug, Clone, Copy, PartialEq, Eq, Structural)]
pub struct JobBudget {
    pub left: usize,
}

pub open spec fn spent(left: usize, jobs: int) -> int {
    if jobs <= left {
        left - jobs
    } else {
        0
    }
}

impl JobBudget {
    pub fn new() -> (r: JobBudget)
        ensures
            r.left == MAX_JOBS_PER_TICK,
    {
        JobBudget { left: MAX_JOBS_PER_TICK }
    }

    /// Whether a round begins: something is queued, and the budget is not
    /// spent.
    pub fn begins(&self, idle: bool) -> (r: bool)
        ensures
            r == (!idle && self.left > 0),
    {
        !idle && self.left > 0
    }

    /// That many jobs ran.
    pub fn ran(&mut self, jobs: usize)
        ensures
            final(self).left == spent(old(self).left, jobs as int),
    {
        self.left = if jobs <= self.left {
            self.left - jobs
        } else {
            0
        };
    }
}

/// What a round leads to.
pub open spec fn round_step(progressed: bool, module_activity: bool) -> JobStep {
    if progressed {
        JobStep::Again
    } else if module_activity {
        JobStep::Nap
    } else {
        JobStep::Stop
    }
}

/// What a round leads to.
pub fn after_round(progressed: bool, module_activity: bool) -> (r: JobStep)
    ensures
        r == round_step(progressed, module_activity),
{
    if progressed {
        JobStep::Again
    } else if module_activity {
        JobStep::Nap
    } else {
        JobStep::Stop
    }
}

/// The budget after rounds that ran so many jobs each.
pub open spec fn after_rounds(left: usize, jobs: Seq<nat>, n: int) -> int
    decreases n,
{
    if n <= 0 {
        left as int
    } else {
        let before = after_rounds(left, jobs, n - 1);
        if jobs[n - 1] <= before {
            before - jobs[n - 1]
        } else {
            0
        }
    }
}

/// A drain ends: as long as every round runs a job, at most as many rounds
/// begin as the budget has jobs.
pub proof fn law_drains_end(left: usize, jobs: Seq<nat>, n: int)
    requires
        0 <= n <= jobs.len(),
        forall|i: int| 0 <= i < jobs.len() ==> #[trigger] jobs[i] >= 1,
    ensures
        0 <= after_rounds(left, jobs, n) <= left,
        n >= left ==> after_rounds(left, jobs, n) == 0,
        after_rounds(left, jobs, n) > 0 ==> after_rounds(left, jobs, n) + n <= left,
    decreases n,
{
    if n > 0 {
        law_drains_end(left, jobs, n - 1);
        assert(jobs[n - 1] >= 1);
    }
}

/// A drain runs at most ten thousand jobs and a script at most a million loop
/// iterations; jobs that ran are taken off the budget, down to nothing.
pub proof fn law_budgets(left: usize, jobs: int)
    requires
        jobs >= 0,
    ensures
        MAX_JOBS_PER_TICK == 10_000,
        LOOP_ITERATION_BUDGET == 1_000_000,
        jobs <= left ==> spent(left, jobs) + jobs == left,
        jobs > left ==> spent(left, jobs) == 0,
{
}

/// A round that got on is followed by another; one that did not waits where
/// modules are in flight, and ends the drain otherwise.
pub proof fn law_rounds_follow_progress(module_activity: bool)
    ensures
        round_step(true, module_activity) is Again,
        round_step(false, true) is Nap,
        round_step(false, false) is Stop,
{
}

} // verus!
