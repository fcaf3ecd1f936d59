//! The retention sweeper: a periodic task that deletes aged-out rows from the
//! backing store, as a state machine from timer ticks and run outcomes to the
//! next action. It holds no cache state, so nothing it does touches a cache.
use vstd::prelude::*;
use crate::utc::{months_before, months_earlier};

verus! {

/// The schedule and the retention window of a sweep.
#[derive(Clone, Copy, Debug, PartialEq, Eq, Structural)]
pub struct RetentionTask {
    /// Seconds between two ticks.
    pub interval_secs: u64,
    /// Rows older than this many calendar months, at the time of the tick,
    /// are deleted.
    pub retention_months: u32,
}

#[derive(Clone, Copy, Debug, PartialEq, Eq, Structural)]
pub enum SweeperPhase {
    /// No deletion is running.
    Idle,
    /// At least one deletion is running.
    Running,
}

/// What the runner of the sweeper is to do on a tick.
#[derive(Clone, Copy, Debug, PartialEq, Eq, Structural)]
pub enum SweepAction {
    /// Run one deletion of the rows whose time (Unix seconds) is before `cutoff`.
    Delete { cutoff: i64 },
    /// The tick's time has no cutoff in the calendar's range: nothing to run.
    Skip,
}

/// How a deletion run ended.
#[derive(Clone, Copy, Debug, PartialEq, Eq, Structural)]
pub enum SweepOutcome {
    /// The given number of rows were deleted.
    Deleted(u64),
    /// The backing store reported an error.
    Failed,
}

/// The sweeper: its task, the deletions running, and how many runs ended and
/// how many of those failed. Each tick starts its own deletion whatever the
/// runs before it are doing, so a run that hangs delays no later tick.
#[derive(Clone, Copy, Debug, PartialEq, Eq, Structural)]
pub struct RetentionSweeper {
    pub task: RetentionTask,
    pub running: u64,
    pub runs: u64,
    pub failures: u64,
}

/// `n + 1`, held at the largest `u64`.
pub open spec fn bump(n: u64) -> u64 {
    if n == u64::MAX { n } else { (n + 1) as u64 }
}

/// The action for a tick whose cutoff is `cutoff`.
pub open spec fn action_for(cutoff: Option<i64>) -> SweepAction {
    match cutoff {
        Some(c) => SweepAction::Delete { cutoff: c },
        None => SweepAction::Skip,
    }
}

/// The cutoff of a tick at `now`: `months` calendar months earlier.
pub open spec fn tick_cutoff(now: i64, months: u32) -> Option<i64> {
    months_before(now, months)
}

/// What a tick with `cutoff` does: a deletion starts and is counted as
/// running; without a cutoff nothing changes.
pub open spec fn cutoff_post(s: RetentionSweeper, cutoff: Option<i64>, a: SweepAction, s2: RetentionSweeper) -> bool {
    &&& a == action_for(cutoff)
    &&& s2 == (if cutoff is Some { RetentionSweeper { running: bump(s.running), ..s } } else { s })
}

/// What the end of a run does: one run fewer is going, the run is counted,
/// and so is a failure. An outcome with no run going changes nothing.
pub open spec fn finish_post(s: RetentionSweeper, o: SweepOutcome, s2: RetentionSweeper) -> bool {
    if s.running > 0 {
        s2 == RetentionSweeper {
            running: (s.running - 1) as u64,
            runs: bump(s.runs),
            failures: if o == SweepOutcome::Failed { bump(s.failures) } else { s.failures },
            ..s
        }
    } else {
        s2 == s
    }
}

fn bump_count(n: u64) -> (r: u64)
    ensures
        r == bump(n),
{
    if n == u64::MAX { n } else { n + 1 }
}

impl RetentionSweeper {
    /// An idle sweeper for `task`, with nothing counted.
    pub fn new(task: RetentionTask) -> (r: Self)
        ensures
            r == (RetentionSweeper { task, running: 0, runs: 0, failures: 0 }),
    {
        RetentionSweeper { task, running: 0, runs: 0, failures: 0 }
    }

    pub fn phase(&self) -> (r: SweeperPhase)
        ensures
            r == (if self.running == 0 { SweeperPhase::Idle } else { SweeperPhase::Running }),
    {
        if self.running == 0 { SweeperPhase::Idle } else { SweeperPhase::Running }
    }

    /// A tick whose cutoff, the instant before which rows go, is `cutoff`.
    pub fn on_cutoff(&mut self, cutoff: Option<i64>) -> (r: SweepAction)
        ensures
            cutoff_post(*old(self), cutoff, r, *final(self)),
    {
        match cutoff {
            Some(c) => {
                self.running = bump_count(self.running);
                SweepAction::Delete { cutoff: c }
            },
            None => SweepAction::Skip,
        }
    }

    /// The timer fired at `now` (Unix seconds): rows older than the task's
    /// number of calendar months before `now` are to go.
    pub fn on_tick(&mut self, now: i64) -> (r: SweepAction)
        ensures
            cutoff_post(*old(self), tick_cutoff(now, old(self).task.retention_months), r, *final(self)),
    {
        let cutoff = months_earlier(now, self.task.retention_months);
        self.on_cutoff(cutoff)
    }

    /// A run begun by a tick ended with `outcome`.
    pub fn on_finished(&mut self, outcome: SweepOutcome)
        ensures
            finish_post(*old(self), outcome, *final(self)),
    {
        if self.running > 0 {
            self.running = self.running - 1;
            self.runs = bump_count(self.runs);
            match outcome {
                SweepOutcome::Failed => {
                    self.failures = bump_count(self.failures);
                },
                SweepOutcome::Deleted(_) => {},
            }
        }
    }
}

/// A failed run does not stop the schedule: it is counted, keeps the task,
/// and the next tick, at any time, starts the same deletion it would have
/// started had the run succeeded.
pub proof fn lemma_failure_keeps_schedule(
    s: RetentionSweeper,
    s2: RetentionSweeper,
    now: i64,
    a: SweepAction,
    s3: RetentionSweeper,
)
    requires
        s.running > 0,
        finish_post(s, SweepOutcome::Failed, s2),
        cutoff_post(s2, tick_cutoff(now, s2.task.retention_months), a, s3),
    ensures
        s2.task == s.task,
        s2.failures == bump(s.failures),
        a == action_for(tick_cutoff(now, s.task.retention_months)),
{
}

} // verus!
