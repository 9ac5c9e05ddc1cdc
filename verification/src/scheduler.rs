//! Job scheduler: fixed-period jobs handed to an external cron-style
//! engine, and adaptive jobs whose interval can be retuned at runtime
//! through a trigger handle.
//!
//! The surrounding runtime drives each adaptive job's loop — sleep, then
//! fire the task body as an independent activity — against this module's
//! state: `begin_sleep` captures the interval the coming sleep will use,
//! and a retune through `set_duration` changes only what the next
//! `begin_sleep` reads, never a sleep already in progress.

use vstd::prelude::*;

verus! {

/// The retuning handle of an adaptive job: the shared interval, in
/// milliseconds. The runtime shares one value of this type between the
/// job's loop and whoever retunes it.
#[derive(Clone, Copy, PartialEq, Eq, Structural, Debug)]
pub struct JobTrigger {
    pub duration_ms: u64,
}

impl JobTrigger {
    pub fn new(duration_ms: u64) -> (r: JobTrigger)
        ensures
            r.duration_ms == duration_ms,
    {
        JobTrigger { duration_ms }
    }

    /// Retune the interval; visible to the job at its next sleep boundary.
    pub fn set_duration(&mut self, duration_ms: u64)
        ensures
            final(self).duration_ms == duration_ms,
    {
        self.duration_ms = duration_ms;
    }
}

/// A recurring task with a retunable interval. `sleeping_for` is the
/// duration captured by the sleep currently in progress, if one is.
#[derive(Clone, Copy, PartialEq, Eq, Structural, Debug)]
pub struct AdaptiveJob {
    pub trigger: JobTrigger,
    pub sleeping_for: Option<u64>,
}

impl AdaptiveJob {
    pub fn new(duration_ms: u64) -> (r: AdaptiveJob)
        ensures
            r.trigger.duration_ms == duration_ms,
            r.sleeping_for is None,
    {
        AdaptiveJob { trigger: JobTrigger { duration_ms }, sleeping_for: None }
    }

    /// Retune the interval. A sleep already in progress keeps the duration
    /// it captured; only the next cycle reads the new value.
    pub fn set_duration(&mut self, duration_ms: u64)
        ensures
            final(self).trigger.duration_ms == duration_ms,
            final(self).sleeping_for == old(self).sleeping_for,
    {
        self.trigger.set_duration(duration_ms);
    }

    /// The current retuning handle's value; the runtime shares it with the
    /// job's loop behind a guard.
    pub fn get_trigger(&self) -> (r: JobTrigger)
        ensures
            r == self.trigger,
    {
        self.trigger
    }

    /// Start one sleep cycle: the sleep runs for the interval as it is at
    /// this boundary, and keeps it even if the interval is retuned while
    /// the sleep is in progress.
    pub fn begin_sleep(&mut self) -> (d: u64)
        ensures
            d == old(self).trigger.duration_ms,
            final(self).sleeping_for == Some(old(self).trigger.duration_ms),
            final(self).trigger == old(self).trigger,
    {
        self.sleeping_for = Some(self.trigger.duration_ms);
        self.trigger.duration_ms
    }

    /// End the sleep; the task body is then fired as an independent
    /// activity and the next cycle begins at once.
    pub fn finish_sleep(&mut self)
        ensures
            final(self).sleeping_for is None,
            final(self).trigger == old(self).trigger,
    {
        self.sleeping_for = None;
    }
}

/// The scheduler: jobs are registered before it starts and never after.
/// `spawn` consumes it, so nothing can be added once it has run.
pub struct Scheduler {
    pub pending_jobs: Vec<AdaptiveJob>,
    pub fixed_periods_ms: Vec<u64>,
}

impl Scheduler {
    pub fn new() -> (r: Scheduler)
        ensures
            r.pending_jobs@.len() == 0,
            r.fixed_periods_ms@.len() == 0,
    {
        Scheduler { pending_jobs: Vec::new(), fixed_periods_ms: Vec::new() }
    }

    /// Register a fixed-period job; the cron-style engine that fires it is
    /// outside, and a fixed job cannot be retimed after registration.
    pub fn add_job(&mut self, period_ms: u64)
        ensures
            final(self).fixed_periods_ms@ == old(self).fixed_periods_ms@.push(period_ms),
            final(self).pending_jobs@ == old(self).pending_jobs@,
    {
        self.fixed_periods_ms.push(period_ms);
    }

    /// Register an adaptive job with its initial interval; the returned
    /// trigger retunes it.
    pub fn add_adaptive_job(&mut self, duration_ms: u64) -> (r: JobTrigger)
        ensures
            r.duration_ms == duration_ms,
            final(self).pending_jobs@ == old(self).pending_jobs@.push(
                AdaptiveJob { trigger: JobTrigger { duration_ms }, sleeping_for: None },
            ),
            final(self).fixed_periods_ms@ == old(self).fixed_periods_ms@,
    {
        let job = AdaptiveJob::new(duration_ms);
        let trigger = job.get_trigger();
        self.pending_jobs.push(job);
        trigger
    }

    /// Hand every registered job over to the runtime, which spawns each
    /// adaptive job's loop and starts the cron engine. The scheduler is
    /// consumed: it is single-shot, and jobs registered afterwards have
    /// nowhere to go.
    pub fn spawn(self) -> (r: (Vec<AdaptiveJob>, Vec<u64>))
        ensures
            r.0@ == self.pending_jobs@,
            r.1@ == self.fixed_periods_ms@,
    {
        (self.pending_jobs, self.fixed_periods_ms)
    }
}

/// Law: retuning an adaptive job's interval affects only the next sleep
/// cycle. A sleep that began when the interval was `d0` still runs for
/// `d0` after the retune to `d_new`, and the first sleep to begin after
/// the retune runs for `d_new`.
pub proof fn lemma_retune_affects_next_cycle_only(
    j0: AdaptiveJob,
    j1: AdaptiveJob,
    j2: AdaptiveJob,
    j3: AdaptiveJob,
    d0: u64,
    d_new: u64,
)
    requires
        j0.trigger.duration_ms == d0,
        // j0 -> j1: a sleep begins, capturing the current interval
        j1.sleeping_for == Some(j0.trigger.duration_ms),
        j1.trigger == j0.trigger,
        // j1 -> j2: the interval is retuned mid-sleep
        j2.trigger.duration_ms == d_new,
        j2.sleeping_for == j1.sleeping_for,
        // j2 -> j3: the next sleep begins at the next boundary
        j3.sleeping_for == Some(j2.trigger.duration_ms),
    ensures
        j2.sleeping_for == Some(d0),
        j3.sleeping_for == Some(d_new),
{
}

} // verus!
