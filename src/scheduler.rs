use vstd::prelude::*;

verus! {

/// A count that stops at its largest value instead of overflowing.
pub open spec fn bump(n: u64) -> u64 {
    if n < u64::MAX {
        (n + 1) as u64
    } else {
        n
    }
}

fn bump_exec(n: u64) -> (r: u64)
    ensures
        r == bump(n),
{
    if n < u64::MAX {
        n + 1
    } else {
        n
    }
}

/// What one cycle came to: fetches that failed, rows the sink took, rows it did not.
#[derive(Clone, Copy, Debug, PartialEq, Eq, Structural)]
pub struct CycleReport {
    pub fetch_failures: u64,
    pub rows_written: u64,
    pub rows_failed: u64,
}

impl CycleReport {
    pub open spec fn is_clean(self) -> bool {
        self.fetch_failures == 0 && self.rows_failed == 0
    }

    pub fn new() -> (r: CycleReport)
        ensures
            r == (CycleReport { fetch_failures: 0, rows_written: 0, rows_failed: 0 }),
    {
        CycleReport { fetch_failures: 0, rows_written: 0, rows_failed: 0 }
    }

    /// Counts one fetch; only a failed one changes the report.
    pub fn record_fetch(&mut self, ok: bool)
        ensures
            *final(self) == (if ok {
                *old(self)
            } else {
                CycleReport { fetch_failures: bump(old(self).fetch_failures), ..*old(self) }
            }),
    {
        if !ok {
            self.fetch_failures = bump_exec(self.fetch_failures);
        }
    }

    /// Counts one row write, as written or as failed.
    pub fn record_write(&mut self, ok: bool)
        ensures
            *final(self) == (if ok {
                CycleReport { rows_written: bump(old(self).rows_written), ..*old(self) }
            } else {
                CycleReport { rows_failed: bump(old(self).rows_failed), ..*old(self) }
            }),
    {
        if ok {
            self.rows_written = bump_exec(self.rows_written);
        } else {
            self.rows_failed = bump_exec(self.rows_failed);
        }
    }
}

/// What the driver of the scheduler does next. There is no action that stops:
/// the loop ends only with the process.
#[derive(Clone, Copy, Debug, PartialEq, Eq, Structural)]
pub enum SchedulerAction {
    RunCycle,
    Sleep { millis: u64 },
}

/// Runs a cycle, sleeps a fixed interval, and again, forever.
#[derive(Clone, Copy, Debug, PartialEq, Eq, Structural)]
pub struct Scheduler {
    pub interval_ms: u64,
    pub cycles_completed: u64,
    pub cycles_with_failures: u64,
    pub sleeping: bool,
}

impl Scheduler {
    pub open spec fn spec_new(interval_ms: u64) -> Scheduler {
        Scheduler { interval_ms, cycles_completed: 0, cycles_with_failures: 0, sleeping: false }
    }

    pub open spec fn spec_next_action(self) -> SchedulerAction {
        if self.sleeping {
            SchedulerAction::Sleep { millis: self.interval_ms }
        } else {
            SchedulerAction::RunCycle
        }
    }

    /// The state once a cycle has ended, whatever it came to.
    pub open spec fn after_cycle(self, report: CycleReport) -> Scheduler {
        Scheduler {
            cycles_completed: bump(self.cycles_completed),
            cycles_with_failures: if report.is_clean() {
                self.cycles_with_failures
            } else {
                bump(self.cycles_with_failures)
            },
            sleeping: true,
            ..self
        }
    }

    pub open spec fn after_sleep(self) -> Scheduler {
        Scheduler { sleeping: false, ..self }
    }

    pub fn new(interval_ms: u64) -> (r: Scheduler)
        ensures
            r == Scheduler::spec_new(interval_ms),
    {
        Scheduler { interval_ms, cycles_completed: 0, cycles_with_failures: 0, sleeping: false }
    }

    pub fn next_action(&self) -> (r: SchedulerAction)
        ensures
            r == self.spec_next_action(),
    {
        if self.sleeping {
            SchedulerAction::Sleep { millis: self.interval_ms }
        } else {
            SchedulerAction::RunCycle
        }
    }

    pub fn cycle_finished(&mut self, report: CycleReport)
        ensures
            *final(self) == old(self).after_cycle(report),
    {
        self.cycles_completed = bump_exec(self.cycles_completed);
        if !(report.fetch_failures == 0 && report.rows_failed == 0) {
            self.cycles_with_failures = bump_exec(self.cycles_with_failures);
        }
        self.sleeping = true;
    }

    pub fn slept(&mut self)
        ensures
            *final(self) == old(self).after_sleep(),
    {
        self.sleeping = false;
    }
}

/// The state after the cycles of `reports`, each followed by its sleep.
pub open spec fn run(s: Scheduler, reports: Seq<CycleReport>) -> Scheduler
    decreases reports.len(),
{
    if reports.len() == 0 {
        s
    } else {
        run(s, reports.drop_last()).after_cycle(reports.last()).after_sleep()
    }
}

/// How many of `reports` are not clean.
pub open spec fn failing(reports: Seq<CycleReport>) -> nat
    decreases reports.len(),
{
    if reports.len() == 0 {
        0
    } else {
        failing(reports.drop_last()) + if reports.last().is_clean() {
            0nat
        } else {
            1nat
        }
    }
}

/// However each cycle fails, the scheduler goes on: after every cycle it sleeps
/// its fixed interval, and after any number of cycles it asks for the next one.
/// While the counters fit in `u64`, it has counted every cycle and the failing
/// ones among them.
pub proof fn lemma_survives_every_cycle(interval_ms: u64, reports: Seq<CycleReport>)
    ensures
        forall|s: Scheduler, r: CycleReport|
            #[trigger] s.after_cycle(r).spec_next_action() == (SchedulerAction::Sleep {
                millis: s.interval_ms,
            }),
        ({
            let s = run(Scheduler::spec_new(interval_ms), reports);
            &&& reports.len() <= u64::MAX ==> s.cycles_completed == reports.len()
            &&& reports.len() <= u64::MAX ==> s.cycles_with_failures == failing(reports)
            &&& s.interval_ms == interval_ms
            &&& s.spec_next_action() == SchedulerAction::RunCycle
        }),
    decreases reports.len(),
{
    if reports.len() > 0 {
        lemma_survives_every_cycle(interval_ms, reports.drop_last());
        assert(failing(reports.drop_last()) <= reports.drop_last().len()) by {
            lemma_failing_bound(reports.drop_last());
        }
    }
}

proof fn lemma_failing_bound(reports: Seq<CycleReport>)
    ensures
        failing(reports) <= reports.len(),
    decreases reports.len(),
{
    if reports.len() > 0 {
        lemma_failing_bound(reports.drop_last());
    }
}

} // verus!
