//! The timer that runs the synchronisation over and over.
use crate::config::Config;
use crate::strings::{join_with, owned, push_string, same, u64_to_string};
use vstd::prelude::*;

verus! {

/// Runs the synchronisation at intervals.
pub struct Daemon {
    pub config: Config,
    pub once: bool,
    pub notify_on_noop: bool,
}

/// What the caller is to do next.
#[derive(Debug)]
pub enum DaemonAction {
    /// Run the synchronisation.
    Tick,
    /// Sleep for the interval and a while longer.
    Sleep,
    Stop,
    /// Stop with an error, so that the program is started again.
    Fail(String),
}

/// How a tick is run.
#[derive(Debug, Clone, Copy, PartialEq, Eq, Structural)]
pub enum TickPlan {
    /// The service does the work.
    Managed,
    /// The service should be there and is not.
    ServiceMissing,
    /// The work is done here.
    Direct,
}

/// The daemon between two actions.
pub struct DaemonRun {
    /// How many ticks failed since one succeeded.
    pub failures: u32,
}

/// The words of a daemon that gives up.
pub open spec fn limit_words(max_failures: u32) -> Seq<char> {
    "daemon reached "@ + crate::strings::decimal(max_failures as nat)
        + " consecutive failure(s); exiting so the process supervisor can restart it"@
}

/// Gives up where the limit is reached.
pub fn ensure_failure_limit_not_reached(failures: u32, max_failures: u32) -> (r: Result<(), String>)
    ensures
        match r {
            Ok(_) => failures < max_failures,
            Err(words) => failures >= max_failures && words@ == limit_words(max_failures),
        },
{
    if failures < max_failures {
        Ok(())
    } else {
        Err(
            owned("daemon reached ").concat(u64_to_string(max_failures as u64).as_str()).concat(
                " consecutive failure(s); exiting so the process supervisor can restart it",
            ),
        )
    }
}

/// How many seconds of the time are added to the interval.
pub open spec fn jitter_of(max_seconds: u64, now: Option<u64>) -> int {
    match now {
        Some(now) => now as int % (max_seconds + 1),
        None => 0,
    }
}

/// A number of seconds up to `max_seconds`, taken from the time of day.
pub fn jitter(max_seconds: u64, now: Option<u64>) -> (r: u64)
    requires
        max_seconds < u64::MAX,
    ensures
        r == jitter_of(max_seconds, now),
        r <= max_seconds,
{
    if max_seconds == 0 {
        return 0;
    }
    match now {
        Some(now) => now % (max_seconds + 1),
        None => 0,
    }
}

/// The states in which nothing more happens by itself.
pub open spec fn terminal(state: Seq<char>) -> bool {
    state == "completed"@ || state == "failed"@ || state == "abandoned"@ || state
        == "waiting_guidance"@ || state == "test_failed"@ || state == "waiting_push"@
}

pub fn is_terminal_state(state: &str) -> (r: bool)
    ensures
        r == terminal(state@),
{
    same(state, "completed") || same(state, "failed") || same(state, "abandoned") || same(
        state,
        "waiting_guidance",
    ) || same(state, "test_failed") || same(state, "waiting_push")
}

/// A job that the service runs.
#[derive(Debug, Clone)]
pub struct ManagedSyncJob {
    pub branch: String,
    pub state: String,
    pub summary: String,
}

/// All jobs are at an end.
pub open spec fn all_terminal(jobs: Seq<ManagedSyncJob>) -> bool {
    forall|i: int| 0 <= i < jobs.len() ==> terminal((#[trigger] jobs[i]).state@)
}

/// A line on each of the first `n` jobs that did not complete.
pub open spec fn unfinished(jobs: Seq<ManagedSyncJob>, n: int) -> Seq<Seq<char>>
    decreases n,
{
    if n <= 0 {
        Seq::empty()
    } else {
        let rest = unfinished(jobs, n - 1);
        let job = jobs[n - 1];
        if job.state@ == "completed"@ {
            rest
        } else {
            rest.push(job.branch@ + " ["@ + job.state@ + "]: "@ + job.summary@)
        }
    }
}

/// What comes of a look at the jobs.
#[derive(Debug)]
pub enum JobsStep {
    Done,
    Wait,
    Fail(String),
}

/// Decides whether to wait on for the jobs. `late` says that the time is up.
pub fn wait_managed_jobs(jobs: &Vec<ManagedSyncJob>, purpose: &str, late: bool) -> (r: JobsStep)
    ensures
        ({
            let open = unfinished(jobs@, jobs@.len() as int);
            match r {
                JobsStep::Done => all_terminal(jobs@) && open.len() == 0,
                JobsStep::Wait => !all_terminal(jobs@) && !late,
                JobsStep::Fail(words) => if all_terminal(jobs@) {
                    open.len() > 0 && words@ == "managed "@ + purpose@ + " requires attention: "@
                        + crate::strings::join(open, " | "@)
                } else {
                    late && words@ == "managed "@ + purpose@ + " did not finish within 3600 seconds"@
                },
            }
        }),
{
    let mut lines: Vec<String> = Vec::new();
    let mut ended = true;
    let mut i: usize = 0;
    assert(crate::strings::views(lines@) =~= Seq::empty());
    while i < jobs.len()
        invariant
            i <= jobs@.len(),
            ended == (forall|k: int| 0 <= k < i ==> terminal((#[trigger] jobs@[k]).state@)),
            crate::strings::views(lines@) == unfinished(jobs@, i as int),
        decreases jobs@.len() - i,
    {
        let job = &jobs[i];
        if !is_terminal_state(job.state.as_str()) {
            assert(!terminal(jobs@[i as int].state@));
            ended = false;
        }
        if !same(job.state.as_str(), "completed") {
            push_string(
                &mut lines,
                owned(job.branch.as_str()).concat(" [").concat(job.state.as_str()).concat("]: ").concat(
                    job.summary.as_str(),
                ),
            );
        }
        i += 1;
    }
    assert(crate::strings::views(lines@).len() == lines@.len());
    if ended {
        if lines.len() == 0 {
            JobsStep::Done
        } else {
            JobsStep::Fail(
                owned("managed ").concat(purpose).concat(" requires attention: ").concat(
                    join_with(&lines, " | ").as_str(),
                ),
            )
        }
    } else if late {
        JobsStep::Fail(
            owned("managed ").concat(purpose).concat(" did not finish within 3600 seconds"),
        )
    } else {
        JobsStep::Wait
    }
}

/// Refuses to go on where the service did not take an order. `status` and `body` are its answer.
pub fn check_scheduled(purpose: &str, accepted: bool, status: &str, body: &str) -> (r: Result<
    (),
    String,
>)
    ensures
        match r {
            Ok(_) => accepted,
            Err(words) => !accepted && words@ == "managed "@ + purpose@ + " scheduling returned "@
                + status@ + ": "@ + body@,
        },
{
    if accepted {
        Ok(())
    } else {
        Err(
            owned("managed ").concat(purpose).concat(" scheduling returned ").concat(
                status,
            ).concat(": ").concat(body),
        )
    }
}

impl Daemon {
    pub fn new(config: Config, once: bool, notify_on_noop: bool) -> (r: Daemon)
        ensures
            r.config == config,
            r.once == once,
            r.notify_on_noop == notify_on_noop,
    {
        Daemon { config, once, notify_on_noop }
    }

    /// The counter of failures is below the limit, or nothing failed yet.
    pub open spec fn holds(self, run: DaemonRun) -> bool {
        run.failures == 0 || run.failures < self.config.daemon.max_consecutive_failures
    }

    /// Begins.
    pub fn run(&self) -> (r: (DaemonRun, DaemonAction))
        ensures
            self.holds(r.0),
            r.0.failures == 0,
            self.config.daemon.run_on_start ==> r.1 is Tick,
            !self.config.daemon.run_on_start ==> r.1 is Sleep,
    {
        let run = DaemonRun { failures: 0 };
        if self.config.daemon.run_on_start {
            (run, DaemonAction::Tick)
        } else {
            (run, DaemonAction::Sleep)
        }
    }

    /// How many seconds to sleep.
    pub fn sleep_seconds(&self, now: Option<u64>) -> (r: u64)
        requires
            self.config.daemon.interval_seconds + self.config.daemon.jitter_seconds < u64::MAX,
        ensures
            r == self.config.daemon.interval_seconds + jitter_of(self.config.daemon.jitter_seconds, now),
    {
        self.config.daemon.interval_seconds + jitter(self.config.daemon.jitter_seconds, now)
    }

    /// How a tick is run: over the service where its socket is there, else here, unless only the
    /// directory of the socket is there.
    pub fn run_tick(&self, socket_found: bool, directory_found: bool) -> (r: TickPlan)
        ensures
            r == (if socket_found {
                TickPlan::Managed
            } else if directory_found {
                TickPlan::ServiceMissing
            } else {
                TickPlan::Direct
            }),
    {
        if socket_found {
            TickPlan::Managed
        } else if directory_found {
            TickPlan::ServiceMissing
        } else {
            TickPlan::Direct
        }
    }

    /// Takes note of what came of a tick.
    pub fn after_tick(&self, run: &mut DaemonRun, succeeded: bool) -> (r: DaemonAction)
        requires
            self.holds(*old(run)),
        ensures
            final(run).failures == (if succeeded {
                0
            } else {
                old(run).failures + 1
            }),
            r is Stop <==> self.once,
            r is Fail <==> !self.once && final(run).failures
                >= self.config.daemon.max_consecutive_failures,
            r is Fail ==> r->Fail_0@ == limit_words(self.config.daemon.max_consecutive_failures),
            r is Sleep <==> !self.once && final(run).failures
                < self.config.daemon.max_consecutive_failures,
            r is Sleep ==> self.holds(*final(run)),
    {
        run.failures = if succeeded {
            0
        } else {
            run.failures + 1
        };
        if self.once {
            return DaemonAction::Stop;
        }
        match ensure_failure_limit_not_reached(
            run.failures,
            self.config.daemon.max_consecutive_failures,
        ) {
            Ok(()) => DaemonAction::Sleep,
            Err(words) => DaemonAction::Fail(words),
        }
    }
}

/// How an advisory is marked when its investigation is over, and whether the tick goes on.
#[derive(Debug)]
pub struct AdvisoryVerdict {
    pub state: &'static str,
    pub error: Option<String>,
    /// The words with which the tick stops.
    pub stop: Option<String>,
}

/// Judges the investigation of an advisory: its error, or the error of the candidate that it made.
pub fn run_direct_advisory_tick(id: &str, result: &Result<Option<String>, String>) -> (r: AdvisoryVerdict)
    ensures
        match *result {
            Ok(None) => r.state@ == "completed"@ && r.error is None && r.stop is None,
            Ok(Some(error)) => r.state@ == "failed"@ && r.error is Some && r.error->0@ == error@
                && r.stop is Some && r.stop->0@ == "OSV "@ + id@ + " 候选失败关闭："@ + error@,
            Err(error) => r.state@ == "failed"@ && r.error is Some && r.error->0@ == error@
                && r.stop is Some && r.stop->0@ == error@,
        },
{
    match result {
        Ok(None) => AdvisoryVerdict { state: "completed", error: None, stop: None },
        Ok(Some(error)) => AdvisoryVerdict {
            state: "failed",
            error: Some(error.clone()),
            stop: Some(owned("OSV ").concat(id).concat(" 候选失败关闭：").concat(error.as_str())),
        },
        Err(error) => AdvisoryVerdict {
            state: "failed",
            error: Some(error.clone()),
            stop: Some(error.clone()),
        },
    }
}

/// The number of failures after a row of ticks, where each tick succeeded or not.
pub open spec fn failures_after(ticks: Seq<bool>) -> nat
    decreases ticks.len(),
{
    if ticks.len() == 0 {
        0
    } else if ticks.last() {
        0
    } else {
        failures_after(ticks.drop_last()) + 1
    }
}

/// The daemon gives up exactly when the last ticks, as many as the limit says, all failed.
pub proof fn law_gives_up_after_a_row_of_failures(ticks: Seq<bool>, limit: nat)
    ensures
        failures_after(ticks) >= limit <==> limit <= ticks.len() && forall|i: int|
            ticks.len() - limit <= i < ticks.len() ==> !#[trigger] ticks[i],
    decreases ticks.len(),
{
    if ticks.len() > 0 {
        let before = ticks.drop_last();
        if limit > 0 {
            law_gives_up_after_a_row_of_failures(before, (limit - 1) as nat);
        }
        if failures_after(ticks) >= limit && limit > 0 {
            assert(!ticks.last());
            assert forall|i: int| ticks.len() - limit <= i < ticks.len() implies !#[trigger] ticks[i] by {
                if i < before.len() {
                    assert(before[i] == ticks[i]);
                }
            }
        }
        if limit > 0 && limit <= ticks.len() && (forall|i: int|
            ticks.len() - limit <= i < ticks.len() ==> !#[trigger] ticks[i]) {
            assert(!ticks[ticks.len() - 1]);
            assert forall|i: int| before.len() - (limit - 1) <= i < before.len() implies !#[trigger] before[i] by {
                assert(before[i] == ticks[i]);
            }
        }
    }
}

} // verus!
