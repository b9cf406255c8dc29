use vstd::prelude::*;
use vstd::string::*;
use crate::error::GarError;
use crate::github::WorkflowRun;

verus! {

/// Pause after a dispatch before the first lookup, in milliseconds.
pub const SETTLE_MILLIS: u64 = 2000;

/// Pause between two lookups of the same execution, in milliseconds.
pub const POLL_MILLIS: u64 = 5000;

/// Cadence of the liveness display, in milliseconds.
pub const TICK_MILLIS: u64 = 100;

/// What one lookup of an execution showed.
pub struct RunStatus {
    pub status: String,
    pub conclusion: Option<String>,
}

/// Where the wait for a dispatched execution stands.
pub enum PollPhase {
    /// The trigger succeeded; the settling pause is running.
    Dispatched,
    /// The settling pause is over; the newest execution is being looked up.
    Settling,
    /// The execution is known and is being looked up until it ends.
    Waiting { run_id: u64 },
    /// The execution ended with this conclusion.
    Terminal { conclusion: String },
    /// The wait was given up.
    Failed,
}

/// What the outside world reports back to the engine.
pub enum PollEvent {
    /// A requested pause is over.
    PauseElapsed,
    /// The executions of the job were listed, newest first; holds the first one's id.
    RunsListed { first: Option<u64> },
    /// One execution was looked up; `None` where the server did not find it.
    RunFetched { run: Option<RunStatus> },
}

/// What the engine asks the outside world to do next.
pub enum PollAction {
    Pause { millis: u64 },
    ListRuns,
    FetchRun { run_id: u64 },
    Report { conclusion: String },
    Fail { error: GarError },
    /// The event does not apply to this phase; nothing to do.
    Idle,
}

/// Only these two statuses end an execution.
pub open spec fn is_terminal_status(s: Seq<char>) -> bool {
    s == "completed"@ || s == "failure"@
}

/// The conclusion reported for a finished execution; `unknown` where the server gave none.
pub open spec fn reported_conclusion(c: Option<String>) -> Seq<char> {
    match c {
        Some(x) => x@,
        None => "unknown"@,
    }
}

/// Whether a lookup shows a finished execution.
pub open spec fn fetch_is_terminal(f: Option<RunStatus>) -> bool {
    match f {
        Some(s) => is_terminal_status(s.status@),
        None => false,
    }
}

/// The transition relation of the wait: `next` and `action` follow `phase` on `event`.
pub open spec fn step_relation(
    phase: PollPhase,
    event: PollEvent,
    next: PollPhase,
    action: PollAction,
) -> bool {
    match phase {
        PollPhase::Dispatched => match event {
            PollEvent::PauseElapsed => next is Settling && action is ListRuns,
            _ => next == phase && action is Idle,
        },
        PollPhase::Settling => match event {
            PollEvent::RunsListed { first: Some(id) } => next == (PollPhase::Waiting { run_id: id })
                && action == (PollAction::FetchRun { run_id: id }),
            PollEvent::RunsListed { first: None } => next is Failed
                && (action matches PollAction::Fail { error } && error is NoRunsFound),
            _ => next == phase && action is Idle,
        },
        PollPhase::Waiting { run_id } => match event {
            PollEvent::RunFetched { run } => if fetch_is_terminal(run) {
                &&& (next matches PollPhase::Terminal { conclusion }
                    && conclusion@ == reported_conclusion(run->Some_0.conclusion))
                &&& (action matches PollAction::Report { conclusion }
                    && conclusion@ == reported_conclusion(run->Some_0.conclusion))
            } else {
                next == phase && action == (PollAction::Pause { millis: POLL_MILLIS })
            },
            PollEvent::PauseElapsed => next == phase && action == (PollAction::FetchRun { run_id }),
            _ => next == phase && action is Idle,
        },
        _ => next == phase && action is Idle,
    }
}

/// Whether `status` is one of the two terminal statuses.
pub fn is_terminal(status: &String) -> (r: bool)
    ensures
        r == is_terminal_status(status@),
{
    let completed = String::from_str("completed");
    let failure = String::from_str("failure");
    *status == completed || *status == failure
}

fn conclusion_text(c: &Option<String>) -> (r: String)
    ensures
        r@ == reported_conclusion(*c),
{
    match c {
        Some(x) => x.clone(),
        None => String::from_str("unknown"),
    }
}

impl RunStatus {
    /// The status part of an execution snapshot.
    pub fn of_run(run: &WorkflowRun) -> (r: RunStatus)
        ensures
            r.status@ == run.status@,
            r.conclusion == run.conclusion,
    {
        RunStatus { status: run.status.clone(), conclusion: copy_conclusion(&run.conclusion) }
    }

    /// A copy of this snapshot.
    pub fn duplicate(&self) -> (r: RunStatus)
        ensures
            r == *self,
    {
        RunStatus { status: self.status.clone(), conclusion: copy_conclusion(&self.conclusion) }
    }
}

fn copy_conclusion(c: &Option<String>) -> (r: Option<String>)
    ensures
        r == *c,
{
    match c {
        Some(x) => Some(x.clone()),
        None => None,
    }
}

impl PollPhase {
    /// Whether the wait is over, by an ended execution or by a failure.
    pub fn is_finished(&self) -> (r: bool)
        ensures
            r == (self is Terminal || self is Failed),
    {
        match self {
            PollPhase::Terminal { .. } | PollPhase::Failed => true,
            _ => false,
        }
    }
}

/// The state right after a successful trigger, and the settling pause it asks for.
pub fn on_dispatched() -> (r: (PollPhase, PollAction))
    ensures
        r.0 is Dispatched,
        r.1 == (PollAction::Pause { millis: SETTLE_MILLIS }),
{
    (PollPhase::Dispatched, PollAction::Pause { millis: SETTLE_MILLIS })
}

/// One transition of the wait for a dispatched execution.
///
/// After the settling pause the newest execution of the job is listed, and
/// the first one listed is taken as the new one (an empty listing fails the
/// wait). Nothing ties that execution to this trigger: when the same job is
/// dispatched twice at once, the wait may follow the other execution. That execution is then looked up, with a pause between lookups,
/// until its status is `completed` or `failure`; a lookup that finds nothing
/// keeps waiting. There is no limit on the number of lookups.
pub fn poll_step(phase: PollPhase, event: PollEvent) -> (r: (PollPhase, PollAction))
    ensures
        step_relation(phase, event, r.0, r.1),
{
    match phase {
        PollPhase::Dispatched => match event {
            PollEvent::PauseElapsed => (PollPhase::Settling, PollAction::ListRuns),
            _ => (phase, PollAction::Idle),
        },
        PollPhase::Settling => match event {
            PollEvent::RunsListed { first: Some(id) } => (
                PollPhase::Waiting { run_id: id },
                PollAction::FetchRun { run_id: id },
            ),
            PollEvent::RunsListed { first: None } => (
                PollPhase::Failed,
                PollAction::Fail { error: GarError::NoRunsFound },
            ),
            _ => (phase, PollAction::Idle),
        },
        PollPhase::Waiting { run_id } => match event {
            PollEvent::RunFetched { run } => {
                let done = match &run {
                    Some(s) => is_terminal(&s.status),
                    None => false,
                };
                if done {
                    let s = run.unwrap();
                    let c1 = conclusion_text(&s.conclusion);
                    let c2 = conclusion_text(&s.conclusion);
                    (PollPhase::Terminal { conclusion: c1 }, PollAction::Report { conclusion: c2 })
                } else {
                    (phase, PollAction::Pause { millis: POLL_MILLIS })
                }
            },
            PollEvent::PauseElapsed => (phase, PollAction::FetchRun { run_id }),
            _ => (phase, PollAction::Idle),
        },
        _ => (phase, PollAction::Idle),
    }
}

/// Runs the waiting phase for execution `run_id` against a script of lookup
/// results, pausing between lookups as the engine asks. Returns where the
/// wait ended and how many lookups it consumed: it stops at the first lookup
/// that shows `completed` or `failure`, with that lookup's conclusion; if
/// none does, it is still waiting after the whole script.
pub fn replay_wait(run_id: u64, fetches: &Vec<Option<RunStatus>>) -> (r: (PollPhase, usize))
    ensures
        r.1 <= fetches@.len(),
        forall|k: int| 0 <= k < r.1 as int - 1 ==> !fetch_is_terminal(#[trigger] fetches@[k]),
        r.0 is Terminal <==> (r.1 > 0 && fetch_is_terminal(fetches@[r.1 - 1])),
        r.0 matches PollPhase::Terminal { conclusion } ==> conclusion@ == reported_conclusion(
            fetches@[r.1 - 1]->Some_0.conclusion,
        ),
        !(r.0 is Terminal) ==> r.0 == (PollPhase::Waiting { run_id }) && r.1 == fetches@.len(),
{
    let mut phase = PollPhase::Waiting { run_id };
    let mut used: usize = 0;
    while used < fetches.len() && !phase.is_finished()
        invariant
            used <= fetches@.len(),
            forall|k: int| 0 <= k < used as int - 1 ==> !fetch_is_terminal(#[trigger] fetches@[k]),
            phase is Terminal <==> (used > 0 && fetch_is_terminal(fetches@[used - 1])),
            phase matches PollPhase::Terminal { conclusion } ==> conclusion@ == reported_conclusion(
                fetches@[used - 1]->Some_0.conclusion,
            ),
            !(phase is Terminal) ==> phase == (PollPhase::Waiting { run_id }),
        decreases fetches@.len() - used,
    {
        let run = match &fetches[used] {
            Some(s) => Some(s.duplicate()),
            None => None,
        };
        let (next, _pause) = poll_step(phase, PollEvent::RunFetched { run });
        used = used + 1;
        if next.is_finished() {
            phase = next;
        } else {
            let (again, _fetch) = poll_step(next, PollEvent::PauseElapsed);
            phase = again;
        }
    }
    (phase, used)
}

} // verus!
