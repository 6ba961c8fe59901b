//! The worker and the runner behind the loader: from messages to scheduler
//! processes, with retries.
use vstd::prelude::*;

use crate::loader::{tells, MessageModel, ScxMessage, StateModel};
use crate::sched::{SchedMode, SupportedSched};
use crate::text::views;

verus! {

/// What the runner is asked to do with the scheduler process.
#[derive(Debug, PartialEq)]
pub enum RunnerMessage {
    /// Switch to another scheduler with the given arguments.
    Switch(SupportedSched, Vec<String>),
    /// Start the scheduler with the given arguments.
    Start(SupportedSched, Vec<String>),
    /// Stop the scheduler, if any.
    Stop,
    /// Restart the running scheduler with the same arguments.
    Restart(SupportedSched, Vec<String>),
}

/// How a scheduler is to be brought up.
#[derive(Debug, Clone, Copy, PartialEq, Eq, Structural)]
pub enum RunOrder {
    Switch,
    Start,
    Restart,
}

/// The model of a [`RunnerMessage`].
pub enum RunnerModel {
    Run(RunOrder, SupportedSched, Seq<Seq<char>>),
    Stop,
}

impl View for RunnerMessage {
    type V = RunnerModel;

    open spec fn view(&self) -> RunnerModel {
        match *self {
            RunnerMessage::Switch(s, a) => RunnerModel::Run(RunOrder::Switch, s, views(a@)),
            RunnerMessage::Start(s, a) => RunnerModel::Run(RunOrder::Start, s, views(a@)),
            RunnerMessage::Stop => RunnerModel::Stop,
            RunnerMessage::Restart(s, a) => RunnerModel::Run(RunOrder::Restart, s, views(a@)),
        }
    }
}

/// What the worker does about a message.
#[derive(Debug, PartialEq)]
pub enum WorkerStep {
    /// Leave the worker loop.
    Quit,
    /// Pass the message to the runner.
    Send(RunnerMessage),
    /// Look up the arguments that are configured for the mode, and pass them to
    /// the runner; see [`with_flags`].
    LookUp { order: RunOrder, sched: SupportedSched, mode: SchedMode },
}

/// The runner message that brings a scheduler up in the ordered way.
pub fn with_flags(order: RunOrder, sched: SupportedSched, flags: Vec<String>) -> (msg: RunnerMessage)
    ensures
        msg@ == RunnerModel::Run(order, sched, views(flags@)),
{
    match order {
        RunOrder::Switch => RunnerMessage::Switch(sched, flags),
        RunOrder::Start => RunnerMessage::Start(sched, flags),
        RunOrder::Restart => RunnerMessage::Restart(sched, flags),
    }
}

/// Whether a step is what the worker owes a message.
pub open spec fn answers(step: WorkerStep, msg: MessageModel) -> bool {
    match msg {
        MessageModel::Quit => step == WorkerStep::Quit,
        MessageModel::StopSched => step == WorkerStep::Send(RunnerMessage::Stop),
        MessageModel::StartSched(sched, mode) => step == (WorkerStep::LookUp {
            order: RunOrder::Start,
            sched,
            mode,
        }),
        MessageModel::SwitchSched(sched, mode) => step == (WorkerStep::LookUp {
            order: RunOrder::Switch,
            sched,
            mode,
        }),
        MessageModel::StartSchedArgs(sched, args) => sends(step, RunOrder::Start, sched, args),
        MessageModel::SwitchSchedArgs(sched, args) => sends(step, RunOrder::Switch, sched, args),
        MessageModel::RestartSched(sched, Some(args), mode) => sends(
            step,
            RunOrder::Restart,
            sched,
            args,
        ),
        MessageModel::RestartSched(sched, None, mode) => step == (WorkerStep::LookUp {
            order: RunOrder::Restart,
            sched,
            mode,
        }),
    }
}

/// Whether a step passes the given order to the runner.
pub open spec fn sends(
    step: WorkerStep,
    order: RunOrder,
    sched: SupportedSched,
    args: Seq<Seq<char>>,
) -> bool {
    match step {
        WorkerStep::Send(msg) => msg@ == RunnerModel::Run(order, sched, args),
        _ => false,
    }
}

/// Decides what the worker does about a message: custom arguments are passed
/// on, and a mode is looked up in the configuration.
pub fn worker_step(msg: ScxMessage) -> (step: WorkerStep)
    ensures
        answers(step, msg@),
{
    match msg {
        ScxMessage::Quit => WorkerStep::Quit,
        ScxMessage::StopSched => WorkerStep::Send(RunnerMessage::Stop),
        ScxMessage::StartSched(sched, mode) => WorkerStep::LookUp {
            order: RunOrder::Start,
            sched,
            mode,
        },
        ScxMessage::StartSchedArgs(sched, args) => WorkerStep::Send(
            RunnerMessage::Start(sched, args),
        ),
        ScxMessage::SwitchSched(sched, mode) => WorkerStep::LookUp {
            order: RunOrder::Switch,
            sched,
            mode,
        },
        ScxMessage::SwitchSchedArgs(sched, args) => WorkerStep::Send(
            RunnerMessage::Switch(sched, args),
        ),
        ScxMessage::RestartSched(sched, Some(args), _) => WorkerStep::Send(
            RunnerMessage::Restart(sched, args),
        ),
        ScxMessage::RestartSched(sched, None, mode) => WorkerStep::LookUp {
            order: RunOrder::Restart,
            sched,
            mode,
        },
    }
}

/// What the runner does about a message.
#[derive(Debug, PartialEq)]
pub struct RunnerPlan {
    /// Cancel the scheduler task and wait for it first.
    pub stop: bool,
    /// Start a task for this scheduler with these arguments.
    pub start: Option<(SupportedSched, Vec<String>)>,
    /// The message asked for a start while a task is still there.
    pub refused: bool,
}

/// The runner: whether it has a scheduler task.
#[derive(Debug, Clone, Copy, PartialEq, Eq, Structural)]
pub struct Runner {
    pub running: bool,
}

/// The start that a plan holds.
pub open spec fn planned_start(plan: RunnerPlan) -> Option<(SupportedSched, Seq<Seq<char>>)> {
    match plan.start {
        Some((sched, args)) => Some((sched, views(args@))),
        None => None,
    }
}

/// What a task runs: a scheduler with arguments.
pub type Job = (SupportedSched, Seq<Seq<char>>);

/// Whether a plan is what the runner owes a message, with or without a task.
pub open spec fn plans(running: bool, msg: RunnerModel, plan: RunnerPlan) -> bool {
    match msg {
        RunnerModel::Stop => {
            &&& plan.stop == running
            &&& planned_start(plan) is None
            &&& !plan.refused
        },
        RunnerModel::Run(RunOrder::Start, sched, args) => {
            &&& !plan.stop
            &&& plan.refused == running
            &&& planned_start(plan) == if running {
                None
            } else {
                Some((sched, args))
            }
        },
        RunnerModel::Run(_, sched, args) => {
            &&& plan.stop == running
            &&& planned_start(plan) == Some((sched, args))
            &&& !plan.refused
        },
    }
}

/// The job that is left once a plan has been carried out.
pub open spec fn job_after(job: Option<Job>, plan: RunnerPlan) -> Option<Job> {
    if planned_start(plan) is Some {
        planned_start(plan)
    } else if plan.stop {
        None
    } else {
        job
    }
}

impl Runner {
    pub fn new() -> (runner: Self)
        ensures
            !runner.running,
    {
        Runner { running: false }
    }

    /// Decides what to do about a message. A switch and a restart stop the task
    /// that is there and start another; a start is refused while there is one.
    pub fn on_message(&mut self, msg: RunnerMessage) -> (plan: RunnerPlan)
        ensures
            plans(old(self).running, msg@, plan),
            final(self).running == (planned_start(plan) is Some || (old(self).running
                && !plan.stop)),
            // There is never more than one task.
            planned_start(plan) is Some && old(self).running ==> plan.stop,
    {
        let was_running = self.running;
        match msg {
            RunnerMessage::Switch(sched, args) | RunnerMessage::Restart(sched, args) => {
                self.running = true;
                RunnerPlan { stop: was_running, start: Some((sched, args)), refused: false }
            },
            RunnerMessage::Start(sched, args) => {
                if was_running {
                    return RunnerPlan { stop: false, start: None, refused: true };
                }
                self.running = true;
                RunnerPlan { stop: false, start: Some((sched, args)), refused: false }
            },
            RunnerMessage::Stop => {
                self.running = false;
                RunnerPlan { stop: was_running, start: None, refused: false }
            },
        }
    }
}

/// How often a scheduler that fails is started.
pub const MAX_RETRIES: u32 = 5;

/// How one attempt at running a scheduler ended.
#[derive(Debug)]
pub enum AttemptEnd<S> {
    /// The process could not be spawned.
    SpawnFailed,
    /// The process ended by itself, with the given status.
    Exited { status: S, success: bool },
    /// The process was told to end, and did so with the given status.
    Cancelled { status: S },
}

/// The attempts at running a scheduler.
#[derive(Debug)]
pub struct Attempts<S> {
    /// Attempts that failed.
    pub failed: u32,
    /// Status of the last process that ended.
    pub last_status: Option<S>,
}

/// Whether an attempt ended in a failure, which asks for another.
pub open spec fn attempt_failed<S>(end: AttemptEnd<S>) -> bool {
    match end {
        AttemptEnd::SpawnFailed => true,
        AttemptEnd::Exited { success, .. } => !success,
        AttemptEnd::Cancelled { .. } => false,
    }
}

impl<S> Attempts<S> {
    /// No attempt has failed yet; the first is due.
    pub fn new() -> (attempts: Self)
        ensures
            attempts.failed == 0,
            attempts.last_status is None,
    {
        Attempts { failed: 0, last_status: None }
    }

    /// Whether a further attempt is possible.
    pub open spec fn wf(self) -> bool {
        self.failed < MAX_RETRIES
    }

    /// Takes note of how an attempt ended, and decides whether to make another:
    /// after a failure, as long as the limit is not reached.
    pub fn after(&mut self, end: AttemptEnd<S>) -> (again: bool)
        requires
            old(self).wf(),
        ensures
            final(self).last_status == match end {
                AttemptEnd::SpawnFailed => old(self).last_status,
                AttemptEnd::Exited { status, .. } => Some(status),
                AttemptEnd::Cancelled { status } => Some(status),
            },
            final(self).failed == old(self).failed + if attempt_failed(end) {
                1int
            } else {
                0int
            },
            again == (attempt_failed(end) && final(self).failed < MAX_RETRIES),
            again ==> final(self).wf(),
    {
        let failed = match end {
            AttemptEnd::SpawnFailed => true,
            AttemptEnd::Exited { status, success } => {
                self.last_status = Some(status);
                !success
            },
            AttemptEnd::Cancelled { status } => {
                self.last_status = Some(status);
                false
            },
        };
        if failed {
            self.failed += 1;
        }
        failed && self.failed < MAX_RETRIES
    }
}

/// The number of attempts that a row of endings takes: up to the first that
/// does not fail, and to the limit.
pub open spec fn attempts_made<S>(ends: Seq<AttemptEnd<S>>, failed: int) -> int
    decreases ends.len(),
{
    if ends.len() == 0 {
        0
    } else if attempt_failed(ends[0]) && failed + 1 < MAX_RETRIES {
        1 + attempts_made(ends.skip(1), failed + 1)
    } else {
        1
    }
}

/// However the attempts end, no more than the limit are made.
pub proof fn lemma_attempts_bounded<S>(ends: Seq<AttemptEnd<S>>, failed: int)
    requires
        0 <= failed < MAX_RETRIES,
    ensures
        0 <= attempts_made(ends, failed) <= MAX_RETRIES - failed,
    decreases ends.len(),
{
    if ends.len() > 0 && attempt_failed(ends[0]) && failed + 1 < MAX_RETRIES {
        lemma_attempts_bounded(ends.skip(1), failed + 1);
    }
}

/// What the configuration gives for a scheduler and a mode.
pub type Flags = spec_fn(SupportedSched, SchedMode) -> Seq<Seq<char>>;

/// The message that a step of the worker brings to the runner.
pub open spec fn ordered(step: WorkerStep, flags: Flags) -> Option<RunnerModel> {
    match step {
        WorkerStep::Quit => None,
        WorkerStep::Send(msg) => Some(msg@),
        WorkerStep::LookUp { order, sched, mode } => Some(
            RunnerModel::Run(order, sched, flags(sched, mode)),
        ),
    }
}

/// Whether the job is what the loader reports: its scheduler, with its custom
/// arguments or with those that are configured for its mode.
pub open spec fn in_step(now: StateModel, job: Option<Job>, flags: Flags) -> bool {
    job == match (now.sched, now.args) {
        (Some(sched), Some(args)) => Some((sched, args)),
        (Some(sched), None) => Some((sched, flags(sched, now.mode))),
        (None, _) => None,
    }
}

/// What the loader reports is what the runner has as its job: a granted request
/// keeps the two in step. A start while there is a task is left out, since the
/// runner refuses it when the loader has already noted it.
pub proof fn lemma_requests_keep_step(
    a: StateModel,
    msg: MessageModel,
    b: StateModel,
    job: Option<Job>,
    flags: Flags,
    step: WorkerStep,
    plan: RunnerPlan,
)
    requires
        in_step(a, job, flags),
        tells(msg, a, b),
        answers(step, msg),
        plans(job is Some, ordered(step, flags)->0, plan),
        msg is StartSched || msg is StartSchedArgs ==> job is None,
    ensures
        ordered(step, flags) is Some,
        in_step(b, job_after(job, plan), flags),
{
}

/// The worker passes custom arguments on as they are and looks up those of a mode,
/// for the scheduler that the message names; it leaves its loop only where it is told
/// to.
pub proof fn lemma_worker_obeys(step: WorkerStep, msg: MessageModel, flags: Flags)
    requires
        answers(step, msg),
    ensures
        step is Quit <==> msg is Quit,
        match msg {
            MessageModel::Quit => true,
            MessageModel::StopSched => ordered(step, flags) == Some(RunnerModel::Stop),
            MessageModel::StartSched(sched, mode) => ordered(step, flags) == Some(
                RunnerModel::Run(RunOrder::Start, sched, flags(sched, mode)),
            ),
            MessageModel::StartSchedArgs(sched, args) => ordered(step, flags) == Some(
                RunnerModel::Run(RunOrder::Start, sched, args),
            ),
            MessageModel::SwitchSched(sched, mode) => ordered(step, flags) == Some(
                RunnerModel::Run(RunOrder::Switch, sched, flags(sched, mode)),
            ),
            MessageModel::SwitchSchedArgs(sched, args) => ordered(step, flags) == Some(
                RunnerModel::Run(RunOrder::Switch, sched, args),
            ),
            MessageModel::RestartSched(sched, args, mode) => ordered(step, flags) == Some(
                RunnerModel::Run(
                    RunOrder::Restart,
                    sched,
                    match args {
                        Some(args) => args,
                        None => flags(sched, mode),
                    },
                ),
            ),
        },
{
}

/// After a message the runner has the task that was ordered, and no other. A switch
/// and a restart end the task that is there; a stop leaves none; a start is refused
/// while there is one, and leaves that one alone.
pub proof fn lemma_runner_obeys(job: Option<Job>, msg: RunnerModel, plan: RunnerPlan)
    requires
        plans(job is Some, msg, plan),
    ensures
        msg is Stop ==> job_after(job, plan) is None,
        msg matches RunnerModel::Run(order, sched, args) ==> if order == RunOrder::Start
            && job is Some {
            job_after(job, plan) == job && plan.refused && !plan.stop
        } else {
            job_after(job, plan) == Some((sched, args)) && !plan.refused
        },
        plan.stop ==> job is Some,
        plan.start is Some && job is Some ==> plan.stop,
        plan.refused ==> plan.start is None,
        job_after(job, plan) == match plan.start {
            Some((sched, args)) => Some((sched, views(args@))),
            None => if plan.stop {
                None
            } else {
                job
            },
        },
{
}

/// An attempt failed exactly where the process could not be spawned, or ended by
/// itself without success. One that was told to end did not fail.
pub proof fn lemma_attempt_failed<S>(end: AttemptEnd<S>)
    ensures
        end is SpawnFailed ==> attempt_failed(end),
        end matches AttemptEnd::Exited { status, success } ==> (attempt_failed(end) <==> !success),
        end is Cancelled ==> !attempt_failed(end),
{
}

/// A scheduler that keeps failing is started five times; one that does not fail at
/// its `n`th attempt, the first five counted, is not started again.
pub proof fn lemma_attempts_counted<S>(ends: Seq<AttemptEnd<S>>, n: int)
    requires
        0 <= n < ends.len(),
        n < 5,
        forall|i: int| 0 <= i < n ==> attempt_failed(#[trigger] ends[i]),
    ensures
        !attempt_failed(ends[n]) ==> attempts_made(ends, 0) == n + 1,
        n == 4 ==> attempts_made(ends, 0) == 5,
{
    lemma_attempts_from(ends, n, 0);
}

proof fn lemma_attempts_from<S>(ends: Seq<AttemptEnd<S>>, n: int, failed: int)
    requires
        0 <= n < ends.len(),
        0 <= failed,
        n + failed < 5,
        forall|i: int| 0 <= i < n ==> attempt_failed(#[trigger] ends[i]),
    ensures
        !attempt_failed(ends[n]) ==> attempts_made(ends, failed) == n + 1,
        n + failed == 4 ==> attempts_made(ends, failed) == n + 1,
    decreases n,
{
    if n > 0 {
        assert(attempt_failed(ends[0]));
        let rest = ends.skip(1);
        assert forall|i: int| 0 <= i < n - 1 implies attempt_failed(#[trigger] rest[i]) by {
            assert(rest[i] == ends[i + 1]);
        }
        assert(rest[n - 1] == ends[n]);
        lemma_attempts_from(rest, n - 1, failed + 1);
    }
}

} // verus!
