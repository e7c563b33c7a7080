//! Starting a task and seeing it through.
//!
//! Both are machines: `action` says what outside work is due, and `on_reply`
//! takes what came of it. A reply that does not answer the pending action leaves
//! the machine as it is.
use crate::effect::{Action, Reply};
use crate::maid::{CodexRun, PreparedWorktree, TaskIntent};
use crate::task_limit::TaskStartDecision;
use vstd::prelude::*;

verus! {

// ---------------------------------------------------------------------------
// Starting
// ---------------------------------------------------------------------------
/// Whether a task was started or held back by the limit.
#[derive(Debug, Eq, PartialEq)]
pub enum TaskStartOutcome {
    Started(Box<TaskIntent>),
    Skipped,
}

#[derive(Debug, Eq, PartialEq)]
pub enum StartStage<E> {
    /// Asking the limit.
    Record { intent: TaskIntent },
    /// Showing on GitHub that work has begun.
    MarkStarted { intent: TaskIntent },
    Ended(Result<TaskStartOutcome, E>),
}

/// The start of one task.
#[derive(Debug, Eq, PartialEq)]
pub struct TaskStart<E> {
    pub stage: StartStage<E>,
}

impl<E> TaskStart<E> {
    pub open spec fn pending(self) -> Action {
        match self.stage {
            StartStage::Record { .. } => Action::RecordTaskStart,
            StartStage::MarkStarted { intent } => match intent {
                TaskIntent::Mention { mention, .. } => {
                    Action::MarkMentionStarted { mention: *mention }
                },
                TaskIntent::AutoReviewPullRequest { pr, .. } => {
                    Action::MarkPullRequestStarted { pr }
                },
            },
            StartStage::Ended(_) => Action::Nothing,
        }
    }

    pub open spec fn after(self, reply: Reply<E>) -> TaskStart<E> {
        let stage = match (self.stage, reply) {
            (StartStage::Ended(result), _) => StartStage::Ended(result),
            (_, Reply::Failed(error)) => StartStage::Ended(Err(error)),
            (StartStage::Record { intent }, Reply::Start(decision)) => match decision {
                TaskStartDecision::Recorded => StartStage::MarkStarted { intent },
                TaskStartDecision::AtLimit { .. } => {
                    StartStage::Ended(Ok(TaskStartOutcome::Skipped))
                },
            },
            (StartStage::MarkStarted { intent }, Reply::Done) => {
                StartStage::Ended(Ok(TaskStartOutcome::Started(Box::new(intent))))
            },
            (stage, _) => stage,
        };
        TaskStart { stage }
    }

    pub fn new(intent: TaskIntent) -> (r: TaskStart<E>)
        ensures
            r == (TaskStart::<E> { stage: StartStage::Record { intent } }),
    {
        TaskStart { stage: StartStage::Record { intent } }
    }

    pub fn action(&self) -> (r: Action)
        ensures
            r == self.pending(),
    {
        match &self.stage {
            StartStage::Record { .. } => Action::RecordTaskStart,
            StartStage::MarkStarted { intent } => match intent {
                TaskIntent::Mention { mention, .. } => {
                    Action::MarkMentionStarted { mention: (**mention).clone() }
                },
                TaskIntent::AutoReviewPullRequest { pr, .. } => {
                    Action::MarkPullRequestStarted { pr: pr.clone() }
                },
            },
            StartStage::Ended(_) => Action::Nothing,
        }
    }

    pub fn on_reply(self, reply: Reply<E>) -> (r: TaskStart<E>)
        ensures
            r == self.after(reply),
    {
        let stage = match (self.stage, reply) {
            (StartStage::Ended(result), _) => StartStage::Ended(result),
            (_, Reply::Failed(error)) => StartStage::Ended(Err(error)),
            (StartStage::Record { intent }, Reply::Start(decision)) => match decision {
                TaskStartDecision::Recorded => StartStage::MarkStarted { intent },
                TaskStartDecision::AtLimit { .. } => {
                    StartStage::Ended(Ok(TaskStartOutcome::Skipped))
                },
            },
            (StartStage::MarkStarted { intent }, Reply::Done) => {
                StartStage::Ended(Ok(TaskStartOutcome::Started(Box::new(intent))))
            },
            (stage, _) => stage,
        };
        TaskStart { stage }
    }
}

/// A start that has come through `replies`.
pub open spec fn start_over<E>(intent: TaskIntent, replies: Seq<Reply<E>>) -> TaskStart<E>
    decreases replies.len(),
{
    if replies.len() == 0 {
        TaskStart { stage: StartStage::Record { intent } }
    } else {
        start_over(intent, replies.drop_last()).after(replies.last())
    }
}

/// Nothing is marked as started on GitHub, and no task counts as started,
/// unless the limit has recorded the start. The task that starts is the one
/// that was asked for.
pub proof fn law_start_needs_a_recorded_start<E>(intent: TaskIntent, replies: Seq<Reply<E>>)
    ensures
        match start_over(intent, replies).stage {
            StartStage::Record { intent: same } => same == intent,
            StartStage::MarkStarted { intent: same } => {
                same == intent && replies.contains(Reply::Start(TaskStartDecision::Recorded))
            },
            StartStage::Ended(Ok(TaskStartOutcome::Started(same))) => {
                *same == intent && replies.contains(Reply::Start(TaskStartDecision::Recorded))
            },
            StartStage::Ended(_) => true,
        },
    decreases replies.len(),
{
    if replies.len() > 0 {
        let earlier = replies.drop_last();
        law_start_needs_a_recorded_start(intent, earlier);
        let recorded = Reply::<E>::Start(TaskStartDecision::Recorded);
        if earlier.contains(recorded) {
            let k = choose|k: int| 0 <= k < earlier.len() && earlier[k] == recorded;
            assert(replies[k] == recorded);
        }
        if replies.last() == recorded {
            assert(replies[replies.len() - 1] == recorded);
        }
    }
}

// ---------------------------------------------------------------------------
// Running
// ---------------------------------------------------------------------------
#[derive(Debug, Eq, PartialEq)]
pub enum RunStage<E> {
    Prepare,
    Run { worktree: PreparedWorktree },
    Post { worktree: PreparedWorktree, response: String },
    /// Noting that a handled mark is owed.
    Record { worktree: PreparedWorktree },
    Mark { worktree: PreparedWorktree },
    /// The mark is set: it is no longer owed.
    Forget { worktree: PreparedWorktree },
    CleanUp { worktree: PreparedWorktree, outcome: Result<(), E> },
    Ended(Result<(), E>),
}

/// The run of one started task: prepare a worktree, run Codex in it, post the
/// response, mark the work handled, clean the worktree up.
#[derive(Debug, Eq, PartialEq)]
pub struct TaskRun<E> {
    pub intent: TaskIntent,
    pub stage: RunStage<E>,
}

impl<E> TaskRun<E> {
    pub open spec fn pending(self) -> Action {
        match self.stage {
            RunStage::Prepare => Action::PrepareWorktree {
                target: self.intent.the_target(),
                task: self.intent.the_task(),
            },
            RunStage::Run { worktree } => {
                Action::RunCodex { worktree, task: self.intent.the_task() }
            },
            RunStage::Post { response, .. } => Action::PostComment {
                target: self.intent.the_target(),
                body: response,
            },
            RunStage::Record { .. } => Action::RecordMarker { marker: self.intent.the_marker() },
            RunStage::Mark { .. } => match self.intent {
                TaskIntent::Mention { mention, .. } => {
                    Action::MarkMentionHandled { mention: *mention }
                },
                TaskIntent::AutoReviewPullRequest { pr, .. } => {
                    Action::MarkPullRequestHandled { pr }
                },
            },
            RunStage::Forget { .. } => Action::RemoveMarker { marker: self.intent.the_marker() },
            RunStage::CleanUp { worktree, .. } => Action::CleanUp { worktree },
            RunStage::Ended(_) => Action::Nothing,
        }
    }

    /// A failure leads to the clean-up, and is what the run ends with even where
    /// the clean-up fails too. A mark that cannot be set is no failure: it stays
    /// owed.
    pub open spec fn after(self, reply: Reply<E>) -> TaskRun<E> {
        let stage = match (self.stage, reply) {
            (RunStage::Prepare, Reply::Worktree(worktree)) => RunStage::Run { worktree },
            (RunStage::Prepare, Reply::Failed(error)) => RunStage::Ended(Err(error)),
            (RunStage::Run { worktree }, Reply::Run(run)) => {
                RunStage::Post { worktree, response: run.response }
            },
            (RunStage::Run { worktree }, Reply::Failed(error)) => {
                RunStage::CleanUp { worktree, outcome: Err(error) }
            },
            (RunStage::Post { worktree, .. }, Reply::Done) => RunStage::Record { worktree },
            (RunStage::Post { worktree, .. }, Reply::Failed(error)) => {
                RunStage::CleanUp { worktree, outcome: Err(error) }
            },
            (RunStage::Record { worktree }, Reply::Done) => RunStage::Mark { worktree },
            (RunStage::Record { worktree }, Reply::Failed(error)) => {
                RunStage::CleanUp { worktree, outcome: Err(error) }
            },
            (RunStage::Mark { worktree }, Reply::Done) => RunStage::Forget { worktree },
            (RunStage::Mark { worktree }, Reply::Failed(_)) => {
                RunStage::CleanUp { worktree, outcome: Ok(()) }
            },
            (RunStage::Forget { worktree }, Reply::Done) => {
                RunStage::CleanUp { worktree, outcome: Ok(()) }
            },
            (RunStage::Forget { worktree }, Reply::Failed(error)) => {
                RunStage::CleanUp { worktree, outcome: Err(error) }
            },
            (RunStage::CleanUp { outcome, .. }, Reply::Done) => RunStage::Ended(outcome),
            (RunStage::CleanUp { outcome, .. }, Reply::Failed(error)) => {
                RunStage::Ended(
                    match outcome {
                        Ok(()) => Err(error),
                        Err(first) => Err(first),
                    },
                )
            },
            (stage, _) => stage,
        };
        TaskRun { intent: self.intent, stage }
    }

    pub fn new(intent: TaskIntent) -> (r: TaskRun<E>)
        ensures
            r == (TaskRun::<E> { intent, stage: RunStage::Prepare }),
    {
        TaskRun { intent, stage: RunStage::Prepare }
    }

    pub fn action(&self) -> (r: Action)
        ensures
            r == self.pending(),
    {
        match &self.stage {
            RunStage::Prepare => Action::PrepareWorktree {
                target: self.intent.target(),
                task: self.intent.task(),
            },
            RunStage::Run { worktree } => Action::RunCodex {
                worktree: worktree.clone(),
                task: self.intent.task(),
            },
            RunStage::Post { response, .. } => Action::PostComment {
                target: self.intent.target(),
                body: response.clone(),
            },
            RunStage::Record { .. } => Action::RecordMarker { marker: self.intent.marker() },
            RunStage::Mark { .. } => match &self.intent {
                TaskIntent::Mention { mention, .. } => {
                    Action::MarkMentionHandled { mention: (**mention).clone() }
                },
                TaskIntent::AutoReviewPullRequest { pr, .. } => {
                    Action::MarkPullRequestHandled { pr: pr.clone() }
                },
            },
            RunStage::Forget { .. } => Action::RemoveMarker { marker: self.intent.marker() },
            RunStage::CleanUp { worktree, .. } => Action::CleanUp { worktree: worktree.clone() },
            RunStage::Ended(_) => Action::Nothing,
        }
    }

    pub fn on_reply(self, reply: Reply<E>) -> (r: TaskRun<E>)
        ensures
            r == self.after(reply),
    {
        let stage = match (self.stage, reply) {
            (RunStage::Prepare, Reply::Worktree(worktree)) => RunStage::Run { worktree },
            (RunStage::Prepare, Reply::Failed(error)) => RunStage::Ended(Err(error)),
            (RunStage::Run { worktree }, Reply::Run(run)) => {
                RunStage::Post { worktree, response: run.response }
            },
            (RunStage::Run { worktree }, Reply::Failed(error)) => {
                RunStage::CleanUp { worktree, outcome: Err(error) }
            },
            (RunStage::Post { worktree, .. }, Reply::Done) => RunStage::Record { worktree },
            (RunStage::Post { worktree, .. }, Reply::Failed(error)) => {
                RunStage::CleanUp { worktree, outcome: Err(error) }
            },
            (RunStage::Record { worktree }, Reply::Done) => RunStage::Mark { worktree },
            (RunStage::Record { worktree }, Reply::Failed(error)) => {
                RunStage::CleanUp { worktree, outcome: Err(error) }
            },
            (RunStage::Mark { worktree }, Reply::Done) => RunStage::Forget { worktree },
            (RunStage::Mark { worktree }, Reply::Failed(_)) => {
                RunStage::CleanUp { worktree, outcome: Ok(()) }
            },
            (RunStage::Forget { worktree }, Reply::Done) => {
                RunStage::CleanUp { worktree, outcome: Ok(()) }
            },
            (RunStage::Forget { worktree }, Reply::Failed(error)) => {
                RunStage::CleanUp { worktree, outcome: Err(error) }
            },
            (RunStage::CleanUp { outcome, .. }, Reply::Done) => RunStage::Ended(outcome),
            (RunStage::CleanUp { outcome, .. }, Reply::Failed(error)) => {
                RunStage::Ended(
                    match outcome {
                        Ok(()) => Err(error),
                        Err(first) => Err(first),
                    },
                )
            },
            (stage, _) => stage,
        };
        TaskRun { intent: self.intent, stage }
    }
}

// ---------------------------------------------------------------------------
// What holds of every run
// ---------------------------------------------------------------------------
/// What a run has brought about, told from the actions it asked for and the
/// replies it got.
pub struct RunHistory {
    pub prepared: nat,
    /// The response of the last Codex run.
    pub response: Option<Seq<char>>,
    /// The comments that were posted.
    pub posted: Seq<Seq<char>>,
    /// The marker is in the ledger because of this run.
    pub owed: bool,
    pub marked: bool,
    pub mark_failed: bool,
    pub cleaned: nat,
}

impl RunHistory {
    pub open spec fn start() -> RunHistory {
        RunHistory {
            prepared: 0,
            response: None,
            posted: Seq::empty(),
            owed: false,
            marked: false,
            mark_failed: false,
            cleaned: 0,
        }
    }

    pub open spec fn extended<E>(self, action: Action, reply: Reply<E>) -> RunHistory {
        match (action, reply) {
            (Action::PrepareWorktree { .. }, Reply::Worktree(_)) => RunHistory {
                prepared: self.prepared + 1,
                ..self
            },
            (Action::RunCodex { .. }, Reply::Run(run)) => RunHistory {
                response: Some(run.response@),
                ..self
            },
            (Action::PostComment { body, .. }, Reply::Done) => RunHistory {
                posted: self.posted.push(body@),
                ..self
            },
            (Action::RecordMarker { .. }, Reply::Done) => RunHistory { owed: true, ..self },
            (Action::RemoveMarker { .. }, Reply::Done) => RunHistory { owed: false, ..self },
            (Action::MarkMentionHandled { .. }, Reply::Done) => RunHistory {
                marked: true,
                ..self
            },
            (Action::MarkPullRequestHandled { .. }, Reply::Done) => RunHistory {
                marked: true,
                ..self
            },
            (Action::MarkMentionHandled { .. }, Reply::Failed(_)) => RunHistory {
                mark_failed: true,
                ..self
            },
            (Action::MarkPullRequestHandled { .. }, Reply::Failed(_)) => RunHistory {
                mark_failed: true,
                ..self
            },
            (Action::CleanUp { .. }, Reply::Done) => RunHistory {
                cleaned: self.cleaned + 1,
                ..self
            },
            (Action::CleanUp { .. }, Reply::Failed(_)) => RunHistory {
                cleaned: self.cleaned + 1,
                ..self
            },
            _ => self,
        }
    }
}

/// A run that has come through `replies`.
pub open spec fn run_over<E>(intent: TaskIntent, replies: Seq<Reply<E>>) -> TaskRun<E>
    decreases replies.len(),
{
    if replies.len() == 0 {
        TaskRun { intent, stage: RunStage::Prepare }
    } else {
        run_over(intent, replies.drop_last()).after(replies.last())
    }
}

pub open spec fn history_over<E>(intent: TaskIntent, replies: Seq<Reply<E>>) -> RunHistory
    decreases replies.len(),
{
    if replies.len() == 0 {
        RunHistory::start()
    } else {
        history_over(intent, replies.drop_last()).extended(
            run_over(intent, replies.drop_last()).pending(),
            replies.last(),
        )
    }
}

/// What the stage of a run says of its history.
spec fn told_by_stage<E>(stage: RunStage<E>, h: RunHistory) -> bool {
    match stage {
        RunStage::Prepare => h == RunHistory::start(),
        RunStage::Run { .. } => h == (RunHistory { prepared: 1, ..RunHistory::start() }),
        RunStage::Post { response, .. } => h == (RunHistory {
            prepared: 1,
            response: Some(response@),
            ..RunHistory::start()
        }),
        RunStage::Record { .. } => {
            &&& h.prepared == 1 && h.cleaned == 0
            &&& h.response is Some && h.posted == seq![h.response->0]
            &&& !h.owed && !h.marked && !h.mark_failed
        },
        RunStage::Mark { .. } => {
            &&& h.prepared == 1 && h.cleaned == 0
            &&& h.response is Some && h.posted == seq![h.response->0]
            &&& h.owed && !h.marked && !h.mark_failed
        },
        RunStage::Forget { .. } => {
            &&& h.prepared == 1 && h.cleaned == 0
            &&& h.response is Some && h.posted == seq![h.response->0]
            &&& h.owed && h.marked && !h.mark_failed
        },
        RunStage::CleanUp { outcome, .. } => {
            &&& h.prepared == 1 && h.cleaned == 0
            &&& told_by_outcome(outcome is Ok, h)
        },
        RunStage::Ended(result) => {
            &&& h.prepared == h.cleaned && h.cleaned <= 1
            &&& told_by_outcome(result is Ok, h)
        },
    }
}

spec fn told_by_outcome(ok: bool, h: RunHistory) -> bool {
    &&& h.posted.len() <= 1
    &&& h.posted.len() == 1 ==> h.response is Some && h.posted[0] == h.response->0
    &&& h.marked || h.mark_failed || h.owed ==> h.posted.len() == 1
    &&& h.mark_failed ==> h.owed && !h.marked
    &&& ok ==> h.posted.len() == 1 && (h.marked != h.mark_failed) && (h.owed == h.mark_failed)
}

proof fn lemma_stage_tells<E>(intent: TaskIntent, replies: Seq<Reply<E>>)
    ensures
        run_over(intent, replies).intent == intent,
        told_by_stage(run_over(intent, replies).stage, history_over(intent, replies)),
    decreases replies.len(),
{
    if replies.len() > 0 {
        let earlier = replies.drop_last();
        lemma_stage_tells(intent, earlier);
        let before = run_over(intent, earlier);
        let h = history_over(intent, earlier);
        let h2 = h.extended(before.pending(), replies.last());
        if before.stage is Post && replies.last() is Done {
            assert(h2.posted =~= seq![h2.response->0]);
        }
    }
}

/// Whatever the replies: a comment is posted at most once, and what it says is
/// what Codex answered.
pub proof fn law_response_is_posted_at_most_once<E>(intent: TaskIntent, replies: Seq<Reply<E>>)
    ensures
        history_over(intent, replies).posted.len() <= 1,
        history_over(intent, replies).posted.len() == 1 ==> history_over(
            intent,
            replies,
        ).response == Some(history_over(intent, replies).posted[0]),
        run_over(intent, replies).pending() matches Action::PostComment { target, body } ==> target
            == intent.the_target() && history_over(intent, replies).response == Some(body@)
            && history_over(intent, replies).posted.len() == 0,
{
    lemma_stage_tells(intent, replies);
}

/// Whatever the replies: the work is marked handled only after the response was
/// posted and the owed mark was noted.
pub proof fn law_handled_mark_follows_the_response<E>(intent: TaskIntent, replies: Seq<Reply<E>>)
    ensures
        ({
            let run = run_over(intent, replies);
            let h = history_over(intent, replies);
            &&& run.pending() is MarkMentionHandled || run.pending() is MarkPullRequestHandled
                ==> h.posted.len() == 1 && h.owed
            &&& h.marked || h.mark_failed ==> h.posted.len() == 1
            &&& run.pending() is RemoveMarker ==> h.marked
        }),
{
    lemma_stage_tells(intent, replies);
}

/// Whatever the replies: a run that ends well has posted its response, and
/// still owes the handled mark exactly where setting it failed.
pub proof fn law_failed_mark_stays_owed<E>(intent: TaskIntent, replies: Seq<Reply<E>>)
    ensures
        run_over(intent, replies).stage == RunStage::<E>::Ended(Ok(())) ==> {
            let h = history_over(intent, replies);
            &&& h.posted.len() == 1
            &&& h.owed == h.mark_failed
            &&& h.marked == !h.mark_failed
        },
{
    lemma_stage_tells(intent, replies);
}

/// Whatever the replies: once a run has ended, each worktree that was prepared
/// for it has been cleaned up exactly once.
pub proof fn law_prepared_worktree_is_cleaned_up_once<E>(
    intent: TaskIntent,
    replies: Seq<Reply<E>>,
)
    ensures
        history_over(intent, replies).prepared <= 1,
        history_over(intent, replies).cleaned <= history_over(intent, replies).prepared,
        run_over(intent, replies).stage is Ended ==> history_over(intent, replies).cleaned
            == history_over(intent, replies).prepared,
{
    lemma_stage_tells(intent, replies);
}

/// A failure is what the run ends with, whether or not the clean-up fails too.
pub proof fn law_first_failure_is_reported<E>(run: TaskRun<E>, reply: Reply<E>, first: E)
    requires
        run.stage matches RunStage::CleanUp { outcome, .. } && outcome == Err::<(), E>(first),
        reply is Done || reply is Failed,
    ensures
        run.after(reply).stage == RunStage::Ended(Err::<(), E>(first)),
{
}

// ---------------------------------------------------------------------------
// The course of a task
// ---------------------------------------------------------------------------
/// A start first asks the limit. Where the start is recorded, GitHub is shown on
/// the comment or pull request itself that work has begun, and the task is
/// started; where the limit is reached, it is skipped and nothing is shown.
pub proof fn law_course_of_a_start<E>(intent: TaskIntent, limit: usize, window: u64, error: E)
    ensures
        ({
            let begun = TaskStart::<E> { stage: StartStage::Record { intent } };
            let recorded = begun.after(Reply::Start(TaskStartDecision::Recorded));
            let held = begun.after(Reply::Start(TaskStartDecision::AtLimit { limit, window }));
            &&& begun.pending() == Action::RecordTaskStart
            &&& recorded.pending() == (match intent {
                TaskIntent::Mention { mention, .. } => {
                    Action::MarkMentionStarted { mention: *mention }
                },
                TaskIntent::AutoReviewPullRequest { pr, .. } => {
                    Action::MarkPullRequestStarted { pr }
                },
            })
            &&& recorded.after(Reply::Done).stage == StartStage::<E>::Ended(
                Ok(TaskStartOutcome::Started(Box::new(intent))),
            )
            &&& held.stage == StartStage::<E>::Ended(Ok(TaskStartOutcome::Skipped))
            &&& begun.after(Reply::Failed(error)).stage == StartStage::<E>::Ended(Err(error))
            &&& recorded.after(Reply::Failed(error)).stage == StartStage::<E>::Ended(Err(error))
        }),
{
}

/// A task that nothing goes wrong with: a worktree is prepared for its target, Codex
/// runs in that worktree, the answer is posted on the target, the mark is noted as
/// owed, set, and forgotten, and the same worktree is cleaned up.
pub proof fn law_course_of_a_task<E>(
    intent: TaskIntent,
    worktree: PreparedWorktree,
    answer: CodexRun,
)
    ensures
        ({
            let begun = TaskRun::<E> { intent, stage: RunStage::Prepare };
            let prepared = begun.after(Reply::Worktree(worktree));
            let answered = prepared.after(Reply::Run(answer));
            let posted = answered.after(Reply::Done);
            let noted = posted.after(Reply::Done);
            let marked = noted.after(Reply::Done);
            let forgotten = marked.after(Reply::Done);
            &&& begun.pending() == (Action::PrepareWorktree {
                target: intent.the_target(),
                task: intent.the_task(),
            })
            &&& prepared.pending() == (Action::RunCodex { worktree, task: intent.the_task() })
            &&& answered.pending() == (Action::PostComment {
                target: intent.the_target(),
                body: answer.response,
            })
            &&& posted.pending() == (Action::RecordMarker { marker: intent.the_marker() })
            &&& noted.pending() == (match intent {
                TaskIntent::Mention { mention, .. } => {
                    Action::MarkMentionHandled { mention: *mention }
                },
                TaskIntent::AutoReviewPullRequest { pr, .. } => {
                    Action::MarkPullRequestHandled { pr }
                },
            })
            &&& marked.pending() == (Action::RemoveMarker { marker: intent.the_marker() })
            &&& forgotten.pending() == (Action::CleanUp { worktree })
            &&& forgotten.after(Reply::Done).stage == RunStage::<E>::Ended(Ok(()))
        }),
{
}

/// Where a step fails once the worktree is prepared, that very worktree is cleaned
/// up, and the failure is the result; but a mark that cannot be set is none. A
/// clean-up that fails by itself is a failure too.
pub proof fn law_failures_lead_to_the_clean_up<E>(
    run: TaskRun<E>,
    worktree: PreparedWorktree,
    response: String,
    error: E,
)
    ensures
        ({
            let failed = run.after(Reply::Failed(error));
            &&& run.stage == (RunStage::<E>::Run { worktree }) || run.stage == (
            RunStage::<E>::Post { worktree, response }) || run.stage == (RunStage::<E>::Record {
                worktree,
            }) || run.stage == (RunStage::<E>::Forget { worktree }) ==> {
                &&& failed.pending() == (Action::CleanUp { worktree })
                &&& failed.after(Reply::Done).stage == RunStage::<E>::Ended(Err(error))
            }
            &&& run.stage == (RunStage::<E>::Mark { worktree }) ==> {
                &&& failed.pending() == (Action::CleanUp { worktree })
                &&& failed.after(Reply::Done).stage == RunStage::<E>::Ended(Ok(()))
            }
            &&& run.stage is Prepare ==> failed.stage == RunStage::<E>::Ended(Err(error))
            &&& run.stage == (RunStage::<E>::CleanUp { worktree, outcome: Ok(()) })
                ==> failed.stage == RunStage::<E>::Ended(Err(error))
        }),
{
}

/// A start and a task go on only with a reply to what they asked for, and once they
/// have ended nothing changes them.
pub proof fn law_tasks_go_on_with_answers_only<E>(
    start: TaskStart<E>,
    run: TaskRun<E>,
    reply: Reply<E>,
)
    ensures
        !crate::effect::answers(start.pending(), reply) ==> start.after(reply) == start,
        !crate::effect::answers(run.pending(), reply) ==> run.after(reply) == run,
        start.stage is Ended ==> start.after(reply) == start && start.pending() is Nothing,
        run.stage is Ended ==> run.after(reply) == run && run.pending() is Nothing,
        run.after(reply).intent == run.intent,
{
}

} // verus!
