//! One poll: the owed marks, then the notifications, then the open pull
//! requests of the repositories that are reviewed unasked, then those of the
//! accounts that are reviewed unasked in any public repository.
//!
//! Both parts are machines: `action` says what is due, and `on_reply` takes what
//! came of it. A reply that does not answer the pending action leaves the machine
//! as it is.
use crate::assessment::ScanStage;
use crate::domain::{FoundPullRequest, Notification, PullRequest, RepoSlug, TrustedAccount};
use crate::effect::{Action, Reply};
use crate::handled_marker::PendingHandledMarker;
use crate::maid::{ConcurrentMaid, Maid, PollReport, ReviewScope, TaskAssessment, TaskIntent};
use crate::task_run::TaskStartOutcome;
use crate::{assessment, domain, maid, text};
use vstd::prelude::*;

verus! {

// ---------------------------------------------------------------------------
// Owed marks
// ---------------------------------------------------------------------------
#[derive(Debug, Eq, PartialEq)]
pub enum RetryStage<E> {
    List,
    Mark { markers: Vec<PendingHandledMarker>, at: usize },
    Remove { markers: Vec<PendingHandledMarker>, at: usize },
    Ended(Result<(), E>),
}

/// Sets the handled marks that are owed, one after the other. The first failure
/// ends it.
#[derive(Debug, Eq, PartialEq)]
pub struct MarkerRetry<E> {
    pub stage: RetryStage<E>,
}

impl<E> MarkerRetry<E> {
    pub open spec fn pending(self) -> Action {
        match self.stage {
            RetryStage::List => Action::PendingMarkers,
            RetryStage::Mark { markers, at } if at < markers@.len() => match markers@[at as int] {
                PendingHandledMarker::Mention { api_url } => {
                    Action::MarkMentionApiUrlHandled { api_url }
                },
                PendingHandledMarker::PullRequest { html_url } => {
                    Action::MarkPullRequestHtmlUrlHandled { html_url }
                },
            },
            RetryStage::Remove { markers, at } if at < markers@.len() => {
                Action::RemoveMarker { marker: markers@[at as int] }
            },
            _ => Action::Nothing,
        }
    }

    /// The stage at which the marker at `at` is due.
    pub open spec fn due(markers: Vec<PendingHandledMarker>, at: int) -> RetryStage<E> {
        if at < markers@.len() {
            RetryStage::Mark { markers, at: at as usize }
        } else {
            RetryStage::Ended(Ok(()))
        }
    }

    pub open spec fn after(self, reply: Reply<E>) -> MarkerRetry<E> {
        let stage = match (self.stage, reply) {
            (RetryStage::Ended(result), _) => RetryStage::Ended(result),
            (_, Reply::Failed(error)) => RetryStage::Ended(Err(error)),
            (RetryStage::List, Reply::Markers(markers)) => MarkerRetry::<E>::due(markers, 0),
            (RetryStage::Mark { markers, at }, Reply::Done) => RetryStage::Remove { markers, at },
            (RetryStage::Remove { markers, at }, Reply::Done) => {
                MarkerRetry::<E>::due(markers, at + 1)
            },
            (stage, _) => stage,
        };
        MarkerRetry { stage }
    }

    pub fn new() -> (r: MarkerRetry<E>)
        ensures
            r == (MarkerRetry::<E> { stage: RetryStage::List }),
    {
        MarkerRetry { stage: RetryStage::List }
    }

    pub fn action(&self) -> (r: Action)
        ensures
            r == self.pending(),
    {
        match &self.stage {
            RetryStage::List => Action::PendingMarkers,
            RetryStage::Mark { markers, at } => {
                if *at < markers.len() {
                    match &markers[*at] {
                        PendingHandledMarker::Mention { api_url } => {
                            Action::MarkMentionApiUrlHandled { api_url: api_url.clone() }
                        },
                        PendingHandledMarker::PullRequest { html_url } => {
                            Action::MarkPullRequestHtmlUrlHandled { html_url: html_url.clone() }
                        },
                    }
                } else {
                    Action::Nothing
                }
            },
            RetryStage::Remove { markers, at } => {
                if *at < markers.len() {
                    Action::RemoveMarker { marker: markers[*at].clone() }
                } else {
                    Action::Nothing
                }
            },
            RetryStage::Ended(_) => Action::Nothing,
        }
    }

    pub fn on_reply(self, reply: Reply<E>) -> (r: MarkerRetry<E>)
        ensures
            r == self.after(reply),
    {
        let stage = match (self.stage, reply) {
            (RetryStage::Ended(result), _) => RetryStage::Ended(result),
            (_, Reply::Failed(error)) => RetryStage::Ended(Err(error)),
            (RetryStage::List, Reply::Markers(markers)) => {
                if markers.len() > 0 {
                    RetryStage::Mark { markers, at: 0 }
                } else {
                    RetryStage::Ended(Ok(()))
                }
            },
            (RetryStage::Mark { markers, at }, Reply::Done) => RetryStage::Remove { markers, at },
            (RetryStage::Remove { markers, at }, Reply::Done) => {
                let count: usize = markers.len();
                if at < count && at + 1 < count {
                    RetryStage::Mark { markers, at: at + 1 }
                } else {
                    RetryStage::Ended(Ok(()))
                }
            },
            (stage, _) => stage,
        };
        MarkerRetry { stage }
    }
}

/// Each owed mark is set before its marker is removed, and the marks come in
/// the order in which they were listed. No Codex run has any part in it.
pub proof fn law_owed_marks_are_set_before_they_are_forgotten<E>(
    markers: Vec<PendingHandledMarker>,
    at: usize,
)
    requires
        at < markers@.len(),
    ensures
        ({
            let mark = MarkerRetry::<E> { stage: RetryStage::Mark { markers, at } };
            let removal = mark.after(Reply::Done);
            let next = removal.after(Reply::Done);
            &&& mark.pending() == (match markers@[at as int] {
                PendingHandledMarker::Mention { api_url } => {
                    Action::MarkMentionApiUrlHandled { api_url }
                },
                PendingHandledMarker::PullRequest { html_url } => {
                    Action::MarkPullRequestHtmlUrlHandled { html_url }
                },
            })
            &&& removal.pending() == (Action::RemoveMarker { marker: markers@[at as int] })
            &&& next.stage == MarkerRetry::<E>::due(markers, at + 1)
        }),
{
}

// ---------------------------------------------------------------------------
// Polls
// ---------------------------------------------------------------------------
/// Whether tasks are seen through within the poll, or handed off.
#[derive(Clone, Copy, Debug, Eq, PartialEq, Structural)]
pub enum PollMode {
    Sequential,
    Concurrent,
}

/// What a poll wants done next.
#[derive(Debug, Eq, PartialEq)]
pub enum PollAction {
    /// There is nothing left to do.
    Nothing,
    /// Set the handled marks that are owed.
    RetryMarkers,
    ListNotifications,
    AssessNotification { notification: Notification },
    ListPullRequests { repo: RepoSlug },
    /// Look for the account's open pull requests across GitHub.
    SearchPullRequests { account: TrustedAccount },
    AssessPullRequest { pr: PullRequest, scope: ReviewScope },
    /// Take a slot for the task.
    Reserve { intent: TaskIntent },
    /// Give the slot of the task back.
    Release { intent: TaskIntent },
    Start { intent: TaskIntent },
    /// See the task through.
    Finish { intent: TaskIntent },
    /// Hand the task off; its slot goes with it.
    Spawn { intent: TaskIntent },
    /// Count the tasks at work.
    CountInFlight,
}

/// What came of it; `E` says why it failed.
#[derive(Debug, Eq, PartialEq)]
pub enum PollReply<E> {
    Failed(E),
    Done,
    Notifications(Vec<Notification>),
    Assessments(Vec<TaskAssessment>),
    PullRequests(Vec<PullRequest>),
    Found(Vec<FoundPullRequest>),
    Assessment(TaskAssessment),
    Reserved(bool),
    Outcome(TaskStartOutcome),
    InFlight(usize),
}

#[derive(Debug, Eq, PartialEq)]
pub enum PollStage<E> {
    RetryMarkers,
    ListNotifications,
    AssessNotification,
    ListPullRequests,
    AssessPullRequest,
    SearchPullRequests,
    AssessFound,
    Reserve { intent: TaskIntent },
    Release { intent: TaskIntent },
    Start { intent: TaskIntent },
    Finish { intent: TaskIntent },
    Spawn { intent: TaskIntent },
    CountInFlight,
    Ended(Result<PollReport, E>),
}

#[derive(Debug, Eq, PartialEq)]
pub struct Poll<E> {
    pub mode: PollMode,
    pub report: PollReport,
    pub notifications: Vec<Notification>,
    /// The notification that is being looked at, or the next one.
    pub next_notification: usize,
    pub assessments: Vec<TaskAssessment>,
    /// The next assessment of the present notification.
    pub next_assessment: usize,
    pub repos: Vec<RepoSlug>,
    /// The repository whose pull requests are listed next.
    pub next_repo: usize,
    pub pull_requests: Vec<PullRequest>,
    /// The pull request that is being looked at, or the next one.
    pub next_pull_request: usize,
    pub accounts: Vec<TrustedAccount>,
    /// The account whose pull requests are looked for next.
    pub next_account: usize,
    pub found: Vec<FoundPullRequest>,
    /// The found pull request that is being looked at, or the next one.
    pub next_found: usize,
    pub stage: PollStage<E>,
}

/// Whether an earlier notification has the work key of the one at `at`.
pub open spec fn is_repeated(notifications: Seq<Notification>, at: int) -> bool {
    exists|i: int|
        0 <= i < at && maid::work_key_text(#[trigger] notifications[i]) == maid::work_key_text(
            notifications[at],
        )
}

/// The first notification from `at` on whose work key is new.
pub open spec fn next_fresh(notifications: Seq<Notification>, at: int) -> int
    decreases notifications.len() - at,
{
    if 0 <= at < notifications.len() && is_repeated(notifications, at) {
        next_fresh(notifications, at + 1)
    } else {
        at
    }
}

/// The first assessment from `at` on that is a task to start.
pub open spec fn next_ready(assessments: Seq<TaskAssessment>, at: int) -> int
    decreases assessments.len() - at,
{
    if 0 <= at < assessments.len() && assessments[at] is Skipped {
        next_ready(assessments, at + 1)
    } else {
        at
    }
}

/// The first found pull request from `at` on whose base repository is public.
pub open spec fn next_public(found: Seq<FoundPullRequest>, at: int) -> int
    decreases found.len() - at,
{
    if 0 <= at < found.len() && found[at].base_private {
        next_public(found, at + 1)
    } else {
        at
    }
}

impl<E> Poll<E> {
    pub open spec fn skipping(self, count: int) -> Poll<E> {
        Poll {
            report: PollReport {
                skipped: (self.report.skipped + count) as usize,
                ..self.report
            },
            ..self
        }
    }

    pub open spec fn failing(self) -> Poll<E> {
        Poll {
            report: PollReport { failed: (self.report.failed + 1) as usize, ..self.report },
            ..self
        }
    }

    /// Takes a task on: at once, or once there is a slot for it.
    pub open spec fn taking_on(self, intent: TaskIntent) -> Poll<E> {
        Poll {
            stage: match self.mode {
                PollMode::Sequential => PollStage::Start { intent },
                PollMode::Concurrent => PollStage::Reserve { intent },
            },
            ..self
        }
    }

    /// A task that was not started gives its slot back, where it has one.
    pub open spec fn not_started(self, intent: TaskIntent) -> Poll<E> {
        match self.mode {
            PollMode::Sequential => self.settled(),
            PollMode::Concurrent => Poll { stage: PollStage::Release { intent }, ..self },
        }
    }

    /// Goes on to the next thing that needs doing: the next task of the present
    /// notification, the next notification with a new work key, the next pull
    /// request, the next repository, the next found pull request, the next
    /// account. What is passed over counts as skipped.
    pub open spec fn settled(self) -> Poll<E> {
        let ready = next_ready(self.assessments@, self.next_assessment as int);
        let passed = self.skipping(ready - self.next_assessment);
        if ready < self.assessments@.len() {
            match self.assessments@[ready] {
                TaskAssessment::Ready(intent) => Poll {
                    next_assessment: (ready + 1) as usize,
                    ..passed
                }.taking_on(*intent),
                TaskAssessment::Skipped => passed.between_notifications(),
            }
        } else {
            Poll { next_assessment: ready as usize, ..passed }.between_notifications()
        }
    }

    pub open spec fn between_notifications(self) -> Poll<E> {
        let fresh = next_fresh(self.notifications@, self.next_notification as int);
        let passed = Poll { next_notification: fresh as usize, ..self }.skipping(
            fresh - self.next_notification,
        );
        if fresh < self.notifications@.len() {
            Poll { stage: PollStage::AssessNotification, ..passed }
        } else if self.next_pull_request < self.pull_requests@.len() {
            Poll { stage: PollStage::AssessPullRequest, ..passed }
        } else if self.next_repo < self.repos@.len() {
            Poll { stage: PollStage::ListPullRequests, ..passed }
        } else {
            passed.beyond_repositories()
        }
    }

    /// A found pull request into a private repository is passed over.
    pub open spec fn beyond_repositories(self) -> Poll<E> {
        let public = next_public(self.found@, self.next_found as int);
        let passed = Poll { next_found: public as usize, ..self }.skipping(
            public - self.next_found,
        );
        Poll {
            stage: if public < self.found@.len() {
                PollStage::AssessFound
            } else if self.next_account < self.accounts@.len() {
                PollStage::SearchPullRequests
            } else {
                match self.mode {
                    PollMode::Sequential => PollStage::Ended(Ok(passed.report)),
                    PollMode::Concurrent => PollStage::CountInFlight,
                }
            },
            ..passed
        }
    }

    pub open spec fn pending(self) -> PollAction {
        match self.stage {
            PollStage::RetryMarkers => PollAction::RetryMarkers,
            PollStage::ListNotifications => PollAction::ListNotifications,
            PollStage::AssessNotification if self.next_notification < self.notifications@.len() => {
                PollAction::AssessNotification {
                    notification: self.notifications@[self.next_notification as int],
                }
            },
            PollStage::ListPullRequests if self.next_repo < self.repos@.len() => {
                PollAction::ListPullRequests { repo: self.repos@[self.next_repo as int] }
            },
            PollStage::AssessPullRequest if self.next_pull_request < self.pull_requests@.len() => {
                PollAction::AssessPullRequest {
                    pr: self.pull_requests@[self.next_pull_request as int],
                    scope: ReviewScope::Repository,
                }
            },
            PollStage::SearchPullRequests if self.next_account < self.accounts@.len() => {
                PollAction::SearchPullRequests {
                    account: self.accounts@[self.next_account as int],
                }
            },
            PollStage::AssessFound if self.next_found < self.found@.len() => {
                PollAction::AssessPullRequest {
                    pr: self.found@[self.next_found as int].pr,
                    scope: ReviewScope::PublicAccount,
                }
            },
            PollStage::Reserve { intent } => PollAction::Reserve { intent },
            PollStage::Release { intent } => PollAction::Release { intent },
            PollStage::Start { intent } => PollAction::Start { intent },
            PollStage::Finish { intent } => PollAction::Finish { intent },
            PollStage::Spawn { intent } => PollAction::Spawn { intent },
            PollStage::CountInFlight => PollAction::CountInFlight,
            _ => PollAction::Nothing,
        }
    }

    /// A list that cannot be had, or an owed mark that cannot be set, ends the
    /// poll. Any other failure is counted, and the poll goes on.
    pub open spec fn after(self, reply: PollReply<E>) -> Poll<E> {
        match (self.stage, reply) {
            (PollStage::RetryMarkers, PollReply::Done) => {
                Poll { stage: PollStage::ListNotifications, ..self }
            },
            (PollStage::RetryMarkers, PollReply::Failed(error)) => {
                Poll { stage: PollStage::Ended(Err(error)), ..self }
            },
            (PollStage::ListNotifications, PollReply::Failed(error)) => {
                Poll { stage: PollStage::Ended(Err(error)), ..self }
            },
            (PollStage::ListPullRequests, PollReply::Failed(error)) => {
                Poll { stage: PollStage::Ended(Err(error)), ..self }
            },
            (PollStage::SearchPullRequests, PollReply::Failed(error)) => {
                Poll { stage: PollStage::Ended(Err(error)), ..self }
            },
            (PollStage::ListNotifications, PollReply::Notifications(notifications)) => Poll {
                report: PollReport {
                    seen: (self.report.seen + notifications@.len()) as usize,
                    ..self.report
                },
                notifications,
                next_notification: 0,
                ..self
            }.settled(),
            (PollStage::AssessNotification, PollReply::Assessments(assessments)) => Poll {
                assessments,
                next_assessment: 0,
                next_notification: (self.next_notification + 1) as usize,
                ..self
            }.settled(),
            (PollStage::AssessNotification, PollReply::Failed(_)) => Poll {
                next_notification: (self.next_notification + 1) as usize,
                ..self.failing()
            }.settled(),
            (PollStage::ListPullRequests, PollReply::PullRequests(pull_requests)) => Poll {
                report: PollReport {
                    seen: (self.report.seen + pull_requests@.len()) as usize,
                    ..self.report
                },
                pull_requests,
                next_pull_request: 0,
                next_repo: (self.next_repo + 1) as usize,
                ..self
            }.settled(),
            (PollStage::AssessPullRequest, PollReply::Assessment(assessment)) => {
                let next = Poll {
                    next_pull_request: (self.next_pull_request + 1) as usize,
                    ..self
                };
                match assessment {
                    TaskAssessment::Ready(intent) => next.taking_on(*intent),
                    TaskAssessment::Skipped => next.skipping(1).settled(),
                }
            },
            (PollStage::AssessPullRequest, PollReply::Failed(_)) => Poll {
                next_pull_request: (self.next_pull_request + 1) as usize,
                ..self.failing()
            }.settled(),
            (PollStage::SearchPullRequests, PollReply::Found(found)) => Poll {
                report: PollReport {
                    seen: (self.report.seen + found@.len()) as usize,
                    ..self.report
                },
                found,
                next_found: 0,
                next_account: (self.next_account + 1) as usize,
                ..self
            }.settled(),
            (PollStage::AssessFound, PollReply::Assessment(assessment)) => {
                let next = Poll { next_found: (self.next_found + 1) as usize, ..self };
                match assessment {
                    TaskAssessment::Ready(intent) => next.taking_on(*intent),
                    TaskAssessment::Skipped => next.skipping(1).settled(),
                }
            },
            (PollStage::AssessFound, PollReply::Failed(_)) => Poll {
                next_found: (self.next_found + 1) as usize,
                ..self.failing()
            }.settled(),
            (PollStage::Reserve { intent }, PollReply::Reserved(reserved)) => {
                if reserved {
                    Poll { stage: PollStage::Start { intent }, ..self }
                } else {
                    self.skipping(1).settled()
                }
            },
            (PollStage::Start { .. }, PollReply::Outcome(TaskStartOutcome::Started(task))) => {
                match self.mode {
                    PollMode::Sequential => {
                        Poll { stage: PollStage::Finish { intent: *task }, ..self }
                    },
                    PollMode::Concurrent => Poll {
                        report: PollReport {
                            started: (self.report.started + 1) as usize,
                            ..self.report
                        },
                        stage: PollStage::Spawn { intent: *task },
                        ..self
                    },
                }
            },
            (PollStage::Start { intent }, PollReply::Outcome(TaskStartOutcome::Skipped)) => {
                self.skipping(1).not_started(intent)
            },
            (PollStage::Start { intent }, PollReply::Failed(_)) => {
                self.failing().not_started(intent)
            },
            (PollStage::Finish { .. }, PollReply::Done) => Poll {
                report: PollReport {
                    responded: (self.report.responded + 1) as usize,
                    ..self.report
                },
                ..self
            }.settled(),
            (PollStage::Finish { .. }, PollReply::Failed(_)) => self.failing().settled(),
            (PollStage::Spawn { .. }, PollReply::Done) => self.settled(),
            (PollStage::Release { .. }, PollReply::Done) => self.settled(),
            (PollStage::CountInFlight, PollReply::InFlight(count)) => {
                let report = PollReport { in_flight: count, ..self.report };
                Poll { report, stage: PollStage::Ended(Ok(report)), ..self }
            },
            _ => self,
        }
    }

    /// How many items a reply brings.
    pub open spec fn brought(reply: PollReply<E>) -> nat {
        match reply {
            PollReply::Notifications(list) => list@.len(),
            PollReply::Assessments(list) => list@.len(),
            PollReply::PullRequests(list) => list@.len(),
            PollReply::Found(list) => list@.len(),
            _ => 0,
        }
    }

    /// The counters have room for whatever a reply can add to them.
    pub open spec fn room(self, reply: PollReply<E>) -> bool {
        &&& self.report.seen + Poll::brought(reply) <= usize::MAX
        &&& self.report.failed < usize::MAX
        &&& self.report.started < usize::MAX
        &&& self.report.responded < usize::MAX
        &&& self.report.skipped + 1 + Poll::brought(reply) + self.assessments@.len()
            + self.notifications@.len() + self.found@.len() <= usize::MAX
    }

    /// A position never runs past the end of its list.
    pub open spec fn in_bounds(self) -> bool {
        &&& self.next_notification <= self.notifications@.len()
        &&& self.next_assessment <= self.assessments@.len()
        &&& self.next_repo <= self.repos@.len()
        &&& self.next_pull_request <= self.pull_requests@.len()
        &&& self.next_account <= self.accounts@.len()
        &&& self.next_found <= self.found@.len()
        &&& self.stage is AssessNotification ==> self.next_notification
            < self.notifications@.len()
        &&& self.stage is AssessPullRequest ==> self.next_pull_request
            < self.pull_requests@.len()
        &&& self.stage is ListPullRequests ==> self.next_repo < self.repos@.len()
        &&& self.stage is AssessFound ==> self.next_found < self.found@.len()
        &&& self.stage is SearchPullRequests ==> self.next_account < self.accounts@.len()
    }

    /// A poll at its beginning.
    pub open spec fn begins(
        self,
        mode: PollMode,
        repos: Seq<RepoSlug>,
        accounts: Seq<TrustedAccount>,
    ) -> bool {
        &&& self.mode == mode
        &&& self.repos@ == repos
        &&& self.accounts@ == accounts
        &&& self.report == (PollReport {
            seen: 0,
            skipped: 0,
            started: 0,
            responded: 0,
            failed: 0,
            in_flight: 0,
        })
        &&& self.notifications@.len() == 0
        &&& self.assessments@.len() == 0
        &&& self.pull_requests@.len() == 0
        &&& self.next_notification == 0
        &&& self.next_assessment == 0
        &&& self.next_repo == 0
        &&& self.next_pull_request == 0
        &&& self.found@.len() == 0
        &&& self.next_account == 0
        &&& self.next_found == 0
        &&& self.stage == (match mode {
            PollMode::Sequential => PollStage::<E>::RetryMarkers,
            PollMode::Concurrent => PollStage::<E>::ListNotifications,
        })
    }

    pub fn new(mode: PollMode, repos: Vec<RepoSlug>, accounts: Vec<TrustedAccount>) -> (r: Poll<E>)
        ensures
            r.in_bounds(),
            r.begins(mode, repos@, accounts@),
    {
        Poll {
            mode,
            report: PollReport::default(),
            notifications: Vec::new(),
            next_notification: 0,
            assessments: Vec::new(),
            next_assessment: 0,
            repos,
            next_repo: 0,
            pull_requests: Vec::new(),
            next_pull_request: 0,
            accounts,
            next_account: 0,
            found: Vec::new(),
            next_found: 0,
            stage: match mode {
                PollMode::Sequential => PollStage::RetryMarkers,
                PollMode::Concurrent => PollStage::ListNotifications,
            },
        }
    }

    pub fn action(&self) -> (r: PollAction)
        ensures
            r == self.pending(),
    {
        match &self.stage {
            PollStage::RetryMarkers => PollAction::RetryMarkers,
            PollStage::ListNotifications => PollAction::ListNotifications,
            PollStage::AssessNotification => {
                if self.next_notification < self.notifications.len() {
                    PollAction::AssessNotification {
                        notification: self.notifications[self.next_notification].clone(),
                    }
                } else {
                    PollAction::Nothing
                }
            },
            PollStage::ListPullRequests => {
                if self.next_repo < self.repos.len() {
                    PollAction::ListPullRequests { repo: self.repos[self.next_repo].clone() }
                } else {
                    PollAction::Nothing
                }
            },
            PollStage::AssessPullRequest => {
                if self.next_pull_request < self.pull_requests.len() {
                    PollAction::AssessPullRequest {
                        pr: self.pull_requests[self.next_pull_request].clone(),
                        scope: ReviewScope::Repository,
                    }
                } else {
                    PollAction::Nothing
                }
            },
            PollStage::SearchPullRequests => {
                if self.next_account < self.accounts.len() {
                    PollAction::SearchPullRequests {
                        account: self.accounts[self.next_account].clone(),
                    }
                } else {
                    PollAction::Nothing
                }
            },
            PollStage::AssessFound => {
                if self.next_found < self.found.len() {
                    PollAction::AssessPullRequest {
                        pr: self.found[self.next_found].pr.clone(),
                        scope: ReviewScope::PublicAccount,
                    }
                } else {
                    PollAction::Nothing
                }
            },
            PollStage::Reserve { intent } => PollAction::Reserve { intent: intent.clone() },
            PollStage::Release { intent } => PollAction::Release { intent: intent.clone() },
            PollStage::Start { intent } => PollAction::Start { intent: intent.clone() },
            PollStage::Finish { intent } => PollAction::Finish { intent: intent.clone() },
            PollStage::Spawn { intent } => PollAction::Spawn { intent: intent.clone() },
            PollStage::CountInFlight => PollAction::CountInFlight,
            PollStage::Ended(_) => PollAction::Nothing,
        }
    }

    /// Whether `on_reply` can take the reply: no counter would overflow.
    pub fn has_room(&self, reply: &PollReply<E>) -> (r: bool)
        ensures
            r == self.room(*reply),
    {
        let brought: usize = match reply {
            PollReply::Notifications(list) => list.len(),
            PollReply::Assessments(list) => list.len(),
            PollReply::PullRequests(list) => list.len(),
            PollReply::Found(list) => list.len(),
            _ => 0,
        };
        if self.report.seen > usize::MAX - brought || self.report.failed == usize::MAX
            || self.report.started == usize::MAX || self.report.responded == usize::MAX {
            return false;
        }
        match self.report.skipped.checked_add(1) {
            None => false,
            Some(a) => match a.checked_add(brought) {
                None => false,
                Some(b) => match b.checked_add(self.assessments.len()) {
                    None => false,
                    Some(c) => match c.checked_add(self.notifications.len()) {
                        None => false,
                        Some(d) => d.checked_add(self.found.len()).is_some(),
                    },
                },
            },
        }
    }

    fn repeats(notifications: &Vec<Notification>, at: usize) -> (r: bool)
        requires
            at < notifications@.len(),
        ensures
            r == is_repeated(notifications@, at as int),
    {
        let key = maid::work_key(&notifications[at]);
        let mut i: usize = 0;
        while i < at
            invariant
                i <= at < notifications@.len(),
                key@ == maid::work_key_text(notifications@[at as int]),
                forall|k: int|
                    0 <= k < i ==> maid::work_key_text(#[trigger] notifications@[k]) != key@,
            decreases at - i,
        {
            let other = maid::work_key(&notifications[i]);
            if text::same(other.as_str(), key.as_str()) {
                assert(maid::work_key_text(notifications@[i as int]) == key@);
                return true;
            }
            i = i + 1;
        }
        false
    }

    fn take_on(self, intent: TaskIntent) -> (r: Poll<E>)
        ensures
            r == self.taking_on(intent),
    {
        let stage = match self.mode {
            PollMode::Sequential => PollStage::Start { intent },
            PollMode::Concurrent => PollStage::Reserve { intent },
        };
        Poll { stage, ..self }
    }

    fn settle(self) -> (r: Poll<E>)
        requires
            self.next_notification <= self.notifications@.len(),
            self.next_assessment <= self.assessments@.len(),
            self.next_repo <= self.repos@.len(),
            self.next_pull_request <= self.pull_requests@.len(),
            self.next_account <= self.accounts@.len(),
            self.next_found <= self.found@.len(),
            self.report.skipped + self.assessments@.len() + self.notifications@.len()
                + self.found@.len() <= usize::MAX,
        ensures
            r == self.settled(),
            r.in_bounds(),
    {
        let mut ready: usize = self.next_assessment;
        let count: usize = self.assessments.len();
        while ready < count && self.assessments[ready].is_skipped()
            invariant
                count == self.assessments@.len(),
                self.next_assessment <= ready <= count,
                next_ready(self.assessments@, self.next_assessment as int) == next_ready(
                    self.assessments@,
                    ready as int,
                ),
            decreases count - ready,
        {
            ready = ready + 1;
        }
        let skipped: usize = self.report.skipped + (ready - self.next_assessment);
        let report = PollReport { skipped, ..self.report };
        if ready < count {
            let intent = match &self.assessments[ready] {
                TaskAssessment::Ready(intent) => Some((**intent).clone()),
                TaskAssessment::Skipped => None,
            };
            let passed = Poll { report, next_assessment: ready + 1, ..self };
            return match intent {
                Some(intent) => passed.take_on(intent),
                None => passed,
            };
        }
        let mut fresh: usize = self.next_notification;
        let total: usize = self.notifications.len();
        while fresh < total && Poll::<E>::repeats(&self.notifications, fresh)
            invariant
                total == self.notifications@.len(),
                self.next_notification <= fresh <= total,
                next_fresh(self.notifications@, self.next_notification as int) == next_fresh(
                    self.notifications@,
                    fresh as int,
                ),
            decreases total - fresh,
        {
            fresh = fresh + 1;
        }
        let skipped: usize = skipped + (fresh - self.next_notification);
        let report = PollReport { skipped, ..self.report };
        let next_pull_request: usize = self.next_pull_request;
        let more_pull_requests = next_pull_request < self.pull_requests.len();
        let more_repos = self.next_repo < self.repos.len();
        let passed = Poll { report, next_assessment: ready, next_notification: fresh, ..self };
        if fresh < total {
            Poll { stage: PollStage::AssessNotification, ..passed }
        } else if more_pull_requests {
            Poll { stage: PollStage::AssessPullRequest, ..passed }
        } else if more_repos {
            Poll { stage: PollStage::ListPullRequests, ..passed }
        } else {
            passed.pass_private()
        }
    }

    fn pass_private(self) -> (r: Poll<E>)
        requires
            self.next_found <= self.found@.len(),
            self.next_account <= self.accounts@.len(),
            self.report.skipped + self.found@.len() <= usize::MAX,
        ensures
            r == self.beyond_repositories(),
            self.next_found <= r.next_found <= r.found@.len(),
            r.stage is AssessFound ==> r.next_found < r.found@.len(),
            r.stage is SearchPullRequests ==> r.next_account < r.accounts@.len(),
            !(r.stage is AssessNotification) && !(r.stage is AssessPullRequest) && !(r.stage
                is ListPullRequests),
    {
        let mut public: usize = self.next_found;
        let total: usize = self.found.len();
        while public < total && self.found[public].base_private
            invariant
                total == self.found@.len(),
                self.next_found <= public <= total,
                next_public(self.found@, self.next_found as int) == next_public(
                    self.found@,
                    public as int,
                ),
            decreases total - public,
        {
            public = public + 1;
        }
        let skipped: usize = self.report.skipped + (public - self.next_found);
        let report = PollReport { skipped, ..self.report };
        let stage = if public < total {
            PollStage::AssessFound
        } else if self.next_account < self.accounts.len() {
            PollStage::SearchPullRequests
        } else {
            match self.mode {
                PollMode::Sequential => PollStage::Ended(Ok(report)),
                PollMode::Concurrent => PollStage::CountInFlight,
            }
        };
        Poll { report, next_found: public, stage, ..self }
    }

    fn drop_task(self, intent: TaskIntent) -> (r: Poll<E>)
        requires
            self.in_bounds(),
            self.report.skipped + self.assessments@.len() + self.notifications@.len()
                + self.found@.len() <= usize::MAX,
        ensures
            r == self.not_started(intent),
            r.in_bounds(),
    {
        match self.mode {
            PollMode::Sequential => self.settle(),
            PollMode::Concurrent => Poll { stage: PollStage::Release { intent }, ..self },
        }
    }

    fn fail(self) -> (r: Poll<E>)
        requires
            self.report.failed < usize::MAX,
        ensures
            r == self.failing(),
    {
        let report = PollReport { failed: self.report.failed + 1, ..self.report };
        Poll { report, ..self }
    }

    fn skip_one(self) -> (r: Poll<E>)
        requires
            self.report.skipped < usize::MAX,
        ensures
            r == self.skipping(1),
    {
        let report = PollReport { skipped: self.report.skipped + 1, ..self.report };
        Poll { report, ..self }
    }

    pub fn on_reply(self, reply: PollReply<E>) -> (r: Poll<E>)
        requires
            self.in_bounds(),
            self.room(reply),
        ensures
            r == self.after(reply),
            r.in_bounds(),
    {
        match (&self.stage, reply) {
            (PollStage::RetryMarkers, PollReply::Done) => {
                Poll { stage: PollStage::ListNotifications, ..self }
            },
            (PollStage::RetryMarkers, PollReply::Failed(error)) => {
                Poll { stage: PollStage::Ended(Err(error)), ..self }
            },
            (PollStage::ListNotifications, PollReply::Failed(error)) => {
                Poll { stage: PollStage::Ended(Err(error)), ..self }
            },
            (PollStage::ListPullRequests, PollReply::Failed(error)) => {
                Poll { stage: PollStage::Ended(Err(error)), ..self }
            },
            (PollStage::SearchPullRequests, PollReply::Failed(error)) => {
                Poll { stage: PollStage::Ended(Err(error)), ..self }
            },
            (PollStage::ListNotifications, PollReply::Notifications(notifications)) => {
                let report = PollReport {
                    seen: self.report.seen + notifications.len(),
                    ..self.report
                };
                Poll { report, notifications, next_notification: 0, ..self }.settle()
            },
            (PollStage::AssessNotification, PollReply::Assessments(assessments)) => {
                let next_notification: usize = self.next_notification + 1;
                Poll { assessments, next_assessment: 0, next_notification, ..self }.settle()
            },
            (PollStage::AssessNotification, PollReply::Failed(_)) => {
                let next_notification: usize = self.next_notification + 1;
                Poll { next_notification, ..self.fail() }.settle()
            },
            (PollStage::ListPullRequests, PollReply::PullRequests(pull_requests)) => {
                let report = PollReport {
                    seen: self.report.seen + pull_requests.len(),
                    ..self.report
                };
                assert(self.next_repo < self.repos.len());
                let next_repo: usize = self.next_repo + 1;
                Poll { report, pull_requests, next_pull_request: 0, next_repo, ..self }.settle()
            },
            (PollStage::AssessPullRequest, PollReply::Assessment(assessment)) => {
                assert(self.next_pull_request < self.pull_requests.len());
                let next_pull_request: usize = self.next_pull_request + 1;
                let next = Poll { next_pull_request, ..self };
                match assessment {
                    TaskAssessment::Ready(intent) => next.take_on(*intent),
                    TaskAssessment::Skipped => next.skip_one().settle(),
                }
            },
            (PollStage::AssessPullRequest, PollReply::Failed(_)) => {
                assert(self.next_pull_request < self.pull_requests.len());
                let next_pull_request: usize = self.next_pull_request + 1;
                Poll { next_pull_request, ..self.fail() }.settle()
            },
            (PollStage::SearchPullRequests, PollReply::Found(found)) => {
                let report = PollReport { seen: self.report.seen + found.len(), ..self.report };
                assert(self.next_account < self.accounts.len());
                let next_account: usize = self.next_account + 1;
                Poll { report, found, next_found: 0, next_account, ..self }.settle()
            },
            (PollStage::AssessFound, PollReply::Assessment(assessment)) => {
                assert(self.next_found < self.found.len());
                let next_found: usize = self.next_found + 1;
                let next = Poll { next_found, ..self };
                match assessment {
                    TaskAssessment::Ready(intent) => next.take_on(*intent),
                    TaskAssessment::Skipped => next.skip_one().settle(),
                }
            },
            (PollStage::AssessFound, PollReply::Failed(_)) => {
                assert(self.next_found < self.found.len());
                let next_found: usize = self.next_found + 1;
                Poll { next_found, ..self.fail() }.settle()
            },
            (PollStage::Reserve { intent }, PollReply::Reserved(reserved)) => {
                if reserved {
                    let intent = intent.clone();
                    Poll { stage: PollStage::Start { intent }, ..self }
                } else {
                    self.skip_one().settle()
                }
            },
            (PollStage::Start { .. }, PollReply::Outcome(TaskStartOutcome::Started(task))) => {
                match self.mode {
                    PollMode::Sequential => {
                        Poll { stage: PollStage::Finish { intent: *task }, ..self }
                    },
                    PollMode::Concurrent => {
                        let report = PollReport {
                            started: self.report.started + 1,
                            ..self.report
                        };
                        Poll { report, stage: PollStage::Spawn { intent: *task }, ..self }
                    },
                }
            },
            (PollStage::Start { intent }, PollReply::Outcome(TaskStartOutcome::Skipped)) => {
                let intent = intent.clone();
                self.skip_one().drop_task(intent)
            },
            (PollStage::Start { intent }, PollReply::Failed(_)) => {
                let intent = intent.clone();
                self.fail().drop_task(intent)
            },
            (PollStage::Finish { .. }, PollReply::Done) => {
                let report = PollReport { responded: self.report.responded + 1, ..self.report };
                Poll { report, ..self }.settle()
            },
            (PollStage::Finish { .. }, PollReply::Failed(_)) => self.fail().settle(),
            (PollStage::Spawn { .. }, PollReply::Done) => self.settle(),
            (PollStage::Release { .. }, PollReply::Done) => self.settle(),
            (PollStage::CountInFlight, PollReply::InFlight(count)) => {
                let report = PollReport { in_flight: count, ..self.report };
                Poll { report, stage: PollStage::Ended(Ok(report)), ..self }
            },
            _ => self,
        }
    }
}

impl Maid {
    /// Begins a poll that sees its tasks through.
    pub fn run_once<E>(&self) -> (r: Poll<E>)
        ensures
            r.in_bounds(),
            r.begins(
                PollMode::Sequential,
                self.auto_review_repos@,
                self.auto_review_public_accounts@,
            ),
    {
        Poll::new(
            PollMode::Sequential,
            domain::copied_repos(&self.auto_review_repos),
            domain::copied_accounts(&self.auto_review_public_accounts),
        )
    }
}

impl ConcurrentMaid {
    /// Begins a poll that hands its tasks off.
    pub fn run_once<E>(&self) -> (r: Poll<E>)
        ensures
            r.in_bounds(),
            r.begins(
                PollMode::Concurrent,
                self.maid.auto_review_repos@,
                self.maid.auto_review_public_accounts@,
            ),
    {
        Poll::new(
            PollMode::Concurrent,
            domain::copied_repos(&self.maid.auto_review_repos),
            domain::copied_accounts(&self.maid.auto_review_public_accounts),
        )
    }
}

// ---------------------------------------------------------------------------
// What holds of every poll
// ---------------------------------------------------------------------------
/// A poll after one reply. Opaque, so that an induction over the replies looks at
/// a step only where it says so.
#[verifier::opaque]
pub open spec fn stepped<E>(poll: Poll<E>, reply: PollReply<E>) -> Poll<E> {
    poll.after(reply)
}

/// A poll that has come from `start` through `replies`.
pub open spec fn poll_over<E>(start: Poll<E>, replies: Seq<PollReply<E>>) -> Poll<E>
    decreases replies.len(),
{
    if replies.len() == 0 {
        start
    } else {
        stepped(poll_over(start, replies.drop_last()), replies.last())
    }
}

/// `keys`, with the work key of the notification whose assessment the reply
/// brings.
pub open spec fn with_key_of<E>(
    keys: Seq<Seq<char>>,
    poll: Poll<E>,
    reply: PollReply<E>,
) -> Seq<Seq<char>> {
    match (poll.pending(), reply) {
        (PollAction::AssessNotification { notification }, PollReply::Assessments(_)) => {
            keys.push(maid::work_key_text(notification))
        },
        (PollAction::AssessNotification { notification }, PollReply::Failed(_)) => {
            keys.push(maid::work_key_text(notification))
        },
        _ => keys,
    }
}

/// The work keys of the notifications that were assessed on the way, in order.
pub open spec fn keys_looked_at<E>(start: Poll<E>, replies: Seq<PollReply<E>>) -> Seq<Seq<char>>
    decreases replies.len(),
{
    if replies.len() == 0 {
        Seq::empty()
    } else {
        let earlier = replies.drop_last();
        with_key_of(keys_looked_at(start, earlier), poll_over(start, earlier), replies.last())
    }
}

/// What a reply makes of `held` slots: one more is taken, given back or handed
/// off with its task.
pub open spec fn with_slot_of<E>(held: int, poll: Poll<E>, reply: PollReply<E>) -> int {
    match (poll.pending(), reply) {
        (PollAction::Reserve { .. }, PollReply::Reserved(true)) => held + 1,
        (PollAction::Release { .. }, PollReply::Done) => held - 1,
        (PollAction::Spawn { .. }, PollReply::Done) => held - 1,
        _ => held,
    }
}

/// How many slots were taken on the way and neither given back nor handed off.
pub open spec fn slots_held<E>(start: Poll<E>, replies: Seq<PollReply<E>>) -> int
    decreases replies.len(),
{
    if replies.len() == 0 {
        0
    } else {
        let earlier = replies.drop_last();
        with_slot_of(slots_held(start, earlier), poll_over(start, earlier), replies.last())
    }
}

proof fn lemma_next_fresh(notifications: Seq<Notification>, at: int)
    requires
        0 <= at <= notifications.len(),
    ensures
        ({
            let fresh = next_fresh(notifications, at);
            &&& at <= fresh <= notifications.len()
            &&& fresh < notifications.len() ==> !is_repeated(notifications, fresh)
            &&& forall|i: int| at <= i < fresh ==> #[trigger] is_repeated(notifications, i)
        }),
    decreases notifications.len() - at,
{
    if at < notifications.len() && is_repeated(notifications, at) {
        lemma_next_fresh(notifications, at + 1);
    }
}

proof fn lemma_next_ready(assessments: Seq<TaskAssessment>, at: int)
    requires
        0 <= at <= assessments.len(),
    ensures
        ({
            let ready = next_ready(assessments, at);
            &&& at <= ready <= assessments.len()
            &&& ready < assessments.len() ==> assessments[ready] is Ready
        }),
    decreases assessments.len() - at,
{
    if at < assessments.len() && assessments[at] is Skipped {
        lemma_next_ready(assessments, at + 1);
    }
}

proof fn lemma_next_public(found: Seq<FoundPullRequest>, at: int)
    requires
        0 <= at <= found.len(),
    ensures
        ({
            let public = next_public(found, at);
            &&& at <= public <= found.len()
            &&& public < found.len() ==> !found[public].base_private
        }),
    decreases found.len() - at,
{
    if at < found.len() && found[at].base_private {
        lemma_next_public(found, at + 1);
    }
}

/// The keys of the first `upto` notifications are those that were looked at.
spec fn keys_match(notifications: Seq<Notification>, upto: int, keys: Seq<Seq<char>>) -> bool {
    &&& keys.no_duplicates()
    &&& forall|i: int|
        0 <= i < upto ==> keys.contains(maid::work_key_text(#[trigger] notifications[i]))
    &&& forall|key: Seq<char>| #[trigger]
        keys.contains(key) ==> exists|i: int|
            0 <= i < upto && maid::work_key_text(#[trigger] notifications[i]) == key
}

/// Passing over repeated notifications adds no key.
proof fn lemma_repeats_match(
    notifications: Seq<Notification>,
    from: int,
    upto: int,
    keys: Seq<Seq<char>>,
)
    requires
        0 <= from <= upto <= notifications.len(),
        keys_match(notifications, from, keys),
        forall|i: int| from <= i < upto ==> #[trigger] is_repeated(notifications, i),
    ensures
        keys_match(notifications, upto, keys),
    decreases upto - from,
{
    if from < upto {
        assert(is_repeated(notifications, from));
        lemma_repeats_match(notifications, from + 1, upto, keys);
    }
}

/// A notification whose key is new adds that key.
proof fn lemma_fresh_matches(notifications: Seq<Notification>, at: int, keys: Seq<Seq<char>>)
    requires
        0 <= at < notifications.len(),
        keys_match(notifications, at, keys),
        !is_repeated(notifications, at),
    ensures
        keys_match(notifications, at + 1, keys.push(maid::work_key_text(notifications[at]))),
{
    let key = maid::work_key_text(notifications[at]);
    let more = keys.push(key);
    assert(!keys.contains(key));
    assert(more[keys.len() as int] == key);
    assert forall|k: Seq<char>| keys.contains(k) implies #[trigger] more.contains(k) by {
        let j = choose|j: int| 0 <= j < keys.len() && keys[j] == k;
        assert(more[j] == k);
    }
    assert forall|k: Seq<char>| #[trigger] more.contains(k) implies exists|i: int|
        0 <= i < at + 1 && maid::work_key_text(#[trigger] notifications[i]) == k by {
        if k != key {
            let j = choose|j: int| 0 <= j < more.len() && more[j] == k;
            assert(keys[j] == k);
            assert(keys.contains(k));
        }
    }
    assert(more.no_duplicates()) by {
        assert forall|i: int, j: int|
            0 <= i < more.len() && 0 <= j < more.len() && i != j implies more[i] != more[j] by {
            if i < keys.len() {
                assert(keys.contains(keys[i]));
            }
            if j < keys.len() {
                assert(keys.contains(keys[j]));
            }
        }
    }
}

/// How far through its lists a poll is at a stage.
spec fn told_by_lists<E>(poll: Poll<E>) -> bool {
    let no_assessment = poll.next_assessment == poll.assessments@.len();
    let no_notification = poll.next_notification == poll.notifications@.len();
    let no_pull_request = poll.next_pull_request == poll.pull_requests@.len();
    let no_repo = poll.next_repo == poll.repos@.len();
    let no_found = poll.next_found == poll.found@.len();
    let no_account = poll.next_account == poll.accounts@.len();
    match poll.stage {
        PollStage::RetryMarkers | PollStage::ListNotifications => {
            no_assessment && poll.notifications@.len() == 0
        },
        PollStage::AssessNotification => no_assessment && !is_repeated(
            poll.notifications@,
            poll.next_notification as int,
        ),
        PollStage::AssessPullRequest => no_assessment && no_notification,
        PollStage::ListPullRequests => no_assessment && no_notification && no_pull_request,
        PollStage::AssessFound => {
            &&& no_assessment && no_notification && no_pull_request && no_repo
            &&& !poll.found@[poll.next_found as int].base_private
        },
        PollStage::SearchPullRequests => {
            no_assessment && no_notification && no_pull_request && no_repo && no_found
        },
        PollStage::CountInFlight | PollStage::Ended(Ok(_)) => {
            no_assessment && no_notification && no_pull_request && no_repo && no_found
                && no_account
        },
        _ => true,
    }
}

/// What the stage of a poll says of the way it came.
#[verifier::opaque]
spec fn told_by_poll<E>(poll: Poll<E>, keys: Seq<Seq<char>>, held: int) -> bool {
    &&& poll.in_bounds()
    &&& told_by_lists(poll)
    &&& match poll.stage {
        PollStage::RetryMarkers | PollStage::ListNotifications => keys.len() == 0,
        PollStage::Ended(Err(_)) => keys.no_duplicates(),
        _ => keys_match(poll.notifications@, poll.next_notification as int, keys),
    }
    &&& held == (match poll.stage {
        PollStage::Start { .. } => if poll.mode == PollMode::Concurrent {
            1int
        } else {
            0
        },
        PollStage::Release { .. } | PollStage::Spawn { .. } => 1,
        _ => 0,
    })
    &&& poll.mode == PollMode::Sequential ==> poll.report.started == 0 && poll.report.in_flight == 0
        && !(poll.stage is Reserve)
        && !(poll.stage is Release) && !(poll.stage is Spawn) && !(poll.stage is CountInFlight)
    &&& poll.mode == PollMode::Concurrent ==> poll.report.responded == 0 && !(poll.stage is Finish)
    &&& poll.stage matches PollStage::Ended(Ok(report)) ==> report == poll.report
}

/// Settling keeps to what a stage says.
proof fn lemma_settled<E>(poll: Poll<E>, keys: Seq<Seq<char>>)
    requires
        poll.next_notification <= poll.notifications@.len(),
        poll.next_assessment <= poll.assessments@.len(),
        poll.next_repo <= poll.repos@.len(),
        poll.next_pull_request <= poll.pull_requests@.len(),
        poll.next_account <= poll.accounts@.len(),
        poll.next_found <= poll.found@.len(),
        keys_match(poll.notifications@, poll.next_notification as int, keys),
        poll.mode == PollMode::Sequential ==> poll.report.started == 0 && poll.report.in_flight
            == 0,
        poll.mode == PollMode::Concurrent ==> poll.report.responded == 0,
    ensures
        told_by_poll(poll.settled(), keys, 0),
{
    reveal(told_by_poll);
    assert(poll.notifications.len() == poll.notifications@.len());
    assert(poll.assessments.len() == poll.assessments@.len());
    let fresh = next_fresh(poll.notifications@, poll.next_notification as int);
    assert(poll.found.len() == poll.found@.len());
    lemma_next_ready(poll.assessments@, poll.next_assessment as int);
    lemma_next_public(poll.found@, poll.next_found as int);
    lemma_next_fresh(poll.notifications@, poll.next_notification as int);
    lemma_repeats_match(poll.notifications@, poll.next_notification as int, fresh, keys);
}

/// A reply keeps to what a stage says.
#[verifier::spinoff_prover]
#[verifier::rlimit(60)]
proof fn lemma_reply_tells<E>(poll: Poll<E>, keys: Seq<Seq<char>>, held: int, reply: PollReply<E>)
    requires
        told_by_poll(poll, keys, held),
    ensures
        told_by_poll(
            stepped(poll, reply),
            with_key_of(keys, poll, reply),
            with_slot_of(held, poll, reply),
        ),
        stepped(poll, reply).mode == poll.mode,
{
    reveal(told_by_poll);
    reveal(stepped);
    assert(poll.notifications.len() == poll.notifications@.len());
    assert(poll.repos.len() == poll.repos@.len());
    assert(poll.pull_requests.len() == poll.pull_requests@.len());
    assert(poll.accounts.len() == poll.accounts@.len());
    assert(poll.found.len() == poll.found@.len());
    match (poll.stage, reply) {
        (PollStage::ListNotifications, PollReply::Notifications(notifications)) => {
            assert(keys =~= Seq::empty());
            lemma_settled(
                Poll {
                    report: PollReport {
                        seen: (poll.report.seen + notifications@.len()) as usize,
                        ..poll.report
                    },
                    notifications,
                    next_notification: 0,
                    ..poll
                },
                keys,
            );
        },
        (PollStage::AssessNotification, PollReply::Assessments(assessments)) => {
            lemma_fresh_matches(poll.notifications@, poll.next_notification as int, keys);
            lemma_settled(
                Poll {
                    assessments,
                    next_assessment: 0,
                    next_notification: (poll.next_notification + 1) as usize,
                    ..poll
                },
                with_key_of(keys, poll, reply),
            );
        },
        (PollStage::AssessNotification, PollReply::Failed(_)) => {
            lemma_fresh_matches(poll.notifications@, poll.next_notification as int, keys);
            lemma_settled(
                Poll {
                    next_notification: (poll.next_notification + 1) as usize,
                    ..poll.failing()
                },
                with_key_of(keys, poll, reply),
            );
        },
        (PollStage::ListPullRequests, PollReply::PullRequests(pull_requests)) => {
            lemma_settled(
                Poll {
                    report: PollReport {
                        seen: (poll.report.seen + pull_requests@.len()) as usize,
                        ..poll.report
                    },
                    pull_requests,
                    next_pull_request: 0,
                    next_repo: (poll.next_repo + 1) as usize,
                    ..poll
                },
                keys,
            );
        },
        (PollStage::AssessPullRequest, PollReply::Assessment(_)) => {
            let next = Poll {
                next_pull_request: (poll.next_pull_request + 1) as usize,
                ..poll
            };
            lemma_settled(next.skipping(1), keys);
        },
        (PollStage::AssessPullRequest, PollReply::Failed(_)) => {
            lemma_settled(
                Poll {
                    next_pull_request: (poll.next_pull_request + 1) as usize,
                    ..poll.failing()
                },
                keys,
            );
        },
        (PollStage::SearchPullRequests, PollReply::Found(found)) => {
            lemma_settled(
                Poll {
                    report: PollReport {
                        seen: (poll.report.seen + found@.len()) as usize,
                        ..poll.report
                    },
                    found,
                    next_found: 0,
                    next_account: (poll.next_account + 1) as usize,
                    ..poll
                },
                keys,
            );
        },
        (PollStage::AssessFound, PollReply::Assessment(_)) => {
            let next = Poll { next_found: (poll.next_found + 1) as usize, ..poll };
            lemma_settled(next.skipping(1), keys);
        },
        (PollStage::AssessFound, PollReply::Failed(_)) => {
            lemma_settled(
                Poll { next_found: (poll.next_found + 1) as usize, ..poll.failing() },
                keys,
            );
        },
        (PollStage::Finish { .. }, PollReply::Done) => {
            lemma_settled(
                Poll {
                    report: PollReport {
                        responded: (poll.report.responded + 1) as usize,
                        ..poll.report
                    },
                    ..poll
                },
                keys,
            );
        },
        (PollStage::Reserve { .. }, _) | (PollStage::Start { .. }, _) | (
            PollStage::Finish { .. },
            _,
        ) | (PollStage::Spawn { .. }, _) | (PollStage::Release { .. }, _) => {
            lemma_settled(poll, keys);
            lemma_settled(poll.skipping(1), keys);
            lemma_settled(poll.failing(), keys);
        },
        _ => {},
    }
}

proof fn lemma_start_tells<E>(start: Poll<E>)
    requires
        start.begins(start.mode, start.repos@, start.accounts@),
    ensures
        told_by_poll(start, Seq::empty(), 0),
{
    reveal(told_by_poll);
}

proof fn lemma_poll_tells<E>(start: Poll<E>, replies: Seq<PollReply<E>>)
    requires
        start.begins(start.mode, start.repos@, start.accounts@),
    ensures
        told_by_poll(
            poll_over(start, replies),
            keys_looked_at(start, replies),
            slots_held(start, replies),
        ),
        poll_over(start, replies).mode == start.mode,
    decreases replies.len(),
{
    if replies.len() == 0 {
        lemma_start_tells(start);
    } else {
        let earlier = replies.drop_last();
        lemma_poll_tells(start, earlier);
        lemma_reply_tells(
            poll_over(start, earlier),
            keys_looked_at(start, earlier),
            slots_held(start, earlier),
            replies.last(),
        );
    }
}

/// Whatever the replies: a poll looks at no work key twice, and one that ends
/// well has looked at the work key of each notification.
pub proof fn law_poll_looks_at_each_work_key_once<E>(start: Poll<E>, replies: Seq<PollReply<E>>)
    requires
        start.begins(start.mode, start.repos@, start.accounts@),
    ensures
        keys_looked_at(start, replies).no_duplicates(),
        poll_over(start, replies).stage matches PollStage::Ended(Ok(_)) ==> forall|i: int|
            0 <= i < poll_over(start, replies).notifications@.len() ==> keys_looked_at(
                start,
                replies,
            ).contains(maid::work_key_text(#[trigger] poll_over(start, replies).notifications@[i])),
{
    lemma_poll_tells(start, replies);
    reveal(told_by_poll);
}

/// Whatever the replies: a poll that hands its tasks off holds at most one slot
/// at a time. It starts a task only while it holds one, and it holds none when
/// it ends: each slot was given back or handed off with its task.
pub proof fn law_each_slot_is_given_back_or_handed_off<E>(
    start: Poll<E>,
    replies: Seq<PollReply<E>>,
)
    requires
        start.begins(start.mode, start.repos@, start.accounts@),
    ensures
        0 <= slots_held(start, replies) <= 1,
        poll_over(start, replies).stage is Ended ==> slots_held(start, replies) == 0,
        start.mode == PollMode::Concurrent && poll_over(start, replies).pending() is Start
            ==> slots_held(start, replies) == 1,
        start.mode == PollMode::Sequential ==> slots_held(start, replies) == 0,
{
    lemma_poll_tells(start, replies);
    reveal(told_by_poll);
}

/// Whatever the replies: the report of a poll that sees its tasks through counts
/// no task as merely started or still at work, and the report of one that hands
/// them off counts none as answered.
pub proof fn law_report_fits_the_mode<E>(start: Poll<E>, replies: Seq<PollReply<E>>)
    requires
        start.begins(start.mode, start.repos@, start.accounts@),
    ensures
        poll_over(start, replies).stage matches PollStage::Ended(Ok(report)) ==> {
            &&& start.mode == PollMode::Sequential ==> report.started == 0 && report.in_flight == 0
            &&& start.mode == PollMode::Concurrent ==> report.responded == 0
        },
{
    lemma_poll_tells(start, replies);
    reveal(told_by_poll);
}

/// Whatever the replies: a pull request that was found by its author is assessed
/// only where its base repository is public.
pub proof fn law_private_repositories_are_left_alone<E>(
    start: Poll<E>,
    replies: Seq<PollReply<E>>,
)
    requires
        start.begins(start.mode, start.repos@, start.accounts@),
    ensures
        ({
            let poll = poll_over(start, replies);
            poll.pending() matches PollAction::AssessPullRequest { pr, scope } ==> scope
                == ReviewScope::PublicAccount ==> {
                &&& poll.next_found < poll.found@.len()
                &&& poll.found@[poll.next_found as int].pr == pr
                &&& !poll.found@[poll.next_found as int].base_private
            }
        }),
{
    lemma_poll_tells(start, replies);
    reveal(told_by_poll);
}

/// The repositories whose pull requests were listed on the way, in order.
pub open spec fn repos_listed<E>(start: Poll<E>, replies: Seq<PollReply<E>>) -> Seq<RepoSlug>
    decreases replies.len(),
{
    if replies.len() == 0 {
        Seq::empty()
    } else {
        let earlier = replies.drop_last();
        match (poll_over(start, earlier).pending(), replies.last()) {
            (PollAction::ListPullRequests { repo }, PollReply::PullRequests(_)) => {
                repos_listed(start, earlier).push(repo)
            },
            _ => repos_listed(start, earlier),
        }
    }
}

/// The accounts whose pull requests were looked for on the way, in order.
pub open spec fn accounts_searched<E>(
    start: Poll<E>,
    replies: Seq<PollReply<E>>,
) -> Seq<TrustedAccount>
    decreases replies.len(),
{
    if replies.len() == 0 {
        Seq::empty()
    } else {
        let earlier = replies.drop_last();
        match (poll_over(start, earlier).pending(), replies.last()) {
            (PollAction::SearchPullRequests { account }, PollReply::Found(_)) => {
                accounts_searched(start, earlier).push(account)
            },
            _ => accounts_searched(start, earlier),
        }
    }
}

/// How many items a reply adds to those that were listed.
pub open spec fn newly_listed<E>(poll: Poll<E>, reply: PollReply<E>) -> nat {
    match (poll.pending(), reply) {
        (PollAction::ListNotifications, PollReply::Notifications(list)) => list@.len(),
        (PollAction::ListPullRequests { .. }, PollReply::PullRequests(list)) => list@.len(),
        (PollAction::SearchPullRequests { .. }, PollReply::Found(list)) => list@.len(),
        _ => 0,
    }
}

/// How many notifications and pull requests were listed on the way.
pub open spec fn items_listed<E>(start: Poll<E>, replies: Seq<PollReply<E>>) -> nat
    decreases replies.len(),
{
    if replies.len() == 0 {
        0
    } else {
        let earlier = replies.drop_last();
        items_listed(start, earlier) + newly_listed(poll_over(start, earlier), replies.last())
    }
}

/// The assessments are what a scan of some notification ended with.
pub open spec fn comes_of_a_scan<E>(maid: Maid, list: Seq<TaskAssessment>) -> bool {
    exists|notification: Notification, answers: Seq<Reply<E>>|
        ends_a_scan(maid, notification, answers, list)
}

/// A scan of the notification that has come through `answers` has ended well, with
/// these assessments.
pub open spec fn ends_a_scan<E>(
    maid: Maid,
    notification: Notification,
    answers: Seq<Reply<E>>,
    list: Seq<TaskAssessment>,
) -> bool {
    let scan = assessment::scan_over(maid, notification, answers);
    &&& scan.stage == ScanStage::<E>::Ended(Ok(()))
    &&& scan.assessments == assessment::assessment_views(list)
}

/// Each reply finds room in the counters, and the assessments of notifications are
/// what scans ended with.
pub open spec fn replies_fit<E>(start: Poll<E>, maid: Maid, replies: Seq<PollReply<E>>) -> bool
    decreases replies.len(),
{
    replies.len() > 0 ==> {
        let earlier = replies.drop_last();
        &&& replies_fit(start, maid, earlier)
        &&& poll_over(start, earlier).room(replies.last())
        &&& replies.last() matches PollReply::Assessments(list) ==> comes_of_a_scan::<E>(
            maid,
            list@,
        )
    }
}

/// A scan says something of its notification.
proof fn lemma_scans_say_something<E>(maid: Maid, list: Seq<TaskAssessment>)
    requires
        comes_of_a_scan::<E>(maid, list),
    ensures
        list.len() > 0,
{
    let (notification, answers) = choose|notification: Notification, answers: Seq<Reply<E>>|
        ends_a_scan(maid, notification, answers, list);
    assessment::law_every_request_is_assessed(maid, notification, answers);
    assert(assessment::assessment_views(list).len() == list.len());
}

/// What settling leaves alone.
proof fn lemma_settled_keeps<E>(poll: Poll<E>)
    ensures
        poll.settled().mode == poll.mode,
        poll.settled().repos == poll.repos,
        poll.settled().next_repo == poll.next_repo,
        poll.settled().accounts == poll.accounts,
        poll.settled().next_account == poll.next_account,
        poll.settled().report == (PollReport {
            skipped: poll.settled().report.skipped,
            ..poll.report
        }),
        !(poll.settled().stage matches PollStage::Ended(Err(_))),
        !(poll.settled().stage is Finish) && !(poll.settled().stage is Spawn),
        poll.mode == PollMode::Concurrent ==> !(poll.settled().stage is Start),
{
}

spec fn lists_fit<E>(
    poll: Poll<E>,
    start: Poll<E>,
    repos: Seq<RepoSlug>,
    accounts: Seq<TrustedAccount>,
) -> bool {
    &&& poll.repos == start.repos
    &&& poll.accounts == start.accounts
    &&& repos == start.repos@.take(poll.next_repo as int)
    &&& accounts == start.accounts@.take(poll.next_account as int)
}

/// A reply moves on in the lists of repositories and accounts only where it brings
/// the pull requests that were asked for.
#[verifier::spinoff_prover]
#[verifier::rlimit(40)]
proof fn lemma_step_in_lists<E>(poll: Poll<E>, reply: PollReply<E>)
    requires
        poll.in_bounds(),
    ensures
        ({
            let next = stepped(poll, reply);
            &&& next.repos == poll.repos
            &&& next.accounts == poll.accounts
            &&& next.next_repo == poll.next_repo + (if poll.stage is ListPullRequests && reply
                is PullRequests {
                1int
            } else {
                0
            })
            &&& next.next_account == poll.next_account + (if poll.stage is SearchPullRequests
                && reply is Found {
                1int
            } else {
                0
            })
        }),
{
    reveal(stepped);
    assert(poll.repos.len() == poll.repos@.len());
    assert(poll.accounts.len() == poll.accounts@.len());
}

proof fn lemma_lists_fit<E>(start: Poll<E>, replies: Seq<PollReply<E>>)
    requires
        start.begins(start.mode, start.repos@, start.accounts@),
    ensures
        lists_fit(
            poll_over(start, replies),
            start,
            repos_listed(start, replies),
            accounts_searched(start, replies),
        ),
    decreases replies.len(),
{
    if replies.len() == 0 {
        assert(start.repos@.take(0) =~= Seq::empty());
        assert(start.accounts@.take(0) =~= Seq::empty());
    } else {
        let earlier = replies.drop_last();
        let poll = poll_over(start, earlier);
        lemma_lists_fit(start, earlier);
        lemma_poll_tells(start, earlier);
        assert(poll.in_bounds()) by {
            reveal(told_by_poll);
        }
        lemma_step_in_lists(poll, replies.last());
        if poll.next_repo < start.repos@.len() {
            let at = poll.next_repo as int;
            assert(start.repos@.take(at + 1) =~= start.repos@.take(at).push(start.repos@[at]));
        }
        if poll.next_account < start.accounts@.len() {
            let at = poll.next_account as int;
            assert(start.accounts@.take(at + 1) =~= start.accounts@.take(at).push(
                start.accounts@[at],
            ));
        }
    }
}

/// Whatever the replies: a poll lists the pull requests of its repositories, each
/// once and in their order, then looks for those of its accounts, each once and
/// in their order; and one that ends well has come through them all.
pub proof fn law_each_list_is_read_once<E>(start: Poll<E>, replies: Seq<PollReply<E>>)
    requires
        start.begins(start.mode, start.repos@, start.accounts@),
    ensures
        repos_listed(start, replies) == start.repos@.take(
            poll_over(start, replies).next_repo as int,
        ),
        accounts_searched(start, replies) == start.accounts@.take(
            poll_over(start, replies).next_account as int,
        ),
        poll_over(start, replies).stage matches PollStage::Ended(Ok(_)) ==> {
            &&& repos_listed(start, replies) == start.repos@
            &&& accounts_searched(start, replies) == start.accounts@
        },
{
    lemma_lists_fit(start, replies);
    lemma_poll_tells(start, replies);
    reveal(told_by_poll);
    assert(start.repos@.take(start.repos@.len() as int) =~= start.repos@);
    assert(start.accounts@.take(start.accounts@.len() as int) =~= start.accounts@);
}

/// How many items a report says something of.
pub open spec fn accounted_for(report: PollReport) -> int {
    report.skipped + report.started + report.responded + report.failed
}

/// What a poll has yet to come to in its lists.
spec fn left_in_lists<E>(poll: Poll<E>) -> int {
    (poll.assessments@.len() - poll.next_assessment) + (poll.notifications@.len()
        - poll.next_notification) + (poll.pull_requests@.len() - poll.next_pull_request) + (
    poll.found@.len() - poll.next_found)
}

/// What a poll has yet to account for.
spec fn outstanding<E>(poll: Poll<E>) -> int {
    left_in_lists(poll) + (if poll.stage is Reserve || poll.stage is Start || poll.stage is Finish {
        1int
    } else {
        0
    })
}

spec fn settles<E>(poll: Poll<E>) -> bool {
    &&& poll.next_notification <= poll.notifications@.len()
    &&& poll.next_assessment <= poll.assessments@.len()
    &&& poll.next_found <= poll.found@.len()
    &&& poll.report.skipped + poll.assessments@.len() + poll.notifications@.len()
        + poll.found@.len() <= usize::MAX
}

/// What is passed over while settling is counted as skipped, one by one.
proof fn lemma_settled_accounts<E>(poll: Poll<E>)
    requires
        settles(poll),
    ensures
        accounted_for(poll.settled().report) + outstanding(poll.settled()) == accounted_for(
            poll.report,
        ) + left_in_lists(poll),
{
    assert(poll.notifications.len() == poll.notifications@.len());
    assert(poll.assessments.len() == poll.assessments@.len());
    assert(poll.found.len() == poll.found@.len());
    lemma_next_ready(poll.assessments@, poll.next_assessment as int);
    lemma_next_public(poll.found@, poll.next_found as int);
    lemma_next_fresh(poll.notifications@, poll.next_notification as int);
}

/// A reply that fits loses sight of no item.
#[verifier::spinoff_prover]
#[verifier::rlimit(60)]
proof fn lemma_reply_accounts<E>(poll: Poll<E>, reply: PollReply<E>)
    requires
        poll.in_bounds(),
        told_by_lists(poll),
        poll.room(reply),
        reply matches PollReply::Assessments(list) ==> list@.len() > 0,
    ensures
        stepped(poll, reply).report.seen == poll.report.seen + newly_listed(poll, reply),
        !(stepped(poll, reply).stage matches PollStage::Ended(Err(_))) ==> newly_listed(poll, reply)
            + accounted_for(poll.report) + outstanding(poll) <= accounted_for(
            stepped(poll, reply).report,
        ) + outstanding(stepped(poll, reply)),
{
    reveal(stepped);
    assert(poll.notifications.len() == poll.notifications@.len());
    assert(poll.pull_requests.len() == poll.pull_requests@.len());
    assert(poll.found.len() == poll.found@.len());
    assert(poll.repos.len() == poll.repos@.len());
    assert(poll.accounts.len() == poll.accounts@.len());
    match (poll.stage, reply) {
        (PollStage::ListNotifications, PollReply::Notifications(notifications)) => {
            let next = Poll {
                report: PollReport {
                    seen: (poll.report.seen + notifications@.len()) as usize,
                    ..poll.report
                },
                notifications,
                next_notification: 0,
                ..poll
            };
            lemma_settled_keeps(next);
            lemma_settled_accounts(next);
        },
        (PollStage::AssessNotification, PollReply::Assessments(assessments)) => {
            let next = Poll {
                assessments,
                next_assessment: 0,
                next_notification: (poll.next_notification + 1) as usize,
                ..poll
            };
            lemma_settled_keeps(next);
            lemma_settled_accounts(next);
        },
        (PollStage::AssessNotification, PollReply::Failed(_)) => {
            let next = Poll {
                next_notification: (poll.next_notification + 1) as usize,
                ..poll.failing()
            };
            lemma_settled_keeps(next);
            lemma_settled_accounts(next);
        },
        (PollStage::ListPullRequests, PollReply::PullRequests(pull_requests)) => {
            let next = Poll {
                report: PollReport {
                    seen: (poll.report.seen + pull_requests@.len()) as usize,
                    ..poll.report
                },
                pull_requests,
                next_pull_request: 0,
                next_repo: (poll.next_repo + 1) as usize,
                ..poll
            };
            lemma_settled_keeps(next);
            lemma_settled_accounts(next);
        },
        (PollStage::AssessPullRequest, PollReply::Assessment(_)) => {
            let next = Poll {
                next_pull_request: (poll.next_pull_request + 1) as usize,
                ..poll
            }.skipping(1);
            lemma_settled_keeps(next);
            lemma_settled_accounts(next);
        },
        (PollStage::AssessPullRequest, PollReply::Failed(_)) => {
            let next = Poll {
                next_pull_request: (poll.next_pull_request + 1) as usize,
                ..poll.failing()
            };
            lemma_settled_keeps(next);
            lemma_settled_accounts(next);
        },
        (PollStage::SearchPullRequests, PollReply::Found(found)) => {
            let next = Poll {
                report: PollReport {
                    seen: (poll.report.seen + found@.len()) as usize,
                    ..poll.report
                },
                found,
                next_found: 0,
                next_account: (poll.next_account + 1) as usize,
                ..poll
            };
            lemma_settled_keeps(next);
            lemma_settled_accounts(next);
        },
        (PollStage::AssessFound, PollReply::Assessment(_)) => {
            let next = Poll { next_found: (poll.next_found + 1) as usize, ..poll }.skipping(1);
            lemma_settled_keeps(next);
            lemma_settled_accounts(next);
        },
        (PollStage::AssessFound, PollReply::Failed(_)) => {
            let next = Poll { next_found: (poll.next_found + 1) as usize, ..poll.failing() };
            lemma_settled_keeps(next);
            lemma_settled_accounts(next);
        },
        (PollStage::Finish { .. }, PollReply::Done) => {
            let next = Poll {
                report: PollReport {
                    responded: (poll.report.responded + 1) as usize,
                    ..poll.report
                },
                ..poll
            };
            lemma_settled_keeps(next);
            lemma_settled_accounts(next);
        },
        (PollStage::Reserve { .. }, _) | (PollStage::Start { .. }, _) | (
            PollStage::Finish { .. },
            _,
        ) | (PollStage::Spawn { .. }, _) | (PollStage::Release { .. }, _) => {
            lemma_settled_keeps(poll);
            lemma_settled_accounts(poll);
            lemma_settled_keeps(poll.skipping(1));
            lemma_settled_accounts(poll.skipping(1));
            lemma_settled_keeps(poll.failing());
            lemma_settled_accounts(poll.failing());
        },
        _ => {},
    }
}

/// The report has seen the items that were listed, and loses sight of none.
#[verifier::opaque]
spec fn accounts_hold<E>(poll: Poll<E>, listed: nat) -> bool {
    &&& poll.report.seen == listed
    &&& !(poll.stage matches PollStage::Ended(Err(_))) ==> listed <= accounted_for(poll.report)
        + outstanding(poll)
}

proof fn lemma_start_accounts<E>(start: Poll<E>)
    requires
        start.begins(start.mode, start.repos@, start.accounts@),
    ensures
        accounts_hold(start, 0),
{
    reveal(accounts_hold);
}

proof fn lemma_accounts_kept<E>(
    poll: Poll<E>,
    keys: Seq<Seq<char>>,
    held: int,
    listed: nat,
    reply: PollReply<E>,
)
    requires
        told_by_poll(poll, keys, held),
        accounts_hold(poll, listed),
        poll.room(reply),
        reply matches PollReply::Assessments(list) ==> list@.len() > 0,
    ensures
        accounts_hold(stepped(poll, reply), listed + newly_listed(poll, reply)),
{
    reveal(told_by_poll);
    reveal(accounts_hold);
    lemma_reply_accounts(poll, reply);
    if poll.stage matches PollStage::Ended(Err(_)) {
        assert(stepped(poll, reply) == poll) by {
            reveal(stepped);
        }
    }
}

proof fn lemma_poll_accounts<E>(start: Poll<E>, maid: Maid, replies: Seq<PollReply<E>>)
    requires
        start.begins(start.mode, start.repos@, start.accounts@),
        replies_fit(start, maid, replies),
    ensures
        accounts_hold(poll_over(start, replies), items_listed(start, replies)),
    decreases replies.len(),
{
    if replies.len() == 0 {
        lemma_start_accounts(start);
    } else {
        let earlier = replies.drop_last();
        lemma_poll_accounts(start, maid, earlier);
        lemma_poll_tells(start, earlier);
        if let PollReply::Assessments(list) = replies.last() {
            lemma_scans_say_something::<E>(maid, list@);
        }
        lemma_accounts_kept(
            poll_over(start, earlier),
            keys_looked_at(start, earlier),
            slots_held(start, earlier),
            items_listed(start, earlier),
            replies.last(),
        );
    }
}

/// A poll that is told what scans ended with, and ends well, has seen every item
/// that was listed to it, and its report has skipped, started, answered or failed
/// at least that many: none is lost sight of.
pub proof fn law_report_accounts_for_every_item<E>(
    start: Poll<E>,
    maid: Maid,
    replies: Seq<PollReply<E>>,
)
    requires
        start.begins(start.mode, start.repos@, start.accounts@),
        replies_fit(start, maid, replies),
    ensures
        poll_over(start, replies).stage matches PollStage::Ended(Ok(report)) ==> {
            &&& report.seen == items_listed(start, replies)
            &&& report.seen <= report.skipped + report.started + report.responded + report.failed
            &&& start.mode == PollMode::Concurrent ==> report.seen <= report.skipped
                + report.started + report.failed
        },
{
    lemma_poll_accounts(start, maid, replies);
    lemma_poll_tells(start, replies);
    reveal(told_by_poll);
    reveal(accounts_hold);
}

/// A task for which there is no slot only adds to what was skipped: it is not
/// started, and the next poll may take it on.
pub proof fn law_deferred_task_is_only_skipped<E>(poll: Poll<E>, intent: TaskIntent)
    requires
        poll.mode == PollMode::Concurrent,
        poll.stage == (PollStage::<E>::Reserve { intent }),
    ensures
        ({
            let next = poll.after(PollReply::Reserved(false));
            &&& next == poll.skipping(1).settled()
            &&& next.report == (PollReport { skipped: next.report.skipped, ..poll.report })
            &&& !(next.pending() is Start) && !(next.pending() is Spawn)
        }),
{
    lemma_settled_keeps(poll.skipping(1));
}

/// A poll breaks off only where a list cannot be had or an owed mark cannot be
/// set. A failure with one notification, pull request or task is counted, and
/// the poll goes on.
pub proof fn law_one_failure_does_not_stop_the_poll<E>(poll: Poll<E>, reply: PollReply<E>)
    requires
        !(poll.stage is Ended),
    ensures
        poll.after(reply).stage matches PollStage::Ended(Err(error)) ==> {
            &&& poll.stage is RetryMarkers || poll.stage is ListNotifications
                || poll.stage is ListPullRequests || poll.stage is SearchPullRequests
            &&& reply == PollReply::Failed(error)
        },
{
}

/// A task is seen through or handed off only where it was started, and it is
/// started only where it was taken on with a slot, in a poll that has slots.
pub proof fn law_only_started_tasks_go_on<E>(poll: Poll<E>, reply: PollReply<E>)
    ensures
        poll.after(reply).stage matches PollStage::Finish { intent } ==> poll.after(reply) == poll
            || (poll.mode == PollMode::Sequential && reply == PollReply::<E>::Outcome(
            TaskStartOutcome::Started(Box::new(intent)),
        )),
        poll.after(reply).stage matches PollStage::Spawn { intent } ==> poll.after(reply) == poll
            || (poll.mode == PollMode::Concurrent && reply == PollReply::<E>::Outcome(
            TaskStartOutcome::Started(Box::new(intent)),
        )),
        poll.after(reply).stage is Start && poll.mode == PollMode::Concurrent ==> poll.after(reply)
            == poll || (poll.stage is Reserve && reply == PollReply::<E>::Reserved(true)),
{
}

// ---------------------------------------------------------------------------
// The course of a poll
// ---------------------------------------------------------------------------
/// Of the notifications, those are passed over whose work key an earlier one has;
/// of the assessments, those that call for nothing; of the found pull requests,
/// those into private repositories. What comes next is the first of the others.
pub proof fn law_only_what_needs_nothing_is_passed_over(
    notifications: Seq<Notification>,
    assessments: Seq<TaskAssessment>,
    found: Seq<FoundPullRequest>,
    at: int,
)
    ensures
        0 <= at <= notifications.len() ==> {
            let next = next_fresh(notifications, at);
            &&& at <= next <= notifications.len()
            &&& forall|i: int|
                at <= i < next ==> exists|earlier: int|
                    0 <= earlier < i && maid::work_key_text(#[trigger] notifications[earlier])
                        == maid::work_key_text(#[trigger] notifications[i])
            &&& forall|earlier: int|
                next < notifications.len() && 0 <= earlier < next ==> maid::work_key_text(
                    #[trigger] notifications[earlier],
                ) != maid::work_key_text(notifications[next])
        },
        0 <= at <= assessments.len() ==> {
            let next = next_ready(assessments, at);
            &&& at <= next <= assessments.len()
            &&& forall|i: int| at <= i < next ==> #[trigger] assessments[i] is Skipped
            &&& next < assessments.len() ==> assessments[next] is Ready
        },
        0 <= at <= found.len() ==> {
            let next = next_public(found, at);
            &&& at <= next <= found.len()
            &&& forall|i: int| at <= i < next ==> (#[trigger] found[i]).base_private
            &&& next < found.len() ==> !found[next].base_private
        },
{
    if 0 <= at <= notifications.len() {
        lemma_next_fresh(notifications, at);
        let next = next_fresh(notifications, at);
        assert forall|i: int| at <= i < next implies exists|earlier: int|
            0 <= earlier < i && maid::work_key_text(#[trigger] notifications[earlier])
                == maid::work_key_text(#[trigger] notifications[i]) by {
            assert(is_repeated(notifications, i));
        }
        if next < notifications.len() {
            assert(!is_repeated(notifications, next));
        }
    }
    if 0 <= at <= assessments.len() {
        lemma_passed_over(assessments, at);
    }
    if 0 <= at <= found.len() {
        lemma_passed_private(found, at);
    }
}

proof fn lemma_passed_over(assessments: Seq<TaskAssessment>, at: int)
    requires
        0 <= at <= assessments.len(),
    ensures
        ({
            let next = next_ready(assessments, at);
            &&& at <= next <= assessments.len()
            &&& forall|i: int| at <= i < next ==> #[trigger] assessments[i] is Skipped
            &&& next < assessments.len() ==> assessments[next] is Ready
        }),
    decreases assessments.len() - at,
{
    if at < assessments.len() && assessments[at] is Skipped {
        lemma_passed_over(assessments, at + 1);
    }
}

proof fn lemma_passed_private(found: Seq<FoundPullRequest>, at: int)
    requires
        0 <= at <= found.len(),
    ensures
        ({
            let next = next_public(found, at);
            &&& at <= next <= found.len()
            &&& forall|i: int| at <= i < next ==> (#[trigger] found[i]).base_private
            &&& next < found.len() ==> !found[next].base_private
        }),
    decreases found.len() - at,
{
    if at < found.len() && found[at].base_private {
        lemma_passed_private(found, at + 1);
    }
}

/// A poll that sees its tasks through first sets the owed marks; one that hands them
/// off does not. Both then list the notifications. Where any list cannot be had, or
/// an owed mark cannot be set, the poll ends with that failure.
pub proof fn law_how_a_poll_begins<E>(
    start: Poll<E>,
    mode: PollMode,
    repos: Seq<RepoSlug>,
    accounts: Seq<TrustedAccount>,
    error: E,
)
    requires
        start.begins(mode, repos, accounts),
    ensures
        mode == PollMode::Sequential ==> {
            &&& start.pending() == PollAction::RetryMarkers
            &&& start.after(PollReply::Done).pending() == PollAction::ListNotifications
            &&& start.after(PollReply::Done).report == start.report
        },
        mode == PollMode::Concurrent ==> start.pending() == PollAction::ListNotifications,
        start.after(PollReply::Failed(error)).stage == PollStage::<E>::Ended(Err(error)),
        start.report == (PollReport {
            seen: 0,
            skipped: 0,
            started: 0,
            responded: 0,
            failed: 0,
            in_flight: 0,
        }),
{
}

/// What a poll goes on to: a task of the present notification; else the next
/// notification with a new work key; else the next pull request of the present
/// repository; else the next repository; else the next found pull request into a
/// public repository; else the next account. After the last it ends with its
/// report, or counts the tasks at work.
#[verifier::spinoff_prover]
#[verifier::rlimit(40)]
pub proof fn law_what_a_poll_goes_on_to<E>(poll: Poll<E>, error: E)
    requires
        poll.in_bounds(),
        poll.report.skipped + poll.assessments@.len() + poll.notifications@.len()
            + poll.found@.len() <= usize::MAX,
    ensures
        ({
            let next = poll.settled();
            let ready = next_ready(poll.assessments@, poll.next_assessment as int);
            let fresh = next_fresh(poll.notifications@, poll.next_notification as int);
            let public = next_public(poll.found@, poll.next_found as int);
            if ready < poll.assessments@.len() {
                &&& poll.assessments@[ready] matches TaskAssessment::Ready(intent)
                &&& poll.mode == PollMode::Sequential ==> next.pending() == (PollAction::Start {
                    intent: *intent,
                })
                &&& poll.mode == PollMode::Concurrent ==> next.pending() == (
                PollAction::Reserve { intent: *intent })
                &&& next.report.skipped == poll.report.skipped + ready - poll.next_assessment
            } else if fresh < poll.notifications@.len() {
                next.pending() == (PollAction::AssessNotification {
                    notification: poll.notifications@[fresh],
                })
            } else if poll.next_pull_request < poll.pull_requests@.len() {
                next.pending() == (PollAction::AssessPullRequest {
                    pr: poll.pull_requests@[poll.next_pull_request as int],
                    scope: ReviewScope::Repository,
                })
            } else if poll.next_repo < poll.repos@.len() {
                next.pending() == (PollAction::ListPullRequests {
                    repo: poll.repos@[poll.next_repo as int],
                })
            } else if public < poll.found@.len() {
                next.pending() == (PollAction::AssessPullRequest {
                    pr: poll.found@[public].pr,
                    scope: ReviewScope::PublicAccount,
                })
            } else if poll.next_account < poll.accounts@.len() {
                next.pending() == (PollAction::SearchPullRequests {
                    account: poll.accounts@[poll.next_account as int],
                })
            } else if poll.mode == PollMode::Sequential {
                next.stage == PollStage::<E>::Ended(Ok(next.report))
            } else {
                next.pending() == PollAction::CountInFlight
            }
        }),
{
    lemma_passed_over(poll.assessments@, poll.next_assessment as int);
    lemma_next_fresh(poll.notifications@, poll.next_notification as int);
    lemma_passed_private(poll.found@, poll.next_found as int);
}

/// What a list brings is seen, and looked at from its first item on.
pub proof fn law_lists_are_gone_through<E>(
    poll: Poll<E>,
    notifications: Vec<Notification>,
    assessments: Vec<TaskAssessment>,
    pull_requests: Vec<PullRequest>,
    found: Vec<FoundPullRequest>,
)
    requires
        poll.in_bounds(),
        poll.report.seen + notifications@.len() <= usize::MAX,
        poll.report.seen + pull_requests@.len() <= usize::MAX,
        poll.report.seen + found@.len() <= usize::MAX,
    ensures
        poll.stage is ListNotifications ==> poll.after(PollReply::Notifications(notifications))
            == (Poll {
            notifications,
            next_notification: 0,
            report: PollReport {
                seen: (poll.report.seen + notifications@.len()) as usize,
                ..poll.report
            },
            ..poll
        }).settled(),
        poll.stage is AssessNotification ==> poll.after(PollReply::Assessments(assessments)) == (
        Poll {
            assessments,
            next_assessment: 0,
            next_notification: (poll.next_notification + 1) as usize,
            ..poll
        }).settled(),
        poll.stage is ListPullRequests ==> poll.after(PollReply::PullRequests(pull_requests)) == (
        Poll {
            pull_requests,
            next_pull_request: 0,
            next_repo: (poll.next_repo + 1) as usize,
            report: PollReport {
                seen: (poll.report.seen + pull_requests@.len()) as usize,
                ..poll.report
            },
            ..poll
        }).settled(),
        poll.stage is SearchPullRequests ==> poll.after(PollReply::Found(found)) == (Poll {
            found,
            next_found: 0,
            next_account: (poll.next_account + 1) as usize,
            report: PollReport {
                seen: (poll.report.seen + found@.len()) as usize,
                ..poll.report
            },
            ..poll
        }).settled(),
{
}

/// A pull request that calls for a review has it taken on: at once, or once there is
/// a slot for it. A task that has its slot is started; one that has started is seen
/// through, or handed off and counted as started.
pub proof fn law_how_tasks_are_taken_on<E>(poll: Poll<E>, intent: TaskIntent)
    requires
        poll.in_bounds(),
        poll.report.started < usize::MAX,
    ensures
        poll.stage is AssessPullRequest || poll.stage is AssessFound ==> {
            let next = poll.after(
                PollReply::Assessment(TaskAssessment::Ready(Box::new(intent))),
            );
            &&& next.report == poll.report
            &&& poll.mode == PollMode::Sequential ==> next.pending() == (PollAction::Start {
                intent,
            })
            &&& poll.mode == PollMode::Concurrent ==> next.pending() == (PollAction::Reserve {
                intent,
            })
            &&& poll.stage is AssessPullRequest ==> next.next_pull_request
                == poll.next_pull_request + 1
            &&& poll.stage is AssessFound ==> next.next_found == poll.next_found + 1
        },
        poll.stage == (PollStage::<E>::Reserve { intent }) ==> poll.after(
            PollReply::Reserved(true),
        ).pending() == (PollAction::Start { intent }),
        poll.stage is Start ==> {
            let next = poll.after(
                PollReply::Outcome(TaskStartOutcome::Started(Box::new(intent))),
            );
            &&& poll.mode == PollMode::Sequential ==> next.pending() == (PollAction::Finish {
                intent,
            }) && next.report == poll.report
            &&& poll.mode == PollMode::Concurrent ==> next.pending() == (PollAction::Spawn {
                intent,
            }) && next.report.started == poll.report.started + 1
        },
{
    assert(poll.pull_requests.len() == poll.pull_requests@.len());
    assert(poll.found.len() == poll.found@.len());
}

/// What did not come to a task counts as skipped, and what failed as failed; a task
/// that was seen through counts as answered. A slot that was taken for a task that
/// did not start is given back. A poll that hands off ends with the number of tasks
/// at work.
pub proof fn law_how_outcomes_are_counted<E>(
    poll: Poll<E>,
    intent: TaskIntent,
    error: E,
    count: usize,
)
    requires
        poll.in_bounds(),
        poll.report.skipped < usize::MAX,
        poll.report.failed < usize::MAX,
        poll.report.responded < usize::MAX,
    ensures
        poll.stage == (PollStage::<E>::Start { intent }) && poll.mode == PollMode::Concurrent ==> {
            let skipped = poll.after(PollReply::Outcome(TaskStartOutcome::Skipped));
            let failed = poll.after(PollReply::Failed(error));
            &&& skipped.pending() == (PollAction::Release { intent })
            &&& skipped.report.skipped == poll.report.skipped + 1
            &&& failed.pending() == (PollAction::Release { intent })
            &&& failed.report.failed == poll.report.failed + 1
            &&& failed.report.skipped == poll.report.skipped
        },
        poll.stage is Finish ==> {
            let answered = Poll::<E> {
                report: PollReport {
                    responded: (poll.report.responded + 1) as usize,
                    ..poll.report
                },
                ..poll
            };
            let failed = Poll::<E> {
                report: PollReport { failed: (poll.report.failed + 1) as usize, ..poll.report },
                ..poll
            };
            &&& poll.after(PollReply::Done) == answered.settled()
            &&& poll.after(PollReply::Failed(error)) == failed.settled()
        },
        poll.stage is AssessPullRequest ==> poll.after(
            PollReply::Assessment(TaskAssessment::Skipped),
        ) == (Poll {
            next_pull_request: (poll.next_pull_request + 1) as usize,
            report: PollReport { skipped: (poll.report.skipped + 1) as usize, ..poll.report },
            ..poll
        }).settled(),
        poll.stage is AssessFound ==> poll.after(PollReply::Assessment(TaskAssessment::Skipped))
            == (Poll {
            next_found: (poll.next_found + 1) as usize,
            report: PollReport { skipped: (poll.report.skipped + 1) as usize, ..poll.report },
            ..poll
        }).settled(),
        poll.stage is AssessNotification ==> poll.after(PollReply::Failed(error)) == (Poll {
            next_notification: (poll.next_notification + 1) as usize,
            report: PollReport { failed: (poll.report.failed + 1) as usize, ..poll.report },
            ..poll
        }).settled(),
        poll.stage is Spawn || poll.stage is Release ==> poll.after(PollReply::Done)
            == poll.settled(),
        poll.stage is CountInFlight ==> poll.after(PollReply::InFlight(count)).stage
            == PollStage::<E>::Ended(Ok(PollReport { in_flight: count, ..poll.report })),
{
}

/// The owed marks are listed first, and gone through from the first on; without any,
/// or after the last, all is done. The first failure ends it.
pub proof fn law_course_of_the_owed_marks<E>(
    markers: Vec<PendingHandledMarker>,
    at: usize,
    error: E,
)
    ensures
        ({
            let begun = MarkerRetry::<E> { stage: RetryStage::List };
            let listed = begun.after(Reply::Markers(markers));
            &&& begun.pending() == Action::PendingMarkers
            &&& markers@.len() == 0 ==> listed.stage == RetryStage::<E>::Ended(Ok(()))
            &&& markers@.len() > 0 ==> listed.stage == (RetryStage::<E>::Mark { markers, at: 0 })
            &&& begun.after(Reply::Failed(error)).stage == RetryStage::<E>::Ended(Err(error))
        }),
        at < markers@.len() ==> {
            let removal = MarkerRetry::<E> { stage: RetryStage::Remove { markers, at } };
            let mark = MarkerRetry::<E> { stage: RetryStage::Mark { markers, at } };
            &&& at + 1 < markers@.len() ==> removal.after(Reply::Done).stage == (
            RetryStage::<E>::Mark { markers, at: (at + 1) as usize })
            &&& at + 1 == markers@.len() ==> removal.after(Reply::Done).stage
                == RetryStage::<E>::Ended(Ok(()))
            &&& mark.after(Reply::Failed(error)).stage == RetryStage::<E>::Ended(Err(error))
            &&& removal.after(Reply::Failed(error)).stage == RetryStage::<E>::Ended(Err(error))
        },
{
}

/// A reply can be taken as long as no counter would run over: each has room for one
/// more, and those of seen and skipped items for all that the reply brings.
pub proof fn law_when_there_is_room<E>(poll: Poll<E>, reply: PollReply<E>)
    ensures
        ({
            let brought = match reply {
                PollReply::Notifications(list) => list@.len(),
                PollReply::Assessments(list) => list@.len(),
                PollReply::PullRequests(list) => list@.len(),
                PollReply::Found(list) => list@.len(),
                _ => 0,
            };
            poll.room(reply) <==> {
                &&& poll.report.seen + brought <= usize::MAX
                &&& poll.report.skipped + 1 + brought + poll.assessments@.len()
                    + poll.notifications@.len() + poll.found@.len() <= usize::MAX
                &&& poll.report.failed + 1 <= usize::MAX
                &&& poll.report.started + 1 <= usize::MAX
                &&& poll.report.responded + 1 <= usize::MAX
            }
        }),
{
}

/// A poll without slots counts a task that did not start as skipped, or as failed, and
/// goes on at once. So it does with a pull request that cannot be assessed, in any
/// poll.
pub proof fn law_a_poll_goes_on_after_a_failure<E>(poll: Poll<E>, intent: TaskIntent, error: E)
    requires
        poll.in_bounds(),
        poll.report.skipped < usize::MAX,
        poll.report.failed < usize::MAX,
    ensures
        ({
            let skipped = Poll::<E> {
                report: PollReport { skipped: (poll.report.skipped + 1) as usize, ..poll.report },
                ..poll
            };
            let failed = Poll::<E> {
                report: PollReport { failed: (poll.report.failed + 1) as usize, ..poll.report },
                ..poll
            };
            &&& poll.stage == (PollStage::<E>::Start { intent }) && poll.mode
                == PollMode::Sequential ==> {
                &&& poll.after(PollReply::Outcome(TaskStartOutcome::Skipped)) == skipped.settled()
                &&& poll.after(PollReply::Failed(error)) == failed.settled()
            }
            &&& poll.stage is AssessPullRequest ==> poll.after(PollReply::Failed(error)) == (
            Poll { next_pull_request: (poll.next_pull_request + 1) as usize, ..failed }).settled()
            &&& poll.stage is AssessFound ==> poll.after(PollReply::Failed(error)) == (Poll {
                next_found: (poll.next_found + 1) as usize,
                ..failed
            }).settled()
            &&& poll.stage == (PollStage::<E>::Reserve { intent }) ==> poll.after(
                PollReply::Reserved(false),
            ) == skipped.settled()
        }),
{
}

/// A poll goes on only with a reply to what it asked for, and once it has ended
/// nothing changes it. So it is with setting the marks that are owed.
pub proof fn law_polls_go_on_with_answers_only<E>(
    poll: Poll<E>,
    reply: PollReply<E>,
    retry: MarkerRetry<E>,
    answer: Reply<E>,
)
    ensures
        ({
            let answered = match poll.stage {
                PollStage::RetryMarkers => reply is Done || reply is Failed,
                PollStage::ListNotifications => reply is Notifications || reply is Failed,
                PollStage::AssessNotification => reply is Assessments || reply is Failed,
                PollStage::ListPullRequests => reply is PullRequests || reply is Failed,
                PollStage::SearchPullRequests => reply is Found || reply is Failed,
                PollStage::AssessPullRequest => reply is Assessment || reply is Failed,
                PollStage::AssessFound => reply is Assessment || reply is Failed,
                PollStage::Reserve { .. } => reply is Reserved,
                PollStage::Release { .. } => reply is Done,
                PollStage::Start { .. } => reply is Outcome || reply is Failed,
                PollStage::Finish { .. } => reply is Done || reply is Failed,
                PollStage::Spawn { .. } => reply is Done,
                PollStage::CountInFlight => reply is InFlight,
                PollStage::Ended(_) => false,
            };
            !answered ==> poll.after(reply) == poll
        }),
        poll.stage is Ended ==> poll.pending() is Nothing,
        ({
            let answered = match retry.stage {
                RetryStage::List => answer is Markers || answer is Failed,
                RetryStage::Mark { .. } => answer is Done || answer is Failed,
                RetryStage::Remove { .. } => answer is Done || answer is Failed,
                RetryStage::Ended(_) => false,
            };
            !answered ==> retry.after(answer) == retry
        }),
        retry.stage is Ended ==> retry.pending() is Nothing,
        retry.stage !is Ended ==> (answer matches Reply::Failed(error) ==> retry.after(answer).stage
            == RetryStage::<E>::Ended(Err(error))),
{
}

/// A poll of the bot goes through the bot's own repositories and accounts. Where it
/// works on one thing at a time, it first sets the marks that are owed; where tasks are
/// handed off, it begins with the notifications.
pub proof fn law_how_the_bot_polls<E>(
    maid: &Maid,
    poll: Poll<E>,
    concurrent: &ConcurrentMaid,
    other: Poll<E>,
)
    requires
        call_ensures(Maid::run_once::<E>, (maid,), poll),
        call_ensures(ConcurrentMaid::run_once::<E>, (concurrent,), other),
    ensures
        poll.pending() == PollAction::RetryMarkers,
        poll.mode == PollMode::Sequential,
        poll.repos@ == maid.auto_review_repos@,
        poll.accounts@ == maid.auto_review_public_accounts@,
        other.pending() == PollAction::ListNotifications,
        other.mode == PollMode::Concurrent,
        other.repos@ == concurrent.maid.auto_review_repos@,
        other.accounts@ == concurrent.maid.auto_review_public_accounts@,
        poll.report.seen == 0 && poll.report.skipped == 0 && poll.report.started == 0,
        poll.report.responded == 0 && poll.report.failed == 0 && poll.report.in_flight == 0,
        other.report == poll.report,
{
}

} // verus!
