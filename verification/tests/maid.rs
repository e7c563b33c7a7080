use maid::assessment::{NotificationScan, PullRequestScan, PullRequestStage};
use maid::domain::{
    CodexPromptTemplates, CodexTask, CodexTaskOrigin, CommentMention, FoundPullRequest,
    GitHubUserId, Notification, PullRequest, RepoSlug, ReviewState, TrustedAccount, WorkTarget,
};
use maid::effect::{Action, Reply};
use maid::handled_marker::{PendingHandledMarker, PendingHandledMarkerLedger, StoreError};
use maid::maid::{
    work_key, CodexRun, ConcurrentMaid, Maid, PollReport, PreparedWorktree, ReviewScope,
    TaskAssessment, TaskIntent, WorkQueue,
};
use maid::poll::{MarkerRetry, Poll, PollAction, PollMode, PollReply, PollStage, RetryStage};
use maid::task_limit::{NoTaskLimit, TaskStartDecision, TaskStartRecorder};
use maid::task_run::{RunStage, StartStage, TaskRun, TaskStart, TaskStartOutcome};
use std::collections::{BTreeMap, HashSet};
use std::io::{Read, Seek, Write};
use std::sync::{Arc, Mutex as StdMutex};

type FakeMentionResult = Option<Result<Option<CommentMention>, String>>;
type FakeMentionsResult = Option<Result<Vec<CommentMention>, String>>;

#[derive(Clone, Default)]
struct FakeGithub {
    notifications: Arc<StdMutex<Vec<Notification>>>,
    mention: Arc<StdMutex<FakeMentionResult>>,
    mentions: Arc<StdMutex<FakeMentionsResult>>,
    pull_requests: Arc<StdMutex<Vec<PullRequest>>>,
    found: Arc<StdMutex<Vec<(PullRequest, bool)>>>,
    posts: Arc<StdMutex<Vec<String>>>,
    marks: Arc<StdMutex<Vec<String>>>,
    events: Arc<StdMutex<Vec<String>>>,
    post_error: Arc<StdMutex<Option<String>>>,
    handled_error: Arc<StdMutex<Option<String>>>,
    started_mentions: Arc<StdMutex<Vec<String>>>,
    handled_mentions: Arc<StdMutex<HashSet<String>>>,
    started_prs: Arc<StdMutex<Vec<String>>>,
    handled_prs: Arc<StdMutex<HashSet<String>>>,
}

impl FakeGithub {
    fn take_mention(&self) -> Result<Option<CommentMention>, String> {
        self.mention.lock().unwrap().take().unwrap_or(Ok(None))
    }

    fn take_mentions(&self) -> Result<Vec<CommentMention>, String> {
        if let Some(result) = self.mentions.lock().unwrap().take() {
            return result;
        }
        Ok(self.take_mention()?.into_iter().collect())
    }

    fn post(&self, body: String) -> Result<(), String> {
        self.event("post");
        if let Some(message) = self.post_error.lock().unwrap().take() {
            return Err(message);
        }
        self.posts.lock().unwrap().push(body);
        Ok(())
    }

    fn event(&self, event: &str) {
        self.events.lock().unwrap().push(event.to_string());
    }

    fn mark_mention(&self, api_url: String) -> Result<(), String> {
        self.event("handled");
        if let Some(message) = self.handled_error.lock().unwrap().take() {
            return Err(message);
        }
        self.handled_mentions.lock().unwrap().insert(api_url);
        Ok(())
    }

    fn mark_pull_request(&self, html_url: String) -> Result<(), String> {
        self.event("handled_pr");
        if let Some(message) = self.handled_error.lock().unwrap().take() {
            return Err(message);
        }
        self.handled_prs.lock().unwrap().insert(html_url);
        Ok(())
    }
}

fn review_state(handled: bool) -> ReviewState {
    if handled {
        ReviewState::Handled
    } else {
        ReviewState::Pending
    }
}

#[derive(Clone)]
struct FakeWorktrees {
    worktree: String,
    calls: Arc<StdMutex<Vec<String>>>,
    error: Arc<StdMutex<Option<String>>>,
}

impl FakeWorktrees {
    fn prepare(&self, target: &WorkTarget) -> Result<PreparedWorktree, String> {
        self.calls.lock().unwrap().push(target.repo_key());
        if let Some(message) = self.error.lock().unwrap().take() {
            return Err(message);
        }
        Ok(PreparedWorktree::new(&self.worktree))
    }
}

#[derive(Clone, Default)]
struct FakeCodex {
    calls: Arc<StdMutex<Vec<(String, CodexTask)>>>,
    error: Arc<StdMutex<Option<String>>>,
    blocking: bool,
}

impl FakeCodex {
    fn blocking() -> FakeCodex {
        FakeCodex {
            blocking: true,
            ..FakeCodex::default()
        }
    }

    fn enter(&self, worktree: &PreparedWorktree, task: &CodexTask) {
        self.calls
            .lock()
            .unwrap()
            .push((worktree.path().to_string(), task.clone()));
    }

    fn answer(&self) -> Result<CodexRun, String> {
        if let Some(message) = self.error.lock().unwrap().take() {
            return Err(message);
        }
        Ok(CodexRun {
            response: "codex response".to_string(),
            session_id: Some("019e64fd-8369-7453-9cdc-4b14b388f618".to_string()),
        })
    }
}

#[derive(Clone)]
struct FixedTaskStartRecorder {
    decision: TaskStartDecision,
    calls: Arc<StdMutex<usize>>,
}

impl TaskStartRecorder for FixedTaskStartRecorder {
    fn try_record_started(&mut self) -> Result<TaskStartDecision, StoreError> {
        *self.calls.lock().unwrap() += 1;
        Ok(self.decision)
    }
}

fn at_limit_recorder() -> FixedTaskStartRecorder {
    FixedTaskStartRecorder {
        decision: TaskStartDecision::AtLimit {
            limit: 1,
            window: 24 * 60 * 60,
        },
        calls: Arc::new(StdMutex::new(0)),
    }
}

/// A file for pending markers.
#[derive(Clone)]
struct MarkerPath {
    file: Arc<StdMutex<tempfile::NamedTempFile>>,
}

impl MarkerPath {
    fn new(suffix: &str) -> MarkerPath {
        let file = tempfile::Builder::new().suffix(suffix).tempfile().unwrap();
        MarkerPath {
            file: Arc::new(StdMutex::new(file)),
        }
    }
}

/// Pending markers that are read from their file and written back on every use.
#[derive(Clone)]
struct MarkerFile {
    path: MarkerPath,
}

impl MarkerFile {
    fn new(path: &MarkerPath) -> MarkerFile {
        MarkerFile { path: path.clone() }
    }

    fn read(&self) -> PendingHandledMarkerLedger {
        let mut file = self.path.file.lock().unwrap();
        let mut contents = String::new();
        file.rewind().unwrap();
        file.read_to_string(&mut contents).unwrap();
        if contents.is_empty() {
            return PendingHandledMarkerLedger::new();
        }
        let lists: BTreeMap<String, Vec<String>> = serde_json::from_str(&contents).unwrap();
        PendingHandledMarkerLedger::from_urls(
            &lists["mention_api_urls"],
            &lists["pull_request_html_urls"],
        )
    }

    fn write(&self, ledger: &PendingHandledMarkerLedger) {
        let (mentions, pull_requests) = ledger.urls();
        let lists = BTreeMap::from([
            ("mention_api_urls", mentions),
            ("pull_request_html_urls", pull_requests),
        ]);
        let contents = serde_json::to_string(&lists).unwrap();
        let mut file = self.path.file.lock().unwrap();
        file.as_file().set_len(0).unwrap();
        file.rewind().unwrap();
        file.write_all(contents.as_bytes()).unwrap();
    }

    fn record(&self, marker: &PendingHandledMarker) {
        let mut ledger = self.read();
        ledger.insert(marker);
        self.write(&ledger);
    }

    fn remove(&self, marker: &PendingHandledMarker) {
        let mut ledger = self.read();
        ledger.remove(marker);
        self.write(&ledger);
    }

    fn contains(&self, marker: &PendingHandledMarker) -> bool {
        self.read().contains(marker)
    }
}

/// The bot with fakes around it.
struct TestMaid {
    maid: Maid,
    github: FakeGithub,
    worktrees: FakeWorktrees,
    codex: FakeCodex,
    task_starts: StdMutex<Box<dyn TaskStartRecorder>>,
    markers: MarkerFile,
}

fn done(result: Result<(), String>) -> Reply<String> {
    match result {
        Ok(()) => Reply::Done,
        Err(message) => Reply::Failed(message),
    }
}

impl TestMaid {
    fn with_task_start_recorder(mut self, recorder: FixedTaskStartRecorder) -> TestMaid {
        self.task_starts = StdMutex::new(Box::new(recorder));
        self
    }

    fn with_pending_handled_marker_store(mut self, store: MarkerFile) -> TestMaid {
        self.markers = store;
        self
    }

    fn perform(&self, action: Action) -> Reply<String> {
        let github = &self.github;
        match action {
            Action::Nothing => Reply::Done,
            Action::PendingMarkers => Reply::Markers(self.markers.read().pending()),
            Action::HasMarker { marker } => Reply::Found(self.markers.contains(&marker)),
            Action::RecordMarker { marker } => {
                self.markers.record(&marker);
                Reply::Done
            }
            Action::RemoveMarker { marker } => {
                self.markers.remove(&marker);
                Reply::Done
            }
            Action::RecordTaskStart => {
                match self.task_starts.lock().unwrap().try_record_started() {
                    Ok(decision) => Reply::Start(decision),
                    Err(error) => Reply::Failed(error.message),
                }
            }
            Action::LatestMention { .. } => match github.take_mention() {
                Ok(mention) => Reply::Latest(mention),
                Err(message) => Reply::Failed(message),
            },
            Action::RecentMentions { .. } => match github.take_mentions() {
                Ok(mentions) => Reply::Recent(mentions),
                Err(message) => Reply::Failed(message),
            },
            Action::MentionState { mention } => Reply::State(review_state(
                github
                    .handled_mentions
                    .lock()
                    .unwrap()
                    .contains(&mention.api_url),
            )),
            Action::MarkMentionStarted { mention } => {
                github.event("start");
                github.started_mentions.lock().unwrap().push(mention.api_url);
                Reply::Done
            }
            Action::MarkMentionHandled { mention } => done(github.mark_mention(mention.api_url)),
            Action::MarkMentionApiUrlHandled { api_url } => done(github.mark_mention(api_url)),
            Action::MarkNotificationHandled { notification } => {
                github.event("mark");
                github.marks.lock().unwrap().push(notification.id);
                Reply::Done
            }
            Action::PullRequestState { pr } => Reply::State(review_state(
                github.handled_prs.lock().unwrap().contains(&pr.html_url),
            )),
            Action::MarkPullRequestStarted { pr } => {
                github.event("start_pr");
                github.started_prs.lock().unwrap().push(pr.html_url);
                Reply::Done
            }
            Action::MarkPullRequestHandled { pr } => done(github.mark_pull_request(pr.html_url)),
            Action::MarkPullRequestHtmlUrlHandled { html_url } => {
                done(github.mark_pull_request(html_url))
            }
            Action::PrepareWorktree { target, .. } => match self.worktrees.prepare(&target) {
                Ok(worktree) => Reply::Worktree(worktree),
                Err(message) => Reply::Failed(message),
            },
            Action::RunCodex { worktree, task } => {
                self.codex.enter(&worktree, &task);
                match self.codex.answer() {
                    Ok(run) => Reply::Run(run),
                    Err(message) => Reply::Failed(message),
                }
            }
            Action::PostComment { body, .. } => done(github.post(body)),
            Action::CleanUp { .. } => Reply::Done,
        }
    }

    fn retry_markers(&self) -> Result<(), String> {
        let mut retry = MarkerRetry::new();
        loop {
            if let RetryStage::Ended(result) = retry.stage {
                return result;
            }
            let reply = self.perform(retry.action());
            retry = retry.on_reply(reply);
        }
    }

    fn assess_notification(
        &self,
        notification: Notification,
    ) -> Result<Vec<TaskAssessment>, String> {
        let mut scan = NotificationScan::new(&self.maid, notification);
        while scan.action() != Action::Nothing {
            let reply = self.perform(scan.action());
            scan = scan.on_reply(reply);
        }
        scan.into_result().unwrap()
    }

    fn assess_pull_request(
        &self,
        pr: PullRequest,
        scope: ReviewScope,
    ) -> Result<TaskAssessment, String> {
        let mut scan = PullRequestScan::new(&self.maid, pr, scope);
        loop {
            if let PullRequestStage::Ended(result) = scan.stage {
                return result;
            }
            let reply = self.perform(scan.action());
            scan = scan.on_reply(reply);
        }
    }

    fn start(&self, intent: TaskIntent) -> Result<TaskStartOutcome, String> {
        let mut start = TaskStart::new(intent);
        loop {
            if let StartStage::Ended(result) = start.stage {
                return result;
            }
            let reply = self.perform(start.action());
            start = start.on_reply(reply);
        }
    }

    fn finish(&self, intent: TaskIntent) -> Result<(), String> {
        self.finish_run(TaskRun::new(intent))
    }

    fn finish_run(&self, mut run: TaskRun<String>) -> Result<(), String> {
        loop {
            if let RunStage::Ended(result) = run.stage {
                return result;
            }
            let reply = self.perform(run.action());
            run = run.on_reply(reply);
        }
    }

    fn poll(
        &self,
        mut poll: Poll<String>,
        concurrent: Option<&TestConcurrent>,
    ) -> Result<PollReport, String> {
        loop {
            if let PollStage::Ended(result) = poll.stage {
                return result;
            }
            let reply = match poll.action() {
                PollAction::Nothing => PollReply::Done,
                PollAction::RetryMarkers => match self.retry_markers() {
                    Ok(()) => PollReply::Done,
                    Err(message) => PollReply::Failed(message),
                },
                PollAction::ListNotifications => {
                    PollReply::Notifications(self.github.notifications.lock().unwrap().clone())
                }
                PollAction::AssessNotification { notification } => {
                    match self.assess_notification(notification) {
                        Ok(assessments) => PollReply::Assessments(assessments),
                        Err(message) => PollReply::Failed(message),
                    }
                }
                PollAction::ListPullRequests { .. } => {
                    PollReply::PullRequests(self.github.pull_requests.lock().unwrap().clone())
                }
                PollAction::SearchPullRequests { .. } => {
                    let found = self.github.found.lock().unwrap();
                    PollReply::Found(
                        found
                            .iter()
                            .map(|(pr, base_private)| FoundPullRequest {
                                pr: pr.clone(),
                                base_private: *base_private,
                            })
                            .collect(),
                    )
                }
                PollAction::AssessPullRequest { pr, scope } => {
                    match self.assess_pull_request(pr, scope) {
                        Ok(assessment) => PollReply::Assessment(assessment),
                        Err(message) => PollReply::Failed(message),
                    }
                }
                PollAction::Start { intent } => match self.start(intent) {
                    Ok(outcome) => PollReply::Outcome(outcome),
                    Err(message) => PollReply::Failed(message),
                },
                PollAction::Finish { intent } => match self.finish(intent) {
                    Ok(()) => PollReply::Done,
                    Err(message) => PollReply::Failed(message),
                },
                PollAction::Spawn { intent } => {
                    concurrent.unwrap().spawn(intent);
                    PollReply::Done
                }
                action => {
                    let mut work = concurrent.unwrap().work.lock().unwrap();
                    work.answer(&action).unwrap()
                }
            };
            assert!(poll.has_room(&reply));
            poll = poll.on_reply(reply);
        }
    }

    fn run_once(&self) -> Result<PollReport, String> {
        self.poll(self.maid.run_once(), None)
    }

    fn into_concurrent(self, max_concurrent_requests: usize) -> TestConcurrent {
        let TestMaid {
            maid,
            github,
            worktrees,
            codex,
            task_starts,
            markers,
        } = self;
        let concurrent = maid.into_concurrent(max_concurrent_requests);
        let poll: Poll<String> = concurrent.run_once();
        assert_eq!(poll.mode, PollMode::Concurrent);
        let ConcurrentMaid { maid, work } = concurrent;
        TestConcurrent {
            maid: TestMaid {
                maid,
                github,
                worktrees,
                codex,
                task_starts,
                markers,
            },
            work: StdMutex::new(work),
            running: StdMutex::new(Vec::new()),
        }
    }
}

/// The bot with work beside its polls. A spawned task runs when it is told to.
struct TestConcurrent {
    maid: TestMaid,
    work: StdMutex<WorkQueue>,
    running: StdMutex<Vec<TaskRun<String>>>,
}

impl TestConcurrent {
    fn run_once(&self) -> Result<PollReport, String> {
        let repos = self.maid.maid.auto_review_repos.clone();
        let accounts = self.maid.maid.auto_review_public_accounts.clone();
        self.maid
            .poll(Poll::new(PollMode::Concurrent, repos, accounts), Some(self))
    }

    fn spawn(&self, intent: TaskIntent) {
        let run = TaskRun::new(intent);
        if self.maid.codex.blocking {
            self.running.lock().unwrap().push(run);
        } else {
            self.complete(run);
        }
    }

    fn complete(&self, run: TaskRun<String>) {
        let key = run.intent.task_key();
        let _ = self.maid.finish_run(run);
        self.work.lock().unwrap().release(&key);
    }

    /// Lets every spawned task get to Codex.
    fn enter_codex(&self) {
        let mut running = self.running.lock().unwrap();
        for run in std::mem::take(&mut *running) {
            let mut run = run;
            loop {
                let action = run.action();
                if let Action::RunCodex { worktree, task } = &action {
                    self.maid.codex.enter(worktree, task);
                    break;
                }
                let reply = self.maid.perform(action);
                run = run.on_reply(reply);
            }
            running.push(run);
        }
    }

    /// Lets Codex answer every task that waits for it.
    fn release_codex(&self) {
        let waiting = std::mem::take(&mut *self.running.lock().unwrap());
        for run in waiting {
            let reply = match self.maid.codex.answer() {
                Ok(answer) => Reply::Run(answer),
                Err(message) => Reply::Failed(message),
            };
            self.complete(run.on_reply(reply));
        }
    }
}

/// The numeric user ID behind a login.
fn id_of(login: &str) -> u64 {
    match login.to_lowercase().as_str() {
        "dionysuzx" => 1234,
        "maid-bot" => 42,
        _ => 5678,
    }
}

fn account(login: &str) -> TrustedAccount {
    TrustedAccount {
        login: login.to_string(),
        id: GitHubUserId::new(id_of(login)).unwrap(),
    }
}

fn maid(github: FakeGithub, worktrees: FakeWorktrees, codex: FakeCodex) -> TestMaid {
    TestMaid {
        maid: Maid::new(
            "maid-bot".to_string(),
            &vec![account("dionysuzx")],
            &vec![account("dionysuzx")],
            vec![RepoSlug {
                owner: "o".to_string(),
                repo: "r".to_string(),
            }],
        ),
        github,
        worktrees,
        codex,
        task_starts: StdMutex::new(Box::new(NoTaskLimit)),
        markers: MarkerFile::new(&MarkerPath::new("pending-handled-markers.json")),
    }
}

fn notification(id: &str) -> Notification {
    notification_with_comment(id, "2")
}

fn notification_with_comment(id: &str, comment_id: &str) -> Notification {
    Notification {
        id: id.to_string(),
        reason: "mention".to_string(),
        subject_kind: "PullRequest".to_string(),
        subject_url: Some("https://api.github.com/repos/o/r/pulls/1".to_string()),
        latest_comment_url: Some(format!(
            "https://api.github.com/repos/o/r/issues/comments/{comment_id}"
        )),
        unread: true,
        updated_at: "2026-06-08T04:00:00Z".to_string(),
    }
}

fn irrelevant_notification(id: &str) -> Notification {
    Notification {
        id: id.to_string(),
        reason: "subscribed".to_string(),
        subject_kind: "Issue".to_string(),
        subject_url: Some("https://api.github.com/repos/o/r/issues/1".to_string()),
        latest_comment_url: None,
        unread: true,
        updated_at: "2026-06-08T04:00:00Z".to_string(),
    }
}

fn pr() -> PullRequest {
    pr_with_author("dionysuzx")
}

fn pr_with_author(author: &str) -> PullRequest {
    pr_with_author_and_number(author, 1)
}

fn pr_with_number(number: u64) -> PullRequest {
    pr_with_author_and_number("dionysuzx", number)
}

fn pr_with_author_and_number(author: &str, number: u64) -> PullRequest {
    PullRequest {
        owner: "o".to_string(),
        repo: "r".to_string(),
        number,
        author: author.to_string(),
        author_id: id_of(author),
        api_url: format!("https://api.github.com/repos/o/r/pulls/{number}"),
        html_url: format!("https://github.com/o/r/pull/{number}"),
        clone_url: "https://github.com/o/r.git".to_string(),
    }
}

fn mention(author: &str, body: &str) -> CommentMention {
    mention_with_comment(author, body, "2")
}

fn mention_with_comment(author: &str, body: &str, comment_id: &str) -> CommentMention {
    CommentMention {
        author: author.to_string(),
        author_id: id_of(author),
        body: body.to_string(),
        api_url: format!("https://api.github.com/repos/o/r/issues/comments/{comment_id}"),
        html_url: format!("https://github.com/o/r/pull/1#issuecomment-{comment_id}"),
        target: WorkTarget::PullRequest(pr()),
    }
}

#[test]
fn builds_codex_resume_command_from_session_id() {
    let run = CodexRun {
        response: "done".to_string(),
        session_id: Some("019e64fd-8369-7453-9cdc-4b14b388f618".to_string()),
    };

    assert_eq!(
        run.resume_command(),
        Some((
            "019e64fd-8369-7453-9cdc-4b14b388f618",
            "codex resume --include-non-interactive --all 019e64fd-8369-7453-9cdc-4b14b388f618"
                .to_string()
        ))
    );
}

#[test]
fn task_keys_allow_distinct_mentions_on_the_same_pull_request() {
    let first_mention = mention_with_comment("dionysuzx", "@maid-bot first", "2");
    let second_mention = mention_with_comment("dionysuzx", "@maid-bot second", "3");
    let first = TaskIntent::Mention {
        notification: notification_with_comment("n1", "2"),
        task: CodexTask {
            pr_url: first_mention.target.html_url().to_string(),
            origin: CodexTaskOrigin::Mention {
                mention_url: first_mention.html_url.clone(),
                raw_body: first_mention.body.clone(),
                cleaned_text: "first".to_string(),
            },
        },
        mention: Box::new(first_mention),
    };
    let second = TaskIntent::Mention {
        notification: notification_with_comment("n1", "3"),
        task: CodexTask {
            pr_url: second_mention.target.html_url().to_string(),
            origin: CodexTaskOrigin::Mention {
                mention_url: second_mention.html_url.clone(),
                raw_body: second_mention.body.clone(),
                cleaned_text: "second".to_string(),
            },
        },
        mention: Box::new(second_mention),
    };

    assert_ne!(first.task_key(), second.task_key());
}

#[test]
fn responds_then_marks_mention_handled() {
    let worktree = "/tmp/maid-test-worktree".to_string();
    let github = FakeGithub::default();
    *github.notifications.lock().unwrap() = vec![notification("n1")];
    *github.mention.lock().unwrap() = Some(Ok(Some(mention(
        "dionysuzx",
        "@maid-bot please review this PR",
    ))));
    let worktrees = FakeWorktrees {
        worktree: worktree.clone(),
        calls: Arc::new(StdMutex::new(Vec::new())),
        error: Arc::new(StdMutex::new(None)),
    };
    let codex = FakeCodex::default();

    let report = maid(github.clone(), worktrees.clone(), codex.clone())
        .run_once()
        .unwrap();

    assert_eq!(report.responded, 1);
    assert_eq!(*github.posts.lock().unwrap(), vec!["codex response"]);
    assert!(github.marks.lock().unwrap().is_empty());
    assert_eq!(
        *github.events.lock().unwrap(),
        vec!["start", "post", "handled"]
    );
    assert_eq!(
        *github.started_mentions.lock().unwrap(),
        vec!["https://api.github.com/repos/o/r/issues/comments/2"]
    );
    assert!(
        github
            .handled_mentions
            .lock()
            .unwrap()
            .contains("https://api.github.com/repos/o/r/issues/comments/2")
    );
    assert_eq!(*worktrees.calls.lock().unwrap(), vec!["o/r"]);
    let calls = codex.calls.lock().unwrap();
    assert_eq!(calls[0].0, worktree);
    assert_eq!(calls[0].1.pr_url, "https://github.com/o/r/pull/1");
    assert_eq!(
        calls[0].1.origin,
        CodexTaskOrigin::Mention {
            mention_url: "https://github.com/o/r/pull/1#issuecomment-2".to_string(),
            raw_body: "@maid-bot please review this PR".to_string(),
            cleaned_text: "please review this PR".to_string(),
        }
    );
}

#[test]
fn trusted_operate_mention_uses_operator_task_origin() {
    let worktree = "/tmp/maid-test-worktree".to_string();
    let github = FakeGithub::default();
    *github.notifications.lock().unwrap() = vec![notification("n1")];
    *github.mention.lock().unwrap() = Some(Ok(Some(mention(
        "dionysuzx",
        "@maid-bot /operate implement and push",
    ))));
    let worktrees = FakeWorktrees {
        worktree: worktree.clone(),
        calls: Arc::new(StdMutex::new(Vec::new())),
        error: Arc::new(StdMutex::new(None)),
    };
    let codex = FakeCodex::default();

    let report = maid(github.clone(), worktrees.clone(), codex.clone())
        .run_once()
        .unwrap();

    assert_eq!(report.responded, 1);
    assert_eq!(*github.posts.lock().unwrap(), vec!["codex response"]);
    let calls = codex.calls.lock().unwrap();
    assert_eq!(calls[0].0, worktree);
    assert_eq!(
        calls[0].1.origin,
        CodexTaskOrigin::OperatorMention {
            mention_url: "https://github.com/o/r/pull/1#issuecomment-2".to_string(),
            raw_body: "@maid-bot /operate implement and push".to_string(),
            request_text: "implement and push".to_string(),
            trigger_author: "dionysuzx".to_string(),
            bot_login: "maid-bot".to_string(),
        }
    );
    let templates = CodexPromptTemplates {
        mention: String::new(),
        pull_request_opened: String::new(),
        operator_mention: "operate {{request_text}} for {{trigger_author}}".to_string(),
    };
    assert_eq!(
        calls[0].1.prompt(&templates).unwrap(),
        "operate implement and push for dionysuzx"
    );
}

#[test]
fn responds_to_opened_pr_from_auto_review_account() {
    let worktree = "/tmp/maid-test-worktree".to_string();
    let github = FakeGithub::default();
    *github.pull_requests.lock().unwrap() = vec![pr()];
    let worktrees = FakeWorktrees {
        worktree: worktree.clone(),
        calls: Arc::new(StdMutex::new(Vec::new())),
        error: Arc::new(StdMutex::new(None)),
    };
    let codex = FakeCodex::default();

    let report = maid(github.clone(), worktrees.clone(), codex.clone())
        .run_once()
        .unwrap();

    assert_eq!(report.seen, 1);
    assert_eq!(report.responded, 1);
    assert_eq!(*github.posts.lock().unwrap(), vec!["codex response"]);
    assert!(github.marks.lock().unwrap().is_empty());
    assert_eq!(
        *github.events.lock().unwrap(),
        vec!["start_pr", "post", "handled_pr"]
    );
    assert_eq!(
        *github.started_prs.lock().unwrap(),
        vec!["https://github.com/o/r/pull/1"]
    );
    assert!(
        github
            .handled_prs
            .lock()
            .unwrap()
            .contains("https://github.com/o/r/pull/1")
    );
    assert_eq!(*worktrees.calls.lock().unwrap(), vec!["o/r"]);
    let calls = codex.calls.lock().unwrap();
    assert_eq!(calls[0].0, worktree);
    assert_eq!(calls[0].1.pr_url, "https://github.com/o/r/pull/1");
    assert_eq!(
        calls[0].1.origin,
        CodexTaskOrigin::PullRequestOpened {
            author: "dionysuzx".to_string(),
        }
    );
}

#[test]
fn concurrent_run_returns_after_starting_work() {
    let worktree = "/tmp/maid-test-worktree".to_string();
    let github = FakeGithub::default();
    *github.pull_requests.lock().unwrap() = vec![pr()];
    let worktrees = FakeWorktrees {
        worktree,
        calls: Arc::new(StdMutex::new(Vec::new())),
        error: Arc::new(StdMutex::new(None)),
    };
    let codex = FakeCodex::blocking();
    let maid = maid(github.clone(), worktrees, codex).into_concurrent(1);

    let report = maid.run_once().unwrap();

    assert_eq!(report.seen, 1);
    assert_eq!(report.started, 1);
    assert_eq!(report.responded, 0);
    assert_eq!(report.in_flight, 1);
    assert!(github.posts.lock().unwrap().is_empty());

    maid.enter_codex();
    assert!(
        github.posts.lock().unwrap().is_empty(),
        "Codex is still running, so the response should not be posted yet"
    );

    maid.release_codex();
    assert!(github.posts.lock().unwrap().len() == 1);
    assert_eq!(*github.posts.lock().unwrap(), vec!["codex response"]);
}

#[test]
fn concurrent_run_respects_max_concurrent_requests() {
    let worktree = "/tmp/maid-test-worktree".to_string();
    let github = FakeGithub::default();
    *github.pull_requests.lock().unwrap() = vec![pr_with_number(1), pr_with_number(2)];
    let worktrees = FakeWorktrees {
        worktree,
        calls: Arc::new(StdMutex::new(Vec::new())),
        error: Arc::new(StdMutex::new(None)),
    };
    let codex = FakeCodex::blocking();
    let maid = maid(github.clone(), worktrees, codex.clone()).into_concurrent(1);

    let first_report = maid.run_once().unwrap();

    assert_eq!(first_report.seen, 2);
    assert_eq!(first_report.started, 1);
    assert_eq!(first_report.skipped, 1);
    assert_eq!(first_report.in_flight, 1);
    maid.enter_codex();
    assert_eq!(codex.calls.lock().unwrap().len(), 1);

    maid.release_codex();
    assert!(github.handled_prs.lock().unwrap().len() == 1);

    let second_report = maid.run_once().unwrap();

    assert_eq!(second_report.started, 1);
    assert_eq!(second_report.skipped, 1);
    maid.enter_codex();
    maid.release_codex();
    assert!(github.handled_prs.lock().unwrap().len() == 2);
}

#[test]
fn leaves_eligible_mention_pending_when_task_limit_is_reached() {
    let github = FakeGithub::default();
    *github.notifications.lock().unwrap() = vec![notification("n1")];
    *github.mention.lock().unwrap() = Some(Ok(Some(mention("dionysuzx", "@maid-bot review"))));
    let worktrees = FakeWorktrees {
        worktree: "/tmp/unused".to_string(),
        calls: Arc::new(StdMutex::new(Vec::new())),
        error: Arc::new(StdMutex::new(None)),
    };
    let codex = FakeCodex::default();
    let task_starts = at_limit_recorder();

    let report = maid(github.clone(), worktrees.clone(), codex.clone())
        .with_task_start_recorder(task_starts.clone())
        .run_once()
        .unwrap();

    assert_eq!(report.skipped, 1);
    assert_eq!(*task_starts.calls.lock().unwrap(), 1);
    assert!(github.posts.lock().unwrap().is_empty());
    assert!(github.marks.lock().unwrap().is_empty());
    assert!(github.events.lock().unwrap().is_empty());
    assert!(worktrees.calls.lock().unwrap().is_empty());
    assert!(codex.calls.lock().unwrap().is_empty());
}

#[test]
fn leaves_auto_review_pr_pending_when_task_limit_is_reached() {
    let github = FakeGithub::default();
    *github.pull_requests.lock().unwrap() = vec![pr()];
    let worktrees = FakeWorktrees {
        worktree: "/tmp/unused".to_string(),
        calls: Arc::new(StdMutex::new(Vec::new())),
        error: Arc::new(StdMutex::new(None)),
    };
    let codex = FakeCodex::default();
    let task_starts = at_limit_recorder();

    let report = maid(github.clone(), worktrees.clone(), codex.clone())
        .with_task_start_recorder(task_starts.clone())
        .run_once()
        .unwrap();

    assert_eq!(report.seen, 1);
    assert_eq!(report.skipped, 1);
    assert_eq!(*task_starts.calls.lock().unwrap(), 1);
    assert!(github.posts.lock().unwrap().is_empty());
    assert!(github.marks.lock().unwrap().is_empty());
    assert!(github.events.lock().unwrap().is_empty());
    assert!(worktrees.calls.lock().unwrap().is_empty());
    assert!(codex.calls.lock().unwrap().is_empty());
}

#[test]
fn skips_opened_pr_from_account_without_auto_review() {
    let github = FakeGithub::default();
    *github.pull_requests.lock().unwrap() = vec![pr_with_author("mayushii")];
    let worktrees = FakeWorktrees {
        worktree: "/tmp/unused".to_string(),
        calls: Arc::new(StdMutex::new(Vec::new())),
        error: Arc::new(StdMutex::new(None)),
    };
    let codex = FakeCodex::default();

    let report = maid(github.clone(), worktrees.clone(), codex.clone())
        .run_once()
        .unwrap();

    assert_eq!(report.seen, 1);
    assert_eq!(report.skipped, 1);
    assert!(github.posts.lock().unwrap().is_empty());
    assert!(github.marks.lock().unwrap().is_empty());
    assert!(worktrees.calls.lock().unwrap().is_empty());
    assert!(codex.calls.lock().unwrap().is_empty());
}

#[test]
fn skips_opened_pr_with_durable_handled_marker_after_restart() {
    let github = FakeGithub::default();
    *github.pull_requests.lock().unwrap() = vec![pr()];
    github
        .handled_prs
        .lock()
        .unwrap()
        .insert("https://github.com/o/r/pull/1".to_string());
    let worktrees = FakeWorktrees {
        worktree: "/tmp/unused".to_string(),
        calls: Arc::new(StdMutex::new(Vec::new())),
        error: Arc::new(StdMutex::new(None)),
    };
    let codex = FakeCodex::default();

    let report = maid(github.clone(), worktrees.clone(), codex.clone())
        .run_once()
        .unwrap();

    assert_eq!(report.seen, 1);
    assert_eq!(report.skipped, 1);
    assert!(github.posts.lock().unwrap().is_empty());
    assert!(github.marks.lock().unwrap().is_empty());
    assert!(github.events.lock().unwrap().is_empty());
    assert!(worktrees.calls.lock().unwrap().is_empty());
    assert!(codex.calls.lock().unwrap().is_empty());
}

#[test]
fn ignores_self_authored_opened_prs() {
    let github = FakeGithub::default();
    *github.pull_requests.lock().unwrap() = vec![pr_with_author("maid-bot")];
    let worktrees = FakeWorktrees {
        worktree: "/tmp/unused".to_string(),
        calls: Arc::new(StdMutex::new(Vec::new())),
        error: Arc::new(StdMutex::new(None)),
    };
    let codex = FakeCodex::default();

    let report = maid(github.clone(), worktrees.clone(), codex.clone())
        .run_once()
        .unwrap();

    assert_eq!(report.seen, 1);
    assert_eq!(report.skipped, 1);
    assert!(github.posts.lock().unwrap().is_empty());
    assert!(github.marks.lock().unwrap().is_empty());
    assert!(worktrees.calls.lock().unwrap().is_empty());
    assert!(codex.calls.lock().unwrap().is_empty());
}

#[test]
fn ignores_self_authored_mentions() {
    let github = FakeGithub::default();
    *github.notifications.lock().unwrap() = vec![notification("n1")];
    *github.mention.lock().unwrap() = Some(Ok(Some(mention("maid-bot", "@maid-bot review"))));
    let worktrees = FakeWorktrees {
        worktree: "/tmp/unused".to_string(),
        calls: Arc::new(StdMutex::new(Vec::new())),
        error: Arc::new(StdMutex::new(None)),
    };
    let codex = FakeCodex::default();

    let report = maid(github.clone(), worktrees.clone(), codex.clone())
        .run_once()
        .unwrap();

    assert_eq!(report.skipped, 1);
    assert!(github.posts.lock().unwrap().is_empty());
    assert_eq!(*github.marks.lock().unwrap(), vec!["n1"]);
    assert!(worktrees.calls.lock().unwrap().is_empty());
    assert!(codex.calls.lock().unwrap().is_empty());
}

#[test]
fn marks_irrelevant_unread_notifications_handled() {
    let github = FakeGithub::default();
    *github.notifications.lock().unwrap() = vec![irrelevant_notification("n1")];
    let worktrees = FakeWorktrees {
        worktree: "/tmp/unused".to_string(),
        calls: Arc::new(StdMutex::new(Vec::new())),
        error: Arc::new(StdMutex::new(None)),
    };
    let codex = FakeCodex::default();

    let report = maid(github.clone(), worktrees.clone(), codex.clone())
        .run_once()
        .unwrap();

    assert_eq!(report.skipped, 1);
    assert_eq!(*github.marks.lock().unwrap(), vec!["n1"]);
    assert!(github.posts.lock().unwrap().is_empty());
    assert!(worktrees.calls.lock().unwrap().is_empty());
    assert!(codex.calls.lock().unwrap().is_empty());
}

#[test]
fn ignores_mentions_from_non_master_accounts() {
    let github = FakeGithub::default();
    *github.notifications.lock().unwrap() = vec![notification("n1")];
    *github.mention.lock().unwrap() =
        Some(Ok(Some(mention("not-trusted", "@maid-bot review"))));
    let worktrees = FakeWorktrees {
        worktree: "/tmp/unused".to_string(),
        calls: Arc::new(StdMutex::new(Vec::new())),
        error: Arc::new(StdMutex::new(None)),
    };
    let codex = FakeCodex::default();

    let report = maid(github.clone(), worktrees.clone(), codex.clone())
        .run_once()
        .unwrap();

    assert_eq!(report.skipped, 1);
    assert!(github.posts.lock().unwrap().is_empty());
    assert_eq!(*github.marks.lock().unwrap(), vec!["n1"]);
    assert!(worktrees.calls.lock().unwrap().is_empty());
    assert!(codex.calls.lock().unwrap().is_empty());
}

#[test]
fn master_account_matching_is_case_insensitive() {
    let github = FakeGithub::default();
    *github.notifications.lock().unwrap() = vec![notification("n1")];
    *github.mention.lock().unwrap() = Some(Ok(Some(mention("Dionysuzx", "@maid-bot review"))));
    let worktrees = FakeWorktrees {
        worktree: "/tmp/worktree".to_string(),
        calls: Arc::new(StdMutex::new(Vec::new())),
        error: Arc::new(StdMutex::new(None)),
    };
    let codex = FakeCodex::default();

    let report = maid(github.clone(), worktrees, codex)
        .run_once()
        .unwrap();

    assert_eq!(report.responded, 1);
    assert_eq!(*github.posts.lock().unwrap(), vec!["codex response"]);
}

#[test]
fn skips_duplicate_latest_comment_after_success() {
    let github = FakeGithub::default();
    *github.notifications.lock().unwrap() = vec![notification("n1"), notification("n1")];
    *github.mention.lock().unwrap() = Some(Ok(Some(mention("dionysuzx", "@maid-bot review"))));
    let worktrees = FakeWorktrees {
        worktree: "/tmp/worktree".to_string(),
        calls: Arc::new(StdMutex::new(Vec::new())),
        error: Arc::new(StdMutex::new(None)),
    };
    let codex = FakeCodex::default();
    let maid = maid(github.clone(), worktrees, codex);

    let first_report = maid.run_once().unwrap();
    *github.mention.lock().unwrap() = Some(Ok(Some(mention("dionysuzx", "@maid-bot review"))));
    let second_report = maid.run_once().unwrap();

    assert_eq!(first_report.responded, 1);
    assert_eq!(first_report.skipped, 1);
    assert_eq!(second_report.responded, 0);
    assert_eq!(second_report.skipped, 2);
    assert_eq!(github.posts.lock().unwrap().len(), 1);
    assert_eq!(github.marks.lock().unwrap().len(), 1);
}

#[test]
fn responds_to_new_latest_comment_on_same_notification_thread() {
    let github = FakeGithub::default();
    *github.notifications.lock().unwrap() = vec![notification_with_comment("n1", "2")];
    *github.mention.lock().unwrap() = Some(Ok(Some(mention_with_comment(
        "dionysuzx",
        "@maid-bot first",
        "2",
    ))));
    let worktrees = FakeWorktrees {
        worktree: "/tmp/worktree".to_string(),
        calls: Arc::new(StdMutex::new(Vec::new())),
        error: Arc::new(StdMutex::new(None)),
    };
    let codex = FakeCodex::default();
    let maid = maid(github.clone(), worktrees, codex);

    let first_report = maid.run_once().unwrap();

    *github.notifications.lock().unwrap() = vec![notification_with_comment("n1", "3")];
    *github.mention.lock().unwrap() = Some(Ok(Some(mention_with_comment(
        "dionysuzx",
        "@maid-bot second",
        "3",
    ))));

    let second_report = maid.run_once().unwrap();

    assert_eq!(first_report.responded, 1);
    assert_eq!(second_report.responded, 1);
    assert_eq!(github.posts.lock().unwrap().len(), 2);
    assert!(github.marks.lock().unwrap().is_empty());
}

#[test]
fn responds_to_pending_mention_hidden_behind_latest_bot_comment() {
    let github = FakeGithub::default();
    *github.notifications.lock().unwrap() = vec![notification_with_comment("n1", "4")];
    *github.mention.lock().unwrap() = Some(Ok(Some(mention_with_comment(
        "maid-bot",
        "codex response",
        "4",
    ))));
    github
        .handled_mentions
        .lock()
        .unwrap()
        .insert("https://api.github.com/repos/o/r/issues/comments/2".to_string());
    *github.mentions.lock().unwrap() = Some(Ok(vec![
        mention_with_comment("dionysuzx", "@maid-bot first", "2"),
        mention_with_comment("dionysuzx", "@maid-bot second", "3"),
        mention_with_comment("maid-bot", "codex response", "4"),
    ]));
    let worktrees = FakeWorktrees {
        worktree: "/tmp/worktree".to_string(),
        calls: Arc::new(StdMutex::new(Vec::new())),
        error: Arc::new(StdMutex::new(None)),
    };
    let codex = FakeCodex::default();

    let report = maid(github.clone(), worktrees, codex)
        .run_once()
        .unwrap();

    assert_eq!(report.responded, 1);
    assert_eq!(
        *github.started_mentions.lock().unwrap(),
        vec!["https://api.github.com/repos/o/r/issues/comments/3"]
    );
    assert_eq!(github.posts.lock().unwrap().len(), 1);
    assert!(github.marks.lock().unwrap().is_empty());
}

#[test]
fn concurrent_run_starts_multiple_pending_mentions_from_same_notification() {
    let github = FakeGithub::default();
    *github.notifications.lock().unwrap() = vec![notification_with_comment("n1", "4")];
    *github.mention.lock().unwrap() = Some(Ok(Some(mention_with_comment(
        "maid-bot",
        "codex response",
        "4",
    ))));
    *github.mentions.lock().unwrap() = Some(Ok(vec![
        mention_with_comment("dionysuzx", "@maid-bot first", "2"),
        mention_with_comment("dionysuzx", "@maid-bot second", "3"),
        mention_with_comment("dionysuzx", "@maid-bot third", "4"),
    ]));
    let worktrees = FakeWorktrees {
        worktree: "/tmp/worktree".to_string(),
        calls: Arc::new(StdMutex::new(Vec::new())),
        error: Arc::new(StdMutex::new(None)),
    };
    let codex = FakeCodex::default();
    let maid = maid(github.clone(), worktrees, codex).into_concurrent(4);

    let report = maid.run_once().unwrap();

    assert_eq!(report.started, 3);
    assert_eq!(
        *github.started_mentions.lock().unwrap(),
        vec![
            "https://api.github.com/repos/o/r/issues/comments/2",
            "https://api.github.com/repos/o/r/issues/comments/3",
            "https://api.github.com/repos/o/r/issues/comments/4"
        ]
    );
    assert!(github.marks.lock().unwrap().is_empty());
}

#[test]
fn concurrent_run_scans_when_latest_mention_is_pending_trusted_request() {
    let github = FakeGithub::default();
    *github.notifications.lock().unwrap() = vec![notification_with_comment("n1", "4")];
    *github.mention.lock().unwrap() = Some(Ok(Some(mention_with_comment(
        "dionysuzx",
        "@maid-bot third",
        "4",
    ))));
    *github.mentions.lock().unwrap() = Some(Ok(vec![
        mention_with_comment("dionysuzx", "@maid-bot first", "2"),
        mention_with_comment("dionysuzx", "@maid-bot second", "3"),
        mention_with_comment("dionysuzx", "@maid-bot third", "4"),
    ]));
    let worktrees = FakeWorktrees {
        worktree: "/tmp/worktree".to_string(),
        calls: Arc::new(StdMutex::new(Vec::new())),
        error: Arc::new(StdMutex::new(None)),
    };
    let codex = FakeCodex::default();
    let maid = maid(github.clone(), worktrees, codex).into_concurrent(4);

    let report = maid.run_once().unwrap();

    assert_eq!(report.started, 3);
    assert_eq!(
        *github.started_mentions.lock().unwrap(),
        vec![
            "https://api.github.com/repos/o/r/issues/comments/2",
            "https://api.github.com/repos/o/r/issues/comments/3",
            "https://api.github.com/repos/o/r/issues/comments/4"
        ]
    );
}

#[test]
fn handled_latest_trusted_request_does_not_resurrect_older_mentions() {
    let github = FakeGithub::default();
    *github.notifications.lock().unwrap() = vec![notification_with_comment("n1", "4")];
    *github.mention.lock().unwrap() = Some(Ok(Some(mention_with_comment(
        "dionysuzx",
        "@maid-bot already handled",
        "4",
    ))));
    *github.mentions.lock().unwrap() = Some(Ok(vec![
        mention_with_comment("dionysuzx", "@maid-bot older pending", "2"),
        mention_with_comment("dionysuzx", "@maid-bot already handled", "4"),
    ]));
    github
        .handled_mentions
        .lock()
        .unwrap()
        .insert("https://api.github.com/repos/o/r/issues/comments/4".to_string());
    let worktrees = FakeWorktrees {
        worktree: "/tmp/worktree".to_string(),
        calls: Arc::new(StdMutex::new(Vec::new())),
        error: Arc::new(StdMutex::new(None)),
    };
    let codex = FakeCodex::default();

    let report = maid(github.clone(), worktrees, codex)
        .run_once()
        .unwrap();

    assert_eq!(report.skipped, 1);
    assert!(github.started_mentions.lock().unwrap().is_empty());
    assert!(github.posts.lock().unwrap().is_empty());
    assert_eq!(*github.marks.lock().unwrap(), vec!["n1"]);
}

#[test]
fn skips_mentions_with_durable_handled_marker_after_restart() {
    let github = FakeGithub::default();
    *github.notifications.lock().unwrap() = vec![notification("n1")];
    *github.mention.lock().unwrap() = Some(Ok(Some(mention("dionysuzx", "@maid-bot review"))));
    github
        .handled_mentions
        .lock()
        .unwrap()
        .insert("https://api.github.com/repos/o/r/issues/comments/2".to_string());
    let worktrees = FakeWorktrees {
        worktree: "/tmp/worktree".to_string(),
        calls: Arc::new(StdMutex::new(Vec::new())),
        error: Arc::new(StdMutex::new(None)),
    };
    let codex = FakeCodex::default();

    let report = maid(github.clone(), worktrees.clone(), codex.clone())
        .run_once()
        .unwrap();

    assert_eq!(report.skipped, 1);
    assert!(github.posts.lock().unwrap().is_empty());
    assert_eq!(*github.marks.lock().unwrap(), vec!["n1"]);
    assert!(worktrees.calls.lock().unwrap().is_empty());
    assert!(codex.calls.lock().unwrap().is_empty());
}

#[test]
fn repo_prep_failure_does_not_post_or_mark() {
    let github = FakeGithub::default();
    *github.notifications.lock().unwrap() = vec![notification("n1")];
    *github.mention.lock().unwrap() = Some(Ok(Some(mention("dionysuzx", "@maid-bot review"))));
    let worktrees = FakeWorktrees {
        worktree: "/tmp/worktree".to_string(),
        calls: Arc::new(StdMutex::new(Vec::new())),
        error: Arc::new(StdMutex::new(Some("clone failed".to_string()))),
    };
    let codex = FakeCodex::default();

    let report = maid(github.clone(), worktrees, codex.clone())
        .run_once()
        .unwrap();

    assert_eq!(report.failed, 1);
    assert!(github.posts.lock().unwrap().is_empty());
    assert!(github.marks.lock().unwrap().is_empty());
    assert!(codex.calls.lock().unwrap().is_empty());
}

#[test]
fn codex_failure_does_not_post_or_mark() {
    let github = FakeGithub::default();
    *github.notifications.lock().unwrap() = vec![notification("n1")];
    *github.mention.lock().unwrap() = Some(Ok(Some(mention("dionysuzx", "@maid-bot review"))));
    let worktrees = FakeWorktrees {
        worktree: "/tmp/worktree".to_string(),
        calls: Arc::new(StdMutex::new(Vec::new())),
        error: Arc::new(StdMutex::new(None)),
    };
    let codex = FakeCodex::default();
    *codex.error.lock().unwrap() = Some("codex failed".to_string());

    let report = maid(github.clone(), worktrees, codex)
        .run_once()
        .unwrap();

    assert_eq!(report.failed, 1);
    assert!(github.posts.lock().unwrap().is_empty());
    assert!(github.marks.lock().unwrap().is_empty());
}

#[test]
fn post_failure_does_not_mark_notification_handled() {
    let github = FakeGithub::default();
    *github.notifications.lock().unwrap() = vec![notification("n1")];
    *github.mention.lock().unwrap() = Some(Ok(Some(mention("dionysuzx", "@maid-bot review"))));
    *github.post_error.lock().unwrap() = Some("post failed".to_string());
    let worktrees = FakeWorktrees {
        worktree: "/tmp/worktree".to_string(),
        calls: Arc::new(StdMutex::new(Vec::new())),
        error: Arc::new(StdMutex::new(None)),
    };
    let codex = FakeCodex::default();

    let report = maid(github.clone(), worktrees, codex)
        .run_once()
        .unwrap();

    assert_eq!(report.failed, 1);
    assert!(github.marks.lock().unwrap().is_empty());
    assert_eq!(*github.events.lock().unwrap(), vec!["start", "post"]);
}

#[test]
fn handled_marker_failure_after_post_leaves_notification_pending() {
    let github = FakeGithub::default();
    *github.notifications.lock().unwrap() = vec![notification("n1")];
    *github.mention.lock().unwrap() = Some(Ok(Some(mention("dionysuzx", "@maid-bot review"))));
    *github.handled_error.lock().unwrap() = Some("reaction failed".to_string());
    let worktrees = FakeWorktrees {
        worktree: "/tmp/worktree".to_string(),
        calls: Arc::new(StdMutex::new(Vec::new())),
        error: Arc::new(StdMutex::new(None)),
    };
    let codex = FakeCodex::default();

    let report = maid(github.clone(), worktrees, codex)
        .run_once()
        .unwrap();

    assert_eq!(report.responded, 1);
    assert_eq!(*github.posts.lock().unwrap(), vec!["codex response"]);
    assert!(github.marks.lock().unwrap().is_empty());
    assert!(github.handled_mentions.lock().unwrap().is_empty());
    assert_eq!(
        *github.events.lock().unwrap(),
        vec!["start", "post", "handled"]
    );
}

#[test]
fn retries_pending_mention_marker_without_rerunning_codex() {
    let marker_path = MarkerPath::new("pending-handled-markers.json");
    let github = FakeGithub::default();
    *github.notifications.lock().unwrap() = vec![notification("n1")];
    *github.mention.lock().unwrap() = Some(Ok(Some(mention("dionysuzx", "@maid-bot review"))));
    *github.handled_error.lock().unwrap() = Some("reaction failed".to_string());
    let worktrees = FakeWorktrees {
        worktree: "/tmp/worktree".to_string(),
        calls: Arc::new(StdMutex::new(Vec::new())),
        error: Arc::new(StdMutex::new(None)),
    };
    let codex = FakeCodex::default();
    let maid = maid(github.clone(), worktrees, codex.clone())
        .with_pending_handled_marker_store(
            MarkerFile::new(&marker_path),
        );

    let first_report = maid.run_once().unwrap();
    *github.mention.lock().unwrap() = Some(Ok(Some(mention("dionysuzx", "@maid-bot review"))));
    let second_report = maid.run_once().unwrap();
    *github.mention.lock().unwrap() = Some(Ok(Some(mention("dionysuzx", "@maid-bot review"))));
    let third_report = maid.run_once().unwrap();

    assert_eq!(first_report.responded, 1);
    assert_eq!(second_report.skipped, 1);
    assert_eq!(third_report.skipped, 1);
    assert_eq!(*github.posts.lock().unwrap(), vec!["codex response"]);
    assert_eq!(codex.calls.lock().unwrap().len(), 1);
    assert_eq!(*github.marks.lock().unwrap(), vec!["n1", "n1"]);
    assert!(
        github
            .handled_mentions
            .lock()
            .unwrap()
            .contains("https://api.github.com/repos/o/r/issues/comments/2")
    );
}

#[test]
fn retries_pending_mention_marker_without_notification() {
    let marker_path = MarkerPath::new("pending-handled-markers.json");
    let marker = PendingHandledMarker::Mention {
        api_url: "https://api.github.com/repos/o/r/issues/comments/2".to_string(),
    };
    let store = MarkerFile::new(&marker_path);
    store.record(&marker);

    let github = FakeGithub::default();
    let worktrees = FakeWorktrees {
        worktree: "/tmp/worktree".to_string(),
        calls: Arc::new(StdMutex::new(Vec::new())),
        error: Arc::new(StdMutex::new(None)),
    };
    let codex = FakeCodex::default();
    let maid =
        maid(github.clone(), worktrees, codex.clone()).with_pending_handled_marker_store(store);

    let report = maid.run_once().unwrap();

    assert_eq!(report.started, 0);
    assert_eq!(*github.posts.lock().unwrap(), Vec::<String>::new());
    assert_eq!(codex.calls.lock().unwrap().len(), 0);
    assert!(
        github
            .handled_mentions
            .lock()
            .unwrap()
            .contains("https://api.github.com/repos/o/r/issues/comments/2")
    );
    assert!(
        !MarkerFile::new(&marker_path)
            .contains(&marker)
    );
}

#[test]
fn retries_pending_auto_review_marker_without_rerunning_codex() {
    let marker_path = MarkerPath::new("pending-handled-markers.json");
    let github = FakeGithub::default();
    *github.pull_requests.lock().unwrap() = vec![pr()];
    *github.handled_error.lock().unwrap() = Some("reaction failed".to_string());
    let worktrees = FakeWorktrees {
        worktree: "/tmp/worktree".to_string(),
        calls: Arc::new(StdMutex::new(Vec::new())),
        error: Arc::new(StdMutex::new(None)),
    };
    let codex = FakeCodex::default();
    let maid = maid(github.clone(), worktrees, codex.clone())
        .with_pending_handled_marker_store(
            MarkerFile::new(&marker_path),
        );

    let first_report = maid.run_once().unwrap();
    let second_report = maid.run_once().unwrap();

    assert_eq!(first_report.responded, 1);
    assert_eq!(second_report.skipped, 1);
    assert_eq!(*github.posts.lock().unwrap(), vec!["codex response"]);
    assert_eq!(codex.calls.lock().unwrap().len(), 1);
    assert!(
        github
            .handled_prs
            .lock()
            .unwrap()
            .contains("https://github.com/o/r/pull/1")
    );
}

#[test]
fn retries_pending_auto_review_marker_without_open_pull_request() {
    let marker_path = MarkerPath::new("pending-handled-markers.json");
    let marker = PendingHandledMarker::PullRequest {
        html_url: "https://github.com/o/r/pull/1".to_string(),
    };
    let store = MarkerFile::new(&marker_path);
    store.record(&marker);

    let github = FakeGithub::default();
    let worktrees = FakeWorktrees {
        worktree: "/tmp/worktree".to_string(),
        calls: Arc::new(StdMutex::new(Vec::new())),
        error: Arc::new(StdMutex::new(None)),
    };
    let codex = FakeCodex::default();
    let maid =
        maid(github.clone(), worktrees, codex.clone()).with_pending_handled_marker_store(store);

    let report = maid.run_once().unwrap();

    assert_eq!(report.started, 0);
    assert_eq!(*github.posts.lock().unwrap(), Vec::<String>::new());
    assert_eq!(codex.calls.lock().unwrap().len(), 0);
    assert!(
        github
            .handled_prs
            .lock()
            .unwrap()
            .contains("https://github.com/o/r/pull/1")
    );
    assert!(
        !MarkerFile::new(&marker_path)
            .contains(&marker)
    );
}

#[test]
fn notifications_are_told_apart_by_their_latest_comment() {
    let commented = notification_with_comment("n1", "2");
    let bare = irrelevant_notification("n1");

    assert_eq!(
        work_key(&commented),
        "https://api.github.com/repos/o/r/issues/comments/2"
    );
    assert_eq!(work_key(&bare), "n1");
}

#[test]
fn work_is_reserved_once_and_within_the_slots() {
    let mut work = WorkQueue::new(2);

    assert!(work.try_reserve("a"));
    assert!(!work.try_reserve("a"));
    assert!(work.try_reserve("b"));
    assert!(!work.try_reserve("c"));
    assert_eq!(work.in_flight(), 2);
    work.release("a");
    assert!(work.try_reserve("c"));
}

#[test]
fn worktrees_know_where_they_are() {
    let plain = PreparedWorktree::new("/w");
    let linked = PreparedWorktree::git_worktree("/repo", "/w");

    assert_eq!((plain.path(), plain.repo()), ("/w", None));
    assert_eq!((linked.path(), linked.repo()), ("/w", Some("/repo")));
}

#[test]
fn one_failure_does_not_stop_the_poll() {
    let github = FakeGithub::default();
    *github.notifications.lock().unwrap() = vec![notification("n1")];
    *github.mention.lock().unwrap() = Some(Err("lookup failed".to_string()));
    *github.pull_requests.lock().unwrap() = vec![pr()];
    let worktrees = FakeWorktrees {
        worktree: "/tmp/worktree".to_string(),
        calls: Arc::new(StdMutex::new(Vec::new())),
        error: Arc::new(StdMutex::new(None)),
    };

    let report = maid(github.clone(), worktrees, FakeCodex::default())
        .run_once()
        .unwrap();

    assert_eq!(
        report,
        PollReport {
            seen: 2,
            failed: 1,
            responded: 1,
            ..PollReport::default()
        }
    );
}

#[test]
fn replies_that_do_not_fit_change_nothing() {
    let intent = maid::maid::intent_for_pull_request(&pr());
    let start: TaskStart<String> = TaskStart::new(intent.clone());
    let start = start.on_reply(Reply::Found(true));
    assert_eq!(start.action(), Action::RecordTaskStart);

    let run: TaskRun<String> = TaskRun::new(intent.clone());
    let run = run.on_reply(Reply::Done);
    assert_eq!(
        run.action(),
        Action::PrepareWorktree {
            target: intent.target(),
            task: intent.task()
        }
    );
}

#[test]
fn a_failed_clean_up_is_reported_after_the_response() {
    let run: TaskRun<String> = TaskRun::new(maid::maid::intent_for_pull_request(&pr()));
    let run = run
        .on_reply(Reply::Worktree(PreparedWorktree::new("/w")))
        .on_reply(Reply::Failed("codex failed".to_string()))
        .on_reply(Reply::Failed("clean-up failed".to_string()));

    assert_eq!(
        run.stage,
        RunStage::Ended(Err("codex failed".to_string()))
    );
}

#[test]
fn a_slot_is_given_back_or_handed_off() {
    let intent = TaskIntent::AutoReviewPullRequest {
        pr: pr(),
        task: CodexTask {
            pr_url: pr().html_url,
            origin: CodexTaskOrigin::PullRequestOpened { author: pr().author },
        },
    };
    let repo = RepoSlug {
        owner: "o".to_string(),
        repo: "r".to_string(),
    };
    let poll: Poll<String> = Poll::new(PollMode::Concurrent, vec![repo], Vec::new());
    let poll = poll
        .on_reply(PollReply::Notifications(Vec::new()))
        .on_reply(PollReply::PullRequests(vec![pr(), pr_with_number(2)]))
        .on_reply(PollReply::Assessment(TaskAssessment::Ready(Box::new(intent.clone()))));
    assert_eq!(poll.action(), PollAction::Reserve { intent: intent.clone() });

    let poll = poll
        .on_reply(PollReply::Reserved(true))
        .on_reply(PollReply::Failed("not started".to_string()));
    assert_eq!(poll.action(), PollAction::Release { intent: intent.clone() });

    let poll = poll
        .on_reply(PollReply::Done)
        .on_reply(PollReply::Assessment(TaskAssessment::Ready(Box::new(intent.clone()))))
        .on_reply(PollReply::Reserved(true))
        .on_reply(PollReply::Outcome(TaskStartOutcome::Started(Box::new(intent.clone()))));
    assert_eq!(poll.action(), PollAction::Spawn { intent });

    let poll = poll.on_reply(PollReply::Done);
    assert_eq!(poll.action(), PollAction::CountInFlight);
    assert_eq!(
        poll.on_reply(PollReply::InFlight(1)).stage,
        PollStage::Ended(Ok(PollReport {
            seen: 2,
            started: 1,
            failed: 1,
            in_flight: 1,
            ..PollReport::default()
        }))
    );
}

#[test]
fn a_poll_looks_at_each_work_key_once() {
    let poll: Poll<String> = Poll::new(PollMode::Concurrent, Vec::new(), Vec::new());
    let poll = poll.on_reply(PollReply::Notifications(vec![
        notification_with_comment("n1", "7"),
        notification_with_comment("n2", "7"),
        notification_with_comment("n3", "8"),
    ]));
    assert_eq!(
        poll.action(),
        PollAction::AssessNotification {
            notification: notification_with_comment("n1", "7")
        }
    );

    let poll = poll.on_reply(PollReply::Failed("lookup failed".to_string()));
    assert_eq!(
        poll.action(),
        PollAction::AssessNotification {
            notification: notification_with_comment("n3", "8")
        }
    );

    let poll = poll.on_reply(PollReply::Assessments(vec![TaskAssessment::Skipped]));
    assert_eq!(poll.action(), PollAction::CountInFlight);
    assert_eq!((poll.report.seen, poll.report.skipped, poll.report.failed), (3, 2, 1));
}

#[test]
fn only_open_requests_become_tasks() {
    let maid = Maid::new(
        "maid-bot".to_string(),
        &vec![account("dionysuzx")],
        &Vec::new(),
        Vec::new(),
    );
    let scan = || {
        let scan: NotificationScan<String> = NotificationScan::new(&maid, notification("n1"));
        scan.on_reply(Reply::Latest(Some(mention("dionysuzx", "@maid-bot review"))))
            .on_reply(Reply::State(ReviewState::Pending))
            .on_reply(Reply::Recent(Vec::new()))
    };

    let handled = scan().on_reply(Reply::State(ReviewState::Handled)).on_reply(Reply::Done);
    assert!(matches!(handled.action(), Action::MarkNotificationHandled { .. }));

    let open = scan()
        .on_reply(Reply::State(ReviewState::Pending))
        .on_reply(Reply::Found(false));
    assert_eq!(open.action(), Action::Nothing);
    let assessments = open.into_result().unwrap().unwrap();
    assert_eq!(assessments.len(), 1);
    assert!(!assessments[0].is_skipped());
}

fn idle_worktrees() -> FakeWorktrees {
    FakeWorktrees {
        worktree: "/tmp/worktree".to_string(),
        calls: Arc::new(StdMutex::new(Vec::new())),
        error: Arc::new(StdMutex::new(None)),
    }
}

#[test]
fn requests_go_by_the_author_id() {
    let maid = Maid::new(
        "maid-bot".to_string(),
        &vec![account("dionysuzx")],
        &vec![account("dionysuzx")],
        Vec::new(),
    );
    let by = |author: &str, author_id: u64| CommentMention {
        author_id,
        ..mention(author, "@maid-bot review")
    };

    assert!(maid.requests_work(&by("dionysuzx", 1234)));
    assert!(maid.requests_work(&by("renamed", 1234)));
    assert!(!maid.requests_work(&by("dionysuzx", 5678)));
    assert!(!maid.requests_work(&by("Maid-Bot", 1234)));
    assert!(maid
        .intent_for_mention(&notification("n1"), &by("renamed", 1234))
        .is_some());
    assert!(maid
        .intent_for_mention(&notification("n1"), &by("dionysuzx", 5678))
        .is_none());

    let opened = |author: &str, author_id: u64| PullRequest {
        author_id,
        ..pr_with_author(author)
    };
    assert!(maid.reviews_author(&opened("renamed", 1234), ReviewScope::Repository));
    assert!(!maid.reviews_author(&opened("dionysuzx", 5678), ReviewScope::Repository));
    assert!(!maid.reviews_author(&opened("maid-bot", 1234), ReviewScope::Repository));
    assert!(!maid.reviews_author(&opened("dionysuzx", 1234), ReviewScope::PublicAccount));
    let maid = maid.with_public_accounts(&vec![account("other")]);
    assert!(maid.reviews_author(&opened("other", 5678), ReviewScope::PublicAccount));
    assert!(!maid.reviews_author(&opened("other", 5678), ReviewScope::Repository));
}

#[test]
fn public_pull_requests_are_discovered_and_private_ones_ignored() {
    let github = FakeGithub::default();
    *github.found.lock().unwrap() = vec![
        (pr_with_number(7), true),
        (pr_with_number(8), false),
        (pr_with_author_and_number("stranger", 9), false),
        (pr_with_number(10), true),
    ];
    let codex = FakeCodex::default();
    let bot = TestMaid {
        maid: Maid::new(
            "maid-bot".to_string(),
            &vec![account("dionysuzx")],
            &Vec::new(),
            Vec::new(),
        )
        .with_public_accounts(&vec![account("dionysuzx")]),
        ..maid(github.clone(), idle_worktrees(), codex.clone())
    };

    let report = bot.run_once().unwrap();

    assert_eq!(
        report,
        PollReport {
            seen: 4,
            skipped: 3,
            responded: 1,
            ..PollReport::default()
        }
    );
    assert_eq!(*github.posts.lock().unwrap(), vec!["codex response"]);
    assert_eq!(
        *github.started_prs.lock().unwrap(),
        vec!["https://github.com/o/r/pull/8".to_string()]
    );
    assert_eq!(codex.calls.lock().unwrap().len(), 1);
}

#[test]
fn a_poll_lists_each_repository_and_searches_each_account_once() {
    let repo = |name: &str| RepoSlug {
        owner: "o".to_string(),
        repo: name.to_string(),
    };
    let poll: Poll<String> = Poll::new(
        PollMode::Sequential,
        vec![repo("a"), repo("b")],
        vec![account("dionysuzx"), account("other")],
    );
    let poll = poll
        .on_reply(PollReply::Done)
        .on_reply(PollReply::Notifications(Vec::new()));
    assert_eq!(poll.action(), PollAction::ListPullRequests { repo: repo("a") });
    let poll = poll.on_reply(PollReply::PullRequests(Vec::new()));
    assert_eq!(poll.action(), PollAction::ListPullRequests { repo: repo("b") });
    let poll = poll.on_reply(PollReply::PullRequests(Vec::new()));
    assert_eq!(
        poll.action(),
        PollAction::SearchPullRequests {
            account: account("dionysuzx")
        }
    );
    let poll = poll.on_reply(PollReply::Found(Vec::new()));
    assert_eq!(
        poll.action(),
        PollAction::SearchPullRequests {
            account: account("other")
        }
    );
    let poll = poll.on_reply(PollReply::Failed("search failed".to_string()));
    assert_eq!(poll.stage, PollStage::Ended(Err("search failed".to_string())));
}

#[test]
fn the_queue_answers_what_a_poll_asks_of_it() {
    let intent = |number: u64| {
        let pr = pr_with_number(number);
        TaskIntent::AutoReviewPullRequest {
            task: CodexTask {
                pr_url: pr.html_url.clone(),
                origin: CodexTaskOrigin::PullRequestOpened {
                    author: pr.author.clone(),
                },
            },
            pr,
        }
    };
    let mut work = WorkQueue::new(0);
    let mut ask = |action: PollAction| -> Option<PollReply<String>> { work.answer(&action) };

    assert_eq!(
        ask(PollAction::Reserve { intent: intent(1) }),
        Some(PollReply::Reserved(true))
    );
    assert_eq!(
        ask(PollAction::Reserve { intent: intent(2) }),
        Some(PollReply::Reserved(false))
    );
    assert_eq!(ask(PollAction::CountInFlight), Some(PollReply::InFlight(1)));
    assert_eq!(ask(PollAction::ListNotifications), None);
    assert_eq!(
        ask(PollAction::Release { intent: intent(1) }),
        Some(PollReply::Done)
    );
    assert_eq!(
        ask(PollAction::Reserve { intent: intent(2) }),
        Some(PollReply::Reserved(true))
    );
}
