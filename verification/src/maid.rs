//! Who may ask the bot for work, what work it takes on, and how much at once.
use crate::domain::{CodexTask, CodexTaskOrigin, CommentMention, Notification, PullRequest};
use crate::domain::{RepoSlug, TrustedAccount, WorkTarget};
use crate::handled_marker::PendingHandledMarker;
use crate::{domain, mention_thread, text};
use vstd::prelude::*;

pub use crate::domain::ReviewState;

verus! {

// ---------------------------------------------------------------------------
// Results of outside work
// ---------------------------------------------------------------------------
/// A checkout that is ready for a task: its directory and, for one that is
/// attached to another repository, that repository.
#[derive(Debug, Eq, PartialEq)]
pub struct PreparedWorktree {
    path: String,
    repo: Option<String>,
}

impl Clone for PreparedWorktree {
    fn clone(&self) -> (r: Self)
        ensures
            r == *self,
    {
        PreparedWorktree { path: self.path.clone(), repo: self.repo.clone() }
    }
}

impl PreparedWorktree {
    pub closed spec fn path_text(self) -> Seq<char> {
        self.path@
    }

    pub closed spec fn repo_text(self) -> Option<Seq<char>> {
        text::opt_view(self.repo)
    }

    pub fn new(path: &str) -> (r: PreparedWorktree)
        ensures
            r.path_text() == path@,
            r.repo_text() is None,
    {
        PreparedWorktree { path: path.to_owned(), repo: None }
    }

    pub fn git_worktree(repo: &str, path: &str) -> (r: PreparedWorktree)
        ensures
            r.path_text() == path@,
            r.repo_text() == Some(repo@),
    {
        PreparedWorktree { path: path.to_owned(), repo: Some(repo.to_owned()) }
    }

    pub fn path(&self) -> (r: &str)
        ensures
            r@ == self.path_text(),
    {
        self.path.as_str()
    }

    pub fn repo(&self) -> (r: Option<&str>)
        ensures
            match r {
                Some(repo) => self.repo_text() == Some(repo@),
                None => self.repo_text() is None,
            },
    {
        match &self.repo {
            Some(repo) => Some(repo.as_str()),
            None => None,
        }
    }
}

/// What a Codex run came back with.
#[derive(Debug, Eq, PartialEq)]
pub struct CodexRun {
    pub response: String,
    pub session_id: Option<String>,
}

impl Clone for CodexRun {
    fn clone(&self) -> (r: Self)
        ensures
            r == *self,
    {
        CodexRun { response: self.response.clone(), session_id: self.session_id.clone() }
    }
}

impl CodexRun {
    /// The session, and the command that resumes it.
    pub fn resume_command(&self) -> (r: Option<(&str, String)>)
        ensures
            match (self.session_id, r) {
                (Some(id), Some((session, command))) => {
                    &&& session@ == id@
                    &&& command@ == "codex resume --include-non-interactive --all "@ + id@
                },
                (None, None) => true,
                _ => false,
            },
    {
        match &self.session_id {
            Some(id) => Some(
                (
                    id.as_str(),
                    text::cat2("codex resume --include-non-interactive --all ", id.as_str()),
                ),
            ),
            None => None,
        }
    }
}

/// What one poll saw and did.
#[derive(Clone, Copy, Debug, Eq, PartialEq)]
pub struct PollReport {
    pub seen: usize,
    pub skipped: usize,
    pub started: usize,
    pub responded: usize,
    pub failed: usize,
    pub in_flight: usize,
}

impl Default for PollReport {
    fn default() -> (r: Self)
        ensures
            r == (PollReport {
                seen: 0,
                skipped: 0,
                started: 0,
                responded: 0,
                failed: 0,
                in_flight: 0,
            }),
    {
        PollReport { seen: 0, skipped: 0, started: 0, responded: 0, failed: 0, in_flight: 0 }
    }
}

// ---------------------------------------------------------------------------
// Task intents
// ---------------------------------------------------------------------------
/// A task that the bot may start, with what set it off.
#[derive(Debug, Eq, PartialEq)]
pub enum TaskIntent {
    Mention { notification: Notification, mention: Box<CommentMention>, task: CodexTask },
    AutoReviewPullRequest { pr: PullRequest, task: CodexTask },
}

impl Clone for TaskIntent {
    fn clone(&self) -> (r: Self)
        ensures
            r == *self,
    {
        match self {
            TaskIntent::Mention { notification, mention, task } => {
                TaskIntent::Mention {
                    notification: notification.clone(),
                    mention: Box::new((**mention).clone()),
                    task: task.clone(),
                }
            },
            TaskIntent::AutoReviewPullRequest { pr, task } => {
                TaskIntent::AutoReviewPullRequest { pr: pr.clone(), task: task.clone() }
            },
        }
    }
}

/// An intent with its task's texts taken by their characters.
pub enum IntentView {
    Mention { notification: Notification, mention: CommentMention, task: domain::TaskView },
    AutoReviewPullRequest { pr: PullRequest, task: domain::TaskView },
}

impl View for TaskIntent {
    type V = IntentView;

    open spec fn view(&self) -> IntentView {
        match *self {
            TaskIntent::Mention { notification, mention, task } => {
                IntentView::Mention { notification, mention: *mention, task: task@ }
            },
            TaskIntent::AutoReviewPullRequest { pr, task } => {
                IntentView::AutoReviewPullRequest { pr, task: task@ }
            },
        }
    }
}

impl TaskIntent {
    pub open spec fn the_task(self) -> CodexTask {
        match self {
            TaskIntent::Mention { task, .. } => task,
            TaskIntent::AutoReviewPullRequest { task, .. } => task,
        }
    }

    /// The pull request or issue that the task is about.
    pub open spec fn the_target(self) -> WorkTarget {
        match self {
            TaskIntent::Mention { mention, .. } => mention.target,
            TaskIntent::AutoReviewPullRequest { pr, .. } => WorkTarget::PullRequest(pr),
        }
    }

    /// The marker for the handled mark that the task will owe.
    pub open spec fn the_marker(self) -> PendingHandledMarker {
        match self {
            TaskIntent::Mention { mention, .. } => PendingHandledMarker::of_mention(*mention),
            TaskIntent::AutoReviewPullRequest { pr, .. } => {
                PendingHandledMarker::of_pull_request(pr)
            },
        }
    }

    pub open spec fn key_text(self) -> Seq<char> {
        "task:"@ + self.the_task()@.trigger()
    }

    /// The key under which the task is at work; one for each trigger.
    pub fn task_key(&self) -> (r: String)
        ensures
            r@ == self.key_text(),
    {
        match self {
            TaskIntent::Mention { task, .. } => text::cat2("task:", task.trigger_url()),
            TaskIntent::AutoReviewPullRequest { task, .. } => {
                text::cat2("task:", task.trigger_url())
            },
        }
    }

    pub fn task(&self) -> (r: CodexTask)
        ensures
            r == self.the_task(),
    {
        match self {
            TaskIntent::Mention { task, .. } => task.clone(),
            TaskIntent::AutoReviewPullRequest { task, .. } => task.clone(),
        }
    }

    pub fn target(&self) -> (r: WorkTarget)
        ensures
            r == self.the_target(),
    {
        match self {
            TaskIntent::Mention { mention, .. } => mention.target.clone(),
            TaskIntent::AutoReviewPullRequest { pr, .. } => WorkTarget::PullRequest(pr.clone()),
        }
    }

    pub fn marker(&self) -> (r: PendingHandledMarker)
        ensures
            r == self.the_marker(),
    {
        match self {
            TaskIntent::Mention { mention, .. } => PendingHandledMarker::for_mention(&**mention),
            TaskIntent::AutoReviewPullRequest { pr, .. } => {
                PendingHandledMarker::for_pull_request(pr)
            },
        }
    }
}

/// Tasks set off by different addresses have different keys.
pub proof fn law_distinct_triggers_have_distinct_keys(a: TaskIntent, b: TaskIntent)
    ensures
        (a.key_text() == b.key_text()) == (a.the_task()@.trigger() == b.the_task()@.trigger()),
{
    let x = a.key_text();
    let y = b.key_text();
    let n = "task:"@.len() as int;
    assert(x.skip(n) =~= a.the_task()@.trigger());
    assert(y.skip(n) =~= b.the_task()@.trigger());
}

/// What became of a mention or a pull request: a task to start, or nothing.
#[derive(Debug, Eq, PartialEq)]
pub enum TaskAssessment {
    Ready(Box<TaskIntent>),
    Skipped,
}

/// An assessment with its intent viewed.
pub enum AssessmentView {
    Ready(IntentView),
    Skipped,
}

impl View for TaskAssessment {
    type V = AssessmentView;

    open spec fn view(&self) -> AssessmentView {
        match *self {
            TaskAssessment::Ready(intent) => AssessmentView::Ready(intent@),
            TaskAssessment::Skipped => AssessmentView::Skipped,
        }
    }
}

impl TaskAssessment {
    pub fn is_skipped(&self) -> (r: bool)
        ensures
            r == (*self is Skipped),
    {
        match self {
            TaskAssessment::Skipped => true,
            TaskAssessment::Ready(_) => false,
        }
    }
}

// ---------------------------------------------------------------------------
// Policy
// ---------------------------------------------------------------------------
/// What tells two notifications apart within one poll: the latest comment, or
/// the notification itself where there is none.
pub open spec fn work_key_text(notification: Notification) -> Seq<char> {
    match notification.latest_comment_url {
        Some(url) => url@,
        None => notification.id@,
    }
}

pub fn work_key(notification: &Notification) -> (r: String)
    ensures
        r@ == work_key_text(*notification),
{
    match &notification.latest_comment_url {
        Some(url) => url.clone(),
        None => notification.id.clone(),
    }
}

/// How an open pull request was come upon: in the list of its repository, or by
/// its author.
#[derive(Clone, Copy, Debug, Eq, PartialEq, Structural)]
pub enum ReviewScope {
    Repository,
    PublicAccount,
}

/// The bot: its login, the accounts it takes requests from, the accounts whose
/// pull requests it reviews unasked in the given repositories, and those whose
/// pull requests it reviews unasked in any public one. An account is known by its
/// numeric user ID alone; its login is where to look for it.
#[derive(Debug, Eq, PartialEq)]
pub struct Maid {
    pub bot_login: String,
    pub master_accounts: Vec<TrustedAccount>,
    pub auto_review_accounts: Vec<TrustedAccount>,
    pub auto_review_public_accounts: Vec<TrustedAccount>,
    pub auto_review_repos: Vec<RepoSlug>,
}

impl Clone for Maid {
    fn clone(&self) -> (r: Self)
        ensures
            r.bot_login == self.bot_login,
            r.master_accounts@ == self.master_accounts@,
            r.auto_review_accounts@ == self.auto_review_accounts@,
            r.auto_review_public_accounts@ == self.auto_review_public_accounts@,
            r.auto_review_repos@ == self.auto_review_repos@,
    {
        Maid {
            bot_login: self.bot_login.clone(),
            master_accounts: domain::copied_accounts(&self.master_accounts),
            auto_review_accounts: domain::copied_accounts(&self.auto_review_accounts),
            auto_review_public_accounts: domain::copied_accounts(
                &self.auto_review_public_accounts,
            ),
            auto_review_repos: domain::copied_repos(&self.auto_review_repos),
        }
    }
}

impl Maid {
    pub fn new(
        bot_login: String,
        masters: &Vec<TrustedAccount>,
        auto_review: &Vec<TrustedAccount>,
        repos: Vec<RepoSlug>,
    ) -> (r: Maid)
        ensures
            r.bot_login == bot_login,
            r.master_accounts@ == masters@,
            r.auto_review_accounts@ == auto_review@,
            r.auto_review_public_accounts@ == Seq::<TrustedAccount>::empty(),
            r.auto_review_repos == repos,
    {
        Maid {
            bot_login,
            master_accounts: domain::copied_accounts(masters),
            auto_review_accounts: domain::copied_accounts(auto_review),
            auto_review_public_accounts: Vec::new(),
            auto_review_repos: repos,
        }
    }

    /// Has the open pull requests of these accounts looked for across GitHub.
    pub fn with_public_accounts(self, accounts: &Vec<TrustedAccount>) -> (r: Maid)
        ensures
            r.bot_login == self.bot_login,
            r.master_accounts == self.master_accounts,
            r.auto_review_accounts == self.auto_review_accounts,
            r.auto_review_public_accounts@ == accounts@,
            r.auto_review_repos == self.auto_review_repos,
    {
        Maid { auto_review_public_accounts: domain::copied_accounts(accounts), ..self }
    }

    /// Bounds the tasks that are at work at the same time.
    pub fn into_concurrent(self, max_concurrent_requests: usize) -> (r: ConcurrentMaid)
        ensures
            r.maid == self,
            r.work.slots() == (if max_concurrent_requests == 0 {
                1
            } else {
                max_concurrent_requests as nat
            }),
            r.work@ == Set::<Seq<char>>::empty(),
    {
        ConcurrentMaid { maid: self, work: WorkQueue::new(max_concurrent_requests) }
    }

    pub open spec fn is_bot(self, login: Seq<char>) -> bool {
        text::lowered(login) == text::lowered(self.bot_login@)
    }

    /// The IDs of the accounts that may ask for work.
    pub open spec fn master_ids(self) -> Set<u64> {
        domain::ids_of(self.master_accounts@)
    }

    /// The IDs of the accounts whose pull requests are reviewed unasked.
    pub open spec fn review_ids(self, scope: ReviewScope) -> Set<u64> {
        match scope {
            ReviewScope::Repository => domain::ids_of(self.auto_review_accounts@),
            ReviewScope::PublicAccount => domain::ids_of(self.auto_review_public_accounts@),
        }
    }

    /// A comment that asks for work: by an account that may ask, not by the bot
    /// itself, and mentioning the bot.
    pub open spec fn is_request(self, mention: CommentMention) -> bool {
        &&& !self.is_bot(mention.author@)
        &&& self.master_ids().contains(mention.author_id)
        &&& domain::mentions_bot(mention.body@, self.bot_login@)
    }

    /// A pull request that is reviewed unasked: by an account whose pull requests
    /// are, and not by the bot itself.
    pub open spec fn is_reviewed(self, pr: PullRequest, scope: ReviewScope) -> bool {
        !self.is_bot(pr.author@) && self.review_ids(scope).contains(pr.author_id)
    }

    pub fn written_by_bot(&self, author: &str) -> (r: bool)
        ensures
            r == self.is_bot(author@),
    {
        text::same_ignoring_case(author, self.bot_login.as_str())
    }

    pub fn requests_work(&self, mention: &CommentMention) -> (r: bool)
        ensures
            r == self.is_request(*mention),
            r == (!self.is_bot(mention.author@) && self.master_ids().contains(mention.author_id)
                && domain::mentions_bot(mention.body@, self.bot_login@)),
    {
        if self.written_by_bot(mention.author.as_str()) {
            return false;
        }
        if !domain::holds_id(&self.master_accounts, mention.author_id) {
            return false;
        }
        match domain::MentionRequest::parse(mention.body.as_str(), self.bot_login.as_str()) {
            Ok(Some(_)) => true,
            _ => false,
        }
    }

    /// Whether a pull request is reviewed unasked.
    pub fn reviews_author(&self, pr: &PullRequest, scope: ReviewScope) -> (r: bool)
        ensures
            r == self.is_reviewed(*pr, scope),
            r == (!self.is_bot(pr.author@) && self.review_ids(scope).contains(pr.author_id)),
    {
        if self.written_by_bot(pr.author.as_str()) {
            return false;
        }
        match scope {
            ReviewScope::Repository => domain::holds_id(&self.auto_review_accounts, pr.author_id),
            ReviewScope::PublicAccount => {
                domain::holds_id(&self.auto_review_public_accounts, pr.author_id)
            },
        }
    }

    /// The task that a comment asks for.
    pub open spec fn mention_task(self, mention: CommentMention) -> domain::TaskView {
        domain::TaskView {
            pr_url: mention.target.html_url_string()@,
            origin: mention_thread::origin_of(
                mention,
                mention.body@,
                text::trimmed(domain::without_mentions(mention.body@, self.bot_login@)->0),
                self.bot_login@,
            ),
        }
    }

    pub open spec fn mention_intent(
        self,
        notification: Notification,
        mention: CommentMention,
    ) -> IntentView {
        IntentView::Mention { notification, mention, task: self.mention_task(mention) }
    }

    /// The task for a comment that asks for work.
    pub fn intent_for_mention(
        &self,
        notification: &Notification,
        mention: &CommentMention,
    ) -> (r: Option<TaskIntent>)
        ensures
            match r {
                Some(intent) => {
                    &&& self.is_request(*mention)
                    &&& intent@ == self.mention_intent(*notification, *mention)
                },
                None => !self.is_request(*mention),
            },
    {
        if !self.requests_work(mention) {
            return None;
        }
        match domain::MentionRequest::parse(mention.body.as_str(), self.bot_login.as_str()) {
            Ok(Some(request)) => Some(
                TaskIntent::Mention {
                    notification: notification.clone(),
                    task: CodexTask {
                        pr_url: mention.target.html_url().to_owned(),
                        origin: mention_thread::mention_task_origin(
                            mention,
                            request,
                            self.bot_login.as_str(),
                        ),
                    },
                    mention: Box::new(mention.clone()),
                },
            ),
            _ => None,
        }
    }
}

/// Whatever an account is called: of two comments by others than the bot that
/// differ in their author's login alone, both ask for work or neither does. A
/// master who has been renamed stays trusted, and a login that someone else has
/// taken over gives no authority.
pub proof fn law_requests_go_by_id(maid: Maid, first: CommentMention, second: CommentMention)
    requires
        !maid.is_bot(first.author@),
        !maid.is_bot(second.author@),
        first.author_id == second.author_id,
        first.body@ == second.body@,
    ensures
        maid.is_request(first) == maid.is_request(second),
        maid.is_request(first) ==> maid.master_ids().contains(first.author_id),
{
}

/// The same of pull requests and their reviews.
pub proof fn law_reviews_go_by_id(
    maid: Maid,
    first: PullRequest,
    second: PullRequest,
    scope: ReviewScope,
)
    requires
        !maid.is_bot(first.author@),
        !maid.is_bot(second.author@),
        first.author_id == second.author_id,
    ensures
        maid.is_reviewed(first, scope) == maid.is_reviewed(second, scope),
        maid.is_reviewed(first, scope) == maid.review_ids(scope).contains(first.author_id),
{
}

/// The task for a pull request that is reviewed unasked.
pub open spec fn pull_request_intent(pr: PullRequest) -> TaskIntent {
    TaskIntent::AutoReviewPullRequest {
        pr,
        task: CodexTask {
            pr_url: pr.html_url,
            origin: CodexTaskOrigin::PullRequestOpened { author: pr.author },
        },
    }
}

pub fn intent_for_pull_request(pr: &PullRequest) -> (r: TaskIntent)
    ensures
        r == pull_request_intent(*pr),
{
    TaskIntent::AutoReviewPullRequest {
        pr: pr.clone(),
        task: CodexTask {
            pr_url: pr.html_url.clone(),
            origin: CodexTaskOrigin::PullRequestOpened { author: pr.author.clone() },
        },
    }
}

// ---------------------------------------------------------------------------
// Work at the same time
// ---------------------------------------------------------------------------
/// The keys of the tasks at work, at most as many as there are slots.
#[derive(Debug, Eq, PartialEq)]
pub struct WorkQueue {
    slots: usize,
    running: Vec<String>,
}

impl View for WorkQueue {
    type V = Set<Seq<char>>;

    closed spec fn view(&self) -> Set<Seq<char>> {
        text::views(self.running@).to_set()
    }
}

impl WorkQueue {
    pub closed spec fn slots(self) -> nat {
        self.slots as nat
    }

    #[verifier::type_invariant]
    spec fn bounded(self) -> bool {
        &&& self.slots >= 1
        &&& self.running@.len() <= self.slots
        &&& text::views(self.running@).no_duplicates()
    }

    pub fn new(max_concurrent_requests: usize) -> (r: WorkQueue)
        ensures
            r.slots() == (if max_concurrent_requests == 0 {
                1
            } else {
                max_concurrent_requests as nat
            }),
            r@ == Set::<Seq<char>>::empty(),
    {
        let slots: usize = if max_concurrent_requests == 0 {
            1
        } else {
            max_concurrent_requests
        };
        let r = WorkQueue { slots, running: Vec::new() };
        assert(r@ =~= Set::<Seq<char>>::empty());
        r
    }

    /// Takes a slot for `key`, where one is free and the key is not at work.
    pub fn try_reserve(&mut self, key: &str) -> (r: bool)
        ensures
            r == (old(self)@.len() < old(self).slots() && !old(self)@.contains(key@)),
            final(self).slots() == old(self).slots(),
            final(self)@ == (if r {
                old(self)@.insert(key@)
            } else {
                old(self)@
            }),
            old(self)@.finite(),
            final(self)@.finite(),
            final(self)@.len() <= final(self).slots(),
    {
        let ghost before = text::views(self.running@);
        proof {
            use_type_invariant(&*self);
            before.unique_seq_to_set();
            vstd::seq_lib::seq_to_set_is_finite(before);
        }
        if self.running.len() >= self.slots || text::list_contains(&self.running, key) {
            return false;
        }
        let mut running: Vec<String> = Vec::new();
        std::mem::swap(&mut self.running, &mut running);
        running.push(key.to_owned());
        proof {
            let after = text::views(running@);
            assert(after =~= before.push(key@));
            assert(after.no_duplicates()) by {
                assert forall|i: int, j: int| 0 <= i < after.len() && 0 <= j < after.len() && i
                    != j implies after[i] != after[j] by {
                    if i < before.len() {
                        assert(before.contains(before[i]));
                    }
                    if j < before.len() {
                        assert(before.contains(before[j]));
                    }
                }
            }
            assert forall|k: Seq<char>| after.contains(k) == (before.contains(k) || k == key@) by {
                if before.contains(k) {
                    let i = choose|i: int| 0 <= i < before.len() && before[i] == k;
                    assert(after[i] == k);
                }
                assert(after[before.len() as int] == key@);
            }
            assert(after.to_set() =~= before.to_set().insert(key@));
        }
        self.running = running;
        true
    }

    /// Gives the slot of `key` back.
    pub fn release(&mut self, key: &str)
        ensures
            final(self)@ == old(self)@.remove(key@),
            final(self).slots() == old(self).slots(),
    {
        let ghost before = text::views(self.running@);
        proof {
            use_type_invariant(&*self);
        }
        let mut i: usize = 0;
        while i < self.running.len() && !text::same(self.running[i].as_str(), key)
            invariant
                before == text::views(self.running@),
                i <= self.running@.len(),
                forall|k: int| 0 <= k < i ==> before[k] != key@,
            decreases self.running@.len() - i,
        {
            assert(before[i as int] == self.running@[i as int]@);
            i = i + 1;
        }
        if i >= self.running.len() {
            assert(!before.contains(key@));
            assert(self@ =~= self@.remove(key@));
            return;
        }
        let mut running: Vec<String> = Vec::new();
        std::mem::swap(&mut self.running, &mut running);
        let _ = running.remove(i);
        proof {
            let after = text::views(running@);
            assert(before[i as int] == key@);
            assert(after =~= before.remove(i as int));
            assert forall|k: Seq<char>| after.contains(k) == (before.contains(k) && k != key@) by {
                if after.contains(k) {
                    let a = choose|a: int| 0 <= a < after.len() && after[a] == k;
                    let b = if a < i { a } else { a + 1 };
                    assert(before[b] == k);
                }
                if before.contains(k) && k != key@ {
                    let b = choose|b: int| 0 <= b < before.len() && before[b] == k;
                    let a = if b < i { b } else { b - 1 };
                    assert(after[a] == k);
                }
            }
            assert(after.to_set() =~= before.to_set().remove(key@));
            assert(after.no_duplicates()) by {
                assert forall|a: int, b: int| 0 <= a < after.len() && 0 <= b < after.len() && a
                    != b implies after[a] != after[b] by {
                    let x = if a < i { a } else { a + 1 };
                    let y = if b < i { b } else { b + 1 };
                    assert(before[x] != before[y]);
                }
            }
        }
        self.running = running;
    }

    /// How many tasks are at work, never more than there are slots.
    pub fn in_flight(&self) -> (r: usize)
        ensures
            r == self@.len(),
            r <= self.slots(),
    {
        proof {
            use_type_invariant(self);
            text::views(self.running@).unique_seq_to_set();
        }
        self.running.len()
    }
}

/// The bot with a bound on the tasks at work.
#[derive(Debug, Eq, PartialEq)]
pub struct ConcurrentMaid {
    pub maid: Maid,
    pub work: WorkQueue,
}

// ---------------------------------------------------------------------------
// What the policy comes to
// ---------------------------------------------------------------------------
/// A comment asks for work exactly where its author's ID is that of a master, its
/// author is not the bot, and the comment mentions the bot.
pub proof fn law_who_may_ask(maid: Maid, mention: CommentMention)
    ensures
        maid.is_request(mention) <==> {
            &&& text::lowered(mention.author@) != text::lowered(maid.bot_login@)
            &&& exists|i: int|
                0 <= i < maid.master_accounts@.len() && (
                #[trigger] maid.master_accounts@[i]).id.number() == mention.author_id
            &&& domain::without_mentions(mention.body@, maid.bot_login@) is Some
        },
{
}

/// A pull request is reviewed unasked exactly where its author's ID is on the list
/// for the way it was come upon, and its author is not the bot.
pub proof fn law_whose_pull_requests_are_reviewed(maid: Maid, pr: PullRequest)
    ensures
        maid.is_reviewed(pr, ReviewScope::Repository) <==> {
            &&& text::lowered(pr.author@) != text::lowered(maid.bot_login@)
            &&& exists|i: int|
                0 <= i < maid.auto_review_accounts@.len() && (
                #[trigger] maid.auto_review_accounts@[i]).id.number() == pr.author_id
        },
        maid.is_reviewed(pr, ReviewScope::PublicAccount) <==> {
            &&& text::lowered(pr.author@) != text::lowered(maid.bot_login@)
            &&& exists|i: int|
                0 <= i < maid.auto_review_public_accounts@.len() && (
                #[trigger] maid.auto_review_public_accounts@[i]).id.number() == pr.author_id
        },
{
}

/// Two notifications with the same latest comment are one piece of work; without
/// a latest comment, each is its own.
pub proof fn law_what_makes_one_piece_of_work(first: Notification, second: Notification)
    ensures
        first.latest_comment_url matches Some(url) ==> work_key_text(first) == url@,
        first.latest_comment_url is None ==> work_key_text(first) == first.id@,
        first.latest_comment_url is Some && first.latest_comment_url == second.latest_comment_url
            ==> work_key_text(first) == work_key_text(second),
        first.latest_comment_url is None && second.latest_comment_url is None ==> (work_key_text(
            first,
        ) == work_key_text(second) <==> first.id@ == second.id@),
{
}

/// The task that a comment asks for is about the comment's pull request or issue,
/// is set off by the comment, and holds the comment as it is written. An operator's
/// request behind `/operate` makes it an operator's task, which knows who asked;
/// else it holds the comment without the mentions of the bot.
pub proof fn law_what_a_comment_asks_for(maid: Maid, mention: CommentMention)
    ensures
        ({
            let task = maid.mention_task(mention);
            let cleaned = text::trimmed(
                domain::without_mentions(mention.body@, maid.bot_login@)->0,
            );
            &&& task.pr_url == mention.target.html_url_string()@
            &&& task.trigger() == mention.html_url@
            &&& match domain::operator_request_in(cleaned) {
                Some(request) => {
                    &&& task.origin is OperatorMention
                    &&& task.origin->OperatorMention_mention_url == mention.html_url@
                    &&& task.origin->OperatorMention_raw_body == mention.body@
                    &&& task.origin->request_text == request
                    &&& task.origin->trigger_author == mention.author@
                    &&& task.origin->bot_login == maid.bot_login@
                },
                None => {
                    &&& task.origin is Mention
                    &&& task.origin->Mention_mention_url == mention.html_url@
                    &&& task.origin->Mention_raw_body == mention.body@
                    &&& task.origin->cleaned_text == cleaned
                },
            }
        }),
{
}

/// An intent goes with its own task, target and marker, and is kept under the
/// address that set it off.
pub proof fn law_what_an_intent_is_about(
    maid: Maid,
    notification: Notification,
    mention: Box<CommentMention>,
    pr: PullRequest,
    task: CodexTask,
)
    ensures
        ({
            let asked = TaskIntent::Mention { notification, mention, task };
            let unasked = TaskIntent::AutoReviewPullRequest { pr, task };
            &&& asked.the_task() == task && unasked.the_task() == task
            &&& asked.the_target() == mention.target
            &&& unasked.the_target() == WorkTarget::PullRequest(pr)
            &&& asked.the_marker() == (PendingHandledMarker::Mention { api_url: mention.api_url })
            &&& unasked.the_marker() == (PendingHandledMarker::PullRequest {
                html_url: pr.html_url,
            })
            &&& asked.key_text() == "task:"@ + task@.trigger()
            &&& unasked.key_text() == "task:"@ + task@.trigger()
            &&& maid.mention_intent(notification, *mention) == (IntentView::Mention {
                notification,
                mention: *mention,
                task: maid.mention_task(*mention),
            })
        }),
{
}

/// A review that nobody asked for is about the pull request and its author.
pub proof fn law_what_an_unasked_review_is_about(pr: PullRequest)
    ensures
        ({
            let intent = pull_request_intent(pr);
            &&& intent.the_target() == WorkTarget::PullRequest(pr)
            &&& intent.the_task().pr_url == pr.html_url
            &&& intent.the_task().origin == (CodexTaskOrigin::PullRequestOpened {
                author: pr.author,
            })
            &&& intent.key_text() == "task:"@ + pr.html_url@
            &&& intent.the_marker() == (PendingHandledMarker::PullRequest {
                html_url: pr.html_url,
            })
        }),
{
}

/// An intent is taken with all that it is about.
pub proof fn law_intents_are_taken_whole(
    notification: Notification,
    mention: Box<CommentMention>,
    pr: PullRequest,
    task: CodexTask,
    intent: TaskIntent,
)
    ensures
        (TaskIntent::Mention { notification, mention, task })@ == (IntentView::Mention {
            notification,
            mention: *mention,
            task: task@,
        }),
        (TaskIntent::AutoReviewPullRequest { pr, task })@ == (IntentView::AutoReviewPullRequest {
            pr,
            task: task@,
        }),
        TaskAssessment::Ready(Box::new(intent))@ == AssessmentView::Ready(intent@),
        TaskAssessment::Skipped@ == AssessmentView::Skipped,
{
}

/// A session that is there can be gone on with, under its own ID.
pub proof fn law_how_a_session_is_resumed<'a>(run: &'a CodexRun, r: Option<(&'a str, String)>)
    requires
        call_ensures(CodexRun::resume_command, (run,), r),
    ensures
        r is Some <==> run.session_id is Some,
        r matches Some((session, command)) ==> {
            let id = (run.session_id->0)@;
            session@ == id && command@ == "codex resume --include-non-interactive --all "@ + id
        },
{
}

/// A bot holds what it was made with; the accounts whose pull requests are reviewed
/// anywhere come on top, and take nothing away.
pub proof fn law_what_a_bot_is_made_of(
    bot_login: String,
    masters: &Vec<TrustedAccount>,
    reviewed: &Vec<TrustedAccount>,
    repos: Vec<RepoSlug>,
    public: &Vec<TrustedAccount>,
    maid: Maid,
    more: Maid,
)
    requires
        call_ensures(Maid::new, (bot_login, masters, reviewed, repos), maid),
        call_ensures(Maid::with_public_accounts, (maid, public), more),
    ensures
        maid.bot_login == bot_login,
        maid.master_accounts@ == masters@,
        maid.auto_review_accounts@ == reviewed@,
        maid.auto_review_public_accounts@.len() == 0,
        maid.auto_review_repos == repos,
        more.auto_review_public_accounts@ == public@,
        more.bot_login == bot_login,
        more.master_accounts@ == masters@,
        more.auto_review_accounts@ == reviewed@,
        more.auto_review_repos == repos,
{
}

/// There are as many slots as are asked for, and at least one; none is taken yet.
pub proof fn law_how_many_slots_there_are(
    max: usize,
    queue: WorkQueue,
    maid: Maid,
    concurrent: ConcurrentMaid,
)
    requires
        call_ensures(WorkQueue::new, (max,), queue),
        call_ensures(Maid::into_concurrent, (maid, max), concurrent),
    ensures
        max > 0 ==> queue.slots() == max,
        max == 0 ==> queue.slots() == 1,
        queue@.len() == 0,
        concurrent.maid == maid,
        concurrent.work.slots() == queue.slots(),
        concurrent.work@.len() == 0,
{
}

/// A slot is taken only by work that has none yet, and only while one is free; it is
/// then that work's until it is given back, and no other's.
pub proof fn law_how_slots_are_taken_and_given_back(key: &str)
    ensures
        forall|queue: &mut WorkQueue, r: bool| #[trigger]
            call_ensures(WorkQueue::try_reserve, (queue, key), r) ==> {
                &&& r <==> (*queue)@.len() < (*queue).slots() && !(*queue)@.contains(key@)
                &&& r ==> (*final(queue))@ == (*queue)@.insert(key@)
                &&& !r ==> (*final(queue))@ == (*queue)@
                &&& (*final(queue)).slots() == (*queue).slots()
            },
        forall|queue: &mut WorkQueue| #[trigger]
            call_ensures(WorkQueue::release, (queue, key), ()) ==> {
                &&& (*final(queue))@ == (*queue)@.remove(key@)
                &&& (*final(queue)).slots() == (*queue).slots()
            },
{
}

} // verus!
