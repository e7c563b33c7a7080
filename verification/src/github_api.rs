//! What is asked of GitHub, and what is made of its answers.
use crate::domain::{CommentMention, FoundPullRequest, Issue, Notification, PullRequest, RepoSlug};
use crate::domain::{ReviewState, WorkTarget};
use crate::{numeral, text};
use vstd::prelude::*;

verus! {

/// The reaction that shows that work on a request has begun.
pub const STARTED_REACTION: &'static str = "eyes";

/// The reaction that shows that a request is handled.
pub const HANDLED_REACTION: &'static str = "+1";

pub const PARTICIPATING_NOTIFICATIONS_URL: &'static str =
    "https://api.github.com/notifications?participating=true&all=true&per_page=50";

/// A page with fewer items than this is the last one.
pub const PAGE_SIZE: usize = 100;

/// A search is read up to this page.
pub const MAX_SEARCH_PAGES: u64 = 10;

/// How many comments of a thread are looked at.
pub const RECENT_COMMENTS: usize = 20;

// ---------------------------------------------------------------------------
// Answers
// ---------------------------------------------------------------------------
#[derive(Debug, Eq, PartialEq)]
pub struct ApiUser {
    pub login: String,
    pub id: u64,
}

impl Clone for ApiUser {
    fn clone(&self) -> (r: Self)
        ensures
            r == *self,
    {
        ApiUser { login: self.login.clone(), id: self.id }
    }
}

#[derive(Debug, Eq, PartialEq)]
pub struct ApiNotification {
    pub id: String,
    pub reason: String,
    pub subject: ApiNotificationSubject,
    pub unread: bool,
    pub updated_at: String,
}

#[derive(Debug, Eq, PartialEq)]
pub struct ApiNotificationSubject {
    pub kind: String,
    pub url: Option<String>,
    pub latest_comment_url: Option<String>,
}

#[derive(Debug, Eq, PartialEq)]
pub struct ApiComment {
    pub url: String,
    pub body: String,
    pub html_url: String,
    pub created_at: String,
    pub user: ApiUser,
    pub issue_url: Option<String>,
    pub pull_request_url: Option<String>,
}

impl Clone for ApiComment {
    fn clone(&self) -> (r: Self)
        ensures
            r == *self,
    {
        ApiComment {
            url: self.url.clone(),
            body: self.body.clone(),
            html_url: self.html_url.clone(),
            created_at: self.created_at.clone(),
            user: self.user.clone(),
            issue_url: self.issue_url.clone(),
            pull_request_url: self.pull_request_url.clone(),
        }
    }
}

#[derive(Debug, Eq, PartialEq)]
pub struct ApiReaction {
    pub content: String,
    pub user: ApiUser,
}

#[derive(Debug, Eq, PartialEq)]
pub struct ApiIssue {
    pub url: String,
    pub html_url: String,
    pub number: u64,
    pub title: String,
    pub body: String,
    pub user: ApiUser,
    /// The address of the repository that the issue belongs to.
    pub repository_url: String,
    /// Where the issue is a pull request: its address as such.
    pub pull_request: Option<ApiIssuePullRequest>,
}

#[derive(Debug, Eq, PartialEq)]
pub struct ApiIssuePullRequest {
    pub url: String,
}

#[derive(Debug, Eq, PartialEq)]
pub struct ApiPullRequest {
    pub url: String,
    pub html_url: String,
    pub number: u64,
    pub user: ApiUser,
    pub base: ApiPullRequestBase,
}

#[derive(Debug, Eq, PartialEq)]
pub struct ApiPullRequestBase {
    pub repo: ApiRepo,
}

#[derive(Debug, Eq, PartialEq)]
pub struct ApiRepo {
    pub name: String,
    pub clone_url: String,
    pub ssh_url: String,
    pub default_branch: String,
    pub private: bool,
    pub owner: Option<ApiUser>,
}

pub open spec fn as_notification(notification: ApiNotification) -> Notification {
    Notification {
        id: notification.id,
        reason: notification.reason,
        subject_kind: notification.subject.kind,
        subject_url: notification.subject.url,
        latest_comment_url: notification.subject.latest_comment_url,
        unread: notification.unread,
        updated_at: notification.updated_at,
    }
}

pub fn notification_from_api(notification: ApiNotification) -> (r: Notification)
    ensures
        r == as_notification(notification),
{
    Notification {
        id: notification.id,
        reason: notification.reason,
        subject_kind: notification.subject.kind,
        subject_url: notification.subject.url,
        latest_comment_url: notification.subject.latest_comment_url,
        unread: notification.unread,
        updated_at: notification.updated_at,
    }
}

/// All notifications of an answer, in its order.
pub fn notifications_from_api(notifications: Vec<ApiNotification>) -> (r: Vec<Notification>)
    ensures
        r@ == notifications@.map_values(|n: ApiNotification| as_notification(n)),
{
    let ghost all = notifications@.map_values(|n: ApiNotification| as_notification(n));
    let mut r: Vec<Notification> = Vec::new();
    for notification in it: notifications
        invariant
            it.seq() == notifications@,
            all == notifications@.map_values(|n: ApiNotification| as_notification(n)),
            r@ == all.take(it.index()),
    {
        r.push(notification_from_api(notification));
        assert(r@ =~= all.take(it.index() + 1));
    }
    assert(all.take(all.len() as int) =~= all);
    r
}

/// A pull request whose base repository has no owner is of no use.
pub open spec fn as_pull_request(pr: ApiPullRequest) -> Option<PullRequest> {
    match pr.base.repo.owner {
        None => None,
        Some(owner) => Some(
            PullRequest {
                owner: owner.login,
                repo: pr.base.repo.name,
                number: pr.number,
                author: pr.user.login,
                author_id: pr.user.id,
                api_url: pr.url,
                html_url: pr.html_url,
                clone_url: pr.base.repo.clone_url,
            },
        ),
    }
}

pub fn pull_request_from_api(pr: ApiPullRequest) -> (r: Option<PullRequest>)
    ensures
        r == as_pull_request(pr),
{
    match pr.base.repo.owner {
        None => None,
        Some(owner) => Some(
            PullRequest {
                owner: owner.login,
                repo: pr.base.repo.name,
                number: pr.number,
                author: pr.user.login,
                author_id: pr.user.id,
                api_url: pr.url,
                html_url: pr.html_url,
                clone_url: pr.base.repo.clone_url,
            },
        ),
    }
}

/// What is said of a pull request whose base repository has no owner.
pub const NO_OWNER: &'static str = "pull request base repo has no owner";

/// All pull requests of an answer, in its order. One of no use spoils them all.
pub fn pull_requests_from_api(pull_requests: Vec<ApiPullRequest>) -> (r: Option<Vec<PullRequest>>)
    ensures
        match r {
            Some(list) => {
                &&& list@.len() == pull_requests@.len()
                &&& forall|i: int|
                    0 <= i < list@.len() ==> as_pull_request(#[trigger] pull_requests@[i]) == Some(
                        list@[i],
                    )
            },
            None => exists|i: int|
                0 <= i < pull_requests@.len() && as_pull_request(
                    #[trigger] pull_requests@[i],
                ) is None,
        },
{
    let mut list: Vec<PullRequest> = Vec::new();
    for pull_request in it: pull_requests
        invariant
            it.seq() == pull_requests@,
            list@.len() == it.index(),
            forall|i: int|
                0 <= i < list@.len() ==> as_pull_request(#[trigger] pull_requests@[i]) == Some(
                    list@[i],
                ),
    {
        assert(pull_request == pull_requests@[it.index()]);
        match pull_request_from_api(pull_request) {
            Some(pr) => {
                list.push(pr);
            },
            None => {
                return None;
            },
        }
    }
    Some(list)
}

/// An issue whose repository has no owner is of no use.
pub open spec fn as_issue(issue: ApiIssue, repo: ApiRepo) -> Option<Issue> {
    match repo.owner {
        None => None,
        Some(owner) => Some(
            Issue {
                owner: owner.login,
                repo: repo.name,
                number: issue.number,
                author: issue.user.login,
                title: issue.title,
                body: issue.body,
                api_url: issue.url,
                html_url: issue.html_url,
                clone_url: repo.clone_url,
                ssh_url: repo.ssh_url,
                default_branch: repo.default_branch,
            },
        ),
    }
}

pub fn issue_from_api(issue: ApiIssue, repo: ApiRepo) -> (r: Option<Issue>)
    ensures
        r == as_issue(issue, repo),
{
    match repo.owner {
        None => None,
        Some(owner) => Some(
            Issue {
                owner: owner.login,
                repo: repo.name,
                number: issue.number,
                author: issue.user.login,
                title: issue.title,
                body: issue.body,
                api_url: issue.url,
                html_url: issue.html_url,
                clone_url: repo.clone_url,
                ssh_url: repo.ssh_url,
                default_branch: repo.default_branch,
            },
        ),
    }
}

/// The comment as a mention in the thread of a pull request or issue.
pub open spec fn as_mention(comment: ApiComment, target: WorkTarget) -> CommentMention {
    CommentMention {
        author: comment.user.login,
        author_id: comment.user.id,
        body: comment.body,
        api_url: comment.url,
        html_url: comment.html_url,
        target,
    }
}

pub fn comment_mention(comment: ApiComment, target: &WorkTarget) -> (r: CommentMention)
    ensures
        r == as_mention(comment, *target),
{
    CommentMention {
        author: comment.user.login,
        author_id: comment.user.id,
        body: comment.body,
        api_url: comment.url,
        html_url: comment.html_url,
        target: target.clone(),
    }
}

// ---------------------------------------------------------------------------
// Addresses
// ---------------------------------------------------------------------------
pub open spec fn repo_url_text(owner: Seq<char>, repo: Seq<char>) -> Seq<char> {
    "https://api.github.com/repos/"@ + owner + "/"@ + repo
}

fn repo_url(owner: &str, repo: &str) -> (r: String)
    ensures
        r@ == repo_url_text(owner@, repo@),
{
    text::cat4("https://api.github.com/repos/", owner, "/", repo)
}

/// The address of what GitHub keeps under `list` for the issue or pull request
/// with this number.
pub open spec fn item_url_text(
    owner: Seq<char>,
    repo: Seq<char>,
    list: Seq<char>,
    number: u64,
    rest: Seq<char>,
) -> Seq<char> {
    repo_url_text(owner, repo) + list + numeral::decimal(number as nat) + rest
}

fn item_url(owner: &str, repo: &str, list: &str, number: u64, rest: &str) -> (r: String)
    ensures
        r@ == item_url_text(owner@, repo@, list@, number, rest@),
{
    text::cat4(
        repo_url(owner, repo).as_str(),
        list,
        numeral::to_decimal(number).as_str(),
        rest,
    )
}

pub fn open_pull_requests_url(repo: &RepoSlug) -> (r: String)
    ensures
        r@ == repo_url_text(repo.owner@, repo.repo@)
            + "/pulls?state=open&sort=created&direction=desc&per_page=50"@,
{
    text::cat2(
        repo_url(repo.owner.as_str(), repo.repo.as_str()).as_str(),
        "/pulls?state=open&sort=created&direction=desc&per_page=50",
    )
}

/// A page of the open pull requests of an account, wherever on GitHub they are.
pub fn account_search_url(login: &str, page: u64) -> (r: String)
    ensures
        r@ == "https://api.github.com/search/issues?q=is:pr+is:open+author:"@ + login@
            + "&sort=created&order=desc&per_page=100&page="@ + numeral::decimal(page as nat),
{
    text::cat4(
        "https://api.github.com/search/issues?q=is:pr+is:open+author:",
        login,
        "&sort=created&order=desc&per_page=100&page=",
        numeral::to_decimal(page).as_str(),
    )
}

/// Where a comment on a pull request or issue is posted to.
pub fn post_comment_url(target: &WorkTarget) -> (r: String)
    ensures
        r@ == item_url_text(
            target.owner_string()@,
            target.repo_string()@,
            "/issues/"@,
            target.number_value(),
            "/comments"@,
        ),
{
    item_url(target.owner(), target.repo(), "/issues/", target.number(), "/comments")
}

pub open spec fn pr_reactions_url_text(owner: Seq<char>, repo: Seq<char>, number: u64) -> Seq<
    char,
> {
    item_url_text(owner, repo, "/issues/"@, number, "/reactions"@)
}

pub fn pr_reactions_url(owner: &str, repo: &str, number: u64) -> (r: String)
    ensures
        r@ == pr_reactions_url_text(owner@, repo@, number),
{
    item_url(owner, repo, "/issues/", number, "/reactions")
}

/// The reactions to a comment.
pub fn comment_reactions_url(api_url: &str) -> (r: String)
    ensures
        r@ == api_url@ + "/reactions"@,
{
    text::cat2(api_url, "/reactions")
}

pub fn notification_thread_url(notification: &Notification) -> (r: String)
    ensures
        r@ == "https://api.github.com/notifications/threads/"@ + notification.id@,
{
    text::cat2("https://api.github.com/notifications/threads/", notification.id.as_str())
}

pub open spec fn page_query_text(page: u64) -> Seq<char> {
    "?per_page=100&page="@ + numeral::decimal(page as nat)
}

pub fn reaction_page_url(reactions_url: &str, page: u64) -> (r: String)
    ensures
        r@ == reactions_url@ + page_query_text(page),
{
    let query = text::cat2("?per_page=100&page=", numeral::to_decimal(page).as_str());
    text::cat2(reactions_url, query.as_str())
}

pub fn issue_comments_url(target: &WorkTarget, page: u64) -> (r: String)
    ensures
        r@ == item_url_text(
            target.owner_string()@,
            target.repo_string()@,
            "/issues/"@,
            target.number_value(),
            "/comments"@ + page_query_text(page),
        ),
{
    let rest = text::cat3(
        "/comments",
        "?per_page=100&page=",
        numeral::to_decimal(page).as_str(),
    );
    assert(rest@ =~= "/comments"@ + page_query_text(page));
    item_url(target.owner(), target.repo(), "/issues/", target.number(), rest.as_str())
}

pub fn review_comments_url(pr: &PullRequest, page: u64) -> (r: String)
    ensures
        r@ == item_url_text(
            pr.owner@,
            pr.repo@,
            "/pulls/"@,
            pr.number,
            "/comments"@ + page_query_text(page),
        ),
{
    let rest = text::cat3(
        "/comments",
        "?per_page=100&page=",
        numeral::to_decimal(page).as_str(),
    );
    assert(rest@ =~= "/comments"@ + page_query_text(page));
    item_url(pr.owner.as_str(), pr.repo.as_str(), "/pulls/", pr.number, rest.as_str())
}

#[derive(Clone, Copy, Debug, Eq, PartialEq)]
pub enum PullRequestUrlFault {
    Prefix,
    Owner,
    Repo,
    Pull,
    NumberMissing,
    Number,
    Trailing,
}

#[derive(Debug, Eq, PartialEq)]
pub struct PullRequestUrlError {
    pub fault: PullRequestUrlFault,
    pub html_url: String,
}

impl PullRequestUrlFault {
    pub open spec fn text(self) -> Seq<char> {
        match self {
            PullRequestUrlFault::Prefix => "must start with https://github.com/"@,
            PullRequestUrlFault::Owner => "is missing owner"@,
            PullRequestUrlFault::Repo => "is missing repo"@,
            PullRequestUrlFault::Pull => "must contain /pull/"@,
            PullRequestUrlFault::NumberMissing => "is missing number"@,
            PullRequestUrlFault::Number => "has invalid number"@,
            PullRequestUrlFault::Trailing => "has unexpected path after number"@,
        }
    }
}

impl PullRequestUrlError {
    pub open spec fn message_text(self) -> Seq<char> {
        "pull request URL "@ + self.fault.text() + ": "@ + self.html_url@
    }

    /// The error in words.
    pub fn message(&self) -> (r: String)
        ensures
            r@ == self.message_text(),
    {
        let fault = match self.fault {
            PullRequestUrlFault::Prefix => "must start with https://github.com/",
            PullRequestUrlFault::Owner => "is missing owner",
            PullRequestUrlFault::Repo => "is missing repo",
            PullRequestUrlFault::Pull => "must contain /pull/",
            PullRequestUrlFault::NumberMissing => "is missing number",
            PullRequestUrlFault::Number => "has invalid number",
            PullRequestUrlFault::Trailing => "has unexpected path after number",
        };
        text::cat4("pull request URL ", fault, ": ", self.html_url.as_str())
    }
}

/// The owner, the repository and the number in the address of a pull request's
/// page. The first thing that is wrong with it counts.
pub open spec fn pull_request_url_parts(html_url: Seq<char>) -> Result<
    (Seq<char>, Seq<char>, u64),
    PullRequestUrlFault,
> {
    let prefix = "https://github.com/"@;
    let parts = text::pieces(html_url.skip(prefix.len() as int), '/');
    if !text::has_prefix(html_url, prefix) {
        Err(PullRequestUrlFault::Prefix)
    } else if parts[0].len() == 0 {
        Err(PullRequestUrlFault::Owner)
    } else if parts.len() < 2 || parts[1].len() == 0 {
        Err(PullRequestUrlFault::Repo)
    } else if parts.len() < 3 || parts[2] != "pull"@ {
        Err(PullRequestUrlFault::Pull)
    } else if parts.len() < 4 {
        Err(PullRequestUrlFault::NumberMissing)
    } else {
        match numeral::numeral_value(parts[3], u64::MAX as nat) {
            None => Err(PullRequestUrlFault::Number),
            Some(number) => if parts.len() > 4 {
                Err(PullRequestUrlFault::Trailing)
            } else {
                Ok((parts[0], parts[1], number as u64))
            },
        }
    }
}

fn url_fault(fault: PullRequestUrlFault, html_url: &str) -> (r: PullRequestUrlError)
    ensures
        r.fault == fault,
        r.html_url@ == html_url@,
{
    PullRequestUrlError { fault, html_url: html_url.to_owned() }
}

pub fn parse_pull_request_html_url(html_url: &str) -> (r: Result<
    (String, String, u64),
    PullRequestUrlError,
>)
    ensures
        match (pull_request_url_parts(html_url@), r) {
            (Ok((owner, repo, number)), Ok(parts)) => {
                parts.0@ == owner && parts.1@ == repo && parts.2 == number
            },
            (Err(fault), Err(error)) => error.fault == fault && error.html_url@ == html_url@,
            _ => false,
        },
{
    let path = match text::strip_prefix(html_url, "https://github.com/") {
        Some(path) => path,
        None => {
            return Err(url_fault(PullRequestUrlFault::Prefix, html_url));
        },
    };
    let parts = text::split(path.as_str(), '/');
    let ghost views = text::views(parts@);
    proof {
        text::lemma_pieces_not_empty(path@, '/');
        assert(views.len() == parts@.len());
        assert forall|i: int| 0 <= i < parts@.len() implies #[trigger] views[i] == parts@[i]@ by {}
    }
    if parts[0].as_str().is_empty() {
        assert(views[0].len() == 0);
        return Err(url_fault(PullRequestUrlFault::Owner, html_url));
    }
    assert(views[0].len() > 0);
    if parts.len() < 2 || parts[1].as_str().is_empty() {
        assert(parts@.len() >= 2 ==> views[1].len() == 0);
        return Err(url_fault(PullRequestUrlFault::Repo, html_url));
    }
    assert(views[1].len() > 0);
    if parts.len() < 3 || !text::same(parts[2].as_str(), "pull") {
        assert(parts@.len() >= 3 ==> views[2] != "pull"@);
        return Err(url_fault(PullRequestUrlFault::Pull, html_url));
    }
    assert(views[2] == "pull"@);
    if parts.len() < 4 {
        return Err(url_fault(PullRequestUrlFault::NumberMissing, html_url));
    }
    assert(views[3] == parts@[3]@);
    match numeral::parse_u64(parts[3].as_str()) {
        None => Err(url_fault(PullRequestUrlFault::Number, html_url)),
        Some(number) => {
            if parts.len() > 4 {
                Err(url_fault(PullRequestUrlFault::Trailing, html_url))
            } else {
                Ok((parts[0].clone(), parts[1].clone(), number))
            }
        },
    }
}

/// The address of a pull request's page gives back its owner, repository and
/// number, whatever they are called: a name is not empty and has no slash.
pub proof fn law_pull_request_url_reads_back(owner: Seq<char>, repo: Seq<char>, number: u64)
    requires
        owner.len() > 0,
        repo.len() > 0,
        !owner.contains('/'),
        !repo.contains('/'),
    ensures
        pull_request_url_parts(
            "https://github.com/"@ + owner + "/"@ + repo + "/pull/"@ + numeral::decimal(
                number as nat,
            ),
        ) == Ok::<(Seq<char>, Seq<char>, u64), PullRequestUrlFault>((owner, repo, number)),
{
    reveal_strlit("/");
    reveal_strlit("/pull/");
    reveal_strlit("pull");
    let digits = numeral::decimal(number as nat);
    let prefix = "https://github.com/"@;
    let url = prefix + owner + "/"@ + repo + "/pull/"@ + digits;
    numeral::lemma_decimal_digits(number as nat);
    numeral::law_decimal_reads_back(number);
    let slash = seq!['/'];
    assert(!"pull"@.contains('/'));
    if digits.contains('/') {
        let k = choose|k: int| 0 <= k < digits.len() && digits[k] == '/';
        assert(text::is_ascii_digit(digits[k]));
    }
    let rest = owner + slash + (repo + slash + ("pull"@ + slash + digits));
    assert(url.take(prefix.len() as int) =~= prefix);
    assert(url.skip(prefix.len() as int) =~= rest);
    text::lemma_pieces_single(digits, '/');
    text::lemma_pieces_prepend("pull"@, digits, '/');
    text::lemma_pieces_prepend(repo, "pull"@ + slash + digits, '/');
    text::lemma_pieces_prepend(owner, repo + slash + ("pull"@ + slash + digits), '/');
    assert(text::pieces(rest, '/') =~= seq![owner, repo, "pull"@, digits]);
}

// ---------------------------------------------------------------------------
// Reactions
// ---------------------------------------------------------------------------
pub open spec fn is_reaction_by(
    reaction: ApiReaction,
    login: Seq<char>,
    content: Seq<char>,
) -> bool {
    reaction.content@ == content && text::lowered(reaction.user.login@) == text::lowered(login)
}

/// Whether one of the reactions is the account's with this content.
pub open spec fn has_reaction_by(
    reactions: Seq<ApiReaction>,
    login: Seq<char>,
    content: Seq<char>,
) -> bool {
    exists|i: int|
        0 <= i < reactions.len() && is_reaction_by(#[trigger] reactions[i], login, content)
}

pub fn includes_reaction(reactions: &Vec<ApiReaction>, login: &str, content: &str) -> (r: bool)
    ensures
        r == has_reaction_by(reactions@, login@, content@),
{
    let mut i: usize = 0;
    while i < reactions.len()
        invariant
            i <= reactions@.len(),
            forall|k: int|
                0 <= k < i ==> !is_reaction_by(#[trigger] reactions@[k], login@, content@),
        decreases reactions@.len() - i,
    {
        let reaction = &reactions[i];
        if text::same(reaction.content.as_str(), content) && text::same_ignoring_case(
            reaction.user.login.as_str(),
            login,
        ) {
            assert(is_reaction_by(reactions@[i as int], login@, content@));
            return true;
        }
        i = i + 1;
    }
    false
}

#[derive(Debug, Eq, PartialEq)]
pub enum SearchStage<E> {
    Page { page: u64 },
    Ended(Result<bool, E>),
}

/// Looks through the reactions, page by page, for one by an account with a
/// content. It ends with the first match, or with the last page.
#[derive(Debug, Eq, PartialEq)]
pub struct ReactionSearch<E> {
    pub login: String,
    pub content: String,
    pub stage: SearchStage<E>,
}

impl<E> ReactionSearch<E> {
    pub open spec fn after(self, page: Result<Vec<ApiReaction>, E>) -> ReactionSearch<E> {
        let stage = match (self.stage, page) {
            (SearchStage::Ended(result), _) => SearchStage::Ended(result),
            (SearchStage::Page { .. }, Err(error)) => SearchStage::Ended(Err(error)),
            (SearchStage::Page { page }, Ok(reactions)) => {
                if has_reaction_by(reactions@, self.login@, self.content@) {
                    SearchStage::Ended(Ok(true))
                } else if reactions@.len() < PAGE_SIZE {
                    SearchStage::Ended(Ok(false))
                } else {
                    SearchStage::Page { page: (page + 1) as u64 }
                }
            },
        };
        ReactionSearch { stage, ..self }
    }

    pub fn new(login: String, content: String) -> (r: ReactionSearch<E>)
        ensures
            r == (ReactionSearch::<E> { login, content, stage: SearchStage::Page { page: 1 } }),
    {
        ReactionSearch { login, content, stage: SearchStage::Page { page: 1 } }
    }

    /// The page to read next.
    pub fn next_page(&self) -> (r: Option<u64>)
        ensures
            match self.stage {
                SearchStage::Page { page } => r == Some(page),
                SearchStage::Ended(_) => r is None,
            },
    {
        match &self.stage {
            SearchStage::Page { page } => Some(*page),
            SearchStage::Ended(_) => None,
        }
    }

    pub fn on_page(self, page: Result<Vec<ApiReaction>, E>) -> (r: ReactionSearch<E>)
        requires
            self.stage matches SearchStage::Page { page } ==> page < u64::MAX,
        ensures
            r == self.after(page),
    {
        let stage = match (self.stage, page) {
            (SearchStage::Ended(result), _) => SearchStage::Ended(result),
            (SearchStage::Page { .. }, Err(error)) => SearchStage::Ended(Err(error)),
            (SearchStage::Page { page }, Ok(reactions)) => {
                if includes_reaction(&reactions, self.login.as_str(), self.content.as_str()) {
                    SearchStage::Ended(Ok(true))
                } else if reactions.len() < PAGE_SIZE {
                    SearchStage::Ended(Ok(false))
                } else {
                    SearchStage::Page { page: page + 1 }
                }
            },
        };
        ReactionSearch { login: self.login, content: self.content, stage }
    }
}

/// The search that has come through `pages`.
pub open spec fn search_over<E>(
    login: String,
    content: String,
    pages: Seq<Vec<ApiReaction>>,
) -> ReactionSearch<E>
    decreases pages.len(),
{
    if pages.len() == 0 {
        ReactionSearch { login, content, stage: SearchStage::Page { page: 1 } }
    } else {
        search_over(login, content, pages.drop_last()).after(Ok(pages.last()))
    }
}

/// Whether one of the pages holds the reaction.
pub open spec fn on_some_page(
    login: String,
    content: String,
    pages: Seq<Vec<ApiReaction>>,
) -> bool {
    exists|i: int|
        0 <= i < pages.len() && has_reaction_by((#[trigger] pages[i])@, login@, content@)
}

proof fn lemma_search_goes_on<E>(login: String, content: String, pages: Seq<Vec<ApiReaction>>)
    ensures
        search_over::<E>(login, content, pages).login == login,
        search_over::<E>(login, content, pages).content == content,
        search_over::<E>(login, content, pages).stage is Page ==> !on_some_page(
            login,
            content,
            pages,
        ),
    decreases pages.len(),
{
    if pages.len() > 0 {
        let earlier = pages.drop_last();
        lemma_search_goes_on::<E>(login, content, earlier);
        if on_some_page(login, content, pages) {
            let k = choose|k: int|
                0 <= k < pages.len() && has_reaction_by((#[trigger] pages[k])@, login@, content@);
            if k < earlier.len() {
                assert(earlier[k] == pages[k]);
            }
        }
    }
}

/// The search ends with the truth about the pages that it read.
pub proof fn law_search_finds_what_is_there<E>(
    login: String,
    content: String,
    pages: Seq<Vec<ApiReaction>>,
    found: bool,
)
    requires
        pages.len() > 0,
        search_over::<E>(login, content, pages.drop_last()).stage is Page,
        search_over::<E>(login, content, pages).stage == SearchStage::<E>::Ended(Ok(found)),
    ensures
        found == on_some_page(login, content, pages),
{
    let earlier = pages.drop_last();
    lemma_search_goes_on::<E>(login, content, earlier);
    assert(pages[pages.len() - 1] == pages.last());
    if on_some_page(login, content, pages) {
        let k = choose|k: int|
            0 <= k < pages.len() && has_reaction_by((#[trigger] pages[k])@, login@, content@);
        if k < earlier.len() {
            assert(earlier[k] == pages[k]);
        }
    }
}

/// A request is handled where the bot has put the handled reaction on it.
pub fn review_state(handled: bool) -> (r: ReviewState)
    ensures
        r == (if handled {
            ReviewState::Handled
        } else {
            ReviewState::Pending
        }),
{
    if handled {
        ReviewState::Handled
    } else {
        ReviewState::Pending
    }
}

// ---------------------------------------------------------------------------
// Recent comments
// ---------------------------------------------------------------------------
/// Whether one comment is older than another; of two made at the same time, the
/// one whose address comes first.
pub open spec fn older(a: ApiComment, b: ApiComment) -> bool {
    text::precedes(a.created_at@, b.created_at@) || (a.created_at@ == b.created_at@
        && text::precedes(a.url@, b.url@))
}

fn is_older(a: &ApiComment, b: &ApiComment) -> (r: bool)
    ensures
        r == older(*a, *b),
{
    if text::same(a.created_at.as_str(), b.created_at.as_str()) {
        proof {
            text::lemma_precedes_total(a.created_at@, b.created_at@);
        }
        text::before(a.url.as_str(), b.url.as_str())
    } else {
        text::before(a.created_at.as_str(), b.created_at.as_str())
    }
}

/// The place of a comment in a list: after every comment that is not newer.
pub open spec fn place_of(list: Seq<ApiComment>, comment: ApiComment, from: int) -> int
    decreases list.len() - from,
{
    if 0 <= from < list.len() && !older(comment, list[from]) {
        place_of(list, comment, from + 1)
    } else {
        from
    }
}

/// The comments from the oldest to the newest; those alike keep their order.
pub open spec fn by_age(comments: Seq<ApiComment>) -> Seq<ApiComment>
    decreases comments.len(),
{
    if comments.len() == 0 {
        Seq::empty()
    } else {
        let earlier = by_age(comments.drop_last());
        earlier.insert(place_of(earlier, comments.last(), 0), comments.last())
    }
}

/// The newest `limit` comments, from the oldest to the newest.
pub open spec fn newest(comments: Seq<ApiComment>, limit: nat) -> Seq<ApiComment> {
    let all = by_age(comments);
    if all.len() <= limit {
        all
    } else {
        all.skip(all.len() - limit)
    }
}

proof fn lemma_place_of(list: Seq<ApiComment>, comment: ApiComment, from: int)
    requires
        0 <= from <= list.len(),
    ensures
        from <= place_of(list, comment, from) <= list.len(),
        forall|k: int|
            from <= k < place_of(list, comment, from) ==> !older(comment, #[trigger] list[k]),
        place_of(list, comment, from) < list.len() ==> older(
            comment,
            list[place_of(list, comment, from)],
        ),
    decreases list.len() - from,
{
    if from < list.len() && !older(comment, list[from]) {
        lemma_place_of(list, comment, from + 1);
    }
}

proof fn lemma_by_age_len(comments: Seq<ApiComment>)
    ensures
        by_age(comments).len() == comments.len(),
    decreases comments.len(),
{
    if comments.len() > 0 {
        lemma_by_age_len(comments.drop_last());
        lemma_place_of(by_age(comments.drop_last()), comments.last(), 0);
    }
}

pub fn recent_comments(comments: &Vec<ApiComment>, limit: usize) -> (r: Vec<ApiComment>)
    ensures
        r@ == newest(comments@, limit as nat),
{
    let mut all: Vec<ApiComment> = Vec::new();
    let mut i: usize = 0;
    assert(comments@.take(0) =~= Seq::<ApiComment>::empty());
    while i < comments.len()
        invariant
            i <= comments@.len(),
            all@ == by_age(comments@.take(i as int)),
        decreases comments@.len() - i,
    {
        let mut at: usize = 0;
        while at < all.len() && !is_older(&comments[i], &all[at])
            invariant
                i < comments@.len(),
                at <= all@.len(),
                place_of(all@, comments@[i as int], 0) == place_of(
                    all@,
                    comments@[i as int],
                    at as int,
                ),
            decreases all@.len() - at,
        {
            at = at + 1;
        }
        all.insert(at, comments[i].clone());
        assert(comments@.take(i + 1).drop_last() =~= comments@.take(i as int));
        i = i + 1;
    }
    assert(comments@.take(comments@.len() as int) =~= comments@);
    if all.len() <= limit {
        return all;
    }
    let start: usize = all.len() - limit;
    let mut recent: Vec<ApiComment> = Vec::new();
    let mut k: usize = start;
    while k < all.len()
        invariant
            start <= k <= all@.len(),
            recent@ == all@.subrange(start as int, k as int),
        decreases all@.len() - k,
    {
        recent.push(all[k].clone());
        assert(all@.subrange(start as int, k + 1) =~= all@.subrange(start as int, k as int).push(
            all@[k as int],
        ));
        k = k + 1;
    }
    assert(all@.subrange(start as int, all@.len() as int) =~= all@.skip(start as int));
    recent
}

proof fn lemma_not_older_transitive(a: ApiComment, b: ApiComment, c: ApiComment)
    requires
        !older(b, a),
        !older(c, b),
    ensures
        !older(c, a),
{
    text::lemma_precedes_total(a.created_at@, b.created_at@);
    text::lemma_precedes_total(b.created_at@, c.created_at@);
    text::lemma_precedes_total(a.created_at@, c.created_at@);
    text::lemma_precedes_total(a.url@, b.url@);
    text::lemma_precedes_total(b.url@, c.url@);
    text::lemma_precedes_total(a.url@, c.url@);
    if older(c, a) {
        if text::precedes(c.created_at@, a.created_at@) {
            if text::precedes(a.created_at@, b.created_at@) {
                text::lemma_precedes_transitive(c.created_at@, a.created_at@, b.created_at@);
            }
        } else {
            if text::precedes(a.created_at@, b.created_at@) {
                assert(older(c, b));
            } else if a.url@ == b.url@ {
                assert(older(c, b));
            } else {
                text::lemma_precedes_transitive(c.url@, a.url@, b.url@);
            }
        }
    }
}

proof fn lemma_older_asymmetric(a: ApiComment, b: ApiComment)
    requires
        older(a, b),
    ensures
        !older(b, a),
{
    text::lemma_precedes_total(a.created_at@, b.created_at@);
    text::lemma_precedes_total(a.url@, b.url@);
}

/// Sorting by age keeps the very same comments, and puts none before one that is
/// older.
pub proof fn law_by_age_sorts(comments: Seq<ApiComment>)
    ensures
        by_age(comments).len() == comments.len(),
        by_age(comments).to_multiset() == comments.to_multiset(),
        forall|i: int, j: int|
            0 <= i < j < by_age(comments).len() ==> !older(
                #[trigger] by_age(comments)[j],
                #[trigger] by_age(comments)[i],
            ),
    decreases comments.len(),
{
    lemma_by_age_len(comments);
    if comments.len() == 0 {
        assert(by_age(comments) =~= comments);
    } else {
        let earlier = by_age(comments.drop_last());
        let last = comments.last();
        let at = place_of(earlier, last, 0);
        let all = earlier.insert(at, last);
        law_by_age_sorts(comments.drop_last());
        lemma_place_of(earlier, last, 0);
        assert(comments =~= comments.drop_last().push(last));
        assert(all.remove(at) =~= earlier);
        broadcast use vstd::seq_lib::group_to_multiset_ensures;

        assert(all[at] == last);
        assert(all.contains(last));
        assert(earlier.to_multiset() == all.to_multiset().remove(last));
        assert(all.to_multiset() =~= earlier.to_multiset().insert(last));
        assert forall|i: int, j: int| 0 <= i < j < all.len() implies !older(
            #[trigger] all[j],
            #[trigger] all[i],
        ) by {
            if j == at {
                assert(all[i] == earlier[i]);
            } else if i == at {
                assert(all[j] == earlier[j - 1]);
                lemma_older_asymmetric(last, earlier[at]);
                if j - 1 > at {
                    assert(!older(earlier[j - 1], earlier[at]));
                    lemma_not_older_transitive(last, earlier[at], earlier[j - 1]);
                }
            } else {
                let a = if i < at { i } else { i - 1 };
                let b = if j < at { j } else { j - 1 };
                assert(!older(earlier[b], earlier[a]));
            }
        }
    }
}

/// The comments that are kept are the newest: none of those left out is newer
/// than one that is kept.
pub proof fn law_recent_comments_are_the_newest(comments: Seq<ApiComment>, limit: nat)
    ensures
        newest(comments, limit).len() == (if comments.len() <= limit {
            comments.len()
        } else {
            limit
        }),
        forall|left_out: int, kept: int|
            0 <= left_out < comments.len() - newest(comments, limit).len() && 0 <= kept < newest(
                comments,
                limit,
            ).len() ==> !older(
                #[trigger] newest(comments, limit)[kept],
                #[trigger] by_age(comments)[left_out],
            ),
{
    law_by_age_sorts(comments);
}

// ---------------------------------------------------------------------------
// The latest comment of a notification
// ---------------------------------------------------------------------------
/// What a lookup wants to read next.
#[derive(Debug, Eq, PartialEq)]
pub enum LookupAction {
    /// There is nothing left to do.
    Nothing,
    Comment { url: String },
    Issue { url: String },
    PullRequest { url: String },
    Repository { url: String },
    IssueComments { target: WorkTarget, page: u64 },
    ReviewComments { pr: PullRequest, page: u64 },
    /// A page of the account's open pull requests across GitHub.
    Search { login: String, page: u64 },
}

/// What was read; `E` says why it could not be.
#[derive(Debug, Eq, PartialEq)]
pub enum LookupReply<E> {
    Failed(E),
    Comment(ApiComment),
    Issue(ApiIssue),
    PullRequest(ApiPullRequest),
    Repository(ApiRepo),
    Comments(Vec<ApiComment>),
    Issues(Vec<ApiIssue>),
}

#[derive(Debug, Eq, PartialEq)]
pub enum LookupError<E> {
    Outside(E),
    /// The repository of the pull request or issue has no owner.
    NoOwner,
}

/// What a notification is about: an issue, or else a pull request.
pub open spec fn is_about_issue(notification: Notification) -> bool {
    notification.subject_kind@ == "Issue"@
}

fn about_issue(notification: &Notification) -> (r: bool)
    ensures
        r == is_about_issue(*notification),
{
    text::same(notification.subject_kind.as_str(), "Issue")
}

#[derive(Debug, Eq, PartialEq)]
pub enum LatestStage<E> {
    Comment { url: String },
    Issue { url: String, comment: ApiComment, issue_url: String },
    PullRequest { url: String, comment: ApiComment, pr_url: String },
    /// The repository of an issue that is no pull request.
    Repository { url: String, comment: ApiComment, issue: ApiIssue },
    Ended(Result<Option<CommentMention>, LookupError<E>>),
}

/// Finds the latest comment of a notification, and its pull request or issue.
#[derive(Debug, Eq, PartialEq)]
pub struct LatestLookup<E> {
    pub notification: Notification,
    pub stage: LatestStage<E>,
}

impl<E> LatestLookup<E> {
    pub open spec fn initial(notification: Notification) -> LatestLookup<E> {
        LatestLookup {
            notification,
            stage: match notification.latest_comment_url {
                Some(url) => LatestStage::Comment { url },
                None => LatestStage::Ended(Ok(None)),
            },
        }
    }

    pub open spec fn pending(self) -> LookupAction {
        match self.stage {
            LatestStage::Comment { url } => LookupAction::Comment { url },
            LatestStage::Issue { issue_url, .. } => LookupAction::Issue { url: issue_url },
            LatestStage::PullRequest { pr_url, .. } => LookupAction::PullRequest { url: pr_url },
            LatestStage::Repository { issue, .. } => {
                LookupAction::Repository { url: issue.repository_url }
            },
            LatestStage::Ended(_) => LookupAction::Nothing,
        }
    }

    /// The comment belongs to the pull request that it names, else to the
    /// notification's subject, else to the issue that it names. An issue that is a
    /// pull request is taken as one.
    pub open spec fn after(self, reply: LookupReply<E>) -> LatestLookup<E> {
        let stage = match (self.stage, reply) {
            (LatestStage::Ended(result), _) => LatestStage::Ended(result),
            (_, LookupReply::Failed(error)) => {
                LatestStage::Ended(Err(LookupError::Outside(error)))
            },
            (LatestStage::Comment { url }, LookupReply::Comment(comment)) => match (
                comment.pull_request_url,
                self.notification.subject_url,
                comment.issue_url,
            ) {
                (Some(pr_url), _, _) => LatestStage::PullRequest { url, comment, pr_url },
                (None, Some(subject), _) => if is_about_issue(self.notification) {
                    LatestStage::Issue { url, comment, issue_url: subject }
                } else {
                    LatestStage::PullRequest { url, comment, pr_url: subject }
                },
                (None, None, Some(issue_url)) => LatestStage::Issue { url, comment, issue_url },
                (None, None, None) => LatestStage::Ended(Ok(None)),
            },
            (LatestStage::Issue { url, comment, .. }, LookupReply::Issue(issue)) => {
                match issue.pull_request {
                    Some(pull_request) => {
                        LatestStage::PullRequest { url, comment, pr_url: pull_request.url }
                    },
                    None => LatestStage::Repository { url, comment, issue },
                }
            },
            (LatestStage::PullRequest { url, comment, .. }, LookupReply::PullRequest(pr)) => {
                LatestLookup::<E>::ended(
                    url,
                    comment,
                    match as_pull_request(pr) {
                        Some(pr) => Some(WorkTarget::PullRequest(pr)),
                        None => None,
                    },
                )
            },
            (LatestStage::Repository { url, comment, issue }, LookupReply::Repository(repo)) => {
                LatestLookup::<E>::ended(
                    url,
                    comment,
                    match as_issue(issue, repo) {
                        Some(issue) => Some(WorkTarget::Issue(issue)),
                        None => None,
                    },
                )
            },
            (stage, _) => stage,
        };
        LatestLookup { notification: self.notification, stage }
    }

    /// The comment with what it belongs to; it keeps the address that it was read
    /// from.
    pub open spec fn ended(
        url: String,
        comment: ApiComment,
        target: Option<WorkTarget>,
    ) -> LatestStage<E> {
        match target {
            None => LatestStage::Ended(Err(LookupError::NoOwner)),
            Some(target) => LatestStage::Ended(
                Ok(Some(CommentMention { api_url: url, ..as_mention(comment, target) })),
            ),
        }
    }

    pub fn new(notification: Notification) -> (r: LatestLookup<E>)
        ensures
            r == LatestLookup::<E>::initial(notification),
    {
        let stage = match &notification.latest_comment_url {
            Some(url) => LatestStage::Comment { url: url.clone() },
            None => LatestStage::Ended(Ok(None)),
        };
        LatestLookup { notification, stage }
    }

    pub fn action(&self) -> (r: LookupAction)
        ensures
            r == self.pending(),
    {
        match &self.stage {
            LatestStage::Comment { url } => LookupAction::Comment { url: url.clone() },
            LatestStage::Issue { issue_url, .. } => LookupAction::Issue { url: issue_url.clone() },
            LatestStage::PullRequest { pr_url, .. } => {
                LookupAction::PullRequest { url: pr_url.clone() }
            },
            LatestStage::Repository { issue, .. } => {
                LookupAction::Repository { url: issue.repository_url.clone() }
            },
            LatestStage::Ended(_) => LookupAction::Nothing,
        }
    }

    fn end(url: String, comment: ApiComment, target: Option<WorkTarget>) -> (r: LatestStage<E>)
        ensures
            r == LatestLookup::<E>::ended(url, comment, target),
    {
        match target {
            None => LatestStage::Ended(Err(LookupError::NoOwner)),
            Some(target) => LatestStage::Ended(
                Ok(
                    Some(
                        CommentMention {
                            author: comment.user.login,
                            author_id: comment.user.id,
                            body: comment.body,
                            api_url: url,
                            html_url: comment.html_url,
                            target,
                        },
                    ),
                ),
            ),
        }
    }

    pub fn on_reply(self, reply: LookupReply<E>) -> (r: LatestLookup<E>)
        ensures
            r == self.after(reply),
    {
        let stage = match (self.stage, reply) {
            (LatestStage::Ended(result), _) => LatestStage::Ended(result),
            (_, LookupReply::Failed(error)) => {
                LatestStage::Ended(Err(LookupError::Outside(error)))
            },
            (LatestStage::Comment { url }, LookupReply::Comment(comment)) => {
                if let Some(pr_url) = comment.pull_request_url.clone() {
                    LatestStage::PullRequest { url, comment, pr_url }
                } else if let Some(subject) = self.notification.subject_url.clone() {
                    if about_issue(&self.notification) {
                        LatestStage::Issue { url, comment, issue_url: subject }
                    } else {
                        LatestStage::PullRequest { url, comment, pr_url: subject }
                    }
                } else if let Some(issue_url) = comment.issue_url.clone() {
                    LatestStage::Issue { url, comment, issue_url }
                } else {
                    LatestStage::Ended(Ok(None))
                }
            },
            (LatestStage::Issue { url, comment, .. }, LookupReply::Issue(issue)) => {
                match &issue.pull_request {
                    Some(pull_request) => {
                        let pr_url = pull_request.url.clone();
                        LatestStage::PullRequest { url, comment, pr_url }
                    },
                    None => LatestStage::Repository { url, comment, issue },
                }
            },
            (LatestStage::PullRequest { url, comment, .. }, LookupReply::PullRequest(pr)) => {
                let target = match pull_request_from_api(pr) {
                    Some(pr) => Some(WorkTarget::PullRequest(pr)),
                    None => None,
                };
                LatestLookup::end(url, comment, target)
            },
            (LatestStage::Repository { url, comment, issue }, LookupReply::Repository(repo)) => {
                let target = match issue_from_api(issue, repo) {
                    Some(issue) => Some(WorkTarget::Issue(issue)),
                    None => None,
                };
                LatestLookup::end(url, comment, target)
            },
            (stage, _) => stage,
        };
        LatestLookup { notification: self.notification, stage }
    }
}

/// A comment on an issue that is no pull request becomes a mention on that issue.
pub proof fn law_issue_comments_are_found<E>(
    notification: Notification,
    url: String,
    comment: ApiComment,
    issue: ApiIssue,
    repo: ApiRepo,
)
    requires
        notification.latest_comment_url == Some(url),
        is_about_issue(notification),
        notification.subject_url is Some,
        comment.pull_request_url is None,
        issue.pull_request is None,
        repo.owner is Some,
    ensures
        ({
            let found = LatestLookup::<E>::initial(notification).after(
                LookupReply::Comment(comment),
            ).after(LookupReply::Issue(issue)).after(LookupReply::Repository(repo));
            found.stage == LatestStage::<E>::Ended(
                Ok(
                    Some(
                        CommentMention {
                            api_url: url,
                            ..as_mention(comment, WorkTarget::Issue(as_issue(issue, repo)->0))
                        },
                    ),
                ),
            )
        }),
{
}

// ---------------------------------------------------------------------------
// The recent comments of a thread
// ---------------------------------------------------------------------------
#[derive(Debug, Eq, PartialEq)]
pub enum ThreadStage<E> {
    Comment { url: String },
    Issue { url: String },
    PullRequest { url: String },
    /// The repository of an issue that is no pull request.
    Repository { issue: ApiIssue },
    IssueComments { target: WorkTarget, page: u64 },
    ReviewComments { pr: PullRequest, page: u64 },
    Ended(Result<(), LookupError<E>>),
}

/// Finds the pull request or issue of a notification and the recent comments on it.
#[derive(Debug, Eq, PartialEq)]
pub struct ThreadLookup<E> {
    comments: Vec<ApiComment>,
    mentions: Vec<CommentMention>,
    stage: ThreadStage<E>,
}

/// A thread lookup with its lists taken as sequences.
#[verifier::ext_equal]
pub struct ThreadView<E> {
    /// All comments that were read.
    pub comments: Seq<ApiComment>,
    pub mentions: Seq<CommentMention>,
    pub stage: ThreadStage<E>,
}

impl<E> View for ThreadLookup<E> {
    type V = ThreadView<E>;

    closed spec fn view(&self) -> ThreadView<E> {
        ThreadView { comments: self.comments@, mentions: self.mentions@, stage: self.stage }
    }
}

pub open spec fn as_mentions(
    comments: Seq<ApiComment>,
    target: WorkTarget,
) -> Seq<CommentMention> {
    comments.map_values(|comment: ApiComment| as_mention(comment, target))
}

impl<E> ThreadView<E> {
    /// The notification's subject is the pull request or issue; without a subject,
    /// the latest comment leads to it.
    pub open spec fn initial(notification: Notification) -> ThreadView<E> {
        ThreadView {
            comments: Seq::empty(),
            mentions: Seq::empty(),
            stage: match (notification.subject_url, notification.latest_comment_url) {
                (Some(url), _) => if is_about_issue(notification) {
                    ThreadStage::Issue { url }
                } else {
                    ThreadStage::PullRequest { url }
                },
                (None, Some(url)) => ThreadStage::Comment { url },
                (None, None) => ThreadStage::Ended(Ok(())),
            },
        }
    }

    pub open spec fn pending(self) -> LookupAction {
        match self.stage {
            ThreadStage::Comment { url } => LookupAction::Comment { url },
            ThreadStage::Issue { url } => LookupAction::Issue { url },
            ThreadStage::PullRequest { url } => LookupAction::PullRequest { url },
            ThreadStage::Repository { issue } => {
                LookupAction::Repository { url: issue.repository_url }
            },
            ThreadStage::IssueComments { target, page } => {
                LookupAction::IssueComments { target, page }
            },
            ThreadStage::ReviewComments { pr, page } => LookupAction::ReviewComments { pr, page },
            ThreadStage::Ended(_) => LookupAction::Nothing,
        }
    }

    pub open spec fn at(self, stage: ThreadStage<E>) -> ThreadView<E> {
        ThreadView { stage, ..self }
    }

    /// Ends well; the newest of all comments become the mentions.
    pub open spec fn gathered(self, target: WorkTarget) -> ThreadView<E> {
        ThreadView {
            mentions: as_mentions(newest(self.comments, RECENT_COMMENTS as nat), target),
            stage: ThreadStage::Ended(Ok(())),
            ..self
        }
    }

    /// All issue comments are read, page by page, then all review comments, which
    /// only a pull request has. The newest of both become the mentions.
    pub open spec fn after(self, reply: LookupReply<E>) -> ThreadView<E> {
        match (self.stage, reply) {
            (ThreadStage::Ended(_), _) => self,
            (_, LookupReply::Failed(error)) => {
                self.at(ThreadStage::Ended(Err(LookupError::Outside(error))))
            },
            (ThreadStage::Comment { .. }, LookupReply::Comment(comment)) => self.at(
                match (comment.pull_request_url, comment.issue_url) {
                    (Some(url), _) => ThreadStage::PullRequest { url },
                    (None, Some(url)) => ThreadStage::Issue { url },
                    (None, None) => ThreadStage::Ended(Ok(())),
                },
            ),
            (ThreadStage::Issue { .. }, LookupReply::Issue(issue)) => self.at(
                match issue.pull_request {
                    Some(pull_request) => ThreadStage::PullRequest { url: pull_request.url },
                    None => ThreadStage::Repository { issue },
                },
            ),
            (ThreadStage::Repository { issue }, LookupReply::Repository(repo)) => self.at(
                match as_issue(issue, repo) {
                    None => ThreadStage::Ended(Err(LookupError::NoOwner)),
                    Some(issue) => ThreadStage::IssueComments {
                        target: WorkTarget::Issue(issue),
                        page: 1,
                    },
                },
            ),
            (ThreadStage::PullRequest { .. }, LookupReply::PullRequest(pr)) => self.at(
                match as_pull_request(pr) {
                    None => ThreadStage::Ended(Err(LookupError::NoOwner)),
                    Some(pr) => ThreadStage::IssueComments {
                        target: WorkTarget::PullRequest(pr),
                        page: 1,
                    },
                },
            ),
            (ThreadStage::IssueComments { target, page }, LookupReply::Comments(list)) => {
                let read = ThreadView { comments: self.comments + list@, ..self };
                if list@.len() >= PAGE_SIZE {
                    read.at(ThreadStage::IssueComments { target, page: (page + 1) as u64 })
                } else {
                    match target {
                        WorkTarget::PullRequest(pr) => {
                            read.at(ThreadStage::ReviewComments { pr, page: 1 })
                        },
                        WorkTarget::Issue(_) => read.gathered(target),
                    }
                }
            },
            (ThreadStage::ReviewComments { pr, page }, LookupReply::Comments(list)) => {
                let read = ThreadView { comments: self.comments + list@, ..self };
                if list@.len() >= PAGE_SIZE {
                    read.at(ThreadStage::ReviewComments { pr, page: (page + 1) as u64 })
                } else {
                    read.gathered(WorkTarget::PullRequest(pr))
                }
            },
            _ => self,
        }
    }
}

impl<E> ThreadLookup<E> {
    /// Every page before the present one was full.
    #[verifier::type_invariant]
    spec fn pages_read(self) -> bool {
        match self.stage {
            ThreadStage::IssueComments { page, .. } => {
                1 <= page && (page - 1) * PAGE_SIZE <= self.comments@.len()
            },
            ThreadStage::ReviewComments { page, .. } => {
                1 <= page && (page - 1) * PAGE_SIZE <= self.comments@.len()
            },
            _ => true,
        }
    }

    pub fn new(notification: &Notification) -> (r: ThreadLookup<E>)
        ensures
            r@ == ThreadView::<E>::initial(*notification),
    {
        let stage = if let Some(url) = &notification.subject_url {
            if about_issue(notification) {
                ThreadStage::Issue { url: url.clone() }
            } else {
                ThreadStage::PullRequest { url: url.clone() }
            }
        } else if let Some(url) = &notification.latest_comment_url {
            ThreadStage::Comment { url: url.clone() }
        } else {
            ThreadStage::Ended(Ok(()))
        };
        let r = ThreadLookup { comments: Vec::new(), mentions: Vec::new(), stage };
        assert(r@ =~= ThreadView::<E>::initial(*notification));
        r
    }

    pub fn action(&self) -> (r: LookupAction)
        ensures
            r == self@.pending(),
    {
        match &self.stage {
            ThreadStage::Comment { url } => LookupAction::Comment { url: url.clone() },
            ThreadStage::Issue { url } => LookupAction::Issue { url: url.clone() },
            ThreadStage::PullRequest { url } => LookupAction::PullRequest { url: url.clone() },
            ThreadStage::Repository { issue } => {
                LookupAction::Repository { url: issue.repository_url.clone() }
            },
            ThreadStage::IssueComments { target, page } => {
                LookupAction::IssueComments { target: target.clone(), page: *page }
            },
            ThreadStage::ReviewComments { pr, page } => {
                LookupAction::ReviewComments { pr: pr.clone(), page: *page }
            },
            ThreadStage::Ended(_) => LookupAction::Nothing,
        }
    }

    fn mentions_of(comments: &Vec<ApiComment>, target: &WorkTarget) -> (r: Vec<CommentMention>)
        ensures
            r@ == as_mentions(comments@, *target),
    {
        let mut mentions: Vec<CommentMention> = Vec::new();
        let mut i: usize = 0;
        while i < comments.len()
            invariant
                i <= comments@.len(),
                mentions@ == as_mentions(comments@, *target).take(i as int),
            decreases comments@.len() - i,
        {
            mentions.push(comment_mention(comments[i].clone(), target));
            assert(as_mentions(comments@, *target).take(i + 1) =~= as_mentions(comments@, *target).take(
                i as int,
            ).push(as_mention(comments@[i as int], *target)));
            i = i + 1;
        }
        assert(as_mentions(comments@, *target).take(comments@.len() as int) =~= as_mentions(
            comments@,
            *target,
        ));
        mentions
    }

    fn gather(
        comments: Vec<ApiComment>,
        target: &WorkTarget,
    ) -> (r: ThreadLookup<E>)
        ensures
            forall|mentions: Seq<CommentMention>, stage: ThreadStage<E>|
                r@ == #[trigger] (ThreadView { comments: comments@, mentions, stage }).gathered(
                    *target,
                ),
    {
        let recent = recent_comments(&comments, RECENT_COMMENTS);
        let mentions = ThreadLookup::<E>::mentions_of(&recent, target);
        ThreadLookup { comments, mentions, stage: ThreadStage::Ended(Ok(())) }
    }

    pub fn on_reply(self, reply: LookupReply<E>) -> (r: ThreadLookup<E>)
        ensures
            r@ == self@.after(reply),
    {
        proof {
            use_type_invariant(&self);
        }
        let comments = self.comments;
        let mentions = self.mentions;
        match (self.stage, reply) {
            (ThreadStage::Ended(result), _) => {
                ThreadLookup { comments, mentions, stage: ThreadStage::Ended(result) }
            },
            (_, LookupReply::Failed(error)) => ThreadLookup {
                comments,
                mentions,
                stage: ThreadStage::Ended(Err(LookupError::Outside(error))),
            },
            (ThreadStage::Comment { .. }, LookupReply::Comment(comment)) => {
                let stage = if let Some(url) = comment.pull_request_url {
                    ThreadStage::PullRequest { url }
                } else if let Some(url) = comment.issue_url {
                    ThreadStage::Issue { url }
                } else {
                    ThreadStage::Ended(Ok(()))
                };
                ThreadLookup { comments, mentions, stage }
            },
            (ThreadStage::Issue { .. }, LookupReply::Issue(issue)) => {
                let stage = match &issue.pull_request {
                    Some(pull_request) => {
                        ThreadStage::PullRequest { url: pull_request.url.clone() }
                    },
                    None => ThreadStage::Repository { issue },
                };
                ThreadLookup { comments, mentions, stage }
            },
            (ThreadStage::Repository { issue }, LookupReply::Repository(repo)) => {
                let stage = match issue_from_api(issue, repo) {
                    None => ThreadStage::Ended(Err(LookupError::NoOwner)),
                    Some(issue) => ThreadStage::IssueComments {
                        target: WorkTarget::Issue(issue),
                        page: 1,
                    },
                };
                ThreadLookup { comments, mentions, stage }
            },
            (ThreadStage::PullRequest { .. }, LookupReply::PullRequest(pr)) => {
                let stage = match pull_request_from_api(pr) {
                    None => ThreadStage::Ended(Err(LookupError::NoOwner)),
                    Some(pr) => ThreadStage::IssueComments {
                        target: WorkTarget::PullRequest(pr),
                        page: 1,
                    },
                };
                ThreadLookup { comments, mentions, stage }
            },
            (ThreadStage::IssueComments { target, page }, LookupReply::Comments(list)) => {
                assert(page - 1 <= comments.len());
                let mut comments = comments;
                let mut list = list;
                let last = list.len() < PAGE_SIZE;
                comments.append(&mut list);
                assert(page - 1 + PAGE_SIZE <= comments.len() || last);
                if !last {
                    let stage = ThreadStage::IssueComments { target, page: page + 1 };
                    return ThreadLookup { comments, mentions, stage };
                }
                match target {
                    WorkTarget::PullRequest(pr) => {
                        let stage = ThreadStage::ReviewComments { pr, page: 1 };
                        ThreadLookup { comments, mentions, stage }
                    },
                    WorkTarget::Issue(issue) => {
                        ThreadLookup::gather(comments, &WorkTarget::Issue(issue))
                    },
                }
            },
            (ThreadStage::ReviewComments { pr, page }, LookupReply::Comments(list)) => {
                assert(page - 1 <= comments.len());
                let mut comments = comments;
                let mut list = list;
                let last = list.len() < PAGE_SIZE;
                comments.append(&mut list);
                assert(page - 1 + PAGE_SIZE <= comments.len() || last);
                if last {
                    ThreadLookup::gather(comments, &WorkTarget::PullRequest(pr))
                } else {
                    let stage = ThreadStage::ReviewComments { pr, page: page + 1 };
                    ThreadLookup { comments, mentions, stage }
                }
            },
            (stage, _) => ThreadLookup { comments, mentions, stage },
        }
    }

    /// The mentions of a lookup that has ended.
    pub fn into_result(self) -> (r: Option<Result<Vec<CommentMention>, LookupError<E>>>)
        ensures
            match self@.stage {
                ThreadStage::Ended(Ok(())) => {
                    &&& r matches Some(Ok(list))
                    &&& list@ == self@.mentions
                },
                ThreadStage::Ended(Err(error)) => r == Some(
                    Err::<Vec<CommentMention>, LookupError<E>>(error),
                ),
                _ => r is None,
            },
    {
        match self.stage {
            ThreadStage::Ended(Ok(())) => Some(Ok(self.mentions)),
            ThreadStage::Ended(Err(error)) => Some(Err(error)),
            _ => None,
        }
    }
}

// ---------------------------------------------------------------------------
// The pull requests of an account
// ---------------------------------------------------------------------------
/// A pull request with what tells whether it is any business of the bot's.
pub open spec fn as_found(pr: ApiPullRequest) -> Option<FoundPullRequest> {
    match as_pull_request(pr) {
        None => None,
        Some(found) => Some(
            FoundPullRequest { pr: found, base_private: pr.base.repo.private },
        ),
    }
}

pub fn found_from_api(pr: ApiPullRequest) -> (r: Option<FoundPullRequest>)
    ensures
        r == as_found(pr),
{
    let base_private = pr.base.repo.private;
    match pull_request_from_api(pr) {
        None => None,
        Some(pr) => Some(FoundPullRequest { pr, base_private }),
    }
}

/// The addresses of the pull requests among the issues, in order.
pub open spec fn pull_request_urls(issues: Seq<ApiIssue>) -> Seq<String>
    decreases issues.len(),
{
    if issues.len() == 0 {
        Seq::empty()
    } else {
        let earlier = pull_request_urls(issues.drop_last());
        match issues.last().pull_request {
            Some(pull_request) => earlier.push(pull_request.url),
            None => earlier,
        }
    }
}

#[derive(Debug, Eq, PartialEq)]
pub enum AccountSearchStage<E> {
    Page { page: u64 },
    /// The pull requests are read one by one.
    PullRequest,
    Ended(Result<(), LookupError<E>>),
}

/// Finds the open pull requests of an account across GitHub.
#[derive(Debug, Eq, PartialEq)]
pub struct AccountSearch<E> {
    login: String,
    urls: Vec<String>,
    found: Vec<FoundPullRequest>,
    stage: AccountSearchStage<E>,
}

/// A search with its lists taken as sequences.
#[verifier::ext_equal]
pub struct AccountSearchView<E> {
    pub login: String,
    /// The addresses of the pull requests.
    pub urls: Seq<String>,
    /// Those that were read.
    pub found: Seq<FoundPullRequest>,
    pub stage: AccountSearchStage<E>,
}

impl<E> View for AccountSearch<E> {
    type V = AccountSearchView<E>;

    closed spec fn view(&self) -> AccountSearchView<E> {
        AccountSearchView {
            login: self.login,
            urls: self.urls@,
            found: self.found@,
            stage: self.stage,
        }
    }
}

impl<E> AccountSearchView<E> {
    pub open spec fn initial(login: String) -> AccountSearchView<E> {
        AccountSearchView {
            login,
            urls: Seq::empty(),
            found: Seq::empty(),
            stage: AccountSearchStage::Page { page: 1 },
        }
    }

    pub open spec fn pending(self) -> LookupAction {
        match self.stage {
            AccountSearchStage::Page { page } => LookupAction::Search { login: self.login, page },
            AccountSearchStage::PullRequest => {
                LookupAction::PullRequest { url: self.urls[self.found.len() as int] }
            },
            AccountSearchStage::Ended(_) => LookupAction::Nothing,
        }
    }

    /// Goes on to the next pull request.
    pub open spec fn reading_on(self) -> AccountSearchView<E> {
        AccountSearchView {
            stage: if self.found.len() < self.urls.len() {
                AccountSearchStage::PullRequest
            } else {
                AccountSearchStage::Ended(Ok(()))
            },
            ..self
        }
    }

    /// The pages are read up to the first that is not full, then each pull request.
    pub open spec fn after(self, reply: LookupReply<E>) -> AccountSearchView<E> {
        match (self.stage, reply) {
            (AccountSearchStage::Ended(_), _) => self,
            (_, LookupReply::Failed(error)) => AccountSearchView {
                stage: AccountSearchStage::Ended(Err(LookupError::Outside(error))),
                ..self
            },
            (AccountSearchStage::Page { page }, LookupReply::Issues(issues)) => {
                let listed = AccountSearchView {
                    urls: self.urls + pull_request_urls(issues@),
                    ..self
                };
                if issues@.len() < PAGE_SIZE || page >= MAX_SEARCH_PAGES {
                    listed.reading_on()
                } else {
                    AccountSearchView {
                        stage: AccountSearchStage::Page { page: (page + 1) as u64 },
                        ..listed
                    }
                }
            },
            (AccountSearchStage::PullRequest, LookupReply::PullRequest(pr)) => match as_found(pr) {
                None => AccountSearchView {
                    stage: AccountSearchStage::Ended(Err(LookupError::NoOwner)),
                    ..self
                },
                Some(pr) => AccountSearchView { found: self.found.push(pr), ..self }.reading_on(),
            },
            _ => self,
        }
    }
}

fn push_pull_request_urls(urls: &mut Vec<String>, issues: Vec<ApiIssue>)
    ensures
        final(urls)@ == old(urls)@ + pull_request_urls(issues@),
{
    let ghost before = urls@;
    let ghost all = issues@;
    assert(before + pull_request_urls(all.take(0)) =~= before);
    for issue in it: issues
        invariant
            it.seq() == all,
            urls@ == before + pull_request_urls(all.take(it.index())),
    {
        let ghost so_far = pull_request_urls(all.take(it.index()));
        assert(all.take(it.index() + 1).drop_last() =~= all.take(it.index()));
        assert(all.take(it.index() + 1).last() == issue);
        match issue.pull_request {
            Some(pull_request) => {
                urls.push(pull_request.url);
                assert(urls@ =~= before + so_far.push(pull_request.url));
            },
            None => {},
        }
    }
    assert(all.take(all.len() as int) =~= all);
}

impl<E> AccountSearch<E> {
    /// There is an address to read at the stage where one is read.
    #[verifier::type_invariant]
    spec fn has_next(self) -> bool {
        self.stage is PullRequest ==> self.found@.len() < self.urls@.len()
    }

    pub fn new(login: String) -> (r: AccountSearch<E>)
        ensures
            r@ == AccountSearchView::<E>::initial(login),
    {
        let r = AccountSearch {
            login,
            urls: Vec::new(),
            found: Vec::new(),
            stage: AccountSearchStage::Page { page: 1 },
        };
        assert(r@ =~= AccountSearchView::<E>::initial(login));
        r
    }

    pub fn action(&self) -> (r: LookupAction)
        ensures
            r == self@.pending(),
    {
        proof {
            use_type_invariant(self);
        }
        match &self.stage {
            AccountSearchStage::Page { page } => {
                LookupAction::Search { login: self.login.clone(), page: *page }
            },
            AccountSearchStage::PullRequest => {
                LookupAction::PullRequest { url: self.urls[self.found.len()].clone() }
            },
            AccountSearchStage::Ended(_) => LookupAction::Nothing,
        }
    }

    fn read_on(
        login: String,
        urls: Vec<String>,
        found: Vec<FoundPullRequest>,
    ) -> (r: AccountSearch<E>)
        ensures
            forall|stage: AccountSearchStage<E>|
                r@ == #[trigger] (AccountSearchView {
                    login,
                    urls: urls@,
                    found: found@,
                    stage,
                }).reading_on(),
    {
        let stage = if found.len() < urls.len() {
            AccountSearchStage::PullRequest
        } else {
            AccountSearchStage::Ended(Ok(()))
        };
        AccountSearch { login, urls, found, stage }
    }

    pub fn on_reply(self, reply: LookupReply<E>) -> (r: AccountSearch<E>)
        ensures
            r@ == self@.after(reply),
    {
        proof {
            use_type_invariant(&self);
        }
        let login = self.login;
        let mut urls = self.urls;
        let mut found = self.found;
        match (self.stage, reply) {
            (AccountSearchStage::Ended(result), _) => {
                AccountSearch { login, urls, found, stage: AccountSearchStage::Ended(result) }
            },
            (_, LookupReply::Failed(error)) => AccountSearch {
                login,
                urls,
                found,
                stage: AccountSearchStage::Ended(Err(LookupError::Outside(error))),
            },
            (AccountSearchStage::Page { page }, LookupReply::Issues(issues)) => {
                let last = issues.len() < PAGE_SIZE || page >= MAX_SEARCH_PAGES;
                push_pull_request_urls(&mut urls, issues);
                if last {
                    AccountSearch::read_on(login, urls, found)
                } else {
                    AccountSearch {
                        login,
                        urls,
                        found,
                        stage: AccountSearchStage::Page { page: page + 1 },
                    }
                }
            },
            (AccountSearchStage::PullRequest, LookupReply::PullRequest(pr)) => {
                match found_from_api(pr) {
                    None => AccountSearch {
                        login,
                        urls,
                        found,
                        stage: AccountSearchStage::Ended(Err(LookupError::NoOwner)),
                    },
                    Some(pr) => {
                        found.push(pr);
                        AccountSearch::read_on(login, urls, found)
                    },
                }
            },
            (stage, _) => AccountSearch { login, urls, found, stage },
        }
    }

    /// The pull requests of a search that has ended.
    pub fn into_result(self) -> (r: Option<Result<Vec<FoundPullRequest>, LookupError<E>>>)
        ensures
            match self@.stage {
                AccountSearchStage::Ended(Ok(())) => {
                    &&& r matches Some(Ok(list))
                    &&& list@ == self@.found
                },
                AccountSearchStage::Ended(Err(error)) => r == Some(
                    Err::<Vec<FoundPullRequest>, LookupError<E>>(error),
                ),
                _ => r is None,
            },
    {
        match self.stage {
            AccountSearchStage::Ended(Ok(())) => Some(Ok(self.found)),
            AccountSearchStage::Ended(Err(error)) => Some(Err(error)),
            _ => None,
        }
    }
}

/// The search of an account that has come through `replies`.
pub open spec fn account_search_over<E>(
    login: String,
    replies: Seq<LookupReply<E>>,
) -> AccountSearchView<E>
    decreases replies.len(),
{
    if replies.len() == 0 {
        AccountSearchView::initial(login)
    } else {
        account_search_over(login, replies.drop_last()).after(replies.last())
    }
}

/// Whatever the replies: a search that ends well has read each pull request that
/// was listed to it.
pub proof fn law_search_reads_each_pull_request<E>(login: String, replies: Seq<LookupReply<E>>)
    ensures
        account_search_over(login, replies).found.len() <= account_search_over(
            login,
            replies,
        ).urls.len(),
        account_search_over(login, replies).stage == AccountSearchStage::<E>::Ended(Ok(()))
            ==> account_search_over(login, replies).found.len() == account_search_over(
            login,
            replies,
        ).urls.len(),
        account_search_over(login, replies).stage is PullRequest ==> account_search_over(
            login,
            replies,
        ).found.len() < account_search_over(login, replies).urls.len(),
    decreases replies.len(),
{
    if replies.len() > 0 {
        law_search_reads_each_pull_request(login, replies.drop_last());
    }
}

// ---------------------------------------------------------------------------
// What is made of the answers
// ---------------------------------------------------------------------------
/// A notification is taken over as it is.
pub proof fn law_notifications_are_taken_over(notification: ApiNotification)
    ensures
        ({
            let n = as_notification(notification);
            &&& n.id == notification.id
            &&& n.reason == notification.reason
            &&& n.subject_kind == notification.subject.kind
            &&& n.subject_url == notification.subject.url
            &&& n.latest_comment_url == notification.subject.latest_comment_url
            &&& n.unread == notification.unread
            &&& n.updated_at == notification.updated_at
        }),
{
}

/// A pull request belongs to the repository that it would be merged into, and to
/// the account that opened it. It is of use as long as that repository has an
/// owner.
pub proof fn law_pull_requests_are_taken_over(pr: ApiPullRequest)
    ensures
        as_pull_request(pr) is Some <==> pr.base.repo.owner is Some,
        as_found(pr) is Some <==> pr.base.repo.owner is Some,
        pr.base.repo.owner is Some ==> {
            let taken = as_pull_request(pr)->0;
            let found = as_found(pr)->0;
            &&& taken.owner == (pr.base.repo.owner->0).login
            &&& taken.repo == pr.base.repo.name
            &&& taken.number == pr.number
            &&& taken.author == pr.user.login
            &&& taken.author_id == pr.user.id
            &&& taken.api_url == pr.url
            &&& taken.html_url == pr.html_url
            &&& taken.clone_url == pr.base.repo.clone_url
            &&& found.pr == taken
            &&& found.base_private == pr.base.repo.private
        },
{
}

/// The same of issues.
pub proof fn law_issues_are_taken_over(issue: ApiIssue, repo: ApiRepo)
    ensures
        as_issue(issue, repo) is Some <==> repo.owner is Some,
        repo.owner is Some ==> {
            let taken = as_issue(issue, repo)->0;
            &&& taken.owner == (repo.owner->0).login
            &&& taken.repo == repo.name
            &&& taken.number == issue.number
            &&& taken.author == issue.user.login
            &&& taken.title == issue.title
            &&& taken.body == issue.body
            &&& taken.api_url == issue.url
            &&& taken.html_url == issue.html_url
            &&& taken.clone_url == repo.clone_url
            &&& taken.ssh_url == repo.ssh_url
            &&& taken.default_branch == repo.default_branch
        },
{
}

/// A mention has the comment's author, text and addresses.
pub proof fn law_comments_are_taken_over(comment: ApiComment, target: WorkTarget)
    ensures
        ({
            let mention = as_mention(comment, target);
            &&& mention.author == comment.user.login
            &&& mention.author_id == comment.user.id
            &&& mention.body == comment.body
            &&& mention.api_url == comment.url
            &&& mention.html_url == comment.html_url
            &&& mention.target == target
        }),
{
}

/// Where things are on GitHub: below their owner, repository and number. A page of
/// a list is asked for by its number, a hundred items at a time.
pub proof fn law_addresses(
    owner: Seq<char>,
    repo: Seq<char>,
    list: Seq<char>,
    number: u64,
    rest: Seq<char>,
    page: u64,
)
    ensures
        repo_url_text(owner, repo) == "https://api.github.com/repos/"@ + owner + seq!['/'] + repo,
        item_url_text(owner, repo, list, number, rest) == "https://api.github.com/repos/"@ + owner
            + seq!['/'] + repo + list + numeral::decimal(number as nat) + rest,
        pr_reactions_url_text(owner, repo, number) == "https://api.github.com/repos/"@ + owner
            + seq!['/'] + repo + "/issues/"@ + numeral::decimal(number as nat) + "/reactions"@,
        page_query_text(page) == "?per_page=100&page="@ + numeral::decimal(page as nat),
{
    reveal_strlit("/");
    assert("/"@ =~= seq!['/']);
}

/// The address of a pull request's page is `https://github.com/`, an owner, a
/// repository, `pull` and a number, with slashes between them, and nothing else.
pub proof fn law_pull_request_urls_have_one_form(html_url: Seq<char>)
    requires
        pull_request_url_parts(html_url) is Ok,
    ensures
        ({
            let (owner, repo, number) = pull_request_url_parts(html_url)->Ok_0;
            &&& owner.len() > 0 && !owner.contains('/')
            &&& repo.len() > 0 && !repo.contains('/')
            &&& exists|numeral: Seq<char>|
                {
                    &&& html_url == "https://github.com/"@ + owner + seq!['/'] + repo
                        + seq!['/', 'p', 'u', 'l', 'l', '/'] + numeral
                    &&& #[trigger] numeral::numeral_value(numeral, u64::MAX as nat) == Some(
                        number as nat,
                    )
                }
        }),
{
    reveal_strlit("pull");
    let prefix = "https://github.com/"@;
    let path = html_url.skip(prefix.len() as int);
    let parts = text::pieces(path, '/');
    let (owner, repo, number) = pull_request_url_parts(html_url)->Ok_0;
    text::law_pieces_make_up_the_text(path, '/');
    assert(parts.len() == 4);
    let slash = seq!['/'];
    assert(parts.drop_last().drop_last().drop_last() =~= seq![owner]);
    assert(text::joined(seq![owner], slash) == owner);
    assert(text::joined(parts.drop_last().drop_last(), slash) == owner + slash + repo);
    assert(text::joined(parts.drop_last(), slash) == owner + slash + repo + slash + "pull"@);
    assert(path == owner + slash + repo + slash + "pull"@ + slash + parts[3]);
    assert(html_url =~= prefix + path) by {
        assert(html_url.take(prefix.len() as int) == prefix);
        assert(html_url =~= html_url.take(prefix.len() as int) + path);
    }
    assert(html_url =~= "https://github.com/"@ + owner + seq!['/'] + repo
        + seq!['/', 'p', 'u', 'l', 'l', '/'] + parts[3]);
    assert(!parts[0].contains('/') && !parts[1].contains('/'));
}

/// A reaction is the account's whatever the case of its login's letters, and has
/// the content to the letter.
pub proof fn law_whose_reactions_count(
    reactions: Seq<ApiReaction>,
    login: Seq<char>,
    content: Seq<char>,
)
    ensures
        has_reaction_by(reactions, login, content) <==> exists|i: int|
            0 <= i < reactions.len() && (#[trigger] reactions[i]).content@ == content
                && text::lowered(reactions[i].user.login@) == text::lowered(login),
{
    if has_reaction_by(reactions, login, content) {
        let i = choose|i: int|
            0 <= i < reactions.len() && is_reaction_by(#[trigger] reactions[i], login, content);
        assert(reactions[i].content@ == content);
    }
    if exists|i: int|
        0 <= i < reactions.len() && (#[trigger] reactions[i]).content@ == content && text::lowered(
            reactions[i].user.login@,
        ) == text::lowered(login) {
        let i = choose|i: int|
            0 <= i < reactions.len() && (#[trigger] reactions[i]).content@ == content
                && text::lowered(reactions[i].user.login@) == text::lowered(login);
        assert(is_reaction_by(reactions[i], login, content));
    }
}

/// A search for a reaction that has not found it goes on while the pages are full,
/// page after page, and ends at the first that is not; a page that cannot be read
/// ends it.
pub proof fn law_search_goes_through_full_pages<E>(
    search: ReactionSearch<E>,
    page: u64,
    reactions: Vec<ApiReaction>,
    error: E,
)
    requires
        search.stage == (SearchStage::<E>::Page { page }),
        page < u64::MAX,
    ensures
        ({
            let there = has_reaction_by(reactions@, search.login@, search.content@);
            let next = search.after(Ok(reactions));
            &&& there ==> next.stage == SearchStage::<E>::Ended(Ok(true))
            &&& !there && reactions@.len() >= 100 ==> next.stage == (SearchStage::<E>::Page {
                page: (page + 1) as u64,
            })
            &&& !there && reactions@.len() < 100 ==> next.stage == SearchStage::<E>::Ended(
                Ok(false),
            )
            &&& search.after(Err(error)).stage == SearchStage::<E>::Ended(Err(error))
            &&& next.login == search.login && next.content == search.content
        }),
{
}

/// Of two comments made at different times the earlier is older; of two made at
/// the same time, the one whose address comes first.
pub proof fn law_age_goes_by_time(a: ApiComment, b: ApiComment)
    ensures
        a.created_at@ != b.created_at@ ==> older(a, b) == text::precedes(
            a.created_at@,
            b.created_at@,
        ),
        a.created_at@ == b.created_at@ ==> older(a, b) == text::precedes(a.url@, b.url@),
{
    text::lemma_precedes_total(a.created_at@, b.created_at@);
}

/// The recent comments are the last of all, from the oldest to the newest.
pub proof fn law_recent_comments_are_in_order(comments: Seq<ApiComment>, limit: nat)
    ensures
        newest(comments, limit).is_suffix_of(by_age(comments)),
        forall|i: int, j: int|
            0 <= i < j < newest(comments, limit).len() ==> !older(
                #[trigger] newest(comments, limit)[j],
                #[trigger] newest(comments, limit)[i],
            ),
{
    law_by_age_sorts(comments);
    let all = by_age(comments);
    let kept = newest(comments, limit);
    assert(kept =~= all.subrange(all.len() - kept.len(), all.len() as int));
    assert forall|i: int, j: int| 0 <= i < j < kept.len() implies !older(
        #[trigger] kept[j],
        #[trigger] kept[i],
    ) by {
        let gap = all.len() - kept.len();
        assert(!older(all[gap + j], all[gap + i]));
    }
}

// ---------------------------------------------------------------------------
// Where lookups lead
// ---------------------------------------------------------------------------
/// The comment as a mention on a pull request, read from `url`.
pub open spec fn is_mention_on_pull_request(
    mention: CommentMention,
    url: String,
    comment: ApiComment,
    pr: ApiPullRequest,
) -> bool {
    &&& mention.author == comment.user.login
    &&& mention.author_id == comment.user.id
    &&& mention.body == comment.body
    &&& mention.html_url == comment.html_url
    &&& mention.api_url == url
    &&& mention.target matches WorkTarget::PullRequest(target)
    &&& target.number == pr.number
    &&& target.repo == pr.base.repo.name
    &&& pr.base.repo.owner is Some
    &&& target.owner == (pr.base.repo.owner->0).login
    &&& target.author == pr.user.login
    &&& target.author_id == pr.user.id
    &&& target.html_url == pr.html_url
    &&& target.api_url == pr.url
    &&& target.clone_url == pr.base.repo.clone_url
}

/// For a notification about a pull request, a latest comment that names no pull
/// request of its own leads to the subject as a pull request; once that is read
/// and has an owner, the comment is a mention on it, with the comment's author,
/// body and page address.
pub proof fn law_pull_request_comments_are_found<E>(
    notification: Notification,
    url: String,
    subject: String,
    comment: ApiComment,
    pr: ApiPullRequest,
)
    requires
        notification.subject_kind@ == "PullRequest"@,
        notification.latest_comment_url == Some(url),
        notification.subject_url == Some(subject),
        comment.pull_request_url is None,
        pr.base.repo.owner is Some,
    ensures
        ({
            let begun = LatestLookup::<E>::initial(notification);
            let read = begun.after(LookupReply::Comment(comment));
            let found = read.after(LookupReply::PullRequest(pr));
            &&& begun.pending() == (LookupAction::Comment { url })
            &&& read.pending() == (LookupAction::PullRequest { url: subject })
            &&& found.pending() == LookupAction::Nothing
            &&& found.stage matches LatestStage::Ended(Ok(Some(mention)))
            &&& is_mention_on_pull_request(mention, url, comment, pr)
        }),
{
    reveal_strlit("PullRequest");
    reveal_strlit("Issue");
    assert("PullRequest"@.len() == 11 && "Issue"@.len() == 5);
}

/// A latest comment that names its pull request leads there, whatever the
/// notification's subject is.
pub proof fn law_review_comments_are_found<E>(
    notification: Notification,
    url: String,
    named: String,
    comment: ApiComment,
    pr: ApiPullRequest,
)
    requires
        notification.latest_comment_url == Some(url),
        comment.pull_request_url == Some(named),
        pr.base.repo.owner is Some,
    ensures
        ({
            let read = LatestLookup::<E>::initial(notification).after(
                LookupReply::Comment(comment),
            );
            let found = read.after(LookupReply::PullRequest(pr));
            &&& read.pending() == (LookupAction::PullRequest { url: named })
            &&& found.stage matches LatestStage::Ended(Ok(Some(mention)))
            &&& is_mention_on_pull_request(mention, url, comment, pr)
        }),
{
}

/// A comment that belongs to an issue, by the notification's subject or, without
/// one, by what the comment itself names, leads to that issue. Where the issue is
/// a pull request, it leads on to that; else to the issue's repository, and the
/// comment is a mention on the issue.
pub proof fn law_comments_lead_through_their_issue<E>(
    notification: Notification,
    url: String,
    issue_url: String,
    comment: ApiComment,
    issue: ApiIssue,
    pr: ApiPullRequest,
    repo: ApiRepo,
)
    requires
        notification.latest_comment_url == Some(url),
        comment.pull_request_url is None,
        (notification.subject_kind@ == "Issue"@ && notification.subject_url == Some(issue_url)) || (
        notification.subject_url is None && comment.issue_url == Some(issue_url)),
        pr.base.repo.owner is Some,
        repo.owner is Some,
    ensures
        ({
            let read = LatestLookup::<E>::initial(notification).after(
                LookupReply::Comment(comment),
            );
            let led = read.after(LookupReply::Issue(issue));
            &&& read.pending() == (LookupAction::Issue { url: issue_url })
            &&& issue.pull_request matches Some(link) ==> {
                &&& led.pending() == (LookupAction::PullRequest { url: link.url })
                &&& led.after(LookupReply::PullRequest(pr)).stage matches LatestStage::Ended(
                    Ok(Some(mention)),
                )
                &&& is_mention_on_pull_request(mention, url, comment, pr)
            }
            &&& issue.pull_request is None ==> {
                &&& led.pending() == (LookupAction::Repository { url: issue.repository_url })
                &&& led.after(LookupReply::Repository(repo)).stage matches LatestStage::Ended(
                    Ok(Some(mention)),
                )
                &&& mention.author == comment.user.login
                &&& mention.author_id == comment.user.id
                &&& mention.body == comment.body
                &&& mention.html_url == comment.html_url
                &&& mention.api_url == url
                &&& mention.target matches WorkTarget::Issue(target)
                &&& target.owner == (repo.owner->0).login
                &&& target.repo == repo.name
                &&& target.number == issue.number
                &&& target.html_url == issue.html_url
                &&& target.default_branch == repo.default_branch
            }
        }),
{
}

/// A lookup finds nothing only where there is no latest comment, or where it
/// belongs nowhere; it fails only where something cannot be read, with that
/// failure, or where a repository has no owner.
pub proof fn law_lookups_end_for_a_reason<E>(lookup: LatestLookup<E>, reply: LookupReply<E>)
    requires
        lookup.stage !is Ended,
    ensures
        lookup.after(reply).stage == LatestStage::<E>::Ended(Ok(None)) ==> {
            &&& lookup.notification.subject_url is None
            &&& reply matches LookupReply::Comment(comment)
            &&& comment.pull_request_url is None
            &&& comment.issue_url is None
        },
        lookup.after(reply).stage matches LatestStage::Ended(Err(LookupError::Outside(error)))
            ==> reply == LookupReply::Failed(error),
        reply matches LookupReply::Failed(error) ==> lookup.after(reply).stage
            == LatestStage::<E>::Ended(Err(LookupError::Outside(error))),
        lookup.after(reply).stage == LatestStage::<E>::Ended(Err(LookupError::NoOwner)) ==> {
            ||| reply matches LookupReply::PullRequest(pr) && pr.base.repo.owner is None
            ||| reply matches LookupReply::Repository(repo) && repo.owner is None
        },
        LatestLookup::<E>::initial(lookup.notification).stage == LatestStage::<E>::Ended(Ok(None))
            <==> lookup.notification.latest_comment_url is None,
{
}

/// The recent comments of a thread are looked for where the notification's subject
/// is: a pull request, an issue, or, without a subject, what the latest comment
/// leads to.
pub proof fn law_where_threads_begin<E>(notification: Notification, url: String)
    ensures
        notification.subject_url == Some(url) && notification.subject_kind@ == "PullRequest"@
            ==> ThreadView::<E>::initial(notification).pending() == (LookupAction::PullRequest {
            url,
        }),
        notification.subject_url == Some(url) && notification.subject_kind@ == "Issue"@
            ==> ThreadView::<E>::initial(notification).pending() == (LookupAction::Issue { url }),
        notification.subject_url is None && notification.latest_comment_url == Some(url)
            ==> ThreadView::<E>::initial(notification).pending() == (LookupAction::Comment {
            url,
        }),
        notification.subject_url is None && notification.latest_comment_url is None
            ==> ThreadView::<E>::initial(notification).stage == ThreadStage::<E>::Ended(Ok(())),
        ThreadView::<E>::initial(notification).comments.len() == 0,
        ThreadView::<E>::initial(notification).mentions.len() == 0,
{
    reveal_strlit("PullRequest");
    reveal_strlit("Issue");
    assert("PullRequest"@.len() == 11 && "Issue"@.len() == 5);
}

/// The way from a comment or an issue to the thread that it belongs to.
pub proof fn law_how_threads_are_found<E>(
    thread: ThreadView<E>,
    comment: ApiComment,
    issue: ApiIssue,
    pr: ApiPullRequest,
    repo: ApiRepo,
)
    requires
        pr.base.repo.owner is Some,
        repo.owner is Some,
    ensures
        thread.stage is Comment ==> {
            let next = thread.after(LookupReply::Comment(comment));
            &&& comment.pull_request_url matches Some(url) ==> next.pending() == (
            LookupAction::PullRequest { url })
            &&& comment.pull_request_url is None ==> (comment.issue_url matches Some(url)
                ==> next.pending() == (LookupAction::Issue { url }))
            &&& comment.pull_request_url is None && comment.issue_url is None ==> next.stage
                == ThreadStage::<E>::Ended(Ok(())) && next.mentions == thread.mentions
        },
        thread.stage is Issue ==> {
            let next = thread.after(LookupReply::Issue(issue));
            &&& issue.pull_request matches Some(link) ==> next.pending() == (
            LookupAction::PullRequest { url: link.url })
            &&& issue.pull_request is None ==> next.pending() == (LookupAction::Repository {
                url: issue.repository_url,
            }) && next.after(LookupReply::Repository(repo)).pending() == (
            LookupAction::IssueComments {
                target: WorkTarget::Issue(as_issue(issue, repo)->0),
                page: 1,
            })
        },
        thread.stage is PullRequest ==> thread.after(LookupReply::PullRequest(pr)).pending() == (
        LookupAction::IssueComments {
            target: WorkTarget::PullRequest(as_pull_request(pr)->0),
            page: 1,
        }),
{
}

/// Each page of comments is kept whole, and read on from while it is full. The
/// comments on a pull request are those on its page and those on its changes; an
/// issue has the former only. Of all of them the newest twenty become mentions on
/// the thread's pull request or issue.
pub proof fn law_how_threads_are_read<E>(
    thread: ThreadView<E>,
    target: WorkTarget,
    pr: PullRequest,
    page: u64,
    list: Vec<ApiComment>,
)
    requires
        page < u64::MAX,
    ensures
        thread.stage == (ThreadStage::<E>::IssueComments { target, page }) ==> {
            let next = thread.after(LookupReply::Comments(list));
            &&& next.comments == thread.comments + list@
            &&& list@.len() >= 100 ==> next.pending() == (LookupAction::IssueComments {
                target,
                page: (page + 1) as u64,
            })
            &&& list@.len() < 100 ==> (target matches WorkTarget::PullRequest(pr)
                ==> next.pending() == (LookupAction::ReviewComments { pr, page: 1 }))
            &&& list@.len() < 100 && target is Issue ==> next.stage == ThreadStage::<E>::Ended(
                Ok(()),
            ) && next.mentions == newest(thread.comments + list@, 20).map_values(
                |comment: ApiComment| as_mention(comment, target),
            )
        },
        thread.stage == (ThreadStage::<E>::ReviewComments { pr, page }) ==> {
            let next = thread.after(LookupReply::Comments(list));
            &&& next.comments == thread.comments + list@
            &&& list@.len() >= 100 ==> next.pending() == (LookupAction::ReviewComments {
                pr,
                page: (page + 1) as u64,
            })
            &&& list@.len() < 100 ==> next.stage == ThreadStage::<E>::Ended(Ok(()))
                && next.mentions == newest(thread.comments + list@, 20).map_values(
                |comment: ApiComment| as_mention(comment, WorkTarget::PullRequest(pr)),
            )
        },
{
    let next = thread.after(LookupReply::Comments(list));
    assert(newest(thread.comments + list@, 20).map_values(
        |comment: ApiComment| as_mention(comment, target),
    ) =~= as_mentions(newest(thread.comments + list@, 20), target));
    let on_pr = WorkTarget::PullRequest(pr);
    assert(newest(thread.comments + list@, 20).map_values(
        |comment: ApiComment| as_mention(comment, WorkTarget::PullRequest(pr)),
    ) =~= as_mentions(newest(thread.comments + list@, 20), on_pr));
}

/// Among the items that a search lists, the pull requests are those that say where
/// they are as such, in the order of the list.
pub proof fn law_which_items_are_pull_requests(issues: Seq<ApiIssue>)
    ensures
        pull_request_urls(issues) == issues.filter_map(
            |issue: ApiIssue|
                match issue.pull_request {
                    Some(link) => Some(link.url),
                    None => None,
                },
        ),
    decreases issues.len(),
{
    reveal(Seq::filter_map);
    let url_of = |issue: ApiIssue|
        match issue.pull_request {
            Some(link) => Some(link.url),
            None => None,
        };
    if issues.len() > 0 {
        law_which_items_are_pull_requests(issues.drop_last());
        let rest = issues.drop_last().filter_map(url_of);
        match issues.last().pull_request {
            Some(link) => {
                assert(rest.push(link.url) =~= rest + seq![link.url]);
            },
            None => {},
        }
    }
}

/// The search of an account goes on while the pages are full, up to the tenth;
/// then each listed pull request is read, in order, and kept with what tells
/// whether its repository is private.
pub proof fn law_how_accounts_are_searched<E>(
    search: AccountSearchView<E>,
    page: u64,
    issues: Vec<ApiIssue>,
    pr: ApiPullRequest,
    error: E,
)
    requires
        page < u64::MAX,
    ensures
        search.stage == (AccountSearchStage::<E>::Page { page }) ==> {
            let next = search.after(LookupReply::Issues(issues));
            let urls = search.urls + pull_request_urls(issues@);
            &&& search.pending() == (LookupAction::Search { login: search.login, page })
            &&& next.urls == urls && next.found == search.found && next.login == search.login
            &&& issues@.len() >= 100 && page < 10 ==> next.pending() == (LookupAction::Search {
                login: search.login,
                page: (page + 1) as u64,
            })
            &&& issues@.len() < 100 || page >= 10 ==> if search.found.len() < urls.len() {
                next.pending() == (LookupAction::PullRequest {
                    url: urls[search.found.len() as int],
                })
            } else {
                next.stage == AccountSearchStage::<E>::Ended(Ok(()))
            }
        },
        search.stage is PullRequest && pr.base.repo.owner is Some ==> {
            let next = search.after(LookupReply::PullRequest(pr));
            let found = search.found.push(
                FoundPullRequest {
                    pr: as_pull_request(pr)->0,
                    base_private: pr.base.repo.private,
                },
            );
            &&& next.found == found && next.urls == search.urls
            &&& if found.len() < search.urls.len() {
                next.pending() == (LookupAction::PullRequest {
                    url: search.urls[found.len() as int],
                })
            } else {
                next.stage == AccountSearchStage::<E>::Ended(Ok(()))
            }
        },
        search.stage is PullRequest && pr.base.repo.owner is None ==> search.after(
            LookupReply::PullRequest(pr),
        ).stage == AccountSearchStage::<E>::Ended(Err(LookupError::NoOwner)),
        search.stage !is Ended ==> search.after(LookupReply::Failed(error)).stage
            == AccountSearchStage::<E>::Ended(Err(LookupError::Outside(error))),
        AccountSearchView::<E>::initial(search.login).pending() == (LookupAction::Search {
            login: search.login,
            page: 1,
        }),
        AccountSearchView::<E>::initial(search.login).urls.len() == 0,
        AccountSearchView::<E>::initial(search.login).found.len() == 0,
{
}

/// What is wrong with the address of a pull request is said of that address.
pub proof fn law_address_errors_name_the_address(error: PullRequestUrlError)
    ensures
        error.message_text() == "pull request URL "@ + error.fault.text() + ": "@
            + error.html_url@,
        PullRequestUrlFault::Prefix.text() == "must start with https://github.com/"@,
        PullRequestUrlFault::Owner.text() == "is missing owner"@,
        PullRequestUrlFault::Repo.text() == "is missing repo"@,
        PullRequestUrlFault::Pull.text() == "must contain /pull/"@,
        PullRequestUrlFault::NumberMissing.text() == "is missing number"@,
        PullRequestUrlFault::Number.text() == "has invalid number"@,
        PullRequestUrlFault::Trailing.text() == "has unexpected path after number"@,
{
}

/// The first thing that is wrong with the address of a pull request counts: its
/// beginning, then its owner, its repository, the word between, and its number.
pub proof fn law_what_is_wrong_with_an_address(path: Seq<char>, other: Seq<char>)
    ensures
        ({
            let parts = text::pieces(path, '/');
            let read = pull_request_url_parts("https://github.com/"@ + path);
            let fault = |f: PullRequestUrlFault|
                read == Err::<(Seq<char>, Seq<char>, u64), PullRequestUrlFault>(f);
            &&& parts[0].len() == 0 ==> fault(PullRequestUrlFault::Owner)
            &&& parts[0].len() > 0 && (parts.len() == 1 || parts[1].len() == 0) ==> fault(
                PullRequestUrlFault::Repo,
            )
            &&& parts[0].len() > 0 && parts.len() >= 2 && parts[1].len() > 0 ==> {
                &&& parts.len() == 2 || parts[2] != "pull"@ ==> fault(PullRequestUrlFault::Pull)
                &&& parts.len() == 3 && parts[2] == "pull"@ ==> fault(
                    PullRequestUrlFault::NumberMissing,
                )
                &&& parts.len() >= 4 && parts[2] == "pull"@ && numeral::numeral_value(
                    parts[3],
                    u64::MAX as nat,
                ) is None ==> fault(PullRequestUrlFault::Number)
                &&& parts.len() >= 5 && parts[2] == "pull"@ && numeral::numeral_value(
                    parts[3],
                    u64::MAX as nat,
                ) is Some ==> fault(PullRequestUrlFault::Trailing)
            }
        }),
        !("https://github.com/"@.is_prefix_of(other)) ==> pull_request_url_parts(other) == Err::<
            (Seq<char>, Seq<char>, u64),
            PullRequestUrlFault,
        >(PullRequestUrlFault::Prefix),
{
    let prefix = "https://github.com/"@;
    let url = prefix + path;
    assert(url.take(prefix.len() as int) =~= prefix);
    assert(url.skip(prefix.len() as int) =~= path);
    text::lemma_pieces_not_empty(path, '/');
    if text::has_prefix(other, prefix) {
        assert(prefix =~= other.subrange(0, prefix.len() as int));
    }
}

/// Comments are taken over one by one, in their order.
pub proof fn law_mentions_keep_their_order(
    comments: Seq<ApiComment>,
    target: WorkTarget,
    i: int,
)
    requires
        0 <= i < comments.len(),
    ensures
        as_mentions(comments, target).len() == comments.len(),
        as_mentions(comments, target)[i] == as_mention(comments[i], target),
{
}

/// Whether a reply is one to what a lookup asked for. Anything may fail.
pub open spec fn answers<E>(action: LookupAction, reply: LookupReply<E>) -> bool {
    match action {
        LookupAction::Nothing => false,
        LookupAction::Comment { .. } => reply is Comment || reply is Failed,
        LookupAction::Issue { .. } => reply is Issue || reply is Failed,
        LookupAction::PullRequest { .. } => reply is PullRequest || reply is Failed,
        LookupAction::Repository { .. } => reply is Repository || reply is Failed,
        LookupAction::IssueComments { .. } => reply is Comments || reply is Failed,
        LookupAction::ReviewComments { .. } => reply is Comments || reply is Failed,
        LookupAction::Search { .. } => reply is Issues || reply is Failed,
    }
}

/// A lookup goes on only with a reply to what it asked for, and once it has ended
/// nothing changes it. It never takes on another notification or account.
pub proof fn law_lookups_go_on_with_answers_only<E>(
    lookup: LatestLookup<E>,
    thread: ThreadView<E>,
    search: AccountSearchView<E>,
    reactions: ReactionSearch<E>,
    reply: LookupReply<E>,
    page: Result<Vec<ApiReaction>, E>,
)
    ensures
        !answers(lookup.pending(), reply) ==> lookup.after(reply) == lookup,
        !answers(thread.pending(), reply) ==> thread.after(reply) == thread,
        !answers(search.pending(), reply) ==> search.after(reply) == search,
        lookup.stage is Ended ==> lookup.after(reply) == lookup && lookup.pending() is Nothing,
        thread.stage is Ended ==> thread.after(reply) == thread && thread.pending() is Nothing,
        search.stage is Ended ==> search.after(reply) == search && search.pending() is Nothing,
        reactions.stage is Ended ==> reactions.after(page) == reactions,
        lookup.after(reply).notification == lookup.notification,
        search.after(reply).login == search.login,
        reactions.after(page).login == reactions.login,
        reactions.after(page).content == reactions.content,
{
}

/// The search of a thread fails where something cannot be read, with that failure,
/// and where a repository has no owner; it fails for no other reason. A subject that
/// is no issue is taken for a pull request, whatever its kind.
pub proof fn law_threads_fail_for_a_reason<E>(
    thread: ThreadView<E>,
    reply: LookupReply<E>,
    notification: Notification,
)
    requires
        thread.stage !is Ended,
    ensures
        reply matches LookupReply::Failed(error) ==> thread.after(reply) == (ThreadView {
            stage: ThreadStage::Ended(Err(LookupError::Outside(error))),
            ..thread
        }),
        thread.after(reply).stage == ThreadStage::<E>::Ended(Err(LookupError::NoOwner)) <==> {
            ||| thread.stage is PullRequest && (reply matches LookupReply::PullRequest(pr)
                && pr.base.repo.owner is None)
            ||| thread.stage is Repository && (reply matches LookupReply::Repository(repo)
                && repo.owner is None)
        },
        thread.after(reply).stage matches ThreadStage::Ended(Err(LookupError::Outside(error)))
            ==> reply == LookupReply::Failed(error),
        notification.subject_url is Some && notification.subject_kind@ != "Issue"@ ==> {
            &&& ThreadView::<E>::initial(notification).pending() == (LookupAction::PullRequest {
                url: notification.subject_url->0,
            })
        },
{
}

/// A comment that names no pull request of its own, on a subject that is no issue, is
/// looked for on that subject, whatever its kind; one on an issue, on the issue.
pub proof fn law_comments_belong_to_their_subject<E>(
    notification: Notification,
    url: String,
    comment: ApiComment,
    subject: String,
)
    requires
        notification.subject_url == Some(subject),
        comment.pull_request_url is None,
    ensures
        ({
            let lookup = LatestLookup::<E> { notification, stage: LatestStage::Comment { url } };
            let next = lookup.after(LookupReply::Comment(comment));
            &&& notification.subject_kind@ != "Issue"@ ==> next.pending() == (
            LookupAction::PullRequest { url: subject })
            &&& notification.subject_kind@ == "Issue"@ ==> next.pending() == (
            LookupAction::Issue { url: subject })
        }),
{
}

/// Eyes show that work has begun, and a thumb up that it is done. Notifications are
/// those of threads that the bot takes part in, read ones too.
pub proof fn law_signs_on_github()
    ensures
        STARTED_REACTION@ == "eyes"@,
        HANDLED_REACTION@ == "+1"@,
        PARTICIPATING_NOTIFICATIONS_URL@
            == "https://api.github.com/notifications?participating=true&all=true&per_page=50"@,
        NO_OWNER@ == "pull request base repo has no owner"@,
{
}

/// Where a comment's reactions, a notification's thread, and the open pull requests
/// of an account are found.
pub proof fn law_further_addresses(
    api_url: &str,
    of_reactions: String,
    notification: &Notification,
    of_thread: String,
    login: &str,
    page: u64,
    of_search: String,
)
    requires
        call_ensures(comment_reactions_url, (api_url,), of_reactions),
        call_ensures(notification_thread_url, (notification,), of_thread),
        call_ensures(account_search_url, (login, page), of_search),
    ensures
        of_reactions@ == api_url@ + "/reactions"@,
        of_thread@ == "https://api.github.com/notifications/threads/"@ + notification.id@,
        of_search@ == "https://api.github.com/search/issues?q=is:pr+is:open+author:"@ + login@
            + "&sort=created&order=desc&per_page=100&page="@ + numeral::decimal(page as nat),
{
}

/// Something is handled where the mark for it is there, and open where it is not.
pub proof fn law_what_a_mark_means(handled: bool, r: ReviewState)
    requires
        call_ensures(review_state, (handled,), r),
    ensures
        handled <==> r == ReviewState::Handled,
        !handled <==> r == ReviewState::Pending,
{
}

/// A search is asked for its next page until it ends; it begins with the first.
pub proof fn law_pages_are_asked_for<E>(
    login: String,
    content: String,
    begun: ReactionSearch<E>,
    search: &ReactionSearch<E>,
    next: Option<u64>,
)
    requires
        call_ensures(ReactionSearch::<E>::new, (login, content), begun),
        call_ensures(ReactionSearch::<E>::next_page, (search,), next),
    ensures
        begun.stage == (SearchStage::<E>::Page { page: 1 }),
        begun.login == login && begun.content == content,
        next is None <==> search.stage is Ended,
        search.stage matches SearchStage::Page { page } ==> next == Some(page),
{
}

/// Asked for the latest mention, the lookup reads the comment that the notification
/// names, then the pull request that it is on, and comes back with that comment on
/// that pull request: one in the conversation as well as one in a review.
pub proof fn law_comments_on_pull_requests_come_back<E>(
    notification: Notification,
    url: String,
    pr_url: String,
    comment: ApiComment,
    pr: ApiPullRequest,
    begun: LatestLookup<E>,
    first: LookupAction,
    read: LatestLookup<E>,
    second: LookupAction,
    found: LatestLookup<E>,
)
    requires
        notification.latest_comment_url == Some(url),
        comment.pull_request_url == Some(pr_url) || (comment.pull_request_url is None
            && notification.subject_url == Some(pr_url) && notification.subject_kind@
            != "Issue"@),
        pr.base.repo.owner is Some,
        call_ensures(LatestLookup::<E>::new, (notification,), begun),
        call_ensures(LatestLookup::<E>::action, (&begun,), first),
        call_ensures(LatestLookup::<E>::on_reply, (begun, LookupReply::Comment(comment)), read),
        call_ensures(LatestLookup::<E>::action, (&read,), second),
        call_ensures(LatestLookup::<E>::on_reply, (read, LookupReply::PullRequest(pr)), found),
    ensures
        first == (LookupAction::Comment { url }),
        second == (LookupAction::PullRequest { url: pr_url }),
        found.stage matches LatestStage::Ended(Ok(Some(mention))) && is_mention_on_pull_request(
            mention,
            url,
            comment,
            pr,
        ),
{
}

/// The comments of a conversation, those of a review, and the open pull requests of a
/// repository, page by page.
pub proof fn law_addresses_of_lists(
    pr: PullRequest,
    page: u64,
    comments: String,
    review: String,
    posted: String,
    repo: &RepoSlug,
    open: String,
    reactions: &str,
    of_page: String,
)
    requires
        call_ensures(issue_comments_url, (&WorkTarget::PullRequest(pr), page), comments),
        call_ensures(review_comments_url, (&pr, page), review),
        call_ensures(post_comment_url, (&WorkTarget::PullRequest(pr),), posted),
        call_ensures(open_pull_requests_url, (repo,), open),
        call_ensures(reaction_page_url, (reactions, page), of_page),
    ensures
        ({
            let home = "https://api.github.com/repos/"@ + pr.owner@ + "/"@ + pr.repo@;
            let number = numeral::decimal(pr.number as nat);
            let of_the_page = "?per_page=100&page="@ + numeral::decimal(page as nat);
            &&& comments@ == home + "/issues/"@ + number + ("/comments"@ + of_the_page)
            &&& review@ == home + "/pulls/"@ + number + ("/comments"@ + of_the_page)
            &&& posted@ == home + "/issues/"@ + number + "/comments"@
            &&& of_page@ == reactions@ + of_the_page
        }),
        open@ == "https://api.github.com/repos/"@ + repo.owner@ + "/"@ + repo.repo@
            + "/pulls?state=open&sort=created&direction=desc&per_page=50"@,
{
}

} // verus!
