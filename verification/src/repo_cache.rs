//! Repositories that are kept between tasks.
use crate::config::ConfigError;
use crate::domain::{validate_repo_name_part, DomainError, Issue, PullRequest};
use crate::git::GitStep;
use crate::{domain, git, path, text};
use vstd::prelude::*;

verus! {

#[derive(Clone, Copy, Debug, Eq, PartialEq)]
pub enum IssueGitAuth {
    Bot,
    Host,
}

#[derive(Clone, Copy, Debug, Eq, PartialEq)]
pub enum IssueCommitIdentity {
    Bot,
    Host,
}

/// The git identity that the host has to have; what is `None` may be anything.
#[derive(Debug, Eq, PartialEq)]
pub struct ExpectedGitIdentity {
    pub name: Option<String>,
    pub email: Option<String>,
    pub gpgsign: Option<bool>,
    pub gpg_format: Option<String>,
}

impl Default for ExpectedGitIdentity {
    fn default() -> (r: Self)
        ensures
            r == (ExpectedGitIdentity {
                name: None,
                email: None,
                gpgsign: None,
                gpg_format: None,
            }),
    {
        ExpectedGitIdentity { name: None, email: None, gpgsign: None, gpg_format: None }
    }
}

/// The git identity that the host has.
#[derive(Debug, Eq, PartialEq)]
pub struct EffectiveGitIdentity {
    pub name: Option<String>,
    pub email: Option<String>,
    pub gpgsign: Option<String>,
    pub gpg_format: Option<String>,
}

impl Default for EffectiveGitIdentity {
    fn default() -> (r: Self)
        ensures
            r == (EffectiveGitIdentity {
                name: None,
                email: None,
                gpgsign: None,
                gpg_format: None,
            }),
    {
        EffectiveGitIdentity { name: None, email: None, gpgsign: None, gpg_format: None }
    }
}

/// How git authenticates: with the bot's header, or as the host is set up.
#[derive(Debug, Eq, PartialEq)]
pub enum GitAuth {
    ExtraHeader(String),
    Host,
}

impl Clone for GitAuth {
    fn clone(&self) -> (r: Self)
        ensures
            r == *self,
    {
        match self {
            GitAuth::ExtraHeader(header) => GitAuth::ExtraHeader(header.clone()),
            GitAuth::Host => GitAuth::Host,
        }
    }
}

impl GitAuth {
    /// The variables that authentication adds to the environment of a git command.
    pub open spec fn environment(self) -> Seq<(Seq<char>, Seq<char>)> {
        match self {
            GitAuth::ExtraHeader(header) => seq![
                ("GIT_CONFIG_COUNT"@, "1"@),
                ("GIT_CONFIG_KEY_0"@, "http.extraheader"@),
                ("GIT_CONFIG_VALUE_0"@, header@),
            ],
            GitAuth::Host => Seq::empty(),
        }
    }

    pub fn env(&self) -> (r: Vec<(String, String)>)
        ensures
            git::env_views(r@) == self.environment(),
    {
        let mut env: Vec<(String, String)> = Vec::new();
        if let GitAuth::ExtraHeader(header) = self {
            git::push_env(&mut env, "GIT_CONFIG_COUNT", "1");
            git::push_env(&mut env, "GIT_CONFIG_KEY_0", "http.extraheader");
            git::push_env(&mut env, "GIT_CONFIG_VALUE_0", header.as_str());
        }
        assert(git::env_views(env@) =~= self.environment());
        env
    }
}

/// In whose name commits are made.
#[derive(Debug, Eq, PartialEq)]
pub enum CommitIdentity {
    Bot { name: String, email: String },
    Host,
}

/// Where repositories are kept, and how work on issues is published.
#[derive(Debug, Eq, PartialEq)]
pub struct GitRepoCache {
    pub root: String,
    pub bot_auth: GitAuth,
    pub issue_git_auth: GitAuth,
    pub issue_commit_identity: CommitIdentity,
    pub expected_git_identity: Option<ExpectedGitIdentity>,
}

/// The directory of a repository.
pub open spec fn repo_path(root: Seq<char>, owner: Seq<char>, repo: Seq<char>) -> Seq<char> {
    path::joined_path(owner_path(root, owner), repo)
}

/// The directory of all repositories of an owner.
pub open spec fn owner_path(root: Seq<char>, owner: Seq<char>) -> Seq<char> {
    path::joined_path(path::joined_path(root, "repos"@), owner)
}

/// The error for an owner, or else a repository, without a usable name.
pub open spec fn is_name_error(error: DomainError, owner: Seq<char>, repo: Seq<char>) -> bool {
    match error {
        DomainError::InvalidNamePart { label, value } => {
            if !domain::valid_name_part(owner) {
                label@ == "repository owner"@ && value@ == owner
            } else {
                label@ == "repository name"@ && value@ == repo
            }
        },
        _ => false,
    }
}

/// Two repositories with usable names have the same directory only if they are
/// the same repository, and none of these directories lies outside the root's
/// `repos` directory.
pub proof fn law_repositories_are_kept_apart(
    root: Seq<char>,
    owner: Seq<char>,
    repo: Seq<char>,
    other_owner: Seq<char>,
    other_repo: Seq<char>,
)
    requires
        domain::valid_name_part(owner),
        domain::valid_name_part(repo),
        domain::valid_name_part(other_owner),
        domain::valid_name_part(other_repo),
    ensures
        ({
            let base = path::joined_path(root, "repos"@);
            repo_path(root, owner, repo) == base + seq!['/'] + (owner + seq!['/'] + repo)
        }),
        repo_path(root, owner, repo) == repo_path(root, other_owner, other_repo) ==> owner
            == other_owner && repo == other_repo,
{
    reveal_strlit("repos");
    let base = path::joined_path(root, "repos"@);
    assert(base.last() == 's');
    lemma_repo_path(root, owner, repo);
    lemma_repo_path(root, other_owner, other_repo);
    if repo_path(root, owner, repo) == repo_path(root, other_owner, other_repo) {
        let a = owner + seq!['/'] + repo;
        let b = other_owner + seq!['/'] + other_repo;
        let whole = repo_path(root, owner, repo);
        assert(whole.skip(base.len() as int + 1) =~= a);
        assert(whole.skip(base.len() as int + 1) =~= b);
        domain::law_name_part_is_one_level(owner);
        domain::law_name_part_is_one_level(repo);
        domain::law_name_part_is_one_level(other_owner);
        domain::law_name_part_is_one_level(other_repo);
        text::lemma_pieces_single(repo, '/');
        text::lemma_pieces_prepend(owner, repo, '/');
        text::lemma_pieces_single(other_repo, '/');
        text::lemma_pieces_prepend(other_owner, other_repo, '/');
        let x = seq![owner] + seq![repo];
        let y = seq![other_owner] + seq![other_repo];
        assert(x[0] == y[0] && x[1] == y[1]);
    }
}

proof fn lemma_repo_path(root: Seq<char>, owner: Seq<char>, repo: Seq<char>)
    requires
        domain::valid_name_part(owner),
        domain::valid_name_part(repo),
    ensures
        repo_path(root, owner, repo) == path::joined_path(root, "repos"@) + seq!['/'] + (owner
            + seq!['/'] + repo),
{
    reveal_strlit("repos");
    let base = path::joined_path(root, "repos"@);
    domain::law_name_part_is_one_level(owner);
    domain::law_name_part_is_one_level(repo);
    path::lemma_join_part(base, owner);
    let below = path::joined_path(base, owner);
    assert(owner.contains(owner.last()));
    assert(below.last() == owner.last());
    path::lemma_join_part(below, repo);
    assert(repo_path(root, owner, repo) =~= base + seq!['/'] + (owner + seq!['/'] + repo));
}

impl GitRepoCache {
    pub fn new(root: &str, github_token: &str, bot_login: &str) -> (r: GitRepoCache)
        requires
            git::token_fits(github_token@),
        ensures
            r.root@ == root@,
            r.bot_auth matches GitAuth::ExtraHeader(header) && header@ == git::auth_header_text(
                github_token@,
            ),
            r.issue_git_auth == r.bot_auth,
            r.issue_commit_identity matches CommitIdentity::Bot { name, email } && name@
                == bot_login@ && email@ == bot_login@ + "@users.noreply.github.com"@,
            r.expected_git_identity is None,
    {
        let bot_auth = GitAuth::ExtraHeader(git::auth_header(github_token));
        GitRepoCache {
            root: root.to_owned(),
            issue_git_auth: bot_auth.clone(),
            bot_auth,
            issue_commit_identity: CommitIdentity::Bot {
                name: bot_login.to_owned(),
                email: text::cat2(bot_login, "@users.noreply.github.com"),
            },
            expected_git_identity: None,
        }
    }

    /// Sets how work on issues is published. The bot's own commit identity cannot be
    /// taken up again once the host's was chosen.
    pub fn with_issue_publish_mode(
        self,
        git_auth: IssueGitAuth,
        commit_identity: IssueCommitIdentity,
    ) -> (r: GitRepoCache)
        ensures
            r == (GitRepoCache {
                issue_git_auth: match git_auth {
                    IssueGitAuth::Bot => self.bot_auth,
                    IssueGitAuth::Host => GitAuth::Host,
                },
                issue_commit_identity: match commit_identity {
                    IssueCommitIdentity::Bot => self.issue_commit_identity,
                    IssueCommitIdentity::Host => CommitIdentity::Host,
                },
                ..self
            }),
    {
        let issue_git_auth = match git_auth {
            IssueGitAuth::Bot => self.bot_auth.clone(),
            IssueGitAuth::Host => GitAuth::Host,
        };
        let issue_commit_identity = match commit_identity {
            IssueCommitIdentity::Bot => self.issue_commit_identity,
            IssueCommitIdentity::Host => CommitIdentity::Host,
        };
        GitRepoCache {
            root: self.root,
            bot_auth: self.bot_auth,
            issue_git_auth,
            issue_commit_identity,
            expected_git_identity: self.expected_git_identity,
        }
    }

    pub fn with_expected_git_identity(self, expected: Option<ExpectedGitIdentity>) -> (r:
        GitRepoCache)
        ensures
            r == (GitRepoCache { expected_git_identity: expected, ..self }),
    {
        GitRepoCache { expected_git_identity: expected, ..self }
    }

    fn dir_of(&self, owner: &str, repo: &str) -> (r: Result<String, DomainError>)
        ensures
            match r {
                Ok(dir) => {
                    &&& domain::valid_name_part(owner@) && domain::valid_name_part(repo@)
                    &&& dir@ == repo_path(self.root@, owner@, repo@)
                },
                Err(error) => {
                    &&& !domain::valid_name_part(owner@) || !domain::valid_name_part(repo@)
                    &&& is_name_error(error, owner@, repo@)
                },
            },
    {
        validate_repo_name_part(owner, "repository owner")?;
        validate_repo_name_part(repo, "repository name")?;
        Ok(path::join(self.owner_dir(owner).as_str(), repo))
    }

    fn owner_dir(&self, owner: &str) -> (r: String)
        ensures
            r@ == owner_path(self.root@, owner@),
    {
        let repos = path::join(self.root.as_str(), "repos");
        path::join(repos.as_str(), owner)
    }

    pub fn repo_dir(&self, pr: &PullRequest) -> (r: Result<String, DomainError>)
        ensures
            match r {
                Ok(dir) => {
                    &&& domain::valid_name_part(pr.owner@) && domain::valid_name_part(pr.repo@)
                    &&& dir@ == repo_path(self.root@, pr.owner@, pr.repo@)
                },
                Err(error) => {
                    &&& !domain::valid_name_part(pr.owner@) || !domain::valid_name_part(pr.repo@)
                    &&& is_name_error(error, pr.owner@, pr.repo@)
                },
            },
    {
        self.dir_of(pr.owner.as_str(), pr.repo.as_str())
    }

    pub fn issue_repo_dir(&self, issue: &Issue) -> (r: Result<String, DomainError>)
        ensures
            match r {
                Ok(dir) => {
                    &&& domain::valid_name_part(issue.owner@) && domain::valid_name_part(
                        issue.repo@,
                    )
                    &&& dir@ == repo_path(self.root@, issue.owner@, issue.repo@)
                },
                Err(error) => {
                    &&& !domain::valid_name_part(issue.owner@) || !domain::valid_name_part(
                        issue.repo@,
                    )
                    &&& is_name_error(error, issue.owner@, issue.repo@)
                },
            },
    {
        self.dir_of(issue.owner.as_str(), issue.repo.as_str())
    }

    pub open spec fn issue_remote(self, issue: Issue) -> String {
        match self.issue_git_auth {
            GitAuth::ExtraHeader(_) => issue.clone_url,
            GitAuth::Host => issue.ssh_url,
        }
    }

    /// The bot's header works over HTTPS; the host authenticates over SSH.
    pub fn issue_remote_url<'a>(&self, issue: &'a Issue) -> (r: &'a str)
        ensures
            r@ == self.issue_remote(*issue)@,
    {
        match &self.issue_git_auth {
            GitAuth::ExtraHeader(_) => issue.clone_url.as_str(),
            GitAuth::Host => issue.ssh_url.as_str(),
        }
    }
}

// ---------------------------------------------------------------------------
// Checkouts
// ---------------------------------------------------------------------------
/// What a checkout wants done next.
#[derive(Debug, Eq, PartialEq)]
pub enum CheckoutAction {
    /// There is nothing left to do.
    Nothing,
    CreateDir { path: String },
    /// See whether the checkout is a repository already.
    HasGit { checkout: String },
    Git { step: GitStep, cwd: Option<String> },
}

/// What came of it; `E` says why it failed.
#[derive(Debug, Eq, PartialEq)]
pub enum CheckoutReply<E> {
    Failed(E),
    Done,
    Found(bool),
}

#[derive(Clone, Copy, Debug, Eq, PartialEq)]
pub enum CheckoutStep {
    CreateParent,
    HasGit,
    Clone,
    SetOrigin,
    Fetch,
    FindBranch,
    FetchBranch,
    Switch,
    Reset,
    Clean,
}

#[derive(Debug, Eq, PartialEq)]
pub enum CheckoutStage<E> {
    At(CheckoutStep),
    /// Where the step failed, and why.
    Failed { step: CheckoutStep, error: E },
    Ready,
}

/// Brings a checkout to the head of a pull request, with nothing else in it.
#[derive(Debug, Eq, PartialEq)]
pub struct PullRequestCheckout<E> {
    pub pr: PullRequest,
    pub checkout: String,
    pub parent: String,
    pub stage: CheckoutStage<E>,
}

impl<E> PullRequestCheckout<E> {
    pub open spec fn git(self, step: GitStep) -> CheckoutAction {
        CheckoutAction::Git { step, cwd: Some(self.checkout) }
    }

    pub open spec fn pending(self) -> CheckoutAction {
        match self.stage {
            CheckoutStage::At(CheckoutStep::CreateParent) => {
                CheckoutAction::CreateDir { path: self.parent }
            },
            CheckoutStage::At(CheckoutStep::HasGit) => {
                CheckoutAction::HasGit { checkout: self.checkout }
            },
            CheckoutStage::At(CheckoutStep::Clone) => CheckoutAction::Git {
                step: GitStep::Clone { remote: self.pr.clone_url, checkout: self.checkout },
                cwd: None,
            },
            CheckoutStage::At(CheckoutStep::SetOrigin) => self.git(
                GitStep::SetOrigin { remote: self.pr.clone_url },
            ),
            CheckoutStage::At(CheckoutStep::Fetch) => self.git(
                GitStep::FetchPullRequest { number: self.pr.number },
            ),
            CheckoutStage::At(CheckoutStep::Switch) => self.git(GitStep::SwitchToFetched),
            CheckoutStage::At(CheckoutStep::Clean) => self.git(GitStep::Clean),
            _ => CheckoutAction::Nothing,
        }
    }

    pub open spec fn after(self, reply: CheckoutReply<E>) -> PullRequestCheckout<E> {
        let stage = match (self.stage, reply) {
            (CheckoutStage::At(step), CheckoutReply::Failed(error)) => {
                CheckoutStage::Failed { step, error }
            },
            (CheckoutStage::At(CheckoutStep::CreateParent), CheckoutReply::Done) => {
                CheckoutStage::At(CheckoutStep::HasGit)
            },
            (CheckoutStage::At(CheckoutStep::HasGit), CheckoutReply::Found(found)) => {
                CheckoutStage::At(
                    if found {
                        CheckoutStep::SetOrigin
                    } else {
                        CheckoutStep::Clone
                    },
                )
            },
            (CheckoutStage::At(CheckoutStep::Clone), CheckoutReply::Done) => {
                CheckoutStage::At(CheckoutStep::SetOrigin)
            },
            (CheckoutStage::At(CheckoutStep::SetOrigin), CheckoutReply::Done) => {
                CheckoutStage::At(CheckoutStep::Fetch)
            },
            (CheckoutStage::At(CheckoutStep::Fetch), CheckoutReply::Done) => {
                CheckoutStage::At(CheckoutStep::Switch)
            },
            (CheckoutStage::At(CheckoutStep::Switch), CheckoutReply::Done) => {
                CheckoutStage::At(CheckoutStep::Clean)
            },
            (CheckoutStage::At(CheckoutStep::Clean), CheckoutReply::Done) => {
                CheckoutStage::Ready
            },
            (stage, _) => stage,
        };
        PullRequestCheckout { stage, ..self }
    }

    pub fn action(&self) -> (r: CheckoutAction)
        ensures
            r == self.pending(),
    {
        let step = match &self.stage {
            CheckoutStage::At(step) => *step,
            _ => {
                return CheckoutAction::Nothing;
            },
        };
        let cwd = Some(self.checkout.clone());
        match step {
            CheckoutStep::CreateParent => CheckoutAction::CreateDir { path: self.parent.clone() },
            CheckoutStep::HasGit => CheckoutAction::HasGit { checkout: self.checkout.clone() },
            CheckoutStep::Clone => CheckoutAction::Git {
                step: GitStep::Clone {
                    remote: self.pr.clone_url.clone(),
                    checkout: self.checkout.clone(),
                },
                cwd: None,
            },
            CheckoutStep::SetOrigin => CheckoutAction::Git {
                step: GitStep::SetOrigin { remote: self.pr.clone_url.clone() },
                cwd,
            },
            CheckoutStep::Fetch => CheckoutAction::Git {
                step: GitStep::FetchPullRequest { number: self.pr.number },
                cwd,
            },
            CheckoutStep::Switch => CheckoutAction::Git { step: GitStep::SwitchToFetched, cwd },
            CheckoutStep::Clean => CheckoutAction::Git { step: GitStep::Clean, cwd },
            _ => CheckoutAction::Nothing,
        }
    }

    pub fn on_reply(self, reply: CheckoutReply<E>) -> (r: PullRequestCheckout<E>)
        ensures
            r == self.after(reply),
    {
        let stage = match (self.stage, reply) {
            (CheckoutStage::At(step), CheckoutReply::Failed(error)) => {
                CheckoutStage::Failed { step, error }
            },
            (CheckoutStage::At(CheckoutStep::CreateParent), CheckoutReply::Done) => {
                CheckoutStage::At(CheckoutStep::HasGit)
            },
            (CheckoutStage::At(CheckoutStep::HasGit), CheckoutReply::Found(found)) => {
                if found {
                    CheckoutStage::At(CheckoutStep::SetOrigin)
                } else {
                    CheckoutStage::At(CheckoutStep::Clone)
                }
            },
            (CheckoutStage::At(CheckoutStep::Clone), CheckoutReply::Done) => {
                CheckoutStage::At(CheckoutStep::SetOrigin)
            },
            (CheckoutStage::At(CheckoutStep::SetOrigin), CheckoutReply::Done) => {
                CheckoutStage::At(CheckoutStep::Fetch)
            },
            (CheckoutStage::At(CheckoutStep::Fetch), CheckoutReply::Done) => {
                CheckoutStage::At(CheckoutStep::Switch)
            },
            (CheckoutStage::At(CheckoutStep::Switch), CheckoutReply::Done) => {
                CheckoutStage::At(CheckoutStep::Clean)
            },
            (CheckoutStage::At(CheckoutStep::Clean), CheckoutReply::Done) => {
                CheckoutStage::Ready
            },
            (stage, _) => stage,
        };
        PullRequestCheckout {
            pr: self.pr,
            checkout: self.checkout,
            parent: self.parent,
            stage,
        }
    }

    /// What a failure of a step is about, where that needs saying.
    pub fn context(&self, step: CheckoutStep) -> (r: Option<String>)
        ensures
            text::opt_view(r) == (match step {
                CheckoutStep::Clone => Some(
                    "failed to clone "@ + self.pr.owner@ + "/"@ + self.pr.repo@,
                ),
                CheckoutStep::Fetch => Some("failed to fetch PR "@ + self.pr.html_url@),
                _ => None,
            }),
    {
        match step {
            CheckoutStep::Clone => Some(
                text::cat4(
                    "failed to clone ",
                    self.pr.owner.as_str(),
                    "/",
                    self.pr.repo.as_str(),
                ),
            ),
            CheckoutStep::Fetch => Some(
                text::cat2("failed to fetch PR ", self.pr.html_url.as_str()),
            ),
            _ => None,
        }
    }
}

/// Brings a checkout to a branch for an issue that starts at the default branch,
/// with nothing else in it.
#[derive(Debug, Eq, PartialEq)]
pub struct IssueBranchCheckout<E> {
    pub issue: Issue,
    pub branch: String,
    pub remote: String,
    pub checkout: String,
    pub parent: String,
    pub stage: CheckoutStage<E>,
}

impl<E> IssueBranchCheckout<E> {
    pub open spec fn git(self, step: GitStep) -> CheckoutAction {
        CheckoutAction::Git { step, cwd: Some(self.checkout) }
    }

    pub open spec fn pending(self) -> CheckoutAction {
        match self.stage {
            CheckoutStage::At(CheckoutStep::CreateParent) => {
                CheckoutAction::CreateDir { path: self.parent }
            },
            CheckoutStage::At(CheckoutStep::HasGit) => {
                CheckoutAction::HasGit { checkout: self.checkout }
            },
            CheckoutStage::At(CheckoutStep::Clone) => CheckoutAction::Git {
                step: GitStep::Clone { remote: self.remote, checkout: self.checkout },
                cwd: None,
            },
            CheckoutStage::At(CheckoutStep::SetOrigin) => self.git(
                GitStep::SetOrigin { remote: self.remote },
            ),
            CheckoutStage::At(CheckoutStep::Fetch) => self.git(
                GitStep::FetchDefaultBranch { branch: self.issue.default_branch },
            ),
            CheckoutStage::At(CheckoutStep::FindBranch) => self.git(
                GitStep::FindRemoteBranch { branch: self.branch },
            ),
            CheckoutStage::At(CheckoutStep::FetchBranch) => self.git(
                GitStep::FetchBranch { branch: self.branch },
            ),
            CheckoutStage::At(CheckoutStep::Switch) => self.git(
                GitStep::SwitchBranch {
                    branch: self.branch,
                    default_branch: self.issue.default_branch,
                },
            ),
            CheckoutStage::At(CheckoutStep::Reset) => self.git(
                GitStep::ResetToDefaultBranch { default_branch: self.issue.default_branch },
            ),
            CheckoutStage::At(CheckoutStep::Clean) => self.git(GitStep::Clean),
            _ => CheckoutAction::Nothing,
        }
    }

    /// A branch that is there already is fetched too. That it cannot be found is no
    /// failure; it is then a new one.
    pub open spec fn after(self, reply: CheckoutReply<E>) -> IssueBranchCheckout<E> {
        let stage = match (self.stage, reply) {
            (CheckoutStage::At(CheckoutStep::FindBranch), CheckoutReply::Failed(_)) => {
                CheckoutStage::At(CheckoutStep::Switch)
            },
            (CheckoutStage::At(CheckoutStep::FindBranch), CheckoutReply::Done) => {
                CheckoutStage::At(CheckoutStep::FetchBranch)
            },
            (CheckoutStage::At(step), CheckoutReply::Failed(error)) => {
                CheckoutStage::Failed { step, error }
            },
            (CheckoutStage::At(CheckoutStep::CreateParent), CheckoutReply::Done) => {
                CheckoutStage::At(CheckoutStep::HasGit)
            },
            (CheckoutStage::At(CheckoutStep::HasGit), CheckoutReply::Found(found)) => {
                CheckoutStage::At(
                    if found {
                        CheckoutStep::SetOrigin
                    } else {
                        CheckoutStep::Clone
                    },
                )
            },
            (CheckoutStage::At(CheckoutStep::Clone), CheckoutReply::Done) => {
                CheckoutStage::At(CheckoutStep::SetOrigin)
            },
            (CheckoutStage::At(CheckoutStep::SetOrigin), CheckoutReply::Done) => {
                CheckoutStage::At(CheckoutStep::Fetch)
            },
            (CheckoutStage::At(CheckoutStep::Fetch), CheckoutReply::Done) => {
                CheckoutStage::At(CheckoutStep::FindBranch)
            },
            (CheckoutStage::At(CheckoutStep::FetchBranch), CheckoutReply::Done) => {
                CheckoutStage::At(CheckoutStep::Switch)
            },
            (CheckoutStage::At(CheckoutStep::Switch), CheckoutReply::Done) => {
                CheckoutStage::At(CheckoutStep::Reset)
            },
            (CheckoutStage::At(CheckoutStep::Reset), CheckoutReply::Done) => {
                CheckoutStage::At(CheckoutStep::Clean)
            },
            (CheckoutStage::At(CheckoutStep::Clean), CheckoutReply::Done) => {
                CheckoutStage::Ready
            },
            (stage, _) => stage,
        };
        IssueBranchCheckout { stage, ..self }
    }

    pub fn action(&self) -> (r: CheckoutAction)
        ensures
            r == self.pending(),
    {
        let step = match &self.stage {
            CheckoutStage::At(step) => *step,
            _ => {
                return CheckoutAction::Nothing;
            },
        };
        let cwd = Some(self.checkout.clone());
        match step {
            CheckoutStep::CreateParent => CheckoutAction::CreateDir { path: self.parent.clone() },
            CheckoutStep::HasGit => CheckoutAction::HasGit { checkout: self.checkout.clone() },
            CheckoutStep::Clone => CheckoutAction::Git {
                step: GitStep::Clone {
                    remote: self.remote.clone(),
                    checkout: self.checkout.clone(),
                },
                cwd: None,
            },
            CheckoutStep::SetOrigin => CheckoutAction::Git {
                step: GitStep::SetOrigin { remote: self.remote.clone() },
                cwd,
            },
            CheckoutStep::Fetch => CheckoutAction::Git {
                step: GitStep::FetchDefaultBranch { branch: self.issue.default_branch.clone() },
                cwd,
            },
            CheckoutStep::FindBranch => CheckoutAction::Git {
                step: GitStep::FindRemoteBranch { branch: self.branch.clone() },
                cwd,
            },
            CheckoutStep::FetchBranch => CheckoutAction::Git {
                step: GitStep::FetchBranch { branch: self.branch.clone() },
                cwd,
            },
            CheckoutStep::Switch => CheckoutAction::Git {
                step: GitStep::SwitchBranch {
                    branch: self.branch.clone(),
                    default_branch: self.issue.default_branch.clone(),
                },
                cwd,
            },
            CheckoutStep::Reset => CheckoutAction::Git {
                step: GitStep::ResetToDefaultBranch {
                    default_branch: self.issue.default_branch.clone(),
                },
                cwd,
            },
            CheckoutStep::Clean => CheckoutAction::Git { step: GitStep::Clean, cwd },
        }
    }

    pub fn on_reply(self, reply: CheckoutReply<E>) -> (r: IssueBranchCheckout<E>)
        ensures
            r == self.after(reply),
    {
        let stage = match (self.stage, reply) {
            (CheckoutStage::At(CheckoutStep::FindBranch), CheckoutReply::Failed(_)) => {
                CheckoutStage::At(CheckoutStep::Switch)
            },
            (CheckoutStage::At(CheckoutStep::FindBranch), CheckoutReply::Done) => {
                CheckoutStage::At(CheckoutStep::FetchBranch)
            },
            (CheckoutStage::At(step), CheckoutReply::Failed(error)) => {
                CheckoutStage::Failed { step, error }
            },
            (CheckoutStage::At(CheckoutStep::CreateParent), CheckoutReply::Done) => {
                CheckoutStage::At(CheckoutStep::HasGit)
            },
            (CheckoutStage::At(CheckoutStep::HasGit), CheckoutReply::Found(found)) => {
                if found {
                    CheckoutStage::At(CheckoutStep::SetOrigin)
                } else {
                    CheckoutStage::At(CheckoutStep::Clone)
                }
            },
            (CheckoutStage::At(CheckoutStep::Clone), CheckoutReply::Done) => {
                CheckoutStage::At(CheckoutStep::SetOrigin)
            },
            (CheckoutStage::At(CheckoutStep::SetOrigin), CheckoutReply::Done) => {
                CheckoutStage::At(CheckoutStep::Fetch)
            },
            (CheckoutStage::At(CheckoutStep::Fetch), CheckoutReply::Done) => {
                CheckoutStage::At(CheckoutStep::FindBranch)
            },
            (CheckoutStage::At(CheckoutStep::FetchBranch), CheckoutReply::Done) => {
                CheckoutStage::At(CheckoutStep::Switch)
            },
            (CheckoutStage::At(CheckoutStep::Switch), CheckoutReply::Done) => {
                CheckoutStage::At(CheckoutStep::Reset)
            },
            (CheckoutStage::At(CheckoutStep::Reset), CheckoutReply::Done) => {
                CheckoutStage::At(CheckoutStep::Clean)
            },
            (CheckoutStage::At(CheckoutStep::Clean), CheckoutReply::Done) => {
                CheckoutStage::Ready
            },
            (stage, _) => stage,
        };
        IssueBranchCheckout {
            issue: self.issue,
            branch: self.branch,
            remote: self.remote,
            checkout: self.checkout,
            parent: self.parent,
            stage,
        }
    }

    /// What a failure of a step is about, where that needs saying.
    pub fn context(&self, step: CheckoutStep) -> (r: Option<String>)
        ensures
            text::opt_view(r) == (match step {
                CheckoutStep::Clone => Some(
                    "failed to clone "@ + self.issue.owner@ + "/"@ + self.issue.repo@,
                ),
                CheckoutStep::Fetch => Some("failed to fetch "@ + self.issue.default_branch@),
                CheckoutStep::FetchBranch => Some(
                    "failed to fetch existing issue branch "@ + self.branch@,
                ),
                _ => None,
            }),
    {
        match step {
            CheckoutStep::Clone => Some(
                text::cat4(
                    "failed to clone ",
                    self.issue.owner.as_str(),
                    "/",
                    self.issue.repo.as_str(),
                ),
            ),
            CheckoutStep::Fetch => Some(
                text::cat2("failed to fetch ", self.issue.default_branch.as_str()),
            ),
            CheckoutStep::FetchBranch => Some(
                text::cat2("failed to fetch existing issue branch ", self.branch.as_str()),
            ),
            _ => None,
        }
    }
}

/// The checkout of an issue's branch that has come through `replies`.
pub open spec fn issue_branch_over<E>(
    start: IssueBranchCheckout<E>,
    replies: Seq<CheckoutReply<E>>,
) -> IssueBranchCheckout<E>
    decreases replies.len(),
{
    if replies.len() == 0 {
        start
    } else {
        issue_branch_over(start, replies.drop_last()).after(replies.last())
    }
}

/// Whether git was told to make the branch afresh from the default branch, and
/// then to reset to it, on the way through `replies`.
pub open spec fn branch_reset_over<E>(
    start: IssueBranchCheckout<E>,
    replies: Seq<CheckoutReply<E>>,
) -> bool
    decreases replies.len(),
{
    if replies.len() == 0 {
        false
    } else {
        let before = issue_branch_over(start, replies.drop_last());
        ||| branch_reset_over(start, replies.drop_last())
        ||| before.pending() == before.git(
            GitStep::ResetToDefaultBranch { default_branch: start.issue.default_branch },
        ) && replies.last() is Done
    }
}

/// Whatever the replies: a branch is ready only after it was reset to the default
/// branch and cleaned, whether it was there before or not.
pub proof fn law_issue_branch_starts_at_the_default_branch<E>(
    start: IssueBranchCheckout<E>,
    replies: Seq<CheckoutReply<E>>,
)
    requires
        start.stage == CheckoutStage::<E>::At(CheckoutStep::CreateParent),
    ensures
        ({
            let run = issue_branch_over(start, replies);
            &&& run.stage is Ready || run.stage == CheckoutStage::<E>::At(CheckoutStep::Clean)
                ==> branch_reset_over(start, replies)
            &&& run == (IssueBranchCheckout { stage: run.stage, ..start })
        }),
    decreases replies.len(),
{
    if replies.len() > 0 {
        law_issue_branch_starts_at_the_default_branch(start, replies.drop_last());
    }
}

impl GitRepoCache {
    /// Begins to check out a pull request.
    pub fn prepare_pr_review<E>(&self, pr: &PullRequest) -> (r: Result<
        PullRequestCheckout<E>,
        DomainError,
    >)
        ensures
            match r {
                Ok(run) => {
                    &&& domain::valid_name_part(pr.owner@) && domain::valid_name_part(pr.repo@)
                    &&& run.pr == *pr
                    &&& run.checkout@ == repo_path(self.root@, pr.owner@, pr.repo@)
                    &&& run.parent@ == owner_path(self.root@, pr.owner@)
                    &&& run.stage == CheckoutStage::<E>::At(CheckoutStep::CreateParent)
                },
                Err(error) => {
                    &&& !domain::valid_name_part(pr.owner@) || !domain::valid_name_part(pr.repo@)
                    &&& is_name_error(error, pr.owner@, pr.repo@)
                },
            },
    {
        let checkout = self.repo_dir(pr)?;
        Ok(
            PullRequestCheckout {
                pr: pr.clone(),
                checkout,
                parent: self.owner_dir(pr.owner.as_str()),
                stage: CheckoutStage::At(CheckoutStep::CreateParent),
            },
        )
    }

    /// Begins to check out a branch for an issue.
    pub fn prepare_issue_branch<E>(&self, issue: &Issue, branch: &str) -> (r: Result<
        IssueBranchCheckout<E>,
        DomainError,
    >)
        ensures
            match r {
                Ok(run) => {
                    &&& domain::valid_name_part(issue.owner@) && domain::valid_name_part(
                        issue.repo@,
                    )
                    &&& run.issue == *issue
                    &&& run.branch@ == branch@
                    &&& run.remote@ == self.issue_remote(*issue)@
                    &&& run.checkout@ == repo_path(self.root@, issue.owner@, issue.repo@)
                    &&& run.parent@ == owner_path(self.root@, issue.owner@)
                    &&& run.stage == CheckoutStage::<E>::At(CheckoutStep::CreateParent)
                },
                Err(error) => {
                    &&& !domain::valid_name_part(issue.owner@) || !domain::valid_name_part(
                        issue.repo@,
                    )
                    &&& is_name_error(error, issue.owner@, issue.repo@)
                },
            },
    {
        let checkout = self.issue_repo_dir(issue)?;
        Ok(
            IssueBranchCheckout {
                issue: issue.clone(),
                branch: branch.to_owned(),
                remote: self.issue_remote_url(issue).to_owned(),
                checkout,
                parent: self.owner_dir(issue.owner.as_str()),
                stage: CheckoutStage::At(CheckoutStep::CreateParent),
            },
        )
    }

    /// The commands that commit everything, in order.
    pub fn commit_all(&self, message: &str) -> (r: (GitStep, GitStep))
        ensures
            r.0 == GitStep::AddAll,
            match (self.issue_commit_identity, r.1) {
                (CommitIdentity::Bot { name, email }, GitStep::CommitAs { name: n, email: e, message: m })
                    => n == name && e == email && m@ == message@,
                (CommitIdentity::Host, GitStep::Commit { message: m }) => m@ == message@,
                _ => false,
            },
    {
        let commit = match &self.issue_commit_identity {
            CommitIdentity::Bot { name, email } => GitStep::CommitAs {
                name: name.clone(),
                email: email.clone(),
                message: message.to_owned(),
            },
            CommitIdentity::Host => GitStep::Commit { message: message.to_owned() },
        };
        (GitStep::AddAll, commit)
    }

    pub fn push_branch(&self, branch: &str) -> (r: GitStep)
        ensures
            r matches GitStep::Push { branch: b } && b@ == branch@,
    {
        GitStep::Push { branch: branch.to_owned() }
    }

    /// Whether the host's identity has to be verified before a commit, and against
    /// what.
    pub fn identity_to_verify(&self) -> (r: Option<&ExpectedGitIdentity>)
        ensures
            match (self.issue_commit_identity, self.expected_git_identity) {
                (CommitIdentity::Host, Some(expected)) => r == Some(&expected),
                _ => r is None,
            },
    {
        match (&self.issue_commit_identity, &self.expected_git_identity) {
            (CommitIdentity::Host, Some(expected)) => Some(expected),
            _ => None,
        }
    }
}

/// What `git status --porcelain` printed tells whether there are changes.
pub fn has_changes(status_output: &Vec<u8>) -> (r: bool)
    ensures
        r == (status_output@.len() > 0),
{
    status_output.len() > 0
}

// ---------------------------------------------------------------------------
// The host's identity
// ---------------------------------------------------------------------------
/// What `git config --get` came back with; the code is missing where a signal
/// ended it.
#[derive(Debug, Eq, PartialEq)]
pub struct ConfigOutput {
    pub code: Option<i32>,
    pub stdout: Vec<u8>,
    pub stderr: Vec<u8>,
}

/// The value of a setting, `None` where git says that it is not set, or what went
/// wrong.
pub open spec fn config_value_of(key: Seq<char>, output: ConfigOutput) -> Result<
    Option<Seq<char>>,
    Seq<Seq<char>>,
> {
    if output.code == Some(0i32) {
        if vstd::utf8::valid_utf8(output.stdout@) {
            Ok(Some(text::trimmed(vstd::utf8::decode_utf8(output.stdout@))))
        } else {
            Err(seq!["git config returned output that was not valid UTF-8"@])
        }
    } else if output.code == Some(1i32) {
        Ok(None)
    } else {
        Err(
            seq![
                "git config --get "@ + key + " failed: "@ + text::trimmed(
                    text::lossy_text(output.stderr@),
                ),
            ],
        )
    }
}

pub fn git_config_value(key: &str, output: &ConfigOutput) -> (r: Result<
    Option<String>,
    ConfigError,
>)
    ensures
        match (config_value_of(key@, *output), r) {
            (Ok(value), Ok(string)) => text::opt_view(string) == value,
            (Err(chain), Err(error)) => error@ == chain,
            _ => false,
        },
{
    match output.code {
        Some(0) => match text::from_utf8(&output.stdout) {
            Some(stdout) => Ok(Some(text::trim(stdout.as_str()))),
            None => Err(
                ConfigError::new(
                    "git config returned output that was not valid UTF-8".to_owned(),
                ),
            ),
        },
        Some(1) => Ok(None),
        _ => Err(
            ConfigError::new(
                text::cat4(
                    "git config --get ",
                    key,
                    " failed: ",
                    text::trim(text::from_utf8_lossy(&output.stderr).as_str()).as_str(),
                ),
            ),
        ),
    }
}

/// A truth value as git writes it.
pub open spec fn git_bool(value: Seq<char>) -> Option<bool> {
    let v = text::lowered(text::trimmed(value));
    if v == "true"@ || v == "yes"@ || v == "on"@ || v == "1"@ {
        Some(true)
    } else if v == "false"@ || v == "no"@ || v == "off"@ || v == "0"@ {
        Some(false)
    } else {
        None
    }
}

pub open spec fn not_a_bool_text(value: Seq<char>) -> Seq<char> {
    "not a git boolean: "@ + domain::debug_quoted(text::lowered(text::trimmed(value)))
}

pub fn parse_git_bool(value: &str) -> (r: Result<bool, ConfigError>)
    ensures
        match (git_bool(value@), r) {
            (Some(b), Ok(bool)) => bool == b,
            (None, Err(error)) => error@ == seq![not_a_bool_text(value@)],
            _ => false,
        },
{
    let v = text::to_lower(text::trim(value).as_str());
    let s: &str = v.as_str();
    if text::same(s, "true") || text::same(s, "yes") || text::same(s, "on") || text::same(s, "1") {
        Ok(true)
    } else if text::same(s, "false") || text::same(s, "no") || text::same(s, "off") || text::same(
        s,
        "0",
    ) {
        Ok(false)
    } else {
        Err(
            ConfigError::new(
                text::cat2("not a git boolean: ", domain::debug_quote(s).as_str()),
            ),
        )
    }
}

pub open spec fn mismatch_text(key: Seq<char>, expected: Seq<char>, got: Seq<char>) -> Seq<char> {
    "host git identity mismatch for "@ + key + ": expected "@ + expected + ", got "@ + got
}

/// What is wrong with a setting that should have a certain value.
pub open spec fn string_fault(
    key: Seq<char>,
    expected: Option<Seq<char>>,
    actual: Option<Seq<char>>,
) -> Option<Seq<Seq<char>>> {
    match (expected, actual) {
        (None, _) => None,
        (Some(e), Some(a)) => if a == e {
            None
        } else {
            Some(seq![mismatch_text(key, domain::debug_quoted(e), domain::debug_quoted(a))])
        },
        (Some(e), None) => Some(seq![mismatch_text(key, domain::debug_quoted(e), "unset"@)]),
    }
}

fn mismatch(key: &str, expected: &str, got: &str) -> (r: ConfigError)
    ensures
        r@ == seq![mismatch_text(key@, expected@, got@)],
{
    let what = text::cat5("host git identity mismatch for ", key, ": expected ", expected, ", got ");
    ConfigError::new(text::cat2(what.as_str(), got))
}

pub fn verify_expected_string(key: &str, expected: &Option<String>, actual: &Option<String>) -> (r:
    Result<(), ConfigError>)
    ensures
        match (string_fault(key@, text::opt_view(*expected), text::opt_view(*actual)), r) {
            (None, Ok(())) => true,
            (Some(chain), Err(error)) => error@ == chain,
            _ => false,
        },
{
    match (expected, actual) {
        (None, _) => Ok(()),
        (Some(e), Some(a)) => {
            if text::same(a.as_str(), e.as_str()) {
                Ok(())
            } else {
                Err(
                    mismatch(
                        key,
                        domain::debug_quote(e.as_str()).as_str(),
                        domain::debug_quote(a.as_str()).as_str(),
                    ),
                )
            }
        },
        (Some(e), None) => Err(
            mismatch(key, domain::debug_quote(e.as_str()).as_str(), "unset"),
        ),
    }
}

pub open spec fn bool_text(value: bool) -> Seq<char> {
    if value {
        "true"@
    } else {
        "false"@
    }
}

fn bool_name(value: bool) -> (r: &'static str)
    ensures
        r@ == bool_text(value),
{
    if value {
        "true"
    } else {
        "false"
    }
}

/// What is wrong with the setting for signed commits.
pub open spec fn gpgsign_fault(expected: Option<bool>, actual: Option<Seq<char>>) -> Option<
    Seq<Seq<char>>,
> {
    let key = "commit.gpgsign"@;
    match (expected, actual) {
        (None, _) => None,
        (Some(e), None) => Some(seq![mismatch_text(key, bool_text(e), "unset"@)]),
        (Some(e), Some(a)) => match git_bool(a) {
            None => Some(
                seq![
                    "host git identity mismatch for commit.gpgsign: invalid value "@
                        + domain::debug_quoted(a),
                    not_a_bool_text(a),
                ],
            ),
            Some(b) => if b == e {
                None
            } else {
                Some(seq![mismatch_text(key, bool_text(e), bool_text(b))])
            },
        },
    }
}

/// The first thing about the host's identity that is not as expected.
pub open spec fn identity_fault(
    expected: ExpectedGitIdentity,
    actual: EffectiveGitIdentity,
) -> Option<Seq<Seq<char>>> {
    let name = string_fault(
        "user.name"@,
        text::opt_view(expected.name),
        text::opt_view(actual.name),
    );
    let email = string_fault(
        "user.email"@,
        text::opt_view(expected.email),
        text::opt_view(actual.email),
    );
    let format = string_fault(
        "gpg.format"@,
        text::opt_view(expected.gpg_format),
        text::opt_view(actual.gpg_format),
    );
    if name is Some {
        name
    } else if email is Some {
        email
    } else if format is Some {
        format
    } else {
        gpgsign_fault(expected.gpgsign, text::opt_view(actual.gpgsign))
    }
}

pub fn verify_expected_git_identity(
    expected: &ExpectedGitIdentity,
    actual: &EffectiveGitIdentity,
) -> (r: Result<(), ConfigError>)
    ensures
        match (identity_fault(*expected, *actual), r) {
            (None, Ok(())) => true,
            (Some(chain), Err(error)) => error@ == chain,
            _ => false,
        },
{
    verify_expected_string("user.name", &expected.name, &actual.name)?;
    verify_expected_string("user.email", &expected.email, &actual.email)?;
    verify_expected_string("gpg.format", &expected.gpg_format, &actual.gpg_format)?;
    let wanted = match expected.gpgsign {
        None => {
            return Ok(());
        },
        Some(wanted) => wanted,
    };
    match &actual.gpgsign {
        None => Err(mismatch("commit.gpgsign", bool_name(wanted), "unset")),
        Some(value) => match parse_git_bool(value.as_str()) {
            Err(error) => {
                let e = error.within(
                    text::cat2(
                        "host git identity mismatch for commit.gpgsign: invalid value ",
                        domain::debug_quote(value.as_str()).as_str(),
                    ),
                );
                assert(e@ =~= gpgsign_fault(
                    expected.gpgsign,
                    text::opt_view(actual.gpgsign),
                )->0);
                Err(e)
            },
            Ok(got) => {
                if got == wanted {
                    Ok(())
                } else {
                    Err(mismatch("commit.gpgsign", bool_name(wanted), bool_name(got)))
                }
            },
        },
    }
}

/// What came of reading the host's identity, setting by setting.
#[derive(Debug, Eq, PartialEq)]
pub struct IdentityOutputs {
    pub name: ConfigOutput,
    pub email: ConfigOutput,
    pub gpgsign: ConfigOutput,
    pub gpg_format: ConfigOutput,
}

/// The first setting that could not be read.
pub open spec fn reading_fault(outputs: IdentityOutputs) -> Option<Seq<Seq<char>>> {
    let name = config_value_of("user.name"@, outputs.name);
    let email = config_value_of("user.email"@, outputs.email);
    let gpgsign = config_value_of("commit.gpgsign"@, outputs.gpgsign);
    let format = config_value_of("gpg.format"@, outputs.gpg_format);
    if name is Err {
        Some(name->Err_0)
    } else if email is Err {
        Some(email->Err_0)
    } else if gpgsign is Err {
        Some(gpgsign->Err_0)
    } else if format is Err {
        Some(format->Err_0)
    } else {
        None
    }
}

/// What is wrong with the identity that was read.
pub open spec fn outputs_fault(
    expected: ExpectedGitIdentity,
    outputs: IdentityOutputs,
) -> Option<Seq<Seq<char>>> {
    match reading_fault(outputs) {
        Some(fault) => Some(fault),
        None => {
            let name = string_fault(
                "user.name"@,
                text::opt_view(expected.name),
                config_value_of("user.name"@, outputs.name)->Ok_0,
            );
            let email = string_fault(
                "user.email"@,
                text::opt_view(expected.email),
                config_value_of("user.email"@, outputs.email)->Ok_0,
            );
            let format = string_fault(
                "gpg.format"@,
                text::opt_view(expected.gpg_format),
                config_value_of("gpg.format"@, outputs.gpg_format)->Ok_0,
            );
            if name is Some {
                name
            } else if email is Some {
                email
            } else if format is Some {
                format
            } else {
                gpgsign_fault(
                    expected.gpgsign,
                    config_value_of("commit.gpgsign"@, outputs.gpgsign)->Ok_0,
                )
            }
        },
    }
}

impl GitRepoCache {
    /// Whether a commit may be made in the host's name. Only a host with an expected
    /// identity is looked at.
    pub fn verify_issue_commit_identity(&self, outputs: &IdentityOutputs) -> (r: Result<
        (),
        ConfigError,
    >)
        ensures
            match (self.issue_commit_identity, self.expected_git_identity) {
                (CommitIdentity::Host, Some(expected)) => match (
                    outputs_fault(expected, *outputs),
                    r,
                ) {
                    (None, Ok(())) => true,
                    (Some(chain), Err(error)) => error@ == chain,
                    _ => false,
                },
                _ => r is Ok,
            },
    {
        match self.identity_to_verify() {
            None => Ok(()),
            Some(expected) => {
                let actual = EffectiveGitIdentity {
                    name: git_config_value("user.name", &outputs.name)?,
                    email: git_config_value("user.email", &outputs.email)?,
                    gpgsign: git_config_value("commit.gpgsign", &outputs.gpgsign)?,
                    gpg_format: git_config_value("gpg.format", &outputs.gpg_format)?,
                };
                verify_expected_git_identity(expected, &actual)
            },
        }
    }
}

/// The host's identity passes exactly if each setting that is expected has the
/// expected value; truth values are compared by what they mean.
pub proof fn law_identity_passes_only_as_expected(
    expected: ExpectedGitIdentity,
    actual: EffectiveGitIdentity,
)
    ensures
        (identity_fault(expected, actual) is None) == {
            &&& expected.name is Some ==> text::opt_view(actual.name) == text::opt_view(
                expected.name,
            )
            &&& expected.email is Some ==> text::opt_view(actual.email) == text::opt_view(
                expected.email,
            )
            &&& expected.gpg_format is Some ==> text::opt_view(actual.gpg_format)
                == text::opt_view(expected.gpg_format)
            &&& expected.gpgsign is Some ==> actual.gpgsign is Some && git_bool(
                actual.gpgsign->0@,
            ) == expected.gpgsign
        },
{
}

// ---------------------------------------------------------------------------
// How repositories are brought up to date
// ---------------------------------------------------------------------------
/// The bot's header is handed to git as its one setting, and goes with HTTPS; the
/// host needs nothing, and goes with SSH.
pub proof fn law_how_issue_work_is_authenticated(
    cache: GitRepoCache,
    header: String,
    issue: Issue,
)
    ensures
        GitAuth::ExtraHeader(header).environment() == seq![
            ("GIT_CONFIG_COUNT"@, "1"@),
            ("GIT_CONFIG_KEY_0"@, "http.extraheader"@),
            ("GIT_CONFIG_VALUE_0"@, header@),
        ],
        GitAuth::Host.environment() == Seq::<(Seq<char>, Seq<char>)>::empty(),
        cache.issue_git_auth is ExtraHeader ==> cache.issue_remote(issue) == issue.clone_url,
        cache.issue_git_auth is Host ==> cache.issue_remote(issue) == issue.ssh_url,
{
    assert(GitAuth::ExtraHeader(header).environment() =~= seq![
        ("GIT_CONFIG_COUNT"@, "1"@),
        ("GIT_CONFIG_KEY_0"@, "http.extraheader"@),
        ("GIT_CONFIG_VALUE_0"@, header@),
    ]);
}

/// A checkout of a pull request: a repository that is not there is cloned; then its
/// origin is set, the pull request's head fetched and switched to, and the rest
/// cleaned away. All of it happens in the checkout but the clone.
pub proof fn law_course_of_a_pull_request_checkout<E>(run: PullRequestCheckout<E>, error: E)
    requires
        run.stage == CheckoutStage::<E>::At(CheckoutStep::CreateParent),
    ensures
        ({
            let there = Some(run.checkout);
            let made = run.after(CheckoutReply::Done);
            let absent = made.after(CheckoutReply::Found(false));
            let present = made.after(CheckoutReply::Found(true));
            let set = present.after(CheckoutReply::Done);
            let fetched = set.after(CheckoutReply::Done);
            let switched = fetched.after(CheckoutReply::Done);
            &&& run.pending() == (CheckoutAction::CreateDir { path: run.parent })
            &&& made.pending() == (CheckoutAction::HasGit { checkout: run.checkout })
            &&& absent.pending() == (CheckoutAction::Git {
                step: GitStep::Clone { remote: run.pr.clone_url, checkout: run.checkout },
                cwd: None,
            })
            &&& absent.after(CheckoutReply::Done) == present
            &&& present.pending() == (CheckoutAction::Git {
                step: GitStep::SetOrigin { remote: run.pr.clone_url },
                cwd: there,
            })
            &&& set.pending() == (CheckoutAction::Git {
                step: GitStep::FetchPullRequest { number: run.pr.number },
                cwd: there,
            })
            &&& fetched.pending() == (CheckoutAction::Git {
                step: GitStep::SwitchToFetched,
                cwd: there,
            })
            &&& switched.pending() == (CheckoutAction::Git { step: GitStep::Clean, cwd: there })
            &&& switched.after(CheckoutReply::Done).stage == CheckoutStage::<E>::Ready
            &&& absent.after(CheckoutReply::Failed(error)).stage == (CheckoutStage::<E>::Failed {
                step: CheckoutStep::Clone,
                error,
            })
            &&& set.after(CheckoutReply::Failed(error)).stage == (CheckoutStage::<E>::Failed {
                step: CheckoutStep::Fetch,
                error,
            })
            &&& fetched.after(CheckoutReply::Failed(error)).stage == (
            CheckoutStage::<E>::Failed { step: CheckoutStep::Switch, error })
        }),
{
}

/// A checkout of an issue's branch: likewise, but the default branch is fetched, the
/// issue's branch too where the remote has it, and the branch is made from the
/// default branch, reset to it and cleaned.
pub proof fn law_course_of_an_issue_checkout<E>(run: IssueBranchCheckout<E>, error: E)
    requires
        run.stage == CheckoutStage::<E>::At(CheckoutStep::CreateParent),
    ensures
        ({
            let there = Some(run.checkout);
            let made = run.after(CheckoutReply::Done);
            let absent = made.after(CheckoutReply::Found(false));
            let present = made.after(CheckoutReply::Found(true));
            let set = present.after(CheckoutReply::Done);
            let fetched = set.after(CheckoutReply::Done);
            let known = fetched.after(CheckoutReply::Done);
            let fresh = fetched.after(CheckoutReply::Failed(error));
            let switched = fresh.after(CheckoutReply::Done);
            let reset = switched.after(CheckoutReply::Done);
            &&& run.pending() == (CheckoutAction::CreateDir { path: run.parent })
            &&& made.pending() == (CheckoutAction::HasGit { checkout: run.checkout })
            &&& absent.pending() == (CheckoutAction::Git {
                step: GitStep::Clone { remote: run.remote, checkout: run.checkout },
                cwd: None,
            })
            &&& absent.after(CheckoutReply::Done) == present
            &&& present.pending() == (CheckoutAction::Git {
                step: GitStep::SetOrigin { remote: run.remote },
                cwd: there,
            })
            &&& set.pending() == (CheckoutAction::Git {
                step: GitStep::FetchDefaultBranch { branch: run.issue.default_branch },
                cwd: there,
            })
            &&& fetched.pending() == (CheckoutAction::Git {
                step: GitStep::FindRemoteBranch { branch: run.branch },
                cwd: there,
            })
            &&& known.pending() == (CheckoutAction::Git {
                step: GitStep::FetchBranch { branch: run.branch },
                cwd: there,
            })
            &&& known.after(CheckoutReply::Done) == fresh
            &&& fresh.pending() == (CheckoutAction::Git {
                step: GitStep::SwitchBranch {
                    branch: run.branch,
                    default_branch: run.issue.default_branch,
                },
                cwd: there,
            })
            &&& switched.pending() == (CheckoutAction::Git {
                step: GitStep::ResetToDefaultBranch { default_branch: run.issue.default_branch },
                cwd: there,
            })
            &&& reset.pending() == (CheckoutAction::Git { step: GitStep::Clean, cwd: there })
            &&& reset.after(CheckoutReply::Done).stage == CheckoutStage::<E>::Ready
            &&& set.after(CheckoutReply::Failed(error)).stage == (CheckoutStage::<E>::Failed {
                step: CheckoutStep::Fetch,
                error,
            })
            &&& switched.after(CheckoutReply::Failed(error)).stage == (
            CheckoutStage::<E>::Failed { step: CheckoutStep::Reset, error })
        }),
{
}

/// A setting that git finds has the value that it printed, without the line end;
/// one that it does not find has none; anything else is an error.
pub proof fn law_what_a_setting_is(key: Seq<char>, output: ConfigOutput)
    ensures
        output.code == Some(0i32) && vstd::utf8::valid_utf8(output.stdout@) ==> config_value_of(
            key,
            output,
        ) == Ok::<Option<Seq<char>>, Seq<Seq<char>>>(
            Some(text::trimmed(vstd::utf8::decode_utf8(output.stdout@))),
        ),
        output.code == Some(1i32) ==> config_value_of(key, output) == Ok::<
            Option<Seq<char>>,
            Seq<Seq<char>>,
        >(None),
        config_value_of(key, output) is Err <==> (output.code == Some(0i32)
            && !vstd::utf8::valid_utf8(output.stdout@)) || (output.code != Some(0i32)
            && output.code != Some(1i32)),
{
}

/// Git's words for true and for false, in any case of letters and with white space
/// around them; no other word is either.
pub proof fn law_what_git_calls_true(value: Seq<char>)
    ensures
        ({
            let word = text::lowered(text::trimmed(value));
            &&& git_bool(value) == Some(true) <==> word == "true"@ || word == "yes"@ || word
                == "on"@ || word == "1"@
            &&& git_bool(value) == Some(false) <==> word == "false"@ || word == "no"@ || word
                == "off"@ || word == "0"@
        }),
{
    reveal_strlit("true");
    reveal_strlit("yes");
    reveal_strlit("on");
    reveal_strlit("1");
    reveal_strlit("false");
    reveal_strlit("no");
    reveal_strlit("off");
    reveal_strlit("0");
    assert("true"@.len() == 4 && "yes"@.len() == 3 && "on"@.len() == 2 && "1"@.len() == 1);
    assert("false"@.len() == 5 && "off"@.len() == 3 && "no"@.len() == 2 && "0"@.len() == 1);
    assert("on"@[0] == 'o' && "no"@[0] == 'n');
    assert("yes"@[0] == 'y' && "off"@[0] == 'o');
    assert("1"@[0] == '1' && "0"@[0] == '0');
}

/// What is read from the host passes exactly where each setting could be read and
/// each that is expected has the expected value.
pub proof fn law_outputs_pass_only_as_expected(
    expected: ExpectedGitIdentity,
    outputs: IdentityOutputs,
)
    ensures
        outputs_fault(expected, outputs) is None <==> {
            let name = config_value_of("user.name"@, outputs.name);
            let email = config_value_of("user.email"@, outputs.email);
            let gpgsign = config_value_of("commit.gpgsign"@, outputs.gpgsign);
            let format = config_value_of("gpg.format"@, outputs.gpg_format);
            &&& name is Ok && email is Ok && gpgsign is Ok && format is Ok
            &&& expected.name matches Some(n) ==> name->Ok_0 == Some(n@)
            &&& expected.email matches Some(e) ==> email->Ok_0 == Some(e@)
            &&& expected.gpg_format matches Some(f) ==> format->Ok_0 == Some(f@)
            &&& expected.gpgsign matches Some(signed) ==> gpgsign->Ok_0 is Some && git_bool(
                gpgsign->Ok_0->0,
            ) == Some(signed)
        },
{
}

/// A setting that is not as expected is named, with what was expected and what was
/// found.
pub proof fn law_mismatches_are_named(key: Seq<char>, expected: Seq<char>, found: Seq<char>)
    ensures
        mismatch_text(key, expected, found) == "host git identity mismatch for "@ + key
            + ": expected "@ + expected + ", got "@ + found,
        expected != found ==> string_fault(key, Some(expected), Some(found)) == Some(
            seq![
                mismatch_text(key, domain::debug_quoted(expected), domain::debug_quoted(found)),
            ],
        ),
        string_fault(key, Some(expected), None) == Some(
            seq![mismatch_text(key, domain::debug_quoted(expected), "unset"@)],
        ),
        string_fault(key, Some(expected), Some(expected)) is None,
        string_fault(key, None, Some(found)) is None,
{
}

/// The repositories of an owner lie together, below `repos`.
pub proof fn law_where_an_owner_is(root: Seq<char>, owner: Seq<char>, repo: Seq<char>)
    requires
        domain::valid_name_part(owner),
        domain::valid_name_part(repo),
    ensures
        owner_path(root, owner) == path::joined_path(root, "repos"@) + seq!['/'] + owner,
        repo_path(root, owner, repo) == owner_path(root, owner) + seq!['/'] + repo,
{
    reveal_strlit("repos");
    let base = path::joined_path(root, "repos"@);
    assert(base.last() == 's');
    domain::law_name_part_is_one_level(owner);
    path::lemma_join_part(base, owner);
    assert(base.push('/') + owner =~= base + seq!['/'] + owner);
    lemma_repo_path(root, owner, repo);
    assert(repo_path(root, owner, repo) =~= owner_path(root, owner) + seq!['/'] + repo);
}

/// A name that cannot be used is reported as the owner's or the repository's, the
/// owner's first.
pub proof fn law_which_name_is_at_fault(error: DomainError, owner: Seq<char>, repo: Seq<char>)
    requires
        is_name_error(error, owner, repo),
    ensures
        error matches DomainError::InvalidNamePart { label, value } && {
            &&& !domain::valid_name_part(owner) ==> label@ == "repository owner"@ && value@
                == owner
            &&& domain::valid_name_part(owner) ==> label@ == "repository name"@ && value@ == repo
        },
{
}

/// Whether commits are signed is compared by what the setting means; a value that
/// means nothing is reported as such.
pub proof fn law_how_signing_is_compared(expected: bool, actual: Seq<char>)
    ensures
        gpgsign_fault(None, Some(actual)) is None,
        gpgsign_fault(Some(expected), None) == Some(
            seq![
                mismatch_text(
                    "commit.gpgsign"@,
                    if expected { "true"@ } else { "false"@ },
                    "unset"@,
                ),
            ],
        ),
        git_bool(actual) == Some(expected) ==> gpgsign_fault(Some(expected), Some(actual)) is None,
        git_bool(actual) == Some(!expected) ==> gpgsign_fault(Some(expected), Some(actual))
            == Some(
            seq![
                mismatch_text(
                    "commit.gpgsign"@,
                    if expected { "true"@ } else { "false"@ },
                    if expected { "false"@ } else { "true"@ },
                ),
            ],
        ),
        git_bool(actual) is None ==> gpgsign_fault(Some(expected), Some(actual)) == Some(
            seq![
                "host git identity mismatch for commit.gpgsign: invalid value "@
                    + domain::debug_quoted(actual),
                "not a git boolean: "@ + domain::debug_quoted(
                    text::lowered(text::trimmed(actual)),
                ),
            ],
        ),
{
}

/// A checkout goes on only with a reply to what it asked for; once it is ready, or
/// has failed, nothing changes it. Only its stage ever changes.
pub proof fn law_checkouts_go_on_with_answers_only<E>(
    run: PullRequestCheckout<E>,
    branch: IssueBranchCheckout<E>,
    reply: CheckoutReply<E>,
)
    ensures
        ({
            let answered = match run.pending() {
                CheckoutAction::Nothing => reply is Failed,
                CheckoutAction::HasGit { .. } => reply is Found || reply is Failed,
                _ => reply is Done || reply is Failed,
            };
            !answered ==> run.after(reply) == run
        }),
        ({
            let answered = match branch.pending() {
                CheckoutAction::Nothing => reply is Failed,
                CheckoutAction::HasGit { .. } => reply is Found || reply is Failed,
                _ => reply is Done || reply is Failed,
            };
            !answered ==> branch.after(reply) == branch
        }),
        run.stage !is At ==> run.after(reply) == run && run.pending() is Nothing,
        branch.stage !is At ==> branch.after(reply) == branch && branch.pending() is Nothing,
        run.after(reply) == (PullRequestCheckout { stage: run.after(reply).stage, ..run }),
        branch.after(reply) == (IssueBranchCheckout { stage: branch.after(reply).stage, ..branch }),
        run.stage matches CheckoutStage::At(step) ==> (reply matches CheckoutReply::Failed(error)
            ==> run.after(reply).stage == (CheckoutStage::Failed { step, error })),
        branch.stage matches CheckoutStage::At(step) ==> step != CheckoutStep::FindBranch ==> (
        reply matches CheckoutReply::Failed(error) ==> branch.after(reply).stage == (
        CheckoutStage::Failed { step, error })),
{
}

/// Work on issues is published under the bot's name unless the host's is asked for,
/// and the same goes for how git is authenticated. Only the host's identity is
/// verified, and only where there is something to expect of it.
pub proof fn law_whose_name_work_goes_under(
    cache: GitRepoCache,
    auth: IssueGitAuth,
    identity: IssueCommitIdentity,
    r: GitRepoCache,
    expected: Option<ExpectedGitIdentity>,
    checked: GitRepoCache,
)
    requires
        call_ensures(GitRepoCache::with_issue_publish_mode, (cache, auth, identity), r),
        call_ensures(GitRepoCache::with_expected_git_identity, (cache, expected), checked),
    ensures
        auth is Bot ==> r.issue_git_auth == cache.bot_auth,
        auth is Host ==> r.issue_git_auth == GitAuth::Host,
        identity is Bot ==> r.issue_commit_identity == cache.issue_commit_identity,
        identity is Host ==> r.issue_commit_identity == CommitIdentity::Host,
        r.root == cache.root && r.bot_auth == cache.bot_auth && r.expected_git_identity
            == cache.expected_git_identity,
        checked.expected_git_identity == expected,
        checked.root == cache.root && checked.bot_auth == cache.bot_auth
            && checked.issue_git_auth == cache.issue_git_auth && checked.issue_commit_identity
            == cache.issue_commit_identity,
{
}

/// Everything is added and committed with the message given, under the name that work
/// goes under, and the branch given is pushed. There is something to commit exactly
/// where git reports something.
pub proof fn law_how_work_is_committed(
    cache: &GitRepoCache,
    message: &str,
    steps: (GitStep, GitStep),
    branch: &str,
    push: GitStep,
    output: &Vec<u8>,
    changed: bool,
)
    requires
        call_ensures(GitRepoCache::commit_all, (cache, message), steps),
        call_ensures(GitRepoCache::push_branch, (cache, branch), push),
        call_ensures(has_changes, (output,), changed),
    ensures
        steps.0.arguments() == seq!["add"@, "-A"@],
        cache.issue_commit_identity == CommitIdentity::Host ==> steps.1.arguments() == seq![
            "commit"@,
            "-m"@,
            message@,
        ],
        cache.issue_commit_identity matches CommitIdentity::Bot { name, email }
            ==> steps.1.arguments() == seq![
            "-c"@,
            "user.name="@ + name@,
            "-c"@,
            "user.email="@ + email@,
            "commit"@,
            "-m"@,
            message@,
        ],
        push.arguments() == seq![
            "push"@,
            "--force-with-lease"@,
            "origin"@,
            "HEAD:refs/heads/"@ + branch@,
        ],
        changed <==> output@.len() > 0,
{
}

/// The host's identity is verified where work goes under it and something is expected
/// of it.
pub proof fn law_when_the_identity_is_verified<'a>(
    cache: &'a GitRepoCache,
    r: Option<&'a ExpectedGitIdentity>,
)
    requires
        call_ensures(GitRepoCache::identity_to_verify, (cache,), r),
    ensures
        r is Some <==> cache.issue_commit_identity == CommitIdentity::Host
            && cache.expected_git_identity is Some,
        r matches Some(expected) ==> Some(*expected) == cache.expected_git_identity,
{
}

/// A cache starts out with the bot's own name, mail address and token.
pub proof fn law_how_a_cache_begins(root: &str, token: &str, login: &str, r: GitRepoCache)
    requires
        call_ensures(GitRepoCache::new, (root, token, login), r),
    ensures
        r.root@ == root@,
        r.bot_auth matches GitAuth::ExtraHeader(header) && header@ == git::auth_header_text(
            token@,
        ),
        r.issue_git_auth == r.bot_auth,
        r.issue_commit_identity matches CommitIdentity::Bot { name, email } && name@ == login@
            && email@ == login@ + "@users.noreply.github.com"@,
        r.expected_git_identity is None,
{
}

/// A checkout is made in the repository's own place, for the pull request or the
/// branch that was asked for; only names that can be used are taken.
pub proof fn law_how_checkouts_begin<E>(
    cache: &GitRepoCache,
    pr: &PullRequest,
    run: Result<PullRequestCheckout<E>, DomainError>,
    issue: &Issue,
    name: &str,
    branch: Result<IssueBranchCheckout<E>, DomainError>,
    dir: Result<String, DomainError>,
)
    requires
        call_ensures(GitRepoCache::prepare_pr_review::<E>, (cache, pr), run),
        call_ensures(GitRepoCache::prepare_issue_branch::<E>, (cache, issue, name), branch),
        call_ensures(GitRepoCache::repo_dir, (cache, pr), dir),
    ensures
        run is Ok <==> domain::valid_name_part(pr.owner@) && domain::valid_name_part(pr.repo@),
        dir is Ok <==> run is Ok,
        run matches Ok(begun) ==> {
            &&& begun.pr == *pr
            &&& begun.checkout@ == (dir->Ok_0)@
            &&& begun.checkout@ == repo_path(cache.root@, pr.owner@, pr.repo@)
            &&& begun.parent@ == owner_path(cache.root@, pr.owner@)
            &&& begun.pending() == (CheckoutAction::CreateDir { path: begun.parent })
        },
        branch is Ok <==> domain::valid_name_part(issue.owner@) && domain::valid_name_part(
            issue.repo@,
        ),
        branch matches Ok(begun) ==> {
            &&& begun.issue == *issue
            &&& begun.branch@ == name@
            &&& cache.issue_git_auth is Host ==> begun.remote@ == issue.ssh_url@
            &&& cache.issue_git_auth is ExtraHeader ==> begun.remote@ == issue.clone_url@
            &&& begun.checkout@ == repo_path(cache.root@, issue.owner@, issue.repo@)
            &&& begun.parent@ == owner_path(cache.root@, issue.owner@)
            &&& begun.pending() == (CheckoutAction::CreateDir { path: begun.parent })
        },
{
}

/// What failed in a checkout is said of the repository, the pull request or the branch
/// that it failed for.
pub proof fn law_what_failed_is_named<E>(
    run: &PullRequestCheckout<E>,
    cloned: Option<String>,
    fetched: Option<String>,
    branch: &IssueBranchCheckout<E>,
    found: Option<String>,
)
    requires
        call_ensures(PullRequestCheckout::<E>::context, (run, CheckoutStep::Clone), cloned),
        call_ensures(PullRequestCheckout::<E>::context, (run, CheckoutStep::Fetch), fetched),
        call_ensures(IssueBranchCheckout::<E>::context, (branch, CheckoutStep::FetchBranch), found),
    ensures
        text::opt_view(cloned) == Some("failed to clone "@ + run.pr.owner@ + "/"@ + run.pr.repo@),
        text::opt_view(fetched) == Some("failed to fetch PR "@ + run.pr.html_url@),
        text::opt_view(found) == Some("failed to fetch existing issue branch "@ + branch.branch@),
{
}

} // verus!
