//! What the bot works on: notifications, work targets, mentions and tasks.
use crate::numeral;
use crate::text;
use vstd::prelude::*;

verus! {

pub const OPERATOR_TRIGGER: &'static str = "/operate";

// ---------------------------------------------------------------------------
// Errors
// ---------------------------------------------------------------------------
/// What `format!("{:?}", text)` writes for a string.
pub uninterp spec fn debug_quoted(text: Seq<char>) -> Seq<char>;

/// The `Debug` form of a string, as `format!` writes it: the text between
/// double quotes, with special characters escaped. Nothing is claimed of it but
/// that it depends on the text alone.
#[verifier::external_body]
pub(crate) fn debug_quote(text: &str) -> (r: String)
    ensures
        r@ == debug_quoted(text@),
{
    format!("{:?}", text)
}

#[derive(Debug, Eq, PartialEq)]
pub enum DomainError {
    RepositoryFormat { value: String },
    InvalidNamePart { label: String, value: String },
    UnclosedPlaceholder,
    UnknownPlaceholder { name: String },
}

impl DomainError {
    pub open spec fn message_text(self) -> Seq<char> {
        match self {
            DomainError::RepositoryFormat { value } => {
                "repository must be formatted as owner/repo: "@ + debug_quoted(value@)
            },
            DomainError::InvalidNamePart { label, value } => {
                "invalid "@ + label@ + ": "@ + debug_quoted(value@)
            },
            DomainError::UnclosedPlaceholder => {
                "Codex prompt template has an unclosed placeholder"@
            },
            DomainError::UnknownPlaceholder { name } => {
                "unknown Codex prompt template placeholder: "@ + name@
            },
        }
    }

    /// The error in words.
    pub fn message(&self) -> (r: String)
        ensures
            r@ == self.message_text(),
    {
        match self {
            DomainError::RepositoryFormat { value } => {
                text::cat2("repository must be formatted as owner/repo: ", debug_quote(value).as_str())
            },
            DomainError::InvalidNamePart { label, value } => {
                text::cat4("invalid ", label, ": ", debug_quote(value).as_str())
            },
            DomainError::UnclosedPlaceholder => {
                "Codex prompt template has an unclosed placeholder".to_owned()
            },
            DomainError::UnknownPlaceholder { name } => {
                text::cat2("unknown Codex prompt template placeholder: ", name)
            },
        }
    }
}

// ---------------------------------------------------------------------------
// Notifications
// ---------------------------------------------------------------------------
#[derive(Debug, Eq, PartialEq)]
pub struct Notification {
    pub id: String,
    pub reason: String,
    pub subject_kind: String,
    pub subject_url: Option<String>,
    pub latest_comment_url: Option<String>,
    pub unread: bool,
    pub updated_at: String,
}

impl Clone for Notification {
    fn clone(&self) -> (r: Self)
        ensures
            r == *self,
    {
        Notification {
            id: self.id.clone(),
            reason: self.reason.clone(),
            subject_kind: self.subject_kind.clone(),
            subject_url: self.subject_url.clone(),
            latest_comment_url: self.latest_comment_url.clone(),
            unread: self.unread,
            updated_at: self.updated_at.clone(),
        }
    }
}

impl Notification {
    /// The notification is about a pull request or an issue whose address is
    /// known.
    pub open spec fn mention_candidate(self) -> bool {
        &&& self.subject_kind@ == "PullRequest"@ || self.subject_kind@ == "Issue"@
        &&& self.subject_url is Some
    }

    pub fn is_mention_candidate(&self) -> (r: bool)
        ensures
            r == self.mention_candidate(),
    {
        (text::same(self.subject_kind.as_str(), "PullRequest") || text::same(
            self.subject_kind.as_str(),
            "Issue",
        )) && self.subject_url.is_some()
    }

    pub fn is_read(&self) -> (r: bool)
        ensures
            r == !self.unread,
    {
        !self.unread
    }
}

// ---------------------------------------------------------------------------
// Repositories
// ---------------------------------------------------------------------------
/// The characters that may stand in the name of an owner or a repository.
pub open spec fn name_char(c: char) -> bool {
    text::is_ascii_alphanumeric(c) || c == '-' || c == '_' || c == '.'
}

/// A usable owner or repository name: at least one character, all of them name
/// characters, and not one of the two directory names `.` and `..`.
pub open spec fn valid_name_part(value: Seq<char>) -> bool {
    &&& value.len() > 0
    &&& value != "."@
    &&& value != ".."@
    &&& forall|i: int| 0 <= i < value.len() ==> name_char(#[trigger] value[i])
}

fn is_name_char(c: char) -> (r: bool)
    ensures
        r == name_char(c),
{
    text::ascii_alphanumeric(c) || c == '-' || c == '_' || c == '.'
}

/// Accepts exactly the usable names.
pub fn validate_repo_name_part(value: &str, label: &str) -> (r: Result<(), DomainError>)
    ensures
        match r {
            Ok(_) => valid_name_part(value@),
            Err(DomainError::InvalidNamePart { label: l, value: v }) => {
                !valid_name_part(value@) && l@ == label@ && v@ == value@
            },
            Err(_) => false,
        },
{
    let v = text::to_chars(value);
    let mut valid: bool = v.len() > 0 && !text::same(value, ".") && !text::same(value, "..");
    let mut i: usize = 0;
    while i < v.len()
        invariant
            v@ == value@,
            i <= v@.len(),
            valid == (value@.len() > 0 && value@ != "."@ && value@ != ".."@ && forall|j: int|
                0 <= j < i ==> name_char(#[trigger] value@[j])),
        decreases v@.len() - i,
    {
        if !is_name_char(v[i]) {
            assert(!name_char(value@[i as int]));
            valid = false;
        }
        i = i + 1;
    }
    if valid {
        Ok(())
    } else {
        Err(DomainError::InvalidNamePart { label: label.to_owned(), value: value.to_owned() })
    }
}

/// A usable name holds no slash, so it names one directory level, and that
/// level is neither the current nor the parent directory.
pub proof fn law_name_part_is_one_level(value: Seq<char>)
    requires
        valid_name_part(value),
    ensures
        value.len() > 0,
        !value.contains('/'),
        value != "."@,
        value != ".."@,
{
    if value.contains('/') {
        let i = choose|i: int| 0 <= i < value.len() && value[i] == '/';
        assert(name_char(value[i]));
    }
}

#[derive(Debug, Eq, Hash, PartialEq)]
pub struct RepoSlug {
    pub owner: String,
    pub repo: String,
}

impl Clone for RepoSlug {
    fn clone(&self) -> (r: Self)
        ensures
            r == *self,
    {
        RepoSlug { owner: self.owner.clone(), repo: self.repo.clone() }
    }
}

/// Why a text names no repository.
pub enum SlugFault {
    Format,
    Owner,
    Repo,
}

/// The owner and the repository that a text of the form `owner/repo` names.
pub open spec fn slug_parts(value: Seq<char>) -> Result<(Seq<char>, Seq<char>), SlugFault> {
    let v = text::trimmed(value);
    let at = text::index_of(v, '/', 0);
    let owner = v.take(at);
    let repo = v.skip(at + 1);
    if !v.contains('/') || repo.contains('/') {
        Err(SlugFault::Format)
    } else if !valid_name_part(owner) {
        Err(SlugFault::Owner)
    } else if !valid_name_part(repo) {
        Err(SlugFault::Repo)
    } else {
        Ok((text::lowered(owner), text::lowered(repo)))
    }
}

impl RepoSlug {
    pub open spec fn display_text(self) -> Seq<char> {
        self.owner@ + "/"@ + self.repo@
    }

    /// The slug as `owner/repo`.
    pub fn display(&self) -> (r: String)
        ensures
            r@ == self.display_text(),
    {
        text::cat3(self.owner.as_str(), "/", self.repo.as_str())
    }

    /// Reads `owner/repo`, ignoring white space around it and ASCII case.
    pub fn parse(value: &str) -> (r: Result<RepoSlug, DomainError>)
        ensures
            match slug_parts(value@) {
                Ok((owner, repo)) => r is Ok && r->Ok_0.owner@ == owner && r->Ok_0.repo@ == repo,
                Err(SlugFault::Format) => {
                    r matches Err(DomainError::RepositoryFormat { value: v }) && v@
                        == text::trimmed(value@)
                },
                Err(SlugFault::Owner) => {
                    let v = text::trimmed(value@);
                    r matches Err(DomainError::InvalidNamePart { label, value: part }) && label@
                        == "repository owner"@ && part@ == v.take(text::index_of(v, '/', 0))
                },
                Err(SlugFault::Repo) => {
                    let v = text::trimmed(value@);
                    r matches Err(DomainError::InvalidNamePart { label, value: part }) && label@
                        == "repository name"@ && part@ == v.skip(text::index_of(v, '/', 0) + 1)
                },
            },
    {
        let value = text::trim(value);
        match text::split_once(value.as_str(), '/') {
            None => Err(DomainError::RepositoryFormat { value }),
            Some((owner, repo)) => {
                if text::contains_char(repo.as_str(), '/') {
                    return Err(DomainError::RepositoryFormat { value });
                }
                validate_repo_name_part(owner.as_str(), "repository owner")?;
                validate_repo_name_part(repo.as_str(), "repository name")?;
                Ok(
                    RepoSlug {
                        owner: text::to_lower(owner.as_str()),
                        repo: text::to_lower(repo.as_str()),
                    },
                )
            },
        }
    }
}

proof fn lemma_lowered_name_part(value: Seq<char>)
    requires
        valid_name_part(value),
    ensures
        valid_name_part(text::lowered(value)),
{
    reveal_strlit(".");
    reveal_strlit("..");
    let low = text::lowered(value);
    assert forall|i: int| 0 <= i < low.len() implies name_char(#[trigger] low[i]) by {
        assert(name_char(value[i]));
    }
    if low == "."@ {
        assert(low[0] == '.');
        assert(value =~= "."@);
    }
    if low == ".."@ {
        assert(low[0] == '.' && low[1] == '.');
        assert(value =~= ".."@);
    }
}

/// The text of a slug that was read is read back as the same slug.
pub proof fn law_slug_reads_back(value: Seq<char>)
    requires
        slug_parts(value) is Ok,
    ensures
        ({
            let (owner, repo) = slug_parts(value)->Ok_0;
            slug_parts(owner + "/"@ + repo) == Ok::<(Seq<char>, Seq<char>), SlugFault>(
                (owner, repo),
            )
        }),
{
    reveal_strlit("/");
    let v = text::trimmed(value);
    let at = text::index_of(v, '/', 0);
    let (owner, repo) = slug_parts(value)->Ok_0;
    lemma_lowered_name_part(v.take(at));
    lemma_lowered_name_part(v.skip(at + 1));
    text::lemma_lowered_idempotent(v.take(at));
    text::lemma_lowered_idempotent(v.skip(at + 1));
    law_name_part_is_one_level(owner);
    law_name_part_is_one_level(repo);
    let shown = owner + "/"@ + repo;
    assert forall|i: int| 0 <= i < shown.len() implies !text::is_white(shown[i]) by {
        if i < owner.len() {
            assert(name_char(owner[i]));
        } else if i > owner.len() {
            assert(shown[i] == repo[i - owner.len() - 1]);
            assert(name_char(repo[i - owner.len() - 1]));
        }
    }
    text::lemma_no_white_is_trim(shown);
    text::lemma_index_of(shown, '/', 0);
    let k = text::index_of(shown, '/', 0);
    assert(shown[owner.len() as int] == '/');
    if k < owner.len() {
        assert(owner.contains(owner[k]));
        assert(shown[k] == owner[k]);
    }
    assert(shown.take(k) =~= owner);
    assert(shown.skip(k + 1) =~= repo);
    assert(shown.contains('/'));
}

// ---------------------------------------------------------------------------
// Work targets
// ---------------------------------------------------------------------------
#[derive(Debug, Eq, PartialEq)]
pub struct PullRequest {
    pub owner: String,
    pub repo: String,
    pub number: u64,
    pub author: String,
    /// The author's numeric user ID, which outlives a change of login.
    pub author_id: u64,
    pub api_url: String,
    pub html_url: String,
    pub clone_url: String,
}

impl Clone for PullRequest {
    fn clone(&self) -> (r: Self)
        ensures
            r == *self,
    {
        PullRequest {
            owner: self.owner.clone(),
            repo: self.repo.clone(),
            number: self.number,
            author: self.author.clone(),
            author_id: self.author_id,
            api_url: self.api_url.clone(),
            html_url: self.html_url.clone(),
            clone_url: self.clone_url.clone(),
        }
    }
}

impl PullRequest {
    pub fn repo_key(&self) -> (r: String)
        ensures
            r@ == self.owner@ + "/"@ + self.repo@,
    {
        text::cat3(self.owner.as_str(), "/", self.repo.as_str())
    }
}

#[derive(Debug, Eq, PartialEq)]
pub struct Issue {
    pub owner: String,
    pub repo: String,
    pub number: u64,
    pub author: String,
    pub title: String,
    pub body: String,
    pub api_url: String,
    pub html_url: String,
    pub clone_url: String,
    pub ssh_url: String,
    pub default_branch: String,
}

impl Clone for Issue {
    fn clone(&self) -> (r: Self)
        ensures
            r == *self,
    {
        Issue {
            owner: self.owner.clone(),
            repo: self.repo.clone(),
            number: self.number,
            author: self.author.clone(),
            title: self.title.clone(),
            body: self.body.clone(),
            api_url: self.api_url.clone(),
            html_url: self.html_url.clone(),
            clone_url: self.clone_url.clone(),
            ssh_url: self.ssh_url.clone(),
            default_branch: self.default_branch.clone(),
        }
    }
}

impl Issue {
    pub fn repo_key(&self) -> (r: String)
        ensures
            r@ == self.owner@ + "/"@ + self.repo@,
    {
        text::cat3(self.owner.as_str(), "/", self.repo.as_str())
    }
}

#[derive(Debug, Eq, PartialEq)]
pub enum WorkTarget {
    PullRequest(PullRequest),
    Issue(Issue),
}

impl Clone for WorkTarget {
    fn clone(&self) -> (r: Self)
        ensures
            r == *self,
    {
        match self {
            WorkTarget::PullRequest(pr) => WorkTarget::PullRequest(pr.clone()),
            WorkTarget::Issue(issue) => WorkTarget::Issue(issue.clone()),
        }
    }
}

impl WorkTarget {
    pub open spec fn owner_string(self) -> String {
        match self {
            WorkTarget::PullRequest(pr) => pr.owner,
            WorkTarget::Issue(issue) => issue.owner,
        }
    }

    pub open spec fn repo_string(self) -> String {
        match self {
            WorkTarget::PullRequest(pr) => pr.repo,
            WorkTarget::Issue(issue) => issue.repo,
        }
    }

    pub open spec fn number_value(self) -> u64 {
        match self {
            WorkTarget::PullRequest(pr) => pr.number,
            WorkTarget::Issue(issue) => issue.number,
        }
    }

    pub open spec fn html_url_string(self) -> String {
        match self {
            WorkTarget::PullRequest(pr) => pr.html_url,
            WorkTarget::Issue(issue) => issue.html_url,
        }
    }

    pub open spec fn clone_url_string(self) -> String {
        match self {
            WorkTarget::PullRequest(pr) => pr.clone_url,
            WorkTarget::Issue(issue) => issue.clone_url,
        }
    }

    /// The address segment under which GitHub lists targets of this kind.
    pub open spec fn kind_text(self) -> Seq<char> {
        match self {
            WorkTarget::PullRequest(_) => "pulls"@,
            WorkTarget::Issue(_) => "issues"@,
        }
    }

    /// What to fetch: the head of the pull request, or the default branch.
    pub open spec fn fetch_ref_text(self) -> Seq<char> {
        match self {
            WorkTarget::PullRequest(pr) => "pull/"@ + numeral::decimal(pr.number as nat)
                + "/head"@,
            WorkTarget::Issue(issue) => issue.default_branch@,
        }
    }

    pub fn owner(&self) -> (r: &str)
        ensures
            r@ == self.owner_string()@,
    {
        match self {
            WorkTarget::PullRequest(pr) => pr.owner.as_str(),
            WorkTarget::Issue(issue) => issue.owner.as_str(),
        }
    }

    pub fn repo(&self) -> (r: &str)
        ensures
            r@ == self.repo_string()@,
    {
        match self {
            WorkTarget::PullRequest(pr) => pr.repo.as_str(),
            WorkTarget::Issue(issue) => issue.repo.as_str(),
        }
    }

    pub fn number(&self) -> (r: u64)
        ensures
            r == self.number_value(),
    {
        match self {
            WorkTarget::PullRequest(pr) => pr.number,
            WorkTarget::Issue(issue) => issue.number,
        }
    }

    pub fn html_url(&self) -> (r: &str)
        ensures
            r@ == self.html_url_string()@,
    {
        match self {
            WorkTarget::PullRequest(pr) => pr.html_url.as_str(),
            WorkTarget::Issue(issue) => issue.html_url.as_str(),
        }
    }

    pub fn clone_url(&self) -> (r: &str)
        ensures
            r@ == self.clone_url_string()@,
    {
        match self {
            WorkTarget::PullRequest(pr) => pr.clone_url.as_str(),
            WorkTarget::Issue(issue) => issue.clone_url.as_str(),
        }
    }

    pub fn repo_key(&self) -> (r: String)
        ensures
            r@ == self.owner_string()@ + "/"@ + self.repo_string()@,
    {
        text::cat3(self.owner(), "/", self.repo())
    }

    pub fn kind(&self) -> (r: &'static str)
        ensures
            r@ == self.kind_text(),
    {
        match self {
            WorkTarget::PullRequest(_) => "pulls",
            WorkTarget::Issue(_) => "issues",
        }
    }

    pub fn fetch_ref(&self) -> (r: String)
        ensures
            r@ == self.fetch_ref_text(),
    {
        match self {
            WorkTarget::PullRequest(pr) => {
                text::cat3("pull/", numeral::to_decimal(pr.number).as_str(), "/head")
            },
            WorkTarget::Issue(issue) => issue.default_branch.clone(),
        }
    }
}

#[derive(Debug, Eq, PartialEq)]
pub struct CommentMention {
    pub author: String,
    /// The author's numeric user ID, which outlives a change of login.
    pub author_id: u64,
    pub body: String,
    pub api_url: String,
    pub html_url: String,
    pub target: WorkTarget,
}

impl Clone for CommentMention {
    fn clone(&self) -> (r: Self)
        ensures
            r == *self,
    {
        CommentMention {
            author: self.author.clone(),
            author_id: self.author_id,
            body: self.body.clone(),
            api_url: self.api_url.clone(),
            html_url: self.html_url.clone(),
            target: self.target.clone(),
        }
    }
}

#[derive(Clone, Copy, Debug, Eq, PartialEq)]
pub enum ReviewState {
    Pending,
    Handled,
}

// ---------------------------------------------------------------------------
// Trusted accounts
// ---------------------------------------------------------------------------
/// GitHub's immutable numeric user ID, which is never zero.
#[derive(Clone, Copy, Debug, Eq, Hash, PartialEq)]
pub struct GitHubUserId {
    value: u64,
}

impl GitHubUserId {
    pub closed spec fn number(self) -> u64 {
        self.value
    }

    #[verifier::type_invariant]
    spec fn not_zero(self) -> bool {
        self.value != 0
    }

    /// Zero is no user's ID.
    pub fn new(value: u64) -> (r: Option<GitHubUserId>)
        ensures
            match r {
                Some(id) => value != 0 && id.number() == value,
                None => value == 0,
            },
    {
        if value == 0 {
            None
        } else {
            Some(GitHubUserId { value })
        }
    }

    pub fn get(self) -> (r: u64)
        ensures
            r == self.number(),
            r != 0,
    {
        proof {
            use_type_invariant(&self);
        }
        self.value
    }
}

#[derive(Debug, Eq, PartialEq)]
pub struct TrustedAccount {
    pub login: String,
    pub id: GitHubUserId,
}

impl Clone for TrustedAccount {
    fn clone(&self) -> (r: Self)
        ensures
            r == *self,
    {
        TrustedAccount { login: self.login.clone(), id: self.id }
    }
}

/// The numeric user IDs of a list of accounts.
pub open spec fn ids_of(accounts: Seq<TrustedAccount>) -> Set<u64> {
    Set::new(
        |id: u64|
            exists|i: int| 0 <= i < accounts.len() && (#[trigger] accounts[i]).id.number() == id,
    )
}

/// Whether one of the accounts has the ID.
pub fn holds_id(accounts: &Vec<TrustedAccount>, id: u64) -> (r: bool)
    ensures
        r == ids_of(accounts@).contains(id),
{
    let mut i: usize = 0;
    while i < accounts.len()
        invariant
            i <= accounts@.len(),
            forall|k: int| 0 <= k < i ==> (#[trigger] accounts@[k]).id.number() != id,
        decreases accounts@.len() - i,
    {
        if accounts[i].id.get() == id {
            assert(accounts@[i as int].id.number() == id);
            return true;
        }
        i = i + 1;
    }
    false
}

pub fn copied_accounts(accounts: &Vec<TrustedAccount>) -> (r: Vec<TrustedAccount>)
    ensures
        r@ == accounts@,
{
    let mut r: Vec<TrustedAccount> = Vec::new();
    let mut i: usize = 0;
    while i < accounts.len()
        invariant
            i <= accounts@.len(),
            r@ == accounts@.take(i as int),
        decreases accounts@.len() - i,
    {
        r.push(accounts[i].clone());
        assert(accounts@.take(i + 1) =~= accounts@.take(i as int).push(accounts@[i as int]));
        i = i + 1;
    }
    assert(accounts@.take(accounts@.len() as int) =~= accounts@);
    r
}

pub fn copied_repos(repos: &Vec<RepoSlug>) -> (r: Vec<RepoSlug>)
    ensures
        r@ == repos@,
{
    let mut r: Vec<RepoSlug> = Vec::new();
    let mut i: usize = 0;
    while i < repos.len()
        invariant
            i <= repos@.len(),
            r@ == repos@.take(i as int),
        decreases repos@.len() - i,
    {
        r.push(repos[i].clone());
        assert(repos@.take(i + 1) =~= repos@.take(i as int).push(repos@[i as int]));
        i = i + 1;
    }
    assert(repos@.take(repos@.len() as int) =~= repos@);
    r
}

/// An open pull request that was found by its author, wherever on GitHub it is.
#[derive(Debug, Eq, PartialEq)]
pub struct FoundPullRequest {
    pub pr: PullRequest,
    /// Whether the repository that it would be merged into is private.
    pub base_private: bool,
}

// ---------------------------------------------------------------------------
// Mentions
// ---------------------------------------------------------------------------
#[derive(Debug, Eq, PartialEq)]
pub struct MentionRequest {
    pub raw_body: String,
    pub cleaned_text: String,
}

impl Clone for MentionRequest {
    fn clone(&self) -> (r: Self)
        ensures
            r == *self,
    {
        MentionRequest { raw_body: self.raw_body.clone(), cleaned_text: self.cleaned_text.clone() }
    }
}

/// The characters of a GitHub login.
pub open spec fn login_char(c: char) -> bool {
    text::is_ascii_alphanumeric(c) || c == '-'
}

/// No login character touches `start..end` on the left or on the right.
pub open spec fn stands_alone(body: Seq<char>, start: int, end: int) -> bool {
    &&& start == 0 || !login_char(body[start - 1])
    &&& end == body.len() || !login_char(body[end])
}

/// The text by which the bot is mentioned, in small letters.
pub open spec fn mention_needle(bot_login: Seq<char>) -> Seq<char> {
    "@"@ + text::lowered(text::trimmed(bot_login))
}

/// Where `body` mentions `needle` from position `from` on, in any case of
/// letters. The candidates are taken left to right without overlap; those that
/// touch a login character are no mention.
pub open spec fn mention_starts(body: Seq<char>, needle: Seq<char>, from: int) -> Seq<int>
    decreases body.len() - from,
    via mention_starts_decreases
{
    match text::find_from(text::lowered(body), needle, from) {
        Some(at) if needle.len() > 0 => {
            let end = at + needle.len();
            let rest = mention_starts(body, needle, end);
            if stands_alone(body, at, end) {
                seq![at] + rest
            } else {
                rest
            }
        },
        _ => Seq::empty(),
    }
}

#[via_fn]
proof fn mention_starts_decreases(body: Seq<char>, needle: Seq<char>, from: int) {
    if from >= 0 {
        text::lemma_find_from(text::lowered(body), needle, from);
    }
}

/// `body` from position `from` on, without the `width` characters at each of
/// `starts`.
pub open spec fn cut_out(body: Seq<char>, starts: Seq<int>, width: int, from: int) -> Seq<char>
    decreases starts.len(),
{
    if starts.len() == 0 {
        body.skip(from)
    } else {
        body.subrange(from, starts[0]) + cut_out(
            body,
            starts.drop_first(),
            width,
            starts[0] + width,
        )
    }
}

/// The body without the mentions of the bot; `None` where it is not mentioned.
pub open spec fn without_mentions(body: Seq<char>, bot_login: Seq<char>) -> Option<Seq<char>> {
    let needle = mention_needle(bot_login);
    let starts = mention_starts(body, needle, 0);
    if text::trimmed(bot_login).len() == 0 || starts.len() == 0 {
        None
    } else {
        Some(cut_out(body, starts, needle.len() as int, 0))
    }
}

/// Whether `body` mentions the bot.
pub open spec fn mentions_bot(body: Seq<char>, bot_login: Seq<char>) -> bool {
    without_mentions(body, bot_login) is Some
}

proof fn lemma_starts_ignore_case(body: Seq<char>, needle: Seq<char>, from: int)
    requires
        0 <= from,
    ensures
        mention_starts(text::lowered(body), needle, from) == mention_starts(body, needle, from),
    decreases body.len() - from,
{
    let low = text::lowered(body);
    text::lemma_lowered_idempotent(body);
    text::lemma_find_from(low, needle, from);
    if let Some(at) = text::find_from(low, needle, from) {
        if needle.len() > 0 {
            lemma_starts_ignore_case(body, needle, at + needle.len());
            assert(stands_alone(low, at, at + needle.len()) == stands_alone(
                body,
                at,
                at + needle.len(),
            ));
        }
    }
}

/// Neither the case of letters in a comment nor that in the bot's login decides
/// where the bot is mentioned.
pub proof fn law_mentions_ignore_case(body: Seq<char>, bot_login: Seq<char>)
    ensures
        mention_needle(text::lowered(bot_login)) == mention_needle(bot_login),
        mention_starts(text::lowered(body), mention_needle(bot_login), 0) == mention_starts(
            body,
            mention_needle(bot_login),
            0,
        ),
        mentions_bot(text::lowered(body), text::lowered(bot_login)) == mentions_bot(
            body,
            bot_login,
        ),
{
    text::lemma_trim_lowered(bot_login);
    text::lemma_lowered_idempotent(text::trimmed(bot_login));
    lemma_starts_ignore_case(body, mention_needle(bot_login), 0);
}

fn is_login_char(c: char) -> (r: bool)
    ensures
        r == login_char(c),
{
    text::ascii_alphanumeric(c) || c == '-'
}

fn is_mention_boundary_before(body: &Vec<char>, start: usize) -> (r: bool)
    requires
        start <= body@.len(),
    ensures
        r == (start == 0 || !login_char(body@[start - 1])),
{
    start == 0 || !is_login_char(body[start - 1])
}

fn is_mention_boundary_after(body: &Vec<char>, end: usize) -> (r: bool)
    requires
        end <= body@.len(),
    ensures
        r == (end == body@.len() || !login_char(body@[end as int])),
{
    end == body.len() || !is_login_char(body[end])
}

proof fn lemma_cut_out_push(body: Seq<char>, starts: Seq<int>, width: int, from: int)
    requires
        starts.len() > 0,
    ensures
        cut_out(body, starts, width, from) == body.subrange(from, starts[0]) + cut_out(
            body,
            starts.drop_first(),
            width,
            starts[0] + width,
        ),
{
}

fn remove_bot_mentions(body: &str, bot_login: &str) -> (r: Option<String>)
    ensures
        match r {
            Some(cleaned) => without_mentions(body@, bot_login@) == Some(cleaned@),
            None => without_mentions(body@, bot_login@) is None,
        },
{
    let bot_login = text::trim(bot_login);
    if bot_login.as_str().is_empty() {
        return None;
    }
    let needle_text = text::cat2("@", text::to_lower(bot_login.as_str()).as_str());
    let needle = text::to_chars(needle_text.as_str());
    let chars = text::to_chars(body);
    let lower = text::to_chars(text::to_lower(body).as_str());
    let n: usize = chars.len();
    let width: usize = needle.len();
    proof {
        reveal_strlit("@");
        assert(width >= 1);
    }
    let mut cleaned: String = String::new();
    let mut search_from: usize = 0;
    let mut kept_until: usize = 0;
    let mut found: bool = false;
    let ghost all = mention_starts(body@, needle@, 0);
    let ghost goal = cut_out(body@, all, width as int, 0);
    let ghost mut rest: Seq<int> = all;
    assert(cleaned@ + cut_out(body@, rest, width as int, 0) =~= goal);
    loop
        invariant
            chars@ == body@,
            lower@ == text::lowered(body@),
            n == chars@.len(),
            n == lower@.len(),
            width == needle@.len(),
            width >= 1,
            kept_until <= search_from <= n,
            rest == mention_starts(body@, needle@, search_from as int),
            all == mention_starts(body@, needle@, 0),
            goal == cut_out(body@, all, width as int, 0),
            cleaned@ + cut_out(body@, rest, width as int, kept_until as int) == goal,
            found == (rest.len() < all.len()),
            rest.len() <= all.len(),
        ensures
            rest.len() == 0,
            kept_until <= n,
            cleaned@ + cut_out(body@, rest, width as int, kept_until as int) == goal,
            found == (rest.len() < all.len()),
        decreases n - search_from,
    {
        let ghost tail = rest;
        match text::find(&lower, &needle, search_from) {
            None => {
                break;
            },
            Some(start) => {
                let end: usize = start + width;
                search_from = end;
                let alone = is_mention_boundary_before(&chars, start) && is_mention_boundary_after(
                    &chars,
                    end,
                );
                proof {
                    rest = mention_starts(body@, needle@, end as int);
                }
                if !alone {
                    continue;
                }
                assert(tail =~= seq![start as int] + rest);
                assert(tail.drop_first() =~= rest);
                let kept = text::from_chars(&chars, kept_until, start);
                let ghost before = cleaned@;
                cleaned.append(kept.as_str());
                proof {
                    lemma_cut_out_push(body@, tail, width as int, kept_until as int);
                    let part = body@.subrange(kept_until as int, start as int);
                    let more = cut_out(body@, rest, width as int, end as int);
                    assert(before + (part + more) =~= (before + part) + more);
                }
                kept_until = end;
                found = true;
            },
        }
    }
    if !found {
        return None;
    }
    let tail_text = text::from_chars(&chars, kept_until, n);
    assert(body@.subrange(kept_until as int, n as int) =~= body@.skip(kept_until as int));
    cleaned.append(tail_text.as_str());
    Some(cleaned)
}

/// What an operator asks for: what follows the trigger and white space, where
/// it is not blank.
pub open spec fn operator_request_in(cleaned_text: Seq<char>) -> Option<Seq<char>> {
    let rest = cleaned_text.skip(OPERATOR_TRIGGER@.len() as int);
    if text::has_prefix(cleaned_text, OPERATOR_TRIGGER@) && rest.len() > 0 && text::is_white(
        rest[0],
    ) && text::trimmed(rest).len() > 0 {
        Some(text::trimmed(rest))
    } else {
        None
    }
}

impl MentionRequest {
    /// The request that a comment makes of the bot; `None` where the comment does
    /// not mention it.
    pub fn parse(body: &str, bot_login: &str) -> (r: Result<Option<MentionRequest>, DomainError>)
        ensures
            r is Ok,
            match r->Ok_0 {
                Some(request) => {
                    &&& request.raw_body@ == body@
                    &&& without_mentions(body@, bot_login@) is Some
                    &&& request.cleaned_text@ == text::trimmed(
                        without_mentions(body@, bot_login@)->0,
                    )
                },
                None => without_mentions(body@, bot_login@) is None,
            },
    {
        match remove_bot_mentions(body, bot_login) {
            None => Ok(None),
            Some(cleaned) => Ok(
                Some(
                    MentionRequest {
                        raw_body: body.to_owned(),
                        cleaned_text: text::trim(cleaned.as_str()),
                    },
                ),
            ),
        }
    }

    pub fn operator_text(&self) -> (r: Option<String>)
        ensures
            text::opt_view(r) == operator_request_in(self.cleaned_text@),
    {
        let rest = text::strip_prefix(self.cleaned_text.as_str(), OPERATOR_TRIGGER)?;
        let chars = text::to_chars(rest.as_str());
        if chars.len() == 0 || !text::white(chars[0]) {
            return None;
        }
        let request = text::trim(rest.as_str());
        if request.as_str().is_empty() {
            None
        } else {
            Some(request)
        }
    }
}

// ---------------------------------------------------------------------------
// Prompts
// ---------------------------------------------------------------------------
#[derive(Debug, Eq, PartialEq)]
pub struct CodexPromptTemplates {
    pub mention: String,
    pub pull_request_opened: String,
    pub operator_mention: String,
}

impl Clone for CodexPromptTemplates {
    fn clone(&self) -> (r: Self)
        ensures
            r == *self,
    {
        CodexPromptTemplates {
            mention: self.mention.clone(),
            pull_request_opened: self.pull_request_opened.clone(),
            operator_mention: self.operator_mention.clone(),
        }
    }
}

/// Why a template cannot be filled in.
pub enum TemplateFault {
    Unclosed,
    Unknown(Seq<char>),
}

/// The value of the first entry named `name`.
pub open spec fn lookup(values: Seq<(Seq<char>, Seq<char>)>, name: Seq<char>) -> Option<Seq<char>>
    decreases values.len(),
{
    if values.len() == 0 {
        None
    } else if values[0].0 == name {
        Some(values[0].1)
    } else {
        lookup(values.drop_first(), name)
    }
}

pub open spec fn open_mark() -> Seq<char> {
    seq!['{', '{']
}

pub open spec fn close_mark() -> Seq<char> {
    seq!['}', '}']
}

/// The template with each placeholder, a name between double braces, replaced
/// by the value of that name. Values are put in as they are: a brace in a value
/// opens nothing.
pub open spec fn rendered(template: Seq<char>, values: Seq<(Seq<char>, Seq<char>)>) -> Result<
    Seq<char>,
    TemplateFault,
>
    decreases template.len(),
    via rendered_decreases
{
    match text::find_from(template, open_mark(), 0) {
        None => Ok(template),
        Some(start) => {
            let inside = template.skip(start + 2);
            match text::find_from(inside, close_mark(), 0) {
                None => Err(TemplateFault::Unclosed),
                Some(end) => {
                    let name = text::trimmed(inside.take(end));
                    match lookup(values, name) {
                        None => Err(TemplateFault::Unknown(name)),
                        Some(value) => match rendered(inside.skip(end + 2), values) {
                            Ok(rest) => Ok(template.take(start) + value + rest),
                            Err(fault) => Err(fault),
                        },
                    }
                },
            }
        },
    }
}

#[via_fn]
proof fn rendered_decreases(template: Seq<char>, values: Seq<(Seq<char>, Seq<char>)>) {
    text::lemma_find_from(template, open_mark(), 0);
    if let Some(start) = text::find_from(template, open_mark(), 0) {
        text::lemma_find_from(template.skip(start + 2), close_mark(), 0);
    }
}

/// A template without placeholders is its own rendering.
pub proof fn law_plain_template_is_kept(template: Seq<char>, values: Seq<(Seq<char>, Seq<char>)>)
    requires
        !text::has_part(template, open_mark()),
    ensures
        rendered(template, values) == Ok::<Seq<char>, TemplateFault>(template),
{
    text::lemma_find_from(template, open_mark(), 0);
}

/// A template that is one placeholder comes to the value of its name, whatever
/// that value holds.
pub proof fn law_values_are_put_in_verbatim(
    name: Seq<char>,
    values: Seq<(Seq<char>, Seq<char>)>,
)
    requires
        !name.contains('}'),
        lookup(values, text::trimmed(name)) is Some,
    ensures
        rendered(open_mark() + name + close_mark(), values) == Ok::<Seq<char>, TemplateFault>(
            lookup(values, text::trimmed(name))->0,
        ),
{
    let template = open_mark() + name + close_mark();
    let inside = template.skip(2);
    let at = name.len() as int;
    assert(inside =~= name + close_mark());
    assert(template.subrange(0, 2) =~= open_mark());
    assert(text::occurs_at(template, open_mark(), 0));
    assert(inside.subrange(at, at + 2) =~= close_mark());
    assert(text::occurs_at(inside, close_mark(), at));
    text::lemma_find_from(template, open_mark(), 0);
    text::lemma_find_from(inside, close_mark(), 0);
    let end = text::find_from(inside, close_mark(), 0)->0;
    if end < at {
        assert(inside.subrange(end, end + 2)[0] == '}');
        assert(name[end] == '}');
    }
    assert(inside.take(end) =~= name);
    let rest = inside.skip(end + 2);
    assert(rest =~= Seq::<char>::empty());
    text::lemma_find_from(rest, open_mark(), 0);
    assert(rendered(rest, values) == Ok::<Seq<char>, TemplateFault>(rest));
    let value = lookup(values, text::trimmed(name))->0;
    assert(template.take(0) + value + rest =~= value);
}

/// The views of a list of named values.
pub open spec fn value_views(values: Seq<(&str, &str)>) -> Seq<(Seq<char>, Seq<char>)> {
    values.map_values(|entry: (&str, &str)| (entry.0@, entry.1@))
}

fn lookup_value<'a>(values: &Vec<(&'a str, &'a str)>, name: &str) -> (r: Option<&'a str>)
    ensures
        match r {
            Some(value) => lookup(value_views(values@), name@) == Some(value@),
            None => lookup(value_views(values@), name@) is None,
        },
{
    let mut i: usize = 0;
    assert(value_views(values@).skip(0) =~= value_views(values@));
    while i < values.len()
        invariant
            i <= values@.len(),
            lookup(value_views(values@), name@) == lookup(
                value_views(values@).skip(i as int),
                name@,
            ),
        decreases values@.len() - i,
    {
        let entry = values[i];
        if text::same(entry.0, name) {
            return Some(entry.1);
        }
        assert(value_views(values@).skip(i as int).drop_first() =~= value_views(values@).skip(
            i + 1,
        ));
        i = i + 1;
    }
    None
}

fn render_template(template: &str, values: &Vec<(&str, &str)>) -> (r: Result<String, DomainError>)
    ensures
        match rendered(template@, value_views(values@)) {
            Ok(t) => r is Ok && r->Ok_0@ == t,
            Err(TemplateFault::Unclosed) => r matches Err(DomainError::UnclosedPlaceholder),
            Err(TemplateFault::Unknown(n)) => {
                r matches Err(DomainError::UnknownPlaceholder { name }) && name@ == n
            },
        },
{
    let chars = text::to_chars(template);
    let open: Vec<char> = vec!['{', '{'];
    let close: Vec<char> = vec!['}', '}'];
    let n: usize = chars.len();
    let ghost named = value_views(values@);
    let ghost goal = rendered(template@, named);
    assert(open@ =~= open_mark());
    assert(close@ =~= close_mark());
    let mut result: String = String::new();
    let mut from: usize = 0;
    assert(chars@.skip(0) =~= template@);
    proof {
        if goal is Ok {
            assert(result@ + goal->Ok_0 =~= goal->Ok_0);
        }
    }
    loop
        invariant
            chars@ == template@,
            n == chars@.len(),
            from <= n,
            open@ == open_mark(),
            close@ == close_mark(),
            named == value_views(values@),
            goal == rendered(template@, named),
            match rendered(chars@.skip(from as int), named) {
                Ok(rest) => goal == Ok::<Seq<char>, TemplateFault>(result@ + rest),
                Err(fault) => goal == Err::<Seq<char>, TemplateFault>(fault),
            },
        decreases n - from,
    {
        let ghost rest = chars@.skip(from as int);
        proof {
            lemma_find_skip(chars@, open_mark(), from as int);
        }
        match text::find(&chars, &open, from) {
            None => {
                let tail = text::from_chars(&chars, from, n);
                assert(chars@.subrange(from as int, n as int) =~= rest);
                result.append(tail.as_str());
                return Ok(result);
            },
            Some(start) => {
                let inside_at: usize = start + 2;
                let ghost inside = rest.skip(start - from + 2);
                proof {
                    assert(inside =~= chars@.skip(inside_at as int));
                    lemma_find_skip(chars@, close_mark(), inside_at as int);
                }
                match text::find(&chars, &close, inside_at) {
                    None => {
                        return Err(DomainError::UnclosedPlaceholder);
                    },
                    Some(end) => {
                        let raw_name = text::from_chars(&chars, inside_at, end);
                        assert(chars@.subrange(inside_at as int, end as int) =~= inside.take(
                            end - inside_at,
                        ));
                        let name = text::trim(raw_name.as_str());
                        match lookup_value(values, name.as_str()) {
                            None => {
                                return Err(DomainError::UnknownPlaceholder { name });
                            },
                            Some(value) => {
                                let before = text::from_chars(&chars, from, start);
                                let ghost so_far = result@;
                                result.append(before.as_str());
                                result.append(value);
                                proof {
                                    assert(chars@.subrange(from as int, start as int)
                                        =~= rest.take(start - from));
                                    assert(inside.skip(end - inside_at + 2) =~= chars@.skip(
                                        end + 2,
                                    ));
                                    let more = rendered(chars@.skip(end + 2), named);
                                    if more is Ok {
                                        assert(so_far + (rest.take(start - from) + value@
                                            + more->Ok_0) =~= result@ + more->Ok_0);
                                    }
                                }
                                from = end + 2;
                            },
                        }
                    },
                }
            },
        }
    }
}

proof fn lemma_find_skip(hay: Seq<char>, needle: Seq<char>, from: int)
    requires
        0 <= from <= hay.len(),
    ensures
        match (text::find_from(hay.skip(from), needle, 0), text::find_from(hay, needle, from)) {
            (Some(a), Some(b)) => b == a + from,
            (None, None) => true,
            _ => false,
        },
{
    text::lemma_find_from(hay.skip(from), needle, 0);
    text::lemma_find_from(hay, needle, from);
    assert forall|k: int| 0 <= k implies (#[trigger] text::occurs_at(hay.skip(from), needle, k)
        == text::occurs_at(hay, needle, k + from)) by {
        if k + needle.len() <= hay.len() - from {
            assert(hay.skip(from).subrange(k, k + needle.len()) =~= hay.subrange(
                k + from,
                k + from + needle.len(),
            ));
        }
    }
    match text::find_from(hay, needle, from) {
        Some(b) => {
            assert(text::occurs_at(hay.skip(from), needle, b - from));
        },
        None => {},
    }
    match text::find_from(hay.skip(from), needle, 0) {
        Some(a) => {
            assert(text::occurs_at(hay, needle, a + from));
        },
        None => {},
    }
}

// ---------------------------------------------------------------------------
// Tasks
// ---------------------------------------------------------------------------
#[derive(Debug, Eq, PartialEq)]
pub enum CodexTaskOrigin {
    Mention { mention_url: String, raw_body: String, cleaned_text: String },
    OperatorMention {
        mention_url: String,
        raw_body: String,
        request_text: String,
        trigger_author: String,
        bot_login: String,
    },
    PullRequestOpened { author: String },
}

impl Clone for CodexTaskOrigin {
    fn clone(&self) -> (r: Self)
        ensures
            r == *self,
    {
        match self {
            CodexTaskOrigin::Mention { mention_url, raw_body, cleaned_text } => {
                CodexTaskOrigin::Mention {
                    mention_url: mention_url.clone(),
                    raw_body: raw_body.clone(),
                    cleaned_text: cleaned_text.clone(),
                }
            },
            CodexTaskOrigin::OperatorMention {
                mention_url,
                raw_body,
                request_text,
                trigger_author,
                bot_login,
            } => {
                CodexTaskOrigin::OperatorMention {
                    mention_url: mention_url.clone(),
                    raw_body: raw_body.clone(),
                    request_text: request_text.clone(),
                    trigger_author: trigger_author.clone(),
                    bot_login: bot_login.clone(),
                }
            },
            CodexTaskOrigin::PullRequestOpened { author } => {
                CodexTaskOrigin::PullRequestOpened { author: author.clone() }
            },
        }
    }
}

/// A task's origin with its texts taken by their characters.
pub enum OriginView {
    Mention { mention_url: Seq<char>, raw_body: Seq<char>, cleaned_text: Seq<char> },
    OperatorMention {
        mention_url: Seq<char>,
        raw_body: Seq<char>,
        request_text: Seq<char>,
        trigger_author: Seq<char>,
        bot_login: Seq<char>,
    },
    PullRequestOpened { author: Seq<char> },
}

impl View for CodexTaskOrigin {
    type V = OriginView;

    open spec fn view(&self) -> OriginView {
        match *self {
            CodexTaskOrigin::Mention { mention_url, raw_body, cleaned_text } => {
                OriginView::Mention {
                    mention_url: mention_url@,
                    raw_body: raw_body@,
                    cleaned_text: cleaned_text@,
                }
            },
            CodexTaskOrigin::OperatorMention {
                mention_url,
                raw_body,
                request_text,
                trigger_author,
                bot_login,
            } => {
                OriginView::OperatorMention {
                    mention_url: mention_url@,
                    raw_body: raw_body@,
                    request_text: request_text@,
                    trigger_author: trigger_author@,
                    bot_login: bot_login@,
                }
            },
            CodexTaskOrigin::PullRequestOpened { author } => {
                OriginView::PullRequestOpened { author: author@ }
            },
        }
    }
}

impl OriginView {
    pub open spec fn kind_text(self) -> Seq<char> {
        match self {
            OriginView::Mention { .. } => "mention"@,
            OriginView::OperatorMention { .. } => "operator_mention"@,
            OriginView::PullRequestOpened { .. } => "pull_request_opened"@,
        }
    }
}

impl CodexTaskOrigin {
    pub fn task_kind(&self) -> (r: &'static str)
        ensures
            r@ == self@.kind_text(),
    {
        match self {
            CodexTaskOrigin::Mention { .. } => "mention",
            CodexTaskOrigin::OperatorMention { .. } => "operator_mention",
            CodexTaskOrigin::PullRequestOpened { .. } => "pull_request_opened",
        }
    }
}

#[derive(Debug, Eq, PartialEq)]
pub struct CodexTask {
    pub pr_url: String,
    pub origin: CodexTaskOrigin,
}

impl Clone for CodexTask {
    fn clone(&self) -> (r: Self)
        ensures
            r == *self,
    {
        CodexTask { pr_url: self.pr_url.clone(), origin: self.origin.clone() }
    }
}

/// A task with its texts taken by their characters.
pub struct TaskView {
    pub pr_url: Seq<char>,
    pub origin: OriginView,
}

impl View for CodexTask {
    type V = TaskView;

    open spec fn view(&self) -> TaskView {
        TaskView { pr_url: self.pr_url@, origin: self.origin@ }
    }
}

impl TaskView {
    /// The address that set the task off: the comment, or the pull request.
    pub open spec fn trigger(self) -> Seq<char> {
        match self.origin {
            OriginView::Mention { mention_url, .. } => mention_url,
            OriginView::OperatorMention { mention_url, .. } => mention_url,
            OriginView::PullRequestOpened { .. } => self.pr_url,
        }
    }

    /// The names that the task's template may use, with their values.
    pub open spec fn placeholders(self) -> Seq<(Seq<char>, Seq<char>)> {
        match self.origin {
            OriginView::Mention { mention_url, raw_body, cleaned_text } => seq![
                ("mention_url"@, mention_url),
                ("pr_url"@, self.pr_url),
                ("target_url"@, self.pr_url),
                ("raw_body"@, raw_body),
                ("cleaned_text"@, cleaned_text),
            ],
            OriginView::PullRequestOpened { author } => seq![
                ("pr_url"@, self.pr_url),
                ("author"@, author),
            ],
            OriginView::OperatorMention {
                mention_url,
                raw_body,
                request_text,
                trigger_author,
                bot_login,
            } => seq![
                ("bot_login"@, bot_login),
                ("mention_url"@, mention_url),
                ("operator_trigger"@, OPERATOR_TRIGGER@),
                ("pr_url"@, self.pr_url),
                ("target_url"@, self.pr_url),
                ("raw_body"@, raw_body),
                ("request_text"@, request_text),
                ("trigger_author"@, trigger_author),
            ],
        }
    }

    /// The template for tasks of this origin.
    pub open spec fn template(self, templates: CodexPromptTemplates) -> Seq<char> {
        match self.origin {
            OriginView::Mention { .. } => templates.mention@,
            OriginView::PullRequestOpened { .. } => templates.pull_request_opened@,
            OriginView::OperatorMention { .. } => templates.operator_mention@,
        }
    }
}

impl CodexTask {
    /// The task's template, filled in.
    pub fn prompt(&self, templates: &CodexPromptTemplates) -> (r: Result<String, DomainError>)
        ensures
            match rendered(self@.template(*templates), self@.placeholders()) {
                Ok(t) => r is Ok && r->Ok_0@ == t,
                Err(TemplateFault::Unclosed) => r matches Err(DomainError::UnclosedPlaceholder),
                Err(TemplateFault::Unknown(n)) => {
                    r matches Err(DomainError::UnknownPlaceholder { name }) && name@ == n
                },
            },
    {
        let pr_url: &str = self.pr_url.as_str();
        match &self.origin {
            CodexTaskOrigin::Mention { mention_url, raw_body, cleaned_text } => {
                let values: Vec<(&str, &str)> = vec![
                    ("mention_url", mention_url.as_str()),
                    ("pr_url", pr_url),
                    ("target_url", pr_url),
                    ("raw_body", raw_body.as_str()),
                    ("cleaned_text", cleaned_text.as_str()),
                ];
                assert(value_views(values@) =~= self@.placeholders());
                render_template(templates.mention.as_str(), &values)
            },
            CodexTaskOrigin::PullRequestOpened { author } => {
                let values: Vec<(&str, &str)> = vec![
                    ("pr_url", pr_url),
                    ("author", author.as_str()),
                ];
                assert(value_views(values@) =~= self@.placeholders());
                render_template(templates.pull_request_opened.as_str(), &values)
            },
            CodexTaskOrigin::OperatorMention {
                mention_url,
                raw_body,
                request_text,
                trigger_author,
                bot_login,
            } => {
                let values: Vec<(&str, &str)> = vec![
                    ("bot_login", bot_login.as_str()),
                    ("mention_url", mention_url.as_str()),
                    ("operator_trigger", OPERATOR_TRIGGER),
                    ("pr_url", pr_url),
                    ("target_url", pr_url),
                    ("raw_body", raw_body.as_str()),
                    ("request_text", request_text.as_str()),
                    ("trigger_author", trigger_author.as_str()),
                ];
                assert(value_views(values@) =~= self@.placeholders());
                render_template(templates.operator_mention.as_str(), &values)
            },
        }
    }

    pub fn trigger_url(&self) -> (r: &str)
        ensures
            r@ == self@.trigger(),
    {
        match &self.origin {
            CodexTaskOrigin::Mention { mention_url, .. } => mention_url.as_str(),
            CodexTaskOrigin::OperatorMention { mention_url, .. } => mention_url.as_str(),
            CodexTaskOrigin::PullRequestOpened { .. } => self.pr_url.as_str(),
        }
    }

    pub fn task_kind(&self) -> (r: &'static str)
        ensures
            r@ == self@.origin.kind_text(),
    {
        self.origin.task_kind()
    }
}

// ---------------------------------------------------------------------------
// What prompts hold
// ---------------------------------------------------------------------------
proof fn lemma_lookup_at(values: Seq<(Seq<char>, Seq<char>)>, name: Seq<char>, k: int)
    requires
        0 <= k < values.len(),
        values[k].0 == name,
        forall|j: int| 0 <= j < k ==> (#[trigger] values[j]).0 != name,
    ensures
        lookup(values, name) == Some(values[k].1),
    decreases k,
{
    if k > 0 {
        assert(values[0].0 != name);
        let rest = values.drop_first();
        assert forall|j: int| 0 <= j < k - 1 implies (#[trigger] rest[j]).0 != name by {
            assert(rest[j] == values[j + 1]);
        }
        assert(rest[k - 1] == values[k]);
        lemma_lookup_at(rest, name, k - 1);
    }
}

proof fn lemma_lookup_nowhere(values: Seq<(Seq<char>, Seq<char>)>, name: Seq<char>)
    requires
        forall|j: int| 0 <= j < values.len() ==> (#[trigger] values[j]).0 != name,
    ensures
        lookup(values, name) is None,
    decreases values.len(),
{
    if values.len() > 0 {
        assert(values[0].0 != name);
        let rest = values.drop_first();
        assert forall|j: int| 0 <= j < rest.len() implies (#[trigger] rest[j]).0 != name by {
            assert(rest[j] == values[j + 1]);
        }
        lemma_lookup_nowhere(rest, name);
    }
}

/// In the template for a mention each name comes to the part of the task that it
/// is named after: `target_url` and `pr_url` both to the address of the pull
/// request or issue, `mention_url` to that of the comment. No other name is known.
pub proof fn law_names_in_the_template_for_mentions(
    pr_url: Seq<char>,
    mention_url: Seq<char>,
    raw_body: Seq<char>,
    cleaned_text: Seq<char>,
)
    ensures
        ({
            let values = (TaskView {
                pr_url,
                origin: OriginView::Mention { mention_url, raw_body, cleaned_text },
            }).placeholders();
            &&& lookup(values, "target_url"@) == Some(pr_url)
            &&& lookup(values, "pr_url"@) == Some(pr_url)
            &&& lookup(values, "mention_url"@) == Some(mention_url)
            &&& lookup(values, "raw_body"@) == Some(raw_body)
            &&& lookup(values, "cleaned_text"@) == Some(cleaned_text)
            &&& forall|name: Seq<char>| #[trigger] lookup(values, name) is Some ==> {
                ||| name == "target_url"@
                ||| name == "pr_url"@
                ||| name == "mention_url"@
                ||| name == "raw_body"@
                ||| name == "cleaned_text"@
            }
        }),
{
    reveal_strlit("target_url");
    reveal_strlit("pr_url");
    reveal_strlit("mention_url");
    reveal_strlit("raw_body");
    reveal_strlit("cleaned_text");
    let values = (TaskView {
        pr_url,
        origin: OriginView::Mention { mention_url, raw_body, cleaned_text },
    }).placeholders();
    assert(values[0].0.len() == 11 && values[1].0.len() == 6 && values[2].0.len() == 10
        && values[3].0.len() == 8 && values[4].0.len() == 12);
    lemma_lookup_at(values, "mention_url"@, 0);
    lemma_lookup_at(values, "pr_url"@, 1);
    lemma_lookup_at(values, "target_url"@, 2);
    lemma_lookup_at(values, "raw_body"@, 3);
    lemma_lookup_at(values, "cleaned_text"@, 4);
    assert forall|name: Seq<char>| #[trigger] lookup(values, name) is Some implies {
        ||| name == "target_url"@
        ||| name == "pr_url"@
        ||| name == "mention_url"@
        ||| name == "raw_body"@
        ||| name == "cleaned_text"@
    } by {
        if forall|j: int| 0 <= j < values.len() ==> (#[trigger] values[j]).0 != name {
            lemma_lookup_nowhere(values, name);
        }
    }
}

/// In the template for an opened pull request `pr_url` comes to its address and
/// `author` to its author. No other name is known.
pub proof fn law_names_in_the_template_for_opened_pull_requests(
    pr_url: Seq<char>,
    author: Seq<char>,
)
    ensures
        ({
            let values = (TaskView {
                pr_url,
                origin: OriginView::PullRequestOpened { author },
            }).placeholders();
            &&& lookup(values, "pr_url"@) == Some(pr_url)
            &&& lookup(values, "author"@) == Some(author)
            &&& forall|name: Seq<char>|
                #[trigger] lookup(values, name) is Some ==> name == "pr_url"@ || name
                    == "author"@
        }),
{
    reveal_strlit("pr_url");
    reveal_strlit("author");
    let values = (TaskView { pr_url, origin: OriginView::PullRequestOpened { author } })
        .placeholders();
    assert("pr_url"@[0] == 'p' && "author"@[0] == 'a');
    lemma_lookup_at(values, "pr_url"@, 0);
    lemma_lookup_at(values, "author"@, 1);
    assert forall|name: Seq<char>| #[trigger] lookup(values, name) is Some implies name
        == "pr_url"@ || name == "author"@ by {
        if forall|j: int| 0 <= j < values.len() ==> (#[trigger] values[j]).0 != name {
            lemma_lookup_nowhere(values, name);
        }
    }
}

/// In the template for an operator's mention each name comes to the part of the
/// task that it is named after, and `operator_trigger` to `/operate`. No other
/// name is known.
pub proof fn law_names_in_the_template_for_operators(
    pr_url: Seq<char>,
    mention_url: Seq<char>,
    raw_body: Seq<char>,
    request_text: Seq<char>,
    trigger_author: Seq<char>,
    bot_login: Seq<char>,
)
    ensures
        ({
            let values = (TaskView {
                pr_url,
                origin: OriginView::OperatorMention {
                    mention_url,
                    raw_body,
                    request_text,
                    trigger_author,
                    bot_login,
                },
            }).placeholders();
            &&& lookup(values, "target_url"@) == Some(pr_url)
            &&& lookup(values, "pr_url"@) == Some(pr_url)
            &&& lookup(values, "mention_url"@) == Some(mention_url)
            &&& lookup(values, "raw_body"@) == Some(raw_body)
            &&& lookup(values, "request_text"@) == Some(request_text)
            &&& lookup(values, "trigger_author"@) == Some(trigger_author)
            &&& lookup(values, "bot_login"@) == Some(bot_login)
            &&& lookup(values, "operator_trigger"@) == Some("/operate"@)
            &&& forall|name: Seq<char>| #[trigger] lookup(values, name) is Some ==> {
                ||| name == "target_url"@
                ||| name == "pr_url"@
                ||| name == "mention_url"@
                ||| name == "raw_body"@
                ||| name == "request_text"@
                ||| name == "trigger_author"@
                ||| name == "bot_login"@
                ||| name == "operator_trigger"@
            }
        }),
{
    reveal_strlit("target_url");
    reveal_strlit("pr_url");
    reveal_strlit("mention_url");
    reveal_strlit("raw_body");
    reveal_strlit("request_text");
    reveal_strlit("trigger_author");
    reveal_strlit("bot_login");
    reveal_strlit("operator_trigger");
    let values = (TaskView {
        pr_url,
        origin: OriginView::OperatorMention {
            mention_url,
            raw_body,
            request_text,
            trigger_author,
            bot_login,
        },
    }).placeholders();
    assert(values[0].0.len() == 9 && values[1].0.len() == 11 && values[2].0.len() == 16
        && values[3].0.len() == 6 && values[4].0.len() == 10 && values[5].0.len() == 8
        && values[6].0.len() == 12 && values[7].0.len() == 14);
    lemma_lookup_at(values, "bot_login"@, 0);
    lemma_lookup_at(values, "mention_url"@, 1);
    lemma_lookup_at(values, "operator_trigger"@, 2);
    lemma_lookup_at(values, "pr_url"@, 3);
    lemma_lookup_at(values, "target_url"@, 4);
    lemma_lookup_at(values, "raw_body"@, 5);
    lemma_lookup_at(values, "request_text"@, 6);
    lemma_lookup_at(values, "trigger_author"@, 7);
    assert forall|name: Seq<char>| #[trigger] lookup(values, name) is Some implies {
        ||| name == "target_url"@
        ||| name == "pr_url"@
        ||| name == "mention_url"@
        ||| name == "raw_body"@
        ||| name == "request_text"@
        ||| name == "trigger_author"@
        ||| name == "bot_login"@
        ||| name == "operator_trigger"@
    } by {
        if forall|j: int| 0 <= j < values.len() ==> (#[trigger] values[j]).0 != name {
            lemma_lookup_nowhere(values, name);
        }
    }
}

/// Each kind of task has a template, a name and a trigger of its own: a mention,
/// the comment that makes it; an opened pull request, itself.
pub proof fn law_each_kind_of_task_has_its_template(
    pr_url: Seq<char>,
    mention: OriginView,
    operator: OriginView,
    opened: OriginView,
    templates: CodexPromptTemplates,
)
    requires
        mention is Mention,
        operator is OperatorMention,
        opened is PullRequestOpened,
    ensures
        (TaskView { pr_url, origin: mention }).template(templates) == templates.mention@,
        (TaskView { pr_url, origin: operator }).template(templates)
            == templates.operator_mention@,
        (TaskView { pr_url, origin: opened }).template(templates)
            == templates.pull_request_opened@,
        mention.kind_text() == "mention"@,
        operator.kind_text() == "operator_mention"@,
        opened.kind_text() == "pull_request_opened"@,
        (TaskView { pr_url, origin: mention }).trigger() == mention->Mention_mention_url,
        (TaskView { pr_url, origin: operator }).trigger()
            == operator->OperatorMention_mention_url,
        (TaskView { pr_url, origin: opened }).trigger() == pr_url,
{
}

/// A template is filled in from left to right: the text up to the first
/// placeholder stays as it is, the placeholder gives way to the value of its name,
/// white space around the name aside, and what follows is filled in likewise.
pub proof fn law_templates_are_filled_in_place(
    before: Seq<char>,
    name: Seq<char>,
    rest: Seq<char>,
    values: Seq<(Seq<char>, Seq<char>)>,
)
    requires
        !before.contains('{'),
        !name.contains('}'),
    ensures
        ({
            let all = rendered(before + seq!['{', '{'] + name + seq!['}', '}'] + rest, values);
            match lookup(values, text::trimmed(name)) {
                None => all == Err::<Seq<char>, TemplateFault>(
                    TemplateFault::Unknown(text::trimmed(name)),
                ),
                Some(value) => match rendered(rest, values) {
                    Ok(more) => all == Ok::<Seq<char>, TemplateFault>(before + value + more),
                    Err(fault) => all == Err::<Seq<char>, TemplateFault>(fault),
                },
            }
        }),
{
    let template = before + seq!['{', '{'] + name + seq!['}', '}'] + rest;
    let inside = name + seq!['}', '}'] + rest;
    let at = before.len() as int;
    assert(template =~= before + seq!['{', '{'] + inside);
    text::lemma_first_part(before, open_mark(), inside);
    text::lemma_first_part(name, close_mark(), rest);
    assert(template.skip(at + 2) =~= inside);
    assert(template.take(at) =~= before);
    assert(inside.take(name.len() as int) =~= name);
    assert(inside.skip(name.len() as int + 2) =~= rest);
    assert(text::find_from(template, open_mark(), 0) == Some(at));
}

/// A template whose placeholder is never closed cannot be filled in.
pub proof fn law_unclosed_placeholders_are_refused(
    before: Seq<char>,
    inside: Seq<char>,
    values: Seq<(Seq<char>, Seq<char>)>,
)
    requires
        !before.contains('{'),
        !inside.contains('}'),
    ensures
        rendered(before + seq!['{', '{'] + inside, values) == Err::<Seq<char>, TemplateFault>(
            TemplateFault::Unclosed,
        ),
{
    let template = before + seq!['{', '{'] + inside;
    let at = before.len() as int;
    text::lemma_first_part(before, open_mark(), inside);
    assert(template.skip(at + 2) =~= inside);
    text::lemma_find_from(inside, close_mark(), 0);
    if let Some(end) = text::find_from(inside, close_mark(), 0) {
        assert(inside.subrange(end, end + 2)[0] == '}');
        assert(inside[end] == '}');
    }
    assert(text::find_from(template, open_mark(), 0) == Some(at));
}

// ---------------------------------------------------------------------------
// What names and mentions are
// ---------------------------------------------------------------------------
/// The usable names of owners and repositories are those made of ASCII letters,
/// digits, hyphens, underscores and dots, but for the two directory names.
pub proof fn law_usable_names(value: Seq<char>)
    ensures
        valid_name_part(value) <==> {
            &&& value.len() > 0
            &&& value != seq!['.']
            &&& value != seq!['.', '.']
            &&& forall|i: int| 0 <= i < value.len() ==> {
                let c = #[trigger] value[i];
                'a' <= c <= 'z' || 'A' <= c <= 'Z' || '0' <= c <= '9' || c == '-' || c == '_'
                    || c == '.'
            }
        },
{
    reveal_strlit(".");
    reveal_strlit("..");
    assert("."@ =~= seq!['.']);
    assert(".."@ =~= seq!['.', '.']);
    if valid_name_part(value) {
        assert forall|i: int| 0 <= i < value.len() implies {
            let c = #[trigger] value[i];
            'a' <= c <= 'z' || 'A' <= c <= 'Z' || '0' <= c <= '9' || c == '-' || c == '_' || c
                == '.'
        } by {
            assert(name_char(value[i]));
        }
    }
}

/// Any two usable names with a slash between them, and white space around them,
/// are read as a slug in small letters.
pub proof fn law_slugs_are_read(
    left: Seq<char>,
    owner: Seq<char>,
    repo: Seq<char>,
    right: Seq<char>,
)
    requires
        valid_name_part(owner),
        valid_name_part(repo),
        forall|i: int| 0 <= i < left.len() ==> text::is_white(#[trigger] left[i]),
        forall|i: int| 0 <= i < right.len() ==> text::is_white(#[trigger] right[i]),
    ensures
        slug_parts(left + (owner + seq!['/'] + repo) + right) == Ok::<
            (Seq<char>, Seq<char>),
            SlugFault,
        >((text::lowered(owner), text::lowered(repo))),
{
    let shown = owner + seq!['/'] + repo;
    law_name_part_is_one_level(owner);
    law_name_part_is_one_level(repo);
    assert(name_char(owner[0]));
    assert(name_char(repo[repo.len() - 1]));
    assert(shown[0] == owner[0] && shown.last() == repo.last());
    text::law_padding_is_trimmed(left, shown, right);
    text::lemma_index_of(shown, '/', 0);
    let k = text::index_of(shown, '/', 0);
    assert(shown[owner.len() as int] == '/');
    if k < owner.len() {
        assert(owner.contains(owner[k]));
        assert(shown[k] == owner[k]);
    }
    assert(shown.take(k) =~= owner);
    assert(shown.skip(k + 1) =~= repo);
    assert(shown.contains('/'));
}

/// What is read as a slug is, but for white space around it and the case of its
/// letters, two usable names with a slash between them.
pub proof fn law_slugs_are_two_names(value: Seq<char>)
    requires
        slug_parts(value) is Ok,
    ensures
        ({
            let (owner, repo) = slug_parts(value)->Ok_0;
            &&& text::lowered(text::trimmed(value)) == owner + seq!['/'] + repo
            &&& valid_name_part(owner)
            &&& valid_name_part(repo)
        }),
{
    let v = text::trimmed(value);
    let at = text::index_of(v, '/', 0);
    let (owner, repo) = slug_parts(value)->Ok_0;
    text::lemma_index_of(v, '/', 0);
    lemma_lowered_name_part(v.take(at));
    lemma_lowered_name_part(v.skip(at + 1));
    assert(at < v.len()) by {
        let k = choose|k: int| 0 <= k < v.len() && v[k] == '/';
    }
    assert(text::lowered(v) =~= owner + seq!['/'] + repo);
}

/// The bot is named at `at`: an `@`, then its login in any case of letters, with
/// nothing before or behind that could belong to a login.
pub open spec fn named_at(body: Seq<char>, login: Seq<char>, at: int) -> bool {
    let end = at + 1 + login.len();
    &&& 0 <= at
    &&& end <= body.len()
    &&& body[at] == '@'
    &&& text::lowered(body.subrange(at + 1, end)) == text::lowered(login)
    &&& at > 0 ==> {
        let c = body[at - 1];
        !('a' <= c <= 'z' || 'A' <= c <= 'Z' || '0' <= c <= '9' || c == '-')
    }
    &&& end < body.len() ==> {
        let c = body[end];
        !('a' <= c <= 'z' || 'A' <= c <= 'Z' || '0' <= c <= '9' || c == '-')
    }
}

proof fn lemma_named_at(body: Seq<char>, login: Seq<char>, at: int)
    ensures
        named_at(body, login, at) == (text::occurs_at(
            text::lowered(body),
            "@"@ + text::lowered(login),
            at,
        ) && stands_alone(body, at, at + ("@"@ + text::lowered(login)).len())),
{
    reveal_strlit("@");
    let needle = "@"@ + text::lowered(login);
    let low = text::lowered(body);
    let end = at + 1 + login.len();
    assert(needle.len() == 1 + login.len());
    if 0 <= at && end <= body.len() {
        let found = low.subrange(at, end);
        let name = text::lowered(body.subrange(at + 1, end));
        if found == needle {
            assert(needle[0] == "@"@[0]);
            assert(found[0] == low[at]);
            assert(low[at] == '@');
            assert forall|i: int| 0 <= i < login.len() implies #[trigger] name[i]
                == text::lowered(login)[i] by {
                assert(found[i + 1] == needle[i + 1]);
            }
            assert(name =~= text::lowered(login));
        }
        if body[at] == '@' && name == text::lowered(login) {
            assert forall|i: int| 0 <= i < needle.len() implies #[trigger] found[i]
                == needle[i] by {
                if i > 0 {
                    assert(name[i - 1] == text::lowered(login)[i - 1]);
                }
            }
            assert(found =~= needle);
        }
    }
}

proof fn lemma_mention_starts(body: Seq<char>, needle: Seq<char>, from: int)
    requires
        0 <= from,
        needle.len() > 0,
        forall|i: int| 0 < i < needle.len() ==> #[trigger] needle[i] != needle[0],
    ensures
        forall|at: int| #[trigger]
            mention_starts(body, needle, from).contains(at) <==> from <= at && text::occurs_at(
                text::lowered(body),
                needle,
                at,
            ) && stands_alone(body, at, at + needle.len()),
    decreases body.len() - from,
{
    let low = text::lowered(body);
    let all = mention_starts(body, needle, from);
    text::lemma_find_from(low, needle, from);
    match text::find_from(low, needle, from) {
        None => {},
        Some(first) => {
            let end = first + needle.len();
            let rest = mention_starts(body, needle, end);
            lemma_mention_starts(body, needle, end);
            let alone = stands_alone(body, first, end);
            assert forall|at: int| #[trigger] all.contains(at) <==> from <= at && text::occurs_at(
                low,
                needle,
                at,
            ) && stands_alone(body, at, at + needle.len()) by {
                if alone {
                    assert(all == seq![first] + rest);
                    assert(all[0] == first);
                    if rest.contains(at) {
                        let k = choose|k: int| 0 <= k < rest.len() && rest[k] == at;
                        assert(all[k + 1] == at);
                    }
                    if all.contains(at) {
                        let k = choose|k: int| 0 <= k < all.len() && all[k] == at;
                        if k > 0 {
                            assert(rest[k - 1] == at);
                        }
                    }
                }
                assert(rest.contains(at) <==> end <= at && text::occurs_at(low, needle, at)
                    && stands_alone(body, at, at + needle.len()));
                if first < at < end && text::occurs_at(low, needle, at) {
                    assert(low.subrange(first, end)[at - first] == needle[at - first]);
                    assert(low.subrange(at, at + needle.len())[0] == needle[0]);
                }
            }
        },
    }
}

proof fn lemma_no_at(login: Seq<char>)
    requires
        !login.contains('@'),
    ensures
        ({
            let needle = "@"@ + text::lowered(text::trimmed(login));
            &&& needle.len() == 1 + text::trimmed(login).len()
            &&& needle[0] == '@'
            &&& forall|i: int| 0 < i < needle.len() ==> #[trigger] needle[i] != '@'
        }),
{
    reveal_strlit("@");
    let core = text::trimmed(login);
    let needle = "@"@ + text::lowered(core);
    text::law_trimming_takes_white_space_from_the_ends(login);
    let (left, right) = choose|left: int, right: int|
        0 <= left <= right <= login.len() && core == #[trigger] login.subrange(left, right);
    assert forall|i: int| 0 < i < needle.len() implies #[trigger] needle[i] != '@' by {
        assert(core[i - 1] == login[left + i - 1]);
        assert(login.contains(login[left + i - 1]));
    }
}

/// A comment mentions the bot exactly where the bot is named somewhere in it. A
/// bot without a login is never mentioned.
pub proof fn law_where_the_bot_is_mentioned(body: Seq<char>, bot_login: Seq<char>)
    requires
        !bot_login.contains('@'),
    ensures
        text::trimmed(bot_login).len() > 0 ==> (mentions_bot(body, bot_login) <==> exists|at: int|
            named_at(body, text::trimmed(bot_login), at)),
        text::trimmed(bot_login).len() == 0 ==> !mentions_bot(body, bot_login),
{
    let login = text::trimmed(bot_login);
    let needle = mention_needle(bot_login);
    if login.len() > 0 {
        lemma_no_at(bot_login);
        lemma_mention_starts(body, needle, 0);
        let starts = mention_starts(body, needle, 0);
        if starts.len() > 0 {
            assert(starts.contains(starts[0]));
            lemma_named_at(body, login, starts[0]);
        }
        if exists|at: int| named_at(body, login, at) {
            let at = choose|at: int| named_at(body, login, at);
            lemma_named_at(body, login, at);
            assert(starts.contains(at));
        }
    }
}

/// What a comment asks for is the comment without the mention of the bot:
/// whatever stands before and behind it, nothing else is taken out.
pub proof fn law_only_the_mention_is_taken_out(
    before: Seq<char>,
    name: Seq<char>,
    after: Seq<char>,
    bot_login: Seq<char>,
)
    requires
        !bot_login.contains('@'),
        name.len() > 0,
        text::lowered(name) == text::lowered(text::trimmed(bot_login)),
        !before.contains('@'),
        !after.contains('@'),
        named_at(before + seq!['@'] + name + after, name, before.len() as int),
    ensures
        without_mentions(before + seq!['@'] + name + after, bot_login) == Some(before + after),
{
    let body = before + seq!['@'] + name + after;
    let login = text::trimmed(bot_login);
    let needle = mention_needle(bot_login);
    let at = before.len() as int;
    let end = at + needle.len();
    let low = text::lowered(body);
    assert(text::lowered(name).len() == text::lowered(login).len());
    lemma_no_at(bot_login);
    lemma_named_at(body, name, at);
    lemma_mention_starts(body, needle, 0);
    lemma_mention_starts(body, needle, end);
    text::lemma_find_from(low, needle, 0);
    assert forall|k: int| k != at implies !#[trigger] text::occurs_at(low, needle, k) by {
        if text::occurs_at(low, needle, k) {
            assert(low.subrange(k, k + needle.len())[0] == '@');
            assert(body[k] == '@');
            if k < at {
                assert(before[k] == '@');
            } else if k < end {
                assert(low.subrange(at, end)[k - at] == needle[k - at]);
            } else {
                assert(after[k - end] == '@');
            }
        }
    }
    text::lemma_find_from(low, needle, end);
    let rest = mention_starts(body, needle, end);
    assert(rest =~= Seq::<int>::empty());
    let starts = mention_starts(body, needle, 0);
    assert(text::find_from(low, needle, 0) == Some(at));
    assert(starts =~= seq![at]);
    assert(starts.drop_first() =~= Seq::<int>::empty());
    assert(cut_out(body, starts.drop_first(), needle.len() as int, end) == body.skip(end));
    assert(body.subrange(0, at) =~= before);
    assert(body.skip(end) =~= after);
}

/// An operator's request is what stands behind `/operate` and white space, white
/// space around it aside. Without a text behind it, or where anything else follows
/// `/operate` directly, there is none.
pub proof fn law_what_an_operator_asks_for(rest: Seq<char>, other: Seq<char>)
    ensures
        operator_request_in("/operate"@ + rest) == (if rest.len() > 0 && text::is_white(rest[0])
            && text::trimmed(rest).len() > 0 {
            Some(text::trimmed(rest))
        } else {
            None
        }),
        !("/operate"@.is_prefix_of(other)) ==> operator_request_in(other) is None,
{
    let all = "/operate"@ + rest;
    let n = "/operate"@.len() as int;
    assert(all.take(n) =~= "/operate"@);
    assert(all.skip(n) =~= rest);
    if text::has_prefix(other, "/operate"@) {
        assert("/operate"@ =~= other.subrange(0, n));
    }
}

/// The head of a pull request is fetched by its number; an issue is worked on at
/// the default branch. Comments on both go by their own repository and number.
pub proof fn law_what_is_fetched(pr: PullRequest, issue: Issue)
    ensures
        WorkTarget::PullRequest(pr).fetch_ref_text() == "pull/"@ + numeral::decimal(
            pr.number as nat,
        ) + "/head"@,
        WorkTarget::Issue(issue).fetch_ref_text() == issue.default_branch@,
        WorkTarget::PullRequest(pr).kind_text() == "pulls"@,
        WorkTarget::Issue(issue).kind_text() == "issues"@,
        WorkTarget::PullRequest(pr).owner_string() == pr.owner,
        WorkTarget::Issue(issue).owner_string() == issue.owner,
        WorkTarget::PullRequest(pr).repo_string() == pr.repo,
        WorkTarget::Issue(issue).repo_string() == issue.repo,
        WorkTarget::PullRequest(pr).number_value() == pr.number,
        WorkTarget::Issue(issue).number_value() == issue.number,
        WorkTarget::PullRequest(pr).html_url_string() == pr.html_url,
        WorkTarget::Issue(issue).html_url_string() == issue.html_url,
        WorkTarget::PullRequest(pr).clone_url_string() == pr.clone_url,
        WorkTarget::Issue(issue).clone_url_string() == issue.clone_url,
{
}

/// Notifications about pull requests and about issues are looked into, as long as
/// they say where their subject is; whether they were read makes no difference.
pub proof fn law_which_notifications_are_looked_into(notification: Notification)
    ensures
        notification.mention_candidate() <==> (notification.subject_kind@ == "PullRequest"@
            || notification.subject_kind@ == "Issue"@) && notification.subject_url is Some,
{
}

/// An error says what is wrong, and names the value or placeholder that is.
pub proof fn law_errors_name_what_is_wrong(label: String, value: String)
    ensures
        (DomainError::RepositoryFormat { value }).message_text()
            == "repository must be formatted as owner/repo: "@ + debug_quoted(value@),
        (DomainError::InvalidNamePart { label, value }).message_text() == "invalid "@ + label@
            + ": "@ + debug_quoted(value@),
        (DomainError::UnknownPlaceholder { name: value }).message_text()
            == "unknown Codex prompt template placeholder: "@ + value@,
        DomainError::UnclosedPlaceholder.message_text()
            == "Codex prompt template has an unclosed placeholder"@,
{
}

/// A slug is shown as its owner and its repository with a slash between them.
pub proof fn law_how_slugs_are_shown(slug: RepoSlug)
    ensures
        slug.display_text() == slug.owner@ + seq!['/'] + slug.repo@,
{
    reveal_strlit("/");
    assert("/"@ =~= seq!['/']);
}

/// A task is taken with all of its texts, each in its own place.
pub proof fn law_tasks_are_taken_whole(
    pr_url: String,
    mention_url: String,
    raw_body: String,
    other: String,
    author: String,
    bot_login: String,
)
    ensures
        (CodexTask {
            pr_url,
            origin: CodexTaskOrigin::Mention { mention_url, raw_body, cleaned_text: other },
        })@ == (TaskView {
            pr_url: pr_url@,
            origin: OriginView::Mention {
                mention_url: mention_url@,
                raw_body: raw_body@,
                cleaned_text: other@,
            },
        }),
        (CodexTask {
            pr_url,
            origin: CodexTaskOrigin::OperatorMention {
                mention_url,
                raw_body,
                request_text: other,
                trigger_author: author,
                bot_login,
            },
        })@ == (TaskView {
            pr_url: pr_url@,
            origin: OriginView::OperatorMention {
                mention_url: mention_url@,
                raw_body: raw_body@,
                request_text: other@,
                trigger_author: author@,
                bot_login: bot_login@,
            },
        }),
        (CodexTask { pr_url, origin: CodexTaskOrigin::PullRequestOpened { author } })@ == (
        TaskView { pr_url: pr_url@, origin: OriginView::PullRequestOpened { author: author@ } }),
{
}

proof fn lemma_starts_shifted(head: Seq<char>, after: Seq<char>, needle: Seq<char>, from: int)
    requires
        0 <= from,
        needle.len() > 0,
        needle[0] == '@',
        head.len() > 0,
        after.len() > 0 ==> after[0] != '@',
    ensures
        mention_starts(head + after, needle, head.len() + from) == mention_starts(
            after,
            needle,
            from,
        ).map_values(|at: int| head.len() + at),
    decreases after.len() - from,
{
    let body = head + after;
    let n = head.len() as int;
    let low = text::lowered(body);
    let tail = text::lowered(after);
    text::lemma_find_from(low, needle, n + from);
    text::lemma_find_from(tail, needle, from);
    assert forall|k: int| 0 <= k implies (#[trigger] text::occurs_at(tail, needle, k)
        == text::occurs_at(low, needle, n + k)) by {
        if k + needle.len() <= after.len() {
            assert(low.subrange(n + k, n + k + needle.len()) =~= tail.subrange(
                k,
                k + needle.len(),
            ));
        }
    }
    let there = text::find_from(tail, needle, from);
    let here = text::find_from(low, needle, n + from);
    if let Some(a) = here {
        assert(text::occurs_at(tail, needle, a - n));
    }
    if let Some(b) = there {
        assert(text::occurs_at(low, needle, n + b));
    }
    match there {
        None => {
            assert(here is None);
            assert(mention_starts(after, needle, from).map_values(|at: int| n + at)
                =~= mention_starts(body, needle, n + from));
        },
        Some(at) => {
            assert(here == Some(n + at));
            let end = at + needle.len();
            lemma_starts_shifted(head, after, needle, end);
            assert(at > 0) by {
                assert(tail.subrange(at, end)[0] == '@');
                assert(after[at] == '@');
            }
            assert(stands_alone(body, n + at, n + end) == stands_alone(after, at, end));
            let rest = mention_starts(after, needle, end);
            assert((seq![at] + rest).map_values(|k: int| n + k) =~= seq![n + at] + rest.map_values(
                |k: int| n + k,
            ));
            assert(mention_starts(body, needle, n + from) =~= mention_starts(
                after,
                needle,
                from,
            ).map_values(|k: int| n + k));
        },
    }
}

proof fn lemma_cut_shifted(
    head: Seq<char>,
    after: Seq<char>,
    starts: Seq<int>,
    width: int,
    from: int,
)
    requires
        0 <= from <= after.len(),
        0 <= width,
        forall|i: int|
            0 <= i < starts.len() ==> from <= #[trigger] starts[i] && starts[i] + width
                <= after.len(),
        forall|i: int, j: int|
            0 <= i < j < starts.len() ==> #[trigger] starts[i] + width <= #[trigger] starts[j],
    ensures
        cut_out(
            head + after,
            starts.map_values(|at: int| head.len() + at),
            width,
            head.len() + from,
        ) == cut_out(after, starts, width, from),
    decreases starts.len(),
{
    let body = head + after;
    let n = head.len() as int;
    let moved = starts.map_values(|at: int| n + at);
    if starts.len() == 0 {
        assert(body.skip(n + from) =~= after.skip(from));
    } else {
        let first = starts[0];
        let rest = starts.drop_first();
        assert(moved.drop_first() =~= rest.map_values(|at: int| n + at));
        assert(moved[0] == n + first);
        assert forall|i: int| 0 <= i < rest.len() implies first + width <= #[trigger] rest[i]
            && rest[i] + width <= after.len() by {
            assert(rest[i] == starts[i + 1]);
        }
        assert forall|i: int, j: int| 0 <= i < j < rest.len() implies #[trigger] rest[i] + width
            <= #[trigger] rest[j] by {
            assert(rest[i] == starts[i + 1] && rest[j] == starts[j + 1]);
        }
        lemma_cut_shifted(head, after, rest, width, first + width);
        assert(body.subrange(n + from, n + first) =~= after.subrange(from, first));
    }
}

proof fn lemma_starts_in_order(body: Seq<char>, needle: Seq<char>, from: int)
    requires
        0 <= from,
        needle.len() > 0,
    ensures
        ({
            let starts = mention_starts(body, needle, from);
            &&& forall|i: int|
                0 <= i < starts.len() ==> from <= #[trigger] starts[i] && starts[i] + needle.len()
                    <= body.len()
            &&& forall|i: int, j: int|
                0 <= i < j < starts.len() ==> #[trigger] starts[i] + needle.len()
                    <= #[trigger] starts[j]
        }),
    decreases body.len() - from,
{
    text::lemma_find_from(text::lowered(body), needle, from);
    if let Some(at) = text::find_from(text::lowered(body), needle, from) {
        let end = at + needle.len();
        lemma_starts_in_order(body, needle, end);
        let rest = mention_starts(body, needle, end);
        let starts = mention_starts(body, needle, from);
        if stands_alone(body, at, end) {
            assert(starts == seq![at] + rest);
            assert forall|i: int| 0 <= i < starts.len() implies from <= #[trigger] starts[i]
                && starts[i] + needle.len() <= body.len() by {
                if i > 0 {
                    assert(starts[i] == rest[i - 1]);
                }
            }
            assert forall|i: int, j: int| 0 <= i < j < starts.len() implies #[trigger] starts[i]
                + needle.len() <= #[trigger] starts[j] by {
                assert(starts[j] == rest[j - 1]);
                if i > 0 {
                    assert(starts[i] == rest[i - 1]);
                }
            }
        }
    }
}

proof fn lemma_first_start(body: Seq<char>, needle: Seq<char>, from: int, at: int)
    requires
        0 <= from <= at,
        needle.len() > 0,
        forall|i: int| 0 < i < needle.len() ==> #[trigger] needle[i] != needle[0],
        text::occurs_at(text::lowered(body), needle, at),
        stands_alone(body, at, at + needle.len()),
        forall|k: int|
            from <= k < at && #[trigger] text::occurs_at(text::lowered(body), needle, k)
                ==> !stands_alone(body, k, k + needle.len()),
    ensures
        mention_starts(body, needle, from) == seq![at] + mention_starts(
            body,
            needle,
            at + needle.len(),
        ),
    decreases at - from,
{
    let low = text::lowered(body);
    text::lemma_find_from(low, needle, from);
    let first = text::find_from(low, needle, from)->0;
    assert(first <= at);
    if first < at {
        let end = first + needle.len();
        if at < end {
            assert(low.subrange(first, end)[at - first] == needle[at - first]);
            assert(low.subrange(at, at + needle.len())[0] == needle[0]);
            assert(low[at] == needle[0]);
        }
        lemma_first_start(body, needle, end, at);
    }
}

/// Every mention of the bot is taken out, not the first alone, and nothing else is:
/// what stands before the first is kept, whatever it holds, and what follows it is
/// cleaned in the same way.
pub proof fn law_every_mention_is_taken_out(
    before: Seq<char>,
    name: Seq<char>,
    after: Seq<char>,
    bot_login: Seq<char>,
)
    requires
        !bot_login.contains('@'),
        name.len() > 0,
        text::lowered(name) == text::lowered(text::trimmed(bot_login)),
        after.len() > 0 ==> after[0] != '@',
        named_at(before + seq!['@'] + name + after, name, before.len() as int),
        forall|k: int|
            0 <= k < before.len() ==> !#[trigger] named_at(
                before + seq!['@'] + name + after,
                name,
                k,
            ),
    ensures
        without_mentions(before + seq!['@'] + name + after, bot_login) == Some(
            before + (match without_mentions(after, bot_login) {
                Some(cleaned) => cleaned,
                None => after,
            }),
        ),
{
    let head = before + seq!['@'] + name;
    let body = head + after;
    let login = text::trimmed(bot_login);
    let needle = mention_needle(bot_login);
    let width = needle.len() as int;
    let at = before.len() as int;
    let end = head.len() as int;
    let low = text::lowered(body);
    assert(text::lowered(name).len() == text::lowered(login).len());
    lemma_no_at(bot_login);
    lemma_named_at(body, name, at);
    assert(end == at + width);
    assert forall|k: int| 0 <= k < at && #[trigger] text::occurs_at(low, needle, k) implies
        !stands_alone(body, k, k + needle.len()) by {
        lemma_named_at(body, name, k);
    }
    lemma_first_start(body, needle, 0, at);
    lemma_starts_shifted(head, after, needle, 0);
    let behind = mention_starts(after, needle, 0);
    let moved = behind.map_values(|k: int| end + k);
    let starts = mention_starts(body, needle, 0);
    assert(starts == seq![at] + moved);
    assert(starts.drop_first() =~= moved);
    lemma_starts_in_order(after, needle, 0);
    lemma_cut_shifted(head, after, behind, width, 0);
    assert(body.subrange(0, at) =~= before);
    assert(cut_out(body, starts, width, 0) == before + cut_out(body, moved, width, end));
    if behind.len() == 0 {
        assert(cut_out(after, behind, width, 0) == after.skip(0));
        assert(after.skip(0) =~= after);
    }
}

/// Values are taken pair by pair, in their order, and of two under one name the
/// first counts.
pub proof fn law_which_value_counts(
    values: Seq<(&str, &str)>,
    i: int,
    before: Seq<(Seq<char>, Seq<char>)>,
    name: Seq<char>,
    value: Seq<char>,
    after: Seq<(Seq<char>, Seq<char>)>,
)
    ensures
        value_views(values).len() == values.len(),
        0 <= i < values.len() ==> value_views(values)[i] == (values[i].0@, values[i].1@),
        (forall|k: int| 0 <= k < before.len() ==> (#[trigger] before[k]).0 != name) ==> {
            &&& lookup(before, name) is None
            &&& lookup(before + seq![(name, value)] + after, name) == Some(value)
        },
    decreases before.len(),
{
    let all = before + seq![(name, value)] + after;
    if before.len() > 0 {
        law_which_value_counts(values, i, before.drop_first(), name, value, after);
        assert(all.drop_first() =~= before.drop_first() + seq![(name, value)] + after);
        assert(all[0] == before[0]);
        if forall|k: int| 0 <= k < before.len() ==> (#[trigger] before[k]).0 != name {
            assert forall|k: int| 0 <= k < before.drop_first().len() implies (
            #[trigger] before.drop_first()[k]).0 != name by {
                assert(before[k + 1].0 != name);
            }
        }
    } else {
        assert(all[0] == (name, value));
    }
}

/// An ID is among those of a list exactly where an account of the list has it.
pub proof fn law_ids_are_those_of_the_accounts(
    before: Seq<TrustedAccount>,
    account: TrustedAccount,
    after: Seq<TrustedAccount>,
    id: u64,
)
    ensures
        !ids_of(Seq::empty()).contains(id),
        ids_of(before + seq![account] + after).contains(id) <==> account.id.number() == id
            || ids_of(before).contains(id) || ids_of(after).contains(id),
{
    let all = before + seq![account] + after;
    let n = before.len() as int;
    assert(all[n] == account);
    assert forall|k: int| 0 <= k < n implies (#[trigger] all[k]) == before[k] by {}
    assert forall|k: int| 0 <= k < after.len() implies (#[trigger] after[k]) == all[n + 1 + k] by {}
    if ids_of(before).contains(id) {
        let k = choose|k: int| 0 <= k < before.len() && (#[trigger] before[k]).id.number() == id;
        assert(all[k].id.number() == id);
    }
    if ids_of(after).contains(id) {
        let k = choose|k: int| 0 <= k < after.len() && (#[trigger] after[k]).id.number() == id;
        assert(all[n + 1 + k].id.number() == id);
    }
    if ids_of(all).contains(id) {
        let k = choose|k: int| 0 <= k < all.len() && (#[trigger] all[k]).id.number() == id;
        if k < n {
            assert(before[k].id.number() == id);
        } else if k > n {
            assert(after[k - n - 1].id.number() == id);
        }
    }
}

/// A repository is known by its owner and its name, whoever asks.
pub proof fn law_how_repositories_are_known(
    pr: PullRequest,
    of_pr: String,
    of_target: String,
    issue: Issue,
    of_issue: String,
    of_other: String,
    notification: &Notification,
    read: bool,
)
    requires
        call_ensures(PullRequest::repo_key, (&pr,), of_pr),
        call_ensures(WorkTarget::repo_key, (&WorkTarget::PullRequest(pr),), of_target),
        call_ensures(Issue::repo_key, (&issue,), of_issue),
        call_ensures(WorkTarget::repo_key, (&WorkTarget::Issue(issue),), of_other),
        call_ensures(Notification::is_read, (notification,), read),
    ensures
        of_pr@ == pr.owner@ + "/"@ + pr.repo@,
        of_target@ == of_pr@,
        of_issue@ == issue.owner@ + "/"@ + issue.repo@,
        of_other@ == of_issue@,
        read <==> !notification.unread,
{
}

/// An ID is any number but zero.
pub proof fn law_which_ids_there_are(value: u64, r: Option<GitHubUserId>)
    requires
        call_ensures(GitHubUserId::new, (value,), r),
    ensures
        r is None <==> value == 0,
        r matches Some(id) ==> id.number() == value,
{
}

/// A prompt shows what its template names: the text before a placeholder, the part of
/// the task that the placeholder is named after, and then the prompt that the rest of
/// the template gives.
pub proof fn law_prompts_show_what_they_name(
    task: &CodexTask,
    templates: &CodexPromptTemplates,
    r: Result<String, DomainError>,
    shorter: &CodexPromptTemplates,
    more: Result<String, DomainError>,
    mention_url: String,
    raw_body: String,
    cleaned_text: String,
    before: Seq<char>,
    name: Seq<char>,
    rest: Seq<char>,
)
    requires
        task.origin == (CodexTaskOrigin::Mention { mention_url, raw_body, cleaned_text }),
        !before.contains('{'),
        !name.contains('}'),
        templates.mention@ == before + seq!['{', '{'] + name + seq!['}', '}'] + rest,
        shorter.mention@ == rest,
        call_ensures(CodexTask::prompt, (task, templates), r),
        call_ensures(CodexTask::prompt, (task, shorter), more),
    ensures
        more matches Ok(tail) ==> {
            let known = text::trimmed(name);
            &&& known == "target_url"@ ==> r is Ok && (r->Ok_0)@ == before + task.pr_url@ + tail@
            &&& known == "pr_url"@ ==> r is Ok && (r->Ok_0)@ == before + task.pr_url@ + tail@
            &&& known == "mention_url"@ ==> r is Ok && (r->Ok_0)@ == before + mention_url@ + tail@
            &&& known == "raw_body"@ ==> r is Ok && (r->Ok_0)@ == before + raw_body@ + tail@
            &&& known == "cleaned_text"@ ==> r is Ok && (r->Ok_0)@ == before + cleaned_text@
                + tail@
            &&& known == "author"@ ==> r is Err
        },
{
    reveal_strlit("author");
    reveal_strlit("target_url");
    reveal_strlit("pr_url");
    reveal_strlit("mention_url");
    reveal_strlit("raw_body");
    reveal_strlit("cleaned_text");
    assert("author"@.len() == 6 && "pr_url"@.len() == 6 && "author"@[0] == 'a' && "pr_url"@[0]
        == 'p');
    assert("target_url"@.len() == 10 && "mention_url"@.len() == 11 && "raw_body"@.len() == 8
        && "cleaned_text"@.len() == 12);
    law_names_in_the_template_for_mentions(task.pr_url@, mention_url@, raw_body@, cleaned_text@);
    law_templates_are_filled_in_place(before, name, rest, task@.placeholders());
}

/// A comment is a request of the bot exactly where it mentions the bot; it then keeps
/// the comment as it was, and what is left of it without the mentions.
pub proof fn law_what_a_request_keeps(
    body: &str,
    bot_login: &str,
    r: Result<Option<MentionRequest>, DomainError>,
)
    requires
        call_ensures(MentionRequest::parse, (body, bot_login), r),
    ensures
        r is Ok,
        (r->Ok_0) is Some <==> mentions_bot(body@, bot_login@),
        r->Ok_0 matches Some(request) ==> {
            &&& request.raw_body@ == body@
            &&& request.cleaned_text@ == text::trimmed(without_mentions(body@, bot_login@)->0)
        },
{
}

} // verus!
