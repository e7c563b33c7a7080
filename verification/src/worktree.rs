//! A fresh repository for each task.
//!
//! The repository is fetched from an address that is derived from the validated
//! owner and name, never from one that an answer of GitHub supplied. Only that
//! fetch is authenticated.
use crate::domain::{validate_repo_name_part, CodexTask, DomainError, WorkTarget};
use crate::git::GitStep;
use crate::maid::PreparedWorktree;
use crate::{domain, git, numeral, path, text};
use vstd::prelude::*;

verus! {

/// The directories in which git and what it runs are looked for.
pub const GIT_PATH: &'static str = "/opt/homebrew/bin:/usr/local/bin:/usr/bin:/bin";

pub const GIT_COMMAND_TIMEOUT_SECONDS: u64 = 300;

/// Where repositories are made, and how their fetch is authenticated.
#[derive(Debug, Eq, PartialEq)]
pub struct GitWorktrees {
    pub root: String,
    pub auth_header: String,
}

/// Where a repository is fetched from.
#[derive(Debug, Eq, PartialEq)]
pub enum CloneOrigin {
    GitHub(String),
}

impl CloneOrigin {
    pub open spec fn address(self) -> Seq<char> {
        match self {
            CloneOrigin::GitHub(url) => url@,
        }
    }

    pub fn as_str(&self) -> (r: &str)
        ensures
            r@ == self.address(),
    {
        match self {
            CloneOrigin::GitHub(url) => url.as_str(),
        }
    }

    pub fn needs_authentication(&self) -> (r: bool)
        ensures
            r == (*self is GitHub),
    {
        match self {
            CloneOrigin::GitHub(_) => true,
        }
    }
}

/// A root directory, taken from the current directory (or from `.`, where that is
/// not known) unless it is absolute.
pub open spec fn absolute_root_text(root: Seq<char>, current_dir: Option<Seq<char>>) -> Seq<char> {
    if path::is_absolute_path(root) {
        root
    } else {
        path::joined_path(
            match current_dir {
                Some(dir) => dir,
                None => "."@,
            },
            root,
        )
    }
}

pub fn absolute_root(root: &str, current_dir: &Option<String>) -> (r: String)
    ensures
        r@ == absolute_root_text(root@, text::opt_view(*current_dir)),
{
    if path::is_absolute(root) {
        return root.to_owned();
    }
    match current_dir {
        Some(dir) => path::join(dir.as_str(), root),
        None => path::join(".", root),
    }
}

// ---------------------------------------------------------------------------
// Directories
// ---------------------------------------------------------------------------
/// The FNV-1a hash of a byte sequence, 64 bits wide.
pub open spec fn fnv1a(bytes: Seq<u8>) -> u64
    decreases bytes.len(),
{
    if bytes.len() == 0 {
        0xcbf29ce484222325
    } else {
        (((fnv1a(bytes.drop_last()) ^ (bytes.last() as u64)) * 0x100000001b3)
            % 0x1_0000_0000_0000_0000) as u64
    }
}

/// The hash of a text's UTF-8 form. It is the same in every run.
pub fn stable_hash(value: &str) -> (r: u64)
    ensures
        r == fnv1a(vstd::utf8::encode_utf8(value@)),
{
    let bytes = value.as_bytes();
    let mut hash: u64 = 0xcbf29ce484222325;
    let mut i: usize = 0;
    assert(bytes@.take(0) =~= Seq::<u8>::empty());
    while i < bytes.len()
        invariant
            i <= bytes@.len(),
            hash == fnv1a(bytes@.take(i as int)),
        decreases bytes@.len() - i,
    {
        let byte: u8 = bytes[i];
        assert(bytes@.take(i + 1).drop_last() =~= bytes@.take(i as int));
        hash = (hash ^ (byte as u64)).wrapping_mul(0x100000001b3);
        i = i + 1;
    }
    assert(bytes@.take(bytes@.len() as int) =~= bytes@);
    hash
}

pub open spec fn worktree_key_text(task: domain::TaskView) -> Seq<char> {
    task.origin.kind_text() + "-"@ + numeral::hex(
        fnv1a(vstd::utf8::encode_utf8(task.trigger())) as nat,
        16,
    )
}

/// The name of a task's directory: its kind, and the hash of what set it off.
pub fn worktree_key(task: &CodexTask) -> (r: String)
    ensures
        r@ == worktree_key_text(task@),
{
    text::cat3(
        task.task_kind(),
        "-",
        numeral::to_hex16(stable_hash(task.trigger_url())).as_str(),
    )
}

/// The directory of all tasks on a target.
pub open spec fn target_path(root: Seq<char>, target: WorkTarget) -> Seq<char> {
    let base = path::joined_path(root, "worktrees"@);
    let owner = path::joined_path(base, target.owner_string()@);
    let repo = path::joined_path(owner, target.repo_string()@);
    let kind = path::joined_path(repo, target.kind_text());
    path::joined_path(kind, numeral::decimal(target.number_value() as nat))
}

/// The directory of a task.
pub open spec fn worktree_path(
    root: Seq<char>,
    target: WorkTarget,
    task: domain::TaskView,
) -> Seq<char> {
    path::joined_path(target_path(root, target), worktree_key_text(task))
}

/// Both the owner and the repository of a target have usable names.
pub open spec fn has_valid_names(target: WorkTarget) -> bool {
    domain::valid_name_part(target.owner_string()@) && domain::valid_name_part(
        target.repo_string()@,
    )
}

/// The error for a target whose owner, or else whose repository, has no usable
/// name.
pub open spec fn is_name_error(error: DomainError, target: WorkTarget) -> bool {
    match error {
        DomainError::InvalidNamePart { label, value } => {
            if !domain::valid_name_part(target.owner_string()@) {
                label@ == "repository owner"@ && value@ == target.owner_string()@
            } else {
                label@ == "repository name"@ && value@ == target.repo_string()@
            }
        },
        _ => false,
    }
}

fn check_names(target: &WorkTarget) -> (r: Result<(), DomainError>)
    ensures
        match r {
            Ok(()) => has_valid_names(*target),
            Err(error) => !has_valid_names(*target) && is_name_error(error, *target),
        },
{
    validate_repo_name_part(target.owner(), "repository owner")?;
    validate_repo_name_part(target.repo(), "repository name")
}

impl GitWorktrees {
    pub fn new(root: &str, github_token: &str, current_dir: &Option<String>) -> (r: GitWorktrees)
        requires
            git::token_fits(github_token@),
        ensures
            r.root@ == absolute_root_text(root@, text::opt_view(*current_dir)),
            r.auth_header@ == git::auth_header_text(github_token@),
    {
        GitWorktrees {
            root: absolute_root(root, current_dir),
            auth_header: git::auth_header(github_token),
        }
    }

    fn target_dir(&self, target: &WorkTarget) -> (r: String)
        ensures
            r@ == target_path(self.root@, *target),
    {
        let base = path::join(self.root.as_str(), "worktrees");
        let owner = path::join(base.as_str(), target.owner());
        let repo = path::join(owner.as_str(), target.repo());
        let kind = path::join(repo.as_str(), target.kind());
        path::join(kind.as_str(), numeral::to_decimal(target.number()).as_str())
    }

    pub fn worktree_dir(&self, target: &WorkTarget, task: &CodexTask) -> (r: Result<
        String,
        DomainError,
    >)
        ensures
            match r {
                Ok(dir) => {
                    &&& has_valid_names(*target)
                    &&& dir@ == worktree_path(self.root@, *target, task@)
                },
                Err(error) => !has_valid_names(*target) && is_name_error(error, *target),
            },
    {
        check_names(target)?;
        Ok(path::join(self.target_dir(target).as_str(), worktree_key(task).as_str()))
    }

    pub fn clone_origin(&self, target: &WorkTarget) -> (r: Result<CloneOrigin, DomainError>)
        ensures
            match r {
                Ok(origin) => {
                    &&& has_valid_names(*target)
                    &&& origin is GitHub
                    &&& origin.address() == "https://github.com/"@ + target.owner_string()@ + "/"@
                        + target.repo_string()@ + ".git"@
                },
                Err(error) => !has_valid_names(*target) && is_name_error(error, *target),
            },
    {
        check_names(target)?;
        Ok(
            CloneOrigin::GitHub(
                text::cat5(
                    "https://github.com/",
                    target.owner(),
                    "/",
                    target.repo(),
                    ".git",
                ),
            ),
        )
    }

    /// The home directory of the git commands.
    pub open spec fn runtime_home_text(self) -> Seq<char> {
        path::joined_path(self.root@, "git-runtime"@)
    }

    pub fn runtime_home(&self) -> (r: String)
        ensures
            r@ == self.runtime_home_text(),
    {
        path::join(self.root.as_str(), "git-runtime")
    }

    /// The whole environment of a git command. Git reads no configuration but what
    /// stands here: no hooks, no redirects, no external transports, and the bot's
    /// credential only where the command is authenticated.
    pub open spec fn environment(self, authenticated: bool) -> Seq<(Seq<char>, Seq<char>)> {
        let common = seq![
            ("PATH"@, GIT_PATH@),
            ("HOME"@, self.runtime_home_text()),
            ("GIT_CONFIG_NOSYSTEM"@, "1"@),
            ("GIT_CONFIG_SYSTEM"@, "/dev/null"@),
            ("GIT_CONFIG_GLOBAL"@, "/dev/null"@),
            ("GIT_ATTR_NOSYSTEM"@, "1"@),
            ("GIT_TERMINAL_PROMPT"@, "0"@),
            ("GIT_ASKPASS"@, "/bin/false"@),
            ("GIT_CONFIG_COUNT"@, if authenticated { "4"@ } else { "3"@ }),
            ("GIT_CONFIG_KEY_0"@, "core.hooksPath"@),
            ("GIT_CONFIG_VALUE_0"@, "/dev/null"@),
            ("GIT_CONFIG_KEY_1"@, "http.followRedirects"@),
            ("GIT_CONFIG_VALUE_1"@, "false"@),
            ("GIT_CONFIG_KEY_2"@, "protocol.ext.allow"@),
            ("GIT_CONFIG_VALUE_2"@, "never"@),
        ];
        if authenticated {
            common.push(
                ("GIT_CONFIG_KEY_3"@, "http.https://github.com/.extraHeader"@),
            ).push(("GIT_CONFIG_VALUE_3"@, self.auth_header@))
        } else {
            common
        }
    }

    pub fn git_env(&self, authenticated: bool) -> (r: Vec<(String, String)>)
        ensures
            git::env_views(r@) == self.environment(authenticated),
    {
        let mut env: Vec<(String, String)> = Vec::new();
        let home = self.runtime_home();
        git::push_env(&mut env, "PATH", GIT_PATH);
        git::push_env(&mut env, "HOME", home.as_str());
        git::push_env(&mut env, "GIT_CONFIG_NOSYSTEM", "1");
        git::push_env(&mut env, "GIT_CONFIG_SYSTEM", "/dev/null");
        git::push_env(&mut env, "GIT_CONFIG_GLOBAL", "/dev/null");
        git::push_env(&mut env, "GIT_ATTR_NOSYSTEM", "1");
        git::push_env(&mut env, "GIT_TERMINAL_PROMPT", "0");
        git::push_env(&mut env, "GIT_ASKPASS", "/bin/false");
        let count = if authenticated {
            "4"
        } else {
            "3"
        };
        git::push_env(&mut env, "GIT_CONFIG_COUNT", count);
        git::push_env(&mut env, "GIT_CONFIG_KEY_0", "core.hooksPath");
        git::push_env(&mut env, "GIT_CONFIG_VALUE_0", "/dev/null");
        git::push_env(&mut env, "GIT_CONFIG_KEY_1", "http.followRedirects");
        git::push_env(&mut env, "GIT_CONFIG_VALUE_1", "false");
        git::push_env(&mut env, "GIT_CONFIG_KEY_2", "protocol.ext.allow");
        git::push_env(&mut env, "GIT_CONFIG_VALUE_2", "never");
        assert(git::env_views(env@) =~= self.environment(false).update(
            8,
            ("GIT_CONFIG_COUNT"@, count@),
        ));
        if authenticated {
            git::push_env(&mut env, "GIT_CONFIG_KEY_3", "http.https://github.com/.extraHeader");
            git::push_env(&mut env, "GIT_CONFIG_VALUE_3", self.auth_header.as_str());
        }
        assert(git::env_views(env@) =~= self.environment(authenticated));
        env
    }
}

/// A git command that is not authenticated has no variable that holds the
/// credential.
pub proof fn law_credential_only_where_authenticated(worktrees: GitWorktrees)
    ensures
        forall|i: int|
            0 <= i < worktrees.environment(false).len() ==> (
            #[trigger] worktrees.environment(false)[i]).0 != "GIT_CONFIG_KEY_3"@
                && worktrees.environment(false)[i].0 != "GIT_CONFIG_VALUE_3"@,
{
    reveal_strlit("GIT_CONFIG_KEY_3");
    reveal_strlit("GIT_CONFIG_VALUE_3");
    reveal_strlit("PATH");
    reveal_strlit("HOME");
    reveal_strlit("GIT_CONFIG_NOSYSTEM");
    reveal_strlit("GIT_CONFIG_SYSTEM");
    reveal_strlit("GIT_CONFIG_GLOBAL");
    reveal_strlit("GIT_ATTR_NOSYSTEM");
    reveal_strlit("GIT_TERMINAL_PROMPT");
    reveal_strlit("GIT_ASKPASS");
    reveal_strlit("GIT_CONFIG_COUNT");
    reveal_strlit("GIT_CONFIG_KEY_0");
    reveal_strlit("GIT_CONFIG_VALUE_0");
    reveal_strlit("GIT_CONFIG_KEY_1");
    reveal_strlit("GIT_CONFIG_VALUE_1");
    reveal_strlit("GIT_CONFIG_KEY_2");
    reveal_strlit("GIT_CONFIG_VALUE_2");
    assert forall|i: int| 0 <= i < worktrees.environment(false).len() implies (
    #[trigger] worktrees.environment(false)[i]).0 != "GIT_CONFIG_KEY_3"@
        && worktrees.environment(false)[i].0 != "GIT_CONFIG_VALUE_3"@ by {
        let name = worktrees.environment(false)[i].0;
        if name.len() == 16 {
            assert(name[15] != '3');
        }
        if name.len() == 18 {
            assert(name[17] != '3');
        }
    }
}

/// A task's directory, as a list of names below `worktrees`.
pub open spec fn worktree_levels(target: WorkTarget, task: domain::TaskView) -> Seq<Seq<char>> {
    seq![
        target.owner_string()@,
        target.repo_string()@,
        target.kind_text(),
        numeral::decimal(target.number_value() as nat),
        worktree_key_text(task),
    ]
}

proof fn lemma_key_is_one_level(task: domain::TaskView)
    ensures
        !worktree_key_text(task).contains('/'),
        worktree_key_text(task).len() > 17,
{
    reveal_strlit("mention");
    reveal_strlit("operator_mention");
    reveal_strlit("pull_request_opened");
    reveal_strlit("-");
    let kind = task.origin.kind_text();
    let digits = numeral::hex(fnv1a(vstd::utf8::encode_utf8(task.trigger())) as nat, 16);
    numeral::lemma_hex_digits(fnv1a(vstd::utf8::encode_utf8(task.trigger())) as nat, 16);
    assert(!kind.contains('/'));
    let key = worktree_key_text(task);
    if key.contains('/') {
        let k = choose|k: int| 0 <= k < key.len() && key[k] == '/';
        if k < kind.len() {
            assert(kind[k] == '/');
        } else if k > kind.len() {
            assert(digits[k - kind.len() - 1] == '/');
        }
    }
}

proof fn lemma_number_is_one_level(number: u64)
    ensures
        !numeral::decimal(number as nat).contains('/'),
        numeral::decimal(number as nat).len() > 0,
{
    let digits = numeral::decimal(number as nat);
    numeral::lemma_decimal_digits(number as nat);
    if digits.contains('/') {
        let k = choose|k: int| 0 <= k < digits.len() && digits[k] == '/';
        assert(text::is_ascii_digit(digits[k]));
    }
}

proof fn lemma_join_level(base: Seq<char>, part: Seq<char>)
    requires
        base.len() > 0,
        base.last() != '/',
        part.len() > 0,
        !part.contains('/'),
    ensures
        path::joined_path(base, part) == base + seq!['/'] + part,
        path::joined_path(base, part).len() > 0,
        path::joined_path(base, part).last() != '/',
{
    path::lemma_join_part(base, part);
    assert(base.push('/') + part =~= base + seq!['/'] + part);
    assert(part.contains(part.last()));
}

/// A task's directory lies below the root's `worktrees` directory: it is that
/// directory, followed by five names, none of which is empty, `.` or `..` or holds
/// a slash.
pub proof fn law_worktree_stays_below_its_root(
    root: Seq<char>,
    target: WorkTarget,
    task: domain::TaskView,
)
    requires
        has_valid_names(target),
    ensures
        ({
            let base = path::joined_path(root, "worktrees"@);
            let dir = worktree_path(root, target, task);
            &&& text::has_prefix(dir, base + seq!['/'])
            &&& text::pieces(dir.skip(base.len() as int + 1), '/') == worktree_levels(target, task)
            &&& forall|i: int|
                0 <= i < 5 ==> {
                    let level = #[trigger] worktree_levels(target, task)[i];
                    level.len() > 0 && level != "."@ && level != ".."@ && !level.contains('/')
                }
        }),
{
    reveal_strlit("worktrees");
    reveal_strlit("pulls");
    reveal_strlit("issues");
    reveal_strlit(".");
    reveal_strlit("..");
    let base = path::joined_path(root, "worktrees"@);
    let levels = worktree_levels(target, task);
    let a = levels[0];
    let b = levels[1];
    let c = levels[2];
    let d = levels[3];
    let e = levels[4];
    domain::law_name_part_is_one_level(a);
    domain::law_name_part_is_one_level(b);
    lemma_number_is_one_level(target.number_value());
    lemma_key_is_one_level(task);
    assert(!c.contains('/'));
    assert(base.last() == 's');
    lemma_join_level(base, a);
    let p1 = path::joined_path(base, a);
    lemma_join_level(p1, b);
    let p2 = path::joined_path(p1, b);
    lemma_join_level(p2, c);
    let p3 = path::joined_path(p2, c);
    lemma_join_level(p3, d);
    let p4 = path::joined_path(p3, d);
    lemma_join_level(p4, e);
    let dir = worktree_path(root, target, task);
    let slash = seq!['/'];
    let below = a + slash + (b + slash + (c + slash + (d + slash + e)));
    assert(dir =~= base + slash + below);
    assert(dir.take(base.len() as int + 1) =~= base + slash);
    assert(dir.skip(base.len() as int + 1) =~= below);
    text::lemma_pieces_single(e, '/');
    text::lemma_pieces_prepend(d, e, '/');
    text::lemma_pieces_prepend(c, d + slash + e, '/');
    text::lemma_pieces_prepend(b, c + slash + (d + slash + e), '/');
    text::lemma_pieces_prepend(a, b + slash + (c + slash + (d + slash + e)), '/');
    assert(text::pieces(below, '/') =~= levels);
    numeral::lemma_decimal_digits(target.number_value() as nat);
    assert(d[0] != '.') by {
        assert(text::is_ascii_digit(d[0]));
    }
}

proof fn lemma_same_key(one: domain::TaskView, other: domain::TaskView)
    requires
        worktree_key_text(one) == worktree_key_text(other),
    ensures
        one.origin.kind_text() == other.origin.kind_text(),
        fnv1a(vstd::utf8::encode_utf8(one.trigger())) == fnv1a(
            vstd::utf8::encode_utf8(other.trigger()),
        ),
{
    reveal_strlit("-");
    let h = fnv1a(vstd::utf8::encode_utf8(one.trigger()));
    let g = fnv1a(vstd::utf8::encode_utf8(other.trigger()));
    let kind = one.origin.kind_text();
    let other_kind = other.origin.kind_text();
    numeral::lemma_hex_digits(h as nat, 16);
    numeral::lemma_hex_digits(g as nat, 16);
    let key = worktree_key_text(one);
    let n = key.len() - 16;
    assert(key.skip(n) =~= numeral::hex(h as nat, 16));
    assert(key.skip(n) =~= numeral::hex(g as nat, 16));
    numeral::law_hex16_injective(h, g);
    assert(key.take(n - 1) =~= kind);
    assert(key.take(n - 1) =~= other_kind);
}

/// Tasks on different targets, of different kinds, or with triggers of different
/// hashes have different directories.
pub proof fn law_different_tasks_have_different_worktrees(
    root: Seq<char>,
    first: WorkTarget,
    second: WorkTarget,
    one: domain::TaskView,
    other: domain::TaskView,
)
    requires
        has_valid_names(first),
        has_valid_names(second),
        worktree_path(root, first, one) == worktree_path(root, second, other),
    ensures
        first.owner_string()@ == second.owner_string()@,
        first.repo_string()@ == second.repo_string()@,
        first.kind_text() == second.kind_text(),
        first.number_value() == second.number_value(),
        one.origin.kind_text() == other.origin.kind_text(),
        fnv1a(vstd::utf8::encode_utf8(one.trigger())) == fnv1a(
            vstd::utf8::encode_utf8(other.trigger()),
        ),
{
    law_worktree_stays_below_its_root(root, first, one);
    law_worktree_stays_below_its_root(root, second, other);
    let x = worktree_levels(first, one);
    let y = worktree_levels(second, other);
    assert(x[0] == y[0] && x[1] == y[1] && x[2] == y[2] && x[3] == y[3] && x[4] == y[4]);
    numeral::law_decimal_injective(first.number_value() as nat, second.number_value() as nat);
    lemma_same_key(one, other);
}

// ---------------------------------------------------------------------------
// Preparing
// ---------------------------------------------------------------------------
/// What a preparation or a clean-up wants done next.
#[derive(Debug, Eq, PartialEq)]
pub enum WorktreeAction {
    /// There is nothing left to do.
    Nothing,
    /// See whether there is something at the path.
    Exists { path: String },
    RemoveTree { path: String },
    CreateDir { path: String },
    Git { step: GitStep, cwd: Option<String>, authenticated: bool },
}

/// What came of it; `E` says why it failed.
#[derive(Debug, Eq, PartialEq)]
pub enum WorktreeReply<E> {
    Failed(E),
    Done,
    Found(bool),
}

#[derive(Clone, Copy, Debug, Eq, PartialEq)]
pub enum PrepareStep {
    CheckStale,
    RemoveStale,
    CreateParent,
    Init,
    Fetch,
    CheckOut,
}

#[derive(Debug, Eq, PartialEq)]
pub enum PrepareStage<E> {
    At(PrepareStep),
    /// Where the step failed, and why.
    Failed { step: PrepareStep, error: E },
    Prepared,
}

/// Makes the repository of a task afresh.
#[derive(Debug, Eq, PartialEq)]
pub struct PrepareRun<E> {
    pub worktree: String,
    pub parent: String,
    pub origin: String,
    pub fetch_ref: String,
    /// Whether the fetch is authenticated.
    pub authenticated: bool,
    pub target_url: String,
    pub stage: PrepareStage<E>,
}

impl<E> PrepareRun<E> {
    pub open spec fn pending(self) -> WorktreeAction {
        match self.stage {
            PrepareStage::At(PrepareStep::CheckStale) => {
                WorktreeAction::Exists { path: self.worktree }
            },
            PrepareStage::At(PrepareStep::RemoveStale) => {
                WorktreeAction::RemoveTree { path: self.worktree }
            },
            PrepareStage::At(PrepareStep::CreateParent) => {
                WorktreeAction::CreateDir { path: self.parent }
            },
            PrepareStage::At(PrepareStep::Init) => WorktreeAction::Git {
                step: GitStep::Init { worktree: self.worktree },
                cwd: None,
                authenticated: false,
            },
            PrepareStage::At(PrepareStep::Fetch) => WorktreeAction::Git {
                step: GitStep::FetchFrom { origin: self.origin, fetch_ref: self.fetch_ref },
                cwd: Some(self.worktree),
                authenticated: self.authenticated,
            },
            PrepareStage::At(PrepareStep::CheckOut) => WorktreeAction::Git {
                step: GitStep::CheckOutFetched,
                cwd: Some(self.worktree),
                authenticated: false,
            },
            _ => WorktreeAction::Nothing,
        }
    }

    pub open spec fn after(self, reply: WorktreeReply<E>) -> PrepareRun<E> {
        let stage = match (self.stage, reply) {
            (PrepareStage::At(step), WorktreeReply::Failed(error)) => {
                PrepareStage::Failed { step, error }
            },
            (PrepareStage::At(PrepareStep::CheckStale), WorktreeReply::Found(found)) => {
                PrepareStage::At(
                    if found {
                        PrepareStep::RemoveStale
                    } else {
                        PrepareStep::CreateParent
                    },
                )
            },
            (PrepareStage::At(PrepareStep::RemoveStale), WorktreeReply::Done) => {
                PrepareStage::At(PrepareStep::CreateParent)
            },
            (PrepareStage::At(PrepareStep::CreateParent), WorktreeReply::Done) => {
                PrepareStage::At(PrepareStep::Init)
            },
            (PrepareStage::At(PrepareStep::Init), WorktreeReply::Done) => {
                PrepareStage::At(PrepareStep::Fetch)
            },
            (PrepareStage::At(PrepareStep::Fetch), WorktreeReply::Done) => {
                PrepareStage::At(PrepareStep::CheckOut)
            },
            (PrepareStage::At(PrepareStep::CheckOut), WorktreeReply::Done) => {
                PrepareStage::Prepared
            },
            (stage, _) => stage,
        };
        PrepareRun { stage, ..self }
    }

    pub fn action(&self) -> (r: WorktreeAction)
        ensures
            r == self.pending(),
    {
        match &self.stage {
            PrepareStage::At(PrepareStep::CheckStale) => {
                WorktreeAction::Exists { path: self.worktree.clone() }
            },
            PrepareStage::At(PrepareStep::RemoveStale) => {
                WorktreeAction::RemoveTree { path: self.worktree.clone() }
            },
            PrepareStage::At(PrepareStep::CreateParent) => {
                WorktreeAction::CreateDir { path: self.parent.clone() }
            },
            PrepareStage::At(PrepareStep::Init) => WorktreeAction::Git {
                step: GitStep::Init { worktree: self.worktree.clone() },
                cwd: None,
                authenticated: false,
            },
            PrepareStage::At(PrepareStep::Fetch) => WorktreeAction::Git {
                step: GitStep::FetchFrom {
                    origin: self.origin.clone(),
                    fetch_ref: self.fetch_ref.clone(),
                },
                cwd: Some(self.worktree.clone()),
                authenticated: self.authenticated,
            },
            PrepareStage::At(PrepareStep::CheckOut) => WorktreeAction::Git {
                step: GitStep::CheckOutFetched,
                cwd: Some(self.worktree.clone()),
                authenticated: false,
            },
            _ => WorktreeAction::Nothing,
        }
    }

    pub fn on_reply(self, reply: WorktreeReply<E>) -> (r: PrepareRun<E>)
        ensures
            r == self.after(reply),
    {
        let stage = match (self.stage, reply) {
            (PrepareStage::At(step), WorktreeReply::Failed(error)) => {
                PrepareStage::Failed { step, error }
            },
            (PrepareStage::At(PrepareStep::CheckStale), WorktreeReply::Found(found)) => {
                if found {
                    PrepareStage::At(PrepareStep::RemoveStale)
                } else {
                    PrepareStage::At(PrepareStep::CreateParent)
                }
            },
            (PrepareStage::At(PrepareStep::RemoveStale), WorktreeReply::Done) => {
                PrepareStage::At(PrepareStep::CreateParent)
            },
            (PrepareStage::At(PrepareStep::CreateParent), WorktreeReply::Done) => {
                PrepareStage::At(PrepareStep::Init)
            },
            (PrepareStage::At(PrepareStep::Init), WorktreeReply::Done) => {
                PrepareStage::At(PrepareStep::Fetch)
            },
            (PrepareStage::At(PrepareStep::Fetch), WorktreeReply::Done) => {
                PrepareStage::At(PrepareStep::CheckOut)
            },
            (PrepareStage::At(PrepareStep::CheckOut), WorktreeReply::Done) => {
                PrepareStage::Prepared
            },
            (stage, _) => stage,
        };
        PrepareRun {
            worktree: self.worktree,
            parent: self.parent,
            origin: self.origin,
            fetch_ref: self.fetch_ref,
            authenticated: self.authenticated,
            target_url: self.target_url,
            stage,
        }
    }

    /// The prepared repository, or why there is none; `None` as long as the
    /// preparation has not ended.
    pub fn into_worktree(self) -> (r: Option<Result<PreparedWorktree, E>>)
        ensures
            match self.stage {
                PrepareStage::At(_) => r is None,
                PrepareStage::Failed { error, .. } => r == Some(Err::<PreparedWorktree, E>(error)),
                PrepareStage::Prepared => {
                    &&& r matches Some(Ok(worktree))
                    &&& worktree.path_text() == self.worktree@
                    &&& worktree.repo_text() is None
                },
            },
    {
        match self.stage {
            PrepareStage::At(_) => None,
            PrepareStage::Failed { error, .. } => Some(Err(error)),
            PrepareStage::Prepared => Some(Ok(PreparedWorktree::new(self.worktree.as_str()))),
        }
    }

    /// What a failure of a step is about, where that needs saying.
    pub open spec fn context_text(self, step: PrepareStep) -> Option<Seq<char>> {
        match step {
            PrepareStep::RemoveStale => Some(
                "failed to remove stale task repo "@ + self.worktree@,
            ),
            PrepareStep::CreateParent => Some("failed to create "@ + self.parent@),
            PrepareStep::Fetch => Some("failed to fetch "@ + self.target_url@),
            _ => None,
        }
    }

    pub fn context(&self, step: PrepareStep) -> (r: Option<String>)
        ensures
            text::opt_view(r) == self.context_text(step),
    {
        match step {
            PrepareStep::RemoveStale => Some(
                text::cat2("failed to remove stale task repo ", self.worktree.as_str()),
            ),
            PrepareStep::CreateParent => Some(
                text::cat2("failed to create ", self.parent.as_str()),
            ),
            PrepareStep::Fetch => Some(
                text::cat2("failed to fetch ", self.target_url.as_str()),
            ),
            _ => None,
        }
    }
}

impl GitWorktrees {
    /// Begins to prepare the repository of a task.
    pub fn prepare<E>(&self, target: &WorkTarget, task: &CodexTask) -> (r: Result<
        PrepareRun<E>,
        DomainError,
    >)
        ensures
            match r {
                Ok(run) => {
                    &&& has_valid_names(*target)
                    &&& run.worktree@ == worktree_path(self.root@, *target, task@)
                    &&& run.parent@ == target_path(self.root@, *target)
                    &&& run.origin@ == "https://github.com/"@ + target.owner_string()@ + "/"@
                        + target.repo_string()@ + ".git"@
                    &&& run.fetch_ref@ == target.fetch_ref_text()
                    &&& run.authenticated
                    &&& run.target_url@ == target.html_url_string()@
                    &&& run.stage == PrepareStage::<E>::At(PrepareStep::CheckStale)
                },
                Err(error) => !has_valid_names(*target) && is_name_error(error, *target),
            },
    {
        let worktree = self.worktree_dir(target, task)?;
        let origin = self.clone_origin(target)?;
        let authenticated = origin.needs_authentication();
        Ok(
            PrepareRun {
                worktree,
                parent: self.target_dir(target),
                origin: origin.as_str().to_owned(),
                fetch_ref: target.fetch_ref(),
                authenticated,
                target_url: target.html_url().to_owned(),
                stage: PrepareStage::At(PrepareStep::CheckStale),
            },
        )
    }
}

/// The one command that is ever authenticated is the fetch from the address that
/// the preparation began with.
pub proof fn law_only_the_fetch_is_authenticated<E>(run: PrepareRun<E>, reply: WorktreeReply<E>)
    ensures
        run.pending() matches WorktreeAction::Git { step, authenticated, .. } ==> authenticated
            ==> step == (GitStep::FetchFrom { origin: run.origin, fetch_ref: run.fetch_ref }),
        run.after(reply).origin == run.origin,
        run.after(reply).worktree == run.worktree,
        run.after(reply).authenticated == run.authenticated,
{
}

/// Whatever was there before, it is removed before a repository is made: the
/// preparation goes on to `init` only past an empty place or a removal.
pub proof fn law_stale_repositories_are_removed_first<E>(run: PrepareRun<E>)
    requires
        run.stage == PrepareStage::<E>::At(PrepareStep::CheckStale),
    ensures
        run.after(WorktreeReply::Found(true)).pending() == (WorktreeAction::RemoveTree {
            path: run.worktree,
        }),
        run.after(WorktreeReply::Found(true)).after(WorktreeReply::Done) == run.after(
            WorktreeReply::Found(false),
        ),
        run.after(WorktreeReply::Done) == run,
{
}

// ---------------------------------------------------------------------------
// Where worktrees are, and how they are made
// ---------------------------------------------------------------------------
/// A root that is an absolute path stays as it is; any other lies in the current
/// directory.
pub proof fn law_where_the_root_is(root: Seq<char>, current: Seq<char>)
    ensures
        root.len() > 0 && root[0] == '/' ==> absolute_root_text(root, Some(current)) == root
            && absolute_root_text(root, None) == root,
        (root.len() == 0 || root[0] != '/') && current.len() > 0 && current.last() != '/'
            ==> absolute_root_text(root, Some(current)) == current + seq!['/'] + root,
        root.len() == 0 || root[0] != '/' ==> absolute_root_text(root, None) == seq!['.', '/']
            + root,
{
    reveal_strlit(".");
    assert("."@ =~= seq!['.']);
    if root.len() == 0 || root[0] != '/' {
        assert(absolute_root_text(root, None) =~= seq!['.', '/'] + root);
        if current.len() > 0 && current.last() != '/' {
            assert(absolute_root_text(root, Some(current)) =~= current + seq!['/'] + root);
        }
    }
}

/// The hash is FNV-1a: it begins with the offset basis, and takes each byte in
/// turn by an exclusive or and a multiplication by the prime, in 64 bits.
pub proof fn law_the_hash_is_fnv1a(bytes: Seq<u8>, byte: u8)
    ensures
        fnv1a(Seq::<u8>::empty()) == 14695981039346656037,
        fnv1a(bytes.push(byte)) == ((fnv1a(bytes) ^ (byte as u64)) * 1099511628211)
            % 18446744073709551616,
{
    assert(bytes.push(byte).drop_last() =~= bytes);
}

/// The directory of a task is below the root: `worktrees`, the owner, the
/// repository, `pulls` or `issues`, the number, and the task's kind and hash.
pub proof fn law_where_worktrees_are(
    root: Seq<char>,
    target: WorkTarget,
    task: domain::TaskView,
)
    requires
        has_valid_names(target),
    ensures
        ({
            let slash = seq!['/'];
            let kind = match target {
                WorkTarget::PullRequest(_) => "pulls"@,
                WorkTarget::Issue(_) => "issues"@,
            };
            let above = path::joined_path(root, "worktrees"@) + slash + target.owner_string()@
                + slash + target.repo_string()@ + slash + kind + slash + numeral::decimal(
                target.number_value() as nat,
            );
            &&& target_path(root, target) == above
            &&& worktree_path(root, target, task) == above + slash + task.origin.kind_text()
                + seq!['-'] + numeral::hex(
                fnv1a(vstd::utf8::encode_utf8(task.trigger())) as nat,
                16,
            )
        }),
{
    reveal_strlit("worktrees");
    reveal_strlit("pulls");
    reveal_strlit("issues");
    reveal_strlit("-");
    let base = path::joined_path(root, "worktrees"@);
    let a = target.owner_string()@;
    let b = target.repo_string()@;
    let c = target.kind_text();
    let d = numeral::decimal(target.number_value() as nat);
    let e = worktree_key_text(task);
    domain::law_name_part_is_one_level(a);
    domain::law_name_part_is_one_level(b);
    lemma_number_is_one_level(target.number_value());
    lemma_key_is_one_level(task);
    assert(!c.contains('/'));
    assert(base.last() == 's');
    lemma_join_level(base, a);
    let p1 = path::joined_path(base, a);
    lemma_join_level(p1, b);
    let p2 = path::joined_path(p1, b);
    lemma_join_level(p2, c);
    let p3 = path::joined_path(p2, c);
    lemma_join_level(p3, d);
    lemma_join_level(path::joined_path(p3, d), e);
    assert("-"@ =~= seq!['-']);
    assert(worktree_path(root, target, task) =~= target_path(root, target) + seq!['/']
        + task.origin.kind_text() + seq!['-'] + numeral::hex(
        fnv1a(vstd::utf8::encode_utf8(task.trigger())) as nat,
        16,
    ));
}

/// Git runs with a home of its own and reads no configuration of the host; it never
/// asks, runs no hooks, follows no redirects and uses no external transports. An
/// authenticated command has the credential for GitHub besides, and says so in the
/// number of its settings.
pub proof fn law_what_git_runs_with(worktrees: GitWorktrees, authenticated: bool)
    ensures
        ({
            let env = worktrees.environment(authenticated);
            &&& env.contains(("PATH"@, "/opt/homebrew/bin:/usr/local/bin:/usr/bin:/bin"@))
            &&& env.contains(("HOME"@, path::joined_path(worktrees.root@, "git-runtime"@)))
            &&& env.contains(("GIT_CONFIG_NOSYSTEM"@, "1"@))
            &&& env.contains(("GIT_CONFIG_SYSTEM"@, "/dev/null"@))
            &&& env.contains(("GIT_CONFIG_GLOBAL"@, "/dev/null"@))
            &&& env.contains(("GIT_ATTR_NOSYSTEM"@, "1"@))
            &&& env.contains(("GIT_TERMINAL_PROMPT"@, "0"@))
            &&& env.contains(("GIT_ASKPASS"@, "/bin/false"@))
            &&& env.contains(("GIT_CONFIG_KEY_0"@, "core.hooksPath"@))
            &&& env.contains(("GIT_CONFIG_VALUE_0"@, "/dev/null"@))
            &&& env.contains(("GIT_CONFIG_KEY_1"@, "http.followRedirects"@))
            &&& env.contains(("GIT_CONFIG_VALUE_1"@, "false"@))
            &&& env.contains(("GIT_CONFIG_KEY_2"@, "protocol.ext.allow"@))
            &&& env.contains(("GIT_CONFIG_VALUE_2"@, "never"@))
            &&& authenticated ==> {
                &&& env.contains(("GIT_CONFIG_COUNT"@, "4"@))
                &&& env.contains(("GIT_CONFIG_KEY_3"@, "http.https://github.com/.extraHeader"@))
                &&& env.contains(("GIT_CONFIG_VALUE_3"@, worktrees.auth_header@))
                &&& env.len() == 17
            }
            &&& !authenticated ==> env.contains(("GIT_CONFIG_COUNT"@, "3"@)) && env.len() == 15
        }),
{
    let env = worktrees.environment(authenticated);
    assert(env[0] == ("PATH"@, "/opt/homebrew/bin:/usr/local/bin:/usr/bin:/bin"@));
    assert(env[1] == ("HOME"@, path::joined_path(worktrees.root@, "git-runtime"@)));
    assert(env[2] == ("GIT_CONFIG_NOSYSTEM"@, "1"@));
    assert(env[3] == ("GIT_CONFIG_SYSTEM"@, "/dev/null"@));
    assert(env[4] == ("GIT_CONFIG_GLOBAL"@, "/dev/null"@));
    assert(env[5] == ("GIT_ATTR_NOSYSTEM"@, "1"@));
    assert(env[6] == ("GIT_TERMINAL_PROMPT"@, "0"@));
    assert(env[7] == ("GIT_ASKPASS"@, "/bin/false"@));
    assert(env[9] == ("GIT_CONFIG_KEY_0"@, "core.hooksPath"@));
    assert(env[10] == ("GIT_CONFIG_VALUE_0"@, "/dev/null"@));
    assert(env[11] == ("GIT_CONFIG_KEY_1"@, "http.followRedirects"@));
    assert(env[12] == ("GIT_CONFIG_VALUE_1"@, "false"@));
    assert(env[13] == ("GIT_CONFIG_KEY_2"@, "protocol.ext.allow"@));
    assert(env[14] == ("GIT_CONFIG_VALUE_2"@, "never"@));
    if authenticated {
        assert(env[8] == ("GIT_CONFIG_COUNT"@, "4"@));
        assert(env[15] == ("GIT_CONFIG_KEY_3"@, "http.https://github.com/.extraHeader"@));
        assert(env[16] == ("GIT_CONFIG_VALUE_3"@, worktrees.auth_header@));
    } else {
        assert(env[8] == ("GIT_CONFIG_COUNT"@, "3"@));
    }
}

/// From an empty place on, a preparation makes the directory above, then the
/// repository, fetches the ref into it with the credential, and checks out what it
/// fetched; then it is done. A step that fails ends it, with what failed.
pub proof fn law_course_of_a_preparation<E>(run: PrepareRun<E>, error: E)
    requires
        run.stage == PrepareStage::<E>::At(PrepareStep::CheckStale),
    ensures
        ({
            let free = run.after(WorktreeReply::Found(false));
            let above = free.after(WorktreeReply::Done);
            let made = above.after(WorktreeReply::Done);
            let fetched = made.after(WorktreeReply::Done);
            let ready = fetched.after(WorktreeReply::Done);
            &&& run.pending() == (WorktreeAction::Exists { path: run.worktree })
            &&& free.pending() == (WorktreeAction::CreateDir { path: run.parent })
            &&& above.pending() == (WorktreeAction::Git {
                step: GitStep::Init { worktree: run.worktree },
                cwd: None,
                authenticated: false,
            })
            &&& made.pending() == (WorktreeAction::Git {
                step: GitStep::FetchFrom { origin: run.origin, fetch_ref: run.fetch_ref },
                cwd: Some(run.worktree),
                authenticated: run.authenticated,
            })
            &&& fetched.pending() == (WorktreeAction::Git {
                step: GitStep::CheckOutFetched,
                cwd: Some(run.worktree),
                authenticated: false,
            })
            &&& ready.stage == PrepareStage::<E>::Prepared
            &&& ready.worktree == run.worktree
            &&& free.after(WorktreeReply::Failed(error)).stage == (PrepareStage::<E>::Failed {
                step: PrepareStep::CreateParent,
                error,
            })
            &&& above.after(WorktreeReply::Failed(error)).stage == (PrepareStage::<E>::Failed {
                step: PrepareStep::Init,
                error,
            })
            &&& made.after(WorktreeReply::Failed(error)).stage == (PrepareStage::<E>::Failed {
                step: PrepareStep::Fetch,
                error,
            })
            &&& fetched.after(WorktreeReply::Failed(error)).stage == (PrepareStage::<E>::Failed {
                step: PrepareStep::CheckOut,
                error,
            })
        }),
{
}

/// A name that cannot be used is reported as the owner's or the repository's, the
/// owner's first.
pub proof fn law_which_name_is_at_fault(error: DomainError, target: WorkTarget)
    requires
        is_name_error(error, target),
    ensures
        error matches DomainError::InvalidNamePart { label, value } && {
            let owner = target.owner_string()@;
            &&& !domain::valid_name_part(owner) ==> label@ == "repository owner"@ && value@
                == owner
            &&& domain::valid_name_part(owner) ==> label@ == "repository name"@ && value@
                == target.repo_string()@
        },
{
}

/// A failure to remove, to create or to fetch says what it is about.
pub proof fn law_failures_say_what_they_are_about<E>(run: PrepareRun<E>)
    ensures
        run.context_text(PrepareStep::RemoveStale) == Some(
            "failed to remove stale task repo "@ + run.worktree@,
        ),
        run.context_text(PrepareStep::CreateParent) == Some("failed to create "@ + run.parent@),
        run.context_text(PrepareStep::Fetch) == Some("failed to fetch "@ + run.target_url@),
        run.context_text(PrepareStep::Init) is None,
        run.context_text(PrepareStep::CheckOut) is None,
{
}

/// A preparation goes on only with a reply to what it asked for; once it is done, or
/// has failed, nothing changes it. Only its stage ever changes.
pub proof fn law_preparations_go_on_with_answers_only<E>(
    run: PrepareRun<E>,
    reply: WorktreeReply<E>,
)
    ensures
        ({
            let answered = match run.pending() {
                WorktreeAction::Nothing => false,
                WorktreeAction::Exists { .. } => reply is Found || reply is Failed,
                _ => reply is Done || reply is Failed,
            };
            !answered ==> run.after(reply) == run
        }),
        run.stage !is At ==> run.after(reply) == run && run.pending() is Nothing,
        run.after(reply) == (PrepareRun { stage: run.after(reply).stage, ..run }),
        run.stage matches PrepareStage::At(step) ==> (reply matches WorktreeReply::Failed(error)
            ==> run.after(reply).stage == (PrepareStage::Failed { step, error })),
{
}

/// A git command may take five minutes.
pub proof fn law_how_long_git_may_take()
    ensures
        GIT_COMMAND_TIMEOUT_SECONDS == 5 * 60,
{
}

/// A worktree's root and its credential are those that were given.
pub proof fn law_how_worktrees_begin(
    root: &str,
    token: &str,
    dir: &Option<String>,
    r: GitWorktrees,
    origin: &CloneOrigin,
    authenticated: bool,
)
    requires
        call_ensures(GitWorktrees::new, (root, token, dir), r),
        call_ensures(CloneOrigin::needs_authentication, (origin,), authenticated),
    ensures
        r.root@ == absolute_root_text(root@, text::opt_view(*dir)),
        r.auth_header@ == git::auth_header_text(token@),
        authenticated <==> *origin is GitHub,
{
}

/// The repository of a task is made from GitHub's copy of the target's repository, in
/// a place of its own below the target's; only names that can be used are taken.
pub proof fn law_where_a_task_works<E>(
    worktrees: &GitWorktrees,
    target: &WorkTarget,
    task: &CodexTask,
    r: Result<PrepareRun<E>, DomainError>,
    dir: Result<String, DomainError>,
    origin: Result<CloneOrigin, DomainError>,
)
    requires
        call_ensures(GitWorktrees::prepare::<E>, (worktrees, target, task), r),
        call_ensures(GitWorktrees::worktree_dir, (worktrees, target, task), dir),
        call_ensures(GitWorktrees::clone_origin, (worktrees, target), origin),
    ensures
        r is Ok <==> has_valid_names(*target),
        dir is Ok <==> has_valid_names(*target),
        origin is Ok <==> has_valid_names(*target),
        r matches Ok(run) ==> {
            &&& run.worktree@ == (dir->Ok_0)@
            &&& run.origin@ == (origin->Ok_0).address()
            &&& run.origin@ == "https://github.com/"@ + target.owner_string()@ + "/"@
                + target.repo_string()@ + ".git"@
            &&& run.fetch_ref@ == target.fetch_ref_text()
            &&& run.parent@ == target_path(worktrees.root@, *target)
            &&& run.authenticated
            &&& run.target_url@ == target.html_url_string()@
            &&& run.pending() == (WorktreeAction::Exists { path: run.worktree })
        },
{
}

/// A worktree that was prepared is the one that was asked for; a failure stays what it
/// is.
pub proof fn law_what_a_preparation_gives<E>(
    run: PrepareRun<E>,
    r: Option<Result<PreparedWorktree, E>>,
)
    requires
        call_ensures(PrepareRun::<E>::into_worktree, (run,), r),
    ensures
        r is None <==> run.stage is At,
        run.stage is Prepared ==> (r matches Some(Ok(worktree)) && worktree.path_text()
            == run.worktree@ && worktree.repo_text() is None),
        run.stage matches PrepareStage::Failed { error, .. } ==> r == Some(
            Err::<PreparedWorktree, E>(error),
        ),
{
}

} // verus!
