//! The disposable worker that runs Codex on one review.
//!
//! Each review runs in its own resource-bounded container. The worker receives
//! a read-only repository and a read-only Codex directory, and nothing else of
//! the host; GitHub credentials never reach it.
use crate::domain::{CodexPromptTemplates, CodexTask, CodexTaskOrigin, DomainError};
use crate::maid::CodexRun;
use crate::{domain, git, numeral, text};
use vstd::prelude::*;

verus! {

pub const CODEX_WORKER_IMAGE: &'static str = "maid-codex-worker:0.153.4";

/// Where the container runtime is looked for.
pub const DOCKER_PATH: &'static str = "/usr/local/bin:/usr/bin:/bin";

pub const PIPE_DRAIN_TIMEOUT_MILLIS: u64 = 1000;

pub const EXIT_AFTER_COMPLETION_TIMEOUT_MILLIS: u64 = 5000;

pub const TASK_TIMEOUT_MILLIS: u64 = 1800000;

pub const CLEANUP_TIMEOUT_MILLIS: u64 = 10000;

pub const MAX_STDOUT_BYTES: usize = 2097152;

pub const MAX_STDERR_BYTES: usize = 65536;

pub const CODEX_HOME_IN_WORKER: &'static str = "/run/maid/codex";

pub const WORKSPACE_IN_WORKER: &'static str = "/workspace";

pub const REVIEW_PROFILE: &'static str = "maid-review";

// ---------------------------------------------------------------------------
// Errors
// ---------------------------------------------------------------------------
#[derive(Debug, Eq, PartialEq)]
pub enum CodexError {
    CommaInMount { label: String, path: String },
    NotARealDirectory { path: String },
    StdoutLimit,
    OutputLimit,
    TimeLimit { seconds: u64 },
    Exited { status: String, stderr: Vec<u8> },
    EmptyResponse,
}

impl CodexError {
    pub open spec fn message_text(self) -> Seq<char> {
        match self {
            CodexError::CommaInMount { label, path } => {
                label@ + " cannot contain a comma: "@ + path@
            },
            CodexError::NotARealDirectory { path } => {
                "private directory must be a real directory: "@ + path@
            },
            CodexError::StdoutLimit => "Codex stdout exceeded capture limit"@,
            CodexError::OutputLimit => "process output exceeded limit"@,
            CodexError::TimeLimit { seconds } => {
                "review worker exceeded its "@ + numeral::decimal(seconds as nat)
                    + " second time limit"@
            },
            CodexError::Exited { status, stderr } => {
                "review worker exited with "@ + status@ + ": "@ + text::trimmed(
                    text::lossy_text(stderr@),
                )
            },
            CodexError::EmptyResponse => "Codex produced an empty response"@,
        }
    }

    /// The error in words.
    pub fn message(&self) -> (r: String)
        ensures
            r@ == self.message_text(),
    {
        match self {
            CodexError::CommaInMount { label, path } => {
                text::cat3(label.as_str(), " cannot contain a comma: ", path.as_str())
            },
            CodexError::NotARealDirectory { path } => {
                text::cat2("private directory must be a real directory: ", path.as_str())
            },
            CodexError::StdoutLimit => "Codex stdout exceeded capture limit".to_owned(),
            CodexError::OutputLimit => "process output exceeded limit".to_owned(),
            CodexError::TimeLimit { seconds } => text::cat3(
                "review worker exceeded its ",
                numeral::to_decimal(*seconds).as_str(),
                " second time limit",
            ),
            CodexError::Exited { status, stderr } => text::cat4(
                "review worker exited with ",
                status.as_str(),
                ": ",
                text::trim(text::from_utf8_lossy(stderr).as_str()).as_str(),
            ),
            CodexError::EmptyResponse => "Codex produced an empty response".to_owned(),
        }
    }
}

/// A directory for secrets has to be a directory itself, not a link to one.
pub fn check_private_directory(path: &str, is_symlink: bool, is_dir: bool) -> (r: Result<
    (),
    CodexError,
>)
    ensures
        match r {
            Ok(()) => is_dir && !is_symlink,
            Err(CodexError::NotARealDirectory { path: p }) => {
                (is_symlink || !is_dir) && p@ == path@
            },
            Err(_) => false,
        },
{
    if is_symlink || !is_dir {
        Err(CodexError::NotARealDirectory { path: path.to_owned() })
    } else {
        Ok(())
    }
}

// ---------------------------------------------------------------------------
// The command
// ---------------------------------------------------------------------------
/// A host path that can stand in a mount option: it holds no comma, so it cannot
/// add an option of its own.
#[derive(Debug, Eq, PartialEq)]
pub struct MountSource {
    path: String,
}

impl View for MountSource {
    type V = Seq<char>;

    closed spec fn view(&self) -> Seq<char> {
        self.path@
    }
}

impl MountSource {
    #[verifier::type_invariant]
    spec fn one_field(self) -> bool {
        !self.path@.contains(',')
    }

    /// Takes a resolved path, unless it holds a comma.
    pub fn new(path: &str, label: &str) -> (r: Result<MountSource, CodexError>)
        ensures
            match r {
                Ok(source) => source@ == path@ && !path@.contains(','),
                Err(CodexError::CommaInMount { label: l, path: p }) => {
                    path@.contains(',') && l@ == label@ && p@ == path@
                },
                Err(_) => false,
            },
    {
        if text::contains_char(path, ',') {
            Err(CodexError::CommaInMount { label: label.to_owned(), path: path.to_owned() })
        } else {
            Ok(MountSource { path: path.to_owned() })
        }
    }

    pub fn path(&self) -> (r: &str)
        ensures
            r@ == self@,
            !r@.contains(','),
    {
        proof {
            use_type_invariant(self);
        }
        self.path.as_str()
    }
}

/// The read-only bind mount of a host path.
pub open spec fn mount_option(source: Seq<char>, destination: Seq<char>) -> Seq<char> {
    "type=bind,src="@ + source + ",dst="@ + destination + ",readonly"@
}

/// A mount option has exactly four fields, and the last makes it read-only: no
/// source can add or change a field.
pub proof fn law_mount_is_read_only(source: Seq<char>, destination: Seq<char>)
    requires
        !source.contains(','),
        !destination.contains(','),
    ensures
        text::pieces(mount_option(source, destination), ',') == seq![
            "type=bind"@,
            "src="@ + source,
            "dst="@ + destination,
            "readonly"@,
        ],
{
    reveal_strlit("type=bind,src=");
    reveal_strlit("type=bind");
    reveal_strlit("src=");
    reveal_strlit(",dst=");
    reveal_strlit("dst=");
    reveal_strlit(",readonly");
    reveal_strlit("readonly");
    let a = "type=bind"@;
    let b = "src="@ + source;
    let c = "dst="@ + destination;
    let d = "readonly"@;
    assert(!b.contains(',')) by {
        if b.contains(',') {
            let k = choose|k: int| 0 <= k < b.len() && b[k] == ',';
            if k >= 4 {
                assert(source[k - 4] == ',');
            }
        }
    }
    assert(!c.contains(',')) by {
        if c.contains(',') {
            let k = choose|k: int| 0 <= k < c.len() && c[k] == ',';
            if k >= 4 {
                assert(destination[k - 4] == ',');
            }
        }
    }
    text::lemma_pieces_single(d, ',');
    text::lemma_pieces_prepend(c, d, ',');
    text::lemma_pieces_prepend(b, c + seq![','] + d, ',');
    text::lemma_pieces_prepend(a, b + seq![','] + (c + seq![','] + d), ',');
    assert(mount_option(source, destination) =~= a + seq![','] + (b + seq![','] + (c + seq![',']
        + d)));
    assert(text::pieces(mount_option(source, destination), ',') =~= seq![a, b, c, d]);
}

/// A row of equal quotes that is too long to be counted in a byte.
pub const LONG_QUOTE_RUN: usize = 256;

/// From `from` on there stands a long row of the quote.
pub open spec fn long_run_at(value: Seq<char>, quote: char, from: int) -> bool {
    &&& 0 <= from <= value.len() - LONG_QUOTE_RUN
    &&& forall|i: int| from <= i < from + LONG_QUOTE_RUN ==> #[trigger] value[i] == quote
}

pub open spec fn has_long_run(value: Seq<char>, quote: char) -> bool {
    exists|from: int| long_run_at(value, quote, from)
}

/// Nowhere in a value is there a long row of single or of double quotes.
pub open spec fn quote_runs_fit(value: Seq<char>) -> bool {
    !has_long_run(value, '\'') && !has_long_run(value, '"')
}

fn has_no_long_run(value: &Vec<char>, quote: char) -> (r: bool)
    ensures
        r == !has_long_run(value@, quote),
{
    let mut i: usize = 0;
    let mut run: usize = 0;
    while i < value.len()
        invariant
            i <= value@.len(),
            run <= i,
            run < LONG_QUOTE_RUN,
            forall|k: int| i - run <= k < i ==> #[trigger] value@[k] == quote,
            run < i ==> value@[i - run - 1] != quote,
            forall|from: int|
                from + LONG_QUOTE_RUN <= i ==> !#[trigger] long_run_at(value@, quote, from),
        decreases value@.len() - i,
    {
        if value[i] == quote {
            run = run + 1;
        } else {
            run = 0;
        }
        i = i + 1;
        if run == LONG_QUOTE_RUN {
            assert(long_run_at(value@, quote, i - LONG_QUOTE_RUN));
            return false;
        }
        assert forall|from: int| from + LONG_QUOTE_RUN <= i implies !#[trigger] long_run_at(
            value@,
            quote,
            from,
        ) by {
            if from + LONG_QUOTE_RUN == i && long_run_at(value@, quote, from) {
                assert(value@[i - run - 1] == quote);
            }
        }
    }
    true
}

/// Whether a value can be written as a TOML string.
pub fn quotes_fit(value: &str) -> (r: bool)
    ensures
        r == quote_runs_fit(value@),
{
    let chars = text::to_chars(value);
    has_no_long_run(&chars, '\'') && has_no_long_run(&chars, '"')
}

/// What TOML writes for a string value.
pub uninterp spec fn toml_string_text(value: Seq<char>) -> Seq<char>;

/// `toml::Value::String`, displayed: the value as a TOML string, quoted and
/// escaped as the crate sees fit. Nothing is claimed of it but that it depends on
/// the value alone. The crate counts rows of equal quotes in a byte; where that
/// count would overflow, the call may panic.
#[verifier::external_body]
fn toml_string(value: &str) -> (r: String)
    requires
        quote_runs_fit(value@),
    ensures
        r@ == toml_string_text(value@),
{
    toml::Value::String(value.to_owned()).to_string()
}

/// A setting of Codex, given its value as TOML.
pub fn config_entry(key: &str, rendered: &str) -> (r: String)
    ensures
        r@ == key@ + "="@ + rendered@,
{
    text::cat3(key, "=", rendered)
}

/// A setting of Codex whose value is a string.
pub fn codex_config_string(key: &str, value: &str) -> (r: String)
    requires
        quote_runs_fit(value@),
    ensures
        r@ == key@ + "="@ + toml_string_text(value@),
{
    config_entry(key, toml_string(value).as_str())
}

pub open spec fn filesystem_policy_text() -> Seq<char> {
    "permissions."@ + REVIEW_PROFILE@
        + ".filesystem={ \":root\" = \"deny\", \":minimal\" = \"read\", \":tmpdir\" = \"deny\", \":slash_tmp\" = \"deny\", \":workspace_roots\" = { \".\" = \"read\" } }"@
}

/// Of the file system Codex may read a minimum and the workspace, no more.
pub fn review_filesystem_policy() -> (r: String)
    ensures
        r@ == filesystem_policy_text(),
{
    text::cat3(
        "permissions.",
        REVIEW_PROFILE,
        ".filesystem={ \":root\" = \"deny\", \":minimal\" = \"read\", \":tmpdir\" = \"deny\", \":slash_tmp\" = \"deny\", \":workspace_roots\" = { \".\" = \"read\" } }",
    )
}

/// How reviews are run: the container runtime and image, the Codex directory,
/// the model, the prompts, and how long a review may take.
#[derive(Debug, Eq, PartialEq)]
pub struct CodexWorker {
    pub runtime_bin: String,
    pub image: String,
    pub codex_home: String,
    pub model: String,
    pub reasoning_effort: String,
    pub prompts: CodexPromptTemplates,
    pub exit_after_completion_timeout_millis: u64,
    pub task_timeout_millis: u64,
}

/// The arguments that fence the container in.
pub open spec fn isolation_args(
    worktree: Seq<char>,
    codex_home: Seq<char>,
    container_name: Seq<char>,
    uid: u32,
    gid: u32,
) -> Seq<Seq<char>> {
    let user = numeral::decimal(uid as nat);
    let group = numeral::decimal(gid as nat);
    seq![
        "run"@,
        "--rm"@,
        "--init"@,
        "--name"@,
        container_name,
        "--read-only"@,
        "--cap-drop=ALL"@,
        "--security-opt=no-new-privileges"@,
        "--security-opt=seccomp=unconfined"@,
        "--pids-limit"@,
        "256"@,
        "--memory"@,
        "8g"@,
        "--cpus"@,
        "2"@,
        "--user"@,
        user + ":"@ + group,
        "--workdir"@,
        WORKSPACE_IN_WORKER@,
        "--env"@,
        "HOME=/tmp/maid-home"@,
        "--env"@,
        "CODEX_HOME="@ + CODEX_HOME_IN_WORKER@,
        "--mount"@,
        mount_option(worktree, WORKSPACE_IN_WORKER@),
        "--mount"@,
        mount_option(codex_home, CODEX_HOME_IN_WORKER@),
        "--tmpfs"@,
        "/tmp:rw,nosuid,nodev,noexec,size=64m,uid="@ + user + ",gid="@ + group + ",mode=700"@,
    ]
}

/// The settings that fence Codex in.
pub open spec fn config_args(model: Seq<char>, reasoning_effort: Seq<char>) -> Seq<Seq<char>> {
    seq![
        "--strict-config"@,
        "--model"@,
        model,
        "--config"@,
        "model_reasoning_effort"@ + "="@ + toml_string_text(reasoning_effort),
        "--config"@,
        "shell_environment_policy.inherit=\"none\""@,
        "--config"@,
        "allow_login_shell=false"@,
        "--config"@,
        "web_search=\"disabled\""@,
        "--config"@,
        "project_doc_max_bytes=0"@,
        "--config"@,
        "default_permissions=\""@ + REVIEW_PROFILE@ + "\""@,
        "--config"@,
        filesystem_policy_text(),
        "--config"@,
        "permissions."@ + REVIEW_PROFILE@ + ".network={ enabled = false }"@,
        "--config"@,
        "approval_policy=\"never\""@,
    ]
}

/// The arguments that run one prompt and leave nothing behind.
pub open spec fn exec_args() -> Seq<Seq<char>> {
    seq![
        "exec"@,
        "--ignore-user-config"@,
        "--ignore-rules"@,
        "--ephemeral"@,
        "--color"@,
        "never"@,
        "--json"@,
        "--skip-git-repo-check"@,
        "-"@,
    ]
}

/// All the arguments of the container runtime for one review.
pub open spec fn review_args(
    worker: CodexWorker,
    worktree: Seq<char>,
    codex_home: Seq<char>,
    container_name: Seq<char>,
    uid: u32,
    gid: u32,
) -> Seq<Seq<char>> {
    isolation_args(worktree, codex_home, container_name, uid, gid) + seq![worker.image@]
        + config_args(worker.model@, worker.reasoning_effort@) + exec_args()
}

fn push_all(list: &mut Vec<String>, items: &Vec<&str>)
    ensures
        text::views(final(list)@) == text::views(old(list)@) + items@.map_values(|s: &str| s@),
{
    let ghost before = text::views(list@);
    let ghost added = items@.map_values(|s: &str| s@);
    let mut i: usize = 0;
    assert(before + added.take(0) =~= before);
    while i < items.len()
        invariant
            added == items@.map_values(|s: &str| s@),
            i <= items@.len(),
            text::views(list@) == before + added.take(i as int),
        decreases items@.len() - i,
    {
        let ghost so_far = text::views(list@);
        list.push(items[i].to_owned());
        proof {
            assert(text::views(list@) =~= so_far.push(items@[i as int]@));
            assert(added.take(i + 1) =~= added.take(i as int).push(added[i as int]));
            assert(before + added.take(i + 1) =~= (before + added.take(i as int)).push(
                added[i as int],
            ));
        }
        i = i + 1;
    }
    assert(added.take(added.len() as int) =~= added);
}

impl CodexWorker {
    pub fn new(
        codex_home: &str,
        model: &str,
        reasoning_effort: &str,
        prompts: CodexPromptTemplates,
    ) -> (r: CodexWorker)
        ensures
            r.runtime_bin@ == "docker"@,
            r.image@ == CODEX_WORKER_IMAGE@,
            r.codex_home@ == codex_home@,
            r.model@ == model@,
            r.reasoning_effort@ == reasoning_effort@,
            r.prompts == prompts,
            r.exit_after_completion_timeout_millis == EXIT_AFTER_COMPLETION_TIMEOUT_MILLIS,
            r.exit_after_completion_timeout_millis == 5 * 1000,
            r.task_timeout_millis == TASK_TIMEOUT_MILLIS,
            r.task_timeout_millis == 30 * 60 * 1000,
    {
        CodexWorker {
            runtime_bin: "docker".to_owned(),
            image: CODEX_WORKER_IMAGE.to_owned(),
            codex_home: codex_home.to_owned(),
            model: model.to_owned(),
            reasoning_effort: reasoning_effort.to_owned(),
            prompts,
            exit_after_completion_timeout_millis: EXIT_AFTER_COMPLETION_TIMEOUT_MILLIS,
            task_timeout_millis: TASK_TIMEOUT_MILLIS,
        }
    }

    /// The arguments of the container runtime for one review.
    pub fn command(
        &self,
        worktree: &MountSource,
        codex_home: &MountSource,
        container_name: &str,
        uid: u32,
        gid: u32,
    ) -> (r: Vec<String>)
        requires
            quote_runs_fit(self.reasoning_effort@),
        ensures
            text::views(r@) == review_args(
                *self,
                worktree@,
                codex_home@,
                container_name@,
                uid,
                gid,
            ),
    {
        let user = numeral::to_decimal(uid as u64);
        let group = numeral::to_decimal(gid as u64);
        let identity = text::cat3(user.as_str(), ":", group.as_str());
        let home = text::cat2("CODEX_HOME=", CODEX_HOME_IN_WORKER);
        let workspace_mount = text::cat5(
            "type=bind,src=",
            worktree.path(),
            ",dst=",
            WORKSPACE_IN_WORKER,
            ",readonly",
        );
        let home_mount = text::cat5(
            "type=bind,src=",
            codex_home.path(),
            ",dst=",
            CODEX_HOME_IN_WORKER,
            ",readonly",
        );
        let tmpfs = text::cat5(
            "/tmp:rw,nosuid,nodev,noexec,size=64m,uid=",
            user.as_str(),
            ",gid=",
            group.as_str(),
            ",mode=700",
        );
        let mut args: Vec<String> = Vec::new();
        let isolation: Vec<&str> = vec![
            "run",
            "--rm",
            "--init",
            "--name",
            container_name,
            "--read-only",
            "--cap-drop=ALL",
            "--security-opt=no-new-privileges",
            "--security-opt=seccomp=unconfined",
            "--pids-limit",
            "256",
            "--memory",
            "8g",
            "--cpus",
            "2",
            "--user",
            identity.as_str(),
            "--workdir",
            WORKSPACE_IN_WORKER,
            "--env",
            "HOME=/tmp/maid-home",
            "--env",
            home.as_str(),
            "--mount",
            workspace_mount.as_str(),
            "--mount",
            home_mount.as_str(),
            "--tmpfs",
            tmpfs.as_str(),
        ];
        push_all(&mut args, &isolation);
        proof {
            assert(isolation@.map_values(|s: &str| s@) =~= isolation_args(
                worktree@,
                codex_home@,
                container_name@,
                uid,
                gid,
            ));
            assert(text::views(args@) =~= isolation_args(
                worktree@,
                codex_home@,
                container_name@,
                uid,
                gid,
            ));
        }
        let ghost fenced = text::views(args@);
        args.push(self.image.clone());
        assert(text::views(args@) =~= fenced + seq![self.image@]);
        self.push_config(&mut args);
        let run: Vec<&str> = vec![
            "exec",
            "--ignore-user-config",
            "--ignore-rules",
            "--ephemeral",
            "--color",
            "never",
            "--json",
            "--skip-git-repo-check",
            "-",
        ];
        push_all(&mut args, &run);
        assert(run@.map_values(|s: &str| s@) =~= exec_args());
        args
    }

    fn push_config(&self, args: &mut Vec<String>)
        requires
            quote_runs_fit(self.reasoning_effort@),
        ensures
            text::views(final(args)@) == text::views(old(args)@) + config_args(
                self.model@,
                self.reasoning_effort@,
            ),
    {
        let effort = codex_config_string("model_reasoning_effort", self.reasoning_effort.as_str());
        let permissions = text::cat3("default_permissions=\"", REVIEW_PROFILE, "\"");
        let filesystem = review_filesystem_policy();
        let network = text::cat3("permissions.", REVIEW_PROFILE, ".network={ enabled = false }");
        let config: Vec<&str> = vec![
            "--strict-config",
            "--model",
            self.model.as_str(),
            "--config",
            effort.as_str(),
            "--config",
            "shell_environment_policy.inherit=\"none\"",
            "--config",
            "allow_login_shell=false",
            "--config",
            "web_search=\"disabled\"",
            "--config",
            "project_doc_max_bytes=0",
            "--config",
            permissions.as_str(),
            "--config",
            filesystem.as_str(),
            "--config",
            network.as_str(),
            "--config",
            "approval_policy=\"never\"",
        ];
        push_all(args, &config);
        assert(config@.map_values(|s: &str| s@) =~= config_args(
            self.model@,
            self.reasoning_effort@,
        ));
    }
}

pub open spec fn container_name_text(process: u32, sequence: u64) -> Seq<char> {
    "maid-review-"@ + numeral::decimal(process as nat) + "-"@ + numeral::decimal(sequence as nat)
}

/// The name of a container: one for each review of a process.
pub fn container_name(process: u32, sequence: u64) -> (r: String)
    ensures
        r@ == container_name_text(process, sequence),
{
    text::cat4(
        "maid-review-",
        numeral::to_decimal(process as u64).as_str(),
        "-",
        numeral::to_decimal(sequence).as_str(),
    )
}

/// Two reviews of one process have different containers.
pub proof fn law_container_names_are_distinct(process: u32, first: u64, second: u64)
    requires
        first != second,
    ensures
        container_name_text(process, first) != container_name_text(process, second),
{
    let head = "maid-review-"@ + numeral::decimal(process as nat) + "-"@;
    let a = container_name_text(process, first);
    let b = container_name_text(process, second);
    assert(a.skip(head.len() as int) =~= numeral::decimal(first as nat));
    assert(b.skip(head.len() as int) =~= numeral::decimal(second as nat));
    if a == b {
        numeral::law_decimal_injective(first as nat, second as nat);
    }
}

/// The whole environment of the container runtime: nothing of the bot's own
/// environment reaches it, its credentials least of all.
pub fn runtime_env() -> (r: Vec<(String, String)>)
    ensures
        git::env_views(r@) == seq![("PATH"@, DOCKER_PATH@)],
        git::env_views(r@) == seq![("PATH"@, "/usr/local/bin:/usr/bin:/bin"@)],
{
    let mut env: Vec<(String, String)> = Vec::new();
    git::push_env(&mut env, "PATH", DOCKER_PATH);
    assert(git::env_views(env@) =~= seq![("PATH"@, DOCKER_PATH@)]);
    env
}

/// `option` stands in `args`, with `value` behind it.
pub open spec fn has_option(args: Seq<Seq<char>>, option: Seq<char>, value: Seq<char>) -> bool {
    exists|i: int|
        0 <= i < args.len() - 1 && #[trigger] args[i] == option && args[i + 1] == value
}

/// Whatever is reviewed, by whatever model: the container's root is read-only,
/// it has no capabilities and gains no privileges, and its processes, memory,
/// processors and temporary files are limited. Codex ignores user configuration
/// and rules, keeps no session, asks for no approval, gives its commands no
/// network, and may read the workspace only.
pub proof fn law_every_review_is_fenced_in(
    worker: CodexWorker,
    worktree: Seq<char>,
    codex_home: Seq<char>,
    container_name: Seq<char>,
    uid: u32,
    gid: u32,
)
    ensures
        ({
            let args = review_args(worker, worktree, codex_home, container_name, uid, gid);
            &&& args.contains("--rm"@)
            &&& args.contains("--read-only"@)
            &&& args.contains("--cap-drop=ALL"@)
            &&& args.contains("--security-opt=no-new-privileges"@)
            &&& has_option(args, "--pids-limit"@, "256"@)
            &&& has_option(args, "--memory"@, "8g"@)
            &&& has_option(args, "--cpus"@, "2"@)
            &&& args.contains("--ignore-user-config"@)
            &&& args.contains("--ignore-rules"@)
            &&& args.contains("--ephemeral"@)
            &&& has_option(args, "--config"@, "approval_policy=\"never\""@)
            &&& has_option(args, "--config"@, filesystem_policy_text())
            &&& has_option(
                args,
                "--config"@,
                "permissions."@ + REVIEW_PROFILE@ + ".network={ enabled = false }"@,
            )
        }),
{
    let args = review_args(worker, worktree, codex_home, container_name, uid, gid);
    let fence = isolation_args(worktree, codex_home, container_name, uid, gid).len() as int;
    let settings = fence + 1;
    let run = settings + config_args(worker.model@, worker.reasoning_effort@).len();
    assert(args[1] == "--rm"@);
    assert(args[5] == "--read-only"@);
    assert(args[6] == "--cap-drop=ALL"@);
    assert(args[7] == "--security-opt=no-new-privileges"@);
    assert(args[9] == "--pids-limit"@ && args[10] == "256"@);
    assert(args[11] == "--memory"@ && args[12] == "8g"@);
    assert(args[13] == "--cpus"@ && args[14] == "2"@);
    assert(args[settings + 15] == "--config"@ && args[settings + 16] == filesystem_policy_text());
    assert(args[settings + 17] == "--config"@ && args[settings + 18] == "permissions."@
        + REVIEW_PROFILE@ + ".network={ enabled = false }"@);
    assert(args[settings + 19] == "--config"@ && args[settings + 20]
        == "approval_policy=\"never\""@);
    assert(args[run + 1] == "--ignore-user-config"@);
    assert(args[run + 2] == "--ignore-rules"@);
    assert(args[run + 3] == "--ephemeral"@);
}

/// The read-only mount of `source` stands at `at`.
pub open spec fn is_mount(
    args: Seq<Seq<char>>,
    at: int,
    source: Seq<char>,
    destination: Seq<char>,
) -> bool {
    &&& 0 <= at < args.len() - 1
    &&& args[at] == "--mount"@
    &&& args[at + 1] == mount_option(source, destination)
}

/// Of the arguments up to the image, which are all that the runtime takes for
/// itself, there are exactly two mounts: the repository and the Codex directory,
/// both read-only.
pub proof fn law_only_the_repository_and_codex_are_mounted(
    worker: CodexWorker,
    worktree: Seq<char>,
    codex_home: Seq<char>,
    process: u32,
    sequence: u64,
    uid: u32,
    gid: u32,
)
    ensures
        ({
            let args = review_args(
                worker,
                worktree,
                codex_home,
                container_name_text(process, sequence),
                uid,
                gid,
            );
            let image = args.len() - config_args(worker.model@, worker.reasoning_effort@).len()
                - exec_args().len() - 1;
            &&& args[image] == worker.image@
            &&& exists|first: int, second: int|
                {
                    &&& first < second < image - 1
                    &&& #[trigger] is_mount(args, first, worktree, WORKSPACE_IN_WORKER@)
                    &&& #[trigger] is_mount(args, second, codex_home, CODEX_HOME_IN_WORKER@)
                    &&& forall|i: int|
                        0 <= i < image && #[trigger] args[i] == "--mount"@ ==> i == first || i
                            == second
                }
        }),
{
    let name = container_name_text(process, sequence);
    let args = isolation_args(worktree, codex_home, name, uid, gid);
    let all = review_args(worker, worktree, codex_home, name, uid, gid);
    let user = numeral::decimal(uid as nat);
    reveal_strlit("--mount");
    reveal_strlit("run");
    reveal_strlit("--rm");
    reveal_strlit("--init");
    reveal_strlit("--name");
    reveal_strlit("maid-review-");
    reveal_strlit("--read-only");
    reveal_strlit("--cap-drop=ALL");
    reveal_strlit("--security-opt=no-new-privileges");
    reveal_strlit("--security-opt=seccomp=unconfined");
    reveal_strlit("--pids-limit");
    reveal_strlit("256");
    reveal_strlit("--memory");
    reveal_strlit("8g");
    reveal_strlit("--cpus");
    reveal_strlit("2");
    reveal_strlit("--user");
    reveal_strlit("--workdir");
    reveal_strlit("/workspace");
    reveal_strlit("--env");
    reveal_strlit("HOME=/tmp/maid-home");
    reveal_strlit("CODEX_HOME=");
    reveal_strlit("type=bind,src=");
    reveal_strlit("--tmpfs");
    reveal_strlit("/tmp:rw,nosuid,nodev,noexec,size=64m,uid=");
    numeral::lemma_decimal_digits(uid as nat);
    assert(text::is_ascii_digit(user[0]));
    let option = "--mount"@;
    assert(name[0] == 'm');
    assert(args[16][0] == user[0]);
    assert(args[22][0] == 'C');
    assert(args[24][0] == 't');
    assert(args[26][0] == 't');
    assert(args[28][0] == '/');
    assert forall|i: int| 0 <= i < args.len() && #[trigger] args[i] == option implies i == 23 || i
        == 25 by {
        assert(args[i].len() == 7 && args[i][0] == '-' && args[i][3] == 'o');
    }
    assert forall|i: int| 0 <= i < args.len() implies #[trigger] all[i] == args[i] by {}
    assert(all[args.len() as int] == worker.image@);
    assert(is_mount(all, 23, worktree, WORKSPACE_IN_WORKER@));
    assert(is_mount(all, 25, codex_home, CODEX_HOME_IN_WORKER@));
}

/// The arguments that remove a container by force.
pub fn removal_args(container_name: &str) -> (r: Vec<String>)
    ensures
        text::views(r@) == seq!["rm"@, "--force"@, container_name@],
{
    let mut args: Vec<String> = Vec::new();
    args.push("rm".to_owned());
    args.push("--force".to_owned());
    args.push(container_name.to_owned());
    assert(text::views(args@) =~= seq!["rm"@, "--force"@, container_name@]);
    args
}

// ---------------------------------------------------------------------------
// Output
// ---------------------------------------------------------------------------
/// The complete lines of a byte stream, each with its line feed, and what
/// follows the last line feed.
#[verifier::ext_equal]
pub struct Lines {
    pub complete: Seq<Seq<u8>>,
    pub pending: Seq<u8>,
}

impl Lines {
    pub open spec fn with_byte(self, byte: u8) -> Lines {
        let line = self.pending.push(byte);
        if byte == 10 {
            Lines { complete: self.complete.push(line), pending: Seq::empty() }
        } else {
            Lines { complete: self.complete, pending: line }
        }
    }

    pub open spec fn with_bytes(self, bytes: Seq<u8>) -> Lines
        decreases bytes.len(),
    {
        if bytes.len() == 0 {
            self
        } else {
            self.with_bytes(bytes.drop_last()).with_byte(bytes.last())
        }
    }
}

/// How a stream is cut into chunks makes no difference to its lines.
pub proof fn law_lines_do_not_depend_on_chunks(lines: Lines, first: Seq<u8>, second: Seq<u8>)
    ensures
        lines.with_bytes(first).with_bytes(second) == lines.with_bytes(first + second),
    decreases second.len(),
{
    if second.len() == 0 {
        assert(first + second =~= first);
    } else {
        law_lines_do_not_depend_on_chunks(lines, first, second.drop_last());
        assert((first + second).drop_last() =~= first + second.drop_last());
    }
}

/// All the bytes of a list of lines.
pub open spec fn run_together(lines: Seq<Seq<u8>>) -> Seq<u8>
    decreases lines.len(),
{
    if lines.len() == 0 {
        Seq::empty()
    } else {
        run_together(lines.drop_last()) + lines.last()
    }
}

/// No byte of a stream is lost or moved, a complete line has one line feed, at
/// its end, and what is pending has none.
pub proof fn law_lines_are_the_stream(bytes: Seq<u8>)
    ensures
        ({
            let lines = (Lines { complete: Seq::empty(), pending: Seq::empty() }).with_bytes(bytes);
            &&& run_together(lines.complete) + lines.pending == bytes
            &&& !lines.pending.contains(10u8)
            &&& forall|i: int|
                0 <= i < lines.complete.len() ==> {
                    let line = #[trigger] lines.complete[i];
                    line.len() > 0 && line.last() == 10 && !line.drop_last().contains(10u8)
                }
        }),
    decreases bytes.len(),
{
    let none = Lines { complete: Seq::empty(), pending: Seq::empty() };
    if bytes.len() == 0 {
        assert(run_together(none.complete) + none.pending =~= bytes);
    } else {
        law_lines_are_the_stream(bytes.drop_last());
        let before = none.with_bytes(bytes.drop_last());
        let after = none.with_bytes(bytes);
        let line = before.pending.push(bytes.last());
        let whole = run_together(before.complete);
        assert(line.drop_last() =~= before.pending);
        assert(bytes =~= bytes.drop_last().push(bytes.last()));
        assert(whole + line =~= (whole + before.pending).push(bytes.last()));
        if bytes.last() == 10 {
            assert(after.complete.drop_last() =~= before.complete);
            assert(run_together(after.complete) == whole + line);
            assert(run_together(after.complete) + after.pending =~= whole + line);
        } else {
            if after.pending.contains(10u8) {
                let k = choose|k: int| 0 <= k < after.pending.len() && after.pending[k] == 10;
                assert(before.pending[k] == 10);
            }
        }
    }
}

/// Reads the standard output of a worker line by line, up to a limit. A chunk
/// that goes over the limit is dropped, and so is all that follows.
#[derive(Debug, Eq, PartialEq)]
pub struct StdoutReader {
    pub total: usize,
    pub exceeded: bool,
    pub pending: Vec<u8>,
}

pub open spec fn byte_views(lines: Seq<Vec<u8>>) -> Seq<Seq<u8>> {
    lines.map_values(|line: Vec<u8>| line@)
}

impl StdoutReader {
    pub fn new() -> (r: StdoutReader)
        ensures
            r.total == 0,
            !r.exceeded,
            r.pending@.len() == 0,
    {
        StdoutReader { total: 0, exceeded: false, pending: Vec::new() }
    }

    /// Takes a chunk and gives the lines that it completes.
    pub fn feed(&mut self, chunk: &Vec<u8>) -> (r: Vec<Vec<u8>>)
        ensures
            final(self).total == (if old(self).total + chunk@.len() > usize::MAX {
                usize::MAX as int
            } else {
                old(self).total + chunk@.len()
            }),
            final(self).total > 2 * 1024 * 1024 ==> {
                &&& final(self).exceeded
                &&& final(self).pending == old(self).pending
                &&& r@.len() == 0
            },
            final(self).total <= 2 * 1024 * 1024 ==> {
                let lines = (Lines {
                    complete: Seq::empty(),
                    pending: old(self).pending@,
                }).with_bytes(chunk@);
                &&& final(self).exceeded == old(self).exceeded
                &&& byte_views(r@) == lines.complete
                &&& final(self).pending@ == lines.pending
            },
    {
        let mut lines: Vec<Vec<u8>> = Vec::new();
        self.total = self.total.saturating_add(chunk.len());
        if self.total > MAX_STDOUT_BYTES {
            self.exceeded = true;
            return lines;
        }
        let ghost start = Lines { complete: Seq::empty(), pending: self.pending@ };
        let ghost total = self.total;
        let ghost exceeded = self.exceeded;
        let mut i: usize = 0;
        assert(chunk@.take(0) =~= Seq::<u8>::empty());
        assert(byte_views(lines@) =~= start.complete);
        while i < chunk.len()
            invariant
                i <= chunk@.len(),
                self.total == total,
                self.exceeded == exceeded,
                byte_views(lines@) == start.with_bytes(chunk@.take(i as int)).complete,
                self.pending@ == start.with_bytes(chunk@.take(i as int)).pending,
            decreases chunk@.len() - i,
        {
            let byte: u8 = chunk[i];
            let ghost earlier = byte_views(lines@);
            assert(chunk@.take(i + 1).drop_last() =~= chunk@.take(i as int));
            self.pending.push(byte);
            if byte == 10 {
                let mut line: Vec<u8> = Vec::new();
                std::mem::swap(&mut line, &mut self.pending);
                lines.push(line);
                assert(byte_views(lines@) =~= earlier.push(line@));
            }
            i = i + 1;
        }
        assert(chunk@.take(chunk@.len() as int) =~= chunk@);
        lines
    }

    /// The last line, where the stream does not end in a line feed.
    pub fn last_line(&self) -> (r: Option<Vec<u8>>)
        ensures
            match r {
                Some(line) => line@ == self.pending@ && self.pending@.len() > 0,
                None => self.pending@.len() == 0,
            },
    {
        if self.pending.len() == 0 {
            None
        } else {
            Some(self.pending.clone())
        }
    }

    /// At the end of the stream: whether it stayed within the limit.
    pub fn finish(&self) -> (r: Result<(), CodexError>)
        ensures
            r == (if self.exceeded {
                Err(CodexError::StdoutLimit)
            } else {
                Ok::<(), CodexError>(())
            }),
    {
        if self.exceeded {
            Err(CodexError::StdoutLimit)
        } else {
            Ok(())
        }
    }
}

/// The text of a line, without its line end; `None` where it is not UTF-8.
pub fn line_text(line: &Vec<u8>) -> (r: Option<String>)
    ensures
        match r {
            Some(s) => {
                &&& vstd::utf8::valid_utf8(line@)
                &&& s@ == text::without_line_end(vstd::utf8::decode_utf8(line@))
            },
            None => !vstd::utf8::valid_utf8(line@),
        },
{
    match text::from_utf8(line) {
        Some(s) => Some(text::trim_line_end(s.as_str())),
        None => None,
    }
}

/// Keeps the beginning of a stream, up to a limit.
#[derive(Debug, Eq, PartialEq)]
pub struct BoundedCapture {
    captured: Vec<u8>,
    limit: usize,
    exceeded: bool,
}

impl BoundedCapture {
    #[verifier::type_invariant]
    spec fn within_limit(self) -> bool {
        self.captured@.len() <= self.limit
    }

    pub closed spec fn kept(self) -> Seq<u8> {
        self.captured@
    }

    pub closed spec fn bound(self) -> nat {
        self.limit as nat
    }

    pub closed spec fn over(self) -> bool {
        self.exceeded
    }

    pub fn new(limit: usize) -> (r: BoundedCapture)
        ensures
            r.kept() == Seq::<u8>::empty(),
            r.bound() == limit,
            !r.over(),
    {
        BoundedCapture { captured: Vec::new(), limit, exceeded: false }
    }

    /// Takes a chunk; what goes over the limit is not kept.
    pub fn feed(&mut self, chunk: &Vec<u8>)
        ensures
            final(self).bound() == old(self).bound(),
            final(self).kept().len() <= final(self).bound(),
            ({
                let all = old(self).kept() + chunk@;
                if all.len() <= old(self).bound() {
                    final(self).kept() == all && final(self).over() == old(self).over()
                } else {
                    final(self).kept() == all.take(old(self).bound() as int) && final(self).over()
                }
            }),
    {
        proof {
            use_type_invariant(&*self);
        }
        let ghost before = self.captured@;
        let ghost all = before + chunk@;
        let mut captured: Vec<u8> = Vec::new();
        std::mem::swap(&mut self.captured, &mut captured);
        let limit: usize = self.limit;
        let mut i: usize = 0;
        assert(all.take(before.len() as int) =~= before);
        while i < chunk.len() && captured.len() < limit
            invariant
                all == before + chunk@,
                i <= chunk@.len(),
                captured@.len() == before.len() + i,
                captured@.len() <= limit,
                captured@ == all.take(before.len() + i),
            decreases chunk@.len() - i,
        {
            captured.push(chunk[i]);
            assert(all.take(before.len() + i + 1) =~= all.take(before.len() + i).push(
                chunk@[i as int],
            ));
            i = i + 1;
        }
        if i < chunk.len() {
            self.exceeded = true;
        } else {
            assert(all.take(all.len() as int) =~= all);
        }
        self.captured = captured;
    }

    /// What was kept, unless there was more.
    pub fn finish(self) -> (r: Result<Vec<u8>, CodexError>)
        ensures
            match r {
                Ok(captured) => {
                    !self.over() && captured@ == self.kept() && captured@.len() <= self.bound()
                },
                Err(error) => self.over() && error == CodexError::OutputLimit,
            },
    {
        proof {
            use_type_invariant(&self);
        }
        if self.exceeded {
            Err(CodexError::OutputLimit)
        } else {
            Ok(self.captured)
        }
    }
}

// ---------------------------------------------------------------------------
// Events
// ---------------------------------------------------------------------------
#[derive(Debug, Eq, PartialEq)]
pub enum CodexJsonEvent {
    ItemCompleted { item: CodexJsonItem },
    TurnCompleted,
    TaskComplete,
    Other,
}

#[derive(Debug, Eq, PartialEq)]
pub enum CodexJsonItem {
    AgentMessage { text: String },
    Other,
}

/// The last message of the agent, as far as the events have told it.
#[derive(Debug, Eq, PartialEq)]
pub struct CodexJsonEvents {
    pub last_message: Option<String>,
}

impl CodexJsonEvents {
    pub fn new() -> (r: CodexJsonEvents)
        ensures
            r.last_message is None,
    {
        CodexJsonEvents { last_message: None }
    }

    /// Takes what a line holds (`None` where it is no event) and says whether the
    /// task is complete.
    pub fn observe(&mut self, event: Option<CodexJsonEvent>) -> (r: bool)
        ensures
            r == (event == Some(CodexJsonEvent::TurnCompleted) || event == Some(
                CodexJsonEvent::TaskComplete,
            )),
            final(self).last_message == (match event {
                Some(CodexJsonEvent::ItemCompleted { item: CodexJsonItem::AgentMessage { text } })
                    => Some(text),
                _ => old(self).last_message,
            }),
    {
        match event {
            Some(
                CodexJsonEvent::ItemCompleted { item: CodexJsonItem::AgentMessage { text } },
            ) => {
                self.last_message = Some(text);
                false
            },
            Some(CodexJsonEvent::TurnCompleted) => true,
            Some(CodexJsonEvent::TaskComplete) => true,
            _ => false,
        }
    }
}

/// The answer of a review: the last message, trimmed; a blank one is no answer.
pub fn review_response(last_message: Option<String>) -> (r: Result<CodexRun, CodexError>)
    ensures
        ({
            let answer = match last_message {
                Some(message) => text::trimmed(message@),
                None => Seq::empty(),
            };
            match r {
                Ok(run) => {
                    answer.len() > 0 && run.response@ == answer && run.session_id is None
                },
                Err(error) => answer.len() == 0 && error == CodexError::EmptyResponse,
            }
        }),
{
    match last_message {
        None => Err(CodexError::EmptyResponse),
        Some(message) => {
            let response = text::trim(message.as_str());
            if response.as_str().is_empty() {
                Err(CodexError::EmptyResponse)
            } else {
                Ok(CodexRun { response, session_id: None })
            }
        },
    }
}

/// What is answered to a request that no template is set for.
pub const UNSUPPORTED_COMMAND: &'static str =
    "`/operate` is not supported: Maid only reviews. No worker was started.";

/// What a task comes to: a worker with a prompt, or an answer without a worker.
#[derive(Debug, Eq, PartialEq)]
pub enum ReviewOrder {
    Run { prompt: String },
    Refuse { answer: CodexRun },
}

impl CodexWorker {
    /// An operator's request is refused as long as there is no template for it.
    pub open spec fn refuses(self, task: domain::TaskView) -> bool {
        task.origin is OperatorMention && text::trimmed(self.prompts.operator_mention@).len() == 0
    }

    /// What to do about a task.
    pub fn order(&self, task: &CodexTask) -> (r: Result<ReviewOrder, DomainError>)
        ensures
            if self.refuses(task@) {
                &&& r matches Ok(ReviewOrder::Refuse { answer })
                &&& answer.response@ == UNSUPPORTED_COMMAND@
                &&& answer.session_id is None
            } else {
                match domain::rendered(task@.template(self.prompts), task@.placeholders()) {
                    Ok(text) => {
                        r matches Ok(ReviewOrder::Run { prompt }) && prompt@ == text
                    },
                    Err(domain::TemplateFault::Unclosed) => {
                        r matches Err(DomainError::UnclosedPlaceholder)
                    },
                    Err(domain::TemplateFault::Unknown(n)) => {
                        r matches Err(DomainError::UnknownPlaceholder { name }) && name@ == n
                    },
                }
            },
    {
        if let CodexTaskOrigin::OperatorMention { .. } = &task.origin {
            if text::trim(self.prompts.operator_mention.as_str()).as_str().is_empty() {
                return Ok(
                    ReviewOrder::Refuse {
                        answer: CodexRun {
                            response: UNSUPPORTED_COMMAND.to_owned(),
                            session_id: None,
                        },
                    },
                );
            }
        }
        match task.prompt(&self.prompts) {
            Ok(prompt) => Ok(ReviewOrder::Run { prompt }),
            Err(error) => Err(error),
        }
    }
}

// ---------------------------------------------------------------------------
// One review
// ---------------------------------------------------------------------------
/// What a running review wants done next.
#[derive(Debug, Eq, PartialEq)]
pub enum WorkerAction {
    /// There is nothing left to do.
    Nothing,
    WritePrompt { prompt: String },
    /// Wait for the worker to exit, for no longer than the task may take. Once the
    /// task is complete the worker has a shorter time left to exit.
    AwaitExit { task_timeout_millis: u64, exit_timeout_millis: u64 },
    /// Kill the worker's process group and reap the worker.
    TerminateProcessGroup,
    /// Remove the container by force and wait for it to go.
    RemoveContainer { name: String },
    /// Kill the process group and have the container removed, waiting for neither.
    Abandon { name: String },
    /// Read the rest of the standard output, for a short time.
    DrainStdout,
    DrainStderr,
    /// Hand over the last message of the agent.
    LastMessage,
}

/// What came of it; `E` says why it failed.
#[derive(Debug, Eq, PartialEq)]
pub enum WorkerReply<E> {
    Failed(E),
    Done,
    Exited { success: bool, status: String },
    /// The task is complete, and the worker did not exit.
    Lingering,
    TimedOut,
    Stderr(Vec<u8>),
    Message(Option<String>),
}

#[derive(Debug, Eq, PartialEq)]
pub enum WorkerError<E> {
    Outside(E),
    Review(CodexError),
}

#[derive(Debug, Eq, PartialEq)]
pub enum WorkerStage<E> {
    WritePrompt { prompt: String },
    AwaitExit,
    TerminateLingering,
    RemoveLingering,
    TerminateLate,
    RemoveLate,
    Abandon { error: E },
    /// The exit status: whether it is a success, and how it reads. A worker that
    /// was killed has none.
    DrainStdout { status: Option<(bool, String)> },
    DrainStderr { status: Option<(bool, String)> },
    LastMessage,
    Ended(Result<Option<String>, WorkerError<E>>),
}

/// One review, from the moment its container is started.
#[derive(Debug, Eq, PartialEq)]
pub struct WorkerRun<E> {
    pub container_name: String,
    pub task_timeout_millis: u64,
    pub exit_timeout_millis: u64,
    pub stage: WorkerStage<E>,
}

impl<E> WorkerRun<E> {
    pub open spec fn pending(self) -> WorkerAction {
        match self.stage {
            WorkerStage::WritePrompt { prompt } => WorkerAction::WritePrompt { prompt },
            WorkerStage::AwaitExit => WorkerAction::AwaitExit {
                task_timeout_millis: self.task_timeout_millis,
                exit_timeout_millis: self.exit_timeout_millis,
            },
            WorkerStage::TerminateLingering => WorkerAction::TerminateProcessGroup,
            WorkerStage::TerminateLate => WorkerAction::TerminateProcessGroup,
            WorkerStage::RemoveLingering => {
                WorkerAction::RemoveContainer { name: self.container_name }
            },
            WorkerStage::RemoveLate => WorkerAction::RemoveContainer { name: self.container_name },
            WorkerStage::Abandon { .. } => WorkerAction::Abandon { name: self.container_name },
            WorkerStage::DrainStdout { .. } => WorkerAction::DrainStdout,
            WorkerStage::DrainStderr { .. } => WorkerAction::DrainStderr,
            WorkerStage::LastMessage => WorkerAction::LastMessage,
            WorkerStage::Ended(_) => WorkerAction::Nothing,
        }
    }

    /// What the exit status and the error output come to. A worker that was killed
    /// after it had completed its task is as good as one that succeeded.
    pub open spec fn judged(status: Option<(bool, String)>, stderr: Vec<u8>) -> WorkerStage<E> {
        match status {
            Some((false, status)) => WorkerStage::Ended(
                Err(WorkerError::Review(CodexError::Exited { status, stderr })),
            ),
            _ => WorkerStage::LastMessage,
        }
    }

    pub open spec fn after(self, reply: WorkerReply<E>) -> WorkerRun<E> {
        let stage = match (self.stage, reply) {
            (WorkerStage::WritePrompt { .. }, WorkerReply::Done) => WorkerStage::AwaitExit,
            (WorkerStage::WritePrompt { .. }, WorkerReply::Failed(error)) => {
                WorkerStage::Abandon { error }
            },
            (WorkerStage::AwaitExit, WorkerReply::Exited { success, status }) => {
                WorkerStage::DrainStdout { status: Some((success, status)) }
            },
            (WorkerStage::AwaitExit, WorkerReply::Lingering) => WorkerStage::TerminateLingering,
            (WorkerStage::AwaitExit, WorkerReply::TimedOut) => WorkerStage::TerminateLate,
            (WorkerStage::AwaitExit, WorkerReply::Failed(error)) => {
                WorkerStage::Abandon { error }
            },
            (WorkerStage::TerminateLingering, WorkerReply::Done) => WorkerStage::RemoveLingering,
            (WorkerStage::RemoveLingering, WorkerReply::Done) => {
                WorkerStage::DrainStdout { status: None }
            },
            (WorkerStage::TerminateLate, WorkerReply::Done) => WorkerStage::RemoveLate,
            (WorkerStage::RemoveLate, WorkerReply::Done) => {
                WorkerStage::Ended(
                    Err(
                        WorkerError::Review(
                            CodexError::TimeLimit { seconds: self.task_timeout_millis / 1000 },
                        ),
                    ),
                )
            },
            (WorkerStage::Abandon { error }, WorkerReply::Done) => {
                WorkerStage::Ended(Err(WorkerError::Outside(error)))
            },
            (WorkerStage::DrainStdout { status }, WorkerReply::Done) => {
                WorkerStage::DrainStderr { status }
            },
            (WorkerStage::DrainStdout { status }, WorkerReply::TimedOut) => {
                WorkerStage::DrainStderr { status }
            },
            (WorkerStage::DrainStdout { .. }, WorkerReply::Failed(error)) => {
                WorkerStage::Ended(Err(WorkerError::Outside(error)))
            },
            (WorkerStage::DrainStderr { status }, WorkerReply::Stderr(stderr)) => {
                WorkerRun::<E>::judged(status, stderr)
            },
            (WorkerStage::DrainStderr { .. }, WorkerReply::Failed(error)) => {
                WorkerStage::Ended(Err(WorkerError::Outside(error)))
            },
            (WorkerStage::LastMessage, WorkerReply::Message(message)) => {
                WorkerStage::Ended(Ok(message))
            },
            (stage, _) => stage,
        };
        WorkerRun { stage, ..self }
    }

    pub fn new(
        container_name: String,
        task_timeout_millis: u64,
        exit_timeout_millis: u64,
        prompt: String,
    ) -> (r: WorkerRun<E>)
        ensures
            r == (WorkerRun::<E> {
                container_name,
                task_timeout_millis,
                exit_timeout_millis,
                stage: WorkerStage::WritePrompt { prompt },
            }),
    {
        WorkerRun {
            container_name,
            task_timeout_millis,
            exit_timeout_millis,
            stage: WorkerStage::WritePrompt { prompt },
        }
    }

    pub fn action(&self) -> (r: WorkerAction)
        ensures
            r == self.pending(),
    {
        match &self.stage {
            WorkerStage::WritePrompt { prompt } => {
                WorkerAction::WritePrompt { prompt: prompt.clone() }
            },
            WorkerStage::AwaitExit => WorkerAction::AwaitExit {
                task_timeout_millis: self.task_timeout_millis,
                exit_timeout_millis: self.exit_timeout_millis,
            },
            WorkerStage::TerminateLingering => WorkerAction::TerminateProcessGroup,
            WorkerStage::TerminateLate => WorkerAction::TerminateProcessGroup,
            WorkerStage::RemoveLingering => {
                WorkerAction::RemoveContainer { name: self.container_name.clone() }
            },
            WorkerStage::RemoveLate => {
                WorkerAction::RemoveContainer { name: self.container_name.clone() }
            },
            WorkerStage::Abandon { .. } => {
                WorkerAction::Abandon { name: self.container_name.clone() }
            },
            WorkerStage::DrainStdout { .. } => WorkerAction::DrainStdout,
            WorkerStage::DrainStderr { .. } => WorkerAction::DrainStderr,
            WorkerStage::LastMessage => WorkerAction::LastMessage,
            WorkerStage::Ended(_) => WorkerAction::Nothing,
        }
    }

    pub fn on_reply(self, reply: WorkerReply<E>) -> (r: WorkerRun<E>)
        ensures
            r == self.after(reply),
    {
        let stage = match (self.stage, reply) {
            (WorkerStage::WritePrompt { .. }, WorkerReply::Done) => WorkerStage::AwaitExit,
            (WorkerStage::WritePrompt { .. }, WorkerReply::Failed(error)) => {
                WorkerStage::Abandon { error }
            },
            (WorkerStage::AwaitExit, WorkerReply::Exited { success, status }) => {
                WorkerStage::DrainStdout { status: Some((success, status)) }
            },
            (WorkerStage::AwaitExit, WorkerReply::Lingering) => WorkerStage::TerminateLingering,
            (WorkerStage::AwaitExit, WorkerReply::TimedOut) => WorkerStage::TerminateLate,
            (WorkerStage::AwaitExit, WorkerReply::Failed(error)) => {
                WorkerStage::Abandon { error }
            },
            (WorkerStage::TerminateLingering, WorkerReply::Done) => WorkerStage::RemoveLingering,
            (WorkerStage::RemoveLingering, WorkerReply::Done) => {
                WorkerStage::DrainStdout { status: None }
            },
            (WorkerStage::TerminateLate, WorkerReply::Done) => WorkerStage::RemoveLate,
            (WorkerStage::RemoveLate, WorkerReply::Done) => {
                WorkerStage::Ended(
                    Err(
                        WorkerError::Review(
                            CodexError::TimeLimit { seconds: self.task_timeout_millis / 1000 },
                        ),
                    ),
                )
            },
            (WorkerStage::Abandon { error }, WorkerReply::Done) => {
                WorkerStage::Ended(Err(WorkerError::Outside(error)))
            },
            (WorkerStage::DrainStdout { status }, WorkerReply::Done) => {
                WorkerStage::DrainStderr { status }
            },
            (WorkerStage::DrainStdout { status }, WorkerReply::TimedOut) => {
                WorkerStage::DrainStderr { status }
            },
            (WorkerStage::DrainStdout { .. }, WorkerReply::Failed(error)) => {
                WorkerStage::Ended(Err(WorkerError::Outside(error)))
            },
            (WorkerStage::DrainStderr { status }, WorkerReply::Stderr(stderr)) => match status {
                Some((false, status)) => WorkerStage::Ended(
                    Err(WorkerError::Review(CodexError::Exited { status, stderr })),
                ),
                _ => WorkerStage::LastMessage,
            },
            (WorkerStage::DrainStderr { .. }, WorkerReply::Failed(error)) => {
                WorkerStage::Ended(Err(WorkerError::Outside(error)))
            },
            (WorkerStage::LastMessage, WorkerReply::Message(message)) => {
                WorkerStage::Ended(Ok(message))
            },
            (stage, _) => stage,
        };
        WorkerRun {
            container_name: self.container_name,
            task_timeout_millis: self.task_timeout_millis,
            exit_timeout_millis: self.exit_timeout_millis,
            stage,
        }
    }
}

/// A review that has come through `replies`.
pub open spec fn review_over<E>(start: WorkerRun<E>, replies: Seq<WorkerReply<E>>) -> WorkerRun<E>
    decreases replies.len(),
{
    if replies.len() == 0 {
        start
    } else {
        review_over(start, replies.drop_last()).after(replies.last())
    }
}

/// What has become of the container of a review, and how it exited.
pub struct ContainerHistory {
    pub exited: bool,
    pub exited_well: bool,
    pub removed: bool,
    pub timed_out: bool,
}

pub open spec fn container_over<E>(
    start: WorkerRun<E>,
    replies: Seq<WorkerReply<E>>,
) -> ContainerHistory
    decreases replies.len(),
{
    if replies.len() == 0 {
        ContainerHistory { exited: false, exited_well: false, removed: false, timed_out: false }
    } else {
        let h = container_over(start, replies.drop_last());
        match (review_over(start, replies.drop_last()).pending(), replies.last()) {
            (WorkerAction::AwaitExit { .. }, WorkerReply::Exited { success, .. }) => {
                ContainerHistory { exited: true, exited_well: success, ..h }
            },
            (WorkerAction::AwaitExit { .. }, WorkerReply::TimedOut) => {
                ContainerHistory { timed_out: true, ..h }
            },
            (WorkerAction::RemoveContainer { .. }, WorkerReply::Done) => {
                ContainerHistory { removed: true, ..h }
            },
            (WorkerAction::Abandon { .. }, WorkerReply::Done) => {
                ContainerHistory { removed: true, ..h }
            },
            _ => h,
        }
    }
}

spec fn container_fits<E>(stage: WorkerStage<E>, h: ContainerHistory) -> bool {
    match stage {
        WorkerStage::WritePrompt { .. } | WorkerStage::AwaitExit
        | WorkerStage::TerminateLingering | WorkerStage::RemoveLingering
        | WorkerStage::Abandon { .. } => !h.exited && !h.removed && !h.timed_out,
        WorkerStage::TerminateLate | WorkerStage::RemoveLate => {
            !h.exited && !h.removed && h.timed_out
        },
        WorkerStage::DrainStdout { status } | WorkerStage::DrainStderr { status } => {
            &&& !h.timed_out
            &&& h.removed == (status is None)
            &&& h.exited == (status is Some)
            &&& status is Some ==> h.exited_well == (status->0).0
        },
        WorkerStage::LastMessage => {
            !h.timed_out && h.removed == !h.exited && (h.exited ==> h.exited_well)
        },
        WorkerStage::Ended(result) => {
            &&& h.removed == !h.exited
            &&& result is Ok ==> !h.timed_out && (h.exited ==> h.exited_well)
            &&& h.timed_out ==> (result matches Err(WorkerError::Review(
                CodexError::TimeLimit { .. },
            )))
        },
    }
}

proof fn lemma_container_fits<E>(start: WorkerRun<E>, replies: Seq<WorkerReply<E>>)
    requires
        start.stage is WritePrompt,
    ensures
        container_fits(review_over(start, replies).stage, container_over(start, replies)),
    decreases replies.len(),
{
    if replies.len() > 0 {
        lemma_container_fits(start, replies.drop_last());
    }
}

/// Whatever the replies: once a review has ended, its container has either
/// exited by itself or been removed by force, and never both.
pub proof fn law_no_container_is_left_behind<E>(start: WorkerRun<E>, replies: Seq<WorkerReply<E>>)
    requires
        start.stage is WritePrompt,
    ensures
        review_over(start, replies).stage is Ended ==> container_over(start, replies).removed
            == !container_over(start, replies).exited,
{
    lemma_container_fits(start, replies);
}

/// Whatever the replies: a review that took too long ends with the time limit's
/// error; and a message is handed over only where the worker completed its task,
/// by a successful exit or before it was killed.
pub proof fn law_late_or_failed_reviews_give_no_message<E>(
    start: WorkerRun<E>,
    replies: Seq<WorkerReply<E>>,
)
    requires
        start.stage is WritePrompt,
    ensures
        review_over(start, replies).stage matches WorkerStage::Ended(result) ==> {
            let h = container_over(start, replies);
            &&& h.timed_out ==> (result matches Err(WorkerError::Review(
                CodexError::TimeLimit { .. },
            )))
            &&& result is Ok ==> !h.timed_out && (h.exited ==> h.exited_well)
        },
{
    lemma_container_fits(start, replies);
}

// ---------------------------------------------------------------------------
// What a review runs
// ---------------------------------------------------------------------------
/// Whatever is reviewed: behind the image, `--model` stands with the configured
/// model, and `--config` with the configured reasoning effort as TOML.
pub proof fn law_reviews_run_the_configured_model(
    worker: CodexWorker,
    worktree: Seq<char>,
    codex_home: Seq<char>,
    container_name: Seq<char>,
    uid: u32,
    gid: u32,
)
    ensures
        ({
            let args = review_args(worker, worktree, codex_home, container_name, uid, gid);
            exists|image: int|
                {
                    &&& 0 <= image < args.len()
                    &&& #[trigger] args[image] == worker.image@
                    &&& has_option(args.skip(image + 1), "--model"@, worker.model@)
                    &&& has_option(
                        args.skip(image + 1),
                        "--config"@,
                        "model_reasoning_effort="@ + toml_string_text(worker.reasoning_effort@),
                    )
                }
        }),
{
    reveal_strlit("model_reasoning_effort=");
    reveal_strlit("model_reasoning_effort");
    reveal_strlit("=");
    let args = review_args(worker, worktree, codex_home, container_name, uid, gid);
    let image = isolation_args(worktree, codex_home, container_name, uid, gid).len() as int;
    let rest = args.skip(image + 1);
    assert(args[image] == worker.image@);
    assert(rest[1] == "--model"@ && rest[2] == worker.model@);
    assert("model_reasoning_effort"@ + "="@ =~= "model_reasoning_effort="@);
    assert(rest[3] == "--config"@ && rest[4] == "model_reasoning_effort="@ + toml_string_text(
        worker.reasoning_effort@,
    ));
}

/// The worker's settings go each to one place: to change the model, the reasoning
/// effort or the image changes one argument, the one behind `--model`, the one
/// behind `--config`, or the image.
pub proof fn law_each_setting_has_one_place(
    worker: CodexWorker,
    other: CodexWorker,
    worktree: Seq<char>,
    codex_home: Seq<char>,
    container_name: Seq<char>,
    uid: u32,
    gid: u32,
)
    ensures
        ({
            let args = review_args(worker, worktree, codex_home, container_name, uid, gid);
            let changed = review_args(other, worktree, codex_home, container_name, uid, gid);
            exists|image: int, model: int, effort: int|
                {
                    &&& 0 <= image < model < args.len()
                    &&& model < effort < args.len()
                    &&& #[trigger] args[image] == worker.image@
                    &&& #[trigger] args[model] == worker.model@
                    &&& args[model - 1] == "--model"@
                    &&& #[trigger] args[effort] == "model_reasoning_effort="@ + toml_string_text(
                        worker.reasoning_effort@,
                    )
                    &&& args[effort - 1] == "--config"@
                    &&& changed == args.update(image, other.image@).update(
                        model,
                        other.model@,
                    ).update(
                        effort,
                        "model_reasoning_effort="@ + toml_string_text(other.reasoning_effort@),
                    )
                }
        }),
{
    reveal_strlit("model_reasoning_effort=");
    reveal_strlit("model_reasoning_effort");
    reveal_strlit("=");
    let args = review_args(worker, worktree, codex_home, container_name, uid, gid);
    let changed = review_args(other, worktree, codex_home, container_name, uid, gid);
    let image = isolation_args(worktree, codex_home, container_name, uid, gid).len() as int;
    assert("model_reasoning_effort"@ + "="@ =~= "model_reasoning_effort="@);
    assert(args[image] == worker.image@);
    assert(args[image + 2] == "--model"@ && args[image + 3] == worker.model@);
    assert(args[image + 4] == "--config"@);
    assert(args[image + 5] == "model_reasoning_effort="@ + toml_string_text(
        worker.reasoning_effort@,
    ));
    assert(changed =~= args.update(image, other.image@).update(image + 3, other.model@).update(
        image + 5,
        "model_reasoning_effort="@ + toml_string_text(other.reasoning_effort@),
    ));
}

/// The container carries its own name and runs as the given user and group, in
/// the workspace, with the Codex directory and a home of its own, and with a small
/// temporary directory that nothing can be run from. The repository is mounted as
/// the workspace, and the Codex directory beside it, both read-only.
pub proof fn law_how_the_container_is_set_up(
    worker: CodexWorker,
    worktree: Seq<char>,
    codex_home: Seq<char>,
    container_name: Seq<char>,
    uid: u32,
    gid: u32,
)
    ensures
        ({
            let args = review_args(worker, worktree, codex_home, container_name, uid, gid);
            let user = numeral::decimal(uid as nat);
            let group = numeral::decimal(gid as nat);
            &&& args[0] == "run"@
            &&& args.contains("--init"@)
            &&& has_option(args, "--name"@, container_name)
            &&& has_option(args, "--user"@, user + seq![':'] + group)
            &&& has_option(args, "--workdir"@, "/workspace"@)
            &&& has_option(args, "--env"@, "HOME=/tmp/maid-home"@)
            &&& has_option(args, "--env"@, "CODEX_HOME="@ + "/run/maid/codex"@)
            &&& has_option(
                args,
                "--mount"@,
                "type=bind,src="@ + worktree + ",dst="@ + "/workspace"@ + ",readonly"@,
            )
            &&& has_option(
                args,
                "--mount"@,
                "type=bind,src="@ + codex_home + ",dst="@ + "/run/maid/codex"@ + ",readonly"@,
            )
            &&& has_option(
                args,
                "--tmpfs"@,
                "/tmp:rw,nosuid,nodev,noexec,size=64m,uid="@ + user + ",gid="@ + group
                    + ",mode=700"@,
            )
        }),
{
    reveal_strlit(":");
    let args = review_args(worker, worktree, codex_home, container_name, uid, gid);
    let user = numeral::decimal(uid as nat);
    let group = numeral::decimal(gid as nat);
    assert(":"@ =~= seq![':']);
    assert(args[0] == "run"@ && args[2] == "--init"@);
    assert(args[3] == "--name"@ && args[4] == container_name);
    assert(args[15] == "--user"@ && args[16] == user + ":"@ + group);
    assert(args[17] == "--workdir"@ && args[18] == "/workspace"@);
    assert(args[19] == "--env"@ && args[20] == "HOME=/tmp/maid-home"@);
    assert(args[21] == "--env"@ && args[22] == "CODEX_HOME="@ + "/run/maid/codex"@);
    assert(args[23] == "--mount"@ && args[24] == "type=bind,src="@ + worktree + ",dst="@
        + "/workspace"@ + ",readonly"@);
    assert(args[25] == "--mount"@ && args[26] == "type=bind,src="@ + codex_home + ",dst="@
        + "/run/maid/codex"@ + ",readonly"@);
    assert(args[27] == "--tmpfs"@);
}

/// Codex takes its settings strictly, gives its commands none of the environment,
/// no login shell, no web search and no project documents, and runs them under a
/// profile that denies the network and all of the file system but a minimum and
/// the workspace, which can only be read. It reads the prompt from its input and
/// reports events as JSON.
pub proof fn law_how_codex_is_set_up(
    worker: CodexWorker,
    worktree: Seq<char>,
    codex_home: Seq<char>,
    container_name: Seq<char>,
    uid: u32,
    gid: u32,
)
    ensures
        ({
            let args = review_args(worker, worktree, codex_home, container_name, uid, gid);
            &&& args.contains("--strict-config"@)
            &&& has_option(args, "--config"@, "shell_environment_policy.inherit=\"none\""@)
            &&& has_option(args, "--config"@, "allow_login_shell=false"@)
            &&& has_option(args, "--config"@, "web_search=\"disabled\""@)
            &&& has_option(args, "--config"@, "project_doc_max_bytes=0"@)
            &&& has_option(
                args,
                "--config"@,
                "default_permissions=\""@ + "maid-review"@ + "\""@,
            )
            &&& has_option(
                args,
                "--config"@,
                "permissions."@ + "maid-review"@ + ".network={ enabled = false }"@,
            )
            &&& has_option(
                args,
                "--config"@,
                "permissions."@ + "maid-review"@
                    + ".filesystem={ \":root\" = \"deny\", \":minimal\" = \"read\", \":tmpdir\" = \"deny\", \":slash_tmp\" = \"deny\", \":workspace_roots\" = { \".\" = \"read\" } }"@,
            )
            &&& args.contains("exec"@)
            &&& has_option(args, "--color"@, "never"@)
            &&& args.contains("--json"@)
            &&& args.contains("--skip-git-repo-check"@)
            &&& args.last() == "-"@
        }),
{
    let args = review_args(worker, worktree, codex_home, container_name, uid, gid);
    let image = isolation_args(worktree, codex_home, container_name, uid, gid).len() as int;
    let run = image + 1 + config_args(worker.model@, worker.reasoning_effort@).len();
    assert(args[image + 1] == "--strict-config"@);
    assert(args[image + 6] == "--config"@ && args[image + 7]
        == "shell_environment_policy.inherit=\"none\""@);
    assert(args[image + 8] == "--config"@ && args[image + 9] == "allow_login_shell=false"@);
    assert(args[image + 10] == "--config"@ && args[image + 11] == "web_search=\"disabled\""@);
    assert(args[image + 12] == "--config"@ && args[image + 13] == "project_doc_max_bytes=0"@);
    assert(args[image + 14] == "--config"@ && args[image + 15] == "default_permissions=\""@
        + "maid-review"@ + "\""@);
    assert(args[image + 16] == "--config"@ && args[image + 17] == filesystem_policy_text());
    assert(args[image + 18] == "--config"@ && args[image + 19] == "permissions."@
        + "maid-review"@ + ".network={ enabled = false }"@);
    assert(args[run] == "exec"@);
    assert(args[run + 4] == "--color"@ && args[run + 5] == "never"@);
    assert(args[run + 6] == "--json"@);
    assert(args[run + 7] == "--skip-git-repo-check"@);
    assert(args.last() == "-"@);
}

/// Containers of two processes, or of two reviews of one, have different names.
pub proof fn law_container_names_tell_reviews_apart(
    process: u32,
    sequence: u64,
    other_process: u32,
    other_sequence: u64,
)
    requires
        container_name_text(process, sequence) == container_name_text(
            other_process,
            other_sequence,
        ),
    ensures
        process == other_process,
        sequence == other_sequence,
{
    reveal_strlit("maid-review-");
    reveal_strlit("-");
    let head = "maid-review-"@;
    let a = numeral::decimal(process as nat);
    let b = numeral::decimal(other_process as nat);
    let c = numeral::decimal(sequence as nat);
    let d = numeral::decimal(other_sequence as nat);
    let x = container_name_text(process, sequence);
    let y = container_name_text(other_process, other_sequence);
    numeral::lemma_decimal_digits(process as nat);
    numeral::lemma_decimal_digits(other_process as nat);
    let n = head.len() as int;
    assert(x =~= head + a + seq!['-'] + c);
    assert(y =~= head + b + seq!['-'] + d);
    if a.len() < b.len() {
        assert(x[n + a.len()] == '-');
        assert(y[n + a.len()] == b[a.len() as int]);
    } else if b.len() < a.len() {
        assert(y[n + b.len()] == '-');
        assert(x[n + b.len()] == a[b.len() as int]);
    }
    assert(x.subrange(n, n + a.len()) =~= a);
    assert(y.subrange(n, n + b.len()) =~= b);
    assert(x.skip(n + a.len() + 1) =~= c);
    assert(y.skip(n + b.len() + 1) =~= d);
    numeral::law_decimal_injective(process as nat, other_process as nat);
    numeral::law_decimal_injective(sequence as nat, other_sequence as nat);
}

/// An operator's request is refused while no template is set for it, and no other
/// request ever is.
pub proof fn law_only_operator_requests_are_refused(worker: CodexWorker, task: domain::TaskView)
    ensures
        worker.refuses(task) <==> task.origin is OperatorMention && text::trimmed(
            worker.prompts.operator_mention@,
        ) == Seq::<char>::empty(),
{
    if text::trimmed(worker.prompts.operator_mention@).len() == 0 {
        assert(text::trimmed(worker.prompts.operator_mention@) =~= Seq::<char>::empty());
    }
}

// ---------------------------------------------------------------------------
// The course of a review
// ---------------------------------------------------------------------------
/// A review writes its prompt, and waits for the worker as long as the task may
/// take. Where the worker exits well, what it printed is read to the end, and the
/// agent's last message is the result. Where it exits otherwise, the result is the
/// error with its status and what it printed as errors.
pub proof fn law_course_of_a_review<E>(
    start: WorkerRun<E>,
    prompt: String,
    success: bool,
    status: String,
    stderr: Vec<u8>,
    message: Option<String>,
)
    requires
        start.stage == (WorkerStage::<E>::WritePrompt { prompt }),
    ensures
        ({
            let written = start.after(WorkerReply::Done);
            let exited = written.after(WorkerReply::Exited { success, status });
            let drained = exited.after(WorkerReply::Done);
            let slow = exited.after(WorkerReply::TimedOut);
            let judged = drained.after(WorkerReply::Stderr(stderr));
            &&& start.pending() == (WorkerAction::WritePrompt { prompt })
            &&& written.pending() == (WorkerAction::AwaitExit {
                task_timeout_millis: start.task_timeout_millis,
                exit_timeout_millis: start.exit_timeout_millis,
            })
            &&& exited.pending() == WorkerAction::DrainStdout
            &&& drained.pending() == WorkerAction::DrainStderr
            &&& slow == drained
            &&& success ==> judged.pending() == WorkerAction::LastMessage && judged.after(
                WorkerReply::Message(message),
            ).stage == WorkerStage::<E>::Ended(Ok(message))
            &&& !success ==> judged.stage == WorkerStage::<E>::Ended(
                Err(WorkerError::Review(CodexError::Exited { status, stderr })),
            )
        }),
{
}

/// A worker that has completed its task and does not exit is killed and its
/// container removed by name; its message counts all the same.
pub proof fn law_lingering_workers_are_removed<E>(
    run: WorkerRun<E>,
    stderr: Vec<u8>,
    message: Option<String>,
)
    requires
        run.stage == WorkerStage::<E>::AwaitExit,
    ensures
        ({
            let lingering = run.after(WorkerReply::Lingering);
            let killed = lingering.after(WorkerReply::Done);
            let removed = killed.after(WorkerReply::Done);
            let drained = removed.after(WorkerReply::Done);
            let judged = drained.after(WorkerReply::Stderr(stderr));
            &&& lingering.pending() == WorkerAction::TerminateProcessGroup
            &&& killed.pending() == (WorkerAction::RemoveContainer { name: run.container_name })
            &&& removed.pending() == WorkerAction::DrainStdout
            &&& drained.pending() == WorkerAction::DrainStderr
            &&& judged.pending() == WorkerAction::LastMessage
            &&& judged.after(WorkerReply::Message(message)).stage == WorkerStage::<E>::Ended(
                Ok(message),
            )
        }),
{
}

/// A worker that takes too long is killed and its container removed by name; the
/// review fails with the time limit in seconds.
pub proof fn law_late_workers_are_removed<E>(run: WorkerRun<E>)
    requires
        run.stage == WorkerStage::<E>::AwaitExit,
    ensures
        ({
            let late = run.after(WorkerReply::TimedOut);
            let killed = late.after(WorkerReply::Done);
            &&& late.pending() == WorkerAction::TerminateProcessGroup
            &&& killed.pending() == (WorkerAction::RemoveContainer { name: run.container_name })
            &&& killed.after(WorkerReply::Done).stage == WorkerStage::<E>::Ended(
                Err(
                    WorkerError::Review(
                        CodexError::TimeLimit { seconds: run.task_timeout_millis / 1000 },
                    ),
                ),
            )
        }),
{
}

/// Where the prompt cannot be written, or the worker cannot be waited for, the
/// container is given up by name, and the failure is the result. So it is where
/// the output cannot be read.
pub proof fn law_failures_end_a_review<E>(run: WorkerRun<E>, error: E)
    requires
        run.stage is WritePrompt || run.stage is AwaitExit || run.stage is DrainStdout
            || run.stage is DrainStderr,
    ensures
        ({
            let failed = run.after(WorkerReply::Failed(error));
            &&& run.stage is WritePrompt || run.stage is AwaitExit ==> failed.pending() == (
            WorkerAction::Abandon { name: run.container_name }) && failed.after(
                WorkerReply::Done,
            ).stage == WorkerStage::<E>::Ended(Err(WorkerError::Outside(error)))
            &&& run.stage is DrainStdout || run.stage is DrainStderr ==> failed.stage
                == WorkerStage::<E>::Ended(Err(WorkerError::Outside(error)))
        }),
{
}

/// An error says what went wrong with a review: the path that cannot be mounted, the
/// limit that was exceeded, or how the worker exited and what it printed.
pub proof fn law_review_errors_say_what_went_wrong(
    label: String,
    path: String,
    seconds: u64,
    status: String,
    stderr: Vec<u8>,
)
    ensures
        (CodexError::CommaInMount { label, path }).message_text() == label@
            + " cannot contain a comma: "@ + path@,
        (CodexError::NotARealDirectory { path }).message_text()
            == "private directory must be a real directory: "@ + path@,
        CodexError::StdoutLimit.message_text() == "Codex stdout exceeded capture limit"@,
        CodexError::OutputLimit.message_text() == "process output exceeded limit"@,
        (CodexError::TimeLimit { seconds }).message_text() == "review worker exceeded its "@
            + numeral::decimal(seconds as nat) + " second time limit"@,
        (CodexError::Exited { status, stderr }).message_text() == "review worker exited with "@
            + status@ + ": "@ + text::trimmed(text::lossy_text(stderr@)),
        CodexError::EmptyResponse.message_text() == "Codex produced an empty response"@,
{
}

/// Rows of 255 equal quotes fit, and one of 256 does not.
pub proof fn law_which_rows_of_quotes_fit(quote: char, row: nat)
    requires
        quote == '\'' || quote == '"',
    ensures
        quote_runs_fit(Seq::new(row, |i: int| quote)) <==> row < 256,
{
    let value = Seq::new(row, |i: int| quote);
    if row >= 256 {
        assert(long_run_at(value, quote, 0));
    } else {
        assert forall|q: char, from: int| !#[trigger] long_run_at(value, q, from) by {}
    }
}

/// The runtime gets these arguments and no others: those that set the container up,
/// the image, those that set Codex up, and those that run it.
pub proof fn law_nothing_else_is_passed_on(
    worker: CodexWorker,
    worktree: Seq<char>,
    codex_home: Seq<char>,
    container_name: Seq<char>,
    uid: u32,
    gid: u32,
)
    ensures
        ({
            let args = review_args(worker, worktree, codex_home, container_name, uid, gid);
            &&& args.len() == 29 + 1 + 21 + 9
            &&& args[29] == worker.image@
            &&& args[30] == "--strict-config"@
            &&& args[51] == "exec"@
            &&& args.contains("--security-opt=seccomp=unconfined"@)
        }),
{
    let args = review_args(worker, worktree, codex_home, container_name, uid, gid);
    assert(args[8] == "--security-opt=seccomp=unconfined"@);
}

/// Lines are taken one by one, byte for byte.
pub proof fn law_lines_are_taken_whole(lines: Seq<Vec<u8>>, i: int)
    requires
        0 <= i < lines.len(),
    ensures
        byte_views(lines).len() == lines.len(),
        byte_views(lines)[i] == lines[i]@,
{
}

/// A review goes on only with a reply to what it asked for, and once it has ended
/// nothing changes it. It keeps its container and its time limits throughout.
pub proof fn law_reviews_go_on_with_answers_only<E>(run: WorkerRun<E>, reply: WorkerReply<E>)
    ensures
        ({
            let answered = match run.pending() {
                WorkerAction::Nothing => false,
                WorkerAction::WritePrompt { .. } => reply is Done || reply is Failed,
                WorkerAction::AwaitExit { .. } => reply is Exited || reply is Lingering
                    || reply is TimedOut || reply is Failed,
                WorkerAction::TerminateProcessGroup => reply is Done,
                WorkerAction::RemoveContainer { .. } => reply is Done,
                WorkerAction::Abandon { .. } => reply is Done,
                WorkerAction::DrainStdout => reply is Done || reply is TimedOut
                    || reply is Failed,
                WorkerAction::DrainStderr => reply is Stderr || reply is Failed,
                WorkerAction::LastMessage => reply is Message,
            };
            !answered ==> run.after(reply) == run
        }),
        run.stage is Ended ==> run.after(reply) == run && run.pending() is Nothing,
        run.after(reply).container_name == run.container_name,
        run.after(reply).task_timeout_millis == run.task_timeout_millis,
        run.after(reply).exit_timeout_millis == run.exit_timeout_millis,
{
}

/// A review runs in its own image for at most half an hour; once it is complete, its
/// worker has five seconds to exit, its output one second to drain and its container
/// ten seconds to go. Of its output two mebibytes are read, and of its complaints
/// sixty-four kibibytes.
pub proof fn law_limits_of_a_review()
    ensures
        CODEX_WORKER_IMAGE@ == "maid-codex-worker:0.153.4"@,
        TASK_TIMEOUT_MILLIS == 30 * 60 * 1000,
        EXIT_AFTER_COMPLETION_TIMEOUT_MILLIS == 5 * 1000,
        PIPE_DRAIN_TIMEOUT_MILLIS == 1000,
        CLEANUP_TIMEOUT_MILLIS == 10 * 1000,
        MAX_STDOUT_BYTES == 2 * 1024 * 1024,
        MAX_STDERR_BYTES == 64 * 1024,
        UNSUPPORTED_COMMAND@
            == "`/operate` is not supported: Maid only reviews. No worker was started."@,
{
}

/// What an operator asks for is refused where there is no prompt for it, with a word
/// of explanation and no session; any other task runs with exactly the prompt that
/// the task has, or fails as that does.
pub proof fn law_what_is_ordered(
    worker: &CodexWorker,
    task: &CodexTask,
    order: Result<ReviewOrder, DomainError>,
    prompt: Result<String, DomainError>,
)
    requires
        call_ensures(CodexWorker::order, (worker, task), order),
        call_ensures(CodexTask::prompt, (task, &worker.prompts), prompt),
    ensures
        ({
            let refused = task.origin is OperatorMention && text::trimmed(
                worker.prompts.operator_mention@,
            ).len() == 0;
            &&& refused ==> (order matches Ok(ReviewOrder::Refuse { answer })
                && answer.session_id is None && answer.response@
                == "`/operate` is not supported: Maid only reviews. No worker was started."@)
            &&& !refused ==> (prompt matches Ok(text) ==> (order matches Ok(
                ReviewOrder::Run { prompt: ordered },
            ) && ordered@ == text@))
            &&& !refused && prompt is Err ==> order is Err
        }),
{
}

/// The answer is the last message without the white space around it, and one without
/// anything else is none.
pub proof fn law_what_the_answer_is(last: Option<String>, r: Result<CodexRun, CodexError>)
    requires
        call_ensures(review_response, (last,), r),
    ensures
        r matches Ok(run) ==> {
            &&& last matches Some(message) && run.response@ == text::trimmed(message@)
            &&& run.response@.len() > 0
            &&& run.session_id is None
        },
        r is Err <==> last is None || text::trimmed((last->0)@).len() == 0,
        r matches Err(error) ==> error == CodexError::EmptyResponse,
{
}

/// A private directory is a directory and no link to one.
pub proof fn law_which_directories_are_private(
    path: &str,
    is_symlink: bool,
    is_dir: bool,
    r: Result<(), CodexError>,
)
    requires
        call_ensures(check_private_directory, (path, is_symlink, is_dir), r),
    ensures
        is_dir && !is_symlink ==> r is Ok,
        is_symlink ==> (r matches Err(CodexError::NotARealDirectory { path: p }) && p@ == path@),
        !is_dir ==> (r matches Err(CodexError::NotARealDirectory { path: p }) && p@ == path@),
{
}

/// A path with a comma can not be mounted; any other can, and stays what it is.
pub proof fn law_what_can_be_mounted(path: &str, label: &str, r: Result<MountSource, CodexError>)
    requires
        call_ensures(MountSource::new, (path, label), r),
    ensures
        r is Ok <==> !path@.contains(','),
        r matches Ok(source) ==> source@ == path@,
        path@.contains(',') ==> (r matches Err(CodexError::CommaInMount { label: l, path: p })
            && l@ == label@ && p@ == path@),
{
}

/// Too much output is an error, whatever was read; the rest of it is one more line,
/// unless nothing is left.
pub proof fn law_how_output_ends(
    reader: &StdoutReader,
    finished: Result<(), CodexError>,
    last: Option<Vec<u8>>,
)
    requires
        call_ensures(StdoutReader::finish, (reader,), finished),
        call_ensures(StdoutReader::last_line, (reader,), last),
    ensures
        finished is Err <==> reader.exceeded,
        finished matches Err(error) ==> error == CodexError::StdoutLimit,
        last is None <==> reader.pending@.len() == 0,
        last matches Some(line) ==> line@ == reader.pending@,
{
}

/// A review begins with its prompt, and a worker holds what it was made with.
pub proof fn law_how_a_review_begins<E>(
    name: String,
    task_millis: u64,
    exit_millis: u64,
    prompt: String,
    run: WorkerRun<E>,
    home: &str,
    model: &str,
    effort: &str,
    prompts: CodexPromptTemplates,
    worker: CodexWorker,
)
    requires
        call_ensures(WorkerRun::<E>::new, (name, task_millis, exit_millis, prompt), run),
        call_ensures(CodexWorker::new, (home, model, effort, prompts), worker),
    ensures
        run.pending() == (WorkerAction::WritePrompt { prompt }),
        run.container_name == name,
        run.task_timeout_millis == task_millis,
        run.exit_timeout_millis == exit_millis,
        worker.runtime_bin@ == "docker"@,
        worker.image@ == "maid-codex-worker:0.153.4"@,
        worker.codex_home@ == home@,
        worker.model@ == model@,
        worker.reasoning_effort@ == effort@,
        worker.prompts == prompts,
        worker.task_timeout_millis == 30 * 60 * 1000,
        worker.exit_after_completion_timeout_millis == 5 * 1000,
{
}

/// The command that runs a review hands the model's name to `--model`, the effort to
/// its own setting, and the image is followed by nothing but Codex's arguments. The
/// command that removes a container names that container.
pub proof fn law_commands_hold_what_is_configured(
    worker: &CodexWorker,
    worktree: &MountSource,
    home: &MountSource,
    name: &str,
    uid: u32,
    gid: u32,
    r: Vec<String>,
    removal: Vec<String>,
)
    requires
        call_ensures(CodexWorker::command, (worker, worktree, home, name, uid, gid), r),
        call_ensures(removal_args, (name,), removal),
    ensures
        r@.len() == 29 + 1 + 21 + 9,
        r@[0]@ == "run"@,
        r@[3]@ == "--name"@ && r@[4]@ == name@,
        r@[29]@ == worker.image@,
        r@[31]@ == "--model"@ && r@[32]@ == worker.model@,
        r@[33]@ == "--config"@ && r@[34]@ == "model_reasoning_effort"@ + "="@ + toml_string_text(
            worker.reasoning_effort@,
        ),
        r@[51]@ == "exec"@ && r@[59]@ == "-"@,
        removal@.len() == 3,
        removal@[0]@ == "rm"@ && removal@[1]@ == "--force"@ && removal@[2]@ == name@,
{
    let args = review_args(*worker, worktree@, home@, name@, uid, gid);
    let given = text::views(r@);
    assert(given.len() == r@.len());
    assert(forall|i: int| 0 <= i < given.len() ==> #[trigger] given[i] == r@[i]@);
    assert(given == args);
    assert(args[0] == "run"@ && args[3] == "--name"@ && args[4] == name@);
    assert(args[29] == worker.image@ && args[31] == "--model"@ && args[32] == worker.model@);
    assert(args[33] == "--config"@ && args[51] == "exec"@ && args[59] == "-"@);
    assert(args[34] == "model_reasoning_effort"@ + "="@ + toml_string_text(
        worker.reasoning_effort@,
    ));
    let taken = text::views(removal@);
    assert(taken.len() == removal@.len());
    assert(forall|i: int| 0 <= i < taken.len() ==> #[trigger] taken[i] == removal@[i]@);
    assert(taken[0] == "rm"@ && taken[1] == "--force"@ && taken[2] == name@);
}

/// The last message of the agent is the one that counts, and nothing but a message
/// replaces it. The task is complete once Codex says so, in either of its ways.
pub proof fn law_which_message_counts(text: String)
    ensures
        forall|events: &mut CodexJsonEvents, event: Option<CodexJsonEvent>, r: bool|
            #[trigger] call_ensures(CodexJsonEvents::observe, (events, event), r) ==> {
                let message = Some(
                    CodexJsonEvent::ItemCompleted { item: CodexJsonItem::AgentMessage { text } },
                );
                &&& r <==> event == Some(CodexJsonEvent::TurnCompleted) || event == Some(
                    CodexJsonEvent::TaskComplete,
                )
                &&& event == message ==> (*final(events)).last_message == Some(text)
                &&& event is None || event == Some(CodexJsonEvent::TurnCompleted) || event == Some(
                    CodexJsonEvent::TaskComplete,
                ) ==> (*final(events)).last_message == (*events).last_message
            },
{
}

/// Output is taken whole up to its limit, in whatever pieces it comes; from then on
/// it is cut off there, and known to be.
pub proof fn law_output_is_taken_up_to_its_limit(chunk: &Vec<u8>)
    ensures
        forall|capture: &mut BoundedCapture| #[trigger]
            call_ensures(BoundedCapture::feed, (capture, chunk), ()) ==> {
                let all = (*capture).kept() + chunk@;
                let bound = (*capture).bound();
                &&& (*final(capture)).bound() == bound
                &&& (*final(capture)).kept().is_prefix_of(all)
                &&& all.len() <= bound ==> (*final(capture)).kept() == all && (*final(capture)).over() == (*capture).over()
                &&& all.len() > bound ==> (*final(capture)).kept().len() == bound && (*final(capture)).over()
            },
{
}

proof fn lemma_nothing_is_lost(pending: Seq<u8>, bytes: Seq<u8>)
    ensures
        ({
            let lines = (Lines { complete: Seq::empty(), pending }).with_bytes(bytes);
            run_together(lines.complete) + lines.pending == pending + bytes
        }),
    decreases bytes.len(),
{
    let begun = Lines { complete: Seq::empty(), pending };
    if bytes.len() == 0 {
        assert(run_together(begun.complete) + begun.pending =~= pending + bytes);
    } else {
        lemma_nothing_is_lost(pending, bytes.drop_last());
        let before = begun.with_bytes(bytes.drop_last());
        let line = before.pending.push(bytes.last());
        assert(before.complete.push(line).drop_last() =~= before.complete);
        let whole = run_together(before.complete) + before.pending;
        assert(run_together(before.complete) + line =~= whole.push(bytes.last()));
        assert((pending + bytes.drop_last()).push(bytes.last()) =~= pending + bytes);
        let after = begun.with_bytes(bytes);
        assert(run_together(after.complete) + after.pending =~= pending + bytes);
    }
}

/// Of the standard output, lines are handed over as they are completed and the rest is
/// kept, as long as it has at most two mebibytes in all; past that nothing is taken,
/// and it is known that there was too much.
pub proof fn law_lines_come_up_to_the_limit(chunk: &Vec<u8>)
    ensures
        forall|reader: &mut StdoutReader, r: Vec<Vec<u8>>| #[trigger]
            call_ensures(StdoutReader::feed, (reader, chunk), r) ==> {
                let total = (*reader).total + chunk@.len();
                &&& total <= 2 * 1024 * 1024 ==> {
                    &&& (*final(reader)).total == total
                    &&& (*final(reader)).exceeded == (*reader).exceeded
                    &&& run_together(byte_views(r@)) + (*final(reader)).pending@
                        == (*reader).pending@ + chunk@
                }
                &&& total > 2 * 1024 * 1024 ==> {
                    &&& (*final(reader)).exceeded
                    &&& (*final(reader)).pending == (*reader).pending
                    &&& r@.len() == 0
                }
            },
{
    assert forall|pending: Seq<u8>|
        ({
            let lines = #[trigger] (Lines { complete: Seq::empty(), pending }).with_bytes(chunk@);
            run_together(lines.complete) + lines.pending == pending + chunk@
        }) by {
        lemma_nothing_is_lost(pending, chunk@);
    }
}

} // verus!
