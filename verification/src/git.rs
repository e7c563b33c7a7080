//! The git commands that the bot runs, and how it authenticates them.
use crate::{numeral, text};
use vstd::prelude::*;

verus! {

// ---------------------------------------------------------------------------
// Authentication
// ---------------------------------------------------------------------------
/// A character of the standard base64 alphabet.
pub open spec fn base64_char(value: int) -> char {
    "ABCDEFGHIJKLMNOPQRSTUVWXYZabcdefghijklmnopqrstuvwxyz0123456789+/"@[value]
}

/// Bytes in base64: every three of them are four characters of six bits each;
/// what one or two bytes at the end lack is padded with `=`.
pub open spec fn base64_of(bytes: Seq<u8>) -> Seq<char>
    decreases bytes.len(),
{
    let a = bytes[0] as int;
    let b = if bytes.len() > 1 { bytes[1] as int } else { 0 };
    let c = if bytes.len() > 2 { bytes[2] as int } else { 0 };
    if bytes.len() == 0 {
        Seq::empty()
    } else {
        seq![
            base64_char(a / 4),
            base64_char(a % 4 * 16 + b / 16),
            if bytes.len() > 1 { base64_char(b % 16 * 4 + c / 64) } else { '=' },
            if bytes.len() > 2 { base64_char(c % 64) } else { '=' },
        ] + (if bytes.len() > 3 { base64_of(bytes.skip(3)) } else { Seq::empty() })
    }
}

/// The length of a text in UTF-8.
pub open spec fn byte_len(input: Seq<char>) -> nat {
    vstd::utf8::encode_utf8(input).len()
}

/// `base64::engine::general_purpose::STANDARD.encode` gives the text's UTF-8
/// bytes in base64, in the standard alphabet and with padding. The call panics
/// where the result does not fit into memory's address range.
#[verifier::external_body]
fn base64_standard(input: &str) -> (r: String)
    requires
        (byte_len(input@) / 3 + 1) * 4 <= isize::MAX,
    ensures
        r@ == base64_of(vstd::utf8::encode_utf8(input@)),
{
    base64::Engine::encode(&base64::engine::general_purpose::STANDARD, input)
}

/// The header that carries a credential, given its base64 form.
pub fn basic_auth_header(encoded: &str) -> (r: String)
    ensures
        r@ == "Authorization: Basic "@ + encoded@,
{
    text::cat2("Authorization: Basic ", encoded)
}

pub open spec fn auth_header_text(github_token: Seq<char>) -> Seq<char> {
    "Authorization: Basic "@ + base64_of(
        vstd::utf8::encode_utf8("x-access-token:"@ + github_token),
    )
}

/// The token can be put into a header.
pub open spec fn token_fits(github_token: Seq<char>) -> bool {
    (byte_len("x-access-token:"@ + github_token) / 3 + 1) * 4 <= isize::MAX
}

/// The header with which git authenticates as the bot.
pub fn auth_header(github_token: &str) -> (r: String)
    requires
        token_fits(github_token@),
    ensures
        r@ == auth_header_text(github_token@),
{
    let credential = text::cat2("x-access-token:", github_token);
    basic_auth_header(base64_standard(credential.as_str()).as_str())
}

proof fn lemma_base64_is_one_line(bytes: Seq<u8>)
    ensures
        !base64_of(bytes).contains('\n'),
        !base64_of(bytes).contains('\r'),
    decreases bytes.len(),
{
    reveal_strlit("ABCDEFGHIJKLMNOPQRSTUVWXYZabcdefghijklmnopqrstuvwxyz0123456789+/");
    assert forall|value: int| 0 <= value < 64 implies #[trigger] base64_char(value) != '\n'
        && base64_char(value) != '\r' by {}
    if bytes.len() > 3 {
        lemma_base64_is_one_line(bytes.skip(3));
    }
    assert forall|i: int| 0 <= i < base64_of(bytes).len() implies #[trigger] base64_of(bytes)[i]
        != '\n' && base64_of(bytes)[i] != '\r' by {
        if i >= 4 {
            assert(base64_of(bytes)[i] == base64_of(bytes.skip(3))[i - 4]);
            assert(base64_of(bytes.skip(3)).contains(base64_of(bytes.skip(3))[i - 4]));
        }
    }
}

/// Whatever the token, the header is one line: no token can add a header.
pub proof fn law_auth_header_is_one_line(github_token: Seq<char>)
    ensures
        !auth_header_text(github_token).contains('\n'),
        !auth_header_text(github_token).contains('\r'),
{
    reveal_strlit("Authorization: Basic ");
    let head = "Authorization: Basic "@;
    let encoded = base64_of(vstd::utf8::encode_utf8("x-access-token:"@ + github_token));
    let header = auth_header_text(github_token);
    lemma_base64_is_one_line(vstd::utf8::encode_utf8("x-access-token:"@ + github_token));
    assert forall|i: int| 0 <= i < header.len() implies #[trigger] header[i] != '\n' && header[i]
        != '\r' by {
        if i >= head.len() {
            assert(header[i] == encoded[i - head.len()]);
            assert(encoded.contains(encoded[i - head.len()]));
        }
    }
}

// ---------------------------------------------------------------------------
// Commands
// ---------------------------------------------------------------------------
/// One git command.
#[derive(Debug, Eq, PartialEq)]
pub enum GitStep {
    Init { worktree: String },
    /// Fetches one ref from an address, without tags.
    FetchFrom { origin: String, fetch_ref: String },
    CheckOutFetched,
    Clone { remote: String, checkout: String },
    SetOrigin { remote: String },
    FetchPullRequest { number: u64 },
    FetchDefaultBranch { branch: String },
    SwitchToFetched,
    Clean,
    /// Fails where the remote has no such branch.
    FindRemoteBranch { branch: String },
    FetchBranch { branch: String },
    SwitchBranch { branch: String, default_branch: String },
    ResetToDefaultBranch { default_branch: String },
    Status,
    AddAll,
    Commit { message: String },
    CommitAs { name: String, email: String, message: String },
    Push { branch: String },
    ConfigGet { key: String },
}

impl Clone for GitStep {
    fn clone(&self) -> (r: Self)
        ensures
            r == *self,
    {
        match self {
            GitStep::Init { worktree } => GitStep::Init { worktree: worktree.clone() },
            GitStep::FetchFrom { origin, fetch_ref } => GitStep::FetchFrom {
                origin: origin.clone(),
                fetch_ref: fetch_ref.clone(),
            },
            GitStep::CheckOutFetched => GitStep::CheckOutFetched,
            GitStep::Clone { remote, checkout } => GitStep::Clone {
                remote: remote.clone(),
                checkout: checkout.clone(),
            },
            GitStep::SetOrigin { remote } => GitStep::SetOrigin { remote: remote.clone() },
            GitStep::FetchPullRequest { number } => GitStep::FetchPullRequest { number: *number },
            GitStep::FetchDefaultBranch { branch } => {
                GitStep::FetchDefaultBranch { branch: branch.clone() }
            },
            GitStep::SwitchToFetched => GitStep::SwitchToFetched,
            GitStep::Clean => GitStep::Clean,
            GitStep::FindRemoteBranch { branch } => {
                GitStep::FindRemoteBranch { branch: branch.clone() }
            },
            GitStep::FetchBranch { branch } => GitStep::FetchBranch { branch: branch.clone() },
            GitStep::SwitchBranch { branch, default_branch } => GitStep::SwitchBranch {
                branch: branch.clone(),
                default_branch: default_branch.clone(),
            },
            GitStep::ResetToDefaultBranch { default_branch } => {
                GitStep::ResetToDefaultBranch { default_branch: default_branch.clone() }
            },
            GitStep::Status => GitStep::Status,
            GitStep::AddAll => GitStep::AddAll,
            GitStep::Commit { message } => GitStep::Commit { message: message.clone() },
            GitStep::CommitAs { name, email, message } => GitStep::CommitAs {
                name: name.clone(),
                email: email.clone(),
                message: message.clone(),
            },
            GitStep::Push { branch } => GitStep::Push { branch: branch.clone() },
            GitStep::ConfigGet { key } => GitStep::ConfigGet { key: key.clone() },
        }
    }
}

impl GitStep {
    /// The arguments of the command.
    pub open spec fn arguments(self) -> Seq<Seq<char>> {
        match self {
            GitStep::Init { worktree } => seq!["init"@, "--quiet"@, worktree@],
            GitStep::FetchFrom { origin, fetch_ref } => seq![
                "fetch"@,
                "--quiet"@,
                "--no-tags"@,
                origin@,
                fetch_ref@,
            ],
            GitStep::CheckOutFetched => seq![
                "checkout"@,
                "--quiet"@,
                "--detach"@,
                "FETCH_HEAD"@,
            ],
            GitStep::Clone { remote, checkout } => seq!["clone"@, remote@, checkout@],
            GitStep::SetOrigin { remote } => seq!["remote"@, "set-url"@, "origin"@, remote@],
            GitStep::FetchPullRequest { number } => seq![
                "fetch"@,
                "--prune"@,
                "origin"@,
                "pull/"@ + numeral::decimal(number as nat) + "/head"@,
            ],
            GitStep::FetchDefaultBranch { branch } => seq![
                "fetch"@,
                "--prune"@,
                "origin"@,
                "+refs/heads/"@ + branch@ + ":refs/remotes/origin/"@ + branch@,
            ],
            GitStep::SwitchToFetched => seq![
                "switch"@,
                "--detach"@,
                "--force"@,
                "FETCH_HEAD"@,
            ],
            GitStep::Clean => seq!["clean"@, "-fdx"@],
            GitStep::FindRemoteBranch { branch } => seq![
                "ls-remote"@,
                "--exit-code"@,
                "origin"@,
                "refs/heads/"@ + branch@,
            ],
            GitStep::FetchBranch { branch } => seq![
                "fetch"@,
                "origin"@,
                "+refs/heads/"@ + branch@ + ":refs/remotes/origin/"@ + branch@,
            ],
            GitStep::SwitchBranch { branch, default_branch } => seq![
                "switch"@,
                "-C"@,
                branch@,
                "origin/"@ + default_branch@,
            ],
            GitStep::ResetToDefaultBranch { default_branch } => seq![
                "reset"@,
                "--hard"@,
                "origin/"@ + default_branch@,
            ],
            GitStep::Status => seq!["status"@, "--porcelain"@],
            GitStep::AddAll => seq!["add"@, "-A"@],
            GitStep::Commit { message } => seq!["commit"@, "-m"@, message@],
            GitStep::CommitAs { name, email, message } => seq![
                "-c"@,
                "user.name="@ + name@,
                "-c"@,
                "user.email="@ + email@,
                "commit"@,
                "-m"@,
                message@,
            ],
            GitStep::Push { branch } => seq![
                "push"@,
                "--force-with-lease"@,
                "origin"@,
                "HEAD:refs/heads/"@ + branch@,
            ],
            GitStep::ConfigGet { key } => seq!["config"@, "--get"@, key@],
        }
    }

    pub fn args(&self) -> (r: Vec<String>)
        ensures
            text::views(r@) == self.arguments(),
    {
        match self {
            GitStep::Init { worktree } => list3("init", "--quiet", worktree.as_str()),
            GitStep::FetchFrom { origin, fetch_ref } => {
                let mut args = list4("fetch", "--quiet", "--no-tags", origin.as_str());
                let ghost before = text::views(args@);
                args.push(fetch_ref.clone());
                assert(text::views(args@) =~= before.push(fetch_ref@));
                assert(text::views(args@) =~= self.arguments());
                args
            },
            GitStep::CheckOutFetched => list4("checkout", "--quiet", "--detach", "FETCH_HEAD"),
            GitStep::Clone { remote, checkout } => {
                list3("clone", remote.as_str(), checkout.as_str())
            },
            GitStep::SetOrigin { remote } => {
                list4("remote", "set-url", "origin", remote.as_str())
            },
            GitStep::FetchPullRequest { number } => {
                let head = text::cat3("pull/", numeral::to_decimal(*number).as_str(), "/head");
                list4("fetch", "--prune", "origin", head.as_str())
            },
            GitStep::FetchDefaultBranch { branch } => {
                let refspec = text::cat4(
                    "+refs/heads/",
                    branch.as_str(),
                    ":refs/remotes/origin/",
                    branch.as_str(),
                );
                list4("fetch", "--prune", "origin", refspec.as_str())
            },
            GitStep::SwitchToFetched => list4("switch", "--detach", "--force", "FETCH_HEAD"),
            GitStep::Clean => list2("clean", "-fdx"),
            GitStep::FindRemoteBranch { branch } => {
                let name = text::cat2("refs/heads/", branch.as_str());
                list4("ls-remote", "--exit-code", "origin", name.as_str())
            },
            GitStep::FetchBranch { branch } => {
                let refspec = text::cat4(
                    "+refs/heads/",
                    branch.as_str(),
                    ":refs/remotes/origin/",
                    branch.as_str(),
                );
                list3("fetch", "origin", refspec.as_str())
            },
            GitStep::SwitchBranch { branch, default_branch } => {
                let base = text::cat2("origin/", default_branch.as_str());
                list4("switch", "-C", branch.as_str(), base.as_str())
            },
            GitStep::ResetToDefaultBranch { default_branch } => {
                let base = text::cat2("origin/", default_branch.as_str());
                list3("reset", "--hard", base.as_str())
            },
            GitStep::Status => list2("status", "--porcelain"),
            GitStep::AddAll => list2("add", "-A"),
            GitStep::Commit { message } => list3("commit", "-m", message.as_str()),
            GitStep::CommitAs { name, email, message } => {
                let name_setting = text::cat2("user.name=", name.as_str());
                let email_setting = text::cat2("user.email=", email.as_str());
                let mut args = list4("-c", name_setting.as_str(), "-c", email_setting.as_str());
                let ghost before = text::views(args@);
                args.push("commit".to_owned());
                args.push("-m".to_owned());
                args.push(message.clone());
                assert(text::views(args@) =~= before.push("commit"@).push("-m"@).push(message@));
                assert(text::views(args@) =~= self.arguments());
                args
            },
            GitStep::Push { branch } => {
                let refspec = text::cat2("HEAD:refs/heads/", branch.as_str());
                list4("push", "--force-with-lease", "origin", refspec.as_str())
            },
            GitStep::ConfigGet { key } => list3("config", "--get", key.as_str()),
        }
    }
}

fn list2(a: &str, b: &str) -> (r: Vec<String>)
    ensures
        text::views(r@) == seq![a@, b@],
{
    let mut r: Vec<String> = Vec::new();
    r.push(a.to_owned());
    r.push(b.to_owned());
    assert(text::views(r@) =~= seq![a@, b@]);
    r
}

fn list3(a: &str, b: &str, c: &str) -> (r: Vec<String>)
    ensures
        text::views(r@) == seq![a@, b@, c@],
{
    let mut r = list2(a, b);
    let ghost before = text::views(r@);
    r.push(c.to_owned());
    assert(text::views(r@) =~= before.push(c@));
    assert(text::views(r@) =~= seq![a@, b@, c@]);
    r
}

fn list4(a: &str, b: &str, c: &str, d: &str) -> (r: Vec<String>)
    ensures
        text::views(r@) == seq![a@, b@, c@, d@],
{
    let mut r = list3(a, b, c);
    let ghost before = text::views(r@);
    r.push(d.to_owned());
    assert(text::views(r@) =~= before.push(d@));
    assert(text::views(r@) =~= seq![a@, b@, c@, d@]);
    r
}

/// What a git command that failed says: its arguments and its error output.
pub fn git_failure(args: &Vec<String>, stderr: &Vec<u8>) -> (r: String)
    ensures
        r@ == "git "@ + text::joined(text::views(args@), " "@) + " failed: "@ + text::trimmed(
            text::lossy_text(stderr@),
        ),
{
    text::cat4(
        "git ",
        text::join(args, " ").as_str(),
        " failed: ",
        text::trim(text::from_utf8_lossy(stderr).as_str()).as_str(),
    )
}

/// What a git command that ran to its end came back with.
#[derive(Debug, Eq, PartialEq)]
pub struct GitOutput {
    pub success: bool,
    pub stdout: Vec<u8>,
    pub stderr: Vec<u8>,
}

/// What a git command printed, or how it failed.
pub fn git_result(args: &Vec<String>, output: GitOutput) -> (r: Result<Vec<u8>, String>)
    ensures
        match r {
            Ok(stdout) => output.success && stdout == output.stdout,
            Err(failure) => !output.success && failure@ == "git "@ + text::joined(
                text::views(args@),
                " "@,
            ) + " failed: "@ + text::trimmed(text::lossy_text(output.stderr@)),
        },
{
    if output.success {
        Ok(output.stdout)
    } else {
        Err(git_failure(args, &output.stderr))
    }
}

/// The views of a list of environment variables.
pub open spec fn env_views(env: Seq<(String, String)>) -> Seq<(Seq<char>, Seq<char>)> {
    env.map_values(|entry: (String, String)| (entry.0@, entry.1@))
}

pub fn push_env(env: &mut Vec<(String, String)>, name: &str, value: &str)
    ensures
        env_views(final(env)@) == env_views(old(env)@).push((name@, value@)),
{
    let ghost before = env_views(env@);
    env.push((name.to_owned(), value.to_owned()));
    assert(env_views(env@) =~= before.push((name@, value@)));
}

// ---------------------------------------------------------------------------
// What git is told
// ---------------------------------------------------------------------------
/// Git authenticates with the token as the password of `x-access-token`.
pub proof fn law_the_token_is_the_password(github_token: Seq<char>)
    ensures
        auth_header_text(github_token) == "Authorization: Basic "@ + base64_of(
            vstd::utf8::encode_utf8("x-access-token:"@ + github_token),
        ),
{
}

/// A repository is made in the worktree. What is fetched into it is one ref of one
/// address, without tags, and what was fetched is checked out as it is.
pub proof fn law_how_a_worktree_is_filled(worktree: String, origin: String, fetch_ref: String)
    ensures
        (GitStep::Init { worktree }).arguments() == seq!["init"@, "--quiet"@, worktree@],
        ({
            let fetch = (GitStep::FetchFrom { origin, fetch_ref }).arguments();
            &&& fetch.len() == 5
            &&& fetch[0] == "fetch"@
            &&& fetch.contains("--quiet"@)
            &&& fetch.contains("--no-tags"@)
            &&& fetch[3] == origin@
            &&& fetch.last() == fetch_ref@
        }),
        GitStep::CheckOutFetched.arguments() == seq![
            "checkout"@,
            "--quiet"@,
            "--detach"@,
            "FETCH_HEAD"@,
        ],
{
    let fetch = (GitStep::FetchFrom { origin, fetch_ref }).arguments();
    assert(fetch[1] == "--quiet"@ && fetch[2] == "--no-tags"@);
    assert((GitStep::Init { worktree }).arguments() =~= seq!["init"@, "--quiet"@, worktree@]);
    assert(GitStep::CheckOutFetched.arguments() =~= seq![
        "checkout"@,
        "--quiet"@,
        "--detach"@,
        "FETCH_HEAD"@,
    ]);
}

/// A kept repository is cloned from its remote and points back to it. The head of a
/// pull request is fetched by its number, and switched to by force; nothing else is
/// left in the checkout.
pub proof fn law_how_a_pull_request_is_checked_out(
    remote: String,
    checkout: String,
    number: u64,
)
    ensures
        (GitStep::Clone { remote, checkout }).arguments() == seq!["clone"@, remote@, checkout@],
        (GitStep::SetOrigin { remote }).arguments() == seq![
            "remote"@,
            "set-url"@,
            "origin"@,
            remote@,
        ],
        (GitStep::FetchPullRequest { number }).arguments() == seq![
            "fetch"@,
            "--prune"@,
            "origin"@,
            "pull/"@ + numeral::decimal(number as nat) + "/head"@,
        ],
        GitStep::SwitchToFetched.arguments() == seq![
            "switch"@,
            "--detach"@,
            "--force"@,
            "FETCH_HEAD"@,
        ],
        GitStep::Clean.arguments() == seq!["clean"@, "-fdx"@],
{
    assert((GitStep::Clone { remote, checkout }).arguments() =~= seq![
        "clone"@,
        remote@,
        checkout@,
    ]);
    assert((GitStep::SetOrigin { remote }).arguments() =~= seq![
        "remote"@,
        "set-url"@,
        "origin"@,
        remote@,
    ]);
    assert((GitStep::FetchPullRequest { number }).arguments() =~= seq![
        "fetch"@,
        "--prune"@,
        "origin"@,
        "pull/"@ + numeral::decimal(number as nat) + "/head"@,
    ]);
    assert(GitStep::SwitchToFetched.arguments() =~= seq![
        "switch"@,
        "--detach"@,
        "--force"@,
        "FETCH_HEAD"@,
    ]);
    assert(GitStep::Clean.arguments() =~= seq!["clean"@, "-fdx"@]);
}

/// A branch is fetched to the remote branch of the same name, made afresh from the
/// default branch and reset to it.
pub proof fn law_how_an_issue_branch_is_made(branch: String, default_branch: String)
    ensures
        (GitStep::FetchDefaultBranch { branch }).arguments() == seq![
            "fetch"@,
            "--prune"@,
            "origin"@,
            "+refs/heads/"@ + branch@ + ":refs/remotes/origin/"@ + branch@,
        ],
        (GitStep::FindRemoteBranch { branch }).arguments() == seq![
            "ls-remote"@,
            "--exit-code"@,
            "origin"@,
            "refs/heads/"@ + branch@,
        ],
        (GitStep::FetchBranch { branch }).arguments() == seq![
            "fetch"@,
            "origin"@,
            "+refs/heads/"@ + branch@ + ":refs/remotes/origin/"@ + branch@,
        ],
        (GitStep::SwitchBranch { branch, default_branch }).arguments() == seq![
            "switch"@,
            "-C"@,
            branch@,
            "origin/"@ + default_branch@,
        ],
        (GitStep::ResetToDefaultBranch { default_branch }).arguments() == seq![
            "reset"@,
            "--hard"@,
            "origin/"@ + default_branch@,
        ],
{
    assert((GitStep::FetchDefaultBranch { branch }).arguments() =~= seq![
        "fetch"@,
        "--prune"@,
        "origin"@,
        "+refs/heads/"@ + branch@ + ":refs/remotes/origin/"@ + branch@,
    ]);
    assert((GitStep::FindRemoteBranch { branch }).arguments() =~= seq![
        "ls-remote"@,
        "--exit-code"@,
        "origin"@,
        "refs/heads/"@ + branch@,
    ]);
    assert((GitStep::FetchBranch { branch }).arguments() =~= seq![
        "fetch"@,
        "origin"@,
        "+refs/heads/"@ + branch@ + ":refs/remotes/origin/"@ + branch@,
    ]);
    assert((GitStep::SwitchBranch { branch, default_branch }).arguments() =~= seq![
        "switch"@,
        "-C"@,
        branch@,
        "origin/"@ + default_branch@,
    ]);
    assert((GitStep::ResetToDefaultBranch { default_branch }).arguments() =~= seq![
        "reset"@,
        "--hard"@,
        "origin/"@ + default_branch@,
    ]);
}

/// Everything is added, committed with the given message, in the given name where
/// one is given, and pushed to the branch of the given name unless that has moved.
pub proof fn law_how_work_is_published(
    branch: String,
    name: String,
    email: String,
    message: String,
    key: String,
)
    ensures
        GitStep::Status.arguments() == seq!["status"@, "--porcelain"@],
        GitStep::AddAll.arguments() == seq!["add"@, "-A"@],
        (GitStep::Commit { message }).arguments() == seq!["commit"@, "-m"@, message@],
        (GitStep::CommitAs { name, email, message }).arguments() == seq![
            "-c"@,
            "user.name="@ + name@,
            "-c"@,
            "user.email="@ + email@,
        ] + (GitStep::Commit { message }).arguments(),
        (GitStep::Push { branch }).arguments() == seq![
            "push"@,
            "--force-with-lease"@,
            "origin"@,
            "HEAD:refs/heads/"@ + branch@,
        ],
        (GitStep::ConfigGet { key }).arguments() == seq!["config"@, "--get"@, key@],
{
    assert(GitStep::Status.arguments() =~= seq!["status"@, "--porcelain"@]);
    assert(GitStep::AddAll.arguments() =~= seq!["add"@, "-A"@]);
    assert((GitStep::Commit { message }).arguments() =~= seq!["commit"@, "-m"@, message@]);
    assert((GitStep::CommitAs { name, email, message }).arguments() =~= seq![
        "-c"@,
        "user.name="@ + name@,
        "-c"@,
        "user.email="@ + email@,
    ] + (GitStep::Commit { message }).arguments());
    assert((GitStep::Push { branch }).arguments() =~= seq![
        "push"@,
        "--force-with-lease"@,
        "origin"@,
        "HEAD:refs/heads/"@ + branch@,
    ]);
    assert((GitStep::ConfigGet { key }).arguments() =~= seq!["config"@, "--get"@, key@]);
}

/// An environment is taken entry by entry, each name with its own value.
pub proof fn law_environments_are_taken_whole(env: Seq<(String, String)>, i: int)
    requires
        0 <= i < env.len(),
    ensures
        env_views(env).len() == env.len(),
        env_views(env)[i] == (env[i].0@, env[i].1@),
{
}

/// A command that succeeds gives what it printed; one that fails is named, with its
/// arguments and what it complained of.
pub proof fn law_what_a_command_gives(
    args: &Vec<String>,
    output: GitOutput,
    r: Result<Vec<u8>, String>,
    failure: String,
)
    requires
        call_ensures(git_result, (args, output), r),
        call_ensures(git_failure, (args, &output.stderr), failure),
    ensures
        output.success ==> r == Ok::<Vec<u8>, String>(output.stdout),
        !output.success ==> (r matches Err(said) && said@ == failure@),
        failure@ == "git "@ + text::joined(text::views(args@), " "@) + " failed: "@
            + text::trimmed(text::lossy_text(output.stderr@)),
{
}

} // verus!
