use maid::config::{
    absolute_path, expand_home, gh_token_args, maid_home, non_empty, normalize_logins,
    optional_logins, optional_repos, required_accounts, required_codex_prompts, required_string,
    select_accounts, token_from_gh, CodexPromptsFile, Config, ConfigFile, GhOutput, Settings,
    Surroundings, TrustedAccountFile,
};
use maid::domain::{CodexPromptTemplates, GitHubUserId, RepoSlug, TrustedAccount};

fn text_of(table: &toml::Table, key: &str) -> Option<String> {
    table
        .get(key)
        .map(|value| value.as_str().unwrap().to_string())
}

fn number_of(table: &toml::Table, key: &str) -> Option<u64> {
    table
        .get(key)
        .map(|value| u64::try_from(value.as_integer().unwrap()).unwrap())
}

fn texts_of(table: &toml::Table, key: &str) -> Option<Vec<String>> {
    table.get(key).map(|value| {
        value
            .as_array()
            .unwrap()
            .iter()
            .map(|item| item.as_str().unwrap().to_string())
            .collect()
    })
}

/// The accounts of a list, where each names its login and its ID.
fn accounts_of(table: &toml::Table, key: &str) -> Option<Option<Vec<TrustedAccountFile>>> {
    let Some(list) = table.get(key) else {
        return Some(None);
    };
    let mut accounts = Vec::new();
    for item in list.as_array()? {
        let account = item.as_table()?;
        accounts.push(TrustedAccountFile {
            login: account.get("login")?.as_str()?.to_string(),
            id: u64::try_from(account.get("id")?.as_integer()?).ok()?,
        });
    }
    Some(Some(accounts))
}

fn parse(source: &str) -> Option<ConfigFile> {
    let table = source.parse::<toml::Table>().ok()?;
    Some(ConfigFile {
        bot_login: text_of(&table, "bot_login"),
        master_accounts: accounts_of(&table, "master_accounts")?,
        auto_review_accounts: texts_of(&table, "auto_review_accounts"),
        auto_review_public_accounts: texts_of(&table, "auto_review_public_accounts"),
        auto_review_repos: texts_of(&table, "auto_review_repos"),
        git_dir: text_of(&table, "git_dir"),
        task_limit_per_24h: number_of(&table, "task_limit_per_24h").map(|n| n as usize),
        max_concurrent_requests: number_of(&table, "max_concurrent_requests").map(|n| n as usize),
        github_api_requests_per_hour: number_of(&table, "github_api_requests_per_hour")
            .map(|n| n as u32),
        github_notification_window_hours: number_of(&table, "github_notification_window_hours")
            .map(|n| n as u32),
        codex_home: text_of(&table, "codex_home"),
        codex_model: text_of(&table, "codex_model"),
        codex_reasoning_effort: text_of(&table, "codex_reasoning_effort"),
        codex_prompts: table.get("codex_prompts").map(|value| {
            let prompts = value.as_table().unwrap();
            CodexPromptsFile {
                mention: text_of(prompts, "mention"),
                pull_request_opened: text_of(prompts, "pull_request_opened"),
            }
        }),
        github_api_ip: text_of(&table, "github_api_ip"),
        metrics_bind_address: text_of(&table, "metrics_bind_address"),
    })
}

const SOURCE: &str = r#"
bot_login = "maid-bot"
master_accounts = [{ login = "dionysuzx", id = 1234 }]
auto_review_accounts = ["dionysuzx"]
auto_review_public_accounts = ["dionysuzx"]
auto_review_repos = ["dionysuzx/maid"]
git_dir = "~/.maid/git"
task_limit_per_24h = 5
max_concurrent_requests = 3
github_api_requests_per_hour = 1200
github_notification_window_hours = 96
metrics_bind_address = "127.0.0.1:9999"
codex_home = "~/.maid/test-codex"
codex_model = "gpt-test"
codex_reasoning_effort = "high"
github_api_ip = "127.0.0.1"

[codex_prompts]
mention = "mention {{cleaned_text}}"
pull_request_opened = "review {{pr_url}}"
"#;

#[test]
fn reads_config_file_values() {
    let config = parse(SOURCE).unwrap();

    assert_eq!(config.bot_login.as_deref(), Some("maid-bot"));
    assert_eq!(
        config.master_accounts,
        Some(vec![TrustedAccountFile {
            login: "dionysuzx".to_string(),
            id: 1234,
        }])
    );
    assert_eq!(
        config.auto_review_accounts,
        Some(vec!["dionysuzx".to_string()])
    );
    assert_eq!(
        config.auto_review_public_accounts,
        Some(vec!["dionysuzx".to_string()])
    );
    assert_eq!(
        config.auto_review_repos,
        Some(vec!["dionysuzx/maid".to_string()])
    );
    assert_eq!(config.git_dir.as_deref(), Some("~/.maid/git"));
    assert_eq!(config.task_limit_per_24h, Some(5));
    assert_eq!(config.max_concurrent_requests, Some(3));
    assert_eq!(config.github_api_requests_per_hour, Some(1200));
    assert_eq!(config.github_notification_window_hours, Some(96));
    assert_eq!(
        config.metrics_bind_address.as_deref(),
        Some("127.0.0.1:9999")
    );
    assert_eq!(config.codex_home.as_deref(), Some("~/.maid/test-codex"));
    assert_eq!(config.codex_model.as_deref(), Some("gpt-test"));
    assert_eq!(config.codex_reasoning_effort.as_deref(), Some("high"));
    let codex_prompts = config.codex_prompts.unwrap();
    assert_eq!(
        codex_prompts.mention.as_deref(),
        Some("mention {{cleaned_text}}")
    );
    assert_eq!(
        codex_prompts.pull_request_opened.as_deref(),
        Some("review {{pr_url}}")
    );
    assert_eq!(config.github_api_ip.as_deref(), Some("127.0.0.1"));
}

#[test]
fn missing_config_file_is_empty_config() {
    let config = ConfigFile::empty();

    assert_eq!(config.bot_login, None);
    assert_eq!(config.master_accounts, None);
    assert_eq!(config.auto_review_accounts, None);
    assert_eq!(config.auto_review_public_accounts, None);
    assert_eq!(config.auto_review_repos, None);
    assert_eq!(config.git_dir, None);
    assert_eq!(config.task_limit_per_24h, None);
    assert_eq!(config.github_api_requests_per_hour, None);
    assert_eq!(config.github_notification_window_hours, None);
    assert_eq!(config.metrics_bind_address, None);
    assert_eq!(config.codex_prompts, None);
}

#[test]
fn requires_codex_prompt_templates() {
    assert!(required_codex_prompts(None).is_err());
    assert!(
        required_codex_prompts(Some(CodexPromptsFile {
            mention: Some("mention".to_string()),
            pull_request_opened: None,
        }))
        .is_err()
    );
    assert!(
        required_codex_prompts(Some(CodexPromptsFile {
            mention: Some(" ".to_string()),
            pull_request_opened: Some("review".to_string()),
        }))
        .is_err()
    );

    assert_eq!(
        required_codex_prompts(Some(CodexPromptsFile {
            mention: Some("mention".to_string()),
            pull_request_opened: Some("review".to_string()),
        }))
        .unwrap(),
        CodexPromptTemplates {
            mention: "mention".to_string(),
            pull_request_opened: "review".to_string(),
            operator_mention: String::new(),
        }
    );
}

#[test]
fn trims_empty_strings_to_none() {
    assert_eq!(
        non_empty(Some("  maid-bot  ".to_string())).as_deref(),
        Some("maid-bot")
    );
    assert_eq!(non_empty(Some("  ".to_string())), None);
}

#[test]
fn requires_non_empty_strings() {
    assert_eq!(
        required_string(Some("  gpt-test  ".to_string()), "codex_model").unwrap(),
        "gpt-test"
    );
    assert!(required_string(None, "codex_model").is_err());
    assert!(required_string(Some("  ".to_string()), "codex_model").is_err());
}

#[test]
fn validates_required_trusted_accounts() {
    assert_eq!(
        required_accounts(
            Some(vec![
                TrustedAccountFile {
                    login: "  Dionysuzx  ".to_string(),
                    id: 1234,
                },
                TrustedAccountFile {
                    login: "mayushii-admin".to_string(),
                    id: 5678,
                },
            ]),
            "master_accounts"
        )
        .unwrap(),
        vec![
            TrustedAccount {
                login: "dionysuzx".to_string(),
                id: GitHubUserId::new(1234).unwrap(),
            },
            TrustedAccount {
                login: "mayushii-admin".to_string(),
                id: GitHubUserId::new(5678).unwrap(),
            },
        ]
    );

    assert!(required_accounts(None, "master_accounts").is_err());
    assert!(required_accounts(Some(Vec::new()), "master_accounts").is_err());
    assert!(
        required_accounts(
            Some(vec![TrustedAccountFile {
                login: " ".to_string(),
                id: 1,
            }]),
            "master_accounts"
        )
        .is_err()
    );
    assert!(
        required_accounts(
            Some(vec![TrustedAccountFile {
                login: "trusted".to_string(),
                id: 0,
            }]),
            "master_accounts"
        )
        .is_err()
    );
    assert!(
        required_accounts(
            Some(vec![
                TrustedAccountFile {
                    login: "trusted".to_string(),
                    id: 1,
                },
                TrustedAccountFile {
                    login: "trusted".to_string(),
                    id: 2,
                },
            ]),
            "master_accounts"
        )
        .is_err()
    );
    assert!(
        required_accounts(
            Some(vec![
                TrustedAccountFile {
                    login: "trusted".to_string(),
                    id: 1,
                },
                TrustedAccountFile {
                    login: "trusted".to_string(),
                    id: 1,
                },
            ]),
            "master_accounts"
        )
        .is_err()
    );
    assert!(
        required_accounts(
            Some(vec![
                TrustedAccountFile {
                    login: "trusted".to_string(),
                    id: 1,
                },
                TrustedAccountFile {
                    login: "other".to_string(),
                    id: 1,
                },
            ]),
            "master_accounts"
        )
        .is_err()
    );
}

#[test]
fn optional_login_lists_allow_empty_lists() {
    assert_eq!(
        optional_logins(
            Some(vec!["  Dionysuzx  ".to_string(), "dionysuzx".to_string()]),
            "auto_review_accounts"
        )
        .unwrap(),
        Some(vec!["dionysuzx".to_string()])
    );
    assert_eq!(
        optional_logins(Some(Vec::new()), "auto_review_accounts").unwrap(),
        Some(Vec::new())
    );
    assert!(optional_logins(Some(vec![" ".to_string()]), "auto_review_accounts").is_err());
    assert_eq!(optional_logins(None, "auto_review_accounts").unwrap(), None);
}

#[test]
fn optional_repositories_parse_to_slugs() {
    assert_eq!(
        optional_repos(
            Some(vec![
                "  Dionysuzx/Maid  ".to_string(),
                "dionysuzx/maid".to_string()
            ]),
            "auto_review_repos"
        )
        .unwrap(),
        vec![RepoSlug {
            owner: "dionysuzx".to_string(),
            repo: "maid".to_string(),
        }]
    );
    assert_eq!(
        optional_repos(Some(Vec::new()), "auto_review_repos").unwrap(),
        Vec::<RepoSlug>::new()
    );
    assert!(optional_repos(Some(vec!["dionysuzx".to_string()]), "auto_review_repos").is_err());
    assert_eq!(
        optional_repos(None, "auto_review_repos").unwrap(),
        Vec::<RepoSlug>::new()
    );
}

#[test]
fn auto_review_accounts_must_be_trusted() {
    let masters = vec![TrustedAccount {
        login: "dionysuzx".to_string(),
        id: GitHubUserId::new(1234).unwrap(),
    }];

    assert!(
        select_accounts(
            Some(vec!["dionysuzx".to_string()]),
            &masters,
            "auto_review_public_accounts"
        )
        .is_ok()
    );
    assert_eq!(
        select_accounts(
            Some(vec!["untrusted".to_string()]),
            &masters,
            "auto_review_public_accounts"
        )
        .unwrap_err()
        .message(),
        "auto_review_public_accounts must be a subset of master_accounts: untrusted"
    );
}

#[test]
fn trusted_identity_is_explicit_and_stable_across_config_reloads() {
    let source = r#"master_accounts = [{ login = "OldLogin", id = 1234 }]"#;

    let first: ConfigFile = parse(source).unwrap();
    let second: ConfigFile = parse(source).unwrap();
    let first = required_accounts(first.master_accounts, "master_accounts").unwrap();
    let second = required_accounts(second.master_accounts, "master_accounts").unwrap();

    assert_eq!(first, second);
    assert_eq!(first[0].id, GitHubUserId::new(1234).unwrap());
    assert!(parse(r#"master_accounts = ["old-login"]"#).is_none());
}

fn surroundings() -> Surroundings {
    Surroundings {
        home: Some("/home/operator".to_string()),
        current_dir: Some("/work".to_string()),
    }
}

fn nowhere() -> Surroundings {
    Surroundings {
        home: None,
        current_dir: None,
    }
}

#[test]
fn expands_home_paths() {
    let home = dirs::home_dir()
        .map(|home| home.to_string_lossy().into_owned())
        .unwrap_or("/home/operator".to_string());
    let surroundings = Surroundings {
        home: Some(home.clone()),
        current_dir: None,
    };

    assert_eq!(expand_home("~", &surroundings).unwrap(), home);
    assert_eq!(
        expand_home("~/git", &surroundings).unwrap(),
        std::path::PathBuf::from(home).join("git").to_string_lossy()
    );
    assert_eq!(
        expand_home("/tmp/maid", &surroundings).unwrap(),
        "/tmp/maid"
    );
}

#[test]
fn absolutizes_relative_paths() {
    assert_eq!(
        absolute_path("relative/git", &surroundings()).unwrap(),
        "/work/relative/git"
    );
    assert_eq!(
        absolute_path("/tmp/maid", &surroundings()).unwrap(),
        "/tmp/maid"
    );
}

#[test]
fn a_tilde_in_the_middle_is_kept() {
    assert_eq!(expand_home("~user", &nowhere()).unwrap(), "~user");
    assert_eq!(expand_home("a/~", &nowhere()).unwrap(), "a/~");
    assert_eq!(
        expand_home("~", &nowhere()).unwrap_err().message(),
        "could not determine the home directory"
    );
    assert_eq!(
        absolute_path("relative", &nowhere()).unwrap_err().message(),
        "failed to resolve the current directory"
    );
}

#[test]
fn finds_the_maid_home() {
    assert_eq!(
        maid_home(Some("  ".to_string()), &surroundings()).unwrap(),
        "/home/operator/.maid"
    );
    assert_eq!(
        maid_home(Some("~/bot".to_string()), &surroundings()).unwrap(),
        "/home/operator/bot"
    );
    assert_eq!(
        maid_home(Some("bot".to_string()), &surroundings()).unwrap(),
        "/work/bot"
    );
    assert_eq!(
        maid_home(None, &nowhere()).unwrap_err().message(),
        "could not determine the home directory"
    );
}

#[test]
fn account_errors_name_the_key() {
    let account = |login: &str, id: u64| TrustedAccountFile {
        login: login.to_string(),
        id,
    };

    assert_eq!(
        required_accounts(None, "master_accounts")
            .unwrap_err()
            .message(),
        "master_accounts must list at least one { login, id } GitHub identity"
    );
    assert_eq!(
        required_accounts(Some(vec![account(" ", 1)]), "master_accounts")
            .unwrap_err()
            .message(),
        "master_accounts cannot contain an empty GitHub login"
    );
    assert_eq!(
        required_accounts(Some(vec![account("a", 0)]), "master_accounts")
            .unwrap_err()
            .message(),
        "invalid master_accounts ID"
    );
    assert_eq!(
        required_accounts(Some(vec![account("A", 1), account("b", 1)]), "master_accounts")
            .unwrap_err()
            .message(),
        "master_accounts contains a duplicate or conflicting GitHub identity: a (1)"
    );
}

#[test]
fn login_lists_are_normalized_once() {
    assert_eq!(
        normalize_logins(
            &vec!["B".to_string(), " a ".to_string(), "b".to_string()],
            "logins"
        )
        .unwrap(),
        vec!["b".to_string(), "a".to_string()]
    );
    assert_eq!(
        normalize_logins(&vec![" ".to_string()], "logins")
            .unwrap_err()
            .message(),
        "logins cannot contain empty GitHub logins"
    );
}

#[test]
fn repository_errors_name_the_entry() {
    let error = optional_repos(Some(vec!["a\"b".to_string()]), "auto_review_repos").unwrap_err();

    assert_eq!(error.message(), "invalid auto_review_repos entry");
    assert_eq!(
        error.full_message(),
        "invalid auto_review_repos entry: repository must be formatted as owner/repo: \"a\\\"b\""
    );
}

fn resolve(file: ConfigFile) -> Result<Settings, String> {
    file.resolve("/maid", "/maid/config.toml", &surroundings())
        .map_err(|error| error.full_message())
}

#[test]
fn resolves_a_full_file() {
    let settings = resolve(parse(SOURCE).unwrap()).unwrap();
    let dionysuzx = TrustedAccount {
        login: "dionysuzx".to_string(),
        id: GitHubUserId::new(1234).unwrap(),
    };

    assert_eq!(settings.bot_login, "maid-bot");
    assert_eq!(settings.master_accounts, vec![dionysuzx.clone()]);
    assert_eq!(settings.auto_review_accounts, vec![dionysuzx.clone()]);
    assert_eq!(settings.auto_review_public_accounts, vec![dionysuzx]);
    assert_eq!(settings.git_dir, "/home/operator/.maid/git");
    assert_eq!(settings.codex_home, "/home/operator/.maid/test-codex");
    assert_eq!(settings.task_limit_per_24h, Some(5));
    assert_eq!(settings.max_concurrent_requests, 3);
    assert_eq!(
        settings.github_api_requests_per_hour.requests_per_hour(),
        1200
    );
    assert_eq!(settings.github_notification_window.as_hours(), 96);
    assert_eq!(settings.codex_model, "gpt-test");
    assert_eq!(settings.codex_reasoning_effort, "high");
    assert_eq!(settings.codex_prompts.mention, "mention {{cleaned_text}}");
    assert_eq!(settings.github_api_ip.as_deref(), Some("127.0.0.1"));
    assert_eq!(settings.metrics_bind_address, "127.0.0.1:9999");
}

#[test]
fn fills_in_defaults() {
    let mut file = parse(SOURCE).unwrap();
    file.auto_review_accounts = None;
    file.auto_review_public_accounts = None;
    file.auto_review_repos = None;
    file.git_dir = None;
    file.codex_home = Some(" ".to_string());
    file.task_limit_per_24h = None;
    file.max_concurrent_requests = None;
    file.github_api_requests_per_hour = None;
    file.github_notification_window_hours = None;
    file.metrics_bind_address = None;
    file.github_api_ip = None;
    let settings = resolve(file).unwrap();

    assert_eq!(settings.auto_review_accounts, settings.master_accounts);
    assert!(settings.auto_review_public_accounts.is_empty());
    assert!(settings.auto_review_repos.is_empty());
    assert_eq!(settings.git_dir, "/maid/git");
    assert_eq!(settings.codex_home, "/maid/codex");
    assert_eq!(settings.task_limit_per_24h, None);
    assert_eq!(settings.max_concurrent_requests, 1);
    assert_eq!(
        settings.github_api_requests_per_hour.requests_per_hour(),
        1200
    );
    assert_eq!(settings.github_notification_window.as_hours(), 96);
    assert_eq!(settings.github_api_ip, None);
    assert_eq!(settings.metrics_bind_address, "127.0.0.1:9464");
}

#[test]
fn reports_the_first_bad_setting() {
    assert_eq!(
        resolve(ConfigFile::empty()).unwrap_err(),
        "bot_login is required; run `just init` and fill out /maid/config.toml"
    );

    let mut file = parse(SOURCE).unwrap();
    file.master_accounts = None;
    file.codex_model = None;
    assert_eq!(
        resolve(file).unwrap_err(),
        "master_accounts is required in /maid/config.toml: \
         master_accounts must list at least one { login, id } GitHub identity"
    );

    let mut file = parse(SOURCE).unwrap();
    file.auto_review_accounts = Some(vec!["stranger".to_string()]);
    assert_eq!(
        resolve(file).unwrap_err(),
        "auto_review_accounts must be a subset of master_accounts: stranger"
    );

    let mut file = parse(SOURCE).unwrap();
    file.max_concurrent_requests = Some(0);
    file.codex_model = None;
    assert_eq!(
        resolve(file).unwrap_err(),
        "max_concurrent_requests must be at least 1"
    );

    let mut file = parse(SOURCE).unwrap();
    file.github_api_requests_per_hour = Some(0);
    assert!(resolve(file).is_err());

    let mut file = parse(SOURCE).unwrap();
    file.github_notification_window_hours = Some(0);
    assert!(resolve(file).is_err());

    let mut file = parse(SOURCE).unwrap();
    file.codex_model = None;
    assert_eq!(
        resolve(file).unwrap_err(),
        "codex_model is required in /maid/config.toml: codex_model must not be empty"
    );

    let mut file = parse(SOURCE).unwrap();
    file.codex_prompts = None;
    assert_eq!(
        resolve(file).unwrap_err(),
        "codex_prompts is required in /maid/config.toml: \
         codex_prompts must include mention and pull_request_opened templates"
    );
}

fn gh(success: bool, stdout: &[u8], stderr: &str) -> GhOutput {
    GhOutput {
        success,
        stdout: stdout.to_vec(),
        stderr: stderr.as_bytes().to_vec(),
    }
}

#[test]
fn reads_the_token_that_gh_prints() {
    assert_eq!(
        gh_token_args("maid-bot"),
        vec![
            "auth",
            "token",
            "--hostname",
            "github.com",
            "--user",
            "maid-bot"
        ]
    );
    assert_eq!(
        token_from_gh("maid-bot", &gh(true, b" secret\n", "")).unwrap(),
        "secret"
    );
    assert_eq!(
        token_from_gh("maid-bot", &gh(true, b" \n", ""))
            .unwrap_err()
            .message(),
        "gh returned an empty token for maid-bot"
    );
    assert_eq!(
        token_from_gh("maid-bot", &gh(true, &[0xff], ""))
            .unwrap_err()
            .message(),
        "gh returned a token that was not valid UTF-8"
    );
    assert_eq!(
        token_from_gh("maid-bot", &gh(false, b"", " no account\n"))
            .unwrap_err()
            .message(),
        "`gh auth token --user maid-bot` failed: no account; run `gh auth login` for maid-bot \
         or check `gh auth status --hostname github.com`"
    );
}

fn complete(ip: bool, parses: bool, loopback: bool) -> Result<Config, String> {
    resolve(parse(SOURCE).unwrap())?
        .confirm_api_ip(ip)
        .map_err(|error| error.message())?
        .authenticate(&gh(true, b"token", ""))
        .map_err(|error| error.message())?
        .complete("/maid", parses, loopback)
        .map_err(|error| error.message())
}

#[test]
fn completes_the_configuration() {
    let config = complete(true, true, true).unwrap();

    assert_eq!(config.github_token, "token");
    assert_eq!(config.settings.bot_login, "maid-bot");
    assert_eq!(config.daemon_pid_path, "/maid/maid.pid");
    assert_eq!(config.task_start_ledger_path, "/maid/task-starts.json");
    assert_eq!(
        config.pending_handled_marker_ledger_path,
        "/maid/pending-handled-markers.json"
    );
    assert_eq!(
        config.observed_notification_ledger_path,
        "/maid/observed-notifications.json"
    );
    assert_eq!(
        complete(false, true, true).unwrap_err(),
        "github_api_ip must be an IPv4 or IPv6 address"
    );
    assert_eq!(
        complete(true, false, false).unwrap_err(),
        "metrics_bind_address must be an IP address and port"
    );
    assert_eq!(
        complete(true, true, false).unwrap_err(),
        "metrics_bind_address must use a loopback IP address"
    );
}
