use maid::domain::{
    validate_repo_name_part, CodexPromptTemplates, CodexTask, CodexTaskOrigin, DomainError,
    GitHubUserId, Issue, MentionRequest, Notification, PullRequest, RepoSlug, WorkTarget,
    OPERATOR_TRIGGER,
};

#[test]
fn filters_to_mention_notifications_with_supported_subjects() {
    let eligible = Notification {
        id: "1".to_string(),
        reason: "mention".to_string(),
        subject_kind: "PullRequest".to_string(),
        subject_url: Some("https://api.github.com/repos/o/r/pulls/1".to_string()),
        latest_comment_url: Some(
            "https://api.github.com/repos/o/r/issues/comments/2".to_string(),
        ),
        unread: true,
        updated_at: "2026-06-08T04:00:00Z".to_string(),
    };

    assert!(eligible.is_mention_candidate());
    assert!(
        Notification {
            reason: "comment".to_string(),
            ..eligible.clone()
        }
        .is_mention_candidate()
    );
    assert!(
        Notification {
            latest_comment_url: None,
            ..eligible.clone()
        }
        .is_mention_candidate()
    );
    assert!(
        Notification {
            subject_kind: "Issue".to_string(),
            subject_url: Some("https://api.github.com/repos/o/r/issues/1".to_string()),
            ..eligible.clone()
        }
        .is_mention_candidate()
    );

    for notification in [
        Notification {
            subject_kind: "Discussion".to_string(),
            ..eligible.clone()
        },
        Notification {
            subject_url: None,
            ..eligible.clone()
        },
    ] {
        assert!(!notification.is_mention_candidate());
    }
}

#[test]
fn parses_mentions_and_cleans_request_text() {
    let request = MentionRequest::parse("@maid-bot please review this PR", "maid-bot")
        .unwrap()
        .unwrap();

    assert_eq!(request.raw_body, "@maid-bot please review this PR");
    assert_eq!(request.cleaned_text, "please review this PR");

    assert!(
        MentionRequest::parse("@maid-botx not you", "maid-bot")
            .unwrap()
            .is_none()
    );
    assert!(
        MentionRequest::parse("@maid-bot-test not you", "maid-bot")
            .unwrap()
            .is_none()
    );
    assert!(
        MentionRequest::parse("mail@maid-bot.example is not a mention", "maid-bot")
            .unwrap()
            .is_none()
    );
    assert!(
        MentionRequest::parse("@MAID-BOT check this", "maid-bot")
            .unwrap()
            .is_some()
    );

    let repeated = MentionRequest::parse("cc @maid-bot, @MAID-BOT please review", "maid-bot")
        .unwrap()
        .unwrap();

    assert_eq!(repeated.cleaned_text, "cc ,  please review");
}

#[test]
fn parses_operator_text_from_cleaned_mention() {
    let request = MentionRequest::parse(
        "@maid-bot /operate implement the discussed changes",
        "maid-bot",
    )
    .unwrap()
    .unwrap();

    assert_eq!(
        request.operator_text().as_deref(),
        Some("implement the discussed changes")
    );

    let review = MentionRequest::parse("@maid-bot please review", "maid-bot")
        .unwrap()
        .unwrap();

    assert_eq!(review.operator_text(), None);

    let not_operator = MentionRequest::parse("@maid-bot /operatex review", "maid-bot")
        .unwrap()
        .unwrap();

    assert_eq!(not_operator.operator_text(), None);
}

#[test]
fn builds_codex_prompt_with_required_context() {
    let task = CodexTask {
        pr_url: "https://github.com/o/r/pull/1".to_string(),
        origin: CodexTaskOrigin::Mention {
            mention_url: "https://github.com/o/r/pull/1#issuecomment-2".to_string(),
            raw_body: "@maid-bot review".to_string(),
            cleaned_text: "review".to_string(),
        },
    };

    let prompt = task.prompt(&test_prompts()).unwrap();
    assert!(prompt.contains("Mention URL:\nhttps://github.com/o/r/pull/1#issuecomment-2"));
    assert!(prompt.contains("Pull request URL:\nhttps://github.com/o/r/pull/1"));
    assert!(prompt.contains("Raw mention body:\n@maid-bot review"));
    assert!(prompt.contains("Cleaned request text:\nreview"));
}

#[test]
fn builds_codex_prompt_for_automatic_pull_request_review() {
    let task = CodexTask {
        pr_url: "https://github.com/o/r/pull/1".to_string(),
        origin: CodexTaskOrigin::PullRequestOpened {
            author: "dionysuzx".to_string(),
        },
    };

    let prompt = task.prompt(&test_prompts()).unwrap();
    assert!(prompt.contains("Pull request URL:\nhttps://github.com/o/r/pull/1"));
    assert!(prompt.contains("Opened by:\ndionysuzx"));
    assert!(prompt.contains("Review request:\nplease review"));
}

#[test]
fn renders_configured_codex_prompt_templates() {
    let task = CodexTask {
        pr_url: "https://github.com/o/r/pull/1".to_string(),
        origin: CodexTaskOrigin::Mention {
            mention_url: "https://github.com/o/r/pull/1#issuecomment-2".to_string(),
            raw_body: "@maid-bot review".to_string(),
            cleaned_text: "review".to_string(),
        },
    };
    let templates = CodexPromptTemplates {
        mention: "PR={{ pr_url }} REQUEST={{cleaned_text}}".to_string(),
        pull_request_opened: String::new(),
        operator_mention: String::new(),
    };

    assert_eq!(
        task.prompt(&templates).unwrap(),
        "PR=https://github.com/o/r/pull/1 REQUEST=review"
    );
}

#[test]
fn rejects_unknown_codex_prompt_placeholders() {
    let task = CodexTask {
        pr_url: "https://github.com/o/r/pull/1".to_string(),
        origin: CodexTaskOrigin::PullRequestOpened {
            author: "dionysuzx".to_string(),
        },
    };
    let templates = CodexPromptTemplates {
        mention: String::new(),
        pull_request_opened: "{{missing}}".to_string(),
        operator_mention: String::new(),
    };

    assert!(task.prompt(&templates).is_err());
}

#[test]
fn builds_operator_prompt_from_template() {
    let task = CodexTask {
        pr_url: "https://github.com/o/r/pull/1".to_string(),
        origin: CodexTaskOrigin::OperatorMention {
            mention_url: "https://github.com/o/r/pull/1#issuecomment-2".to_string(),
            raw_body: "@maid-bot /operate ship it".to_string(),
            request_text: "ship it".to_string(),
            trigger_author: "dionysuzx".to_string(),
            bot_login: "maid-bot".to_string(),
        },
    };
    let templates = CodexPromptTemplates {
        mention: String::new(),
        pull_request_opened: String::new(),
        operator_mention:
            "{{bot_login}}|{{trigger_author}}|{{mention_url}}|{{pr_url}}|{{raw_body}}|{{request_text}}"
                .to_string(),
    };

    assert_eq!(
        task.prompt(&templates).unwrap(),
        "maid-bot|dionysuzx|https://github.com/o/r/pull/1#issuecomment-2|https://github.com/o/r/pull/1|@maid-bot /operate ship it|ship it"
    );
}

#[test]
fn reports_task_kind_for_logging() {
    assert_eq!(
        CodexTaskOrigin::Mention {
            mention_url: "https://github.com/o/r/pull/1#issuecomment-2".to_string(),
            raw_body: "@maid-bot review".to_string(),
            cleaned_text: "review".to_string(),
        }
        .task_kind(),
        "mention"
    );
    assert_eq!(
        CodexTaskOrigin::OperatorMention {
            mention_url: "https://github.com/o/r/pull/1#issuecomment-2".to_string(),
            raw_body: "@maid-bot /operate ship it".to_string(),
            request_text: "ship it".to_string(),
            trigger_author: "dionysuzx".to_string(),
            bot_login: "maid-bot".to_string(),
        }
        .task_kind(),
        "operator_mention"
    );
    assert_eq!(
        CodexTaskOrigin::PullRequestOpened {
            author: "dionysuzx".to_string(),
        }
        .task_kind(),
        "pull_request_opened"
    );
}

#[test]
fn parses_repository_slugs() {
    assert_eq!(
        RepoSlug::parse(" Dionysuzx/Maid ").unwrap(),
        RepoSlug {
            owner: "dionysuzx".to_string(),
            repo: "maid".to_string(),
        }
    );

    assert!(RepoSlug::parse("dionysuzx").is_err());
    assert!(RepoSlug::parse("dionysuzx/maid/extra").is_err());
    assert!(RepoSlug::parse("../maid").is_err());
}

fn test_prompts() -> CodexPromptTemplates {
    CodexPromptTemplates {
        mention: "\
Mention URL:
{{mention_url}}

Pull request URL:
{{pr_url}}

Raw mention body:
{{raw_body}}

Cleaned request text:
{{cleaned_text}}
"
        .to_string(),
        pull_request_opened: "\
Pull request URL:
{{pr_url}}

Opened by:
{{author}}

Review request:
please review
"
        .to_string(),
        operator_mention: "\
Bot:
{{bot_login}}

Trigger author:
{{trigger_author}}

Mention URL:
{{mention_url}}

Pull request URL:
{{pr_url}}

Raw mention body:
{{raw_body}}

Operator request:
{{request_text}}
"
        .to_string(),
    }
}

#[test]
fn slug_errors_quote_the_value() {
    let message = |value: &str| RepoSlug::parse(value).unwrap_err().message();

    assert_eq!(
        message(" a\tb "),
        "repository must be formatted as owner/repo: \"a\\tb\""
    );
    assert_eq!(message("../maid"), "invalid repository owner: \"..\"");
    assert_eq!(message("a/b c"), "invalid repository name: \"b c\"");
    assert_eq!(
        message("a/b/c"),
        "repository must be formatted as owner/repo: \"a/b/c\""
    );
    assert_eq!(
        RepoSlug::parse("A/B").unwrap().display(),
        "a/b".to_string()
    );
}

#[test]
fn name_parts_are_one_level() {
    assert_eq!(validate_repo_name_part("a.b-c_1", "name"), Ok(()));
    for value in ["", ".", "..", "a/b", "a b", "a\\b"] {
        assert_eq!(
            validate_repo_name_part(value, "name"),
            Err(DomainError::InvalidNamePart {
                label: "name".to_string(),
                value: value.to_string()
            })
        );
    }
}

#[test]
fn template_errors_name_the_placeholder() {
    let task = CodexTask {
        pr_url: "u".to_string(),
        origin: CodexTaskOrigin::PullRequestOpened {
            author: "a".to_string(),
        },
    };
    let render = |template: &str| {
        task.prompt(&CodexPromptTemplates {
            mention: String::new(),
            pull_request_opened: template.to_string(),
            operator_mention: String::new(),
        })
    };

    assert_eq!(render("{{ author }}}}{").unwrap(), "a}}{");
    assert_eq!(render("plain { text }").unwrap(), "plain { text }");
    assert_eq!(render("{{author"), Err(DomainError::UnclosedPlaceholder));
    assert_eq!(
        render("{{author}} {{ cleaned_text }}"),
        Err(DomainError::UnknownPlaceholder {
            name: "cleaned_text".to_string()
        })
    );
}

#[test]
fn user_ids_are_positive() {
    assert_eq!(GitHubUserId::new(0), None);
    assert_eq!(GitHubUserId::new(7).unwrap().get(), 7);
}

#[test]
fn read_notifications_are_not_unread() {
    let notification = Notification {
        id: "1".to_string(),
        reason: "mention".to_string(),
        subject_kind: "PullRequest".to_string(),
        subject_url: None,
        latest_comment_url: None,
        unread: false,
        updated_at: String::new(),
    };

    assert!(notification.is_read());
    assert!(!Notification {
        unread: true,
        ..notification
    }
    .is_read());
}

#[test]
fn targets_know_what_to_fetch() {
    let pr = WorkTarget::PullRequest(PullRequest {
        owner: "o".to_string(),
        repo: "r".to_string(),
        number: 46,
        author: "a".to_string(),
        author_id: 1234,
        api_url: "api".to_string(),
        html_url: "html".to_string(),
        clone_url: "clone".to_string(),
    });
    let issue = WorkTarget::Issue(Issue {
        owner: "o".to_string(),
        repo: "r".to_string(),
        number: 12,
        author: "a".to_string(),
        title: "t".to_string(),
        body: "b".to_string(),
        api_url: "api".to_string(),
        html_url: "issue".to_string(),
        clone_url: "clone".to_string(),
        ssh_url: "ssh".to_string(),
        default_branch: "main".to_string(),
    });

    assert_eq!(pr.fetch_ref(), "pull/46/head");
    assert_eq!(issue.fetch_ref(), "main");
    assert_eq!((pr.kind(), issue.kind()), ("pulls", "issues"));
    assert_eq!((pr.repo_key(), issue.number()), ("o/r".to_string(), 12));
    assert_eq!((pr.html_url(), issue.html_url()), ("html", "issue"));
    assert_eq!(
        (pr.owner(), pr.repo(), pr.clone_url()),
        ("o", "r", "clone")
    );
}

#[test]
fn operator_requests_start_with_the_trigger() {
    let request = MentionRequest::parse(
        &format!("{OPERATOR_TRIGGER} @maid-bot\nship it"),
        "maid-bot",
    )
    .unwrap()
    .unwrap();

    assert_eq!(request.operator_text().as_deref(), Some("ship it"));
}

#[test]
fn triggers_are_the_mention_or_the_pull_request() {
    let mention = CodexTask {
        pr_url: "pr".to_string(),
        origin: CodexTaskOrigin::Mention {
            mention_url: "mention".to_string(),
            raw_body: String::new(),
            cleaned_text: String::new(),
        },
    };
    let opened = CodexTask {
        pr_url: "pr".to_string(),
        origin: CodexTaskOrigin::PullRequestOpened {
            author: "a".to_string(),
        },
    };

    assert_eq!(mention.trigger_url(), "mention");
    assert_eq!(opened.trigger_url(), "pr");
}

#[test]
fn mentions_are_found_in_any_case() {
    for body in ["@maid-bot go", "@MAID-BOT go", "@Maid-Bot go"] {
        let request = MentionRequest::parse(body, "Maid-bot").unwrap().unwrap();
        assert_eq!(request.cleaned_text, "go");
    }
}

#[test]
fn values_are_put_in_verbatim() {
    let task = CodexTask {
        pr_url: "https://github.com/o/r/pull/1".to_string(),
        origin: CodexTaskOrigin::PullRequestOpened {
            author: "{{pr_url}}".to_string(),
        },
    };
    let templates = CodexPromptTemplates {
        mention: String::new(),
        pull_request_opened: "<{{author}}|{{pr_url}}>".to_string(),
        operator_mention: String::new(),
    };

    assert_eq!(
        task.prompt(&templates).unwrap(),
        "<{{pr_url}}|https://github.com/o/r/pull/1>"
    );
}
