use maid::codex::{
    check_private_directory, codex_config_string, container_name, line_text, removal_args,
    quotes_fit, review_response, runtime_env, BoundedCapture, CodexError, CodexJsonEvent, CodexJsonEvents, CodexJsonItem,
    CodexWorker, MountSource, ReviewOrder, StdoutReader, WorkerAction, WorkerError, WorkerReply, WorkerRun,
    WorkerStage, DOCKER_PATH, EXIT_AFTER_COMPLETION_TIMEOUT_MILLIS, MAX_STDOUT_BYTES,
    UNSUPPORTED_COMMAND,
};
use maid::domain::{CodexPromptTemplates, CodexTask, CodexTaskOrigin};

fn prompts() -> CodexPromptTemplates {
    CodexPromptTemplates {
        mention: "{{cleaned_text}}".into(),
        pull_request_opened: "{{author}}".into(),
        operator_mention: String::new(),
    }
}

fn task() -> CodexTask {
    CodexTask {
        pr_url: "https://github.com/o/r/pull/1".into(),
        origin: CodexTaskOrigin::Mention {
            mention_url: "https://github.com/o/r/pull/1#issuecomment-2".into(),
            raw_body: "@maid-bot review".into(),
            cleaned_text: "review".into(),
        },
    }
}

fn event(line: &str) -> Option<CodexJsonEvent> {
    let value: serde_json::Value = serde_json::from_str(line).ok()?;
    Some(match value.get("type")?.as_str()? {
        "item.completed" => {
            let item = value.get("item")?;
            CodexJsonEvent::ItemCompleted {
                item: match item.get("type")?.as_str()? {
                    "agent_message" => CodexJsonItem::AgentMessage {
                        text: item.get("text")?.as_str()?.to_string(),
                    },
                    _ => CodexJsonItem::Other,
                },
            }
        }
        "turn.completed" => CodexJsonEvent::TurnCompleted,
        "task_complete" => CodexJsonEvent::TaskComplete,
        _ => CodexJsonEvent::Other,
    })
}

#[test]
fn command_has_one_fixed_review_boundary() {
    let worktree = "/tmp/maid-review/repo";
    let codex_home = "/tmp/maid-review/codex";
    let worker = CodexWorker::new(codex_home, "test-model", "low", prompts());
    let args = worker.command(
        &MountSource::new(worktree, "worktree path").unwrap(),
        &MountSource::new(codex_home, "codex home").unwrap(),
        "maid-review-test",
        1000,
        100,
    );
    for required in [
        "--read-only",
        "--cap-drop=ALL",
        "--security-opt=no-new-privileges",
        "--security-opt=seccomp=unconfined",
        "--ignore-user-config",
        "--ignore-rules",
        "--ephemeral",
        "approval_policy=\"never\"",
    ] {
        assert!(args.iter().any(|arg| arg == required));
    }
    assert!(args.iter().any(|arg| arg.contains("maid-review.filesystem")
        && arg.contains("\":root\" = \"deny\"")
        && arg.contains("\".\" = \"read\"")));
    assert!(args
        .iter()
        .any(|arg| arg == "permissions.maid-review.network={ enabled = false }"));
    assert!(args
        .iter()
        .any(|arg| arg.ends_with("dst=/workspace,readonly") && arg.contains(worktree)));
    assert!(!args.iter().any(|arg| arg.contains("github")));
    assert!(args.iter().any(|arg| arg == "1000:100"));
    assert!(args
        .iter()
        .any(|arg| arg == "model_reasoning_effort=\"low\""));
}

#[test]
fn parses_only_the_last_agent_message() {
    let mut events = CodexJsonEvents::new();
    assert!(!events.observe(event("not json")));
    assert!(!events.observe(event(
        r#"{"type":"item.completed","item":{"type":"agent_message","text":"first"}}"#
    )));
    assert!(!events.observe(event(
        r#"{"type":"item.completed","item":{"type":"agent_message","text":"final"}}"#
    )));
    assert!(events.observe(event(r#"{"type":"turn.completed"}"#)));
    assert_eq!(events.last_message.as_deref(), Some("final"));
}

#[test]
fn task_deadline_terminates_the_runtime() {
    let mut run: WorkerRun<String> = WorkerRun::new(
        "maid-review-1-1".to_string(),
        100,
        EXIT_AFTER_COMPLETION_TIMEOUT_MILLIS,
        task().prompt(&prompts()).unwrap(),
    );
    assert_eq!(
        run.action(),
        WorkerAction::WritePrompt {
            prompt: "review".to_string()
        }
    );
    run = run.on_reply(WorkerReply::Done);
    assert_eq!(
        run.action(),
        WorkerAction::AwaitExit {
            task_timeout_millis: 100,
            exit_timeout_millis: 5000
        }
    );
    run = run.on_reply(WorkerReply::TimedOut);
    assert_eq!(run.action(), WorkerAction::TerminateProcessGroup);
    run = run.on_reply(WorkerReply::Done);
    assert_eq!(
        run.action(),
        WorkerAction::RemoveContainer {
            name: "maid-review-1-1".to_string()
        }
    );
    run = run.on_reply(WorkerReply::Done);
    assert_eq!(run.action(), WorkerAction::Nothing);
    match run.stage {
        WorkerStage::Ended(Err(WorkerError::Review(error))) => {
            assert!(error.message().contains("time limit"));
            assert_eq!(
                error.message(),
                "review worker exceeded its 0 second time limit"
            );
        }
        other => panic!("unexpected stage {other:?}"),
    }
}

#[test]
fn completion_uses_json_without_persisting_a_session() {
    let stdout = b"{\"type\":\"item.completed\",\"item\":{\"type\":\"agent_message\",\"text\":\"review complete\"}}\n{\"type\":\"turn.completed\"}\n";
    let mut reader = StdoutReader::new();
    let mut events = CodexJsonEvents::new();
    let mut completed = false;
    for chunk in stdout.chunks(7) {
        for line in reader.feed(&chunk.to_vec()) {
            let parsed = line_text(&line).and_then(|text| event(&text));
            completed = events.observe(parsed) || completed;
        }
    }
    assert!(completed);
    assert_eq!(reader.last_line(), None);
    assert_eq!(reader.finish(), Ok(()));

    let run: WorkerRun<String> = WorkerRun::new("name".to_string(), 1000, 1000, String::new());
    let run = run
        .on_reply(WorkerReply::Done)
        .on_reply(WorkerReply::Exited {
            success: true,
            status: "exit status: 0".to_string(),
        })
        .on_reply(WorkerReply::Done)
        .on_reply(WorkerReply::Stderr(Vec::new()))
        .on_reply(WorkerReply::Message(events.last_message));
    let message = match run.stage {
        WorkerStage::Ended(Ok(message)) => message,
        other => panic!("unexpected stage {other:?}"),
    };
    let review = review_response(message).unwrap();

    assert_eq!(review.response, "review complete");
    assert_eq!(review.session_id, None);
}

#[test]
fn lingering_workers_are_removed_and_still_answer() {
    let run: WorkerRun<String> = WorkerRun::new("name".to_string(), 1000, 1000, String::new());
    let run = run
        .on_reply(WorkerReply::Done)
        .on_reply(WorkerReply::Lingering)
        .on_reply(WorkerReply::Done)
        .on_reply(WorkerReply::Done)
        .on_reply(WorkerReply::TimedOut)
        .on_reply(WorkerReply::Stderr(Vec::new()));

    assert_eq!(run.action(), WorkerAction::LastMessage);
}

#[test]
fn failed_workers_report_their_errors() {
    let run: WorkerRun<String> = WorkerRun::new("name".to_string(), 1000, 1000, String::new());
    let run = run
        .on_reply(WorkerReply::Done)
        .on_reply(WorkerReply::Exited {
            success: false,
            status: "exit status: 1".to_string(),
        })
        .on_reply(WorkerReply::Done)
        .on_reply(WorkerReply::Stderr(b" no \xff\n".to_vec()));

    match run.stage {
        WorkerStage::Ended(Err(WorkerError::Review(error))) => assert_eq!(
            error.message(),
            "review worker exited with exit status: 1: no \u{fffd}"
        ),
        other => panic!("unexpected stage {other:?}"),
    }
}

#[test]
fn broken_workers_are_abandoned() {
    let run: WorkerRun<String> = WorkerRun::new("name".to_string(), 1000, 1000, String::new());
    let run = run.on_reply(WorkerReply::Failed("broken pipe".to_string()));

    assert_eq!(
        run.action(),
        WorkerAction::Abandon {
            name: "name".to_string()
        }
    );
    assert_eq!(
        run.on_reply(WorkerReply::Done).stage,
        WorkerStage::Ended(Err(WorkerError::Outside("broken pipe".to_string())))
    );
}

#[test]
fn lines_do_not_depend_on_chunks() {
    let stream = b"one\n\ntwo\nthree";
    for size in 1..stream.len() + 1 {
        let mut reader = StdoutReader::new();
        let mut lines = Vec::new();
        for chunk in stream.chunks(size) {
            lines.extend(reader.feed(&chunk.to_vec()));
        }
        lines.extend(reader.last_line());
        let texts: Vec<String> = lines.iter().map(|line| line_text(line).unwrap()).collect();
        assert_eq!(texts, vec!["one", "", "two", "three"]);
    }
}

#[test]
fn lines_that_are_not_text_are_skipped() {
    assert_eq!(line_text(&vec![0xff, b'\n']), None);
    assert_eq!(line_text(&b"x\r\n".to_vec()).as_deref(), Some("x"));
}

#[test]
fn stdout_is_bounded() {
    let mut reader = StdoutReader::new();
    reader.feed(&vec![b'a'; MAX_STDOUT_BYTES]);
    assert_eq!(reader.finish(), Ok(()));
    reader.feed(&vec![b'a']);
    assert_eq!(reader.finish(), Err(CodexError::StdoutLimit));
    assert_eq!(
        CodexError::StdoutLimit.message(),
        "Codex stdout exceeded capture limit"
    );
}

#[test]
fn captures_are_bounded() {
    let mut capture = BoundedCapture::new(3);
    capture.feed(&b"ab".to_vec());
    capture.feed(&b"c".to_vec());
    assert_eq!(capture.finish(), Ok(b"abc".to_vec()));

    let mut capture = BoundedCapture::new(3);
    capture.feed(&b"abcd".to_vec());
    let error = capture.finish().unwrap_err();
    assert_eq!(error, CodexError::OutputLimit);
    assert_eq!(error.message(), "process output exceeded limit");
}

#[test]
fn empty_responses_are_refused() {
    assert_eq!(
        review_response(Some("  ".to_string())),
        Err(CodexError::EmptyResponse)
    );
    assert_eq!(review_response(None), Err(CodexError::EmptyResponse));
    assert_eq!(
        CodexError::EmptyResponse.message(),
        "Codex produced an empty response"
    );
    assert_eq!(
        review_response(Some(" fine \n".to_string()))
            .unwrap()
            .response,
        "fine"
    );
}

#[test]
fn mounts_cannot_smuggle_options() {
    let error = MountSource::new("/a,readonly=false", "worktree").unwrap_err();

    assert_eq!(
        error.message(),
        "worktree cannot contain a comma: /a,readonly=false"
    );
    assert_eq!(MountSource::new("/a", "worktree").unwrap().path(), "/a");
}

#[test]
fn private_directories_are_real() {
    assert_eq!(check_private_directory("/h", false, true), Ok(()));
    assert_eq!(
        check_private_directory("/h", true, true)
            .unwrap_err()
            .message(),
        "private directory must be a real directory: /h"
    );
    assert!(check_private_directory("/h", false, false).is_err());
}

#[test]
fn config_strings_are_escaped() {
    assert_eq!(codex_config_string("key", "plain"), "key=\"plain\"");
    let rendered = codex_config_string("key", "a\"b\\c");
    let parsed = rendered.parse::<toml::Table>().unwrap();
    assert_eq!(parsed.get("key").unwrap().as_str(), Some("a\"b\\c"));
}

#[test]
fn containers_have_names_of_their_own() {
    assert_eq!(container_name(12, 3), "maid-review-12-3");
    assert_ne!(container_name(12, 3), container_name(12, 4));
    assert_eq!(removal_args("x"), vec!["rm", "--force", "x"]);
}

#[test]
fn reviews_are_fenced_in_and_see_two_mounts() {
    let worker = CodexWorker::new("/codex", "model", "high", prompts());
    let worktree = MountSource::new("/w", "worktree").unwrap();
    let home = MountSource::new("/c", "codex home").unwrap();
    let args = worker.command(&worktree, &home, &container_name(7, 3), 10, 20);
    let mounts: Vec<&str> = args
        .windows(2)
        .filter(|pair| pair[0] == "--mount")
        .map(|pair| pair[1].as_str())
        .collect();

    assert_eq!(
        mounts,
        [
            "type=bind,src=/w,dst=/workspace,readonly",
            "type=bind,src=/c,dst=/run/maid/codex,readonly",
        ]
    );
    for flag in [
        "--read-only",
        "--cap-drop=ALL",
        "--security-opt=no-new-privileges",
        "--ignore-user-config",
        "--ignore-rules",
        "--ephemeral",
    ] {
        assert!(args.iter().any(|arg| arg == flag), "{flag}");
    }
    for (option, value) in [("--pids-limit", "256"), ("--memory", "8g"), ("--cpus", "2")] {
        assert!(args.windows(2).any(|pair| pair[0] == option && pair[1] == value));
    }
}

#[test]
fn the_runtime_has_nothing_but_a_path() {
    assert_eq!(
        runtime_env(),
        vec![("PATH".to_string(), DOCKER_PATH.to_string())]
    );
    assert_eq!(DOCKER_PATH, "/usr/local/bin:/usr/bin:/bin");
}

#[test]
fn operator_requests_need_a_template() {
    let operate = CodexTask {
        pr_url: "https://github.com/o/r/pull/1".into(),
        origin: CodexTaskOrigin::OperatorMention {
            mention_url: "https://github.com/o/r/pull/1#issuecomment-2".into(),
            raw_body: "@maid-bot /operate ship it".into(),
            request_text: "ship it".into(),
            trigger_author: "dionysuzx".into(),
            bot_login: "maid-bot".into(),
        },
    };
    let mut worker = CodexWorker::new("/codex", "model", "high", prompts());

    match worker.order(&operate).unwrap() {
        ReviewOrder::Refuse { answer } => {
            assert_eq!(answer.response, UNSUPPORTED_COMMAND);
            assert_eq!(answer.session_id, None);
        }
        ReviewOrder::Run { .. } => panic!("an operator request was run without a template"),
    }
    assert!(matches!(worker.order(&task()), Ok(ReviewOrder::Run { .. })));

    worker.prompts.operator_mention = "do {{request_text}}".into();
    assert_eq!(
        worker.order(&operate),
        Ok(ReviewOrder::Run {
            prompt: "do ship it".into()
        })
    );
    worker.prompts.operator_mention = "do {{request_text".into();
    assert!(worker.order(&operate).is_err());
}

#[test]
fn long_rows_of_quotes_do_not_fit() {
    for quote in ["'", "\""] {
        let longest = quote.repeat(255);
        assert!(quotes_fit(&longest));
        assert!(quotes_fit(&format!("{longest}x{longest}")));
        assert!(!quotes_fit(&format!("{longest}{quote}")));
        assert!(!quotes_fit(&format!("ab{longest}{quote}c")));
        assert!(codex_config_string("key", &longest).starts_with("key="));
    }
    assert!(quotes_fit(&"'\"".repeat(1000)));
    assert!(quotes_fit(""));
}
