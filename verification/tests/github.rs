use maid::domain::{
    CommentMention, FoundPullRequest, Issue, Notification, PullRequest, RepoSlug, WorkTarget,
};
use maid::github::{
    header_u64, secondary_backoff, BackoffReason, GitHubApiRequestRate, GitHubError,
    GitHubNotificationWindow, GitHubTraffic, NotificationPolling, RateLimitBackoff,
    RefusedResponse, RequestAction, RequestEnd, RequestReply, RequestRun, RequestStage,
};
use maid::github_api::{
    account_search_url, comment_reactions_url, includes_reaction, issue_comments_url, notification_from_api,
    notification_thread_url, notifications_from_api, open_pull_requests_url, parse_pull_request_html_url,
    post_comment_url, pr_reactions_url, pull_request_from_api, pull_requests_from_api,
    reaction_page_url, recent_comments,
    review_comments_url, review_state, ApiComment, ApiIssue, ApiIssuePullRequest, ApiNotification,
    ApiNotificationSubject, ApiPullRequest, ApiPullRequestBase, ApiReaction, ApiRepo, ApiUser,
    AccountSearch, LatestLookup, LatestStage, LookupAction, LookupError, LookupReply, PullRequestUrlFault,
    ReactionSearch, SearchStage, ThreadLookup, PARTICIPATING_NOTIFICATIONS_URL,
};
use std::time::Duration;

#[test]
fn request_rate_converts_to_spacing() {
    let rate = GitHubApiRequestRate::per_hour(1_200).unwrap();

    assert_eq!(rate.requests_per_hour(), 1_200);
    assert_eq!(Duration::from_nanos(rate.interval()), Duration::from_secs(3));
}

#[test]
fn request_rate_rejects_zero() {
    assert!(GitHubApiRequestRate::per_hour(0).is_err());
}

#[test]
fn secondary_backoff_is_bounded_exponential() {
    assert_eq!(Duration::from_secs(secondary_backoff(0)), Duration::from_secs(60));
    assert_eq!(Duration::from_secs(secondary_backoff(1)), Duration::from_secs(120));
    assert_eq!(Duration::from_secs(secondary_backoff(4)), Duration::from_secs(960));
    assert_eq!(Duration::from_secs(secondary_backoff(5)), Duration::from_secs(960));
}

#[test]
fn builds_reaction_page_urls() {
    assert_eq!(
        reaction_page_url("https://api.github.com/repos/o/r/issues/1/reactions", 2),
        "https://api.github.com/repos/o/r/issues/1/reactions?per_page=100&page=2"
    );
}

#[test]
fn polls_recent_participating_notifications_including_read_ones() {
    assert_eq!(
        PARTICIPATING_NOTIFICATIONS_URL,
        "https://api.github.com/notifications?participating=true&all=true&per_page=50"
    );
}

#[test]
fn keeps_recent_comments_across_issue_and_review_comment_streams() {
    let mut comments = (0..21)
        .map(|index| {
            api_comment(
                &format!("https://api.github.com/repos/o/r/issues/comments/{index}"),
                &format!("https://github.com/o/r/pull/1#issuecomment-{index}"),
                &format!("2026-06-08T00:00:{index:02}Z"),
            )
        })
        .collect::<Vec<_>>();
    comments.push(api_comment(
        "https://api.github.com/repos/o/r/pulls/comments/99",
        "https://github.com/o/r/pull/1#discussion_r99",
        "2026-06-08T00:00:21Z",
    ));

    let recent = recent_comments(&comments, 20);

    assert_eq!(recent.len(), 20);
    assert!(
        !recent
            .iter()
            .any(|comment| comment.url.ends_with("/issues/comments/0"))
    );
    assert_eq!(
        recent.last().map(|comment| comment.url.as_str()),
        Some("https://api.github.com/repos/o/r/pulls/comments/99")
    );
}

fn api_comment(url: &str, html_url: &str, created_at: &str) -> ApiComment {
    ApiComment {
        url: url.to_string(),
        body: "@maid-bot review".to_string(),
        html_url: html_url.to_string(),
        created_at: created_at.to_string(),
        user: ApiUser {
            login: "dionysuzx".to_string(),
            id: 1234,
        },
        issue_url: None,
        pull_request_url: Some("https://api.github.com/repos/o/r/pulls/1".to_string()),
    }
}

#[test]
fn intervals_agree_with_floating_point_division() {
    for rate in (1..5000u32).chain([65535, 99999, 1 << 31, u32::MAX]) {
        let expected = Duration::from_secs_f64(3600.0 / f64::from(rate));
        let interval = GitHubApiRequestRate::per_hour(rate).unwrap().interval();
        assert_eq!(Duration::from_nanos(interval), expected, "rate {rate}");
    }
}

#[test]
fn zero_limits_are_refused_in_words() {
    assert_eq!(
        GitHubApiRequestRate::per_hour(0).unwrap_err(),
        GitHubError::ZeroRequestRate
    );
    assert_eq!(
        GitHubNotificationWindow::hours(0).unwrap_err(),
        GitHubError::ZeroNotificationWindow
    );
    assert_eq!(GitHubNotificationWindow::hours(5).unwrap().as_hours(), 5);
    assert_eq!(GitHubApiRequestRate::default().requests_per_hour(), 1200);
}

#[test]
fn turns_are_an_interval_apart() {
    let mut traffic = GitHubTraffic::new(GitHubApiRequestRate::per_hour(1200).unwrap());

    assert_eq!(traffic.wait_for_turn(10), 0);
    assert_eq!(traffic.wait_for_turn(10), 3_000_000_000);
    assert_eq!(traffic.wait_for_turn(3_000_000_009), 1);
    assert_eq!(traffic.wait_for_turn(3_000_000_010), 0);
}

#[test]
fn no_turn_is_given_while_backing_off() {
    let mut traffic = GitHubTraffic::new(GitHubApiRequestRate::per_hour(1200).unwrap());
    traffic.back_off(0, 60);
    traffic.back_off(0, 5);

    assert_eq!(traffic.wait_for_turn(1), 59_999_999_999);
    assert_eq!(traffic.wait_for_turn(60_000_000_000), 0);
}

#[test]
fn polling_keeps_to_the_interval_that_github_asks_for() {
    let mut polling = NotificationPolling::new();
    assert_eq!(polling.wait_until_allowed(5), 0);

    polling.record_headers(0, &Some("60".to_string()));
    assert_eq!(polling.wait_until_allowed(0), 60_000_000_000);
    assert_eq!(polling.wait_until_allowed(60_000_000_000), 0);
}

#[test]
fn headers_are_whole_numbers() {
    assert_eq!(header_u64(&Some("12".to_string())), Some(12));
    assert_eq!(header_u64(&Some("twelve".to_string())), None);
    assert_eq!(header_u64(&Some("18446744073709551616".to_string())), None);
    assert_eq!(header_u64(&None), None);
}

fn refused(
    retry_after: Option<&str>,
    remaining: Option<&str>,
    reset: Option<&str>,
    body: &str,
) -> RefusedResponse {
    RefusedResponse {
        retry_after: retry_after.map(str::to_string),
        ratelimit_remaining: remaining.map(str::to_string),
        ratelimit_reset: reset.map(str::to_string),
        body: body.to_string(),
    }
}

fn backoff(status: u16, response: RefusedResponse, attempt: usize) -> Option<(u128, &'static str)> {
    RateLimitBackoff::from_response(status, &response, attempt, 1000)
        .map(|backoff| (backoff.delay, backoff.reason.label()))
}

#[test]
fn refusals_say_how_long_to_wait() {
    assert_eq!(
        backoff(403, refused(Some("7"), Some("0"), Some("2000"), ""), 0),
        Some((7, "retry-after"))
    );
    assert_eq!(
        backoff(429, refused(None, Some("0"), Some("1010"), ""), 0),
        Some((11, "primary"))
    );
    assert_eq!(
        backoff(429, refused(None, Some("0"), Some("10"), ""), 0),
        Some((1, "primary"))
    );
    assert_eq!(
        backoff(403, refused(None, None, None, "Secondary RATE limit"), 2),
        Some((240, "secondary"))
    );
    assert_eq!(
        backoff(403, refused(None, None, None, "API rate limit exceeded"), 2),
        Some((60, "rate-limit"))
    );
    assert_eq!(backoff(403, refused(None, None, None, "forbidden"), 0), None);
    assert_eq!(backoff(404, refused(Some("7"), None, None, ""), 0), None);
}

fn status(code: u16) -> RequestReply<String> {
    RequestReply::Status {
        code,
        status: format!("{code} status"),
    }
}

fn refusal(response: RefusedResponse) -> RequestReply<String> {
    RequestReply::Refusal {
        response,
        now_epoch: 1000,
    }
}

#[test]
fn requests_are_retried_five_times() {
    let mut run: RequestRun<String> = RequestRun::new();
    let mut sent = 0;
    while run.action() != RequestAction::Nothing {
        let reply = match run.action() {
            RequestAction::Send => {
                sent += 1;
                status(429)
            }
            RequestAction::ReadRefusal => refusal(refused(Some("1"), None, None, "slow down")),
            _ => RequestReply::BackedOff,
        };
        run = run.on_reply(reply);
    }

    assert_eq!(sent, 6);
    match run.stage {
        RequestStage::Ended(end) => assert_eq!(
            end.failure("GET", "https://x").as_deref(),
            Some("GET https://x still rate limited after 5 retries: slow down")
        ),
        other => panic!("unexpected stage {other:?}"),
    }
}

#[test]
fn requests_end_with_what_came_back() {
    let run: RequestRun<String> = RequestRun::new();
    assert_eq!(
        run.on_reply(status(204)).stage,
        RequestStage::Ended(RequestEnd::Empty)
    );
    let run: RequestRun<String> = RequestRun::new();
    assert_eq!(
        run.on_reply(status(200)).stage,
        RequestStage::Ended(RequestEnd::Body)
    );
    let run: RequestRun<String> = RequestRun::new();
    let run = run
        .on_reply(status(500))
        .on_reply(refusal(refused(None, None, None, "broken")));
    match run.stage {
        RequestStage::Ended(end) => assert_eq!(
            end.failure("POST", "https://x").as_deref(),
            Some("POST https://x returned 500 status: broken")
        ),
        other => panic!("unexpected stage {other:?}"),
    }
    assert_eq!(
        RequestEnd::SendFailed("refused".to_string())
            .failure("PATCH", "https://x")
            .as_deref(),
        Some("PATCH https://x failed")
    );
    let run: RequestRun<String> = RequestRun::new();
    let run = run
        .on_reply(status(403))
        .on_reply(refusal(refused(Some("9"), None, None, "")));
    assert_eq!(
        run.action(),
        RequestAction::BackOff {
            backoff: RateLimitBackoff {
                delay: 9,
                reason: BackoffReason::RetryAfter
            }
        }
    );
}

fn pull_request() -> PullRequest {
    PullRequest {
        owner: "o".to_string(),
        repo: "r".to_string(),
        number: 1,
        author: "a".to_string(),
        author_id: 7,
        api_url: "https://api.github.com/repos/o/r/pulls/1".to_string(),
        html_url: "https://github.com/o/r/pull/1".to_string(),
        clone_url: "https://github.com/o/r.git".to_string(),
    }
}

fn issue() -> Issue {
    Issue {
        owner: "o".to_string(),
        repo: "r".to_string(),
        number: 7,
        author: "a".to_string(),
        title: String::new(),
        body: String::new(),
        api_url: "https://api.github.com/repos/o/r/issues/7".to_string(),
        html_url: "https://github.com/o/r/issues/7".to_string(),
        clone_url: "https://github.com/o/r.git".to_string(),
        ssh_url: "git@github.com:o/r.git".to_string(),
        default_branch: "main".to_string(),
    }
}

fn api_repo(owner: Option<&str>) -> ApiRepo {
    ApiRepo {
        name: "r".to_string(),
        clone_url: "https://github.com/o/r.git".to_string(),
        ssh_url: "git@github.com:o/r.git".to_string(),
        default_branch: "main".to_string(),
        private: false,
        owner: owner.map(|login| ApiUser {
            login: login.to_string(),
            id: 8,
        }),
    }
}

fn api_pull_request(owner: Option<&str>) -> ApiPullRequest {
    ApiPullRequest {
        url: "https://api.github.com/repos/o/r/pulls/1".to_string(),
        html_url: "https://github.com/o/r/pull/1".to_string(),
        number: 1,
        user: ApiUser {
            login: "a".to_string(),
            id: 7,
        },
        base: ApiPullRequestBase {
            repo: api_repo(owner),
        },
    }
}

fn notification(subject: Option<&str>, comment: Option<&str>) -> Notification {
    notification_from_api(ApiNotification {
        id: "n".to_string(),
        reason: "mention".to_string(),
        subject: ApiNotificationSubject {
            kind: "PullRequest".to_string(),
            url: subject.map(str::to_string),
            latest_comment_url: comment.map(str::to_string),
        },
        unread: true,
        updated_at: "2026-06-08T04:00:00Z".to_string(),
    })
}

#[test]
fn builds_api_urls() {
    let slug = RepoSlug {
        owner: "o".to_string(),
        repo: "r".to_string(),
    };

    assert_eq!(
        open_pull_requests_url(&slug),
        "https://api.github.com/repos/o/r/pulls?state=open&sort=created&direction=desc&per_page=50"
    );
    assert_eq!(
        post_comment_url(&WorkTarget::Issue(issue())),
        "https://api.github.com/repos/o/r/issues/7/comments"
    );
    assert_eq!(
        pr_reactions_url("o", "r", 1),
        "https://api.github.com/repos/o/r/issues/1/reactions"
    );
    assert_eq!(comment_reactions_url("https://x"), "https://x/reactions");
    assert_eq!(
        notification_thread_url(&notification(None, None)),
        "https://api.github.com/notifications/threads/n"
    );
    assert_eq!(
        issue_comments_url(&WorkTarget::PullRequest(pull_request()), 2),
        "https://api.github.com/repos/o/r/issues/1/comments?per_page=100&page=2"
    );
    assert_eq!(
        review_comments_url(&pull_request(), 2),
        "https://api.github.com/repos/o/r/pulls/1/comments?per_page=100&page=2"
    );
}

#[test]
fn pull_request_urls_read_back() {
    assert_eq!(
        parse_pull_request_html_url("https://github.com/o/r/pull/12"),
        Ok(("o".to_string(), "r".to_string(), 12))
    );
    for (url, fault, message) in [
        (
            "http://github.com/o/r/pull/1",
            PullRequestUrlFault::Prefix,
            "pull request URL must start with https://github.com/: ",
        ),
        (
            "https://github.com//r/pull/1",
            PullRequestUrlFault::Owner,
            "pull request URL is missing owner: ",
        ),
        (
            "https://github.com/o",
            PullRequestUrlFault::Repo,
            "pull request URL is missing repo: ",
        ),
        (
            "https://github.com/o/r/issues/1",
            PullRequestUrlFault::Pull,
            "pull request URL must contain /pull/: ",
        ),
        (
            "https://github.com/o/r/pull",
            PullRequestUrlFault::NumberMissing,
            "pull request URL is missing number: ",
        ),
        (
            "https://github.com/o/r/pull/x",
            PullRequestUrlFault::Number,
            "pull request URL has invalid number: ",
        ),
        (
            "https://github.com/o/r/pull/1/files",
            PullRequestUrlFault::Trailing,
            "pull request URL has unexpected path after number: ",
        ),
    ] {
        let error = parse_pull_request_html_url(url).unwrap_err();
        assert_eq!(error.fault, fault);
        assert_eq!(error.message(), format!("{message}{url}"));
    }
}

fn reaction(login: &str, content: &str) -> ApiReaction {
    ApiReaction {
        content: content.to_string(),
        user: ApiUser {
            login: login.to_string(),
            id: 99,
        },
    }
}

#[test]
fn reactions_are_searched_page_by_page() {
    assert!(includes_reaction(&vec![reaction("Bot", "+1")], "bot", "+1"));
    assert!(!includes_reaction(&vec![reaction("bot", "eyes")], "bot", "+1"));

    let full = || (0..100).map(|_| reaction("other", "+1")).collect::<Vec<_>>();
    let search: ReactionSearch<String> = ReactionSearch::new("bot".to_string(), "+1".to_string());
    assert_eq!(search.next_page(), Some(1));
    let search = search.on_page(Ok(full()));
    assert_eq!(search.next_page(), Some(2));
    let found = search.on_page(Ok(vec![reaction("bot", "+1")]));
    assert_eq!(found.stage, SearchStage::Ended(Ok(true)));

    let search: ReactionSearch<String> = ReactionSearch::new("bot".to_string(), "+1".to_string());
    let missing = search.on_page(Ok(vec![reaction("other", "+1")]));
    assert_eq!(missing.stage, SearchStage::Ended(Ok(false)));
    assert_eq!(
        format!("{:?} {:?}", review_state(true), review_state(false)),
        "Handled Pending"
    );
}

#[test]
fn pull_requests_need_an_owner() {
    assert_eq!(
        pull_request_from_api(api_pull_request(Some("o"))),
        Some(pull_request())
    );
    assert_eq!(pull_request_from_api(api_pull_request(None)), None);
}

#[test]
fn the_latest_comment_leads_to_its_pull_request() {
    let comment = api_comment(
        "https://api.github.com/c",
        "https://github.com/c",
        "2026-06-08T00:00:00Z",
    );
    let lookup: LatestLookup<String> = LatestLookup::new(notification(
        Some("https://api.github.com/repos/o/r/pulls/1"),
        Some("https://api.github.com/c"),
    ));
    assert_eq!(
        lookup.action(),
        LookupAction::Comment {
            url: "https://api.github.com/c".to_string()
        }
    );
    let lookup = lookup.on_reply(LookupReply::Comment(comment.clone()));
    assert_eq!(
        lookup.action(),
        LookupAction::PullRequest {
            url: "https://api.github.com/repos/o/r/pulls/1".to_string()
        }
    );
    let lookup = lookup.on_reply(LookupReply::PullRequest(api_pull_request(Some("o"))));
    assert_eq!(
        lookup.stage,
        LatestStage::Ended(Ok(Some(CommentMention {
            author: "dionysuzx".to_string(),
            author_id: 1234,
            body: "@maid-bot review".to_string(),
            api_url: "https://api.github.com/c".to_string(),
            html_url: "https://github.com/c".to_string(),
            target: WorkTarget::PullRequest(pull_request()),
        })))
    );

    let lookup: LatestLookup<String> = LatestLookup::new(notification(None, None));
    assert_eq!(lookup.stage, LatestStage::Ended(Ok(None)));
}

#[test]
fn threads_gather_both_comment_streams() {
    let numbered = |kind: &str, from: usize, upto: usize| {
        (from..upto)
            .map(|index| {
                api_comment(
                    &format!("https://api.github.com/{kind}/{index:03}"),
                    "https://github.com/c",
                    &format!("2026-06-08T00:{:02}:{:02}Z", index / 60, index % 60),
                )
            })
            .collect::<Vec<_>>()
    };
    let mut lookup: ThreadLookup<String> = ThreadLookup::new(&notification(
        Some("https://api.github.com/repos/o/r/pulls/1"),
        None,
    ));
    let mut actions = Vec::new();
    while lookup.action() != LookupAction::Nothing {
        let action = lookup.action();
        let reply = match &action {
            LookupAction::PullRequest { .. } => {
                LookupReply::PullRequest(api_pull_request(Some("o")))
            }
            LookupAction::IssueComments { page: 1, .. } => {
                LookupReply::Comments(numbered("issues", 0, 100))
            }
            LookupAction::IssueComments { .. } => {
                LookupReply::Comments(numbered("issues", 100, 105))
            }
            _ => LookupReply::Comments(numbered("pulls", 105, 110)),
        };
        actions.push(action);
        lookup = lookup.on_reply(reply);
    }
    let mentions = lookup.into_result().unwrap().unwrap();

    assert_eq!(actions.len(), 4);
    assert_eq!(mentions.len(), 20);
    assert_eq!(mentions[0].api_url, "https://api.github.com/issues/090");
    assert_eq!(mentions[19].api_url, "https://api.github.com/pulls/109");
}

#[test]
fn threads_that_lead_nowhere_are_empty() {
    let mut lookup: ThreadLookup<String> =
        ThreadLookup::new(&notification(None, Some("https://api.github.com/c")));
    let mut comment = api_comment("https://api.github.com/c", "https://github.com/c", "");
    comment.pull_request_url = None;
    comment.issue_url = Some("https://api.github.com/i".to_string());
    lookup = lookup.on_reply(LookupReply::Comment(comment));
    assert_eq!(
        lookup.action(),
        LookupAction::Issue {
            url: "https://api.github.com/i".to_string()
        }
    );
    lookup = lookup.on_reply(LookupReply::Failed("gone".to_string()));
    assert_eq!(
        lookup.into_result(),
        Some(Err(LookupError::Outside("gone".to_string())))
    );
    let mut comment = api_comment("https://api.github.com/c", "https://github.com/c", "");
    comment.pull_request_url = None;
    let lookup: ThreadLookup<String> =
        ThreadLookup::new(&notification(None, Some("https://api.github.com/c")));
    let lookup = lookup.on_reply(LookupReply::Comment(comment));
    assert_eq!(lookup.into_result(), Some(Ok(Vec::new())));

    let lookup: LatestLookup<String> = LatestLookup::new(notification(
        Some("https://api.github.com/repos/o/r/pulls/1"),
        Some("https://api.github.com/c"),
    ));
    let lookup = lookup
        .on_reply(LookupReply::Comment(api_comment("u", "h", "")))
        .on_reply(LookupReply::PullRequest(api_pull_request(None)));
    assert_eq!(lookup.stage, LatestStage::Ended(Err(LookupError::NoOwner)));

    let mut comment = api_comment("https://api.github.com/c", "https://github.com/c", "");
    comment.pull_request_url = None;
    comment.issue_url = Some("https://api.github.com/i".to_string());
    let lookup: LatestLookup<String> =
        LatestLookup::new(notification(None, Some("https://api.github.com/c")));
    let lookup = lookup
        .on_reply(LookupReply::Comment(comment))
        .on_reply(LookupReply::Issue(issue_of(Some(
            "https://api.github.com/repos/o/r/pulls/1",
        ))));
    assert_eq!(
        lookup.action(),
        LookupAction::PullRequest {
            url: "https://api.github.com/repos/o/r/pulls/1".to_string()
        }
    );
}

#[test]
fn recent_comments_are_ordered_by_time_and_url() {
    let comments = vec![
        api_comment("b", "", "2"),
        api_comment("a", "", "2"),
        api_comment("c", "", "1"),
    ];
    let urls = |limit: usize| {
        recent_comments(&comments, limit)
            .into_iter()
            .map(|comment| comment.url)
            .collect::<Vec<_>>()
    };

    assert_eq!(urls(5), vec!["c", "a", "b"]);
    assert_eq!(urls(2), vec!["a", "b"]);
    assert_eq!(urls(0), Vec::<String>::new());
}

#[test]
fn answers_keep_their_order() {
    let api = |id: &str, reason: &str| ApiNotification {
        id: id.to_string(),
        reason: reason.to_string(),
        subject: ApiNotificationSubject {
            kind: "PullRequest".to_string(),
            url: None,
            latest_comment_url: None,
        },
        unread: false,
        updated_at: "2026-06-08T04:00:00Z".to_string(),
    };
    let notifications = notifications_from_api(vec![api("1", "mention"), api("2", "author")]);

    assert_eq!(notifications.len(), 2);
    assert_eq!((notifications[0].id.as_str(), notifications[0].reason.as_str()), ("1", "mention"));
    assert_eq!((notifications[1].id.as_str(), notifications[1].reason.as_str()), ("2", "author"));
    assert!(!notifications[1].unread);
}

#[test]
fn one_pull_request_without_an_owner_spoils_the_list() {
    assert_eq!(
        pull_requests_from_api(vec![api_pull_request(Some("o")), api_pull_request(Some("o"))]),
        Some(vec![pull_request(), pull_request()])
    );
    assert_eq!(
        pull_requests_from_api(vec![api_pull_request(Some("o")), api_pull_request(None)]),
        None
    );
}

fn issue_of(url: Option<&str>) -> ApiIssue {
    ApiIssue {
        url: "https://api.github.com/repos/o/r/issues/7".to_string(),
        html_url: "https://github.com/o/r/issues/7".to_string(),
        number: 7,
        title: String::new(),
        body: String::new(),
        user: ApiUser {
            login: "a".to_string(),
            id: 7,
        },
        repository_url: "https://api.github.com/repos/o/r".to_string(),
        pull_request: url.map(|url| ApiIssuePullRequest {
            url: url.to_string(),
        }),
    }
}

#[test]
fn the_pull_requests_of_an_account_are_searched_and_read() {
    assert_eq!(
        account_search_url("dionysuzx", 2),
        "https://api.github.com/search/issues?q=is:pr+is:open+author:dionysuzx\
         &sort=created&order=desc&per_page=100&page=2"
    );
    let search: AccountSearch<String> = AccountSearch::new("a".to_string());
    assert_eq!(
        search.action(),
        LookupAction::Search {
            login: "a".to_string(),
            page: 1
        }
    );
    let full = (0..100).map(|_| issue_of(None)).collect();
    let search = search.on_reply(LookupReply::Issues(full));
    assert_eq!(
        search.action(),
        LookupAction::Search {
            login: "a".to_string(),
            page: 2
        }
    );
    let search = search.on_reply(LookupReply::Issues(vec![
        issue_of(Some("https://api.github.com/repos/o/r/pulls/1")),
        issue_of(None),
        issue_of(Some("https://api.github.com/repos/o/r/pulls/2")),
    ]));
    assert_eq!(
        search.action(),
        LookupAction::PullRequest {
            url: "https://api.github.com/repos/o/r/pulls/1".to_string()
        }
    );
    let mut private = api_pull_request(Some("o"));
    private.base.repo.private = true;
    let search = search.on_reply(LookupReply::PullRequest(private));
    assert_eq!(
        search.action(),
        LookupAction::PullRequest {
            url: "https://api.github.com/repos/o/r/pulls/2".to_string()
        }
    );
    let search = search.on_reply(LookupReply::PullRequest(api_pull_request(Some("o"))));
    assert_eq!(search.action(), LookupAction::Nothing);
    let found = |base_private: bool| FoundPullRequest {
        pr: pull_request(),
        base_private,
    };
    assert_eq!(search.into_result(), Some(Ok(vec![found(true), found(false)])));
}

#[test]
fn a_search_stops_at_its_last_page_and_at_a_failure() {
    let mut search: AccountSearch<String> = AccountSearch::new("a".to_string());
    for page in 1..=10 {
        assert_eq!(
            search.action(),
            LookupAction::Search {
                login: "a".to_string(),
                page
            }
        );
        search = search.on_reply(LookupReply::Issues((0..100).map(|_| issue_of(None)).collect()));
    }
    assert_eq!(search.into_result(), Some(Ok(Vec::new())));

    let search: AccountSearch<String> = AccountSearch::new("a".to_string());
    let search = search.on_reply(LookupReply::Failed("gone".to_string()));
    assert_eq!(
        search.into_result(),
        Some(Err(LookupError::Outside("gone".to_string())))
    );

    let search: AccountSearch<String> = AccountSearch::new("a".to_string());
    let search = search
        .on_reply(LookupReply::Issues(vec![issue_of(Some("u"))]))
        .on_reply(LookupReply::PullRequest(api_pull_request(None)));
    assert_eq!(search.into_result(), Some(Err(LookupError::NoOwner)));
}

fn issue_notification(comment: &str) -> Notification {
    Notification {
        subject_kind: "Issue".to_string(),
        ..notification(
            Some("https://api.github.com/repos/o/r/issues/7"),
            Some(comment),
        )
    }
}

fn issue_comment(url: &str, created_at: &str) -> ApiComment {
    ApiComment {
        pull_request_url: None,
        issue_url: Some("https://api.github.com/repos/o/r/issues/7".to_string()),
        ..api_comment(url, "https://github.com/o/r/issues/7#issuecomment-1", created_at)
    }
}

#[test]
fn the_latest_comment_leads_to_its_issue() {
    let begun = || {
        let lookup: LatestLookup<String> =
            LatestLookup::new(issue_notification("https://api.github.com/c"));
        lookup.on_reply(LookupReply::Comment(issue_comment("https://api.github.com/c", "")))
    };
    assert_eq!(
        begun().action(),
        LookupAction::Issue {
            url: "https://api.github.com/repos/o/r/issues/7".to_string()
        }
    );
    let lookup = begun().on_reply(LookupReply::Issue(issue_of(None)));
    assert_eq!(
        lookup.action(),
        LookupAction::Repository {
            url: "https://api.github.com/repos/o/r".to_string()
        }
    );
    let lookup = lookup.on_reply(LookupReply::Repository(api_repo(Some("o"))));
    assert_eq!(
        lookup.stage,
        LatestStage::Ended(Ok(Some(CommentMention {
            author: "dionysuzx".to_string(),
            author_id: 1234,
            body: "@maid-bot review".to_string(),
            api_url: "https://api.github.com/c".to_string(),
            html_url: "https://github.com/o/r/issues/7#issuecomment-1".to_string(),
            target: WorkTarget::Issue(issue()),
        })))
    );
    let ownerless = begun()
        .on_reply(LookupReply::Issue(issue_of(None)))
        .on_reply(LookupReply::Repository(api_repo(None)));
    assert_eq!(ownerless.stage, LatestStage::Ended(Err(LookupError::NoOwner)));
    let pull_request = begun().on_reply(LookupReply::Issue(issue_of(Some("p"))));
    assert_eq!(
        pull_request.action(),
        LookupAction::PullRequest {
            url: "p".to_string()
        }
    );
}

#[test]
fn threads_of_issues_have_one_comment_stream() {
    let lookup: ThreadLookup<String> =
        ThreadLookup::new(&issue_notification("https://api.github.com/c"));
    assert_eq!(
        lookup.action(),
        LookupAction::Issue {
            url: "https://api.github.com/repos/o/r/issues/7".to_string()
        }
    );
    let lookup = lookup
        .on_reply(LookupReply::Issue(issue_of(None)))
        .on_reply(LookupReply::Repository(api_repo(Some("o"))));
    assert_eq!(
        lookup.action(),
        LookupAction::IssueComments {
            target: WorkTarget::Issue(issue()),
            page: 1
        }
    );
    assert_eq!(
        issue_comments_url(&WorkTarget::Issue(issue()), 1),
        "https://api.github.com/repos/o/r/issues/7/comments?per_page=100&page=1"
    );
    let lookup = lookup.on_reply(LookupReply::Comments(vec![
        issue_comment("b", "2"),
        issue_comment("a", "1"),
    ]));
    let mentions = lookup.into_result().unwrap().unwrap();
    let urls: Vec<&str> = mentions.iter().map(|mention| mention.api_url.as_str()).collect();
    assert_eq!(urls, ["a", "b"]);
    assert!(mentions.iter().all(|mention| mention.target == WorkTarget::Issue(issue())));
}
