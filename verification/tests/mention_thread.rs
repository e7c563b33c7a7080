use maid::domain::{CommentMention, MentionRequest, PullRequest, ReviewState, WorkTarget};
use maid::handled_marker::PendingHandledMarker;
use maid::mention_thread::{
    choose_mention_thread_read, plan_mention_thread, MentionNotificationPlan, MentionObservation,
    MentionThread, MentionThreadAction, MentionThreadRead,
};

#[test]
fn handled_latest_trusted_request_does_not_scan_old_comments() {
    let latest = mention("dionysuzx", "@maid-bot done", "4");
    let request = MentionRequest::parse(&latest.body, "maid-bot")
        .unwrap()
        .unwrap();

    assert_eq!(
        choose_mention_thread_read(
            &latest,
            Some(&request),
            Some(ReviewState::Handled),
            "maid-bot"
        ),
        MentionThreadRead::LatestOnly
    );
}

#[test]
fn latest_bot_comment_scans_recent_comments() {
    let latest = mention("maid-bot", "codex response", "4");

    assert_eq!(
        choose_mention_thread_read(&latest, None, None, "maid-bot"),
        MentionThreadRead::RecentComments
    );
}

#[test]
fn mention_thread_pending_marker_is_marked_without_starting_task() {
    let mention = mention("dionysuzx", "@maid-bot review", "2");
    let request = MentionRequest::parse(&mention.body, "maid-bot")
        .unwrap()
        .unwrap();

    let plan = plan_mention_thread(
        MentionThread::from_observations(vec![MentionObservation::new(
            mention.clone(),
            request,
            ReviewState::Pending,
            true,
        )]),
        "maid-bot",
    );

    assert_eq!(plan.notification, MentionNotificationPlan::MarkRead);
    assert_eq!(
        plan.actions,
        vec![MentionThreadAction::MarkHandled {
            marker: PendingHandledMarker::for_mention(&mention),
            mention,
        }]
    );
}

#[test]
fn pending_request_starts_task_and_leaves_notification_unread() {
    let mention = mention("dionysuzx", "@maid-bot review", "2");
    let request = MentionRequest::parse(&mention.body, "maid-bot")
        .unwrap()
        .unwrap();

    let plan = plan_mention_thread(
        MentionThread::from_observations(vec![MentionObservation::new(
            mention.clone(),
            request,
            ReviewState::Pending,
            false,
        )]),
        "maid-bot",
    );

    assert_eq!(plan.notification, MentionNotificationPlan::LeaveUnread);
    assert!(matches!(
        plan.actions.as_slice(),
        [MentionThreadAction::StartTask { mention: started, .. }] if started == &mention
    ));
}

#[test]
fn pending_requests_each_start_tasks() {
    let older = mention("dionysuzx", "@maid-bot review old head", "2");
    let newer = mention("dionysuzx", "@maid-bot review latest head", "3");
    let older_request = MentionRequest::parse(&older.body, "maid-bot")
        .unwrap()
        .unwrap();
    let newer_request = MentionRequest::parse(&newer.body, "maid-bot")
        .unwrap()
        .unwrap();

    let plan = plan_mention_thread(
        MentionThread::from_observations(vec![
            MentionObservation::new(older.clone(), older_request, ReviewState::Pending, false),
            MentionObservation::new(newer.clone(), newer_request, ReviewState::Pending, false),
        ]),
        "maid-bot",
    );

    assert_eq!(plan.notification, MentionNotificationPlan::LeaveUnread);
    assert_eq!(plan.actions.len(), 2);
    assert!(matches!(
        &plan.actions[0],
        MentionThreadAction::StartTask { mention: started, .. } if started == &older
    ));
    assert!(matches!(
        &plan.actions[1],
        MentionThreadAction::StartTask { mention: started, .. } if started == &newer
    ));
}

fn mention(author: &str, body: &str, comment_id: &str) -> CommentMention {
    CommentMention {
        author: author.to_string(),
        author_id: 1234,
        body: body.to_string(),
        api_url: format!("https://api.github.com/repos/o/r/issues/comments/{comment_id}"),
        html_url: format!("https://github.com/o/r/pull/1#issuecomment-{comment_id}"),
        target: WorkTarget::PullRequest(PullRequest {
            owner: "o".to_string(),
            repo: "r".to_string(),
            number: 1,
            author: "contributor".to_string(),
            author_id: 5678,
            api_url: "https://api.github.com/repos/o/r/pulls/1".to_string(),
            html_url: "https://github.com/o/r/pull/1".to_string(),
            clone_url: "https://github.com/o/r.git".to_string(),
        }),
    }
}
