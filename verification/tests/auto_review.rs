use maid::auto_review::{
    classify_auto_review_eligibility, plan_auto_review, AutoReviewAction, AutoReviewEligibility, AutoReviewObservation,
};
use maid::domain::{CodexTaskOrigin, PullRequest, ReviewState};
use maid::handled_marker::PendingHandledMarker;

#[test]
fn unauthorized_author_is_skipped_without_review_state() {
    let pr = pr("contributor");
    let action = plan_auto_review(AutoReviewObservation::new(
        pr.clone(),
        AutoReviewEligibility::Untrusted,
        None,
        false,
    ));

    assert_eq!(action, AutoReviewAction::SkipUnauthorized { pr });
}

#[test]
fn auto_review_pending_marker_is_marked_without_starting_task() {
    let pr = pr("dionysuzx");
    let action = plan_auto_review(AutoReviewObservation::new(
        pr.clone(),
        AutoReviewEligibility::Trusted,
        Some(ReviewState::Pending),
        true,
    ));

    assert_eq!(
        action,
        AutoReviewAction::MarkHandled {
            marker: PendingHandledMarker::for_pull_request(&pr),
            pr,
        }
    );
}

#[test]
fn pending_allowed_pr_starts_review_task() {
    let pr = pr("dionysuzx");
    let action = plan_auto_review(AutoReviewObservation::new(
        pr.clone(),
        AutoReviewEligibility::Trusted,
        Some(ReviewState::Pending),
        false,
    ));

    assert!(matches!(
        action,
        AutoReviewAction::StartTask { pr: started, task }
            if started == pr
                && task.pr_url == "https://github.com/o/r/pull/1"
                && matches!(task.origin, CodexTaskOrigin::PullRequestOpened { .. })
    ));
}

fn pr(author: &str) -> PullRequest {
    PullRequest {
        owner: "o".to_string(),
        repo: "r".to_string(),
        number: 1,
        author: author.to_string(),
        author_id: 1234,
        api_url: "https://api.github.com/repos/o/r/pulls/1".to_string(),
        html_url: "https://github.com/o/r/pull/1".to_string(),
        clone_url: "https://github.com/o/r.git".to_string(),
    }
}

#[test]
fn authors_are_classified_by_login_and_trust() {
    let classify = |author: &str, trusted: bool| {
        classify_auto_review_eligibility(&pr(author), "maid-bot", trusted)
    };

    assert_eq!(
        classify("Maid-Bot", true),
        AutoReviewEligibility::SelfAuthored
    );
    assert_eq!(classify("dionysuzx", true), AutoReviewEligibility::Trusted);
    assert_eq!(
        classify("contributor", false),
        AutoReviewEligibility::Untrusted
    );
}

#[test]
fn handled_and_own_pull_requests_start_nothing() {
    let handled = plan_auto_review(AutoReviewObservation::new(
        pr("dionysuzx"),
        AutoReviewEligibility::Trusted,
        Some(ReviewState::Handled),
        true,
    ));
    assert_eq!(
        handled,
        AutoReviewAction::ForgetHandledMarker {
            marker: PendingHandledMarker::for_pull_request(&pr("dionysuzx")),
            pr: pr("dionysuzx"),
        }
    );
    let own = plan_auto_review(AutoReviewObservation::new(
        pr("maid-bot"),
        AutoReviewEligibility::SelfAuthored,
        None,
        false,
    ));
    assert_eq!(own, AutoReviewAction::SkipSelfAuthored);
}
