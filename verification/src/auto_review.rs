//! What to do about an open pull request that nobody asked to review.
use crate::domain::{CodexTask, CodexTaskOrigin, PullRequest, ReviewState};
use crate::handled_marker::PendingHandledMarker;
use crate::text;
use vstd::prelude::*;

verus! {

#[derive(Clone, Copy, Debug, Eq, PartialEq)]
pub enum AutoReviewEligibility {
    SelfAuthored,
    Trusted,
    Untrusted,
}

/// The bot's own pull requests come first, trusted or not.
pub fn classify_auto_review_eligibility(
    pr: &PullRequest,
    bot_login: &str,
    is_trusted_author: bool,
) -> (r: AutoReviewEligibility)
    ensures
        r == (if text::lowered(pr.author@) == text::lowered(bot_login@) {
            AutoReviewEligibility::SelfAuthored
        } else if is_trusted_author {
            AutoReviewEligibility::Trusted
        } else {
            AutoReviewEligibility::Untrusted
        }),
{
    if text::same_ignoring_case(pr.author.as_str(), bot_login) {
        AutoReviewEligibility::SelfAuthored
    } else if is_trusted_author {
        AutoReviewEligibility::Trusted
    } else {
        AutoReviewEligibility::Untrusted
    }
}

/// A pull request, its author's standing, whether GitHub shows it as handled
/// (where that was asked), and whether a handled mark is owed for it.
#[derive(Debug, Eq, PartialEq)]
pub struct AutoReviewObservation {
    pub pr: PullRequest,
    pub author: AutoReviewEligibility,
    pub state: Option<ReviewState>,
    pub has_pending_marker: bool,
}

impl AutoReviewObservation {
    pub fn new(
        pr: PullRequest,
        author: AutoReviewEligibility,
        state: Option<ReviewState>,
        has_pending_marker: bool,
    ) -> (r: AutoReviewObservation)
        ensures
            r == (AutoReviewObservation { pr, author, state, has_pending_marker }),
    {
        AutoReviewObservation { pr, author, state, has_pending_marker }
    }
}

#[derive(Debug, Eq, PartialEq)]
pub enum AutoReviewAction {
    StartTask { pr: PullRequest, task: CodexTask },
    MarkHandled { pr: PullRequest, marker: PendingHandledMarker },
    ForgetHandledMarker { pr: PullRequest, marker: PendingHandledMarker },
    SkipSelfAuthored,
    SkipUnauthorized { pr: PullRequest },
}

/// The action that is due for an observation.
pub open spec fn planned(observation: AutoReviewObservation) -> AutoReviewAction {
    let pr = observation.pr;
    let marker = PendingHandledMarker::of_pull_request(pr);
    match (observation.author, observation.state) {
        (AutoReviewEligibility::SelfAuthored, _) => AutoReviewAction::SkipSelfAuthored,
        (AutoReviewEligibility::Untrusted, _) => AutoReviewAction::SkipUnauthorized { pr },
        (AutoReviewEligibility::Trusted, None) => AutoReviewAction::SkipUnauthorized { pr },
        (AutoReviewEligibility::Trusted, Some(ReviewState::Handled)) => {
            AutoReviewAction::ForgetHandledMarker { pr, marker }
        },
        (AutoReviewEligibility::Trusted, Some(ReviewState::Pending)) => {
            if observation.has_pending_marker {
                AutoReviewAction::MarkHandled { pr, marker }
            } else {
                AutoReviewAction::StartTask {
                    pr,
                    task: CodexTask {
                        pr_url: pr.html_url,
                        origin: CodexTaskOrigin::PullRequestOpened { author: pr.author },
                    },
                }
            }
        },
    }
}

pub fn plan_auto_review(observation: AutoReviewObservation) -> (r: AutoReviewAction)
    ensures
        r == planned(observation),
{
    match observation.author {
        AutoReviewEligibility::SelfAuthored => AutoReviewAction::SkipSelfAuthored,
        AutoReviewEligibility::Untrusted => {
            AutoReviewAction::SkipUnauthorized { pr: observation.pr }
        },
        AutoReviewEligibility::Trusted => plan_trusted_auto_review(observation),
    }
}

fn plan_trusted_auto_review(observation: AutoReviewObservation) -> (r: AutoReviewAction)
    requires
        observation.author == AutoReviewEligibility::Trusted,
    ensures
        r == planned(observation),
{
    let marker = PendingHandledMarker::for_pull_request(&observation.pr);
    match observation.state {
        Some(ReviewState::Handled) => {
            AutoReviewAction::ForgetHandledMarker { pr: observation.pr, marker }
        },
        Some(ReviewState::Pending) => {
            if observation.has_pending_marker {
                AutoReviewAction::MarkHandled { pr: observation.pr, marker }
            } else {
                AutoReviewAction::StartTask {
                    task: CodexTask {
                        pr_url: observation.pr.html_url.clone(),
                        origin: CodexTaskOrigin::PullRequestOpened {
                            author: observation.pr.author.clone(),
                        },
                    },
                    pr: observation.pr,
                }
            }
        },
        None => AutoReviewAction::SkipUnauthorized { pr: observation.pr },
    }
}

/// A review starts only for a trusted author whose pull request is open for
/// review and owes no handled mark.
pub proof fn law_review_starts_only_when_due(observation: AutoReviewObservation)
    ensures
        planned(observation) is StartTask == (observation.author == AutoReviewEligibility::Trusted
            && observation.state == Some(ReviewState::Pending) && !observation.has_pending_marker),
{
}

/// A handled pull request has its marker forgotten, one whose mark is owed gets
/// the mark, and one that is open is reviewed: the task is about it and names its
/// author. The bot's own pull requests and those of others are left alone.
pub proof fn law_what_is_due_for_a_pull_request(pr: PullRequest, owed: bool)
    ensures
        ({
            let of = |author: AutoReviewEligibility, state: Option<ReviewState>|
                planned(
                    AutoReviewObservation { pr, author, state, has_pending_marker: owed },
                );
            let marker = PendingHandledMarker::PullRequest { html_url: pr.html_url };
            &&& of(AutoReviewEligibility::Trusted, Some(ReviewState::Handled)) == (
            AutoReviewAction::ForgetHandledMarker { pr, marker })
            &&& owed ==> of(AutoReviewEligibility::Trusted, Some(ReviewState::Pending)) == (
            AutoReviewAction::MarkHandled { pr, marker })
            &&& !owed ==> of(AutoReviewEligibility::Trusted, Some(ReviewState::Pending)) == (
            AutoReviewAction::StartTask {
                pr,
                task: CodexTask {
                    pr_url: pr.html_url,
                    origin: CodexTaskOrigin::PullRequestOpened { author: pr.author },
                },
            })
            &&& of(AutoReviewEligibility::Trusted, None) == (AutoReviewAction::SkipUnauthorized {
                pr,
            })
            &&& forall|state: Option<ReviewState>| #[trigger]
                of(AutoReviewEligibility::SelfAuthored, state)
                    == AutoReviewAction::SkipSelfAuthored
            &&& forall|state: Option<ReviewState>| #[trigger]
                of(AutoReviewEligibility::Untrusted, state) == (
                AutoReviewAction::SkipUnauthorized { pr })
        }),
{
}

/// A pull request of the bot's own is never reviewed, whatever the case of its login
/// and whoever is trusted; of the others, exactly those by trusted authors are.
pub proof fn law_who_is_eligible(
    pr: &PullRequest,
    bot_login: &str,
    trusted: bool,
    r: AutoReviewEligibility,
)
    requires
        call_ensures(classify_auto_review_eligibility, (pr, bot_login, trusted), r),
    ensures
        r == AutoReviewEligibility::SelfAuthored <==> text::lowered(pr.author@) == text::lowered(
            bot_login@,
        ),
        r == AutoReviewEligibility::Trusted <==> trusted && text::lowered(pr.author@)
            != text::lowered(bot_login@),
        r == AutoReviewEligibility::Untrusted <==> !trusted && text::lowered(pr.author@)
            != text::lowered(bot_login@),
{
}

} // verus!
