//! What to do about the comments of a mention thread.
use crate::domain::{CodexTask, CodexTaskOrigin, CommentMention, MentionRequest, ReviewState};
use crate::handled_marker::PendingHandledMarker;
use crate::{domain, text};
use vstd::prelude::*;

verus! {

#[derive(Clone, Copy, Debug, Eq, PartialEq)]
pub enum MentionThreadRead {
    LatestOnly,
    RecentComments,
}

/// Only a handled request by someone else makes the older comments settled;
/// otherwise the recent comments are read too.
pub fn choose_mention_thread_read(
    latest: &CommentMention,
    request: Option<&MentionRequest>,
    state: Option<ReviewState>,
    bot_login: &str,
) -> (r: MentionThreadRead)
    ensures
        r == (if text::lowered(latest.author@) != text::lowered(bot_login@) && request is Some
            && state == Some(ReviewState::Handled) {
            MentionThreadRead::LatestOnly
        } else {
            MentionThreadRead::RecentComments
        }),
{
    if text::same_ignoring_case(latest.author.as_str(), bot_login) {
        return MentionThreadRead::RecentComments;
    }
    match (request, state) {
        (Some(_), Some(ReviewState::Handled)) => MentionThreadRead::LatestOnly,
        _ => MentionThreadRead::RecentComments,
    }
}

#[derive(Debug, Eq, PartialEq)]
pub struct MentionThread {
    pub observations: Vec<MentionObservation>,
}

impl MentionThread {
    pub fn from_observations(observations: Vec<MentionObservation>) -> (r: MentionThread)
        ensures
            r.observations == observations,
    {
        MentionThread { observations }
    }
}

/// A request in a thread, whether GitHub shows it as handled, and whether a
/// handled mark is owed for it.
#[derive(Debug, Eq, PartialEq)]
pub struct MentionObservation {
    pub mention: CommentMention,
    pub request: MentionRequest,
    pub state: ReviewState,
    pub has_pending_marker: bool,
}

impl MentionObservation {
    pub fn new(
        mention: CommentMention,
        request: MentionRequest,
        state: ReviewState,
        has_pending_marker: bool,
    ) -> (r: MentionObservation)
        ensures
            r == (MentionObservation { mention, request, state, has_pending_marker }),
    {
        MentionObservation { mention, request, state, has_pending_marker }
    }

    pub open spec fn disposition_of(self) -> MentionDisposition {
        if self.state == ReviewState::Handled {
            MentionDisposition::AlreadyHandled
        } else if self.has_pending_marker {
            MentionDisposition::PendingHandledMarker
        } else {
            MentionDisposition::PendingRequest
        }
    }

    pub fn disposition(&self) -> (r: MentionDisposition)
        ensures
            r == self.disposition_of(),
    {
        match (self.state, self.has_pending_marker) {
            (ReviewState::Handled, _) => MentionDisposition::AlreadyHandled,
            (ReviewState::Pending, true) => MentionDisposition::PendingHandledMarker,
            (ReviewState::Pending, false) => MentionDisposition::PendingRequest,
        }
    }
}

#[derive(Clone, Copy, Debug, Eq, PartialEq)]
pub enum MentionDisposition {
    AlreadyHandled,
    PendingHandledMarker,
    PendingRequest,
}

#[derive(Debug, Eq, PartialEq)]
pub struct MentionThreadPlan {
    pub actions: Vec<MentionThreadAction>,
    pub notification: MentionNotificationPlan,
}

#[derive(Clone, Copy, Debug, Eq, PartialEq)]
pub enum MentionNotificationPlan {
    MarkRead,
    LeaveUnread,
}

#[derive(Debug, Eq, PartialEq)]
pub enum MentionThreadAction {
    StartTask { mention: CommentMention, task: CodexTask },
    MarkHandled { mention: CommentMention, marker: PendingHandledMarker },
    ForgetHandledMarker { mention: CommentMention, marker: PendingHandledMarker },
}

/// The origin of the task that a comment asks for: the operator's, where the
/// cleaned text has an operator request, else a mention's.
pub open spec fn origin_of(
    mention: CommentMention,
    raw_body: Seq<char>,
    cleaned_text: Seq<char>,
    bot_login: Seq<char>,
) -> domain::OriginView {
    match domain::operator_request_in(cleaned_text) {
        Some(request_text) => domain::OriginView::OperatorMention {
            mention_url: mention.html_url@,
            raw_body,
            request_text,
            trigger_author: mention.author@,
            bot_login,
        },
        None => domain::OriginView::Mention {
            mention_url: mention.html_url@,
            raw_body,
            cleaned_text,
        },
    }
}

pub fn mention_task_origin(
    mention: &CommentMention,
    request: MentionRequest,
    bot_login: &str,
) -> (r: CodexTaskOrigin)
    ensures
        r@ == origin_of(*mention, request.raw_body@, request.cleaned_text@, bot_login@),
{
    match request.operator_text() {
        Some(operator_text) => CodexTaskOrigin::OperatorMention {
            mention_url: mention.html_url.clone(),
            raw_body: request.raw_body,
            request_text: operator_text,
            trigger_author: mention.author.clone(),
            bot_login: bot_login.to_owned(),
        },
        None => CodexTaskOrigin::Mention {
            mention_url: mention.html_url.clone(),
            raw_body: request.raw_body,
            cleaned_text: request.cleaned_text,
        },
    }
}

/// Whether `action` is what is due for an observation: a settled request has
/// its marker forgotten, one that owes only the mark gets the mark, and an open
/// one gets a task.
pub open spec fn is_due(
    action: MentionThreadAction,
    observation: MentionObservation,
    bot_login: Seq<char>,
) -> bool {
    match observation.disposition_of() {
        MentionDisposition::AlreadyHandled => action == (
        MentionThreadAction::ForgetHandledMarker {
            mention: observation.mention,
            marker: PendingHandledMarker::of_mention(observation.mention),
        }),
        MentionDisposition::PendingHandledMarker => action == (MentionThreadAction::MarkHandled {
            mention: observation.mention,
            marker: PendingHandledMarker::of_mention(observation.mention),
        }),
        MentionDisposition::PendingRequest => match action {
            MentionThreadAction::StartTask { mention, task } => {
                &&& mention == observation.mention
                &&& task@ == (domain::TaskView {
                    pr_url: mention.target.html_url_string()@,
                    origin: origin_of(
                        mention,
                        observation.request.raw_body@,
                        observation.request.cleaned_text@,
                        bot_login,
                    ),
                })
            },
            _ => false,
        },
    }
}

fn mention_action_for(observation: &MentionObservation, bot_login: &str) -> (r:
    MentionThreadAction)
    ensures
        is_due(r, *observation, bot_login@),
{
    let mention = observation.mention.clone();
    match observation.disposition() {
        MentionDisposition::AlreadyHandled => {
            let marker = PendingHandledMarker::for_mention(&mention);
            MentionThreadAction::ForgetHandledMarker { mention, marker }
        },
        MentionDisposition::PendingHandledMarker => {
            let marker = PendingHandledMarker::for_mention(&mention);
            MentionThreadAction::MarkHandled { mention, marker }
        },
        MentionDisposition::PendingRequest => {
            let task = CodexTask {
                pr_url: mention.target.html_url().to_owned(),
                origin: mention_task_origin(&mention, observation.request.clone(), bot_login),
            };
            MentionThreadAction::StartTask { mention, task }
        },
    }
}

/// One action for each observation, in order. The notification stays unread
/// exactly while a task is to be started.
pub fn plan_mention_thread(thread: MentionThread, bot_login: &str) -> (r: MentionThreadPlan)
    ensures
        r.actions@.len() == thread.observations@.len(),
        forall|i: int|
            0 <= i < r.actions@.len() ==> is_due(
                #[trigger] r.actions@[i],
                thread.observations@[i],
                bot_login@,
            ),
        r.notification == (if exists|i: int|
            0 <= i < thread.observations@.len() && (
            #[trigger] thread.observations@[i]).disposition_of()
                == MentionDisposition::PendingRequest {
            MentionNotificationPlan::LeaveUnread
        } else {
            MentionNotificationPlan::MarkRead
        }),
{
    let observations = thread.observations;
    let mut actions: Vec<MentionThreadAction> = Vec::new();
    let mut starts: bool = false;
    let mut i: usize = 0;
    while i < observations.len()
        invariant
            i <= observations@.len(),
            actions@.len() == i,
            forall|k: int|
                0 <= k < i ==> is_due(#[trigger] actions@[k], observations@[k], bot_login@),
            starts == exists|k: int|
                0 <= k < i && (#[trigger] observations@[k]).disposition_of()
                    == MentionDisposition::PendingRequest,
        decreases observations@.len() - i,
    {
        let action = mention_action_for(&observations[i], bot_login);
        if let MentionThreadAction::StartTask { .. } = &action {
            assert(observations@[i as int].disposition_of()
                == MentionDisposition::PendingRequest);
            starts = true;
        }
        actions.push(action);
        i = i + 1;
    }
    let notification = if starts {
        MentionNotificationPlan::LeaveUnread
    } else {
        MentionNotificationPlan::MarkRead
    };
    MentionThreadPlan { actions, notification }
}

/// A request whose handled mark is owed is never started again, and neither is
/// one that is already handled.
pub proof fn law_settled_mentions_start_no_task(
    action: MentionThreadAction,
    observation: MentionObservation,
    bot_login: Seq<char>,
)
    requires
        is_due(action, observation, bot_login),
        observation.has_pending_marker || observation.state == ReviewState::Handled,
    ensures
        !(action is StartTask),
{
}

/// What is due for a request goes by what GitHub shows and by the owed marks: a
/// handled one has its marker forgotten; an open one whose mark is owed gets the
/// mark; any other open one gets a task, about its own pull request or issue and
/// set off by its own comment.
pub proof fn law_what_is_due(
    action: MentionThreadAction,
    observation: MentionObservation,
    bot_login: Seq<char>,
)
    requires
        is_due(action, observation, bot_login),
    ensures
        observation.state == ReviewState::Handled <==> action is ForgetHandledMarker,
        observation.state == ReviewState::Pending && observation.has_pending_marker <==> action
            is MarkHandled,
        observation.state == ReviewState::Pending && !observation.has_pending_marker <==> action
            is StartTask,
        match action {
            MentionThreadAction::ForgetHandledMarker { mention, marker } => {
                &&& mention == observation.mention
                &&& marker == (PendingHandledMarker::Mention { api_url: mention.api_url })
            },
            MentionThreadAction::MarkHandled { mention, marker } => {
                &&& mention == observation.mention
                &&& marker == (PendingHandledMarker::Mention { api_url: mention.api_url })
            },
            MentionThreadAction::StartTask { mention, task } => {
                &&& mention == observation.mention
                &&& task@.pr_url == mention.target.html_url_string()@
                &&& task@.trigger() == mention.html_url@
                &&& task@.origin is OperatorMention <==> domain::operator_request_in(
                    observation.request.cleaned_text@,
                ) is Some
            },
        },
{
}

/// The origin of a task keeps the comment's address and text, and what it asks
/// for: of the operator, what stands behind `/operate`; else the cleaned text.
pub proof fn law_origins_keep_what_was_said(
    mention: CommentMention,
    raw_body: Seq<char>,
    cleaned_text: Seq<char>,
    bot_login: Seq<char>,
)
    ensures
        domain::operator_request_in(cleaned_text) is None ==> origin_of(
            mention,
            raw_body,
            cleaned_text,
            bot_login,
        ) == (domain::OriginView::Mention {
            mention_url: mention.html_url@,
            raw_body,
            cleaned_text,
        }),
        domain::operator_request_in(cleaned_text) matches Some(request_text) ==> origin_of(
            mention,
            raw_body,
            cleaned_text,
            bot_login,
        ) == (domain::OriginView::OperatorMention {
            mention_url: mention.html_url@,
            raw_body,
            request_text,
            trigger_author: mention.author@,
            bot_login,
        }),
{
}

/// The latest comment alone is enough only where somebody else asked for something in
/// it and that is handled; in all other cases the recent comments are read.
pub proof fn law_when_the_latest_comment_is_enough(
    latest: &CommentMention,
    request: Option<&MentionRequest>,
    state: Option<ReviewState>,
    bot_login: &str,
    r: MentionThreadRead,
)
    requires
        call_ensures(choose_mention_thread_read, (latest, request, state, bot_login), r),
    ensures
        r == MentionThreadRead::LatestOnly || r == MentionThreadRead::RecentComments,
        text::lowered(latest.author@) == text::lowered(bot_login@) ==> r
            == MentionThreadRead::RecentComments,
        request is None ==> r == MentionThreadRead::RecentComments,
        state is None || state == Some(ReviewState::Pending) ==> r
            == MentionThreadRead::RecentComments,
        text::lowered(latest.author@) != text::lowered(bot_login@) && request is Some && state
            == Some(ReviewState::Handled) ==> r == MentionThreadRead::LatestOnly,
{
}

/// A plan has one action for each observation, in their order, and leaves the
/// notification unread exactly where one of them starts a task.
pub proof fn law_plans_follow_their_thread(
    thread: MentionThread,
    bot_login: &str,
    r: MentionThreadPlan,
    i: int,
)
    requires
        call_ensures(plan_mention_thread, (thread, bot_login), r),
        0 <= i < thread.observations@.len(),
    ensures
        r.actions@.len() == thread.observations@.len(),
        ({
            let seen = thread.observations@[i];
            let pending = seen.state == ReviewState::Pending;
            &&& !pending ==> r.actions@[i] is ForgetHandledMarker
            &&& pending && seen.has_pending_marker ==> r.actions@[i] is MarkHandled
            &&& pending && !seen.has_pending_marker ==> r.actions@[i] is StartTask
        }),
        r.actions@[i] is StartTask ==> r.notification == MentionNotificationPlan::LeaveUnread,
        (forall|k: int| 0 <= k < r.actions@.len() ==> !(#[trigger] r.actions@[k] is StartTask))
            ==> r.notification == MentionNotificationPlan::MarkRead,
{
    assert(is_due(r.actions@[i], thread.observations@[i], bot_login@));
    if forall|k: int| 0 <= k < r.actions@.len() ==> !(#[trigger] r.actions@[k] is StartTask) {
        assert forall|k: int| 0 <= k < thread.observations@.len() implies (
        #[trigger] thread.observations@[k]).disposition_of()
            != MentionDisposition::PendingRequest by {
            assert(is_due(r.actions@[k], thread.observations@[k], bot_login@));
            assert(!(r.actions@[k] is StartTask));
        }
    }
    if r.actions@[i] is StartTask {
        assert(thread.observations@[i].disposition_of() == MentionDisposition::PendingRequest);
    }
}

} // verus!
