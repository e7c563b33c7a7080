//! The outside work that the bot asks for, and the replies to it.
use crate::domain::{CodexTask, CommentMention, Notification, PullRequest, ReviewState, WorkTarget};
use crate::handled_marker::PendingHandledMarker;
use crate::maid::{CodexRun, PreparedWorktree};
use crate::task_limit::TaskStartDecision;
use vstd::prelude::*;

verus! {

/// One piece of outside work.
#[derive(Debug, Eq, PartialEq)]
pub enum Action {
    /// There is nothing left to do.
    Nothing,
    PendingMarkers,
    HasMarker { marker: PendingHandledMarker },
    RecordMarker { marker: PendingHandledMarker },
    RemoveMarker { marker: PendingHandledMarker },
    RecordTaskStart,
    LatestMention { notification: Notification },
    RecentMentions { notification: Notification },
    MentionState { mention: CommentMention },
    MarkMentionStarted { mention: CommentMention },
    MarkMentionHandled { mention: CommentMention },
    MarkMentionApiUrlHandled { api_url: String },
    MarkNotificationHandled { notification: Notification },
    PullRequestState { pr: PullRequest },
    MarkPullRequestStarted { pr: PullRequest },
    MarkPullRequestHandled { pr: PullRequest },
    MarkPullRequestHtmlUrlHandled { html_url: String },
    PrepareWorktree { target: WorkTarget, task: CodexTask },
    RunCodex { worktree: PreparedWorktree, task: CodexTask },
    /// Publish an answer; `comment::comment_request` gives the request.
    PostComment { target: WorkTarget, body: String },
    CleanUp { worktree: PreparedWorktree },
}

/// What came of a piece of outside work; `E` says why it failed.
#[derive(Debug, Eq, PartialEq)]
pub enum Reply<E> {
    Failed(E),
    Done,
    Markers(Vec<PendingHandledMarker>),
    Found(bool),
    Start(TaskStartDecision),
    Latest(Option<CommentMention>),
    Recent(Vec<CommentMention>),
    State(ReviewState),
    Worktree(PreparedWorktree),
    Run(CodexRun),
}

/// Whether a reply is one to what was asked for. All but the requests that bring
/// something are answered by their being done, and any may fail.
pub open spec fn answers<E>(action: Action, reply: Reply<E>) -> bool {
    match action {
        Action::Nothing => false,
        Action::PendingMarkers => reply is Markers || reply is Failed,
        Action::HasMarker { .. } => reply is Found || reply is Failed,
        Action::RecordTaskStart => reply is Start || reply is Failed,
        Action::LatestMention { .. } => reply is Latest || reply is Failed,
        Action::RecentMentions { .. } => reply is Recent || reply is Failed,
        Action::MentionState { .. } => reply is State || reply is Failed,
        Action::PullRequestState { .. } => reply is State || reply is Failed,
        Action::PrepareWorktree { .. } => reply is Worktree || reply is Failed,
        Action::RunCodex { .. } => reply is Run || reply is Failed,
        _ => reply is Done || reply is Failed,
    }
}

} // verus!
