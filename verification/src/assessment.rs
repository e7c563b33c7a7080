//! What a notification or an open pull request calls for.
//!
//! Both are machines: `action` says what outside work is due, and `on_reply`
//! takes what came of it. A reply that does not answer the pending action leaves
//! the machine as it is.
use crate::domain::{CommentMention, Notification, PullRequest, ReviewState};
use crate::effect::{Action, Reply};
use crate::handled_marker::PendingHandledMarker;
use crate::maid::{Maid, ReviewScope, TaskAssessment};
use crate::maid;
use vstd::prelude::*;

verus! {

// ---------------------------------------------------------------------------
// Notifications
// ---------------------------------------------------------------------------
#[derive(Debug, Eq, PartialEq)]
pub enum ScanStage<E> {
    /// The notification is not about a mention: it is marked as read.
    MarkIrrelevant,
    ReadLatest,
    LatestState { latest: CommentMention },
    ReadRecent { latest: CommentMention },
    /// The requests are looked at one by one.
    MentionState,
    HasMarker,
    MarkHandled,
    RemoveMarker,
    /// Nothing is to be started: the notification is marked as read.
    MarkRead,
    Ended(Result<(), E>),
}

/// The assessment of one notification.
#[derive(Debug, Eq, PartialEq)]
pub struct NotificationScan<'a, E> {
    maid: &'a Maid,
    notification: Notification,
    mentions: Vec<CommentMention>,
    at: usize,
    assessments: Vec<TaskAssessment>,
    stage: ScanStage<E>,
}

/// A scan with its lists taken as sequences.
#[verifier::ext_equal]
pub struct ScanView<E> {
    pub maid: Maid,
    pub notification: Notification,
    /// The comments to look at.
    pub mentions: Seq<CommentMention>,
    /// The comment that is being looked at.
    pub at: int,
    pub assessments: Seq<maid::AssessmentView>,
    pub stage: ScanStage<E>,
}

pub open spec fn assessment_views(list: Seq<TaskAssessment>) -> Seq<maid::AssessmentView> {
    list.map_values(|assessment: TaskAssessment| assessment@)
}

impl<'a, E> View for NotificationScan<'a, E> {
    type V = ScanView<E>;

    closed spec fn view(&self) -> ScanView<E> {
        ScanView {
            maid: *self.maid,
            notification: self.notification,
            mentions: self.mentions@,
            at: self.at as int,
            assessments: assessment_views(self.assessments@),
            stage: self.stage,
        }
    }
}

/// The first comment from `at` on that asks for work, or the number of comments
/// where there is none.
pub open spec fn next_request(maid: Maid, mentions: Seq<CommentMention>, at: int) -> int
    decreases mentions.len() - at,
{
    if at < 0 || at >= mentions.len() {
        mentions.len() as int
    } else if maid.is_request(mentions[at]) {
        at
    } else {
        next_request(maid, mentions, at + 1)
    }
}

pub open spec fn all_skipped(assessments: Seq<maid::AssessmentView>) -> bool {
    forall|i: int| 0 <= i < assessments.len() ==> #[trigger] assessments[i] is Skipped
}

impl<E> ScanView<E> {
    /// The scan of a notification at its beginning.
    pub open spec fn initial(maid: Maid, notification: Notification) -> ScanView<E> {
        ScanView {
            maid,
            notification,
            mentions: Seq::empty(),
            at: 0,
            assessments: Seq::empty(),
            stage: if notification.mention_candidate() {
                ScanStage::ReadLatest
            } else {
                ScanStage::MarkIrrelevant
            },
        }
    }

    /// Goes on to the next request. After the last one the notification is marked
    /// as read, unless there is a task to start.
    pub open spec fn advanced(self) -> ScanView<E> {
        let at = next_request(self.maid, self.mentions, self.at);
        ScanView {
            at,
            stage: if at < self.mentions.len() {
                ScanStage::MentionState
            } else if all_skipped(self.assessments) {
                ScanStage::MarkRead
            } else {
                ScanStage::Ended(Ok(()))
            },
            ..self
        }
    }

    /// Begins to look at `mentions`.
    pub open spec fn looking_at(self, mentions: Seq<CommentMention>) -> ScanView<E> {
        ScanView { mentions, at: 0, ..self }.advanced()
    }

    /// Assesses the present comment and goes on.
    pub open spec fn assessed(self, assessment: maid::AssessmentView) -> ScanView<E> {
        ScanView {
            at: self.at + 1,
            assessments: self.assessments.push(assessment),
            ..self
        }.advanced()
    }

    /// Ends well, with at least one assessment.
    pub open spec fn closed_up(self) -> ScanView<E> {
        ScanView {
            assessments: if self.assessments.len() == 0 {
                seq![maid::AssessmentView::Skipped]
            } else {
                self.assessments
            },
            stage: ScanStage::Ended(Ok(())),
            ..self
        }
    }

    pub open spec fn pending(self) -> Action {
        let mention = self.mentions[self.at];
        match self.stage {
            ScanStage::MarkIrrelevant | ScanStage::MarkRead => Action::MarkNotificationHandled {
                notification: self.notification,
            },
            ScanStage::ReadLatest => Action::LatestMention { notification: self.notification },
            ScanStage::LatestState { latest } => Action::MentionState { mention: latest },
            ScanStage::ReadRecent { .. } => {
                Action::RecentMentions { notification: self.notification }
            },
            ScanStage::MentionState => Action::MentionState { mention },
            ScanStage::HasMarker => {
                Action::HasMarker { marker: PendingHandledMarker::of_mention(mention) }
            },
            ScanStage::MarkHandled => Action::MarkMentionHandled { mention },
            ScanStage::RemoveMarker => {
                Action::RemoveMarker { marker: PendingHandledMarker::of_mention(mention) }
            },
            ScanStage::Ended(_) => Action::Nothing,
        }
    }

    /// The recent comments are read where the latest one is the bot's own, or is
    /// a request that is still open; else the latest comment alone counts. A
    /// handled request has its marker forgotten; one whose mark is owed gets the
    /// mark; an open one becomes a task.
    pub open spec fn after(self, reply: Reply<E>) -> ScanView<E> {
        match (self.stage, reply) {
            (ScanStage::Ended(_), _) => self,
            (_, Reply::Failed(error)) => ScanView { stage: ScanStage::Ended(Err(error)), ..self },
            (ScanStage::MarkIrrelevant, Reply::Done) => self.closed_up(),
            (ScanStage::MarkRead, Reply::Done) => self.closed_up(),
            (ScanStage::ReadLatest, Reply::Latest(None)) => self.looking_at(Seq::empty()),
            (ScanStage::ReadLatest, Reply::Latest(Some(latest))) => {
                if self.maid.is_bot(latest.author@) {
                    ScanView { stage: ScanStage::ReadRecent { latest }, ..self }
                } else if self.maid.is_request(latest) {
                    ScanView { stage: ScanStage::LatestState { latest }, ..self }
                } else {
                    self.looking_at(seq![latest])
                }
            },
            (ScanStage::LatestState { latest }, Reply::State(state)) => match state {
                ReviewState::Pending => {
                    ScanView { stage: ScanStage::ReadRecent { latest }, ..self }
                },
                ReviewState::Handled => self.looking_at(seq![latest]),
            },
            (ScanStage::ReadRecent { latest }, Reply::Recent(recent)) => {
                if recent@.len() == 0 {
                    self.looking_at(seq![latest])
                } else {
                    self.looking_at(recent@)
                }
            },
            (ScanStage::MentionState, Reply::State(state)) => match state {
                ReviewState::Pending => ScanView { stage: ScanStage::HasMarker, ..self },
                ReviewState::Handled => ScanView { stage: ScanStage::RemoveMarker, ..self },
            },
            (ScanStage::HasMarker, Reply::Found(found)) => {
                if found {
                    ScanView { stage: ScanStage::MarkHandled, ..self }
                } else {
                    self.assessed(
                        maid::AssessmentView::Ready(
                            self.maid.mention_intent(self.notification, self.mentions[self.at]),
                        ),
                    )
                }
            },
            (ScanStage::MarkHandled, Reply::Done) => {
                ScanView { stage: ScanStage::RemoveMarker, ..self }
            },
            (ScanStage::RemoveMarker, Reply::Done) => {
                self.assessed(maid::AssessmentView::Skipped)
            },
            _ => self,
        }
    }
}

impl<'a, E> NotificationScan<'a, E> {
    #[verifier::type_invariant]
    spec fn well_formed(self) -> bool {
        self.stage is MentionState || self.stage is HasMarker || self.stage is MarkHandled
            || self.stage is RemoveMarker ==> self.at < self.mentions@.len()
            && self.maid.is_request(self.mentions@[self.at as int])
    }

    pub fn new(maid: &'a Maid, notification: Notification) -> (r: NotificationScan<'a, E>)
        ensures
            r@ == ScanView::<E>::initial(*maid, notification),
    {
        let stage = if notification.is_mention_candidate() {
            ScanStage::ReadLatest
        } else {
            ScanStage::MarkIrrelevant
        };
        let r = NotificationScan {
            maid,
            notification,
            mentions: Vec::new(),
            at: 0,
            assessments: Vec::new(),
            stage,
        };
        assert(r@ =~= ScanView::<E>::initial(*maid, notification));
        r
    }

    pub fn action(&self) -> (r: Action)
        ensures
            r == self@.pending(),
    {
        proof {
            use_type_invariant(self);
        }
        match &self.stage {
            ScanStage::MarkIrrelevant => {
                Action::MarkNotificationHandled { notification: self.notification.clone() }
            },
            ScanStage::MarkRead => {
                Action::MarkNotificationHandled { notification: self.notification.clone() }
            },
            ScanStage::ReadLatest => {
                Action::LatestMention { notification: self.notification.clone() }
            },
            ScanStage::LatestState { latest } => Action::MentionState { mention: latest.clone() },
            ScanStage::ReadRecent { .. } => {
                Action::RecentMentions { notification: self.notification.clone() }
            },
            ScanStage::MentionState => {
                Action::MentionState { mention: self.mentions[self.at].clone() }
            },
            ScanStage::HasMarker => Action::HasMarker {
                marker: PendingHandledMarker::for_mention(&self.mentions[self.at]),
            },
            ScanStage::MarkHandled => {
                Action::MarkMentionHandled { mention: self.mentions[self.at].clone() }
            },
            ScanStage::RemoveMarker => Action::RemoveMarker {
                marker: PendingHandledMarker::for_mention(&self.mentions[self.at]),
            },
            ScanStage::Ended(_) => Action::Nothing,
        }
    }

    fn none_ready(assessments: &Vec<TaskAssessment>) -> (r: bool)
        ensures
            r == all_skipped(assessment_views(assessments@)),
    {
        let ghost views = assessment_views(assessments@);
        let mut i: usize = 0;
        while i < assessments.len()
            invariant
                views == assessment_views(assessments@),
                i <= assessments@.len(),
                forall|k: int| 0 <= k < i ==> #[trigger] views[k] is Skipped,
            decreases assessments@.len() - i,
        {
            assert(views[i as int] == assessments@[i as int]@);
            if !assessments[i].is_skipped() {
                return false;
            }
            i = i + 1;
        }
        true
    }

    /// Goes on to the next request from `at` on.
    fn advance(
        maid: &'a Maid,
        notification: Notification,
        mentions: Vec<CommentMention>,
        at: usize,
        assessments: Vec<TaskAssessment>,
    ) -> (r: NotificationScan<'a, E>)
        requires
            at <= mentions@.len(),
        ensures
            forall|stage: ScanStage<E>|
                r@ == #[trigger] (ScanView {
                    maid: *maid,
                    notification,
                    mentions: mentions@,
                    at: at as int,
                    assessments: assessment_views(assessments@),
                    stage,
                }).advanced(),
    {
        let mut next: usize = at;
        while next < mentions.len() && !maid.requests_work(&mentions[next])
            invariant
                at <= next <= mentions@.len(),
                next_request(*maid, mentions@, at as int) == next_request(
                    *maid,
                    mentions@,
                    next as int,
                ),
            decreases mentions@.len() - next,
        {
            next = next + 1;
        }
        let stage = if next < mentions.len() {
            ScanStage::MentionState
        } else if NotificationScan::<E>::none_ready(&assessments) {
            ScanStage::MarkRead
        } else {
            ScanStage::Ended(Ok(()))
        };
        NotificationScan { maid, notification, mentions, at: next, assessments, stage }
    }

    fn close_up(self) -> (r: NotificationScan<'a, E>)
        ensures
            r@ == self@.closed_up(),
    {
        let mut assessments = self.assessments;
        if assessments.len() == 0 {
            assessments.push(TaskAssessment::Skipped);
            assert(assessment_views(assessments@) =~= seq![maid::AssessmentView::Skipped]);
        }
        NotificationScan {
            maid: self.maid,
            notification: self.notification,
            mentions: self.mentions,
            at: self.at,
            assessments,
            stage: ScanStage::Ended(Ok(())),
        }
    }

    fn assess(self, assessment: TaskAssessment) -> (r: NotificationScan<'a, E>)
        requires
            self.at < self.mentions@.len(),
        ensures
            r@ == self@.assessed(assessment@),
    {
        let mut assessments = self.assessments;
        let ghost before = assessments@;
        assessments.push(assessment);
        assert(assessment_views(assessments@) =~= assessment_views(before).push(assessment@));
        assert(self.at < self.mentions.len());
        let next: usize = self.at + 1;
        NotificationScan::advance(self.maid, self.notification, self.mentions, next, assessments)
    }

    fn look_at(self, mentions: Vec<CommentMention>) -> (r: NotificationScan<'a, E>)
        ensures
            r@ == self@.looking_at(mentions@),
    {
        NotificationScan::advance(self.maid, self.notification, mentions, 0, self.assessments)
    }

    fn look_at_one(self, mention: CommentMention) -> (r: NotificationScan<'a, E>)
        ensures
            r@ == self@.looking_at(seq![mention]),
    {
        let mut mentions: Vec<CommentMention> = Vec::new();
        mentions.push(mention);
        assert(mentions@ =~= seq![mention]);
        self.look_at(mentions)
    }

    fn at_stage(self, stage: ScanStage<E>) -> (r: NotificationScan<'a, E>)
        requires
            stage is MentionState || stage is HasMarker || stage is MarkHandled
                || stage is RemoveMarker ==> self.at < self.mentions@.len()
                && self.maid.is_request(self.mentions@[self.at as int]),
        ensures
            r@ == (ScanView { stage, ..self@ }),
    {
        NotificationScan {
            maid: self.maid,
            notification: self.notification,
            mentions: self.mentions,
            at: self.at,
            assessments: self.assessments,
            stage,
        }
    }

    pub fn on_reply(self, reply: Reply<E>) -> (r: NotificationScan<'a, E>)
        ensures
            r@ == self@.after(reply),
    {
        proof {
            use_type_invariant(&self);
        }
        match (&self.stage, reply) {
            (ScanStage::Ended(_), _) => self,
            (_, Reply::Failed(error)) => self.at_stage(ScanStage::Ended(Err(error))),
            (ScanStage::MarkIrrelevant, Reply::Done) => self.close_up(),
            (ScanStage::MarkRead, Reply::Done) => self.close_up(),
            (ScanStage::ReadLatest, Reply::Latest(None)) => self.look_at(Vec::new()),
            (ScanStage::ReadLatest, Reply::Latest(Some(latest))) => {
                if self.maid.written_by_bot(latest.author.as_str()) {
                    self.at_stage(ScanStage::ReadRecent { latest })
                } else if self.maid.requests_work(&latest) {
                    self.at_stage(ScanStage::LatestState { latest })
                } else {
                    self.look_at_one(latest)
                }
            },
            (ScanStage::LatestState { latest }, Reply::State(state)) => {
                let latest = latest.clone();
                match state {
                    ReviewState::Pending => self.at_stage(ScanStage::ReadRecent { latest }),
                    ReviewState::Handled => self.look_at_one(latest),
                }
            },
            (ScanStage::ReadRecent { latest }, Reply::Recent(recent)) => {
                let latest = latest.clone();
                if recent.len() == 0 {
                    self.look_at_one(latest)
                } else {
                    self.look_at(recent)
                }
            },
            (ScanStage::MentionState, Reply::State(state)) => match state {
                ReviewState::Pending => self.at_stage(ScanStage::HasMarker),
                ReviewState::Handled => self.at_stage(ScanStage::RemoveMarker),
            },
            (ScanStage::HasMarker, Reply::Found(found)) => {
                if found {
                    self.at_stage(ScanStage::MarkHandled)
                } else {
                    let assessment = match self.maid.intent_for_mention(
                        &self.notification,
                        &self.mentions[self.at],
                    ) {
                        Some(intent) => TaskAssessment::Ready(Box::new(intent)),
                        None => TaskAssessment::Skipped,
                    };
                    self.assess(assessment)
                }
            },
            (ScanStage::MarkHandled, Reply::Done) => self.at_stage(ScanStage::RemoveMarker),
            (ScanStage::RemoveMarker, Reply::Done) => self.assess(TaskAssessment::Skipped),
            _ => self,
        }
    }

    /// The assessments of a scan that has ended.
    pub fn into_result(self) -> (r: Option<Result<Vec<TaskAssessment>, E>>)
        ensures
            match self@.stage {
                ScanStage::Ended(Ok(())) => {
                    &&& r matches Some(Ok(list))
                    &&& assessment_views(list@) == self@.assessments
                },
                ScanStage::Ended(Err(error)) => r == Some(Err::<Vec<TaskAssessment>, E>(error)),
                _ => r is None,
            },
    {
        match self.stage {
            ScanStage::Ended(Ok(())) => Some(Ok(self.assessments)),
            ScanStage::Ended(Err(error)) => Some(Err(error)),
            _ => None,
        }
    }
}

// ---------------------------------------------------------------------------
// What holds of every scan
// ---------------------------------------------------------------------------
/// A scan that has come through `replies`.
pub open spec fn scan_over<E>(
    maid: Maid,
    notification: Notification,
    replies: Seq<Reply<E>>,
) -> ScanView<E>
    decreases replies.len(),
{
    if replies.len() == 0 {
        ScanView::initial(maid, notification)
    } else {
        scan_over(maid, notification, replies.drop_last()).after(replies.last())
    }
}

/// A task that answers a comment: the comment asks for work, and the task is the
/// one it asks for.
pub open spec fn answers_a_request(
    maid: Maid,
    notification: Notification,
    assessment: maid::AssessmentView,
) -> bool {
    match assessment {
        maid::AssessmentView::Skipped => true,
        maid::AssessmentView::Ready(intent) => match intent {
            maid::IntentView::Mention { notification: n, mention, task } => {
                &&& n == notification
                &&& maid.is_request(mention)
                &&& task == maid.mention_task(mention)
            },
            maid::IntentView::AutoReviewPullRequest { .. } => false,
        },
    }
}

proof fn lemma_next_request(maid: Maid, mentions: Seq<CommentMention>, at: int)
    requires
        0 <= at,
    ensures
        ({
            let next = next_request(maid, mentions, at);
            &&& next <= mentions.len()
            &&& next < mentions.len() ==> at <= next && maid.is_request(mentions[next])
        }),
    decreases mentions.len() - at,
{
    if at < mentions.len() && !maid.is_request(mentions[at]) {
        lemma_next_request(maid, mentions, at + 1);
    }
}

spec fn sound<E>(scan: ScanView<E>) -> bool {
    &&& scan.at >= 0
    &&& forall|i: int|
        0 <= i < scan.assessments.len() ==> answers_a_request(
            scan.maid,
            scan.notification,
            #[trigger] scan.assessments[i],
        )
    &&& scan.stage is MentionState || scan.stage is HasMarker || scan.stage is MarkHandled
        || scan.stage is RemoveMarker ==> scan.at < scan.mentions.len() && scan.maid.is_request(
        scan.mentions[scan.at],
    )
    &&& scan.stage is MarkRead ==> all_skipped(scan.assessments)
    &&& scan.stage is MarkIrrelevant ==> !scan.notification.mention_candidate()
        && scan.assessments.len() == 0
    &&& scan.stage is LatestState ==> scan.maid.is_request(scan.stage->LatestState_latest)
    &&& scan.stage is ReadLatest || scan.stage is LatestState || scan.stage is ReadRecent
        ==> scan.assessments.len() == 0
}

proof fn lemma_sound<E>(maid: Maid, notification: Notification, replies: Seq<Reply<E>>)
    ensures
        sound(scan_over(maid, notification, replies)),
        scan_over(maid, notification, replies).maid == maid,
        scan_over(maid, notification, replies).notification == notification,
    decreases replies.len(),
{
    if replies.len() > 0 {
        let earlier = replies.drop_last();
        lemma_sound(maid, notification, earlier);
        let scan = scan_over(maid, notification, earlier);
        lemma_next_request(maid, scan.mentions, scan.at + 1);
        assert forall|mentions: Seq<CommentMention>| sound(
            #[trigger] scan.looking_at(mentions),
        ) by {
            lemma_next_request(maid, mentions, 0);
        }
    }
}

/// Whatever the replies: every task that comes of a notification answers a
/// comment by an account that may ask for work, other than the bot, that
/// mentions the bot; and it is the task that this comment asks for.
pub proof fn law_tasks_come_from_trusted_requests<E>(
    maid: Maid,
    notification: Notification,
    replies: Seq<Reply<E>>,
)
    ensures
        forall|i: int|
            #![auto]
            0 <= i < scan_over(maid, notification, replies).assessments.len()
                ==> answers_a_request(
                maid,
                notification,
                scan_over(maid, notification, replies).assessments[i],
            ),
{
    lemma_sound(maid, notification, replies);
}

/// Whatever the replies: a notification is marked as read only where no task is
/// to be started for it; and a comment is marked as handled only where it asked
/// for work.
pub proof fn law_marks_spare_open_requests<E>(
    maid: Maid,
    notification: Notification,
    replies: Seq<Reply<E>>,
)
    ensures
        ({
            let scan = scan_over(maid, notification, replies);
            &&& scan.pending() is MarkNotificationHandled ==> all_skipped(scan.assessments)
            &&& scan.pending() matches Action::MarkMentionHandled { mention }
                ==> maid.is_request(mention)
        }),
{
    lemma_sound(maid, notification, replies);
}

/// A comment becomes a task only where GitHub shows its request as open, and no
/// handled mark is owed for it.
pub proof fn law_tasks_come_from_open_requests<E>(scan: ScanView<E>, reply: Reply<E>)
    ensures
        scan.after(reply).stage is HasMarker ==> scan.after(reply) == scan || (scan.stage
            is MentionState && reply == Reply::<E>::State(ReviewState::Pending)),
        scan.after(reply).assessments != scan.assessments && scan.after(
            reply,
        ).assessments.last() is Ready ==> scan.stage is HasMarker && reply == Reply::<E>::Found(
            false,
        ),
{
}

/// A request whose handled mark is owed gets the mark and starts no task.
pub proof fn law_owed_mark_is_set_without_a_task<E>(scan: ScanView<E>)
    requires
        scan.stage is HasMarker,
    ensures
        scan.after(Reply::Found(true)).pending() == (Action::MarkMentionHandled {
            mention: scan.mentions[scan.at],
        }),
        scan.after(Reply::Found(true)).after(Reply::Done).after(Reply::Done).assessments
            == scan.assessments.push(maid::AssessmentView::Skipped),
{
}

/// How many of the first `upto` comments ask for work.
pub open spec fn requests_before(maid: Maid, mentions: Seq<CommentMention>, upto: int) -> nat
    decreases upto,
{
    if upto <= 0 {
        0
    } else {
        requests_before(maid, mentions, upto - 1) + (if maid.is_request(mentions[upto - 1]) {
            1nat
        } else {
            0
        })
    }
}

proof fn lemma_requests_before(maid: Maid, mentions: Seq<CommentMention>, at: int)
    requires
        0 <= at <= mentions.len(),
    ensures
        requests_before(maid, mentions, next_request(maid, mentions, at)) == requests_before(
            maid,
            mentions,
            at,
        ),
    decreases mentions.len() - at,
{
    if at < mentions.len() && !maid.is_request(mentions[at]) {
        lemma_requests_before(maid, mentions, at + 1);
    }
}

spec fn counted<E>(scan: ScanView<E>) -> bool {
    let requests = requests_before(scan.maid, scan.mentions, scan.at);
    match scan.stage {
        ScanStage::MentionState | ScanStage::HasMarker | ScanStage::MarkHandled
        | ScanStage::RemoveMarker => scan.assessments.len() == requests,
        ScanStage::MarkRead => scan.assessments.len() == requests && scan.at
            == scan.mentions.len(),
        ScanStage::Ended(Ok(())) => {
            &&& scan.at == scan.mentions.len()
            &&& scan.assessments.len() == (if requests == 0 {
                1
            } else {
                requests
            })
        },
        ScanStage::Ended(Err(_)) => true,
        _ => scan.at == 0 && scan.mentions.len() == 0,
    }
}

proof fn lemma_counted<E>(maid: Maid, notification: Notification, replies: Seq<Reply<E>>)
    ensures
        counted(scan_over(maid, notification, replies)),
    decreases replies.len(),
{
    if replies.len() > 0 {
        let earlier = replies.drop_last();
        lemma_counted(maid, notification, earlier);
        lemma_sound(maid, notification, earlier);
        let scan = scan_over(maid, notification, earlier);
        if scan.at < scan.mentions.len() {
            lemma_requests_before(maid, scan.mentions, scan.at + 1);
            lemma_next_request(maid, scan.mentions, scan.at + 1);
        }
        assert forall|mentions: Seq<CommentMention>| scan.assessments.len() == 0 implies counted(
            #[trigger] scan.looking_at(mentions),
        ) by {
            lemma_requests_before(maid, mentions, 0);
            lemma_next_request(maid, mentions, 0);
        }
    }
}

/// Whatever the replies: a scan that ends well has one assessment for each of
/// the comments it looked at that ask for work, or a single one where none does.
pub proof fn law_every_request_is_assessed<E>(
    maid: Maid,
    notification: Notification,
    replies: Seq<Reply<E>>,
)
    ensures
        ({
            let scan = scan_over(maid, notification, replies);
            let requests = requests_before(maid, scan.mentions, scan.mentions.len() as int);
            scan.stage == ScanStage::<E>::Ended(Ok(())) ==> scan.assessments.len() == (if requests
                == 0 {
                1
            } else {
                requests
            })
        }),
{
    lemma_sound(maid, notification, replies);
    lemma_counted(maid, notification, replies);
}

// ---------------------------------------------------------------------------
// Pull requests
// ---------------------------------------------------------------------------
#[derive(Debug, Eq, PartialEq)]
pub enum PullRequestStage<E> {
    State,
    HasMarker,
    MarkHandled,
    RemoveMarker,
    Ended(Result<TaskAssessment, E>),
}

/// The assessment of one open pull request.
#[derive(Debug, Eq, PartialEq)]
pub struct PullRequestScan<E> {
    pub pr: PullRequest,
    pub stage: PullRequestStage<E>,
}

impl<E> PullRequestScan<E> {
    /// Only the pull requests of accounts that are reviewed unasked are looked at.
    pub open spec fn initial(
        maid: Maid,
        pr: PullRequest,
        scope: ReviewScope,
    ) -> PullRequestScan<E> {
        PullRequestScan {
            pr,
            stage: if maid.is_reviewed(pr, scope) {
                PullRequestStage::State
            } else {
                PullRequestStage::Ended(Ok(TaskAssessment::Skipped))
            },
        }
    }

    pub open spec fn pending(self) -> Action {
        match self.stage {
            PullRequestStage::State => Action::PullRequestState { pr: self.pr },
            PullRequestStage::HasMarker => {
                Action::HasMarker { marker: PendingHandledMarker::of_pull_request(self.pr) }
            },
            PullRequestStage::MarkHandled => Action::MarkPullRequestHandled { pr: self.pr },
            PullRequestStage::RemoveMarker => {
                Action::RemoveMarker { marker: PendingHandledMarker::of_pull_request(self.pr) }
            },
            PullRequestStage::Ended(_) => Action::Nothing,
        }
    }

    pub open spec fn after(self, reply: Reply<E>) -> PullRequestScan<E> {
        let stage = match (self.stage, reply) {
            (PullRequestStage::Ended(result), _) => PullRequestStage::Ended(result),
            (_, Reply::Failed(error)) => PullRequestStage::Ended(Err(error)),
            (PullRequestStage::State, Reply::State(state)) => match state {
                ReviewState::Pending => PullRequestStage::HasMarker,
                ReviewState::Handled => PullRequestStage::RemoveMarker,
            },
            (PullRequestStage::HasMarker, Reply::Found(found)) => {
                if found {
                    PullRequestStage::MarkHandled
                } else {
                    PullRequestStage::Ended(
                        Ok(TaskAssessment::Ready(Box::new(maid::pull_request_intent(self.pr)))),
                    )
                }
            },
            (PullRequestStage::MarkHandled, Reply::Done) => PullRequestStage::RemoveMarker,
            (PullRequestStage::RemoveMarker, Reply::Done) => {
                PullRequestStage::Ended(Ok(TaskAssessment::Skipped))
            },
            (stage, _) => stage,
        };
        PullRequestScan { pr: self.pr, stage }
    }

    pub fn new(maid: &Maid, pr: PullRequest, scope: ReviewScope) -> (r: PullRequestScan<E>)
        ensures
            r == PullRequestScan::<E>::initial(*maid, pr, scope),
    {
        let stage = if maid.reviews_author(&pr, scope) {
            PullRequestStage::State
        } else {
            PullRequestStage::Ended(Ok(TaskAssessment::Skipped))
        };
        PullRequestScan { pr, stage }
    }

    pub fn action(&self) -> (r: Action)
        ensures
            r == self.pending(),
    {
        match &self.stage {
            PullRequestStage::State => Action::PullRequestState { pr: self.pr.clone() },
            PullRequestStage::HasMarker => {
                Action::HasMarker { marker: PendingHandledMarker::for_pull_request(&self.pr) }
            },
            PullRequestStage::MarkHandled => {
                Action::MarkPullRequestHandled { pr: self.pr.clone() }
            },
            PullRequestStage::RemoveMarker => {
                Action::RemoveMarker { marker: PendingHandledMarker::for_pull_request(&self.pr) }
            },
            PullRequestStage::Ended(_) => Action::Nothing,
        }
    }

    pub fn on_reply(self, reply: Reply<E>) -> (r: PullRequestScan<E>)
        ensures
            r == self.after(reply),
    {
        let stage = match (self.stage, reply) {
            (PullRequestStage::Ended(result), _) => PullRequestStage::Ended(result),
            (_, Reply::Failed(error)) => PullRequestStage::Ended(Err(error)),
            (PullRequestStage::State, Reply::State(state)) => match state {
                ReviewState::Pending => PullRequestStage::HasMarker,
                ReviewState::Handled => PullRequestStage::RemoveMarker,
            },
            (PullRequestStage::HasMarker, Reply::Found(found)) => {
                if found {
                    PullRequestStage::MarkHandled
                } else {
                    PullRequestStage::Ended(
                        Ok(
                            TaskAssessment::Ready(
                                Box::new(maid::intent_for_pull_request(&self.pr)),
                            ),
                        ),
                    )
                }
            },
            (PullRequestStage::MarkHandled, Reply::Done) => PullRequestStage::RemoveMarker,
            (PullRequestStage::RemoveMarker, Reply::Done) => {
                PullRequestStage::Ended(Ok(TaskAssessment::Skipped))
            },
            (stage, _) => stage,
        };
        PullRequestScan { pr: self.pr, stage }
    }
}

/// The scan of a pull request that has come through `replies`.
pub open spec fn pull_request_over<E>(
    maid: Maid,
    pr: PullRequest,
    scope: ReviewScope,
    replies: Seq<Reply<E>>,
) -> PullRequestScan<E>
    decreases replies.len(),
{
    if replies.len() == 0 {
        PullRequestScan::initial(maid, pr, scope)
    } else {
        pull_request_over(maid, pr, scope, replies.drop_last()).after(replies.last())
    }
}

/// Whatever the replies: a review is started only for a pull request whose
/// author is reviewed unasked and is not the bot; GitHub showed it as open, and
/// no handled mark was owed for it.
pub proof fn law_reviews_come_from_trusted_authors<E>(
    maid: Maid,
    pr: PullRequest,
    scope: ReviewScope,
    replies: Seq<Reply<E>>,
)
    ensures
        pull_request_over(maid, pr, scope, replies).pr == pr,
        pull_request_over(maid, pr, scope, replies).pending() !is Nothing ==> maid.is_reviewed(
            pr,
            scope,
        ),
        pull_request_over(maid, pr, scope, replies).stage is HasMarker ==> replies.contains(
            Reply::State(ReviewState::Pending),
        ),
        pull_request_over(maid, pr, scope, replies).stage matches PullRequestStage::Ended(Ok(
            TaskAssessment::Ready(intent),
        )) ==> {
            &&& maid.is_reviewed(pr, scope)
            &&& *intent == maid::pull_request_intent(pr)
            &&& replies.contains(Reply::State(ReviewState::Pending))
            &&& replies.contains(Reply::Found(false))
        },
    decreases replies.len(),
{
    if replies.len() > 0 {
        let earlier = replies.drop_last();
        law_reviews_come_from_trusted_authors(maid, pr, scope, earlier);
        let open = Reply::<E>::State(ReviewState::Pending);
        let absent = Reply::<E>::Found(false);
        assert forall|reply: Reply<E>| earlier.contains(reply) implies #[trigger] replies.contains(
            reply,
        ) by {
            let k = choose|k: int| 0 <= k < earlier.len() && earlier[k] == reply;
            assert(replies[k] == reply);
        }
        assert(replies[replies.len() - 1] == replies.last());
        assert(replies.contains(replies.last()));
        assert(earlier.contains(open) ==> replies.contains(open));
        assert(earlier.contains(absent) ==> replies.contains(absent));
    }
}

// ---------------------------------------------------------------------------
// The course of an assessment
// ---------------------------------------------------------------------------
/// The next request is the first comment from there on that asks for work; what
/// is passed over does not.
pub proof fn law_no_request_is_passed_over(maid: Maid, mentions: Seq<CommentMention>, at: int)
    requires
        0 <= at <= mentions.len(),
    ensures
        ({
            let next = next_request(maid, mentions, at);
            &&& at <= next <= mentions.len()
            &&& next < mentions.len() ==> maid.is_request(mentions[next])
            &&& forall|i: int| at <= i < next ==> !maid.is_request(#[trigger] mentions[i])
        }),
    decreases mentions.len() - at,
{
    if at < mentions.len() && !maid.is_request(mentions[at]) {
        law_no_request_is_passed_over(maid, mentions, at + 1);
    }
}

/// A notification about a pull request or issue has its latest comment read; any
/// other is marked as read, and that is all.
pub proof fn law_how_an_assessment_begins<E>(maid: Maid, notification: Notification)
    ensures
        ({
            let scan = ScanView::<E>::initial(maid, notification);
            &&& notification.mention_candidate() ==> scan.pending() == (Action::LatestMention {
                notification,
            })
            &&& !notification.mention_candidate() ==> {
                &&& scan.pending() == (Action::MarkNotificationHandled { notification })
                &&& scan.after(Reply::Done).stage == ScanStage::<E>::Ended(Ok(()))
                &&& scan.after(Reply::Done).assessments == seq![maid::AssessmentView::Skipped]
            }
            &&& scan.assessments.len() == 0
        }),
{
}

/// What the latest comment leads to. One by the bot, or one that asks for work and
/// is open on GitHub, has the recent comments read. One that asks for work and is
/// handled is looked at by itself. One that asks for nothing, or none at all, leaves
/// nothing to do but to mark the notification as read.
pub proof fn law_what_the_latest_comment_leads_to<E>(scan: ScanView<E>, latest: CommentMention)
    requires
        scan.stage == ScanStage::<E>::ReadLatest,
        scan.assessments.len() == 0,
    ensures
        ({
            let read = scan.after(Reply::Latest(Some(latest)));
            let none = scan.after(Reply::Latest(None));
            let open = read.after(Reply::State(ReviewState::Pending));
            let handled = read.after(Reply::State(ReviewState::Handled));
            let recent = Action::RecentMentions { notification: scan.notification };
            let mark_read = Action::MarkNotificationHandled { notification: scan.notification };
            &&& none.pending() == mark_read
            &&& scan.maid.is_bot(latest.author@) ==> read.pending() == recent
            &&& scan.maid.is_request(latest) ==> {
                &&& read.pending() == (Action::MentionState { mention: latest })
                &&& open.pending() == recent
                &&& handled.mentions == seq![latest]
                &&& handled.at == 0
                &&& handled.pending() == (Action::MentionState { mention: latest })
            }
            &&& !scan.maid.is_bot(latest.author@) && !scan.maid.is_request(latest)
                ==> read.pending() == mark_read
        }),
{
    let one = seq![latest];
    assert(one[0] == latest);
    law_no_request_is_passed_over(scan.maid, one, 0);
    law_no_request_is_passed_over(scan.maid, Seq::empty(), 0);
    let next = next_request(scan.maid, one, 0);
    if next == 1 {
        assert(!scan.maid.is_request(one[0]));
    }
}

/// The recent comments are looked at from the first on, each that asks for work in
/// turn; where there are none, the latest comment is. Where nothing asks for work,
/// the notification is marked as read.
pub proof fn law_recent_comments_are_all_looked_at<E>(
    scan: ScanView<E>,
    latest: CommentMention,
    recent: Vec<CommentMention>,
)
    requires
        scan.stage == (ScanStage::<E>::ReadRecent { latest }),
        scan.assessments.len() == 0,
    ensures
        ({
            let next = scan.after(Reply::Recent(recent));
            let all = if recent@.len() == 0 {
                seq![latest]
            } else {
                recent@
            };
            &&& next.mentions == all
            &&& next.assessments.len() == 0
            &&& forall|i: int| 0 <= i < next.at ==> !scan.maid.is_request(#[trigger] all[i])
            &&& if next.at < all.len() {
                scan.maid.is_request(all[next.at]) && next.pending() == (Action::MentionState {
                    mention: all[next.at],
                })
            } else {
                next.pending() == (Action::MarkNotificationHandled {
                    notification: scan.notification,
                })
            }
        }),
{
    let all = if recent@.len() == 0 {
        seq![latest]
    } else {
        recent@
    };
    law_no_request_is_passed_over(scan.maid, all, 0);
}

/// A request that GitHub shows as open, and whose mark is not owed, becomes a task
/// for it; one that is handled has its marker forgotten and becomes none. Either
/// way the next request is looked at.
pub proof fn law_what_becomes_of_a_request<E>(scan: ScanView<E>)
    requires
        scan.stage == ScanStage::<E>::MentionState,
        0 <= scan.at < scan.mentions.len(),
    ensures
        ({
            let mention = scan.mentions[scan.at];
            let marker = PendingHandledMarker::Mention { api_url: mention.api_url };
            let open = scan.after(Reply::State(ReviewState::Pending));
            let task = open.after(Reply::Found(false));
            let handled = scan.after(Reply::State(ReviewState::Handled));
            let settled = handled.after(Reply::Done);
            &&& scan.pending() == (Action::MentionState { mention })
            &&& open.pending() == (Action::HasMarker { marker })
            &&& task.assessments == scan.assessments.push(
                maid::AssessmentView::Ready(
                    maid::IntentView::Mention {
                        notification: scan.notification,
                        mention,
                        task: scan.maid.mention_task(mention),
                    },
                ),
            )
            &&& handled.pending() == (Action::RemoveMarker { marker })
            &&& settled.assessments == scan.assessments.push(maid::AssessmentView::Skipped)
            &&& open.after(Reply::Found(true)).pending() == (Action::MarkMentionHandled {
                mention,
            })
            &&& open.after(Reply::Found(true)).after(Reply::Done).pending() == (
            Action::RemoveMarker { marker })
            &&& task.at == settled.at && scan.at < task.at <= scan.mentions.len()
            &&& forall|i: int|
                scan.at < i < task.at ==> !scan.maid.is_request(#[trigger] scan.mentions[i])
            &&& task.at < scan.mentions.len() ==> task.pending() == (Action::MentionState {
                mention: scan.mentions[task.at],
            }) && settled.pending() == task.pending()
            &&& task.at == scan.mentions.len() ==> task.stage == ScanStage::<E>::Ended(Ok(()))
        }),
{
    law_no_request_is_passed_over(scan.maid, scan.mentions, scan.at + 1);
    let task = scan.after(Reply::State(ReviewState::Pending)).after(Reply::Found(false));
    assert(task.assessments.last() is Ready);
    assert(task.assessments[task.assessments.len() - 1] is Ready);
}

/// After the last request the notification is marked as read where no task came of
/// it, and left unread where one did. A failure ends the assessment.
pub proof fn law_how_an_assessment_ends<E>(scan: ScanView<E>, error: E)
    requires
        scan.stage == ScanStage::<E>::RemoveMarker,
        0 <= scan.at < scan.mentions.len(),
        forall|i: int|
            scan.at < i < scan.mentions.len() ==> !scan.maid.is_request(
                #[trigger] scan.mentions[i],
            ),
    ensures
        ({
            let last = scan.after(Reply::Done);
            &&& (exists|i: int| 0 <= i < scan.assessments.len() && #[trigger] scan.assessments[i]
                is Ready) ==> last.stage == ScanStage::<E>::Ended(Ok(()))
            &&& (forall|i: int| 0 <= i < scan.assessments.len() ==> #[trigger] scan.assessments[i]
                is Skipped) ==> {
                &&& last.pending() == (Action::MarkNotificationHandled {
                    notification: scan.notification,
                })
                &&& last.after(Reply::Done).stage == ScanStage::<E>::Ended(Ok(()))
                &&& last.after(Reply::Done).assessments == last.assessments
            }
            &&& scan.after(Reply::Failed(error)).stage == ScanStage::<E>::Ended(Err(error))
        }),
{
    law_no_request_is_passed_over(scan.maid, scan.mentions, scan.at + 1);
    let last = scan.after(Reply::Done);
    assert(last.assessments == scan.assessments.push(maid::AssessmentView::Skipped));
    if exists|i: int| 0 <= i < scan.assessments.len() && #[trigger] scan.assessments[i] is Ready {
        let i = choose|i: int|
            0 <= i < scan.assessments.len() && #[trigger] scan.assessments[i] is Ready;
        assert(last.assessments[i] is Ready);
    }
}

/// A pull request whose author is reviewed unasked has its state read; any other
/// is skipped. One that is open, and whose mark is not owed, becomes a review; one
/// whose mark is owed gets it, and one that is handled has its marker forgotten.
pub proof fn law_what_becomes_of_a_pull_request<E>(
    maid: Maid,
    pr: PullRequest,
    scope: ReviewScope,
    error: E,
)
    ensures
        ({
            let scan = PullRequestScan::<E>::initial(maid, pr, scope);
            let marker = PendingHandledMarker::PullRequest { html_url: pr.html_url };
            let open = scan.after(Reply::State(ReviewState::Pending));
            let owed = open.after(Reply::Found(true));
            let handled = scan.after(Reply::State(ReviewState::Handled));
            let skipped = PullRequestStage::<E>::Ended(Ok(TaskAssessment::Skipped));
            &&& !maid.is_reviewed(pr, scope) ==> scan.stage == skipped
            &&& maid.is_reviewed(pr, scope) ==> {
                &&& scan.pending() == (Action::PullRequestState { pr })
                &&& open.pending() == (Action::HasMarker { marker })
                &&& open.after(Reply::Found(false)).stage == PullRequestStage::<E>::Ended(
                    Ok(TaskAssessment::Ready(Box::new(maid::pull_request_intent(pr)))),
                )
                &&& owed.pending() == (Action::MarkPullRequestHandled { pr })
                &&& owed.after(Reply::Done).pending() == (Action::RemoveMarker { marker })
                &&& owed.after(Reply::Done).after(Reply::Done).stage == skipped
                &&& handled.pending() == (Action::RemoveMarker { marker })
                &&& handled.after(Reply::Done).stage == skipped
                &&& scan.after(Reply::Failed(error)).stage == PullRequestStage::<E>::Ended(
                    Err(error),
                )
            }
        }),
{
}

/// What was found is taken one by one, in its order.
pub proof fn law_assessments_are_taken_whole(list: Seq<TaskAssessment>, i: int)
    requires
        0 <= i < list.len(),
    ensures
        assessment_views(list).len() == list.len(),
        assessment_views(list)[i] == list[i]@,
{
}

/// An assessment goes on only with a reply to what it asked for, and once it has
/// ended nothing changes it. A failure ends it at once, with that failure, and what
/// was found until then stays.
pub proof fn law_assessments_go_on_with_answers_only<E>(
    scan: ScanView<E>,
    pull_request: PullRequestScan<E>,
    reply: Reply<E>,
    error: E,
)
    ensures
        !crate::effect::answers(scan.pending(), reply) ==> scan.after(reply) == scan,
        !crate::effect::answers(pull_request.pending(), reply) ==> pull_request.after(reply)
            == pull_request,
        scan.stage is Ended ==> scan.after(reply) == scan && scan.pending() is Nothing,
        pull_request.stage is Ended ==> pull_request.after(reply) == pull_request
            && pull_request.pending() is Nothing,
        scan.stage !is Ended ==> scan.after(Reply::Failed(error)) == (ScanView {
            stage: ScanStage::Ended(Err(error)),
            ..scan
        }),
        pull_request.stage !is Ended ==> pull_request.after(Reply::Failed(error)) == (
        PullRequestScan {
            pr: pull_request.pr,
            stage: PullRequestStage::Ended(Err(error)),
        }),
        scan.after(reply).maid == scan.maid,
        scan.after(reply).notification == scan.notification,
        pull_request.after(reply).pr == pull_request.pr,
{
}

} // verus!
