//! A poll together with the queue of the tasks at work.
use crate::maid::{TaskIntent, WorkQueue};
use crate::poll::{Poll, PollAction, PollMode, PollReply, PollStage};
use crate::task_run::TaskStartOutcome;
use crate::poll;
use vstd::prelude::*;

verus! {

/// There is a slot for the task: one is free, and its key is not at work.
pub open spec fn has_slot(queue: Set<Seq<char>>, slots: nat, intent: TaskIntent) -> bool {
    queue.len() < slots && !queue.contains(intent.key_text())
}

/// The queue after it has done what a poll asks of it.
pub open spec fn queue_after(
    queue: Set<Seq<char>>,
    slots: nat,
    action: PollAction,
) -> Set<Seq<char>> {
    match action {
        PollAction::Reserve { intent } => if has_slot(queue, slots, intent) {
            queue.insert(intent.key_text())
        } else {
            queue
        },
        PollAction::Release { intent } => queue.remove(intent.key_text()),
        _ => queue,
    }
}

/// What the queue says to it; `None` where the action is none of its business.
pub open spec fn queue_reply<E>(
    queue: Set<Seq<char>>,
    slots: nat,
    action: PollAction,
) -> Option<PollReply<E>> {
    match action {
        PollAction::Reserve { intent } => {
            Some(PollReply::Reserved(has_slot(queue, slots, intent)))
        },
        PollAction::Release { .. } => Some(PollReply::Done),
        PollAction::CountInFlight => Some(PollReply::InFlight(queue.len() as usize)),
        _ => None,
    }
}

impl WorkQueue {
    /// Does what a poll asks of the queue: takes a slot, gives one back, or counts
    /// the tasks at work.
    pub fn answer<E>(&mut self, action: &PollAction) -> (r: Option<PollReply<E>>)
        ensures
            r == queue_reply::<E>(old(self)@, old(self).slots(), *action),
            final(self)@ == queue_after(old(self)@, old(self).slots(), *action),
            final(self).slots() == old(self).slots(),
    {
        match action {
            PollAction::Reserve { intent } => {
                let reserved = self.try_reserve(intent.task_key().as_str());
                Some(PollReply::Reserved(reserved))
            },
            PollAction::Release { intent } => {
                self.release(intent.task_key().as_str());
                Some(PollReply::Done)
            },
            PollAction::CountInFlight => Some(PollReply::InFlight(self.in_flight())),
            _ => None,
        }
    }
}

// ---------------------------------------------------------------------------
// Both together
// ---------------------------------------------------------------------------
/// A poll that hands its tasks off, the queue, and the keys of the tasks that were
/// handed off and have not ended.
pub struct Workload<E> {
    pub poll: Poll<E>,
    pub queue: Set<Seq<char>>,
    pub running: Seq<Seq<char>>,
}

/// What happens to them.
pub enum WorkEvent<E> {
    /// The queue answers the poll.
    Answered,
    /// Something other than the queue does.
    Replied(PollReply<E>),
    /// The task at this place has ended, and its slot is given back.
    Ended(int),
}

impl<E> Workload<E> {
    pub open spec fn replied(self, reply: PollReply<E>) -> Workload<E> {
        Workload { poll: poll::stepped(self.poll, reply), ..self }
    }

    /// The queue alone answers what is asked of it, and the task that starts is the
    /// one that was to be started.
    pub open spec fn after(self, slots: nat, event: WorkEvent<E>) -> Workload<E> {
        match event {
            WorkEvent::Answered => match queue_reply::<E>(self.queue, slots, self.poll.pending()) {
                Some(reply) => Workload {
                    queue: queue_after(self.queue, slots, self.poll.pending()),
                    ..self.replied(reply)
                },
                None => self,
            },
            WorkEvent::Replied(reply) => match (self.poll.pending(), reply) {
                (PollAction::Reserve { .. }, _) => self,
                (PollAction::Release { .. }, _) => self,
                (PollAction::CountInFlight, _) => self,
                (PollAction::Spawn { intent }, PollReply::Done) => Workload {
                    running: self.running.push(intent.key_text()),
                    ..self.replied(reply)
                },
                (
                    PollAction::Start { intent },
                    PollReply::Outcome(TaskStartOutcome::Started(task)),
                ) => if *task == intent {
                    self.replied(reply)
                } else {
                    self
                },
                _ => self.replied(reply),
            },
            WorkEvent::Ended(at) => if 0 <= at < self.running.len() {
                Workload {
                    queue: self.queue.remove(self.running[at]),
                    running: self.running.remove(at),
                    ..self
                }
            } else {
                self
            },
        }
    }
}

/// The workload that has come from `start` through `events`.
pub open spec fn workload_over<E>(
    start: Workload<E>,
    slots: nat,
    events: Seq<WorkEvent<E>>,
) -> Workload<E>
    decreases events.len(),
{
    if events.len() == 0 {
        start
    } else {
        workload_over(start, slots, events.drop_last()).after(slots, events.last())
    }
}

/// The queue holds the keys of the tasks that run, each once, within its slots.
pub open spec fn queue_is_running<E>(work: Workload<E>, slots: nat) -> bool {
    &&& work.running.no_duplicates()
    &&& work.queue == work.running.to_set()
    &&& work.running.len() <= slots
}

/// The task for which a slot is held while it is neither given back nor handed off.
pub open spec fn held_task<E>(poll: Poll<E>) -> Option<TaskIntent> {
    match poll.stage {
        PollStage::Start { intent } => Some(intent),
        PollStage::Release { intent } => Some(intent),
        PollStage::Spawn { intent } => Some(intent),
        _ => None,
    }
}

/// The queue holds what runs and what is about to, and nothing twice.
spec fn in_order<E>(work: Workload<E>, slots: nat) -> bool {
    &&& work.poll.mode == PollMode::Concurrent
    &&& !(work.poll.stage is Finish)
    &&& work.poll.report.in_flight <= slots
    &&& work.poll.stage matches PollStage::Ended(Ok(report)) ==> report.in_flight <= slots
    &&& work.running.no_duplicates()
    &&& work.queue.finite()
    &&& work.queue.len() <= slots
    &&& match held_task(work.poll) {
        Some(intent) => {
            &&& !work.running.contains(intent.key_text())
            &&& work.queue == work.running.to_set().insert(intent.key_text())
        },
        None => work.queue == work.running.to_set(),
    }
}

/// How a step of the poll moves between holding a slot and not.
#[verifier::spinoff_prover]
#[verifier::rlimit(40)]
proof fn lemma_step_holds<E>(work: Poll<E>, reply: PollReply<E>)
    requires
        work.mode == PollMode::Concurrent,
        !(work.stage is Finish),
    ensures
        ({
            let next = poll::stepped(work, reply);
            &&& next.mode == PollMode::Concurrent
            &&& !(next.stage is Finish)
            &&& match (work.stage, reply) {
                (PollStage::Reserve { intent }, PollReply::Reserved(true)) => next.stage
                    == (PollStage::<E>::Start { intent }),
                (PollStage::Release { .. }, PollReply::Done) => held_task(next) is None,
                (PollStage::Spawn { .. }, PollReply::Done) => held_task(next) is None,
                (PollStage::Start { .. }, PollReply::Outcome(TaskStartOutcome::Started(task))) => {
                    held_task(next) == Some(*task)
                },
                _ => held_task(next) == held_task(work),
            }
            &&& match (work.stage, reply) {
                (PollStage::CountInFlight, PollReply::InFlight(count)) => {
                    next.report.in_flight == count
                },
                _ => next.report.in_flight == work.report.in_flight,
            }
            &&& next.stage matches PollStage::Ended(Ok(report)) ==> next == work || report
                == next.report
        }),
{
    reveal(poll::stepped);
}

proof fn lemma_pushed(running: Seq<Seq<char>>, key: Seq<char>)
    requires
        running.no_duplicates(),
        !running.contains(key),
    ensures
        running.push(key).no_duplicates(),
        running.push(key).to_set() == running.to_set().insert(key),
{
    let more = running.push(key);
    assert forall|i: int, j: int|
        0 <= i < more.len() && 0 <= j < more.len() && i != j implies more[i] != more[j] by {
        if i < running.len() {
            assert(running.contains(running[i]));
        }
        if j < running.len() {
            assert(running.contains(running[j]));
        }
    }
    assert forall|k: Seq<char>| more.contains(k) == (running.contains(k) || k == key) by {
        if running.contains(k) {
            let i = choose|i: int| 0 <= i < running.len() && running[i] == k;
            assert(more[i] == k);
        }
        assert(more[running.len() as int] == key);
    }
    assert(more.to_set() =~= running.to_set().insert(key));
}

proof fn lemma_dropped(running: Seq<Seq<char>>, at: int)
    requires
        running.no_duplicates(),
        0 <= at < running.len(),
    ensures
        running.remove(at).no_duplicates(),
        running.remove(at).to_set() == running.to_set().remove(running[at]),
        forall|k: Seq<char>| #[trigger]
            running.remove(at).contains(k) == (running.contains(k) && k != running[at]),
{
    let fewer = running.remove(at);
    let key = running[at];
    assert forall|k: Seq<char>| #[trigger] fewer.contains(k) == (running.contains(k) && k != key) by {
        if fewer.contains(k) {
            let a = choose|a: int| 0 <= a < fewer.len() && fewer[a] == k;
            let b = if a < at { a } else { a + 1 };
            assert(running[b] == k);
        }
        if running.contains(k) && k != key {
            let b = choose|b: int| 0 <= b < running.len() && running[b] == k;
            let a = if b < at { b } else { b - 1 };
            assert(fewer[a] == k);
        }
    }
    assert forall|a: int, b: int|
        0 <= a < fewer.len() && 0 <= b < fewer.len() && a != b implies fewer[a] != fewer[b] by {
        let x = if a < at { a } else { a + 1 };
        let y = if b < at { b } else { b + 1 };
        assert(running[x] != running[y]);
    }
    assert(fewer.to_set() =~= running.to_set().remove(key));
}

proof fn lemma_event_keeps_order<E>(work: Workload<E>, slots: nat, event: WorkEvent<E>)
    requires
        slots <= usize::MAX,
        in_order(work, slots),
    ensures
        in_order(work.after(slots, event), slots),
{
    let pending = work.poll.pending();
    match event {
        WorkEvent::Answered => {
            if let Some(reply) = queue_reply::<E>(work.queue, slots, pending) {
                lemma_step_holds(work.poll, reply);
                if let Some(intent) = held_task(work.poll) {
                    let key = intent.key_text();
                    assert(!work.running.to_set().contains(key));
                    assert(work.running.to_set().insert(key).remove(key)
                        =~= work.running.to_set());
                }
                if let PollAction::Reserve { intent } = pending {
                    assert(work.running.to_set().contains(intent.key_text())
                        == work.running.contains(intent.key_text()));
                }
            }
        },
        WorkEvent::Replied(reply) => {
            lemma_step_holds(work.poll, reply);
            if let PollAction::Spawn { intent } = pending {
                lemma_pushed(work.running, intent.key_text());
            }
        },
        WorkEvent::Ended(at) => {
            if 0 <= at < work.running.len() {
                let key = work.running[at];
                lemma_dropped(work.running, at);
                assert(work.running.contains(key));
                if let Some(intent) = held_task(work.poll) {
                    assert(work.running.to_set().insert(intent.key_text()).remove(key)
                        =~= work.running.remove(at).to_set().insert(intent.key_text()));
                }
            }
        },
    }
}

proof fn lemma_in_order<E>(start: Workload<E>, slots: nat, events: Seq<WorkEvent<E>>)
    requires
        slots <= usize::MAX,
        start.poll.begins(PollMode::Concurrent, start.poll.repos@, start.poll.accounts@),
        queue_is_running(start, slots),
    ensures
        in_order(workload_over(start, slots, events), slots),
    decreases events.len(),
{
    if events.len() == 0 {
        vstd::seq_lib::seq_to_set_is_finite(start.running);
        start.running.unique_seq_to_set();
    } else {
        lemma_in_order(start, slots, events.drop_last());
        lemma_event_keeps_order(
            workload_over(start, slots, events.drop_last()),
            slots,
            events.last(),
        );
    }
}

/// Whatever happens, in whatever order: at no time do more tasks run than there
/// are slots, nor two with one key; and when the poll has ended, the queue holds
/// just the tasks that run, so that the next poll finds it as this one did.
pub proof fn law_tasks_at_work_stay_within_the_slots<E>(
    start: Workload<E>,
    slots: nat,
    events: Seq<WorkEvent<E>>,
)
    requires
        slots <= usize::MAX,
        start.poll.begins(PollMode::Concurrent, start.poll.repos@, start.poll.accounts@),
        queue_is_running(start, slots),
    ensures
        ({
            let work = workload_over(start, slots, events);
            &&& work.running.len() <= slots
            &&& work.running.no_duplicates()
            &&& work.poll.stage is Ended ==> queue_is_running(work, slots)
            &&& work.poll.stage matches PollStage::Ended(Ok(report)) ==> report.in_flight <= slots
        }),
{
    lemma_in_order(start, slots, events);
    let work = workload_over(start, slots, events);
    work.running.unique_seq_to_set();
    vstd::seq_lib::seq_to_set_is_finite(work.running);
    assert(work.running.to_set().subset_of(work.queue));
    vstd::set_lib::lemma_len_subset(work.running.to_set(), work.queue);
}

/// A task gets a slot exactly where one is free and no task with its trigger is at
/// work; it then counts as at work until its slot is given back. Whatever else a poll
/// asks is none of the queue's business.
pub proof fn law_who_gets_a_slot<E>(
    queue: Set<Seq<char>>,
    slots: nat,
    intent: TaskIntent,
    action: PollAction,
)
    ensures
        ({
            let key = "task:"@ + intent.the_task()@.trigger();
            let free = queue.len() < slots && !queue.contains(key);
            let reserve = PollAction::Reserve { intent };
            let release = PollAction::Release { intent };
            &&& queue_reply::<E>(queue, slots, reserve) == Some(PollReply::<E>::Reserved(free))
            &&& queue_after(queue, slots, reserve) == (if free {
                queue.insert(key)
            } else {
                queue
            })
            &&& queue_reply::<E>(queue, slots, release) == Some(PollReply::<E>::Done)
            &&& queue_after(queue, slots, release) == queue.remove(key)
            &&& queue_reply::<E>(queue, slots, PollAction::CountInFlight) == Some(
                PollReply::<E>::InFlight(queue.len() as usize),
            )
            &&& action !is Reserve && action !is Release ==> queue_after(queue, slots, action)
                == queue
            &&& action !is Reserve && action !is Release && action !is CountInFlight
                ==> queue_reply::<E>(queue, slots, action) is None
        }),
{
}

} // verus!
