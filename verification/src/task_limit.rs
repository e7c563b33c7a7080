//! A limit on the tasks started in any span of 24 hours.
use crate::handled_marker::StoreError;
use crate::text;
use vstd::prelude::*;

verus! {

/// The seconds of 24 hours.
pub const TASK_LIMIT_WINDOW: u64 = 86400;

#[derive(Clone, Copy, Debug, Eq, PartialEq)]
pub enum TaskStartDecision {
    Recorded,
    AtLimit { limit: usize, window: u64 },
}

/// Decides whether a task may start, and keeps count of those that do.
pub trait TaskStartRecorder {
    fn try_record_started(&mut self) -> (r: Result<TaskStartDecision, StoreError>);
}

/// No limit: every task may start.
#[derive(Debug, Eq, PartialEq)]
pub struct NoTaskLimit;

impl TaskStartRecorder for NoTaskLimit {
    fn try_record_started(&mut self) -> (r: Result<TaskStartDecision, StoreError>)
        ensures
            r == Ok::<TaskStartDecision, StoreError>(TaskStartDecision::Recorded),
    {
        Ok(TaskStartDecision::Recorded)
    }
}

#[derive(Clone, Copy, Debug, Eq, PartialEq)]
pub struct TaskLimit {
    pub max_started_tasks: usize,
    pub window: u64,
}

impl TaskLimit {
    pub fn per_24_hours(max_started_tasks: usize) -> (r: TaskLimit)
        ensures
            r.max_started_tasks == max_started_tasks,
            r.window == TASK_LIMIT_WINDOW,
            r.window == 24 * 60 * 60,
    {
        TaskLimit { max_started_tasks, window: TASK_LIMIT_WINDOW }
    }
}

/// A start counts at `now` while it is less than `window` seconds old. One that
/// lies ahead of the clock is taken to be new.
pub open spec fn counts(started_at: u64, now: u64, window: u64) -> bool {
    (if started_at < now {
        now - started_at
    } else {
        0
    }) < window
}

/// The starts that count at `now`, in order.
pub open spec fn retained(starts: Seq<u64>, now: u64, window: u64) -> Seq<u64>
    decreases starts.len(),
{
    if starts.len() == 0 {
        Seq::empty()
    } else {
        let kept = retained(starts.drop_last(), now, window);
        if counts(starts.last(), now, window) {
            kept.push(starts.last())
        } else {
            kept
        }
    }
}

/// The starts on record.
#[derive(Debug, Eq, PartialEq)]
pub struct TaskStartLedgerFile {
    pub started_at_unix_seconds: Vec<u64>,
}

impl TaskStartLedgerFile {
    pub fn retain_window(&mut self, now: u64, window: u64)
        ensures
            final(self).started_at_unix_seconds@ == retained(
                old(self).started_at_unix_seconds@,
                now,
                window,
            ),
    {
        let mut kept: Vec<u64> = Vec::new();
        let ghost all = self.started_at_unix_seconds@;
        let mut i: usize = 0;
        while i < self.started_at_unix_seconds.len()
            invariant
                all == self.started_at_unix_seconds@,
                i <= all.len(),
                kept@ == retained(all.take(i as int), now, window),
            decreases all.len() - i,
        {
            let started_at: u64 = self.started_at_unix_seconds[i];
            assert(all.take(i + 1).drop_last() =~= all.take(i as int));
            if now.saturating_sub(started_at) < window {
                kept.push(started_at);
            }
            i = i + 1;
        }
        assert(all.take(all.len() as int) =~= all);
        self.started_at_unix_seconds = kept;
    }
}

/// Whether a task may start at `now`, given the starts on record.
pub open spec fn may_start(starts: Seq<u64>, now: u64, limit: TaskLimit) -> bool {
    retained(starts, now, limit.window).len() < limit.max_started_tasks
}

/// The record after a request to start at `now`.
pub open spec fn record_after(starts: Seq<u64>, now: u64, limit: TaskLimit) -> Seq<u64> {
    let kept = retained(starts, now, limit.window);
    if may_start(starts, now, limit) {
        kept.push(now)
    } else {
        kept
    }
}

/// A recorder whose record is a file.
#[derive(Debug, Eq, PartialEq)]
pub struct FileTaskStartRecorder {
    limit: Option<TaskLimit>,
    path: String,
}

impl FileTaskStartRecorder {
    pub closed spec fn task_limit(self) -> Option<TaskLimit> {
        self.limit
    }

    pub closed spec fn path_text(self) -> Seq<char> {
        self.path@
    }

    pub fn new(max_started_tasks_per_24h: Option<usize>, path: &str) -> (r: FileTaskStartRecorder)
        ensures
            r.path_text() == path@,
            match max_started_tasks_per_24h {
                Some(max) => r.task_limit() == Some(
                    TaskLimit {
                        max_started_tasks: max,
                        window: TASK_LIMIT_WINDOW,
                    },
                ),
                None => r.task_limit() is None,
            },
    {
        let limit = match max_started_tasks_per_24h {
            Some(max) => Some(TaskLimit::per_24_hours(max)),
            None => None,
        };
        FileTaskStartRecorder { limit, path: path.to_owned() }
    }

    pub fn path(&self) -> (r: &str)
        ensures
            r@ == self.path_text(),
    {
        self.path.as_str()
    }

    /// Whether a request has to consult the record at all.
    pub fn has_limit(&self) -> (r: bool)
        ensures
            r == (self.task_limit() is Some),
    {
        self.limit.is_some()
    }

    /// Decides a request to start at `now`, and brings the record up to date.
    /// Without a limit the record is left alone.
    pub fn record_started(&self, ledger: &mut TaskStartLedgerFile, now: u64) -> (r:
        TaskStartDecision)
        ensures
            match self.task_limit() {
                None => {
                    &&& r == TaskStartDecision::Recorded
                    &&& *final(ledger) == *old(ledger)
                },
                Some(limit) => {
                    &&& final(ledger).started_at_unix_seconds@ == record_after(
                        old(ledger).started_at_unix_seconds@,
                        now,
                        limit,
                    )
                    &&& r == (if may_start(old(ledger).started_at_unix_seconds@, now, limit) {
                        TaskStartDecision::Recorded
                    } else {
                        TaskStartDecision::AtLimit {
                            limit: limit.max_started_tasks,
                            window: limit.window,
                        }
                    })
                    &&& limit.window > 0 ==> (r == TaskStartDecision::Recorded <==> old(
                        ledger,
                    ).started_at_unix_seconds@.filter(
                        |start: u64| now < start + limit.window,
                    ).len() < limit.max_started_tasks)
                },
            },
    {
        match self.limit {
            None => TaskStartDecision::Recorded,
            Some(limit) => {
                proof {
                    if limit.window > 0 {
                        law_starts_are_turned_away_only_at_the_limit(
                            ledger.started_at_unix_seconds@,
                            now,
                            limit,
                        );
                    }
                }
                ledger.retain_window(now, limit.window);
                if ledger.started_at_unix_seconds.len() >= limit.max_started_tasks {
                    TaskStartDecision::AtLimit {
                        limit: limit.max_started_tasks,
                        window: limit.window,
                    }
                } else {
                    ledger.started_at_unix_seconds.push(now);
                    TaskStartDecision::Recorded
                }
            },
        }
    }
}

/// The name of the file that is written before it takes the record's place.
pub fn temp_file_name(file_name: Option<&str>) -> (r: String)
    ensures
        r@ == "."@ + (match file_name {
            Some(name) => name@,
            None => "maid-task-starts.json"@,
        }) + ".tmp"@,
{
    match file_name {
        Some(name) => text::cat3(".", name, ".tmp"),
        None => text::cat3(".", "maid-task-starts.json", ".tmp"),
    }
}

// ---------------------------------------------------------------------------
// The limit over time
// ---------------------------------------------------------------------------
/// The record after requests at each of `times`, beginning with an empty one.
pub open spec fn record_over(times: Seq<u64>, limit: TaskLimit) -> Seq<u64>
    decreases times.len(),
{
    if times.len() == 0 {
        Seq::empty()
    } else {
        record_after(record_over(times.drop_last(), limit), times.last(), limit)
    }
}

/// The times of all requests among `times` that were let start.
pub open spec fn started_over(times: Seq<u64>, limit: TaskLimit) -> Seq<u64>
    decreases times.len(),
{
    if times.len() == 0 {
        Seq::empty()
    } else {
        let earlier = started_over(times.drop_last(), limit);
        if may_start(record_over(times.drop_last(), limit), times.last(), limit) {
            earlier.push(times.last())
        } else {
            earlier
        }
    }
}

pub open spec fn never_back(times: Seq<u64>) -> bool {
    forall|i: int, j: int| 0 <= i <= j < times.len() ==> times[i] <= times[j]
}

proof fn lemma_retained_later(starts: Seq<u64>, earlier: u64, later: u64, window: u64)
    requires
        earlier <= later,
    ensures
        retained(retained(starts, earlier, window), later, window) == retained(
            starts,
            later,
            window,
        ),
    decreases starts.len(),
{
    if starts.len() > 0 {
        lemma_retained_later(starts.drop_last(), earlier, later, window);
        let kept = retained(starts.drop_last(), earlier, window);
        if counts(starts.last(), earlier, window) {
            assert(kept.push(starts.last()).drop_last() =~= kept);
        }
    }
}

proof fn lemma_retained_push(starts: Seq<u64>, start: u64, now: u64, window: u64)
    ensures
        retained(starts.push(start), now, window) == (if counts(start, now, window) {
            retained(starts, now, window).push(start)
        } else {
            retained(starts, now, window)
        }),
{
    assert(starts.push(start).drop_last() =~= starts);
}

proof fn lemma_retained_len(starts: Seq<u64>, now: u64, window: u64)
    ensures
        retained(starts, now, window).len() <= starts.len(),
    decreases starts.len(),
{
    if starts.len() > 0 {
        lemma_retained_len(starts.drop_last(), now, window);
    }
}

/// Whatever the requests, as long as the clock does not run backwards: at no
/// request have more tasks than the limit started in the window that ends there.
pub proof fn law_starts_in_any_window_stay_within_the_limit(times: Seq<u64>, limit: TaskLimit)
    requires
        never_back(times),
        times.len() > 0,
        limit.window > 0,
    ensures
        retained(started_over(times, limit), times.last(), limit.window).len()
            <= limit.max_started_tasks,
        record_over(times, limit) == retained(
            started_over(times, limit),
            times.last(),
            limit.window,
        ),
    decreases times.len(),
{
    let now = times.last();
    let window = limit.window;
    let earlier = times.drop_last();
    let record = record_over(earlier, limit);
    let started = started_over(earlier, limit);
    if earlier.len() > 0 {
        law_starts_in_any_window_stay_within_the_limit(earlier, limit);
        assert(earlier.last() <= now);
        lemma_retained_later(started, earlier.last(), now, window);
    }
    assert(retained(record, now, window) == retained(started, now, window));
    lemma_retained_len(record, now, window);
    lemma_retained_push(started, now, now, window);
}

/// A limit of zero lets nothing start.
pub proof fn law_zero_limit_disables_starts(starts: Seq<u64>, now: u64, limit: TaskLimit)
    requires
        limit.max_started_tasks == 0,
    ensures
        !may_start(starts, now, limit),
{
}

proof fn lemma_retained_is_filter(starts: Seq<u64>, now: u64, window: u64)
    requires
        window > 0,
    ensures
        retained(starts, now, window) == starts.filter(|start: u64| now < start + window),
    decreases starts.len(),
{
    reveal(Seq::filter);
    if starts.len() > 0 {
        lemma_retained_is_filter(starts.drop_last(), now, window);
    } else {
        assert(starts =~= Seq::<u64>::empty());
    }
}

/// A start counts until it is a whole window old. A task is turned away only
/// where at least as many starts count as the limit allows: with fewer, it
/// starts, and the record grows by it. A start that no longer counts is forgotten.
pub proof fn law_starts_are_turned_away_only_at_the_limit(
    starts: Seq<u64>,
    now: u64,
    limit: TaskLimit,
)
    requires
        limit.window > 0,
    ensures
        ({
            let counted = starts.filter(|start: u64| now < start + limit.window);
            &&& may_start(starts, now, limit) <==> counted.len() < limit.max_started_tasks
            &&& counted.len() < limit.max_started_tasks ==> record_after(starts, now, limit)
                == counted.push(now)
            &&& counted.len() >= limit.max_started_tasks ==> record_after(starts, now, limit)
                == counted
        }),
{
    lemma_retained_is_filter(starts, now, limit.window);
}

/// As long as fewer requests were made than the limit allows, whenever they were
/// made, each of them has started.
pub proof fn law_requests_below_the_limit_all_start(times: Seq<u64>, limit: TaskLimit)
    requires
        times.len() <= limit.max_started_tasks,
    ensures
        started_over(times, limit) == times,
        record_over(times, limit).len() <= times.len(),
    decreases times.len(),
{
    if times.len() > 0 {
        let earlier = times.drop_last();
        law_requests_below_the_limit_all_start(earlier, limit);
        lemma_retained_len(record_over(earlier, limit), times.last(), limit.window);
        assert(times =~= earlier.push(times.last()));
    } else {
        assert(started_over(times, limit) =~= times);
    }
}

/// A limit counts the tasks of one day, and a recorder without a limit has none.
pub proof fn law_what_a_recorder_counts(
    max: usize,
    limit: TaskLimit,
    path: &str,
    limited: FileTaskStartRecorder,
    unlimited: FileTaskStartRecorder,
)
    requires
        call_ensures(TaskLimit::per_24_hours, (max,), limit),
        call_ensures(FileTaskStartRecorder::new, (Some(max), path), limited),
        call_ensures(FileTaskStartRecorder::new, (None, path), unlimited),
    ensures
        limit.max_started_tasks == max,
        limit.window == 24 * 60 * 60,
        limited.task_limit() == Some(limit),
        unlimited.task_limit() is None,
        limited.path_text() == path@ && unlimited.path_text() == path@,
{
}

/// What is written goes first to a hidden file beside the one that is meant.
pub proof fn law_where_starts_are_written_first(name: &str, r: String, unnamed: String)
    requires
        call_ensures(temp_file_name, (Some(name),), r),
        call_ensures(temp_file_name, (None,), unnamed),
    ensures
        r@ == "."@ + name@ + ".tmp"@,
        unnamed@ == "."@ + "maid-task-starts.json"@ + ".tmp"@,
{
}

/// A start is recorded exactly where fewer starts than the limit lie within the
/// window, whatever else the ledger holds; then it is the last one in the ledger. One
/// that is turned away is told the limit, and no start comes on top. Without a limit
/// every start is recorded, and the ledger stays as it is.
pub proof fn law_starts_are_recorded_below_the_limit(
    recorder: &FileTaskStartRecorder,
    now: u64,
    limit: TaskLimit,
)
    requires
        limit.window > 0,
    ensures
        forall|ledger: &mut TaskStartLedgerFile, r: TaskStartDecision|
            recorder.task_limit() == Some(limit) && #[trigger] call_ensures(
                FileTaskStartRecorder::record_started,
                (recorder, ledger, now),
                r,
            ) ==> {
                let within = |start: u64| now < start + limit.window;
                let recent = (*ledger).started_at_unix_seconds@.filter(within);
                let later = (*final(ledger)).started_at_unix_seconds@;
                &&& recent.len() < limit.max_started_tasks ==> r == TaskStartDecision::Recorded
                    && later == recent.push(now)
                &&& recent.len() >= limit.max_started_tasks ==> r == (
                TaskStartDecision::AtLimit {
                    limit: limit.max_started_tasks,
                    window: limit.window,
                }) && later == recent
            },
        forall|ledger: &mut TaskStartLedgerFile, r: TaskStartDecision|
            recorder.task_limit() is None && #[trigger] call_ensures(
                FileTaskStartRecorder::record_started,
                (recorder, ledger, now),
                r,
            ) ==> r == TaskStartDecision::Recorded && *final(ledger) == *ledger,
{
    assert forall|starts: Seq<u64>| #[trigger]
        retained(starts, now, limit.window) == starts.filter(
            |start: u64| now < start + limit.window,
        ) by {
        lemma_retained_is_filter(starts, now, limit.window);
    }
}

} // verus!
