use maid::task_limit::{
    temp_file_name, FileTaskStartRecorder, NoTaskLimit, TaskLimit, TaskStartDecision,
    TaskStartLedgerFile, TaskStartRecorder, TASK_LIMIT_WINDOW,
};

/// A ledger that is written to a text and read back on every use.
struct Disk {
    contents: Option<String>,
}

impl Disk {
    fn try_record_started(
        &mut self,
        recorder: &FileTaskStartRecorder,
        now: u64,
    ) -> TaskStartDecision {
        let mut ledger = TaskStartLedgerFile {
            started_at_unix_seconds: match &self.contents {
                Some(contents) => serde_json::from_str(contents).unwrap(),
                None => Vec::new(),
            },
        };
        let decision = recorder.record_started(&mut ledger, now);
        self.contents = Some(serde_json::to_string(&ledger.started_at_unix_seconds).unwrap());
        decision
    }
}

#[test]
fn prunes_starts_outside_the_24_hour_window() {
    let mut ledger = TaskStartLedgerFile {
        started_at_unix_seconds: vec![99, 100, 101],
    };

    ledger.retain_window(100 + TASK_LIMIT_WINDOW, TASK_LIMIT_WINDOW);

    assert_eq!(
        ledger.started_at_unix_seconds,
        vec![101],
        "timestamps exactly one window old no longer count"
    );
}

#[test]
fn file_recorder_persists_the_rolling_limit() {
    let mut disk = Disk { contents: None };
    let recorder = FileTaskStartRecorder::new(Some(1), "task-starts.json");

    assert_eq!(
        disk.try_record_started(&recorder, 1000),
        TaskStartDecision::Recorded
    );
    assert_eq!(
        disk.try_record_started(&recorder, 1000),
        TaskStartDecision::AtLimit {
            limit: 1,
            window: TASK_LIMIT_WINDOW
        }
    );

    let reloaded = FileTaskStartRecorder::new(Some(1), "task-starts.json");
    assert_eq!(
        disk.try_record_started(&reloaded, 1000),
        TaskStartDecision::AtLimit {
            limit: 1,
            window: TASK_LIMIT_WINDOW
        }
    );
    assert_eq!(
        disk.try_record_started(&reloaded, 1000 + TASK_LIMIT_WINDOW),
        TaskStartDecision::Recorded
    );
}

#[test]
fn zero_limit_disables_new_starts() {
    let mut disk = Disk { contents: None };
    let recorder = FileTaskStartRecorder::new(Some(0), "task-starts.json");

    assert_eq!(
        disk.try_record_started(&recorder, 1000),
        TaskStartDecision::AtLimit {
            limit: 0,
            window: TASK_LIMIT_WINDOW
        }
    );
}

#[test]
fn no_limit_records_every_start() {
    assert_eq!(
        NoTaskLimit.try_record_started(),
        Ok(TaskStartDecision::Recorded)
    );
    assert_eq!(
        TaskLimit::per_24_hours(3),
        TaskLimit {
            max_started_tasks: 3,
            window: 24 * 60 * 60
        }
    );

    let recorder = FileTaskStartRecorder::new(None, "task-starts.json");
    let mut ledger = TaskStartLedgerFile {
        started_at_unix_seconds: vec![1],
    };
    assert!(!recorder.has_limit());
    assert_eq!(recorder.path(), "task-starts.json");
    assert_eq!(
        recorder.record_started(&mut ledger, 5),
        TaskStartDecision::Recorded
    );
    assert_eq!(ledger.started_at_unix_seconds, vec![1]);
}

#[test]
fn starts_in_any_window_stay_within_the_limit() {
    let recorder = FileTaskStartRecorder::new(Some(2), "task-starts.json");
    let mut ledger = TaskStartLedgerFile {
        started_at_unix_seconds: Vec::new(),
    };
    let mut started: Vec<u64> = Vec::new();
    for now in (0..10 * TASK_LIMIT_WINDOW).step_by(20_000) {
        if recorder.record_started(&mut ledger, now) == TaskStartDecision::Recorded {
            started.push(now);
        }
    }

    assert_eq!(&started[..4], &[0, 20_000, 100_000, 120_000]);
    for first in &started {
        let within = started
            .iter()
            .filter(|start| *first <= **start && **start < first + TASK_LIMIT_WINDOW)
            .count();
        assert!(within <= 2);
    }
}

#[test]
fn temporary_files_are_named_after_the_ledger() {
    assert_eq!(
        temp_file_name(Some("task-starts.json")),
        ".task-starts.json.tmp"
    );
    assert_eq!(temp_file_name(None), ".maid-task-starts.json.tmp");
}
