use maid::daemon_lock::{
    lock_contents, parse_pid, DaemonLock, LockAction, LockError, LockReply, LockRun, LockStage,
};

/// A file that may be there, and the processes that run.
struct Machine {
    file: Option<String>,
    processes: Vec<u32>,
}

impl Machine {
    fn perform(&mut self, action: LockAction) -> LockReply<String> {
        match action {
            LockAction::Nothing => LockReply::Done,
            LockAction::Create { .. } => {
                if self.file.is_some() {
                    LockReply::AlreadyExists
                } else {
                    self.file = Some(String::new());
                    LockReply::Done
                }
            }
            LockAction::Write { pid } => {
                self.file = Some(lock_contents(pid));
                LockReply::Done
            }
            LockAction::Sync => LockReply::Done,
            LockAction::Read { .. } => LockReply::Contents(self.file.clone()),
            LockAction::ProcessExists { pid } => LockReply::Exists(self.processes.contains(&pid)),
            LockAction::Remove { .. } => {
                self.file = None;
                LockReply::Done
            }
        }
    }

    fn acquire(&mut self, pid: u32) -> Result<DaemonLock, LockError<String>> {
        let mut run = LockRun::new("maid.pid".to_string(), pid);
        while run.action() != LockAction::Nothing {
            let reply = self.perform(run.action());
            run = run.on_reply(reply);
        }
        run.into_lock().unwrap()
    }

    fn give_up(&mut self, lock: DaemonLock) {
        if lock.owns(&self.file) {
            self.file = None;
        }
    }
}

#[test]
fn prevents_two_instances_with_the_same_pid_file() {
    let mut machine = Machine {
        file: None,
        processes: vec![7],
    };

    let lock = machine.acquire(7).unwrap();
    let err = machine.acquire(7).unwrap_err();

    assert!(err.message("maid.pid").contains("maid is already running"));
    machine.give_up(lock);
    assert!(machine.file.is_none());
}

#[test]
fn replaces_stale_pid_file() {
    let mut machine = Machine {
        file: Some("999999999".to_string()),
        processes: vec![7],
    };

    let _lock = machine.acquire(7).unwrap();

    assert_eq!(machine.file.unwrap().trim(), "7");
}

#[test]
fn does_not_remove_another_process_pid_file() {
    let mut machine = Machine {
        file: None,
        processes: vec![7],
    };

    let lock = machine.acquire(7).unwrap();
    machine.file = Some("999999999".to_string());
    machine.give_up(lock);

    assert_eq!(machine.file.unwrap().trim(), "999999999");
}

#[test]
fn replaces_a_file_that_names_no_process() {
    let mut machine = Machine {
        file: Some("not a number".to_string()),
        processes: vec![7],
    };

    assert!(machine.acquire(7).is_ok());
}

#[test]
fn written_ids_read_back() {
    for pid in [0, 1, 42, u32::MAX] {
        assert_eq!(lock_contents(pid), format!("{pid}\n"));
        assert_eq!(parse_pid(&Some(lock_contents(pid))), Some(pid));
    }
    assert_eq!(parse_pid(&Some("4294967296".to_string())), None);
    assert_eq!(parse_pid(&Some(String::new())), None);
    assert_eq!(parse_pid(&None), None);
}

#[test]
fn reports_what_could_not_be_done() {
    let at = |stage: LockStage<String>| LockRun {
        path: "p".to_string(),
        pid: 1,
        stage,
    };
    let fail = |stage: LockStage<String>| {
        at(stage)
            .on_reply(LockReply::Failed("e".to_string()))
            .into_lock()
            .unwrap()
            .unwrap_err()
    };

    assert_eq!(fail(LockStage::Create).message("p"), "failed to create p");
    assert_eq!(fail(LockStage::Write).message("p"), "failed to write p");
    assert_eq!(fail(LockStage::Sync).message("p"), "failed to sync p");
    assert_eq!(
        fail(LockStage::RemoveStale).message("p"),
        "failed to remove stale daemon pid file p"
    );
    assert_eq!(
        LockError::<String>::AlreadyRunning { pid: 9 }.message("p"),
        "maid is already running with pid 9"
    );
}
