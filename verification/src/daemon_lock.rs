//! A lock file that keeps a second instance from starting.
use crate::{numeral, text};
use vstd::prelude::*;

verus! {

/// The process ID in a lock file's contents, where there is one.
pub open spec fn pid_in(contents: Option<Seq<char>>) -> Option<u32> {
    match contents {
        None => None,
        Some(s) => match numeral::numeral_value(text::trimmed(s), u32::MAX as nat) {
            Some(n) => Some(n as u32),
            None => None,
        },
    }
}

pub fn parse_pid(contents: &Option<String>) -> (r: Option<u32>)
    ensures
        r == pid_in(text::opt_view(*contents)),
{
    match contents {
        None => None,
        Some(s) => numeral::parse_u32(text::trim(s.as_str()).as_str()),
    }
}

/// What a process writes into its lock file.
pub open spec fn pid_line(pid: u32) -> Seq<char> {
    numeral::decimal(pid as nat) + "\n"@
}

pub fn lock_contents(pid: u32) -> (r: String)
    ensures
        r@ == pid_line(pid),
{
    text::cat2(numeral::to_decimal(pid as u64).as_str(), "\n")
}

/// A process finds its own ID in the file that it wrote.
pub proof fn law_written_pid_reads_back(pid: u32)
    ensures
        pid_in(Some(pid_line(pid))) == Some(pid),
{
    reveal_strlit("\n");
    let digits = numeral::decimal(pid as nat);
    numeral::lemma_decimal_digits(pid as nat);
    numeral::law_decimal_reads_back(pid as u64);
    assert forall|i: int| 0 <= i < digits.len() implies !text::is_white(#[trigger] digits[i]) by {
        assert(text::is_ascii_digit(digits[i]));
    }
    text::lemma_trim_line(digits);
}

/// A lock that this process holds.
#[derive(Debug, Eq, PartialEq)]
pub struct DaemonLock {
    pub path: String,
    pub pid: u32,
}

impl DaemonLock {
    /// Whether a lock file with these contents is this process's own, and so to be
    /// removed when the lock is given up.
    pub fn owns(&self, contents: &Option<String>) -> (r: bool)
        ensures
            r == (pid_in(text::opt_view(*contents)) == Some(self.pid)),
    {
        match parse_pid(contents) {
            Some(pid) => pid == self.pid,
            None => false,
        }
    }
}

/// What taking the lock wants done next.
#[derive(Debug, Eq, PartialEq)]
pub enum LockAction {
    /// There is nothing left to do.
    Nothing,
    /// Create the file; it must not be there yet.
    Create { path: String },
    /// Write the process ID's line into it.
    Write { pid: u32 },
    /// Flush it to disk.
    Sync,
    Read { path: String },
    ProcessExists { pid: u32 },
    Remove { path: String },
}

/// What came of it; `E` says why it failed.
#[derive(Debug, Eq, PartialEq)]
pub enum LockReply<E> {
    Failed(E),
    Done,
    /// There is a file already.
    AlreadyExists,
    /// The contents, where they could be read.
    Contents(Option<String>),
    Exists(bool),
}

#[derive(Debug, Eq, PartialEq)]
pub enum LockError<E> {
    AlreadyRunning { pid: u32 },
    Create(E),
    Write(E),
    Sync(E),
    Remove(E),
}

impl<E> LockError<E> {
    /// What the error is about, in words.
    pub fn message(&self, path: &str) -> (r: String)
        ensures
            r@ == (match *self {
                LockError::AlreadyRunning { pid } => {
                    "maid is already running with pid "@ + numeral::decimal(pid as nat)
                },
                LockError::Create(_) => "failed to create "@ + path@,
                LockError::Write(_) => "failed to write "@ + path@,
                LockError::Sync(_) => "failed to sync "@ + path@,
                LockError::Remove(_) => "failed to remove stale daemon pid file "@ + path@,
            }),
    {
        match self {
            LockError::AlreadyRunning { pid } => text::cat2(
                "maid is already running with pid ",
                numeral::to_decimal(*pid as u64).as_str(),
            ),
            LockError::Create(_) => text::cat2("failed to create ", path),
            LockError::Write(_) => text::cat2("failed to write ", path),
            LockError::Sync(_) => text::cat2("failed to sync ", path),
            LockError::Remove(_) => text::cat2("failed to remove stale daemon pid file ", path),
        }
    }
}

#[derive(Debug, Eq, PartialEq)]
pub enum LockStage<E> {
    Create,
    Write,
    Sync,
    ReadExisting,
    CheckProcess { pid: u32 },
    RemoveStale,
    Ended(Result<(), LockError<E>>),
}

/// Taking the lock: create the file, or find that it is stale, remove it and try
/// again, or find that another instance runs.
#[derive(Debug, Eq, PartialEq)]
pub struct LockRun<E> {
    pub path: String,
    pub pid: u32,
    pub stage: LockStage<E>,
}

impl<E> LockRun<E> {
    pub open spec fn pending(self) -> LockAction {
        match self.stage {
            LockStage::Create => LockAction::Create { path: self.path },
            LockStage::Write => LockAction::Write { pid: self.pid },
            LockStage::Sync => LockAction::Sync,
            LockStage::ReadExisting => LockAction::Read { path: self.path },
            LockStage::CheckProcess { pid } => LockAction::ProcessExists { pid },
            LockStage::RemoveStale => LockAction::Remove { path: self.path },
            LockStage::Ended(_) => LockAction::Nothing,
        }
    }

    pub open spec fn after(self, reply: LockReply<E>) -> LockRun<E> {
        let stage = match (self.stage, reply) {
            (LockStage::Create, LockReply::Done) => LockStage::Write,
            (LockStage::Create, LockReply::AlreadyExists) => LockStage::ReadExisting,
            (LockStage::Create, LockReply::Failed(error)) => {
                LockStage::Ended(Err(LockError::Create(error)))
            },
            (LockStage::Write, LockReply::Done) => LockStage::Sync,
            (LockStage::Write, LockReply::Failed(error)) => {
                LockStage::Ended(Err(LockError::Write(error)))
            },
            (LockStage::Sync, LockReply::Done) => LockStage::Ended(Ok(())),
            (LockStage::Sync, LockReply::Failed(error)) => {
                LockStage::Ended(Err(LockError::Sync(error)))
            },
            (LockStage::ReadExisting, LockReply::Contents(contents)) => match pid_in(
                text::opt_view(contents),
            ) {
                Some(pid) => LockStage::CheckProcess { pid },
                None => LockStage::RemoveStale,
            },
            (LockStage::CheckProcess { pid }, LockReply::Exists(exists)) => {
                if exists {
                    LockStage::Ended(Err(LockError::AlreadyRunning { pid }))
                } else {
                    LockStage::RemoveStale
                }
            },
            (LockStage::RemoveStale, LockReply::Done) => LockStage::Create,
            (LockStage::RemoveStale, LockReply::Failed(error)) => {
                LockStage::Ended(Err(LockError::Remove(error)))
            },
            (stage, _) => stage,
        };
        LockRun { stage, ..self }
    }

    pub fn new(path: String, pid: u32) -> (r: LockRun<E>)
        ensures
            r == (LockRun::<E> { path, pid, stage: LockStage::Create }),
    {
        LockRun { path, pid, stage: LockStage::Create }
    }

    pub fn action(&self) -> (r: LockAction)
        ensures
            r == self.pending(),
    {
        match &self.stage {
            LockStage::Create => LockAction::Create { path: self.path.clone() },
            LockStage::Write => LockAction::Write { pid: self.pid },
            LockStage::Sync => LockAction::Sync,
            LockStage::ReadExisting => LockAction::Read { path: self.path.clone() },
            LockStage::CheckProcess { pid } => LockAction::ProcessExists { pid: *pid },
            LockStage::RemoveStale => LockAction::Remove { path: self.path.clone() },
            LockStage::Ended(_) => LockAction::Nothing,
        }
    }

    pub fn on_reply(self, reply: LockReply<E>) -> (r: LockRun<E>)
        ensures
            r == self.after(reply),
    {
        let stage = match (self.stage, reply) {
            (LockStage::Create, LockReply::Done) => LockStage::Write,
            (LockStage::Create, LockReply::AlreadyExists) => LockStage::ReadExisting,
            (LockStage::Create, LockReply::Failed(error)) => {
                LockStage::Ended(Err(LockError::Create(error)))
            },
            (LockStage::Write, LockReply::Done) => LockStage::Sync,
            (LockStage::Write, LockReply::Failed(error)) => {
                LockStage::Ended(Err(LockError::Write(error)))
            },
            (LockStage::Sync, LockReply::Done) => LockStage::Ended(Ok(())),
            (LockStage::Sync, LockReply::Failed(error)) => {
                LockStage::Ended(Err(LockError::Sync(error)))
            },
            (LockStage::ReadExisting, LockReply::Contents(contents)) => {
                match parse_pid(&contents) {
                    Some(pid) => LockStage::CheckProcess { pid },
                    None => LockStage::RemoveStale,
                }
            },
            (LockStage::CheckProcess { pid }, LockReply::Exists(exists)) => {
                if exists {
                    LockStage::Ended(Err(LockError::AlreadyRunning { pid }))
                } else {
                    LockStage::RemoveStale
                }
            },
            (LockStage::RemoveStale, LockReply::Done) => LockStage::Create,
            (LockStage::RemoveStale, LockReply::Failed(error)) => {
                LockStage::Ended(Err(LockError::Remove(error)))
            },
            (stage, _) => stage,
        };
        LockRun { path: self.path, pid: self.pid, stage }
    }

    /// The lock, once it is taken.
    pub fn into_lock(self) -> (r: Option<Result<DaemonLock, LockError<E>>>)
        ensures
            match self.stage {
                LockStage::Ended(Ok(())) => r == Some(
                    Ok::<DaemonLock, LockError<E>>(DaemonLock { path: self.path, pid: self.pid }),
                ),
                LockStage::Ended(Err(error)) => r == Some(
                    Err::<DaemonLock, LockError<E>>(error),
                ),
                _ => r is None,
            },
    {
        match self.stage {
            LockStage::Ended(Ok(())) => Some(Ok(DaemonLock { path: self.path, pid: self.pid })),
            LockStage::Ended(Err(error)) => Some(Err(error)),
            _ => None,
        }
    }
}

/// The lock's file is removed only where its contents name no process, or one
/// that does not exist; and the lock is taken only by creating the file oneself.
pub proof fn law_running_instance_keeps_its_lock<E>(run: LockRun<E>, reply: LockReply<E>)
    ensures
        run.after(reply).stage is RemoveStale ==> {
            ||| run.stage is RemoveStale
            ||| run.stage is ReadExisting && (reply matches LockReply::Contents(contents)
                && pid_in(text::opt_view(contents)) is None)
            ||| run.stage is CheckProcess && reply == LockReply::<E>::Exists(false)
        },
        run.after(reply).stage is Write ==> run.stage is Write || (run.stage is Create && reply
            == LockReply::<E>::Done),
        run.after(reply).stage is Sync ==> run.stage is Sync || (run.stage is Write && reply
            == LockReply::<E>::Done),
        run.after(reply).stage == LockStage::<E>::Ended(Ok(())) ==> run.stage is Ended || (
        run.stage is Sync && reply == LockReply::<E>::Done),
        run.stage is CheckProcess && reply == LockReply::<E>::Exists(true) ==> run.after(reply).stage
            == LockStage::<E>::Ended(
            Err(LockError::AlreadyRunning { pid: run.stage->CheckProcess_pid }),
        ),
{
}

/// A lock file names the process whose ID is all that it holds, white space aside.
pub proof fn law_which_process_a_file_names(contents: Seq<char>, pid: u32)
    ensures
        pid_line(pid) == numeral::decimal(pid as nat) + seq!['\n'],
        pid_in(None) is None,
        pid_in(Some(contents)) is Some <==> numeral::numeral_value(
            text::trimmed(contents),
            u32::MAX as nat,
        ) is Some,
        pid_in(Some(contents)) matches Some(named) ==> numeral::numeral_value(
            text::trimmed(contents),
            u32::MAX as nat,
        ) == Some(named as nat),
{
    reveal_strlit("\n");
    assert("\n"@ =~= seq!['\n']);
}

/// A file that is not there yet is created, gets this process's ID and is flushed,
/// and the lock is taken. A failure on the way says at which step it came.
pub proof fn law_how_the_lock_is_taken<E>(run: LockRun<E>, error: E)
    requires
        run.stage == LockStage::<E>::Create,
    ensures
        ({
            let created = run.after(LockReply::Done);
            let written = created.after(LockReply::Done);
            let fail = LockReply::Failed(error);
            &&& run.pending() == (LockAction::Create { path: run.path })
            &&& created.pending() == (LockAction::Write { pid: run.pid })
            &&& written.pending() == LockAction::Sync
            &&& written.after(LockReply::Done).stage == LockStage::<E>::Ended(Ok(()))
            &&& run.after(fail).stage == LockStage::<E>::Ended(Err(LockError::Create(error)))
            &&& created.after(fail).stage == LockStage::<E>::Ended(Err(LockError::Write(error)))
            &&& written.after(fail).stage == LockStage::<E>::Ended(Err(LockError::Sync(error)))
        }),
{
}

/// A file that is there already is read. Where it names a process that runs, this one
/// does not start; where that process is gone, or none is named, the file is removed,
/// and the lock is tried for again.
pub proof fn law_what_an_existing_lock_leads_to<E>(
    run: LockRun<E>,
    contents: Option<String>,
    error: E,
)
    requires
        run.stage == LockStage::<E>::Create,
    ensures
        ({
            let read = run.after(LockReply::AlreadyExists);
            let known = read.after(LockReply::Contents(contents));
            &&& read.pending() == (LockAction::Read { path: run.path })
            &&& pid_in(text::opt_view(contents)) matches Some(pid) ==> {
                &&& known.pending() == (LockAction::ProcessExists { pid })
                &&& known.after(LockReply::Exists(true)).stage == LockStage::<E>::Ended(
                    Err(LockError::AlreadyRunning { pid }),
                )
                &&& known.after(LockReply::Exists(false)).pending() == (LockAction::Remove {
                    path: run.path,
                })
                &&& known.after(LockReply::Exists(false)).after(LockReply::Done) == run
            }
            &&& pid_in(text::opt_view(contents)) is None ==> {
                &&& known.pending() == (LockAction::Remove { path: run.path })
                &&& known.after(LockReply::Done) == run
                &&& known.after(LockReply::Failed(error)).stage == LockStage::<E>::Ended(
                    Err(LockError::Remove(error)),
                )
            }
        }),
{
}

/// Taking the lock goes on only with a reply to what was asked for, and once it has
/// ended nothing changes it. Its file and its process stay the same.
pub proof fn law_locking_goes_on_with_answers_only<E>(run: LockRun<E>, reply: LockReply<E>)
    ensures
        ({
            let answered = match run.pending() {
                LockAction::Nothing => false,
                LockAction::Create { .. } => reply is Done || reply is AlreadyExists
                    || reply is Failed,
                LockAction::Write { .. } => reply is Done || reply is Failed,
                LockAction::Sync => reply is Done || reply is Failed,
                LockAction::Read { .. } => reply is Contents,
                LockAction::ProcessExists { .. } => reply is Exists,
                LockAction::Remove { .. } => reply is Done || reply is Failed,
            };
            !answered ==> run.after(reply) == run
        }),
        run.stage is Ended ==> run.after(reply) == run && run.pending() is Nothing,
        run.after(reply).path == run.path,
        run.after(reply).pid == run.pid,
{
}

/// A lock that was taken names its file and its process; a failure stays what it is.
pub proof fn law_what_a_lock_is<E>(
    path: String,
    pid: u32,
    begun: LockRun<E>,
    run: LockRun<E>,
    r: Option<Result<DaemonLock, LockError<E>>>,
)
    requires
        call_ensures(LockRun::<E>::new, (path, pid), begun),
        call_ensures(LockRun::<E>::into_lock, (run,), r),
    ensures
        begun.pending() == (LockAction::Create { path }),
        begun.path == path && begun.pid == pid,
        r is None <==> run.stage !is Ended,
        run.stage == LockStage::<E>::Ended(Ok(())) ==> (r matches Some(Ok(lock)) && lock.path
            == run.path && lock.pid == run.pid),
        run.stage matches LockStage::Ended(Err(error)) ==> r == Some(
            Err::<DaemonLock, LockError<E>>(error),
        ),
{
}

/// A lock is the daemon's own as long as its file names the daemon's process. Why a
/// lock was not taken is said with the file or the process in the way.
pub proof fn law_what_is_said_of_a_lock<E>(
    lock: &DaemonLock,
    contents: &Option<String>,
    own: bool,
    error: &LockError<E>,
    path: &str,
    message: String,
)
    requires
        call_ensures(DaemonLock::owns, (lock, contents), own),
        call_ensures(LockError::<E>::message, (error, path), message),
    ensures
        own <==> pid_in(text::opt_view(*contents)) == Some(lock.pid),
        *error matches LockError::AlreadyRunning { pid } ==> message@
            == "maid is already running with pid "@ + numeral::decimal(pid as nat),
        *error is Create ==> message@ == "failed to create "@ + path@,
        *error is Write ==> message@ == "failed to write "@ + path@,
        *error is Sync ==> message@ == "failed to sync "@ + path@,
        *error is Remove ==> message@ == "failed to remove stale daemon pid file "@ + path@,
{
}

} // verus!
