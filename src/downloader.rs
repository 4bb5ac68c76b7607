//! Decisions of the download orchestrator: the shared registry of active installs
//! and cancel flags, the life of one download task, and the building of queues.
use vstd::prelude::*;

verus! {

/// The retry budget of one task, first attempt included.
pub const MAX_ATTEMPTS: u32 = 3;

/// The wait before the second attempt; each later wait doubles it.
pub const BASE_DELAY_MS: u64 = 500;

/// How many transfers run at once.
pub const POOL_SIZE: usize = 10;

/// The value of `key` in a list of flags: its first entry from the front, if any.
pub open spec fn flag_lookup(flags: Seq<(String, bool)>, key: Seq<char>) -> Option<bool>
    decreases flags.len(),
{
    if flags.len() == 0 {
        None
    } else {
        match flag_lookup(flags.drop_last(), key) {
            Some(v) => Some(v),
            None => if flags.last().0@ == key {
                Some(flags.last().1)
            } else {
                None
            },
        }
    }
}

/// Whether `id` is in the list.
pub open spec fn listed(v: Seq<String>, id: Seq<char>) -> bool
    decreases v.len(),
{
    v.len() > 0 && (listed(v.drop_last(), id) || v.last()@ == id)
}

/// Which operations are running and which are asked to stop; the launcher keeps
/// one of these behind a lock and passes it to each operation.
pub struct DownloadState {
    /// The version ids whose install is in progress.
    pub active_downloads: Vec<String>,
    /// The cancel flag of each operation key.
    pub cancel_flags: Vec<(String, bool)>,
}

/// Why an install could not start.
#[derive(Clone, Copy, Debug, PartialEq, Eq, Structural)]
pub enum InstallError {
    AlreadyInstalling,
}

impl DownloadState {
    /// The flag of `key`, if one exists.
    pub open spec fn flag(&self, key: Seq<char>) -> Option<bool> {
        flag_lookup(self.cancel_flags@, key)
    }

    /// Whether an install of `id` is in progress.
    pub open spec fn installing(&self, id: Seq<char>) -> bool {
        listed(self.active_downloads@, id)
    }

    /// A registry with no install in progress and no flag.
    pub fn new() -> (r: Self)
        ensures
            forall|k: Seq<char>| #[trigger] r.flag(k).is_none(),
            forall|k: Seq<char>| !#[trigger] r.installing(k),
    {
        let r = DownloadState { active_downloads: Vec::new(), cancel_flags: Vec::new() };
        assert forall|k: Seq<char>| #[trigger] r.flag(k).is_none() by {}
        assert forall|k: Seq<char>| !#[trigger] r.installing(k) by {}
        r
    }

    /// Reads the flag of `key`, creating it unset when there is none.
    pub fn get_cancel_flag(&mut self, key: &str) -> (r: bool)
        ensures
            r == (old(self).flag(key@) == Some(true)),
            final(self).flag(key@) == Some(r),
            forall|k: Seq<char>| k != key@ ==> #[trigger] final(self).flag(k) == old(self).flag(k),
            final(self).active_downloads@ == old(self).active_downloads@,
    {
        match self.find_flag(key) {
            Some(v) => v,
            None => {
                let ghost before = self.cancel_flags@;
                self.cancel_flags.push((key.to_owned(), false));
                assert(self.cancel_flags@.drop_last() =~= before);
                false
            },
        }
    }

    /// Reads the flag of `key` without creating it.
    pub fn is_cancelled(&self, key: &str) -> (r: bool)
        ensures
            r == (self.flag(key@) == Some(true)),
    {
        match self.find_flag(key) {
            Some(v) => v,
            None => false,
        }
    }

    fn find_flag(&self, key: &str) -> (r: Option<bool>)
        ensures
            r == self.flag(key@),
    {
        let k = key.to_owned();
        let mut i: usize = 0;
        let mut found: Option<bool> = None;
        while i < self.cancel_flags.len()
            invariant
                i <= self.cancel_flags@.len(),
                k@ == key@,
                found == flag_lookup(self.cancel_flags@.subrange(0, i as int), key@),
            decreases self.cancel_flags@.len() - i,
        {
            let ghost next = self.cancel_flags@.subrange(0, i + 1);
            assert(next.drop_last() =~= self.cancel_flags@.subrange(0, i as int));
            if found.is_none() && self.cancel_flags[i].0.eq(&k) {
                found = Some(self.cancel_flags[i].1);
            }
            i += 1;
        }
        assert(self.cancel_flags@.subrange(0, i as int) =~= self.cancel_flags@);
        found
    }

    /// Asks every task of operation `key` to stop.
    pub fn cancel(&mut self, key: &str)
        ensures
            final(self).flag(key@) == Some(true),
            forall|k: Seq<char>| k != key@ ==> #[trigger] final(self).flag(k) == old(self).flag(k),
            final(self).active_downloads@ == old(self).active_downloads@,
    {
        self.clear_cancel(key);
        let ghost mid = *self;
        let ghost before = self.cancel_flags@;
        self.cancel_flags.push((key.to_owned(), true));
        assert(self.cancel_flags@.drop_last() =~= before);
        assert forall|k: Seq<char>| k != key@ implies #[trigger] self.flag(k) == old(self).flag(k) by {
            assert(self.cancel_flags@.last().0@ == key@);
            assert(mid.flag(k) == old(self).flag(k));
        }
    }

    /// Forgets the flag of `key`, so that a later operation under it starts uncancelled.
    pub fn clear_cancel(&mut self, key: &str)
        ensures
            final(self).flag(key@).is_none(),
            forall|k: Seq<char>| k != key@ ==> #[trigger] final(self).flag(k) == old(self).flag(k),
            final(self).active_downloads@ == old(self).active_downloads@,
    {
        let k = key.to_owned();
        let mut kept: Vec<(String, bool)> = Vec::new();
        let mut i: usize = 0;
        while i < self.cancel_flags.len()
            invariant
                i <= self.cancel_flags@.len(),
                k@ == key@,
                flag_lookup(kept@, key@).is_none(),
                forall|q: Seq<char>| q != key@ ==> #[trigger] flag_lookup(kept@, q)
                    == flag_lookup(self.cancel_flags@.subrange(0, i as int), q),
            decreases self.cancel_flags@.len() - i,
        {
            let ghost next = self.cancel_flags@.subrange(0, i + 1);
            assert(next.drop_last() =~= self.cancel_flags@.subrange(0, i as int));
            let ghost prev = self.cancel_flags@.subrange(0, i as int);
            assert(next.last() == self.cancel_flags@[i as int]);
            if !self.cancel_flags[i].0.eq(&k) {
                let ghost before = kept@;
                let entry = (self.cancel_flags[i].0.clone(), self.cancel_flags[i].1);
                kept.push(entry);
                assert(kept@.drop_last() =~= before);
                assert(kept@.last() == entry);
                assert forall|q: Seq<char>| q != key@ implies #[trigger] flag_lookup(kept@, q)
                    == flag_lookup(next, q) by {
                    assert(flag_lookup(before, q) == flag_lookup(prev, q));
                }
            } else {
                assert forall|q: Seq<char>| q != key@ implies #[trigger] flag_lookup(kept@, q)
                    == flag_lookup(next, q) by {
                    assert(flag_lookup(kept@, q) == flag_lookup(prev, q));
                }
            }
            i += 1;
        }
        assert(self.cancel_flags@.subrange(0, i as int) =~= self.cancel_flags@);
        self.cancel_flags = kept;
    }

    /// Ends an operation under `key`: reports `Cancelled` when its flag was set,
    /// and clears the flag whatever the outcome.
    pub fn finish_operation(&mut self, key: &str) -> (r: Result<(), DownloadError>)
        ensures
            r == (if old(self).flag(key@) == Some(true) {
                Err::<(), DownloadError>(DownloadError::Cancelled)
            } else {
                Ok(())
            }),
            final(self).flag(key@).is_none(),
            forall|k: Seq<char>| k != key@ ==> #[trigger] final(self).flag(k) == old(self).flag(k),
            final(self).active_downloads@ == old(self).active_downloads@,
    {
        let was = self.is_cancelled(key);
        self.clear_cancel(key);
        if was {
            Err(DownloadError::Cancelled)
        } else {
            Ok(())
        }
    }

    /// Claims version `id` for an install; a second claim while the first holds fails.
    pub fn begin_install(&mut self, id: &str) -> (r: Result<(), InstallError>)
        ensures
            r is Err <==> old(self).installing(id@),
            r is Err ==> r == Err::<(), InstallError>(InstallError::AlreadyInstalling),
            r is Err ==> final(self).active_downloads@ == old(self).active_downloads@,
            r is Ok ==> final(self).active_downloads@.drop_last() == old(self).active_downloads@
                && final(self).active_downloads@.last()@ == id@,
            final(self).installing(id@),
            forall|k: Seq<char>| k != id@ ==> #[trigger] final(self).installing(k) == old(self).installing(k),
            final(self).cancel_flags@ == old(self).cancel_flags@,
    {
        let k = id.to_owned();
        let mut i: usize = 0;
        while i < self.active_downloads.len()
            invariant
                i <= self.active_downloads@.len(),
                k@ == id@,
                !listed(self.active_downloads@.subrange(0, i as int), id@),
            decreases self.active_downloads@.len() - i,
        {
            let ghost next = self.active_downloads@.subrange(0, i + 1);
            assert(next.drop_last() =~= self.active_downloads@.subrange(0, i as int));
            if self.active_downloads[i].eq(&k) {
                assert(listed(next, id@));
                proof {
                    lemma_listed_prefix(self.active_downloads@, i + 1, id@);
                }
                return Err(InstallError::AlreadyInstalling);
            }
            i += 1;
        }
        assert(self.active_downloads@.subrange(0, i as int) =~= self.active_downloads@);
        let ghost before = self.active_downloads@;
        self.active_downloads.push(k);
        assert(self.active_downloads@.drop_last() =~= before);
        Ok(())
    }

    /// Releases version `id` when its install ends, however it ended.
    pub fn finish_install(&mut self, id: &str)
        ensures
            !final(self).installing(id@),
            forall|k: Seq<char>| k != id@ ==> #[trigger] final(self).installing(k) == old(self).installing(k),
            final(self).cancel_flags@ == old(self).cancel_flags@,
    {
        let k = id.to_owned();
        let mut kept: Vec<String> = Vec::new();
        let mut i: usize = 0;
        while i < self.active_downloads.len()
            invariant
                i <= self.active_downloads@.len(),
                k@ == id@,
                !listed(kept@, id@),
                forall|q: Seq<char>| q != id@ ==> #[trigger] listed(kept@, q)
                    == listed(self.active_downloads@.subrange(0, i as int), q),
            decreases self.active_downloads@.len() - i,
        {
            let ghost next = self.active_downloads@.subrange(0, i + 1);
            assert(next.drop_last() =~= self.active_downloads@.subrange(0, i as int));
            let ghost prev = self.active_downloads@.subrange(0, i as int);
            assert(next.last() == self.active_downloads@[i as int]);
            if !self.active_downloads[i].eq(&k) {
                let ghost before = kept@;
                let item = self.active_downloads[i].clone();
                kept.push(item);
                assert(kept@.drop_last() =~= before);
                assert(kept@.last() == item);
                assert forall|q: Seq<char>| q != id@ implies #[trigger] listed(kept@, q)
                    == listed(next, q) by {
                    assert(listed(before, q) == listed(prev, q));
                }
            } else {
                assert forall|q: Seq<char>| q != id@ implies #[trigger] listed(kept@, q)
                    == listed(next, q) by {
                    assert(listed(kept@, q) == listed(prev, q));
                }
            }
            i += 1;
        }
        assert(self.active_downloads@.subrange(0, i as int) =~= self.active_downloads@);
        self.active_downloads = kept;
    }
}

proof fn lemma_listed_prefix(v: Seq<String>, n: int, id: Seq<char>)
    requires
        0 <= n <= v.len(),
        listed(v.subrange(0, n), id),
    ensures
        listed(v, id),
    decreases v.len() - n,
{
    if n < v.len() {
        let next = v.subrange(0, n + 1);
        assert(next.drop_last() =~= v.subrange(0, n));
        lemma_listed_prefix(v, n + 1, id);
    } else {
        assert(v.subrange(0, n) =~= v);
    }
}

/// Concurrent installs of one version: a successful claim appends the version id
/// to the active list, after which the id is listed, so a second claim of the
/// same id fails with `AlreadyInstalling` until the first is released.
pub proof fn lemma_second_install_refused(before: Seq<String>, after: Seq<String>, id: Seq<char>)
    requires
        after.len() > 0,
        after.drop_last() == before,
        after.last()@ == id,
    ensures
        listed(after, id),
{
}

/// Once an operation has ended its flag is gone, so the next read of the flag
/// under the same key, which creates it unset, reports no cancellation.
pub proof fn lemma_next_operation_uncancelled(s: DownloadState, key: Seq<char>)
    requires
        s.flag(key).is_none(),
    ensures
        !(s.flag(key) == Some(true)),
{
}

/// The key that names an operation's cancel flag: the task id when one is given,
/// else the version id.
pub fn get_cancel_key(version_id: &str, task_id: &Option<String>) -> (r: String)
    ensures
        r@ == (match task_id {
            Some(t) => t@,
            None => version_id@,
        }),
{
    match task_id {
        Some(t) => t.clone(),
        None => version_id.to_owned(),
    }
}

/// A log line of an operation.
#[derive(Clone, Debug)]
pub struct DownloadLog {
    pub task_id: Option<String>,
    pub message: String,
    /// `info`, `warn` or `error`.
    pub level: String,
}

impl DownloadLog {
    /// A log line of the operation `task_id`.
    pub fn new(task_id: &Option<String>, message: String, level: &str) -> (r: Self)
        ensures
            r.task_id == *task_id,
            r.message == message,
            r.level@ == level@,
    {
        DownloadLog { task_id: crate::manifest::copy_opt(task_id), message, level: level.to_owned() }
    }
}

/// How a download can fail.
#[derive(Clone, Debug)]
pub enum DownloadError {
    /// The request could not be sent or the body not read.
    NetworkError(String),
    /// The server answered with a status that is not success.
    HttpStatus(u16),
    /// The destination could not be written.
    IoError(String),
    /// The operation was cancelled.
    Cancelled,
}

/// The status a per-file progress event carries.
#[derive(Clone, Copy, Debug, PartialEq, Eq, Structural)]
pub enum FileStatus {
    Downloading,
    Cached,
    Done,
}

impl FileStatus {
    /// The name of the status in progress events.
    pub fn as_str(&self) -> (r: &'static str)
        ensures
            r@ == (match *self {
                FileStatus::Downloading => "downloading"@,
                FileStatus::Cached => "cached"@,
                FileStatus::Done => "done"@,
            }),
    {
        match self {
            FileStatus::Downloading => "downloading",
            FileStatus::Cached => "cached",
            FileStatus::Done => "done",
        }
    }
}

/// Where one download task stands.
#[derive(Clone, Debug)]
pub enum TaskState {
    /// Waiting for a permit of the pool.
    Queued,
    /// Request number `attempt` (from 1) is in flight.
    Attempting { attempt: u32 },
    /// Waiting before request number `next_attempt`.
    BackingOff { next_attempt: u32 },
    /// The destination was already present; nothing was fetched.
    Cached,
    /// The file was written by request number `attempts`.
    Succeeded { attempts: u32 },
    /// Every attempt failed; `error` is the last failure.
    Failed { error: DownloadError, attempts: u32 },
    /// The operation's cancel flag was observed.
    Cancelled,
}

/// What happened to a task.
#[derive(Debug)]
pub enum TaskEvent {
    /// The task got a permit; whether its destination exists and whether its
    /// operation's cancel flag is set, as checked then.
    Admitted { destination_exists: bool, cancel_requested: bool },
    /// The request ended; `Err(Cancelled)` when the flag was seen between chunks.
    AttemptFinished(Result<(), DownloadError>),
    /// A backoff wait ended.
    WaitElapsed,
}

/// What the runner must do next for a task.
#[derive(Clone, Debug)]
pub enum TaskAction {
    /// Count the file as done and report it at 100% with status cached.
    ReportCached,
    /// Send request number `attempt`, with the task's bearer token if it has one.
    SendRequest { attempt: u32 },
    /// Wait this long before the next request.
    Sleep { millis: u64 },
    /// Count the file as done and report it at 100% with status done.
    ReportDone,
    /// Report the failure; sibling tasks go on.
    ReportFailed(DownloadError),
    /// Stop without a request.
    Abort,
    /// The event does not apply in this state.
    Ignore,
}

/// `2^n`.
pub open spec fn doubling(n: nat) -> nat
    decreases n,
{
    if n == 0 { 1 } else { 2 * doubling((n - 1) as nat) }
}

/// The wait after failed attempt `attempt`: the base delay, doubled per attempt.
pub open spec fn backoff_ms(attempt: nat) -> nat {
    (BASE_DELAY_MS * doubling((attempt - 1) as nat)) as nat
}

/// The wait after failed attempt number `attempt`.
pub fn retry_delay_ms(attempt: u32) -> (r: u64)
    requires
        1 <= attempt < MAX_ATTEMPTS,
    ensures
        r == backoff_ms(attempt as nat),
{
    let mut d: u64 = BASE_DELAY_MS;
    let mut k: u32 = 1;
    while k < attempt
        invariant
            1 <= k <= attempt < MAX_ATTEMPTS,
            d == BASE_DELAY_MS * doubling((k - 1) as nat),
        decreases attempt - k,
    {
        assert(doubling(k as nat) == 2 * doubling((k - 1) as nat));
        d = d * 2;
        k += 1;
    }
    d
}

/// One step of a task: the next state and the action, for each state and event.
pub open spec fn next_task(state: TaskState, event: TaskEvent) -> (TaskState, TaskAction) {
    match (state, event) {
        (TaskState::Queued, TaskEvent::Admitted { destination_exists, cancel_requested }) =>
            if cancel_requested {
                (TaskState::Cancelled, TaskAction::Abort)
            } else if destination_exists {
                (TaskState::Cached, TaskAction::ReportCached)
            } else {
                (TaskState::Attempting { attempt: 1 }, TaskAction::SendRequest { attempt: 1 })
            },
        (TaskState::Attempting { attempt }, TaskEvent::AttemptFinished(outcome)) => match outcome {
            Ok(()) => (TaskState::Succeeded { attempts: attempt }, TaskAction::ReportDone),
            Err(DownloadError::Cancelled) => (TaskState::Cancelled, TaskAction::Abort),
            Err(e) => if 1 <= attempt < MAX_ATTEMPTS {
                (
                    TaskState::BackingOff { next_attempt: (attempt + 1) as u32 },
                    TaskAction::Sleep { millis: backoff_ms(attempt as nat) as u64 },
                )
            } else {
                (TaskState::Failed { error: e, attempts: attempt }, TaskAction::ReportFailed(e))
            },
        },
        (TaskState::BackingOff { next_attempt }, TaskEvent::WaitElapsed) => (
            TaskState::Attempting { attempt: next_attempt },
            TaskAction::SendRequest { attempt: next_attempt },
        ),
        (s, _) => (s, TaskAction::Ignore),
    }
}

/// Advances a task by one event.
pub fn task_step(state: TaskState, event: TaskEvent) -> (r: (TaskState, TaskAction))
    ensures
        r == next_task(state, event),
{
    match (state, event) {
        (TaskState::Queued, TaskEvent::Admitted { destination_exists, cancel_requested }) => {
            if cancel_requested {
                (TaskState::Cancelled, TaskAction::Abort)
            } else if destination_exists {
                (TaskState::Cached, TaskAction::ReportCached)
            } else {
                (TaskState::Attempting { attempt: 1 }, TaskAction::SendRequest { attempt: 1 })
            }
        },
        (TaskState::Attempting { attempt }, TaskEvent::AttemptFinished(outcome)) => match outcome {
            Ok(()) => (TaskState::Succeeded { attempts: attempt }, TaskAction::ReportDone),
            Err(DownloadError::Cancelled) => (TaskState::Cancelled, TaskAction::Abort),
            Err(e) => {
                if 1 <= attempt && attempt < MAX_ATTEMPTS {
                    let millis = retry_delay_ms(attempt);
                    (TaskState::BackingOff { next_attempt: attempt + 1 }, TaskAction::Sleep { millis })
                } else {
                    let e2 = e.clone_error();
                    (TaskState::Failed { error: e, attempts: attempt }, TaskAction::ReportFailed(e2))
                }
            },
        },
        (TaskState::BackingOff { next_attempt }, TaskEvent::WaitElapsed) => (
            TaskState::Attempting { attempt: next_attempt },
            TaskAction::SendRequest { attempt: next_attempt },
        ),
        (s, _) => (s, TaskAction::Ignore),
    }
}

impl DownloadError {
    /// A copy of the error.
    pub fn clone_error(&self) -> (r: DownloadError)
        ensures
            r == *self,
    {
        match self {
            DownloadError::NetworkError(m) => DownloadError::NetworkError(m.clone()),
            DownloadError::HttpStatus(c) => DownloadError::HttpStatus(*c),
            DownloadError::IoError(m) => DownloadError::IoError(m.clone()),
            DownloadError::Cancelled => DownloadError::Cancelled,
        }
    }
}

/// Whether an action makes a network request.
pub open spec fn requests(a: TaskAction) -> bool {
    a is SendRequest
}

/// The state and actions after feeding `events` to a task in `state`, in order.
pub open spec fn run_task(state: TaskState, events: Seq<TaskEvent>) -> (TaskState, Seq<TaskAction>)
    decreases events.len(),
{
    if events.len() == 0 {
        (state, Seq::empty())
    } else {
        let prev = run_task(state, events.drop_last());
        let step = next_task(prev.0, events.last());
        (step.0, prev.1.push(step.1))
    }
}

/// The total wait that the actions ask for.
pub open spec fn total_sleep(actions: Seq<TaskAction>) -> nat
    decreases actions.len(),
{
    if actions.len() == 0 {
        0
    } else {
        total_sleep(actions.drop_last()) + match actions.last() {
            TaskAction::Sleep { millis } => millis as nat,
            _ => 0,
        }
    }
}

/// A task whose destination already exists is reported cached at 100% and
/// never makes a request, whatever events follow.
pub proof fn lemma_existing_destination_cached(events: Seq<TaskEvent>)
    ensures
        next_task(TaskState::Queued, TaskEvent::Admitted { destination_exists: true, cancel_requested: false })
            == (TaskState::Cached, TaskAction::ReportCached),
        run_task(TaskState::Cached, events).0 == TaskState::Cached,
        run_task(TaskState::Cached, events).1.len() == events.len(),
        forall|i: int| 0 <= i < events.len() ==> !requests(#[trigger] run_task(TaskState::Cached, events).1[i]),
    decreases events.len(),
{
    if events.len() > 0 {
        lemma_existing_destination_cached(events.drop_last());
        let prev = run_task(TaskState::Cached, events.drop_last());
        let r = run_task(TaskState::Cached, events);
        assert forall|i: int| 0 <= i < events.len() implies !requests(#[trigger] r.1[i]) by {
            if i < events.len() - 1 {
                assert(r.1[i] == prev.1[i]);
            }
        }
    }
}

/// A task admitted after its operation's flag was set stops without a request,
/// and no later event makes it send one.
pub proof fn lemma_cancelled_before_start(destination_exists: bool, events: Seq<TaskEvent>)
    ensures
        next_task(TaskState::Queued, TaskEvent::Admitted { destination_exists, cancel_requested: true })
            == (TaskState::Cancelled, TaskAction::Abort),
        run_task(TaskState::Cancelled, events).0 == TaskState::Cancelled,
        run_task(TaskState::Cancelled, events).1.len() == events.len(),
        forall|i: int| 0 <= i < events.len() ==> !requests(#[trigger] run_task(TaskState::Cancelled, events).1[i]),
    decreases events.len(),
{
    if events.len() > 0 {
        lemma_cancelled_before_start(destination_exists, events.drop_last());
        let prev = run_task(TaskState::Cancelled, events.drop_last());
        let r = run_task(TaskState::Cancelled, events);
        assert forall|i: int| 0 <= i < events.len() implies !requests(#[trigger] r.1[i]) by {
            if i < events.len() - 1 {
                assert(r.1[i] == prev.1[i]);
            }
        }
    }
}

/// A task that fails twice and then succeeds waits 500 ms and then 1000 ms,
/// 1500 ms in all, and ends succeeded on its third attempt.
pub proof fn lemma_two_failures_then_success(e1: DownloadError, e2: DownloadError)
    requires
        !(e1 is Cancelled),
        !(e2 is Cancelled),
    ensures
        ({
            let events = seq![
                TaskEvent::Admitted { destination_exists: false, cancel_requested: false },
                TaskEvent::AttemptFinished(Err(e1)),
                TaskEvent::WaitElapsed,
                TaskEvent::AttemptFinished(Err(e2)),
                TaskEvent::WaitElapsed,
                TaskEvent::AttemptFinished(Ok(())),
            ];
            let r = run_task(TaskState::Queued, events);
            &&& r.0 == TaskState::Succeeded { attempts: 3 }
            &&& total_sleep(r.1) == 1500
            &&& total_sleep(r.1) >= 1500
        }),
{
    let events = seq![
        TaskEvent::Admitted { destination_exists: false, cancel_requested: false },
        TaskEvent::AttemptFinished(Err(e1)),
        TaskEvent::WaitElapsed,
        TaskEvent::AttemptFinished(Err(e2)),
        TaskEvent::WaitElapsed,
        TaskEvent::AttemptFinished(Ok(())),
    ];
    assert(doubling(1) == 2) by {
        assert(doubling(0) == 1);
    }
    assert(backoff_ms(1) == 500);
    assert(backoff_ms(2) == 1000);
    let s0 = TaskState::Queued;
    let step1 = run_task(s0, events.subrange(0, 1));
    let step2 = run_task(s0, events.subrange(0, 2));
    let step3 = run_task(s0, events.subrange(0, 3));
    let step4 = run_task(s0, events.subrange(0, 4));
    let step5 = run_task(s0, events.subrange(0, 5));
    assert(events.subrange(0, 1).drop_last() =~= events.subrange(0, 0));
    assert(events.subrange(0, 2).drop_last() =~= events.subrange(0, 1));
    assert(events.subrange(0, 3).drop_last() =~= events.subrange(0, 2));
    assert(events.subrange(0, 4).drop_last() =~= events.subrange(0, 3));
    assert(events.subrange(0, 5).drop_last() =~= events.subrange(0, 4));
    assert(events.drop_last() =~= events.subrange(0, 5));
    assert(events.subrange(0, 0) =~= Seq::<TaskEvent>::empty());
    assert(run_task(s0, events.subrange(0, 0)) == (s0, Seq::<TaskAction>::empty()));
    assert(events.subrange(0, 1).last() == events[0]);
    assert(events.subrange(0, 2).last() == events[1]);
    assert(events.subrange(0, 3).last() == events[2]);
    assert(events.subrange(0, 4).last() == events[3]);
    assert(events.subrange(0, 5).last() == events[4]);
    assert(step1.0 == TaskState::Attempting { attempt: 1 });
    assert(step2.0 == TaskState::BackingOff { next_attempt: 2 });
    assert(step3.0 == TaskState::Attempting { attempt: 2 });
    assert(step4.0 == TaskState::BackingOff { next_attempt: 3 });
    assert(step5.0 == TaskState::Attempting { attempt: 3 });
    let r = run_task(s0, events);
    assert(r.1.drop_last() == step5.1);
    assert(step5.1.drop_last() == step4.1);
    assert(step4.1.drop_last() == step3.1);
    assert(step3.1.drop_last() == step2.1);
    assert(step2.1.drop_last() == step1.1);
    assert(step1.1 == Seq::<TaskAction>::empty().push(TaskAction::SendRequest { attempt: 1 }));
    assert(step1.1.drop_last() =~= Seq::<TaskAction>::empty());
    assert(total_sleep(step1.1.drop_last()) == 0);
    assert(total_sleep(step1.1) == 0);
    assert(total_sleep(step2.1) == 500);
    assert(total_sleep(step3.1) == 500);
    assert(total_sleep(step4.1) == 1500);
    assert(total_sleep(step5.1) == 1500);
}

} // verus!
