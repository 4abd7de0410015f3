//! Execution of one command: from the command line to the program and its
//! arguments, and the course of a run from spawn to termination.
//!
//! The library decides; the caller acts. A [`Session`] says which action it
//! awaits, the caller performs it and reports what happened as an
//! [`Event`], and [`Session::step`] gives the session that follows.

use vstd::prelude::*;
use crate::benchmark::run_statistic;
use crate::error::LensError;
use crate::linux::PollBased;
use crate::linux::Snapshot;
use crate::linux::SnapshotView;
use crate::monitor::Monitor;
use crate::process::ProcessInfo;
use crate::process::ProcessView;
use crate::process::StatView;
use crate::text::text_view;

verus! {

/// The error of `shell_words::split`: a quote that is never closed. It
/// carries nothing.
#[verifier::external_type_specification]
#[verifier::external_body]
pub struct ExParseError(shell_words::ParseError);

/// The words into which `shell_words::split` splits a command line, or
/// `None` where it reports a quote that is never closed.
pub uninterp spec fn shell_split(line: Seq<char>) -> Option<Seq<Seq<char>>>;

/// `shell_words::split` splits a command line into words as a POSIX shell
/// does, without expansions. Its result depends on the line alone; of the
/// empty line it makes no word.
pub assume_specification[ shell_words::split ](s: &str) -> (r: Result<
    Vec<String>,
    shell_words::ParseError,
>)
    ensures
        match r {
            Ok(words) => shell_split(s@) == Some(words.deep_view()),
            Err(_) => shell_split(s@) is None,
        },
        s@.len() == 0 ==> r is Ok && r->Ok_0@.len() == 0,
;

/// A program and the arguments to start it with.
#[derive(Debug, Clone, PartialEq, Eq)]
pub struct Invocation {
    pub program: String,
    pub args: Vec<String>,
}

/// Mathematical model of an [`Invocation`].
pub struct InvocationView {
    pub program: Seq<char>,
    pub args: Seq<Seq<char>>,
}

impl View for Invocation {
    type V = InvocationView;

    open spec fn view(&self) -> InvocationView {
        InvocationView { program: self.program@, args: self.args.deep_view() }
    }
}

/// The invocation that the words of a command line make: the first word is
/// the program, the others are its arguments. There is none where the line
/// could not be split or has no word.
pub open spec fn invocation_of(words: Option<Seq<Seq<char>>>) -> Option<InvocationView> {
    match words {
        Some(words) if words.len() > 0 => Some(
            InvocationView { program: words[0], args: words.subrange(1, words.len() as int) },
        ),
        _ => None,
    }
}

/// The words of a split command line, or `None` where splitting failed.
pub open spec fn split_view(split: Result<Vec<String>, shell_words::ParseError>) -> Option<
    Seq<Seq<char>>,
> {
    match split {
        Ok(words) => Some(words.deep_view()),
        Err(_) => None,
    }
}

impl Invocation {
    /// Makes the invocation of a split command line.
    ///
    /// Fails with `InvalidCommand` exactly when splitting failed or gave no
    /// word.
    pub fn from_words(split: Result<Vec<String>, shell_words::ParseError>) -> (r: Result<
        Invocation,
        LensError,
    >)
        ensures
            match r {
                Ok(invocation) => invocation_of(split_view(split)) == Some(invocation@),
                Err(e) => e == LensError::InvalidCommand && invocation_of(split_view(split))
                    is None,
            },
    {
        let mut words = match split {
            Ok(words) => words,
            Err(_) => {
                return Err(LensError::InvalidCommand);
            },
        };
        if words.len() == 0 {
            return Err(LensError::InvalidCommand);
        }
        let ghost all = words.deep_view();
        let program = words.remove(0);
        assert(words.deep_view() =~= all.subrange(1, all.len() as int));
        Ok(Invocation { program, args: words })
    }
}

/// Where a run stands.
#[derive(Debug, Clone, Copy, PartialEq, Eq, Structural)]
pub enum RunState {
    /// The program has not been started yet.
    Spawning,
    /// The program runs and is being sampled.
    Running,
    /// The program has terminated; the record is complete.
    Completed,
    /// The program could not be started.
    Failed,
}

/// What a session awaits of its caller.
#[derive(Debug, Clone, Copy, PartialEq, Eq, Structural)]
pub enum Action {
    /// Start the program, with its standard input closed, its standard
    /// output discarded and its standard error inherited.
    Spawn,
    /// Check, without blocking, whether the program has terminated.
    Poll,
    /// Read the accounting files of the process `pid`.
    Scan { pid: u32 },
    /// Nothing more: the session has ended.
    Done,
}

/// What the caller reports to a session. Times are nanoseconds on the
/// caller's monotonic clock.
#[derive(Debug, Clone)]
pub enum Event {
    /// The program was started at time `at`, as process `pid` where the
    /// system told.
    Spawned { pid: Option<u32>, at: u64 },
    /// The system refused to start the program, for `reason`.
    SpawnFailed { reason: String },
    /// The program has not been seen to terminate.
    Alive,
    /// The program was seen at time `at` to have terminated, with exit code
    /// `status` where it has one.
    Exited { status: Option<i32>, at: u64 },
    /// The accounting files held `snapshot`.
    Scanned { snapshot: Snapshot },
}

/// One run in progress.
#[derive(Debug, Clone)]
pub struct Session {
    state: RunState,
    pending: Action,
    info: ProcessInfo,
    monitor: PollBased,
    failure: Option<String>,
}

/// Mathematical model of a [`Session`].
pub struct SessionView {
    /// Where the run stands.
    pub state: RunState,
    /// The action that the session awaits.
    pub pending: Action,
    /// The record of the run so far.
    pub info: ProcessView,
    /// The process that the sampler is bound to.
    pub sampler: u32,
    /// Why the program could not be started, where it could not.
    pub failure: Option<Seq<char>>,
}

impl SessionView {
    /// The session of a run of `invocation` that has not been started.
    pub open spec fn start(invocation: InvocationView) -> SessionView {
        SessionView {
            state: RunState::Spawning,
            pending: Action::Spawn,
            info: ProcessView {
                command: Some(invocation.program),
                args: invocation.args,
                ..ProcessView::empty()
            },
            sampler: 0,
            failure: None,
        }
    }

    /// The session that follows when `event` is reported.
    ///
    /// An event that does not answer the awaited action changes nothing.
    /// - Awaiting `Spawn`: `Spawned` records the process and the start time
    ///   and binds the sampler; `SpawnFailed` ends the session as failed.
    /// - Awaiting `Poll`: `Alive` asks for a scan; `Exited` records the exit
    ///   code, the end time (never before the start) and the duration, and
    ///   ends the session as completed.
    /// - Awaiting `Scan`: `Scanned` takes in one scan of the snapshot and
    ///   asks for the next poll.
    pub open spec fn step(self, event: Event) -> SessionView {
        match (self.pending, event) {
            (Action::Spawn, Event::Spawned { pid, at }) => SessionView {
                state: RunState::Running,
                pending: Action::Poll,
                info: ProcessView {
                    pid: pid.unwrap_or(0),
                    start_time: Some(at),
                    ..self.info
                },
                sampler: pid.unwrap_or(0),
                failure: self.failure,
            },
            (Action::Spawn, Event::SpawnFailed { reason }) => SessionView {
                state: RunState::Failed,
                pending: Action::Done,
                failure: Some(reason@),
                ..self
            },
            (Action::Poll, Event::Alive) => SessionView {
                pending: Action::Scan { pid: self.sampler },
                ..self
            },
            (Action::Poll, Event::Exited { status, at }) => {
                let start = self.info.start_time.unwrap_or(at);
                let end = if at < start {
                    start
                } else {
                    at
                };
                SessionView {
                    state: RunState::Completed,
                    pending: Action::Done,
                    info: ProcessView {
                        status,
                        start_time: Some(start),
                        end_time: Some(end),
                        duration: Some((end - start) as u64),
                        ..self.info
                    },
                    ..self
                }
            },
            (Action::Scan { .. }, Event::Scanned { snapshot }) => SessionView {
                pending: Action::Poll,
                info: snapshot@.scanned(self.info),
                ..self
            },
            _ => self,
        }
    }

    /// The session after one round of sampling: a poll that finds the
    /// program alive, and a scan that finds `snapshot`.
    pub open spec fn round(self, snapshot: Snapshot) -> SessionView {
        self.step(Event::Alive).step(Event::Scanned { snapshot })
    }

    /// The session after one round of sampling for each of `snapshots`, in
    /// order.
    pub open spec fn rounds(self, snapshots: Seq<Snapshot>) -> SessionView
        decreases snapshots.len(),
    {
        if snapshots.len() == 0 {
            self
        } else {
            self.rounds(snapshots.drop_last()).round(snapshots.last())
        }
    }

    /// Whether the session samples: it runs and awaits a poll.
    pub open spec fn sampling(self) -> bool {
        self.wf() && self.state == RunState::Running && self.pending == Action::Poll
    }

    /// How the run ended: its record where it completed, the failure where
    /// the program could not be started, nothing while it has not ended.
    pub open spec fn outcome(self) -> Option<Result<ProcessView, Seq<char>>> {
        match self.state {
            RunState::Completed => Some(Ok(self.info)),
            RunState::Failed => match self.failure {
                Some(reason) => Some(Err(reason)),
                None => Some(Err(Seq::empty())),
            },
            _ => None,
        }
    }

    /// State, awaited action and record agree:
    /// - before the spawn, the session awaits it and holds no time and no
    ///   sample;
    /// - while running, it awaits a poll or a scan of the process it
    ///   sampled, and holds the start time but no end;
    /// - once completed, it awaits nothing and holds start, end and their
    ///   difference;
    /// - once failed, it awaits nothing and holds the reason.
    pub open spec fn wf(self) -> bool {
        &&& self.info.wf()
        &&& match self.state {
            RunState::Spawning => {
                &&& self.pending == Action::Spawn
                &&& self.info.start_time is None
                &&& self.info.end_time is None
                &&& self.info.stat == StatView::empty()
                &&& self.failure is None
            },
            RunState::Running => {
                &&& self.pending == Action::Poll || self.pending == (Action::Scan {
                    pid: self.sampler,
                })
                &&& self.sampler == self.info.pid
                &&& self.info.start_time is Some
                &&& self.info.end_time is None
                &&& self.failure is None
            },
            RunState::Completed => {
                &&& self.pending == Action::Done
                &&& self.info.end_time is Some
                &&& self.failure is None
            },
            RunState::Failed => {
                &&& self.pending == Action::Done
                &&& self.info.start_time is None
                &&& self.info.end_time is None
                &&& self.info.stat == StatView::empty()
                &&& self.failure is Some
            },
        }
    }
}

impl View for Session {
    type V = SessionView;

    closed spec fn view(&self) -> SessionView {
        SessionView {
            state: self.state,
            pending: self.pending,
            info: self.info@,
            sampler: self.monitor.pid,
            failure: text_view(self.failure),
        }
    }
}

impl Session {
    /// The session of a run of `invocation` that has not been started.
    pub fn new(invocation: Invocation) -> (session: Self)
        ensures
            session@ == SessionView::start(invocation@),
            session@.wf(),
    {
        let Invocation { program, args } = invocation;
        let mut info = ProcessInfo::new();
        info.command = Some(program);
        info.args = args;
        Session {
            state: RunState::Spawning,
            pending: Action::Spawn,
            info,
            monitor: PollBased::new(0),
            failure: None,
        }
    }

    /// Where the run stands.
    pub fn state(&self) -> (state: RunState)
        ensures
            state == self@.state,
    {
        self.state
    }

    /// The action that the session awaits.
    pub fn action(&self) -> (action: Action)
        ensures
            action == self@.pending,
    {
        self.pending
    }

    /// The record of the run so far.
    pub fn info(&self) -> (info: &ProcessInfo)
        ensures
            info@ == self@.info,
    {
        &self.info
    }

    /// The session that follows when `event` is reported.
    pub fn step(self, event: Event) -> (next: Session)
        ensures
            next@ == self@.step(event),
            self@.wf() ==> next@.wf(),
    {
        let Session { state, pending, info, monitor, failure } = self;
        match pending {
            Action::Spawn => match event {
                Event::Spawned { pid, at } => {
                    let pid = pid.unwrap_or(0);
                    let mut info = info;
                    info.pid = pid;
                    info.start_time = Some(at);
                    Session {
                        state: RunState::Running,
                        pending: Action::Poll,
                        info,
                        monitor: PollBased::new(pid),
                        failure,
                    }
                },
                Event::SpawnFailed { reason } => Session {
                    state: RunState::Failed,
                    pending: Action::Done,
                    info,
                    monitor,
                    failure: Some(reason),
                },
                _ => Session { state, pending, info, monitor, failure },
            },
            Action::Poll => match event {
                Event::Alive => Session {
                    state,
                    pending: Action::Scan { pid: monitor.pid },
                    info,
                    monitor,
                    failure,
                },
                Event::Exited { status, at } => {
                    let start = info.start_time.unwrap_or(at);
                    let end = if at < start {
                        start
                    } else {
                        at
                    };
                    let mut info = info;
                    info.status = status;
                    info.start_time = Some(start);
                    info.end_time = Some(end);
                    info.duration = Some(end - start);
                    Session {
                        state: RunState::Completed,
                        pending: Action::Done,
                        info,
                        monitor,
                        failure,
                    }
                },
                _ => Session { state, pending, info, monitor, failure },
            },
            Action::Scan { .. } => match event {
                Event::Scanned { snapshot } => {
                    let mut info = info;
                    let mut monitor = monitor;
                    monitor.load(snapshot);
                    monitor.scan(&mut info);
                    Session { state, pending: Action::Poll, info, monitor, failure }
                },
                _ => Session { state, pending, info, monitor, failure },
            },
            Action::Done => Session { state, pending, info, monitor, failure },
        }
    }

    /// How the run ended: its record where it completed, `SpawnFailed` where
    /// the program could not be started, nothing while it has not ended.
    pub fn outcome(self) -> (r: Option<Result<ProcessInfo, LensError>>)
        ensures
            match r {
                Some(Ok(info)) => self@.outcome() == Some(
                    Ok::<ProcessView, Seq<char>>(info@),
                ),
                Some(Err(e)) => e matches LensError::SpawnFailed(reason) && self@.outcome()
                    == Some(Err::<ProcessView, Seq<char>>(reason@)),
                None => self@.outcome() is None,
            },
    {
        match self.state {
            RunState::Completed => Some(Ok(self.info)),
            RunState::Failed => match self.failure {
                Some(reason) => Some(Err(LensError::SpawnFailed(reason))),
                None => Some(Err(LensError::SpawnFailed(String::new()))),
            },
            _ => None,
        }
    }
}

/// Whether every read of a scan of `snapshot` succeeds: it gives a CPU
/// reading whose sum fits 64 bits, a memory reading, a disk reading, and the
/// byte counts of `interfaces` interfaces.
pub open spec fn complete(snapshot: SnapshotView, interfaces: nat) -> bool {
    &&& snapshot.cpu() matches Some((user, system)) && user + system <= u64::MAX
    &&& snapshot.memory() is Some
    &&& snapshot.network().len() == interfaces
    &&& snapshot.disk() is Some
}

/// The CPU reading of the last of `snapshots` that gives one whose sum fits
/// 64 bits.
pub open spec fn last_cpu_reading(snapshots: Seq<Snapshot>) -> Option<(u64, u64)>
    decreases snapshots.len(),
{
    if snapshots.len() == 0 {
        None
    } else {
        match snapshots.last()@.cpu() {
            Some((user, system)) if user + system <= u64::MAX => Some((user, system)),
            _ => last_cpu_reading(snapshots.drop_last()),
        }
    }
}

/// Whether a scan of `snapshot` appends nothing: it gives no memory, no
/// network and no disk reading.
pub open spec fn silent(snapshot: SnapshotView) -> bool {
    &&& snapshot.memory() is None
    &&& snapshot.network().len() == 0
    &&& snapshot.disk() is None
}

/// Every step keeps state, awaited action and record in agreement.
pub proof fn lemma_step_keeps_wf(session: SessionView, event: Event)
    requires
        session.wf(),
    ensures
        session.step(event).wf(),
{
}

/// No step changes the command or its arguments, and only the spawn sets
/// the process.
pub proof fn lemma_step_keeps_command(session: SessionView, event: Event)
    ensures
        session.step(event).info.command == session.info.command,
        session.step(event).info.args == session.info.args,
        session.pending != Action::Spawn ==> session.step(event).info.pid == session.info.pid,
{
}

/// The two sources of events write apart: a scan changes nothing but the
/// samples, and the exit changes no sample.
pub proof fn lemma_step_writes_apart(session: SessionView, event: Event)
    ensures
        event is Scanned ==> session.step(event).info == session.info.with_stat(
            session.step(event).info.stat,
        ),
        event is Exited ==> session.step(event).info.stat == session.info.stat,
{
}

/// A session that has ended stays as it is, whatever is reported to it.
pub proof fn lemma_ended_session_is_final(session: SessionView, event: Event)
    requires
        session.pending == Action::Done,
    ensures
        session.step(event) == session,
{
}

/// A run whose program terminates before any scan completes is a completed
/// run with a duration and without any sample, and it has no statistic.
pub proof fn lemma_exit_before_first_scan(
    invocation: InvocationView,
    pid: Option<u32>,
    started: u64,
    status: Option<i32>,
    ended: u64,
)
    ensures
        ({
            let end = SessionView::start(invocation).step(Event::Spawned { pid, at: started }).step(
                Event::Exited { status, at: ended },
            );
            &&& end.wf()
            &&& end.state == RunState::Completed
            &&& end.outcome() == Some(Ok::<ProcessView, Seq<char>>(end.info))
            &&& end.info.status == status
            &&& end.info.duration == Some(
                if ended < started {
                    0u64
                } else {
                    (ended - started) as u64
                },
            )
            &&& end.info.stat == StatView::empty()
            &&& run_statistic(end.info) is None
        }),
{
}

/// Sampling appends at most one entry per scan to the memory, bytes-read
/// and bytes-written sequences, and as many entries to the received as to
/// the transmitted sequence. Nothing that was sampled is lost or changed,
/// and nothing but the samples changes. The CPU fields hold the reading of
/// the last scan that gave one, and are as before where none did.
pub proof fn lemma_rounds_grow(session: SessionView, snapshots: Seq<Snapshot>)
    requires
        session.sampling(),
    ensures
        ({
            let before = session.info.stat;
            let end = session.rounds(snapshots);
            let after = end.info.stat;
            &&& end.sampling()
            &&& end.info == session.info.with_stat(after)
            &&& before.memory_kb.is_prefix_of(after.memory_kb)
            &&& before.read_bytes.is_prefix_of(after.read_bytes)
            &&& before.write_bytes.is_prefix_of(after.write_bytes)
            &&& before.received.is_prefix_of(after.received)
            &&& before.transmitted.is_prefix_of(after.transmitted)
            &&& after.memory_kb.len() <= before.memory_kb.len() + snapshots.len()
            &&& after.read_bytes.len() <= before.read_bytes.len() + snapshots.len()
            &&& after.read_bytes.len() - before.read_bytes.len() == after.write_bytes.len()
                - before.write_bytes.len()
            &&& after.received.len() - before.received.len() == after.transmitted.len()
                - before.transmitted.len()
            &&& match last_cpu_reading(snapshots) {
                Some((user, system)) => {
                    &&& after.utime == user
                    &&& after.stime == system
                    &&& after.total_time == user + system
                },
                None => {
                    &&& after.utime == before.utime
                    &&& after.stime == before.stime
                    &&& after.total_time == before.total_time
                },
            }
        }),
    decreases snapshots.len(),
{
    if snapshots.len() > 0 {
        lemma_rounds_grow(session, snapshots.drop_last());
    }
}

/// A run whose every read succeeds holds, per scan, one more entry in the
/// memory and in the two disk sequences and one more entry per interface in
/// the two network sequences, and in its CPU fields the reading of the last
/// scan. With one interface all the sequences grow alike.
pub proof fn lemma_complete_rounds(
    session: SessionView,
    snapshots: Seq<Snapshot>,
    interfaces: nat,
)
    requires
        session.sampling(),
        forall|i: int|
            0 <= i < snapshots.len() ==> complete(#[trigger] snapshots[i]@, interfaces),
    ensures
        ({
            let before = session.info.stat;
            let after = session.rounds(snapshots).info.stat;
            let n = snapshots.len();
            &&& after.memory_kb.len() == before.memory_kb.len() + n
            &&& after.received.len() == before.received.len() + n * interfaces
            &&& after.transmitted.len() == before.transmitted.len() + n * interfaces
            &&& after.read_bytes.len() == before.read_bytes.len() + n
            &&& after.write_bytes.len() == before.write_bytes.len() + n
            &&& n > 0 ==> {
                &&& Some((after.utime, after.stime)) == snapshots.last()@.cpu()
                &&& after.total_time == after.utime + after.stime
            }
        }),
    decreases snapshots.len(),
{
    if snapshots.len() > 0 {
        let front = snapshots.drop_last();
        assert forall|i: int| 0 <= i < front.len() implies complete(
            #[trigger] front[i]@,
            interfaces,
        ) by {
            assert(front[i] == snapshots[i]);
        }
        lemma_complete_rounds(session, front, interfaces);
        lemma_rounds_grow(session, front);
        assert(complete(snapshots[snapshots.len() - 1]@, interfaces));
        assert(snapshots.len() * interfaces == front.len() * interfaces + interfaces)
            by (nonlinear_arith)
            requires
                snapshots.len() == front.len() + 1,
        ;
    } else {
        assert(snapshots.len() * interfaces == 0) by (nonlinear_arith)
            requires
                snapshots.len() == 0,
        ;
    }
}

/// A run whose every read succeeds until the program exits holds sample
/// sequences whose lengths differ by one at most: where the first `exit`
/// scans are complete, the scan after them reads at most one interface, and
/// every later scan appends nothing, each sequence has grown by `exit` or
/// by `exit + 1` entries.
pub proof fn lemma_rounds_until_exit(session: SessionView, snapshots: Seq<Snapshot>, exit: int)
    requires
        session.sampling(),
        0 <= exit <= snapshots.len(),
        forall|i: int| 0 <= i < exit ==> complete(#[trigger] snapshots[i]@, 1),
        forall|i: int| exit < i < snapshots.len() ==> silent(#[trigger] snapshots[i]@),
        exit < snapshots.len() ==> snapshots[exit]@.network().len() <= 1,
    ensures
        ({
            let before = session.info.stat;
            let after = session.rounds(snapshots).info.stat;
            &&& exit <= after.memory_kb.len() - before.memory_kb.len() <= exit + 1
            &&& exit <= after.received.len() - before.received.len() <= exit + 1
            &&& exit <= after.transmitted.len() - before.transmitted.len() <= exit + 1
            &&& exit <= after.read_bytes.len() - before.read_bytes.len() <= exit + 1
            &&& exit <= after.write_bytes.len() - before.write_bytes.len() <= exit + 1
        }),
    decreases snapshots.len(),
{
    if snapshots.len() == exit {
        lemma_complete_rounds(session, snapshots, 1);
    } else {
        let front = snapshots.drop_last();
        assert forall|i: int| 0 <= i < front.len() implies front[i] == snapshots[i] by {}
        lemma_rounds_grow(session, front);
        if front.len() == exit {
            lemma_complete_rounds(session, front, 1);
        } else {
            lemma_rounds_until_exit(session, front, exit);
            assert(silent(snapshots[snapshots.len() - 1]@));
        }
    }
}

/// Runs one command line.
#[derive(Debug, Clone)]
pub struct Executor {
    command: String,
}

impl Executor {
    /// An executor of the command line `command`.
    pub fn new(command: String) -> (executor: Self)
        ensures
            executor.line() == command@,
    {
        Self { command }
    }

    /// The command line.
    pub closed spec fn line(&self) -> Seq<char> {
        self.command@
    }

    /// The command line.
    pub fn command(&self) -> (command: &String)
        ensures
            command@ == self.line(),
    {
        &self.command
    }

    /// Begins an execution: splits the command line into the program and
    /// its arguments and returns the session that awaits the spawn.
    ///
    /// Fails with `InvalidCommand` exactly when the line cannot be split or
    /// has no word; the empty line is such a line.
    pub fn execute(&self) -> (r: Result<Session, LensError>)
        ensures
            match r {
                Ok(session) => invocation_of(shell_split(self.line())) matches Some(invocation)
                    && session@ == SessionView::start(invocation) && session@.wf(),
                Err(e) => e == LensError::InvalidCommand && invocation_of(
                    shell_split(self.line()),
                ) is None,
            },
            self.line().len() == 0 ==> r is Err,
    {
        let split = shell_words::split(self.command.as_str());
        match Invocation::from_words(split) {
            Ok(invocation) => Ok(Session::new(invocation)),
            Err(e) => Err(e),
        }
    }
}

} // verus!
