//! The persisted session record and the decisions of the session lifecycle:
//! whether a record is trusted, whether a start may proceed and what it does
//! first, which input channel attach and send use, and the stop protocol.
use vstd::prelude::*;

verus! {

/// What is persisted about a running session.
pub struct ServerState {
    /// The process that the session waits on.
    pub pid: i32,
    /// The rendezvous endpoint of a shared terminal; `None` for the pipe fallback.
    pub pty_master: Option<Vec<u8>>,
    /// Start time, in seconds since the Unix epoch.
    pub started_at: u64,
    /// The canonical path of the managed directory.
    pub server_dir: Vec<u8>,
}

/// A loaded record after its process has been probed.
pub enum RecordState {
    /// No record, or one that could not be read.
    Absent,
    /// The record's process is alive.
    Running(ServerState),
    /// The record's process is gone; its storage is to be reclaimed.
    Stale(ServerState),
}

/// Errors surfaced to the caller of a lifecycle operation.
#[derive(Debug, PartialEq, Eq, Structural)]
pub enum SessionError {
    /// A start was requested while a live record exists.
    AlreadyRunning,
    /// Attach, send or stop was requested with no live record.
    NotRunning,
}

pub open spec fn classify_spec(record: Option<ServerState>, alive: bool) -> RecordState {
    match record {
        None => RecordState::Absent,
        Some(s) => if alive {
            RecordState::Running(s)
        } else {
            RecordState::Stale(s)
        },
    }
}

/// Decides what a record is worth, given whether its process answered the probe.
pub fn classify(record: Option<ServerState>, alive: bool) -> (r: RecordState)
    ensures
        r == classify_spec(record, alive),
{
    match record {
        None => RecordState::Absent,
        Some(s) => if alive {
            RecordState::Running(s)
        } else {
            RecordState::Stale(s)
        },
    }
}

/// Relies on nix::sys::signal::kill with no signal, which only checks that the
/// process exists and may be signalled. The answer depends on the machine.
#[verifier::external_body]
fn process_alive(pid: i32) -> (r: bool) {
    nix::sys::signal::kill(nix::unistd::Pid::from_raw(pid), None).is_ok()
}

/// Probes the process of a loaded record.
///
/// The caller removes the session's storage when the result is `Stale`.
pub fn is_running(record: Option<ServerState>) -> (r: RecordState)
    ensures
        record is None <==> r is Absent,
        record is Some ==> (r is Running || r is Stale),
        r is Running ==> record == Some(r->Running_0),
        r is Stale ==> record == Some(r->Stale_0),
{
    match record {
        None => RecordState::Absent,
        Some(s) => {
            let alive = process_alive(s.pid);
            classify(Some(s), alive)
        },
    }
}

/// One step of starting a session, in the order performed.
#[derive(Debug, PartialEq, Eq, Structural)]
pub enum StartStep {
    /// Remove everything stored for the target, a stale record included.
    ClearStorage,
    /// Create the target's storage directory.
    CreateStorage,
    /// Allocate the terminal, spawn the program and detach the daemon.
    Launch,
    /// Write the new record in full.
    WriteRecord,
}

pub open spec fn start_steps() -> Seq<StartStep> {
    seq![StartStep::ClearStorage, StartStep::CreateStorage, StartStep::Launch, StartStep::WriteRecord]
}

pub open spec fn start_plan_spec(state: RecordState) -> Result<Seq<StartStep>, SessionError> {
    if state is Running {
        Err(SessionError::AlreadyRunning)
    } else {
        Ok(start_steps())
    }
}

/// The steps of a start request, or the error that refuses it.
pub fn start_plan(state: &RecordState) -> (r: Result<Vec<StartStep>, SessionError>)
    ensures
        r is Ok <==> start_plan_spec(*state) is Ok,
        r is Ok ==> r->Ok_0@ == start_plan_spec(*state)->Ok_0,
        r is Err ==> r->Err_0 == start_plan_spec(*state)->Err_0,
{
    match state {
        RecordState::Running(_) => Err(SessionError::AlreadyRunning),
        _ => {
            let mut v: Vec<StartStep> = Vec::new();
            v.push(StartStep::ClearStorage);
            v.push(StartStep::CreateStorage);
            v.push(StartStep::Launch);
            v.push(StartStep::WriteRecord);
            assert(v@ =~= start_steps());
            Ok(v)
        },
    }
}

/// A start against a record whose process answers is refused with
/// `AlreadyRunning`, and no step that would touch the record or the
/// terminal is taken.
pub proof fn law_start_refused_while_live(record: ServerState)
    ensures
        start_plan_spec(classify_spec(Some(record), true)) == Err::<Seq<StartStep>, SessionError>(
            SessionError::AlreadyRunning,
        ),
{
}

/// A start against a record whose process is gone proceeds, and its first
/// step removes all storage left by the earlier session.
pub proof fn law_start_reclaims_stale(record: ServerState)
    ensures
        start_plan_spec(classify_spec(Some(record), false)) is Ok,
        start_plan_spec(classify_spec(Some(record), false))->Ok_0[0] == StartStep::ClearStorage,
{
}

/// The record of a live session, or `NotRunning`.
pub fn require_running(state: RecordState) -> (r: Result<ServerState, SessionError>)
    ensures
        state is Running <==> r is Ok,
        state is Running ==> r->Ok_0 == state->Running_0,
        r is Err ==> r->Err_0 == SessionError::NotRunning,
{
    match state {
        RecordState::Running(s) => Ok(s),
        _ => Err(SessionError::NotRunning),
    }
}

/// How a session's terminal is reached.
#[derive(Debug, PartialEq, Eq, Structural)]
pub enum SessionMode {
    /// Through the rendezvous endpoint of a shared terminal.
    Shared,
    /// Through the named input pipe and the transcript.
    Pipe,
}

/// The mode that a record describes.
pub fn mode_of(state: &ServerState) -> (m: SessionMode)
    ensures
        (m == SessionMode::Shared) <==> state.pty_master is Some,
{
    match state.pty_master {
        Some(_) => SessionMode::Shared,
        None => SessionMode::Pipe,
    }
}

/// The bytes that send one line of input: the text and a newline.
pub fn input_line(command: &[u8]) -> (r: Vec<u8>)
    ensures
        r@ == command@.push(0x0a),
{
    let mut r: Vec<u8> = Vec::new();
    let mut i: usize = 0;
    while i < command.len()
        invariant
            i <= command@.len(),
            r@ == command@.subrange(0, i as int),
        decreases command@.len() - i,
    {
        r.push(command[i]);
        i = i + 1;
        assert(r@ =~= command@.subrange(0, i as int));
    }
    assert(command@.subrange(0, command@.len() as int) =~= command@);
    r.push(0x0a);
    r
}

/// How many liveness probes a stop request makes before it forces the end.
pub const STOP_POLLS: u32 = 60;

/// What the stop protocol does after one liveness probe.
#[derive(Debug, PartialEq, Eq, Structural)]
pub enum StopAction {
    /// The process still answers: sleep one interval and probe again.
    Wait,
    /// The process has exited: remove the record; the stop was graceful.
    Stopped,
    /// The ceiling has passed: send the forceful termination signal, then
    /// remove the record regardless.
    ForceKill,
}

pub open spec fn stop_step_spec(probes_done: int, alive: bool) -> StopAction {
    if !alive {
        StopAction::Stopped
    } else if probes_done + 1 < STOP_POLLS {
        StopAction::Wait
    } else {
        StopAction::ForceKill
    }
}

/// Whether the stop protocol removes the record after this action.
pub open spec fn removes_record(a: StopAction) -> bool {
    a != StopAction::Wait
}

/// The decision after probe number `probes_done` (counted from zero)
/// reported whether the process is alive.
pub fn stop_step(probes_done: u32, alive: bool) -> (a: StopAction)
    ensures
        a == stop_step_spec(probes_done as int, alive),
{
    if !alive {
        StopAction::Stopped
    } else if probes_done < STOP_POLLS - 1 {
        StopAction::Wait
    } else {
        StopAction::ForceKill
    }
}

/// The action that ends a stop request whose probes observe `alive`,
/// starting from probe number `done`.
pub open spec fn stop_outcome(alive: Seq<bool>, done: int) -> StopAction
    decreases alive.len() - done,
{
    if done < 0 || done >= alive.len() {
        StopAction::Wait
    } else if stop_step_spec(done, alive[done]) == StopAction::Wait {
        stop_outcome(alive, done + 1)
    } else {
        stop_step_spec(done, alive[done])
    }
}

proof fn lemma_stop_outcome_from(alive: Seq<bool>, done: int)
    requires
        alive.len() >= STOP_POLLS,
        0 <= done < STOP_POLLS,
    ensures
        stop_outcome(alive, done) == (if exists|k: int| done <= k < STOP_POLLS && !alive[k] {
            StopAction::Stopped
        } else {
            StopAction::ForceKill
        }),
    decreases STOP_POLLS - done,
{
    if alive[done] && done + 1 < STOP_POLLS {
        lemma_stop_outcome_from(alive, done + 1);
        if exists|k: int| done + 1 <= k < STOP_POLLS && !alive[k] {
            let k = choose|k: int| done + 1 <= k < STOP_POLLS && !alive[k];
            assert(done <= k < STOP_POLLS && !alive[k]);
        }
        if exists|k: int| done <= k < STOP_POLLS && !alive[k] {
            let k = choose|k: int| done <= k < STOP_POLLS && !alive[k];
            assert(k != done);
        }
    } else if !alive[done] {
        assert(done <= done < STOP_POLLS && !alive[done]);
    } else {
        assert forall|k: int| done <= k < STOP_POLLS implies alive[k] by {
            assert(k == done);
        }
    }
}

/// A stop request always ends by removing the record. It ends gracefully
/// when the process is observed gone at one of the first `STOP_POLLS`
/// probes, and with the forceful termination signal when it answers all of them.
pub proof fn law_stop_outcome(alive: Seq<bool>)
    requires
        alive.len() >= STOP_POLLS,
    ensures
        removes_record(stop_outcome(alive, 0)),
        (exists|k: int| 0 <= k < STOP_POLLS && !alive[k]) ==> stop_outcome(alive, 0)
            == StopAction::Stopped,
        (forall|k: int| 0 <= k < STOP_POLLS ==> alive[k]) ==> stop_outcome(alive, 0)
            == StopAction::ForceKill,
{
    lemma_stop_outcome_from(alive, 0);
}

/// The line a stop request sends as ordinary input to ask the program to shut down.
pub fn shutdown_line() -> (r: Vec<u8>)
    ensures
        r@ == seq![0x73u8, 0x74u8, 0x6fu8, 0x70u8, 0x0au8],
{
    let mut r: Vec<u8> = Vec::new();
    r.push(0x73);
    r.push(0x74);
    r.push(0x6f);
    r.push(0x70);
    r.push(0x0a);
    assert(r@ =~= seq![0x73u8, 0x74u8, 0x6fu8, 0x70u8, 0x0au8]);
    r
}

/// What the daemon's main loop observed in one iteration.
pub enum PumpEvent {
    /// The non-blocking reap found the child exited or killed by a signal.
    ChildExited,
    /// The terminal master produced this many bytes.
    Output(usize),
    /// The terminal master reported end of stream.
    EndOfStream,
    /// Nothing to read yet, or the read was interrupted.
    NotReady,
    /// The read failed otherwise.
    ReadFailed,
}

/// What the daemon's main loop does next.
#[derive(Debug, PartialEq, Eq, Structural)]
pub enum PumpAction {
    /// Filter the bytes into the transcript and write them to every client.
    Forward,
    /// Sleep one short interval, then go on.
    Idle,
    /// Leave the loop: close the master, remove the endpoint, exit.
    Shutdown,
}

/// The daemon's decision for one iteration of its main loop: it ends when the
/// child is gone, when the terminal ends, or when reading it fails.
pub fn pump_step(event: &PumpEvent) -> (a: PumpAction)
    ensures
        a == PumpAction::Shutdown <==> (event is ChildExited || event is EndOfStream
            || event is ReadFailed || (event is Output && event->Output_0 == 0)),
        a == PumpAction::Forward <==> (event is Output && event->Output_0 > 0),
        a == PumpAction::Idle <==> event is NotReady,
{
    match event {
        PumpEvent::Output(n) => if *n > 0 {
            PumpAction::Forward
        } else {
            PumpAction::Shutdown
        },
        PumpEvent::NotReady => PumpAction::Idle,
        _ => PumpAction::Shutdown,
    }
}

/// What a status query reports.
#[derive(Debug, PartialEq, Eq, Structural)]
pub enum SessionStatus {
    /// A live session: its process and how its terminal is reached.
    Running { pid: i32, mode: SessionMode },
    /// No live session; a stale record counts as none.
    NotRunning,
}

/// The report of a status query on a probed record.
pub fn status_of(state: &RecordState) -> (r: SessionStatus)
    ensures
        r is NotRunning <==> !(state is Running),
        state is Running ==> r == (SessionStatus::Running {
            pid: state->Running_0.pid,
            mode: if state->Running_0.pty_master is Some {
                SessionMode::Shared
            } else {
                SessionMode::Pipe
            },
        }),
{
    match state {
        RecordState::Running(s) => SessionStatus::Running { pid: s.pid, mode: mode_of(s) },
        _ => SessionStatus::NotRunning,
    }
}

/// How many transcript lines an attaching client is shown first.
pub const HISTORY_LINES: usize = 30;

/// The index of the first of the last `keep` lines out of `total`.
pub fn history_start(total: usize, keep: usize) -> (r: usize)
    ensures
        total >= keep ==> r == total - keep,
        total < keep ==> r == 0,
{
    if total >= keep {
        total - keep
    } else {
        0
    }
}

} // verus!
