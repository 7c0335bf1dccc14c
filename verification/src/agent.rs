//! The guest agent's side of the exec tunnel.
//!
//! A connection carries one request: the agent reads it, runs the command,
//! forwards every chunk of the command's output as a frame, and once all
//! output has been forwarded reports how the command ended. The session
//! below makes each decision of that exchange; reading, writing, parsing
//! and running processes are done by its caller, which reports back what
//! happened.
use crate::frame::{
    be_value, encode_exit_frame, encode_output_frame, lemma_exit_report_carries_status,
    spec_exit_frame, spec_frame, unsigned_reading, OutputStream,
};
use vstd::prelude::*;

verus! {

/// Most bytes of a request that the agent reads.
pub const REQUEST_BUFFER_LEN: usize = 1024;

/// Most bytes of output that one frame carries.
pub const OUTPUT_CHUNK_LEN: usize = 4096;

/// Frames that may wait between the output readers and the connection.
pub const OUTPUT_CHANNEL_CAPACITY: usize = 64;

/// The text of the error refusing a request without a command.
pub const EMPTY_COMMAND_MESSAGE: &'static str = "Empty command";

/// A command to run in the guest, as tunnelled from the host.
#[derive(Clone, Debug, PartialEq, Eq)]
pub struct ExecSyncRequest {
    pub command: Vec<String>,
}

/// The collected result of a command run in the guest.
#[derive(Clone, Debug, PartialEq, Eq)]
pub struct ExecSyncResponse {
    pub stdout: String,
    pub stderr: String,
    pub exit_code: i32,
}

/// The I/O step of a session that failed.
#[derive(Clone, Copy, Debug, PartialEq, Eq, Structural)]
pub enum ExecStage {
    Read,
    Spawn,
    Write,
    Wait,
}

/// Why a session ended in failure.
#[derive(Clone, Debug, PartialEq, Eq)]
pub enum ExecError {
    /// The request is not a valid request; the parser's reason is given.
    InvalidRequest(String),
    /// The request names no command.
    EmptyCommand,
    /// An I/O step failed; its error is the session's error.
    Io(ExecStage),
}

/// The program and arguments of a command.
#[derive(Clone, Debug, PartialEq, Eq)]
pub struct CommandLine {
    pub program: String,
    pub args: Vec<String>,
}

/// Where a session stands.
#[derive(Clone, Copy, Debug, PartialEq, Eq, Structural)]
pub enum ExecPhase {
    AwaitingRequest,
    AwaitingParse,
    AwaitingSpawn,
    Streaming,
    AwaitingWrite,
    AwaitingExit,
    Reporting,
    Flushing,
    Finished,
}

/// What the caller of a session saw happen.
#[derive(Debug, PartialEq, Eq)]
pub enum ExecEvent {
    /// The request read returned this many bytes; none means the peer left.
    RequestRead(usize),
    ReadFailed,
    RequestParsed(ExecSyncRequest),
    ParseFailed(String),
    Spawned,
    SpawnFailed,
    /// A chunk of output from one of the command's streams.
    Output(OutputStream, Vec<u8>),
    Written,
    WriteFailed,
    /// Every output reader has finished and every chunk has been handed over.
    OutputClosed,
    /// The command ended, with an exit code or by a signal.
    Exited { code: Option<i32>, signal: Option<i32> },
    WaitFailed,
    /// The report was written, or its writing failed; either way it is done.
    ReportSent,
    Flushed,
}

/// What a session asks its caller to do next.
#[derive(Debug, PartialEq, Eq)]
pub enum ExecAction {
    /// Read up to this many bytes of request.
    Read(usize),
    /// Parse the first this many bytes read as a request.
    Parse(usize),
    /// Start the command, with its output streams piped.
    Spawn(CommandLine),
    /// Wait for the next chunk of output, or for the output to close.
    ReceiveOutput,
    /// Write these bytes to the connection.
    Write(Vec<u8>),
    /// Wait for the command to end.
    WaitForExit,
    /// Write this report of how the command ended; a failure is ignored.
    SendReport(Vec<u8>),
    /// Flush the connection; a failure is ignored.
    Flush,
    /// The session is over, with this result.
    Finish(Result<(), ExecError>),
    /// The event does not fit where the session stands; nothing to do.
    Ignore,
}

/// The text of each string.
pub open spec fn texts(strings: Seq<String>) -> Seq<Seq<char>> {
    strings.map_values(|s: String| s@)
}

/// The model of an error.
pub enum ErrorModel {
    InvalidRequest(Seq<char>),
    EmptyCommand,
    Io(ExecStage),
}

/// The model of an event.
pub enum EventModel {
    RequestRead(nat),
    ReadFailed,
    RequestParsed(Seq<Seq<char>>),
    ParseFailed(Seq<char>),
    Spawned,
    SpawnFailed,
    Output(OutputStream, Seq<u8>),
    Written,
    WriteFailed,
    OutputClosed,
    Exited(Option<i32>, Option<i32>),
    WaitFailed,
    ReportSent,
    Flushed,
}

/// The model of an action.
pub enum ActionModel {
    Read(nat),
    Parse(nat),
    Spawn(Seq<char>, Seq<Seq<char>>),
    ReceiveOutput,
    Write(Seq<u8>),
    WaitForExit,
    SendReport(Seq<u8>),
    Flush,
    Finish(Result<(), ErrorModel>),
    Ignore,
}

impl View for ExecError {
    type V = ErrorModel;

    open spec fn view(&self) -> ErrorModel {
        match self {
            ExecError::InvalidRequest(reason) => ErrorModel::InvalidRequest(reason@),
            ExecError::EmptyCommand => ErrorModel::EmptyCommand,
            ExecError::Io(stage) => ErrorModel::Io(*stage),
        }
    }
}

impl View for ExecEvent {
    type V = EventModel;

    open spec fn view(&self) -> EventModel {
        match self {
            ExecEvent::RequestRead(n) => EventModel::RequestRead(*n as nat),
            ExecEvent::ReadFailed => EventModel::ReadFailed,
            ExecEvent::RequestParsed(req) => EventModel::RequestParsed(texts(req.command@)),
            ExecEvent::ParseFailed(reason) => EventModel::ParseFailed(reason@),
            ExecEvent::Spawned => EventModel::Spawned,
            ExecEvent::SpawnFailed => EventModel::SpawnFailed,
            ExecEvent::Output(stream, chunk) => EventModel::Output(*stream, chunk@),
            ExecEvent::Written => EventModel::Written,
            ExecEvent::WriteFailed => EventModel::WriteFailed,
            ExecEvent::OutputClosed => EventModel::OutputClosed,
            ExecEvent::Exited { code, signal } => EventModel::Exited(*code, *signal),
            ExecEvent::WaitFailed => EventModel::WaitFailed,
            ExecEvent::ReportSent => EventModel::ReportSent,
            ExecEvent::Flushed => EventModel::Flushed,
        }
    }
}

impl View for ExecAction {
    type V = ActionModel;

    open spec fn view(&self) -> ActionModel {
        match self {
            ExecAction::Read(n) => ActionModel::Read(*n as nat),
            ExecAction::Parse(n) => ActionModel::Parse(*n as nat),
            ExecAction::Spawn(cmd) => ActionModel::Spawn(cmd.program@, texts(cmd.args@)),
            ExecAction::ReceiveOutput => ActionModel::ReceiveOutput,
            ExecAction::Write(bytes) => ActionModel::Write(bytes@),
            ExecAction::WaitForExit => ActionModel::WaitForExit,
            ExecAction::SendReport(bytes) => ActionModel::SendReport(bytes@),
            ExecAction::Flush => ActionModel::Flush,
            ExecAction::Finish(Ok(())) => ActionModel::Finish(Ok(())),
            ExecAction::Finish(Err(e)) => ActionModel::Finish(Err(e@)),
            ExecAction::Ignore => ActionModel::Ignore,
        }
    }
}

/// The decision a session makes when `event` happens in `phase`: the phase
/// it moves to and what it asks for next.
#[verifier::opaque]
pub open spec fn spec_step(phase: ExecPhase, event: EventModel) -> (ExecPhase, ActionModel) {
    match (phase, event) {
        (ExecPhase::AwaitingRequest, EventModel::RequestRead(n)) => if n == 0 {
            (ExecPhase::Finished, ActionModel::Finish(Ok(())))
        } else {
            (ExecPhase::AwaitingParse, ActionModel::Parse(n))
        },
        (ExecPhase::AwaitingRequest, EventModel::ReadFailed) => (
            ExecPhase::Finished,
            ActionModel::Finish(Err(ErrorModel::Io(ExecStage::Read))),
        ),
        (ExecPhase::AwaitingParse, EventModel::ParseFailed(reason)) => (
            ExecPhase::Finished,
            ActionModel::Finish(Err(ErrorModel::InvalidRequest(reason))),
        ),
        (ExecPhase::AwaitingParse, EventModel::RequestParsed(command)) => if command.len() == 0 {
            (ExecPhase::Finished, ActionModel::Finish(Err(ErrorModel::EmptyCommand)))
        } else {
            (ExecPhase::AwaitingSpawn, ActionModel::Spawn(command[0], command.drop_first()))
        },
        (ExecPhase::AwaitingSpawn, EventModel::Spawned) => (
            ExecPhase::Streaming,
            ActionModel::ReceiveOutput,
        ),
        (ExecPhase::AwaitingSpawn, EventModel::SpawnFailed) => (
            ExecPhase::Finished,
            ActionModel::Finish(Err(ErrorModel::Io(ExecStage::Spawn))),
        ),
        (ExecPhase::Streaming, EventModel::Output(stream, chunk)) => (
            ExecPhase::AwaitingWrite,
            ActionModel::Write(spec_frame(stream.spec_id(), chunk)),
        ),
        (ExecPhase::Streaming, EventModel::OutputClosed) => (
            ExecPhase::AwaitingExit,
            ActionModel::WaitForExit,
        ),
        (ExecPhase::AwaitingWrite, EventModel::Written) => (
            ExecPhase::Streaming,
            ActionModel::ReceiveOutput,
        ),
        (ExecPhase::AwaitingWrite, EventModel::WriteFailed) => (
            ExecPhase::Finished,
            ActionModel::Finish(Err(ErrorModel::Io(ExecStage::Write))),
        ),
        (ExecPhase::AwaitingExit, EventModel::Exited(code, signal)) => match spec_exit_frame(
            code,
            signal,
        ) {
            Some(report) => (ExecPhase::Reporting, ActionModel::SendReport(report)),
            None => (ExecPhase::Flushing, ActionModel::Flush),
        },
        (ExecPhase::AwaitingExit, EventModel::WaitFailed) => (
            ExecPhase::Finished,
            ActionModel::Finish(Err(ErrorModel::Io(ExecStage::Wait))),
        ),
        (ExecPhase::Reporting, EventModel::ReportSent) => (ExecPhase::Flushing, ActionModel::Flush),
        (ExecPhase::Flushing, EventModel::Flushed) => (
            ExecPhase::Finished,
            ActionModel::Finish(Ok(())),
        ),
        _ => (phase, ActionModel::Ignore),
    }
}

/// The phases and actions of a session that starts in `phase` and sees
/// `events` in turn: one action for each event.
pub open spec fn run(phase: ExecPhase, events: Seq<EventModel>) -> (ExecPhase, Seq<ActionModel>)
    decreases events.len(),
{
    if events.len() == 0 {
        (phase, Seq::empty())
    } else {
        let (next, action) = spec_step(phase, events[0]);
        let (last, actions) = run(next, events.drop_first());
        (last, seq![action] + actions)
    }
}

/// The program and arguments of a request's command: its first word and
/// the words after it. A request without words is refused.
pub fn command_line(req: &ExecSyncRequest) -> (cmd: Result<CommandLine, ExecError>)
    ensures
        cmd is Ok <==> req.command@.len() > 0,
        cmd matches Ok(c) ==> c.program@ == req.command@[0]@ && texts(c.args@) == texts(
            req.command@,
        ).drop_first(),
        cmd matches Err(e) ==> e@ == ErrorModel::EmptyCommand,
{
    if req.command.len() == 0 {
        return Err(ExecError::EmptyCommand);
    }
    let program = req.command[0].clone();
    let mut args: Vec<String> = Vec::new();
    let mut i: usize = 1;
    while i < req.command.len()
        invariant
            1 <= i <= req.command@.len(),
            args@.len() == i - 1,
            forall|k: int| 0 <= k < args@.len() ==> #[trigger] args@[k]@ == req.command@[k + 1]@,
        decreases req.command@.len() - i,
    {
        let word = req.command[i].clone();
        args.push(word);
        i = i + 1;
    }
    assert(texts(args@) =~= texts(req.command@).drop_first());
    Ok(CommandLine { program, args })
}

/// One connection's exchange with the host.
pub struct ExecSession {
    phase: ExecPhase,
}

impl ExecSession {
    /// Where the session stands.
    pub closed spec fn spec_phase(&self) -> ExecPhase {
        self.phase
    }

    /// A session for a new connection, and its first request: read the
    /// command, up to the size of the request buffer.
    pub fn start() -> (started: (ExecSession, ExecAction))
        ensures
            started.0.spec_phase() == ExecPhase::AwaitingRequest,
            started.1@ == ActionModel::Read(REQUEST_BUFFER_LEN as nat),
    {
        (ExecSession { phase: ExecPhase::AwaitingRequest }, ExecAction::Read(REQUEST_BUFFER_LEN))
    }

    /// Where the session stands.
    pub fn phase(&self) -> (phase: ExecPhase)
        ensures
            phase == self.spec_phase(),
    {
        self.phase
    }

    /// Whether the session is over.
    pub fn is_finished(&self) -> (done: bool)
        ensures
            done <==> self.spec_phase() == ExecPhase::Finished,
    {
        match self.phase {
            ExecPhase::Finished => true,
            _ => false,
        }
    }

    /// The decision on `event`: the session moves on and says what to do next.
    pub fn step(&mut self, event: ExecEvent) -> (action: ExecAction)
        requires
            event matches ExecEvent::Output(_, chunk) ==> chunk@.len() <= u32::MAX,
        ensures
            (final(self).spec_phase(), action@) == spec_step(old(self).spec_phase(), event@),
    {
        proof {
            reveal(spec_step);
        }
        let phase = self.phase;
        match (phase, event) {
            (ExecPhase::AwaitingRequest, ExecEvent::RequestRead(n)) => {
                if n == 0 {
                    self.phase = ExecPhase::Finished;
                    ExecAction::Finish(Ok(()))
                } else {
                    self.phase = ExecPhase::AwaitingParse;
                    ExecAction::Parse(n)
                }
            },
            (ExecPhase::AwaitingRequest, ExecEvent::ReadFailed) => {
                self.phase = ExecPhase::Finished;
                ExecAction::Finish(Err(ExecError::Io(ExecStage::Read)))
            },
            (ExecPhase::AwaitingParse, ExecEvent::ParseFailed(reason)) => {
                self.phase = ExecPhase::Finished;
                ExecAction::Finish(Err(ExecError::InvalidRequest(reason)))
            },
            (ExecPhase::AwaitingParse, ExecEvent::RequestParsed(req)) => {
                match command_line(&req) {
                    Ok(cmd) => {
                        self.phase = ExecPhase::AwaitingSpawn;
                        ExecAction::Spawn(cmd)
                    },
                    Err(e) => {
                        self.phase = ExecPhase::Finished;
                        ExecAction::Finish(Err(e))
                    },
                }
            },
            (ExecPhase::AwaitingSpawn, ExecEvent::Spawned) => {
                self.phase = ExecPhase::Streaming;
                ExecAction::ReceiveOutput
            },
            (ExecPhase::AwaitingSpawn, ExecEvent::SpawnFailed) => {
                self.phase = ExecPhase::Finished;
                ExecAction::Finish(Err(ExecError::Io(ExecStage::Spawn)))
            },
            (ExecPhase::Streaming, ExecEvent::Output(stream, chunk)) => {
                self.phase = ExecPhase::AwaitingWrite;
                ExecAction::Write(encode_output_frame(stream, chunk.as_slice()))
            },
            (ExecPhase::Streaming, ExecEvent::OutputClosed) => {
                self.phase = ExecPhase::AwaitingExit;
                ExecAction::WaitForExit
            },
            (ExecPhase::AwaitingWrite, ExecEvent::Written) => {
                self.phase = ExecPhase::Streaming;
                ExecAction::ReceiveOutput
            },
            (ExecPhase::AwaitingWrite, ExecEvent::WriteFailed) => {
                self.phase = ExecPhase::Finished;
                ExecAction::Finish(Err(ExecError::Io(ExecStage::Write)))
            },
            (ExecPhase::AwaitingExit, ExecEvent::Exited { code, signal }) => {
                match encode_exit_frame(code, signal) {
                    Some(report) => {
                        self.phase = ExecPhase::Reporting;
                        ExecAction::SendReport(report)
                    },
                    None => {
                        self.phase = ExecPhase::Flushing;
                        ExecAction::Flush
                    },
                }
            },
            (ExecPhase::AwaitingExit, ExecEvent::WaitFailed) => {
                self.phase = ExecPhase::Finished;
                ExecAction::Finish(Err(ExecError::Io(ExecStage::Wait)))
            },
            (ExecPhase::Reporting, ExecEvent::ReportSent) => {
                self.phase = ExecPhase::Flushing;
                ExecAction::Flush
            },
            (ExecPhase::Flushing, ExecEvent::Flushed) => {
                self.phase = ExecPhase::Finished;
                ExecAction::Finish(Ok(()))
            },
            _ => ExecAction::Ignore,
        }
    }
}

/// How far a session has come; no step takes it back.
pub open spec fn progress(phase: ExecPhase) -> nat {
    match phase {
        ExecPhase::AwaitingRequest => 0,
        ExecPhase::AwaitingParse => 1,
        ExecPhase::AwaitingSpawn => 2,
        ExecPhase::Streaming => 3,
        ExecPhase::AwaitingWrite => 3,
        ExecPhase::AwaitingExit => 4,
        ExecPhase::Reporting => 5,
        ExecPhase::Flushing => 6,
        ExecPhase::Finished => 7,
    }
}

/// Where a session that starts in `phase` stands after the first `i` events.
pub open spec fn phase_at(phase: ExecPhase, events: Seq<EventModel>, i: int) -> ExecPhase {
    run(phase, events.take(i)).0
}

/// A run answers each event with one action.
pub proof fn lemma_run_len(phase: ExecPhase, events: Seq<EventModel>)
    ensures
        run(phase, events).1.len() == events.len(),
    decreases events.len(),
{
    if events.len() > 0 {
        lemma_run_len(spec_step(phase, events[0]).0, events.drop_first());
    }
}

/// The `i`-th action of a run is the step taken on the `i`-th event from
/// where the session stood before it.
pub proof fn lemma_run_step(phase: ExecPhase, events: Seq<EventModel>, i: int)
    requires
        0 <= i < events.len(),
    ensures
        run(phase, events).1[i] == spec_step(phase_at(phase, events, i), events[i]).1,
        phase_at(phase, events, i + 1) == spec_step(phase_at(phase, events, i), events[i]).0,
    decreases events.len(),
{
    let next = spec_step(phase, events[0]).0;
    let rest = events.drop_first();
    lemma_run_len(next, rest);
    if i == 0 {
        assert(events.take(0) =~= Seq::<EventModel>::empty());
        let one = events.take(1);
        assert(one[0] == events[0]);
        assert(one.drop_first() =~= Seq::<EventModel>::empty());
        assert(run(phase, one).0 == run(next, one.drop_first()).0);
    } else {
        lemma_run_step(next, rest, i - 1);
        let before = events.take(i);
        let upto = events.take(i + 1);
        assert(before.drop_first() =~= rest.take(i - 1));
        assert(upto.drop_first() =~= rest.take(i));
        assert(before[0] == events[0]);
        assert(upto[0] == events[0]);
        assert(run(phase, before).0 == run(next, before.drop_first()).0);
        assert(run(phase, upto).0 == run(next, upto.drop_first()).0);
        assert(rest[i - 1] == events[i]);
        assert(run(phase, events).1[i] == run(next, rest).1[i - 1]);
    }
}

/// No step takes a session back.
pub proof fn lemma_progress_monotone(phase: ExecPhase, events: Seq<EventModel>, i: int, k: int)
    requires
        0 <= i <= k <= events.len(),
    ensures
        progress(phase_at(phase, events, i)) <= progress(phase_at(phase, events, k)),
    decreases k - i,
{
    if i < k {
        lemma_progress_monotone(phase, events, i, k - 1);
        lemma_run_step(phase, events, k - 1);
        reveal(spec_step);
    }
}

/// Once a session is over it stays over and asks for nothing more.
pub proof fn lemma_finished_is_final(events: Seq<EventModel>)
    ensures
        run(ExecPhase::Finished, events).0 == ExecPhase::Finished,
        forall|i: int|
            0 <= i < events.len() ==> #[trigger] run(ExecPhase::Finished, events).1[i]
                == ActionModel::Ignore,
    decreases events.len(),
{
    reveal(spec_step);

    lemma_run_len(ExecPhase::Finished, events);
    if events.len() > 0 {
        lemma_finished_is_final(events.drop_first());
        assert forall|i: int| 0 <= i < events.len() implies #[trigger] run(
            ExecPhase::Finished,
            events,
        ).1[i] == ActionModel::Ignore by {
            if i > 0 {
                assert(run(ExecPhase::Finished, events).1[i] == run(
                    ExecPhase::Finished,
                    events.drop_first(),
                ).1[i - 1]);
            }
        }
    }
}

/// The command that a session starts is the one its request named: the
/// request's first word is the program and the others are its arguments.
pub proof fn lemma_spawns_requested_command(events: Seq<EventModel>, i: int)
    requires
        0 <= i < events.len(),
        run(ExecPhase::AwaitingRequest, events).1[i] is Spawn,
    ensures
        events[i] matches EventModel::RequestParsed(command) && command.len() > 0
            && run(ExecPhase::AwaitingRequest, events).1[i] == ActionModel::Spawn(
            command[0],
            command.drop_first(),
        ),
{
    reveal(spec_step);

    lemma_run_step(ExecPhase::AwaitingRequest, events, i);
}

/// A connection runs at most one command.
pub proof fn lemma_single_command(events: Seq<EventModel>, i: int, k: int)
    requires
        0 <= i < k < events.len(),
        run(ExecPhase::AwaitingRequest, events).1[i] is Spawn,
    ensures
        !(run(ExecPhase::AwaitingRequest, events).1[k] is Spawn),
{
    reveal(spec_step);

    let p = ExecPhase::AwaitingRequest;
    lemma_run_step(p, events, i);
    lemma_run_step(p, events, k);
    lemma_progress_monotone(p, events, i + 1, k);
}

/// No output is written after the report of how the command ended.
pub proof fn lemma_no_output_after_report(events: Seq<EventModel>, i: int, k: int)
    requires
        0 <= i < k < events.len(),
        run(ExecPhase::AwaitingRequest, events).1[i] is SendReport,
    ensures
        !(run(ExecPhase::AwaitingRequest, events).1[k] is Write),
{
    reveal(spec_step);

    let p = ExecPhase::AwaitingRequest;
    lemma_run_step(p, events, i);
    lemma_run_step(p, events, k);
    lemma_progress_monotone(p, events, i + 1, k);
}

/// From a phase short of awaiting the exit, a report can only come after
/// the output channel has closed.
proof fn lemma_report_needs_close(phase: ExecPhase, events: Seq<EventModel>, i: int)
    requires
        phase != ExecPhase::AwaitingExit,
        0 <= i < events.len(),
        run(phase, events).1[i] is SendReport,
    ensures
        exists|j: int| 0 <= j < i && #[trigger] events[j] == EventModel::OutputClosed,
    decreases events.len(),
{
    reveal(spec_step);

    let next = spec_step(phase, events[0]).0;
    let rest = events.drop_first();
    lemma_run_len(next, rest);
    if i == 0 {
        assert(run(phase, events).1[0] == spec_step(phase, events[0]).1);
    } else {
        assert(run(phase, events).1[i] == run(next, rest).1[i - 1]);
        if next == ExecPhase::AwaitingExit {
            assert(events[0] == EventModel::OutputClosed);
        } else {
            lemma_report_needs_close(next, rest, i - 1);
            let j = choose|j: int| 0 <= j < i - 1 && #[trigger] rest[j] == EventModel::OutputClosed;
            assert(events[j + 1] == EventModel::OutputClosed);
        }
    }
}

/// The report of how the command ended is sent only after all of its
/// output has been drained: the output channel closed before it, and the
/// report answers the command's exit.
pub proof fn lemma_report_after_drain(events: Seq<EventModel>, i: int)
    requires
        0 <= i < events.len(),
        run(ExecPhase::AwaitingRequest, events).1[i] is SendReport,
    ensures
        exists|j: int| 0 <= j < i && #[trigger] events[j] == EventModel::OutputClosed,
        events[i] is Exited,
{
    reveal(spec_step);

    lemma_report_needs_close(ExecPhase::AwaitingRequest, events, i);
    lemma_run_step(ExecPhase::AwaitingRequest, events, i);
}

/// Once the output is drained, how the command ended is always reported,
/// whatever the code: a command that exits with code `c`, zero or not, has
/// the session send a nine-byte frame on stream 3 whose length field is four
/// and whose payload reads as `c`'s unsigned reading; a command ended by
/// signal `s` gets the same on stream 4. Either way the session then awaits
/// the report's sending.
pub proof fn lemma_exit_always_reported(code: Option<i32>, signal: Option<i32>)
    ensures
        ({
            let (next, action) = spec_step(ExecPhase::AwaitingExit, EventModel::Exited(code, signal));
            &&& code matches Some(c) ==> {
                &&& next == ExecPhase::Reporting
                &&& action matches ActionModel::SendReport(r) && {
                    &&& r.len() == 9
                    &&& r[0] == 3
                    &&& be_value(r.subrange(1, 5)) == 4
                    &&& be_value(r.subrange(5, 9)) == unsigned_reading(c)
                }
            }
            &&& code is None ==> (signal matches Some(s) ==> {
                &&& next == ExecPhase::Reporting
                &&& action matches ActionModel::SendReport(r) && {
                    &&& r.len() == 9
                    &&& r[0] == 4
                    &&& be_value(r.subrange(1, 5)) == 4
                    &&& be_value(r.subrange(5, 9)) == unsigned_reading(s)
                }
            })
        }),
{
    reveal(spec_step);
    lemma_exit_report_carries_status(code, signal);
}

} // verus!
