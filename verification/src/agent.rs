//! Guest agent: request dispatch and the exec relay.
//!
//! The agent's I/O (the vsock stream, child processes, the filesystem) is
//! done by the caller. This module decides: which operation a request asks
//! for, which response an outcome deserves, and, for an exec, how the child's
//! output and the host's input are relayed. The exec relay is a state
//! machine: the caller feeds it events and performs the action it returns.

use vstd::prelude::*;
use crate::codec::CodecError;
use crate::message::{ExecReq, ExecReqView, Request, RequestView, Response, ResponseView};
use crate::text::{clone_strings, opt_str, pairs, split_once, split_once_spec, strs};

verus! {

/// Number of bytes asked of the child's stdout or stderr in one read.
pub const READ_SIZE: usize = 4096;

/// Exit code reported for a child that was killed by a signal.
pub const KILLED: i32 = -1;

/// An identity switch applied in the child before it executes.
#[derive(Debug, Clone, Copy, PartialEq, Eq, Structural)]
pub enum Credential {
    /// Set the group ID.
    Gid(u32),
    /// Set the user ID.
    Uid(u32),
}

/// How to start the child of an exec request.
#[derive(Debug, Clone, PartialEq, Eq)]
pub struct ChildCommand {
    /// Executable path or name.
    pub program: String,
    /// Arguments, excluding argv\[0\].
    pub args: Vec<String>,
    /// Environment additions as key and value, in the order given.
    pub env: Vec<(String, String)>,
    /// Working directory, if one was asked for.
    pub cwd: Option<String>,
    /// Whether the child's stdin is a pipe. Stdout and stderr always are.
    pub stdin: bool,
    /// Identity switches, in the order in which they are applied.
    pub credentials: Vec<Credential>,
}

/// Mathematical value of a [`ChildCommand`].
pub struct ChildCommandView {
    pub program: Seq<char>,
    pub args: Seq<Seq<char>>,
    pub env: Seq<(Seq<char>, Seq<char>)>,
    pub cwd: Option<Seq<char>>,
    pub stdin: bool,
    pub credentials: Seq<Credential>,
}

impl View for ChildCommand {
    type V = ChildCommandView;

    open spec fn view(&self) -> ChildCommandView {
        ChildCommandView {
            program: self.program@,
            args: strs(self.args@),
            env: pairs(self.env@),
            cwd: opt_str(self.cwd),
            stdin: self.stdin,
            credentials: self.credentials@,
        }
    }
}

/// The `KEY=VALUE` entries of `env` as pairs, cut at the first `=`.
/// Entries without `=` are left out.
pub open spec fn env_pairs(env: Seq<Seq<char>>) -> Seq<(Seq<char>, Seq<char>)>
    decreases env.len(),
{
    if env.len() == 0 {
        Seq::empty()
    } else {
        let rest = env_pairs(env.drop_last());
        match split_once_spec(env.last(), '=') {
            Some(pair) => rest.push(pair),
            None => rest,
        }
    }
}

/// The identity switches for an optional GID and UID: the group first.
pub open spec fn credentials_of(gid: Option<u32>, uid: Option<u32>) -> Seq<Credential> {
    let g = match gid {
        Some(g) => seq![Credential::Gid(g)],
        None => Seq::empty(),
    };
    let u = match uid {
        Some(u) => seq![Credential::Uid(u)],
        None => Seq::empty(),
    };
    g + u
}

/// The child command that an exec request describes.
pub open spec fn command_spec(req: ExecReqView) -> ChildCommandView {
    ChildCommandView {
        program: req.cmd,
        args: req.args,
        env: env_pairs(req.env),
        cwd: req.cwd,
        stdin: req.stdin,
        credentials: credentials_of(req.gid, req.uid),
    }
}

/// Builds the child command for an exec request: program, arguments and
/// working directory as given, the environment parsed from `KEY=VALUE`,
/// stdin piped only if the request says so, and the GID switched before
/// the UID.
pub fn command(req: &ExecReq) -> (cmd: ChildCommand)
    ensures
        cmd@ == command_spec(req@),
{
    let mut env: Vec<(String, String)> = Vec::new();
    let mut i: usize = 0;
    assert(req@.env.take(0) =~= Seq::empty());
    while i < req.env.len()
        invariant
            i <= req.env.len(),
            pairs(env@) == env_pairs(req@.env.take(i as int)),
        decreases req.env.len() - i,
    {
        proof {
            let next = req@.env.take(i + 1);
            assert(next.drop_last() =~= req@.env.take(i as int));
            assert(next.last() == req.env@[i as int]@);
        }
        match split_once(req.env[i].as_str(), '=') {
            Some((key, value)) => {
                proof {
                    assert(pairs(env@.push((key, value))) =~= pairs(env@).push((key@, value@)));
                }
                env.push((key, value));
            },
            None => {},
        }
        i += 1;
    }
    assert(req@.env.take(req.env.len() as int) =~= req@.env);
    let mut credentials: Vec<Credential> = Vec::new();
    if let Some(gid) = req.gid {
        credentials.push(Credential::Gid(gid));
    }
    if let Some(uid) = req.uid {
        credentials.push(Credential::Uid(uid));
    }
    assert(credentials@ =~= credentials_of(req.gid, req.uid));
    let cwd = match &req.cwd {
        Some(dir) => Some(dir.clone()),
        None => None,
    };
    ChildCommand {
        program: req.cmd.clone(),
        args: clone_strings(&req.args),
        env,
        cwd,
        stdin: req.stdin,
        credentials,
    }
}

/// Where an exec stands.
#[derive(Debug, Clone, Copy, PartialEq, Eq, Structural)]
pub enum Phase {
    /// The child has not been started yet.
    Spawning,
    /// The child runs; its output is relayed.
    Running,
    /// Both output streams have ended; the child's exit is awaited.
    Reaping,
    /// The exit code has been sent.
    Exited,
    /// The child could not be started; the error has been sent.
    Failed,
}

/// State of one exec relay.
#[derive(Debug, Clone, Copy, PartialEq, Eq, Structural)]
pub struct ExecSession {
    /// Where the exec stands.
    pub phase: Phase,
    /// Whether the child still has a stdin pipe.
    pub stdin_open: bool,
    /// Whether stdout has reached its end.
    pub stdout_done: bool,
    /// Whether stderr has reached its end.
    pub stderr_done: bool,
}

/// What a read from one of the child's output pipes gave.
#[derive(Debug, Clone, PartialEq, Eq)]
pub enum Read {
    /// The bytes read; none at the end of the stream.
    Bytes(Vec<u8>),
    /// The read failed.
    Failed,
}

/// Something that happened during an exec.
#[derive(Debug, Clone, PartialEq, Eq)]
pub enum Event {
    /// The child was started with this PID.
    Spawned { pid: u32 },
    /// The child could not be started.
    SpawnFailed(String),
    /// The host sent a request.
    Host(Request),
    /// Reading a request from the host failed.
    HostFailed,
    /// A read from the child's stdout returned.
    Stdout(Read),
    /// A read from the child's stderr returned.
    Stderr(Read),
    /// The child exited, with a code unless a signal killed it.
    Reaped(Option<i32>),
}

/// Mathematical value of an [`Event`].
pub enum EventView {
    Spawned { pid: u32 },
    SpawnFailed(Seq<char>),
    Host(RequestView),
    HostFailed,
    /// The bytes read, none at the end of the stream or after a failed read.
    Stdout(Seq<u8>),
    /// The bytes read, none at the end of the stream or after a failed read.
    Stderr(Seq<u8>),
    Reaped(Option<i32>),
}

impl View for Read {
    type V = Seq<u8>;

    open spec fn view(&self) -> Seq<u8> {
        match *self {
            Read::Bytes(data) => data@,
            Read::Failed => Seq::empty(),
        }
    }
}

impl View for Event {
    type V = EventView;

    open spec fn view(&self) -> EventView {
        match *self {
            Event::Spawned { pid } => EventView::Spawned { pid },
            Event::SpawnFailed(msg) => EventView::SpawnFailed(msg@),
            Event::Host(req) => EventView::Host(req@),
            Event::HostFailed => EventView::HostFailed,
            Event::Stdout(read) => EventView::Stdout(read@),
            Event::Stderr(read) => EventView::Stderr(read@),
            Event::Reaped(code) => EventView::Reaped(code),
        }
    }
}

/// What the caller has to do after an event.
#[derive(Debug, Clone, PartialEq, Eq)]
pub enum Action {
    /// Nothing.
    Idle,
    /// Send this response to the host.
    Send(Response),
    /// Write these bytes to the child's stdin.
    WriteStdin(Vec<u8>),
    /// Close the child's stdin.
    CloseStdin,
    /// Send this signal to this process.
    Signal { pid: u32, signal: i32 },
}

/// Mathematical value of an [`Action`].
pub enum ActionView {
    Idle,
    Send(ResponseView),
    WriteStdin(Seq<u8>),
    CloseStdin,
    Signal { pid: u32, signal: i32 },
}

impl View for Action {
    type V = ActionView;

    open spec fn view(&self) -> ActionView {
        match *self {
            Action::Idle => ActionView::Idle,
            Action::Send(resp) => ActionView::Send(resp@),
            Action::WriteStdin(data) => ActionView::WriteStdin(data@),
            Action::CloseStdin => ActionView::CloseStdin,
            Action::Signal { pid, signal } => ActionView::Signal { pid, signal },
        }
    }
}

/// What the caller should wait for next.
#[derive(Debug, Clone, Copy, PartialEq, Eq, Structural)]
pub struct Wants {
    /// A request from the host.
    pub host: bool,
    /// A read from the child's stdout.
    pub stdout: bool,
    /// A read from the child's stderr.
    pub stderr: bool,
    /// The child's exit.
    pub exit: bool,
}

/// The state after an output stream has ended: once both have, the child's
/// stdin is closed and its exit awaited.
pub open spec fn after_eof(s: ExecSession) -> (ExecSession, ActionView) {
    if s.stdout_done && s.stderr_done {
        (
            ExecSession { phase: Phase::Reaping, stdin_open: false, ..s },
            if s.stdin_open {
                ActionView::CloseStdin
            } else {
                ActionView::Idle
            },
        )
    } else {
        (s, ActionView::Idle)
    }
}

/// One step of the exec relay: the state after the event and the action it
/// calls for. An event that the session is not waiting for changes nothing.
pub open spec fn step_spec(s: ExecSession, e: EventView) -> (ExecSession, ActionView) {
    match (s.phase, e) {
        (Phase::Spawning, EventView::Spawned { pid }) => (
            ExecSession { phase: Phase::Running, ..s },
            ActionView::Send(ResponseView::Started { pid }),
        ),
        (Phase::Spawning, EventView::SpawnFailed(msg)) => (
            ExecSession { phase: Phase::Failed, stdin_open: false, ..s },
            ActionView::Send(ResponseView::Error(msg)),
        ),
        (Phase::Running, EventView::Host(req)) => if s.stdin_open {
            match req {
                RequestView::Stdin { pid, data } => (s, ActionView::WriteStdin(data)),
                RequestView::StdinClose { pid } => (
                    ExecSession { stdin_open: false, ..s },
                    ActionView::CloseStdin,
                ),
                RequestView::Signal { pid, signal } => (s, ActionView::Signal { pid, signal }),
                _ => (s, ActionView::Idle),
            }
        } else {
            (s, ActionView::Idle)
        },
        (Phase::Running, EventView::Stdout(data)) => if s.stdout_done {
            (s, ActionView::Idle)
        } else if data.len() > 0 {
            (s, ActionView::Send(ResponseView::Stdout(data)))
        } else {
            after_eof(ExecSession { stdout_done: true, ..s })
        },
        (Phase::Running, EventView::Stderr(data)) => if s.stderr_done {
            (s, ActionView::Idle)
        } else if data.len() > 0 {
            (s, ActionView::Send(ResponseView::Stderr(data)))
        } else {
            after_eof(ExecSession { stderr_done: true, ..s })
        },
        (Phase::Reaping, EventView::Reaped(code)) => (
            ExecSession { phase: Phase::Exited, ..s },
            ActionView::Send(
                ResponseView::Exit(
                    match code {
                        Some(c) => c,
                        None => KILLED,
                    },
                ),
            ),
        ),
        _ => (s, ActionView::Idle),
    }
}

impl ExecSession {
    /// The session of an exec that has not started its child yet. `stdin`
    /// says whether the child gets a stdin pipe.
    pub fn new(stdin: bool) -> (s: Self)
        ensures
            s == Self::start(stdin),
    {
        ExecSession {
            phase: Phase::Spawning,
            stdin_open: stdin,
            stdout_done: false,
            stderr_done: false,
        }
    }

    /// The initial state.
    pub open spec fn start(stdin: bool) -> Self {
        ExecSession {
            phase: Phase::Spawning,
            stdin_open: stdin,
            stdout_done: false,
            stderr_done: false,
        }
    }

    /// What to wait for in this state: while the child runs, a host request
    /// as long as the child has stdin, and a read from each output stream
    /// that has not ended; afterwards the child's exit.
    pub fn wants(&self) -> (w: Wants)
        ensures
            w.host == (self.phase == Phase::Running && self.stdin_open),
            w.stdout == (self.phase == Phase::Running && !self.stdout_done),
            w.stderr == (self.phase == Phase::Running && !self.stderr_done),
            w.exit == (self.phase == Phase::Reaping),
    {
        let running = match self.phase {
            Phase::Running => true,
            _ => false,
        };
        let reaping = match self.phase {
            Phase::Reaping => true,
            _ => false,
        };
        Wants {
            host: running && self.stdin_open,
            stdout: running && !self.stdout_done,
            stderr: running && !self.stderr_done,
            exit: reaping,
        }
    }

    /// Whether the exec is over: the exit code or the spawn error was sent.
    pub fn finished(&self) -> (b: bool)
        ensures
            b == (self.phase == Phase::Exited || self.phase == Phase::Failed),
    {
        match self.phase {
            Phase::Exited => true,
            Phase::Failed => true,
            _ => false,
        }
    }

    /// Marks one output stream as ended.
    fn eof(&mut self) -> (action: Action)
        requires
            old(self).phase == Phase::Running,
        ensures
            (*final(self), action@) == after_eof(*old(self)),
    {
        if self.stdout_done && self.stderr_done {
            let close = self.stdin_open;
            self.phase = Phase::Reaping;
            self.stdin_open = false;
            if close {
                Action::CloseStdin
            } else {
                Action::Idle
            }
        } else {
            Action::Idle
        }
    }

    /// Takes one event and returns what to do about it.
    ///
    /// - `Spawned`: the session runs; `Started` is sent.
    /// - `SpawnFailed`: the exec is over; `Error` is sent.
    /// - `Host`, while the child has stdin: `Stdin` is written to the child,
    ///   `StdinClose` closes its stdin, `Signal` is forwarded; anything else
    ///   is ignored.
    /// - `Stdout` / `Stderr` with bytes: they are sent. Without bytes, or
    ///   after a failed read, the stream has ended. When both have, stdin is
    ///   closed if it was open and the exit is awaited.
    /// - `Reaped`: `Exit` is sent with the code, or -1 without one.
    pub fn step(&mut self, event: Event) -> (action: Action)
        ensures
            (*final(self), action@) == step_spec(*old(self), event@),
    {
        match self.phase {
            Phase::Spawning => match event {
                Event::Spawned { pid } => {
                    self.phase = Phase::Running;
                    Action::Send(Response::Started { pid })
                },
                Event::SpawnFailed(msg) => {
                    self.phase = Phase::Failed;
                    self.stdin_open = false;
                    Action::Send(Response::Error(msg))
                },
                _ => Action::Idle,
            },
            Phase::Running => match event {
                Event::Host(req) => {
                    if self.stdin_open {
                        match req {
                            Request::Stdin { pid, data } => Action::WriteStdin(data),
                            Request::StdinClose { pid } => {
                                self.stdin_open = false;
                                Action::CloseStdin
                            },
                            Request::Signal { pid, signal } => Action::Signal { pid, signal },
                            _ => Action::Idle,
                        }
                    } else {
                        Action::Idle
                    }
                },
                Event::Stdout(read) => {
                    if self.stdout_done {
                        Action::Idle
                    } else {
                        match read {
                            Read::Bytes(data) => {
                                if data.len() > 0 {
                                    Action::Send(Response::Stdout(data))
                                } else {
                                    self.stdout_done = true;
                                    self.eof()
                                }
                            },
                            Read::Failed => {
                                self.stdout_done = true;
                                self.eof()
                            },
                        }
                    }
                },
                Event::Stderr(read) => {
                    if self.stderr_done {
                        Action::Idle
                    } else {
                        match read {
                            Read::Bytes(data) => {
                                if data.len() > 0 {
                                    Action::Send(Response::Stderr(data))
                                } else {
                                    self.stderr_done = true;
                                    self.eof()
                                }
                            },
                            Read::Failed => {
                                self.stderr_done = true;
                                self.eof()
                            },
                        }
                    }
                },
                _ => Action::Idle,
            },
            Phase::Reaping => match event {
                Event::Reaped(code) => {
                    self.phase = Phase::Exited;
                    let code = match code {
                        Some(c) => c,
                        None => KILLED,
                    };
                    Action::Send(Response::Exit(code))
                },
                _ => Action::Idle,
            },
            _ => Action::Idle,
        }
    }
}

/// The responses sent so far, with the one that `action` sends added.
pub open spec fn with_sent(sent: Seq<ResponseView>, action: ActionView) -> Seq<ResponseView> {
    match action {
        ActionView::Send(resp) => sent.push(resp),
        _ => sent,
    }
}

/// The state reached from `s` by a series of events, and the responses sent
/// on the way, in order.
pub open spec fn run(s: ExecSession, events: Seq<EventView>) -> (ExecSession, Seq<ResponseView>)
    decreases events.len(),
{
    if events.len() == 0 {
        (s, Seq::empty())
    } else {
        let (before, sent) = run(s, events.drop_last());
        let (after, action) = step_spec(before, events.last());
        (after, with_sent(sent, action))
    }
}

/// Whether a response carries output of the child.
pub open spec fn is_output(resp: ResponseView) -> bool {
    resp is Stdout || resp is Stderr
}

/// The shape of the response stream in each phase: nothing before the spawn;
/// `Started` and then output while the child runs; the same closed by one
/// `Exit` once it has exited; a lone `Error` when it could not be started.
pub open spec fn framed(phase: Phase, sent: Seq<ResponseView>) -> bool {
    match phase {
        Phase::Spawning => sent.len() == 0,
        Phase::Running | Phase::Reaping => {
            &&& sent.len() >= 1
            &&& sent[0] is Started
            &&& forall|i: int| 1 <= i < sent.len() ==> is_output(#[trigger] sent[i])
        },
        Phase::Exited => {
            &&& sent.len() >= 2
            &&& sent[0] is Started
            &&& sent.last() is Exit
            &&& forall|i: int| 1 <= i < sent.len() - 1 ==> is_output(#[trigger] sent[i])
        },
        Phase::Failed => sent.len() == 1 && sent[0] is Error,
    }
}

/// Exec framing: whatever events arrive, in whatever order, the responses of
/// one exec are `Started`, then any number of `Stdout` and `Stderr`, then
/// `Exit`; or a single `Error` when the child could not be started. All
/// output precedes the exit code, and nothing follows it.
pub proof fn lemma_exec_framing(stdin: bool, events: Seq<EventView>)
    ensures
        framed(
            run(ExecSession::start(stdin), events).0.phase,
            run(ExecSession::start(stdin), events).1,
        ),
    decreases events.len(),
{
    if events.len() > 0 {
        lemma_exec_framing(stdin, events.drop_last());
    }
}

/// The child's stdin is open only while it runs, and the exit is awaited
/// only after both output streams have ended.
pub proof fn lemma_exec_streams(stdin: bool, events: Seq<EventView>)
    ensures
        ({
            let s = run(ExecSession::start(stdin), events).0;
            &&& s.stdin_open ==> s.phase == Phase::Spawning || s.phase == Phase::Running
            &&& s.phase == Phase::Reaping || s.phase == Phase::Exited ==> s.stdout_done
                && s.stderr_done
        }),
    decreases events.len(),
{
    if events.len() > 0 {
        lemma_exec_streams(stdin, events.drop_last());
    }
}

/// What a request asks the agent to do outside of an exec.
#[derive(Debug, Clone, PartialEq, Eq)]
pub enum Op {
    /// Answer at once with this response.
    Reply(Response),
    /// Run a command and relay its output.
    Exec(ExecReq),
    /// Send a signal, then acknowledge.
    Signal { pid: u32, signal: i32 },
    /// Read a file and answer with its contents.
    ReadFile { path: String },
    /// Create the parent directories, write the file, set its mode.
    WriteFile { path: String, data: Vec<u8>, mode: u32 },
    /// Unpack a tar archive into a directory, keeping permissions.
    CopyIn { dest: String, tar: Vec<u8> },
    /// Pack a path into a tar archive and answer with it.
    CopyOut { path: String },
    /// Acknowledge, flush, and exit the agent with status 0.
    Shutdown,
}

/// Mathematical value of an [`Op`].
pub enum OpView {
    Reply(ResponseView),
    Exec(ExecReqView),
    Signal { pid: u32, signal: i32 },
    ReadFile { path: Seq<char> },
    WriteFile { path: Seq<char>, data: Seq<u8>, mode: u32 },
    CopyIn { dest: Seq<char>, tar: Seq<u8> },
    CopyOut { path: Seq<char> },
    Shutdown,
}

impl View for Op {
    type V = OpView;

    open spec fn view(&self) -> OpView {
        match *self {
            Op::Reply(resp) => OpView::Reply(resp@),
            Op::Exec(req) => OpView::Exec(req@),
            Op::Signal { pid, signal } => OpView::Signal { pid, signal },
            Op::ReadFile { path } => OpView::ReadFile { path: path@ },
            Op::WriteFile { path, data, mode } => OpView::WriteFile {
                path: path@,
                data: data@,
                mode,
            },
            Op::CopyIn { dest, tar } => OpView::CopyIn { dest: dest@, tar: tar@ },
            Op::CopyOut { path } => OpView::CopyOut { path: path@ },
            Op::Shutdown => OpView::Shutdown,
        }
    }
}

/// Text of the error sent for a message that has no place in the session.
pub open spec fn unexpected_message() -> Seq<char> {
    "unexpected message"@
}

/// The operation for each request.
pub open spec fn dispatch_spec(req: RequestView) -> OpView {
    match req {
        RequestView::Exec(exec) => OpView::Exec(exec),
        RequestView::Signal { pid, signal } => OpView::Signal { pid, signal },
        RequestView::Stdin { pid, data } => OpView::Reply(ResponseView::Ack),
        RequestView::StdinClose { pid } => OpView::Reply(ResponseView::Ack),
        RequestView::ReadFile { path } => OpView::ReadFile { path },
        RequestView::WriteFile { path, data, mode } => OpView::WriteFile { path, data, mode },
        RequestView::CopyIn { dest, tar } => OpView::CopyIn { dest, tar },
        RequestView::CopyOut { path } => OpView::CopyOut { path },
        RequestView::Ping => OpView::Reply(ResponseView::Pong),
        RequestView::Shutdown => OpView::Shutdown,
        RequestView::Chunk(data) => OpView::Reply(ResponseView::Error(unexpected_message())),
        RequestView::EndOfStream => OpView::Reply(ResponseView::Error(unexpected_message())),
    }
}

/// Decides what a request received between execs asks for.
///
/// `Ping` is answered with `Pong`. Stdin traffic outside of an exec is
/// acknowledged and dropped. A chunk outside of a transfer is answered with
/// an error. Every other request names the operation to carry out.
pub fn dispatch(req: Request) -> (op: Op)
    ensures
        op@ == dispatch_spec(req@),
{
    match req {
        Request::Exec(exec) => Op::Exec(exec),
        Request::Signal { pid, signal } => Op::Signal { pid, signal },
        Request::Stdin { pid, data } => Op::Reply(Response::Ack),
        Request::StdinClose { pid } => Op::Reply(Response::Ack),
        Request::ReadFile { path } => Op::ReadFile { path },
        Request::WriteFile { path, data, mode } => Op::WriteFile { path, data, mode },
        Request::CopyIn { dest, tar } => Op::CopyIn { dest, tar },
        Request::CopyOut { path } => Op::CopyOut { path },
        Request::Ping => Op::Reply(Response::Pong),
        Request::Shutdown => Op::Shutdown,
        Request::Chunk(data) => Op::Reply(Response::Error("unexpected message".to_owned())),
        Request::EndOfStream => Op::Reply(Response::Error("unexpected message".to_owned())),
    }
}

/// The response to a file read: the contents, or the error's text.
pub fn read_file(result: Result<Vec<u8>, String>) -> (resp: Response)
    ensures
        resp@ == match result {
            Ok(data) => ResponseView::FileData(data@),
            Err(msg) => ResponseView::Error(msg@),
        },
{
    match result {
        Ok(data) => Response::FileData(data),
        Err(msg) => Response::Error(msg),
    }
}

/// The response to a file write: an acknowledgment, or the error's text.
pub fn write_file(result: Result<(), String>) -> (resp: Response)
    ensures
        resp@ == match result {
            Ok(_) => ResponseView::Ack,
            Err(msg) => ResponseView::Error(msg@),
        },
{
    match result {
        Ok(_) => Response::Ack,
        Err(msg) => Response::Error(msg),
    }
}

/// The response to unpacking an archive: an acknowledgment, or the error's
/// text.
pub fn copy_in(result: Result<(), String>) -> (resp: Response)
    ensures
        resp@ == match result {
            Ok(_) => ResponseView::Ack,
            Err(msg) => ResponseView::Error(msg@),
        },
{
    match result {
        Ok(_) => Response::Ack,
        Err(msg) => Response::Error(msg),
    }
}

/// The response to packing a path: the archive, or the error's text.
pub fn copy_out(result: Result<Vec<u8>, String>) -> (resp: Response)
    ensures
        resp@ == match result {
            Ok(data) => ResponseView::TarData(data@),
            Err(msg) => ResponseView::Error(msg@),
        },
{
    match result {
        Ok(data) => Response::TarData(data),
        Err(msg) => Response::Error(msg),
    }
}

/// How a session ends when no further request can be read: a stream that
/// ended between two frames is a clean close, anything else is an error.
pub fn session(end: CodecError) -> (r: Result<(), CodecError>)
    ensures
        r == match end {
            CodecError::UnexpectedEof => Ok::<(), CodecError>(()),
            e => Err::<(), CodecError>(e),
        },
{
    match end {
        CodecError::UnexpectedEof => Ok(()),
        e => Err(e),
    }
}

} // verus!
