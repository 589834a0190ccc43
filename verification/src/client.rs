//! Host-side client of the guest agent.
//!
//! The client does no I/O of its own. It makes the request for each
//! operation, remembers which reply that request awaits, and judges the
//! responses that the caller hands it. One exchange is in flight at a time.

use vstd::prelude::*;
use crate::agent::{framed, is_output, Phase};
use crate::message::{ExecReq, Request, RequestView, Response, ResponseView};

verus! {

/// Event emitted during streaming command execution.
#[derive(Debug, Clone, PartialEq, Eq)]
pub enum ExecEvent {
    /// A chunk of stdout data.
    Stdout(Vec<u8>),
    /// A chunk of stderr data.
    Stderr(Vec<u8>),
}

/// Mathematical value of an [`ExecEvent`].
pub enum ExecEventView {
    Stdout(Seq<u8>),
    Stderr(Seq<u8>),
}

impl View for ExecEvent {
    type V = ExecEventView;

    open spec fn view(&self) -> ExecEventView {
        match *self {
            ExecEvent::Stdout(data) => ExecEventView::Stdout(data@),
            ExecEvent::Stderr(data) => ExecEventView::Stderr(data@),
        }
    }
}

/// Output captured from a command executed inside the guest.
#[derive(Debug, Clone, PartialEq, Eq)]
pub struct ExecOutput {
    /// Stdout bytes.
    pub stdout: Vec<u8>,
    /// Stderr bytes.
    pub stderr: Vec<u8>,
    /// Process exit code (`-1` if killed by signal).
    pub code: i32,
}

/// Mathematical value of an [`ExecOutput`].
pub struct ExecOutputView {
    pub stdout: Seq<u8>,
    pub stderr: Seq<u8>,
    pub code: i32,
}

impl View for ExecOutput {
    type V = ExecOutputView;

    open spec fn view(&self) -> ExecOutputView {
        ExecOutputView { stdout: self.stdout@, stderr: self.stderr@, code: self.code }
    }
}

/// Why an exchange with the agent failed.
#[derive(Debug, Clone, PartialEq, Eq)]
pub enum ClientError {
    /// The agent answered with an error; this is its text.
    Remote(String),
    /// The agent answered with a response that the request does not allow.
    InvalidData,
    /// The responses ended before the exchange was complete.
    UnexpectedEof,
}

/// Mathematical value of a [`ClientError`].
pub enum ClientErrorView {
    Remote(Seq<char>),
    InvalidData,
    UnexpectedEof,
}

impl View for ClientError {
    type V = ClientErrorView;

    open spec fn view(&self) -> ClientErrorView {
        match *self {
            ClientError::Remote(msg) => ClientErrorView::Remote(msg@),
            ClientError::InvalidData => ClientErrorView::InvalidData,
            ClientError::UnexpectedEof => ClientErrorView::UnexpectedEof,
        }
    }
}

/// The reply that a request awaits.
#[derive(Debug, Clone, Copy, PartialEq, Eq, Structural)]
pub enum Awaiting {
    /// No exchange is in flight.
    Nothing,
    /// `Pong`, for a ping.
    Pong,
    /// An acknowledgment, for a shutdown, a signal or a file write.
    Ack,
    /// The contents of a file.
    FileData,
    /// The start of an exec: `Started`, or already output or the exit.
    ExecStart,
    /// The output or the exit of an exec that has started.
    ExecOutput,
}

/// What a response means for the exchange in flight.
#[derive(Debug, Clone, PartialEq, Eq)]
pub enum Reply {
    /// The exchange is complete.
    Done,
    /// The exchange is complete; these are the file's contents.
    File(Vec<u8>),
    /// The command has started with this PID; more follows.
    Started(u32),
    /// The command has produced output; more follows.
    Event(ExecEvent),
    /// The command has exited with this code; the exchange is complete.
    Exit(i32),
    /// The exchange has failed.
    Fail(ClientError),
}

/// Mathematical value of a [`Reply`].
pub enum ReplyView {
    Done,
    File(Seq<u8>),
    Started(u32),
    Event(ExecEventView),
    Exit(i32),
    Fail(ClientErrorView),
}

impl View for Reply {
    type V = ReplyView;

    open spec fn view(&self) -> ReplyView {
        match *self {
            Reply::Done => ReplyView::Done,
            Reply::File(data) => ReplyView::File(data@),
            Reply::Started(pid) => ReplyView::Started(pid),
            Reply::Event(event) => ReplyView::Event(event@),
            Reply::Exit(code) => ReplyView::Exit(code),
            Reply::Fail(e) => ReplyView::Fail(e@),
        }
    }
}

/// The failure that a response amounts to when it is not the awaited one:
/// the agent's own error as `Remote`, anything else as `InvalidData`.
pub open spec fn refusal(resp: ResponseView) -> ReplyView {
    match resp {
        ResponseView::Error(msg) => ReplyView::Fail(ClientErrorView::Remote(msg)),
        _ => ReplyView::Fail(ClientErrorView::InvalidData),
    }
}

/// What a response means to a client that awaits `awaiting`.
pub open spec fn judge(awaiting: Awaiting, resp: ResponseView) -> ReplyView {
    match (awaiting, resp) {
        (Awaiting::Pong, ResponseView::Pong) => ReplyView::Done,
        (Awaiting::Ack, ResponseView::Ack) => ReplyView::Done,
        (Awaiting::FileData, ResponseView::FileData(data)) => ReplyView::File(data),
        (Awaiting::ExecStart, ResponseView::Started { pid }) => ReplyView::Started(pid),
        (Awaiting::ExecStart, ResponseView::Stdout(data)) => ReplyView::Event(
            ExecEventView::Stdout(data),
        ),
        (Awaiting::ExecStart, ResponseView::Stderr(data)) => ReplyView::Event(
            ExecEventView::Stderr(data),
        ),
        (Awaiting::ExecStart, ResponseView::Exit(code)) => ReplyView::Exit(code),
        (Awaiting::ExecOutput, ResponseView::Stdout(data)) => ReplyView::Event(
            ExecEventView::Stdout(data),
        ),
        (Awaiting::ExecOutput, ResponseView::Stderr(data)) => ReplyView::Event(
            ExecEventView::Stderr(data),
        ),
        (Awaiting::ExecOutput, ResponseView::Exit(code)) => ReplyView::Exit(code),
        (_, resp) => refusal(resp),
    }
}

/// What the client awaits after a reply: more of an exec while it runs,
/// nothing once the exchange is complete or has failed.
pub open spec fn after(reply: ReplyView) -> Awaiting {
    match reply {
        ReplyView::Started(_) => Awaiting::ExecOutput,
        ReplyView::Event(_) => Awaiting::ExecOutput,
        _ => Awaiting::Nothing,
    }
}

/// A connection to a guest agent, as far as the protocol goes.
#[derive(Debug, Clone, Copy, PartialEq, Eq, Structural)]
pub struct Client {
    /// The reply that the exchange in flight awaits.
    pub awaiting: Awaiting,
}

impl Client {
    /// A client with no exchange in flight.
    pub fn connect() -> (client: Self)
        ensures
            client.awaiting == Awaiting::Nothing,
    {
        Client { awaiting: Awaiting::Nothing }
    }

    /// Starts a ping: the request to send. `Pong` is awaited.
    pub fn ping(&mut self) -> (req: Request)
        ensures
            req@ == RequestView::Ping,
            final(self).awaiting == Awaiting::Pong,
    {
        self.awaiting = Awaiting::Pong;
        Request::Ping
    }

    /// Starts a graceful shutdown of the guest agent. An acknowledgment is
    /// awaited.
    pub fn shutdown(&mut self) -> (req: Request)
        ensures
            req@ == RequestView::Shutdown,
            final(self).awaiting == Awaiting::Ack,
    {
        self.awaiting = Awaiting::Ack;
        Request::Shutdown
    }

    /// Starts sending a signal to a process inside the guest. An
    /// acknowledgment is awaited.
    pub fn signal(&mut self, pid: u32, signal: i32) -> (req: Request)
        ensures
            req@ == (RequestView::Signal { pid, signal }),
            final(self).awaiting == Awaiting::Ack,
    {
        self.awaiting = Awaiting::Ack;
        Request::Signal { pid, signal }
    }

    /// Starts reading a file from the guest filesystem. Its contents are
    /// awaited.
    pub fn read_file(&mut self, path: &str) -> (req: Request)
        ensures
            req@ == (RequestView::ReadFile { path: path@ }),
            final(self).awaiting == Awaiting::FileData,
    {
        self.awaiting = Awaiting::FileData;
        Request::ReadFile { path: path.to_owned() }
    }

    /// Starts writing a file to the guest filesystem. An acknowledgment is
    /// awaited.
    pub fn write_file(&mut self, path: &str, data: Vec<u8>, mode: u32) -> (req: Request)
        ensures
            req@ == (RequestView::WriteFile { path: path@, data: data@, mode }),
            final(self).awaiting == Awaiting::Ack,
    {
        self.awaiting = Awaiting::Ack;
        Request::WriteFile { path: path.to_owned(), data, mode }
    }

    /// Starts the execution of a command. Its start, its output and its
    /// exit are awaited.
    pub fn exec_stream(&mut self, req: ExecReq) -> (request: Request)
        ensures
            request@ == RequestView::Exec(req@),
            final(self).awaiting == Awaiting::ExecStart,
    {
        self.awaiting = Awaiting::ExecStart;
        Request::Exec(req)
    }

    /// Judges a response against the exchange in flight.
    ///
    /// The awaited response completes the exchange. During an exec,
    /// `Started` is accepted as the first response only, `Stdout` and
    /// `Stderr` are handed on as events, and `Exit` completes the exchange.
    /// An `Error` fails the exchange with the agent's text; any other
    /// response fails it as invalid data. With no exchange in flight every
    /// response is refused.
    pub fn receive(&mut self, resp: Response) -> (reply: Reply)
        ensures
            reply@ == judge(old(self).awaiting, resp@),
            final(self).awaiting == after(reply@),
    {
        let reply = match (self.awaiting, resp) {
            (Awaiting::Pong, Response::Pong) => Reply::Done,
            (Awaiting::Ack, Response::Ack) => Reply::Done,
            (Awaiting::FileData, Response::FileData(data)) => Reply::File(data),
            (Awaiting::ExecStart, Response::Started { pid }) => Reply::Started(pid),
            (Awaiting::ExecStart, Response::Stdout(data)) => Reply::Event(ExecEvent::Stdout(data)),
            (Awaiting::ExecStart, Response::Stderr(data)) => Reply::Event(ExecEvent::Stderr(data)),
            (Awaiting::ExecStart, Response::Exit(code)) => Reply::Exit(code),
            (Awaiting::ExecOutput, Response::Stdout(data)) => Reply::Event(ExecEvent::Stdout(data)),
            (Awaiting::ExecOutput, Response::Stderr(data)) => Reply::Event(ExecEvent::Stderr(data)),
            (Awaiting::ExecOutput, Response::Exit(code)) => Reply::Exit(code),
            (_, Response::Error(msg)) => Reply::Fail(ClientError::Remote(msg)),
            _ => Reply::Fail(ClientError::InvalidData),
        };
        self.awaiting = match &reply {
            Reply::Started(_) => Awaiting::ExecOutput,
            Reply::Event(_) => Awaiting::ExecOutput,
            _ => Awaiting::Nothing,
        };
        reply
    }
}

/// The output of an exec whose responses are `responses`, read by a client
/// that awaits `awaiting` and has collected `so_far`: every `Stdout` and
/// `Stderr` payload is added to its stream until `Exit` gives the code.
pub open spec fn collect(
    responses: Seq<ResponseView>,
    awaiting: Awaiting,
    so_far: ExecOutputView,
) -> Result<ExecOutputView, ClientErrorView>
    decreases responses.len(),
{
    if responses.len() == 0 {
        Err(ClientErrorView::UnexpectedEof)
    } else {
        match judge(awaiting, responses[0]) {
            ReplyView::Started(_) => collect(responses.skip(1), Awaiting::ExecOutput, so_far),
            ReplyView::Event(ExecEventView::Stdout(data)) => collect(
                responses.skip(1),
                Awaiting::ExecOutput,
                ExecOutputView { stdout: so_far.stdout + data, ..so_far },
            ),
            ReplyView::Event(ExecEventView::Stderr(data)) => collect(
                responses.skip(1),
                Awaiting::ExecOutput,
                ExecOutputView { stderr: so_far.stderr + data, ..so_far },
            ),
            ReplyView::Exit(code) => Ok(ExecOutputView { code, ..so_far }),
            ReplyView::Fail(e) => Err(e),
            _ => Err(ClientErrorView::InvalidData),
        }
    }
}

/// The output of an exec from its first response on.
pub open spec fn exec_spec(responses: Seq<ResponseView>) -> Result<
    ExecOutputView,
    ClientErrorView,
> {
    collect(
        responses,
        Awaiting::ExecStart,
        ExecOutputView { stdout: Seq::empty(), stderr: Seq::empty(), code: 0 },
    )
}

/// Appends a copy of `data` to `out`.
fn extend(out: &mut Vec<u8>, data: &Vec<u8>)
    ensures
        final(out)@ == old(out)@ + data@,
{
    let ghost before = out@;
    let mut i: usize = 0;
    assert(out@ =~= before + data@.take(0));
    while i < data.len()
        invariant
            i <= data.len(),
            out@ == before + data@.take(i as int),
        decreases data.len() - i,
    {
        proof {
            assert((before + data@.take(i as int)).push(data@[i as int]) =~= before + data@.take(
                i + 1,
            ));
        }
        out.push(data[i]);
        i += 1;
    }
    assert(data@.take(data.len() as int) =~= data@);
}

/// Executes a command and collects all output: the buffered form of an
/// exec stream.
///
/// `responses` are the agent's responses to the exec request, in order. The
/// result holds everything written to stdout and to stderr, and the exit
/// code. Responses after the exit are not looked at. Fails with the agent's
/// error, with `InvalidData` on a response that has no place in an exec,
/// and with `UnexpectedEof` when the responses end before the exit.
#[verifier::loop_isolation(false)]
pub fn exec(responses: Vec<Response>) -> (r: Result<ExecOutput, ClientError>)
    ensures
        match r {
            Ok(out) => exec_spec(crate::message::responses(responses@)) == Ok::<
                ExecOutputView,
                ClientErrorView,
            >(out@),
            Err(e) => exec_spec(crate::message::responses(responses@)) == Err::<
                ExecOutputView,
                ClientErrorView,
            >(e@),
        },
{
    let ghost all = crate::message::responses(responses@);
    let mut rest = responses;
    let mut client = Client::connect();
    client.awaiting = Awaiting::ExecStart;
    let mut out = ExecOutput { stdout: Vec::new(), stderr: Vec::new(), code: 0 };
    assert(out@.stdout =~= Seq::empty() && out@.stderr =~= Seq::empty());
    while rest.len() > 0
        invariant
            exec_spec(all) == collect(crate::message::responses(rest@), client.awaiting, out@),
        decreases rest.len(),
    {
        let ghost before = crate::message::responses(rest@);
        let resp = rest.remove(0);
        proof {
            assert(before[0] == resp@);
            assert(crate::message::responses(rest@) =~= before.skip(1));
        }
        match client.receive(resp) {
            Reply::Started(_) => {},
            Reply::Event(ExecEvent::Stdout(data)) => {
                extend(&mut out.stdout, &data);
            },
            Reply::Event(ExecEvent::Stderr(data)) => {
                extend(&mut out.stderr, &data);
            },
            Reply::Exit(code) => {
                out.code = code;
                return Ok(out);
            },
            Reply::Fail(e) => {
                return Err(e);
            },
            _ => {
                return Err(ClientError::InvalidData);
            },
        }
    }
    Err(ClientError::UnexpectedEof)
}

/// The stdout payloads of a series of output responses, in order.
pub open spec fn stdout_of(sent: Seq<ResponseView>) -> Seq<u8>
    decreases sent.len(),
{
    if sent.len() == 0 {
        Seq::empty()
    } else {
        match sent[0] {
            ResponseView::Stdout(data) => data + stdout_of(sent.skip(1)),
            _ => stdout_of(sent.skip(1)),
        }
    }
}

/// The stderr payloads of a series of output responses, in order.
pub open spec fn stderr_of(sent: Seq<ResponseView>) -> Seq<u8>
    decreases sent.len(),
{
    if sent.len() == 0 {
        Seq::empty()
    } else {
        match sent[0] {
            ResponseView::Stderr(data) => data + stderr_of(sent.skip(1)),
            _ => stderr_of(sent.skip(1)),
        }
    }
}

/// Output followed by an exit is collected in full.
proof fn lemma_collect_output(sent: Seq<ResponseView>, so_far: ExecOutputView)
    requires
        sent.len() >= 1,
        sent.last() is Exit,
        forall|i: int| 0 <= i < sent.len() - 1 ==> is_output(#[trigger] sent[i]),
    ensures
        collect(sent, Awaiting::ExecOutput, so_far) == Ok::<ExecOutputView, ClientErrorView>(
            ExecOutputView {
                stdout: so_far.stdout + stdout_of(sent.drop_last()),
                stderr: so_far.stderr + stderr_of(sent.drop_last()),
                code: sent.last()->Exit_0,
            },
        ),
    decreases sent.len(),
{
    if sent.len() == 1 {
        assert(sent.drop_last() =~= Seq::empty());
        assert(so_far.stdout + Seq::<u8>::empty() =~= so_far.stdout);
        assert(so_far.stderr + Seq::<u8>::empty() =~= so_far.stderr);
    } else {
        let rest = sent.skip(1);
        assert(is_output(sent[0]));
        assert(rest.last() == sent.last());
        assert forall|i: int| 0 <= i < rest.len() - 1 implies is_output(#[trigger] rest[i]) by {
            assert(rest[i] == sent[i + 1]);
        }
        assert(sent.drop_last().skip(1) =~= rest.drop_last());
        assert(sent.drop_last()[0] == sent[0]);
        match sent[0] {
            ResponseView::Stdout(data) => {
                let next = ExecOutputView { stdout: so_far.stdout + data, ..so_far };
                lemma_collect_output(rest, next);
                assert(so_far.stdout + data + stdout_of(rest.drop_last()) =~= so_far.stdout + (data
                    + stdout_of(rest.drop_last())));
            },
            ResponseView::Stderr(data) => {
                let next = ExecOutputView { stderr: so_far.stderr + data, ..so_far };
                lemma_collect_output(rest, next);
                assert(so_far.stderr + data + stderr_of(rest.drop_last()) =~= so_far.stderr + (data
                    + stderr_of(rest.drop_last())));
            },
            _ => {},
        }
    }
}

/// The client accepts what the agent sends: the responses of an exec that
/// ran to its exit are collected without error, with every stdout chunk and
/// every stderr chunk in order, and with the exit code that was sent.
pub proof fn lemma_exec_accepted(sent: Seq<ResponseView>)
    requires
        framed(Phase::Exited, sent),
    ensures
        exec_spec(sent) == Ok::<ExecOutputView, ClientErrorView>(
            ExecOutputView {
                stdout: stdout_of(sent.skip(1).drop_last()),
                stderr: stderr_of(sent.skip(1).drop_last()),
                code: sent.last()->Exit_0,
            },
        ),
{
    let rest = sent.skip(1);
    assert(rest.last() == sent.last());
    assert forall|i: int| 0 <= i < rest.len() - 1 implies is_output(#[trigger] rest[i]) by {
        assert(rest[i] == sent[i + 1]);
    }
    let empty = ExecOutputView { stdout: Seq::empty(), stderr: Seq::empty(), code: 0 };
    lemma_collect_output(rest, empty);
    assert(Seq::<u8>::empty() + stdout_of(rest.drop_last()) =~= stdout_of(rest.drop_last()));
    assert(Seq::<u8>::empty() + stderr_of(rest.drop_last()) =~= stderr_of(rest.drop_last()));
}

} // verus!
