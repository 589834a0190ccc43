//! Messages exchanged between the host and the guest agent.
//!
//! Every message type has a view: the same value with strings as sequences
//! of characters and byte buffers as sequences of bytes. Contracts across the
//! crate are stated over these views.

use vstd::prelude::*;
use crate::text::{opt_str, strs};

verus! {

/// Default vsock port of the guest agent.
pub const AGENT_PORT: u32 = 1024;

/// Command execution request.
#[derive(Debug, Clone, PartialEq, Eq)]
pub struct ExecReq {
    /// Executable path or name.
    pub cmd: String,
    /// Command-line arguments (excluding argv\[0\]).
    pub args: Vec<String>,
    /// Environment variables in `KEY=VALUE` format.
    pub env: Vec<String>,
    /// Working directory inside the guest.
    pub cwd: Option<String>,
    /// Override UID for this execution.
    pub uid: Option<u32>,
    /// Override GID for this execution.
    pub gid: Option<u32>,
    /// Whether the host will send stdin data.
    pub stdin: bool,
}

/// Mathematical value of an [`ExecReq`].
pub struct ExecReqView {
    pub cmd: Seq<char>,
    pub args: Seq<Seq<char>>,
    pub env: Seq<Seq<char>>,
    pub cwd: Option<Seq<char>>,
    pub uid: Option<u32>,
    pub gid: Option<u32>,
    pub stdin: bool,
}

impl View for ExecReq {
    type V = ExecReqView;

    open spec fn view(&self) -> ExecReqView {
        ExecReqView {
            cmd: self.cmd@,
            args: strs(self.args@),
            env: strs(self.env@),
            cwd: opt_str(self.cwd),
            uid: self.uid,
            gid: self.gid,
            stdin: self.stdin,
        }
    }
}

impl ExecReq {
    /// Creates a new exec request for the given command: no arguments, no
    /// environment, no working directory, no user override, no stdin.
    #[must_use]
    pub fn new(cmd: &str) -> (req: Self)
        ensures
            req@ == (ExecReqView {
                cmd: cmd@,
                args: Seq::empty(),
                env: Seq::empty(),
                cwd: None,
                uid: None,
                gid: None,
                stdin: false,
            }),
    {
        let req = ExecReq {
            cmd: cmd.to_owned(),
            args: Vec::new(),
            env: Vec::new(),
            cwd: None,
            uid: None,
            gid: None,
            stdin: false,
        };
        assert(req@.args =~= Seq::empty());
        assert(req@.env =~= Seq::empty());
        req
    }

    /// Sets the command-line arguments.
    #[must_use]
    pub fn args(self, args: Vec<String>) -> (req: Self)
        ensures
            req@ == (ExecReqView { args: strs(args@), ..self@ }),
    {
        let mut req = self;
        req.args = args;
        req
    }

    /// Sets the environment variables.
    #[must_use]
    pub fn env(self, env: Vec<String>) -> (req: Self)
        ensures
            req@ == (ExecReqView { env: strs(env@), ..self@ }),
    {
        let mut req = self;
        req.env = env;
        req
    }

    /// Sets the working directory.
    #[must_use]
    pub fn cwd(self, cwd: &str) -> (req: Self)
        ensures
            req@ == (ExecReqView { cwd: Some(cwd@), ..self@ }),
    {
        let mut req = self;
        req.cwd = Some(cwd.to_owned());
        req
    }

    /// Sets the UID and GID for execution.
    #[must_use]
    pub fn user(self, uid: u32, gid: u32) -> (req: Self)
        ensures
            req@ == (ExecReqView { uid: Some(uid), gid: Some(gid), ..self@ }),
    {
        let mut req = self;
        req.uid = Some(uid);
        req.gid = Some(gid);
        req
    }

    /// Enables stdin piping from the host.
    #[must_use]
    pub fn with_stdin(self) -> (req: Self)
        ensures
            req@ == (ExecReqView { stdin: true, ..self@ }),
    {
        let mut req = self;
        req.stdin = true;
        req
    }
}

/// Request sent from host to guest.
#[derive(Debug, Clone, PartialEq, Eq)]
pub enum Request {
    /// Execute a command inside the guest.
    Exec(ExecReq),
    /// Send a POSIX signal to a running process.
    Signal {
        /// Target process ID.
        pid: u32,
        /// Signal number.
        signal: i32,
    },
    /// Write data to a running process's stdin.
    Stdin {
        /// Target process ID.
        pid: u32,
        /// Raw bytes to write.
        data: Vec<u8>,
    },
    /// Close a running process's stdin (sends EOF).
    StdinClose {
        /// Target process ID.
        pid: u32,
    },
    /// Read a single file from the guest filesystem.
    ReadFile {
        /// Absolute path inside the guest.
        path: String,
    },
    /// Write a single file to the guest filesystem.
    WriteFile {
        /// Absolute path inside the guest.
        path: String,
        /// File contents.
        data: Vec<u8>,
        /// Unix permission mode (e.g. `0o644`).
        mode: u32,
    },
    /// Copy a tar archive into the guest, unpacking at `dest`.
    CopyIn {
        /// Destination directory inside the guest.
        dest: String,
        /// Tar archive bytes.
        tar: Vec<u8>,
    },
    /// Copy a path from the guest as a tar archive.
    CopyOut {
        /// Path inside the guest to archive.
        path: String,
    },
    /// Health-check ping.
    Ping,
    /// Request graceful shutdown of the guest agent.
    Shutdown,
    /// One piece of a chunked transfer.
    Chunk(Vec<u8>),
    /// End of a chunked transfer.
    EndOfStream,
}

/// Mathematical value of a [`Request`].
pub enum RequestView {
    Exec(ExecReqView),
    Signal { pid: u32, signal: i32 },
    Stdin { pid: u32, data: Seq<u8> },
    StdinClose { pid: u32 },
    ReadFile { path: Seq<char> },
    WriteFile { path: Seq<char>, data: Seq<u8>, mode: u32 },
    CopyIn { dest: Seq<char>, tar: Seq<u8> },
    CopyOut { path: Seq<char> },
    Ping,
    Shutdown,
    Chunk(Seq<u8>),
    EndOfStream,
}

impl View for Request {
    type V = RequestView;

    open spec fn view(&self) -> RequestView {
        match *self {
            Request::Exec(req) => RequestView::Exec(req@),
            Request::Signal { pid, signal } => RequestView::Signal { pid, signal },
            Request::Stdin { pid, data } => RequestView::Stdin { pid, data: data@ },
            Request::StdinClose { pid } => RequestView::StdinClose { pid },
            Request::ReadFile { path } => RequestView::ReadFile { path: path@ },
            Request::WriteFile { path, data, mode } => RequestView::WriteFile {
                path: path@,
                data: data@,
                mode,
            },
            Request::CopyIn { dest, tar } => RequestView::CopyIn { dest: dest@, tar: tar@ },
            Request::CopyOut { path } => RequestView::CopyOut { path: path@ },
            Request::Ping => RequestView::Ping,
            Request::Shutdown => RequestView::Shutdown,
            Request::Chunk(data) => RequestView::Chunk(data@),
            Request::EndOfStream => RequestView::EndOfStream,
        }
    }
}

/// Response sent from guest to host.
///
/// For [`Request::Exec`], the guest first sends [`Response::Started`] with
/// the child PID, then streams [`Response::Stdout`] / [`Response::Stderr`]
/// chunks, and finally sends exactly one [`Response::Exit`].
#[derive(Debug, Clone, PartialEq, Eq)]
pub enum Response {
    /// Process started with the given PID (for subsequent `Stdin`/`Signal`).
    Started {
        /// Child process ID inside the guest.
        pid: u32,
    },
    /// A chunk of stdout data.
    Stdout(Vec<u8>),
    /// A chunk of stderr data.
    Stderr(Vec<u8>),
    /// Process exited with the given code (`-1` if killed by signal).
    Exit(i32),
    /// An error occurred while handling the request.
    Error(String),
    /// Reply to [`Request::Ping`].
    Pong,
    /// File contents returned for [`Request::ReadFile`].
    FileData(Vec<u8>),
    /// Tar archive returned for [`Request::CopyOut`].
    TarData(Vec<u8>),
    /// One piece of a chunked transfer.
    Chunk(Vec<u8>),
    /// End of a chunked transfer.
    EndOfStream,
    /// Generic success acknowledgment.
    Ack,
}

/// Mathematical value of a [`Response`].
pub enum ResponseView {
    Started { pid: u32 },
    Stdout(Seq<u8>),
    Stderr(Seq<u8>),
    Exit(i32),
    Error(Seq<char>),
    Pong,
    FileData(Seq<u8>),
    TarData(Seq<u8>),
    Chunk(Seq<u8>),
    EndOfStream,
    Ack,
}

impl View for Response {
    type V = ResponseView;

    open spec fn view(&self) -> ResponseView {
        match *self {
            Response::Started { pid } => ResponseView::Started { pid },
            Response::Stdout(data) => ResponseView::Stdout(data@),
            Response::Stderr(data) => ResponseView::Stderr(data@),
            Response::Exit(code) => ResponseView::Exit(code),
            Response::Error(msg) => ResponseView::Error(msg@),
            Response::Pong => ResponseView::Pong,
            Response::FileData(data) => ResponseView::FileData(data@),
            Response::TarData(data) => ResponseView::TarData(data@),
            Response::Chunk(data) => ResponseView::Chunk(data@),
            Response::EndOfStream => ResponseView::EndOfStream,
            Response::Ack => ResponseView::Ack,
        }
    }
}

/// The views of a list of requests.
pub open spec fn requests(v: Seq<Request>) -> Seq<RequestView> {
    v.map_values(|m: Request| m@)
}

/// The views of a list of responses.
pub open spec fn responses(v: Seq<Response>) -> Seq<ResponseView> {
    v.map_values(|m: Response| m@)
}

} // verus!
