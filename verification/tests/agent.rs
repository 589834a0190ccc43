use bux::agent::{
    command, copy_in, copy_out, dispatch, read_file, session, write_file, Action, ChildCommand,
    Credential, Event, ExecSession, Op, Phase, Read,
};
use bux::client::{exec, Awaiting, Client, ClientError, ExecEvent, ExecOutput, Reply};
use bux::codec::CodecError;
use bux::message::{ExecReq, Request, Response, AGENT_PORT};

fn run_events(stdin: bool, events: Vec<Event>) -> (ExecSession, Vec<Response>, Vec<Action>) {
    let mut s = ExecSession::new(stdin);
    let mut sent = Vec::new();
    let mut actions = Vec::new();
    for e in events {
        let a = s.step(e);
        if let Action::Send(r) = &a {
            sent.push(r.clone());
        }
        actions.push(a);
    }
    (s, sent, actions)
}

#[test]
fn agent_port_is_1024() {
    assert_eq!(AGENT_PORT, 1024);
}

#[test]
fn exec_req_builders_set_fields() {
    let req = ExecReq::new("/bin/ls");
    assert_eq!(req.cmd, "/bin/ls");
    assert!(req.args.is_empty() && req.env.is_empty());
    assert_eq!((req.cwd.clone(), req.uid, req.gid, req.stdin), (None, None, None, false));
    let req = req.args(vec!["-l".into()]).env(vec!["A=1".into()]).cwd("/x").user(7, 8).with_stdin();
    assert_eq!(req.args, vec!["-l"]);
    assert_eq!(req.env, vec!["A=1"]);
    assert_eq!(req.cwd.as_deref(), Some("/x"));
    assert_eq!((req.uid, req.gid, req.stdin), (Some(7), Some(8), true));
}

#[test]
fn ping_gets_pong() {
    let mut client = Client::connect();
    let req = client.ping();
    assert_eq!(req, Request::Ping);
    let resp = match dispatch(req) {
        Op::Reply(resp) => resp,
        other => panic!("unexpected {other:?}"),
    };
    assert_eq!(resp, Response::Pong);
    assert_eq!(client.receive(resp), Reply::Done);
    assert_eq!(client.awaiting, Awaiting::Nothing);
}

#[test]
fn dispatch_table() {
    assert_eq!(dispatch(Request::Shutdown), Op::Shutdown);
    assert_eq!(
        dispatch(Request::Signal { pid: 5, signal: 15 }),
        Op::Signal { pid: 5, signal: 15 }
    );
    assert_eq!(
        dispatch(Request::ReadFile { path: "/a".into() }),
        Op::ReadFile { path: "/a".into() }
    );
    assert_eq!(
        dispatch(Request::WriteFile { path: "/a".into(), data: vec![1], mode: 0o600 }),
        Op::WriteFile { path: "/a".into(), data: vec![1], mode: 0o600 }
    );
    assert_eq!(
        dispatch(Request::CopyIn { dest: "/d".into(), tar: vec![2] }),
        Op::CopyIn { dest: "/d".into(), tar: vec![2] }
    );
    assert_eq!(
        dispatch(Request::CopyOut { path: "/p".into() }),
        Op::CopyOut { path: "/p".into() }
    );
    assert_eq!(
        dispatch(Request::Stdin { pid: 1, data: vec![1] }),
        Op::Reply(Response::Ack)
    );
    assert_eq!(dispatch(Request::StdinClose { pid: 1 }), Op::Reply(Response::Ack));
    assert_eq!(
        dispatch(Request::Chunk(vec![1])),
        Op::Reply(Response::Error("unexpected message".into()))
    );
    assert_eq!(
        dispatch(Request::EndOfStream),
        Op::Reply(Response::Error("unexpected message".into()))
    );
    let req = ExecReq::new("true");
    assert_eq!(dispatch(Request::Exec(req.clone())), Op::Exec(req));
}

#[test]
fn outcomes_become_responses() {
    assert_eq!(read_file(Ok(vec![1, 2])), Response::FileData(vec![1, 2]));
    assert_eq!(read_file(Err("gone".into())), Response::Error("gone".into()));
    assert_eq!(write_file(Ok(())), Response::Ack);
    assert_eq!(write_file(Err("denied".into())), Response::Error("denied".into()));
    assert_eq!(copy_in(Ok(())), Response::Ack);
    assert_eq!(copy_in(Err("bad tar".into())), Response::Error("bad tar".into()));
    assert_eq!(copy_out(Ok(vec![9])), Response::TarData(vec![9]));
    assert_eq!(copy_out(Err("no".into())), Response::Error("no".into()));
}

#[test]
fn session_ends_cleanly_on_eof_only() {
    assert_eq!(session(CodecError::UnexpectedEof), Ok(()));
    assert_eq!(session(CodecError::InvalidData), Err(CodecError::InvalidData));
}

#[test]
fn command_parses_env_and_orders_credentials() {
    let req = ExecReq::new("/bin/sh")
        .args(vec!["-c".into(), "id".into()])
        .env(vec!["A=1".into(), "novalue".into(), "B=x=y".into(), "=z".into()])
        .cwd("/work")
        .user(1000, 100);
    let cmd = command(&req);
    assert_eq!(
        cmd,
        ChildCommand {
            program: "/bin/sh".into(),
            args: vec!["-c".into(), "id".into()],
            env: vec![
                ("A".into(), "1".into()),
                ("B".into(), "x=y".into()),
                ("".into(), "z".into()),
            ],
            cwd: Some("/work".into()),
            stdin: false,
            credentials: vec![Credential::Gid(100), Credential::Uid(1000)],
        }
    );
    let plain = command(&ExecReq::new("ls").with_stdin());
    assert!(plain.credentials.is_empty() && plain.env.is_empty());
    assert!(plain.stdin);
    assert_eq!(plain.cwd, None);
}

#[test]
fn echo_exec() {
    let events = vec![
        Event::Spawned { pid: 7 },
        Event::Stdout(Read::Bytes(b"hi\n".to_vec())),
        Event::Stdout(Read::Bytes(Vec::new())),
        Event::Stderr(Read::Bytes(Vec::new())),
        Event::Reaped(Some(0)),
    ];
    let (s, sent, _) = run_events(false, events);
    assert_eq!(s.phase, Phase::Exited);
    assert!(s.finished());
    assert_eq!(
        sent,
        vec![
            Response::Started { pid: 7 },
            Response::Stdout(b"hi\n".to_vec()),
            Response::Exit(0),
        ]
    );
    let out = exec(sent).unwrap();
    assert_eq!(out, ExecOutput { stdout: b"hi\n".to_vec(), stderr: Vec::new(), code: 0 });
}

#[test]
fn stdin_passthrough() {
    let mut s = ExecSession::new(true);
    assert_eq!(s.step(Event::Spawned { pid: 9 }), Action::Send(Response::Started { pid: 9 }));
    assert!(s.wants().host && s.wants().stdout && s.wants().stderr && !s.wants().exit);
    assert_eq!(
        s.step(Event::Host(Request::Stdin { pid: 9, data: b"abc".to_vec() })),
        Action::WriteStdin(b"abc".to_vec())
    );
    assert_eq!(s.step(Event::Host(Request::StdinClose { pid: 9 })), Action::CloseStdin);
    assert!(!s.wants().host);
    assert_eq!(
        s.step(Event::Stdout(Read::Bytes(b"abc".to_vec()))),
        Action::Send(Response::Stdout(b"abc".to_vec()))
    );
    assert_eq!(s.step(Event::Stdout(Read::Bytes(Vec::new()))), Action::Idle);
    assert_eq!(s.step(Event::Stderr(Read::Failed)), Action::Idle);
    assert!(s.wants().exit && !s.wants().stdout && !s.wants().stderr);
    assert_eq!(s.step(Event::Reaped(Some(0))), Action::Send(Response::Exit(0)));
    assert!(s.finished());
}

#[test]
fn stdin_left_open_is_closed_before_the_wait() {
    let mut s = ExecSession::new(true);
    s.step(Event::Spawned { pid: 1 });
    assert_eq!(s.step(Event::Stderr(Read::Bytes(Vec::new()))), Action::Idle);
    assert_eq!(s.step(Event::Stdout(Read::Failed)), Action::CloseStdin);
    assert_eq!(s.phase, Phase::Reaping);
    assert!(!s.stdin_open);
}

#[test]
fn signals_are_forwarded_and_other_requests_ignored() {
    let mut s = ExecSession::new(true);
    s.step(Event::Spawned { pid: 1 });
    assert_eq!(
        s.step(Event::Host(Request::Signal { pid: 44, signal: 9 })),
        Action::Signal { pid: 44, signal: 9 }
    );
    assert_eq!(s.step(Event::Host(Request::Ping)), Action::Idle);
    assert_eq!(s.step(Event::HostFailed), Action::Idle);
    assert_eq!(s.phase, Phase::Running);
    let mut closed = ExecSession::new(false);
    closed.step(Event::Spawned { pid: 1 });
    assert_eq!(
        closed.step(Event::Host(Request::Signal { pid: 44, signal: 9 })),
        Action::Idle
    );
}

#[test]
fn killed_child_exits_with_minus_one() {
    let events = vec![
        Event::Spawned { pid: 3 },
        Event::Stderr(Read::Bytes(b"oops".to_vec())),
        Event::Stdout(Read::Failed),
        Event::Stderr(Read::Failed),
        Event::Reaped(None),
    ];
    let (_, sent, _) = run_events(false, events);
    assert_eq!(sent.last(), Some(&Response::Exit(-1)));
    let out = exec(sent).unwrap();
    assert_eq!(out.code, -1);
    assert_eq!(out.stderr, b"oops");
}

#[test]
fn spawn_failure_sends_one_error() {
    let events = vec![
        Event::SpawnFailed("No such file or directory".into()),
        Event::Stdout(Read::Bytes(b"late".to_vec())),
        Event::Reaped(Some(0)),
    ];
    let (s, sent, _) = run_events(true, events);
    assert_eq!(s.phase, Phase::Failed);
    assert!(s.finished() && !s.stdin_open);
    assert_eq!(sent, vec![Response::Error("No such file or directory".into())]);
    assert_eq!(
        exec(sent),
        Err(ClientError::Remote("No such file or directory".into()))
    );
}

#[test]
fn events_out_of_turn_change_nothing() {
    let mut s = ExecSession::new(false);
    assert_eq!(s.step(Event::Reaped(Some(1))), Action::Idle);
    assert_eq!(s.step(Event::Stdout(Read::Bytes(vec![1]))), Action::Idle);
    assert_eq!(s, ExecSession::new(false));
    s.step(Event::Spawned { pid: 2 });
    assert_eq!(s.step(Event::Spawned { pid: 3 }), Action::Idle);
    assert_eq!(s.step(Event::Reaped(Some(1))), Action::Idle);
    s.step(Event::Stdout(Read::Failed));
    assert_eq!(s.step(Event::Stdout(Read::Bytes(vec![1]))), Action::Idle);
    s.step(Event::Stderr(Read::Failed));
    s.step(Event::Reaped(Some(4)));
    assert_eq!(s.step(Event::Reaped(Some(5))), Action::Idle);
    assert_eq!(s.phase, Phase::Exited);
}

#[test]
fn response_stream_is_framed_for_every_interleaving() {
    let alphabet = || {
        vec![
            Event::Spawned { pid: 1 },
            Event::SpawnFailed("e".into()),
            Event::Host(Request::StdinClose { pid: 1 }),
            Event::Stdout(Read::Bytes(vec![1])),
            Event::Stdout(Read::Failed),
            Event::Stderr(Read::Bytes(vec![2])),
            Event::Stderr(Read::Bytes(Vec::new())),
            Event::Reaped(Some(0)),
        ]
    };
    let n = alphabet().len();
    let len = 6;
    let mut total = 1;
    for _ in 0..len {
        total *= n;
    }
    for mut code in 0..total {
        let mut events = Vec::new();
        for _ in 0..len {
            events.push(alphabet()[code % n].clone());
            code /= n;
        }
        let (s, sent, _) = run_events(true, events);
        match s.phase {
            Phase::Spawning => assert!(sent.is_empty()),
            Phase::Failed => assert!(sent.len() == 1 && matches!(sent[0], Response::Error(_))),
            Phase::Running | Phase::Reaping => {
                assert!(matches!(sent[0], Response::Started { .. }));
                assert!(sent[1..]
                    .iter()
                    .all(|r| matches!(r, Response::Stdout(_) | Response::Stderr(_))));
            }
            Phase::Exited => {
                assert!(matches!(sent[0], Response::Started { .. }));
                assert!(matches!(sent[sent.len() - 1], Response::Exit(_)));
                assert!(sent[1..sent.len() - 1]
                    .iter()
                    .all(|r| matches!(r, Response::Stdout(_) | Response::Stderr(_))));
                assert!(exec(sent).is_ok());
            }
        }
    }
}

#[test]
fn client_requests_and_replies() {
    let mut c = Client::connect();
    assert_eq!(c.shutdown(), Request::Shutdown);
    assert_eq!(c.receive(Response::Ack), Reply::Done);
    assert_eq!(c.signal(3, 9), Request::Signal { pid: 3, signal: 9 });
    assert_eq!(c.receive(Response::Pong), Reply::Fail(ClientError::InvalidData));
    assert_eq!(c.read_file("/etc/hostname"), Request::ReadFile { path: "/etc/hostname".into() });
    assert_eq!(c.receive(Response::FileData(vec![1])), Reply::File(vec![1]));
    assert_eq!(c.read_file("/nope"), Request::ReadFile { path: "/nope".into() });
    assert_eq!(
        c.receive(Response::Error("not found".into())),
        Reply::Fail(ClientError::Remote("not found".into()))
    );
    assert_eq!(
        c.write_file("/f", vec![7], 0o644),
        Request::WriteFile { path: "/f".into(), data: vec![7], mode: 0o644 }
    );
    assert_eq!(c.receive(Response::Ack), Reply::Done);
    assert_eq!(c.receive(Response::Ack), Reply::Fail(ClientError::InvalidData));
}

#[test]
fn client_exec_stream_accepts_started_first_only() {
    let mut c = Client::connect();
    let req = ExecReq::new("/bin/echo").args(vec!["hi".into()]);
    assert_eq!(c.exec_stream(req.clone()), Request::Exec(req));
    assert_eq!(c.receive(Response::Started { pid: 4 }), Reply::Started(4));
    assert_eq!(
        c.receive(Response::Stderr(vec![1])),
        Reply::Event(ExecEvent::Stderr(vec![1]))
    );
    assert_eq!(c.awaiting, Awaiting::ExecOutput);
    assert_eq!(
        c.receive(Response::Started { pid: 4 }),
        Reply::Fail(ClientError::InvalidData)
    );
    assert_eq!(c.awaiting, Awaiting::Nothing);
}

#[test]
fn client_exec_collects_and_fails() {
    assert_eq!(exec(Vec::new()), Err(ClientError::UnexpectedEof));
    assert_eq!(
        exec(vec![Response::Started { pid: 1 }, Response::Stdout(vec![1])]),
        Err(ClientError::UnexpectedEof)
    );
    assert_eq!(
        exec(vec![Response::Started { pid: 1 }, Response::Pong]),
        Err(ClientError::InvalidData)
    );
    let out = exec(vec![
        Response::Stdout(vec![1]),
        Response::Stderr(vec![9]),
        Response::Stdout(vec![2, 3]),
        Response::Exit(17),
        Response::Pong,
    ])
    .unwrap();
    assert_eq!(out, ExecOutput { stdout: vec![1, 2, 3], stderr: vec![9], code: 17 });
}
