use bux::codec::{
    decode_header, encode_header, recv, send, send_request_chunks, send_response_chunks,
    CodecError, MAX_FRAME,
};
use bux::message::{ExecReq, Request, Response};

type ExecWire = (
    u32,
    String,
    Vec<String>,
    Vec<String>,
    Option<String>,
    Option<u32>,
    Option<u32>,
    bool,
);

fn exec_wire(req: &ExecReq) -> Vec<u8> {
    let wire: ExecWire = (
        0,
        req.cmd.clone(),
        req.args.clone(),
        req.env.clone(),
        req.cwd.clone(),
        req.uid,
        req.gid,
        req.stdin,
    );
    postcard::to_allocvec(&wire).unwrap()
}

fn response_wire(resp: &Response) -> Vec<u8> {
    match resp {
        Response::Started { pid } => postcard::to_allocvec(&(0u32, *pid)).unwrap(),
        Response::Stdout(d) => postcard::to_allocvec(&(1u32, d.clone())).unwrap(),
        Response::Stderr(d) => postcard::to_allocvec(&(2u32, d.clone())).unwrap(),
        Response::Exit(code) => postcard::to_allocvec(&(3u32, *code)).unwrap(),
        Response::Error(msg) => postcard::to_allocvec(&(4u32, msg.clone())).unwrap(),
        Response::Pong => postcard::to_allocvec(&(5u32,)).unwrap(),
        Response::FileData(d) => postcard::to_allocvec(&(6u32, d.clone())).unwrap(),
        Response::TarData(d) => postcard::to_allocvec(&(7u32, d.clone())).unwrap(),
        Response::Chunk(d) => postcard::to_allocvec(&(8u32, d.clone())).unwrap(),
        Response::EndOfStream => postcard::to_allocvec(&(9u32,)).unwrap(),
        Response::Ack => postcard::to_allocvec(&(10u32,)).unwrap(),
    }
}

#[test]
fn roundtrip_handshake() {
    let mut stream = Vec::new();
    let payload = postcard::to_allocvec(&(12u32, 2u32)).unwrap();
    send(&mut stream, &payload).unwrap();
    let (decoded, used) = recv(&stream).unwrap();
    assert_eq!(used, stream.len());
    let (_, version): (u32, u32) = postcard::from_bytes(&decoded).unwrap();
    assert!(matches!(version, 2));
}

#[test]
fn roundtrip_exec() {
    let req = ExecReq::new("/bin/ls")
        .args(vec!["-la".into()])
        .env(vec!["PATH=/usr/bin".into()])
        .cwd("/tmp")
        .user(1000, 1000)
        .with_stdin();

    let mut stream = Vec::new();
    send(&mut stream, &exec_wire(&req)).unwrap();
    let (decoded, _) = recv(&stream).unwrap();
    let e: ExecWire = postcard::from_bytes(&decoded).unwrap();
    assert_eq!(e.0, 0);
    assert_eq!(e.1, "/bin/ls");
    assert_eq!(e.2, vec!["-la"]);
    assert_eq!(e.5, Some(1000));
    assert!(e.7);
}

#[test]
fn roundtrip_response_variants() {
    let cases: Vec<Response> = vec![
        Response::Started { pid: 42 },
        Response::Stdout(b"hello".to_vec()),
        Response::Stderr(b"error".to_vec()),
        Response::Exit(0),
        Response::Error("boom".into()),
        Response::Pong,
        Response::FileData(b"content".to_vec()),
        Response::TarData(b"content".to_vec()),
        Response::Chunk(b"content".to_vec()),
        Response::EndOfStream,
        Response::Ack,
    ];

    for resp in cases {
        let payload = response_wire(&resp);
        let mut stream = Vec::new();
        send(&mut stream, &payload).unwrap();
        let (decoded, used) = recv(&stream).unwrap();
        assert_eq!(decoded, payload);
        assert_eq!(used, 4 + payload.len());
    }
}

#[test]
fn roundtrip_streaming_copy_in() {
    let mut stream = Vec::new();

    // Send header + chunks + end
    let header = postcard::to_allocvec(&(6u32, "/tmp", Vec::<u8>::new())).unwrap();
    send(&mut stream, &header).unwrap();
    send(&mut stream, &postcard::to_allocvec(&(10u32, vec![1u8, 2, 3])).unwrap()).unwrap();
    send(&mut stream, &postcard::to_allocvec(&(10u32, vec![4u8, 5, 6])).unwrap()).unwrap();
    send(&mut stream, &postcard::to_allocvec(&(11u32,)).unwrap()).unwrap();

    // Receive and verify
    let (first, mut pos) = recv(&stream).unwrap();
    let (tag, dest, _tar): (u32, String, Vec<u8>) = postcard::from_bytes(&first).unwrap();
    assert!(matches!(tag, 6) && dest == "/tmp");

    let mut collected = Vec::new();
    loop {
        let (payload, used) = recv(&stream[pos..]).unwrap();
        pos += used;
        let (tag, rest): (u32, &[u8]) = postcard::take_from_bytes(&payload).unwrap();
        match tag {
            10 => {
                let data: Vec<u8> = postcard::from_bytes(rest).unwrap();
                collected.extend(data);
            }
            11 => break,
            _ => panic!("unexpected message"),
        }
    }
    assert_eq!(collected, vec![1, 2, 3, 4, 5, 6]);
    assert_eq!(pos, stream.len());
}

#[test]
fn send_response_chunks_helper() {
    let data = vec![10u8; 600];
    let mut sent: Vec<Response> = Vec::new();

    send_response_chunks(&mut sent, &data, 256);

    let mut collected = Vec::new();
    let mut ended = false;
    for msg in sent {
        match msg {
            Response::Chunk(chunk) => {
                assert!(!ended);
                collected.extend(chunk)
            }
            Response::EndOfStream => ended = true,
            _ => panic!("unexpected message"),
        }
    }
    assert!(ended);
    assert_eq!(collected, data);
}

#[test]
fn rejects_oversized_frame() {
    let mut buf = Vec::new();
    buf.extend_from_slice(&(32u32 * 1024 * 1024).to_be_bytes());
    buf.extend_from_slice(&[0u8; 16]); // dummy payload bytes
    let result = recv(&buf);
    assert!(result.is_err());
    assert_eq!(result, Err(CodecError::InvalidData));
}

#[test]
fn header_is_big_endian() {
    assert_eq!(encode_header(0x0102_0304), [1, 2, 3, 4]);
    assert_eq!(encode_header(0), [0, 0, 0, 0]);
    assert_eq!(encode_header(u32::MAX), 0xffff_ffffu32.to_be_bytes());
    assert_eq!(decode_header(&[0, 0, 1, 0]), Ok(256));
    assert_eq!(decode_header(&MAX_FRAME.to_be_bytes()), Ok(MAX_FRAME));
    assert_eq!(
        decode_header(&(MAX_FRAME + 1).to_be_bytes()),
        Err(CodecError::InvalidData)
    );
}

#[test]
fn frame_layout_is_header_then_payload() {
    let mut stream = vec![9u8];
    send(&mut stream, b"abc").unwrap();
    assert_eq!(stream, vec![9, 0, 0, 0, 3, b'a', b'b', b'c']);
    let mut empty = Vec::new();
    send(&mut empty, b"").unwrap();
    assert_eq!(empty, vec![0, 0, 0, 0]);
    assert_eq!(recv(&empty), Ok((Vec::new(), 4)));
}

#[test]
fn short_reads_are_unexpected_eof() {
    assert_eq!(recv(&[]), Err(CodecError::UnexpectedEof));
    assert_eq!(recv(&[0, 0, 0]), Err(CodecError::UnexpectedEof));
    assert_eq!(recv(&[0, 0, 0, 2, 7]), Err(CodecError::UnexpectedEof));
    assert_eq!(recv(&[0, 0, 0, 2, 7, 8]), Ok((vec![7, 8], 6)));
    assert_eq!(recv(&[0, 0, 0, 1, 7, 8]), Ok((vec![7], 5)));
}

#[test]
fn frames_keep_their_boundaries() {
    let mut stream = Vec::new();
    send(&mut stream, b"first").unwrap();
    send(&mut stream, b"").unwrap();
    send(&mut stream, b"third").unwrap();
    let (a, used_a) = recv(&stream).unwrap();
    let (b, used_b) = recv(&stream[used_a..]).unwrap();
    let (c, used_c) = recv(&stream[used_a + used_b..]).unwrap();
    assert_eq!(a, b"first");
    assert_eq!(b, b"");
    assert_eq!(c, b"third");
    assert_eq!(used_a + used_b + used_c, stream.len());
}

#[test]
fn largest_frame_round_trips() {
    let payload = vec![0xabu8; MAX_FRAME as usize];
    let mut stream = Vec::new();
    send(&mut stream, &payload).unwrap();
    let (decoded, used) = recv(&stream).unwrap();
    assert_eq!(used, payload.len() + 4);
    assert!(decoded == payload);
    let over = vec![0u8; MAX_FRAME as usize + 1];
    let mut stream = Vec::new();
    send(&mut stream, &over).unwrap();
    assert_eq!(recv(&stream), Err(CodecError::InvalidData));
}

#[test]
fn request_chunks_cut_at_chunk_size() {
    let data: Vec<u8> = (0u8..10).collect();
    let mut sent = vec![Request::Ping];
    send_request_chunks(&mut sent, &data, 4);
    assert_eq!(
        sent,
        vec![
            Request::Ping,
            Request::Chunk(vec![0, 1, 2, 3]),
            Request::Chunk(vec![4, 5, 6, 7]),
            Request::Chunk(vec![8, 9]),
            Request::EndOfStream,
        ]
    );
}

#[test]
fn empty_data_is_only_end_of_stream() {
    let mut requests = Vec::new();
    send_request_chunks(&mut requests, &[], 8);
    assert_eq!(requests, vec![Request::EndOfStream]);
    let mut responses = Vec::new();
    send_response_chunks(&mut responses, &[], 1);
    assert_eq!(responses, vec![Response::EndOfStream]);
}

#[test]
fn exact_multiple_has_no_empty_chunk() {
    let mut sent = Vec::new();
    send_response_chunks(&mut sent, &[1, 2, 3, 4], 2);
    assert_eq!(
        sent,
        vec![
            Response::Chunk(vec![1, 2]),
            Response::Chunk(vec![3, 4]),
            Response::EndOfStream,
        ]
    );
    let mut one = Vec::new();
    send_response_chunks(&mut one, &[1, 2, 3], 100);
    assert_eq!(one, vec![Response::Chunk(vec![1, 2, 3]), Response::EndOfStream]);
}
