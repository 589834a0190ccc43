//! Length-prefixed frame codec.
//!
//! Each frame is a 4-byte big-endian length `N` followed by `N` payload
//! bytes. A byte stream is modelled by a buffer: sending appends a frame to
//! it, receiving takes one frame from its front. The payload is the encoded
//! message; turning a message into bytes is left to the caller.

use vstd::prelude::*;
use crate::message::{requests, responses, Request, RequestView, Response, ResponseView};

verus! {

/// Maximum allowed frame payload (16 MiB).
pub const MAX_FRAME: u32 = 16 * 1024 * 1024;

/// Number of bytes in a frame header.
pub const HEADER_LEN: usize = 4;

/// Why a frame could not be sent or received.
#[derive(Debug, Clone, Copy, PartialEq, Eq, Structural)]
pub enum CodecError {
    /// The length does not fit the header, or exceeds [`MAX_FRAME`].
    InvalidData,
    /// The stream ended before the frame was complete.
    UnexpectedEof,
}

/// The four big-endian bytes of `n`.
pub open spec fn header_of(n: nat) -> Seq<u8> {
    seq![
        ((n / 0x100_0000) % 0x100) as u8,
        ((n / 0x1_0000) % 0x100) as u8,
        ((n / 0x100) % 0x100) as u8,
        (n % 0x100) as u8,
    ]
}

/// The number that four big-endian bytes stand for.
pub open spec fn header_value(hdr: Seq<u8>) -> nat {
    (hdr[0] as nat) * 0x100_0000 + (hdr[1] as nat) * 0x1_0000 + (hdr[2] as nat) * 0x100
        + (hdr[3] as nat)
}

/// The frame that carries `payload`.
pub open spec fn frame(payload: Seq<u8>) -> Seq<u8> {
    header_of(payload.len()) + payload
}

/// What receiving from a stream holding `r` gives: the first frame's payload
/// and the number of bytes it took, or the reason there is none.
pub open spec fn recv_spec(r: Seq<u8>) -> Result<(Seq<u8>, nat), CodecError> {
    if r.len() < 4 {
        Err(CodecError::UnexpectedEof)
    } else {
        let n = header_value(r.subrange(0, 4));
        if n > MAX_FRAME {
            Err(CodecError::InvalidData)
        } else if r.len() < 4 + n {
            Err(CodecError::UnexpectedEof)
        } else {
            Ok((r.subrange(4, 4 + n as int), 4 + n))
        }
    }
}

/// Decoding a header gives back the length it was made from.
pub proof fn lemma_header_roundtrip(n: nat)
    requires
        n <= u32::MAX,
    ensures
        header_of(n).len() == 4,
        header_value(header_of(n)) == n,
{
}

/// Encodes a payload length as a frame header.
pub fn encode_header(len: u32) -> (hdr: [u8; 4])
    ensures
        hdr@ == header_of(len as nat),
{
    let hdr = [
        (len / 0x100_0000) as u8,
        ((len / 0x1_0000) % 0x100) as u8,
        ((len / 0x100) % 0x100) as u8,
        (len % 0x100) as u8,
    ];
    assert(hdr@ =~= header_of(len as nat));
    hdr
}

/// Reads the payload length out of a frame header and validates it:
/// a length above [`MAX_FRAME`] is `InvalidData`.
pub fn decode_header(hdr: &[u8; 4]) -> (r: Result<u32, CodecError>)
    ensures
        header_value(hdr@) <= MAX_FRAME ==> r == Ok::<u32, CodecError>(header_value(hdr@) as u32),
        header_value(hdr@) > MAX_FRAME ==> r == Err::<u32, CodecError>(CodecError::InvalidData),
{
    let len: u32 = (hdr[0] as u32) * 0x100_0000 + (hdr[1] as u32) * 0x1_0000 + (hdr[2] as u32)
        * 0x100 + (hdr[3] as u32);
    if len > MAX_FRAME {
        Err(CodecError::InvalidData)
    } else {
        Ok(len)
    }
}

/// Sends `payload` as one frame: appends its header and its bytes to `w`.
///
/// Fails with `InvalidData`, leaving `w` as it was, when the payload length
/// does not fit in 32 bits.
pub fn send(w: &mut Vec<u8>, payload: &[u8]) -> (r: Result<(), CodecError>)
    ensures
        payload@.len() <= u32::MAX ==> r is Ok && final(w)@ == old(w)@ + frame(payload@),
        payload@.len() > u32::MAX ==> r == Err::<(), CodecError>(CodecError::InvalidData)
            && final(w)@ == old(w)@,
{
    let n: usize = payload.len();
    if n > u32::MAX as usize {
        return Err(CodecError::InvalidData);
    }
    let hdr = encode_header(n as u32);
    let ghost before = w@;
    w.push(hdr[0]);
    w.push(hdr[1]);
    w.push(hdr[2]);
    w.push(hdr[3]);
    assert(w@ =~= before + header_of(n as nat));
    let mut i: usize = 0;
    while i < n
        invariant
            i <= n,
            n == payload@.len(),
            w@ == before + header_of(n as nat) + payload@.subrange(0, i as int),
        decreases n - i,
    {
        w.push(payload[i]);
        i += 1;
    }
    assert(payload@.subrange(0, n as int) =~= payload@);
    assert(w@ =~= before + frame(payload@));
    Ok(())
}

/// Receives one frame from the front of `r`: its payload and the number of
/// bytes it occupied.
///
/// Fails with `UnexpectedEof` when `r` ends inside the header or inside the
/// payload, and with `InvalidData` when the header announces more than
/// [`MAX_FRAME`] bytes.
pub fn recv(r: &[u8]) -> (out: Result<(Vec<u8>, usize), CodecError>)
    ensures
        match out {
            Ok((payload, used)) => recv_spec(r@) == Ok::<(Seq<u8>, nat), CodecError>(
                (payload@, used as nat),
            ),
            Err(e) => recv_spec(r@) == Err::<(Seq<u8>, nat), CodecError>(e),
        },
{
    if r.len() < HEADER_LEN {
        return Err(CodecError::UnexpectedEof);
    }
    let hdr: [u8; 4] = [r[0], r[1], r[2], r[3]];
    assert(hdr@ =~= r@.subrange(0, 4));
    let len = match decode_header(&hdr) {
        Ok(len) => len,
        Err(e) => {
            return Err(e);
        },
    };
    let n: usize = len as usize;
    if r.len() - HEADER_LEN < n {
        return Err(CodecError::UnexpectedEof);
    }
    let mut payload: Vec<u8> = Vec::new();
    let mut i: usize = 0;
    while i < n
        invariant
            i <= n,
            HEADER_LEN + n <= r.len(),
            payload@ == r@.subrange(4, 4 + i as int),
        decreases n - i,
    {
        payload.push(r[HEADER_LEN + i]);
        i += 1;
    }
    Ok((payload, HEADER_LEN + n))
}

/// Round trip: a frame made from a payload of at most [`MAX_FRAME`] bytes is
/// received as that payload, whatever follows it in the stream, and takes
/// exactly the frame's bytes.
pub proof fn lemma_frame_roundtrip(payload: Seq<u8>, rest: Seq<u8>)
    requires
        payload.len() <= MAX_FRAME,
    ensures
        recv_spec(frame(payload) + rest) == Ok::<(Seq<u8>, nat), CodecError>(
            (payload, 4 + payload.len()),
        ),
{
    let r = frame(payload) + rest;
    lemma_header_roundtrip(payload.len());
    assert(r.subrange(0, 4) =~= header_of(payload.len()));
    assert(r.subrange(4, 4 + payload.len() as int) =~= payload);
}

/// A frame that announces more than [`MAX_FRAME`] bytes is refused with
/// `InvalidData`, whatever follows the header.
pub proof fn lemma_oversize_rejected(n: nat, rest: Seq<u8>)
    requires
        MAX_FRAME < n <= u32::MAX,
    ensures
        recv_spec(header_of(n) + rest) == Err::<(Seq<u8>, nat), CodecError>(
            CodecError::InvalidData,
        ),
{
    let r = header_of(n) + rest;
    lemma_header_roundtrip(n);
    assert(r.subrange(0, 4) =~= header_of(n));
}

/// `data` cut into pieces of `size` bytes, the last one possibly shorter.
/// Empty data has no pieces.
pub open spec fn chunks_of(data: Seq<u8>, size: nat) -> Seq<Seq<u8>>
    decreases data.len(),
{
    if size == 0 || data.len() == 0 {
        Seq::empty()
    } else if data.len() <= size {
        seq![data]
    } else {
        seq![data.take(size as int)] + chunks_of(data.skip(size as int), size)
    }
}

/// The pieces of a chunked transfer put back together.
pub open spec fn joined(chunks: Seq<Seq<u8>>) -> Seq<u8>
    decreases chunks.len(),
{
    if chunks.len() == 0 {
        Seq::empty()
    } else {
        chunks[0] + joined(chunks.skip(1))
    }
}

/// Each piece wrapped in a `Chunk` request.
pub open spec fn chunk_requests(chunks: Seq<Seq<u8>>) -> Seq<RequestView> {
    chunks.map_values(|c: Seq<u8>| RequestView::Chunk(c))
}

/// Each piece wrapped in a `Chunk` response.
pub open spec fn chunk_responses(chunks: Seq<Seq<u8>>) -> Seq<ResponseView> {
    chunks.map_values(|c: Seq<u8>| ResponseView::Chunk(c))
}

/// The requests of a chunked transfer of `data`: one `Chunk` per piece, then
/// `EndOfStream`.
pub open spec fn request_chunks(data: Seq<u8>, size: nat) -> Seq<RequestView> {
    chunk_requests(chunks_of(data, size)).push(RequestView::EndOfStream)
}

/// The responses of a chunked transfer of `data`: one `Chunk` per piece, then
/// `EndOfStream`.
pub open spec fn response_chunks(data: Seq<u8>, size: nat) -> Seq<ResponseView> {
    chunk_responses(chunks_of(data, size)).push(ResponseView::EndOfStream)
}

/// Chunking loses nothing: every piece holds between 1 and `size` bytes, and
/// the pieces joined in order are the data.
pub proof fn lemma_chunks_join(data: Seq<u8>, size: nat)
    requires
        size > 0,
    ensures
        joined(chunks_of(data, size)) == data,
        forall|i: int|
            0 <= i < chunks_of(data, size).len() ==> 0 < (#[trigger] chunks_of(data, size)[i]).len()
                <= size,
    decreases data.len(),
{
    let chunks = chunks_of(data, size);
    if data.len() == 0 {
        assert(joined(chunks) =~= data);
    } else if data.len() <= size {
        assert(chunks.skip(1) =~= Seq::<Seq<u8>>::empty());
        assert(joined(chunks.skip(1)) =~= Seq::<u8>::empty());
        assert(joined(chunks) =~= data);
    } else {
        let tail = chunks_of(data.skip(size as int), size);
        lemma_chunks_join(data.skip(size as int), size);
        assert(chunks.skip(1) =~= tail);
        assert(joined(chunks) =~= data.take(size as int) + data.skip(size as int));
        assert(data.take(size as int) + data.skip(size as int) =~= data);
        assert forall|i: int| 0 <= i < chunks.len() implies 0 < (#[trigger] chunks[i]).len()
            <= size by {
            if i > 0 {
                assert(chunks[i] == tail[i - 1]);
            }
        }
    }
}

/// The chunks of `data` from `pos` on start with the piece at `pos`.
proof fn lemma_chunks_step(data: Seq<u8>, size: nat, pos: int, end: int)
    requires
        size > 0,
        0 <= pos < data.len(),
        end == if data.len() - pos <= size { data.len() as int } else { pos + size },
    ensures
        chunks_of(data.skip(pos), size) == seq![data.subrange(pos, end)] + chunks_of(
            data.skip(end),
            size,
        ),
{
    let rest = data.skip(pos);
    if rest.len() <= size {
        assert(rest =~= data.subrange(pos, end));
        assert(data.skip(end).len() == 0);
        assert(chunks_of(rest, size) =~= seq![data.subrange(pos, end)] + chunks_of(
            data.skip(end),
            size,
        ));
    } else {
        assert(rest.take(size as int) =~= data.subrange(pos, end));
        assert(rest.skip(size as int) =~= data.skip(end));
    }
}

/// The piece of `data` that starts at `pos`: up to `chunk_size` bytes.
fn chunk_from(data: &[u8], pos: usize, chunk_size: usize) -> (out: (Vec<u8>, usize))
    requires
        chunk_size > 0,
        pos < data@.len(),
    ensures
        out.1 == if data@.len() - pos <= chunk_size {
            data@.len() as int
        } else {
            pos + chunk_size
        },
        out.0@ == data@.subrange(pos as int, out.1 as int),
{
    let end: usize = if data.len() - pos <= chunk_size {
        data.len()
    } else {
        pos + chunk_size
    };
    let mut piece: Vec<u8> = Vec::new();
    let mut i: usize = pos;
    while i < end
        invariant
            pos <= i <= end <= data.len(),
            piece@ == data@.subrange(pos as int, i as int),
        decreases end - i,
    {
        piece.push(data[i]);
        i += 1;
    }
    (piece, end)
}

/// Queues `data` on `w` as a series of [`Request::Chunk`] messages of at
/// most `chunk_size` bytes each, followed by [`Request::EndOfStream`].
pub fn send_request_chunks(w: &mut Vec<Request>, data: &[u8], chunk_size: usize)
    requires
        chunk_size > 0,
    ensures
        requests(final(w)@) == requests(old(w)@) + request_chunks(data@, chunk_size as nat),
{
    let ghost before = requests(w@);
    let ghost size = chunk_size as nat;
    let mut pos: usize = 0;
    assert(data@.skip(0) =~= data@);
    assert(requests(w@) =~= before + chunk_requests(Seq::empty()));
    let ghost mut done: Seq<Seq<u8>> = Seq::empty();
    while pos < data.len()
        invariant
            chunk_size > 0,
            size == chunk_size as nat,
            pos <= data.len(),
            chunks_of(data@, size) == done + chunks_of(data@.skip(pos as int), size),
            requests(w@) == before + chunk_requests(done),
        decreases data.len() - pos,
    {
        let (piece, end) = chunk_from(data, pos, chunk_size);
        proof {
            lemma_chunks_step(data@, size, pos as int, end as int);
            assert(requests(w@.push(Request::Chunk(piece))) =~= requests(w@).push(
                RequestView::Chunk(piece@),
            ));
            assert(chunk_requests(done.push(piece@)) =~= chunk_requests(done).push(
                RequestView::Chunk(piece@),
            ));
            assert((before + chunk_requests(done)).push(RequestView::Chunk(piece@)) =~= before
                + chunk_requests(done).push(RequestView::Chunk(piece@)));
            assert(done.push(piece@) + chunks_of(data@.skip(end as int), size) =~= done + (
            seq![piece@] + chunks_of(data@.skip(end as int), size)));
            done = done.push(piece@);
        }
        w.push(Request::Chunk(piece));
        pos = end;
    }
    proof {
        assert(chunks_of(data@, size) =~= done);
        assert(requests(w@.push(Request::EndOfStream)) =~= requests(w@).push(
            RequestView::EndOfStream,
        ));
        assert((before + chunk_requests(done)).push(RequestView::EndOfStream) =~= before
            + request_chunks(data@, size));
    }
    w.push(Request::EndOfStream);
}

/// Queues `data` on `w` as a series of [`Response::Chunk`] messages of at
/// most `chunk_size` bytes each, followed by [`Response::EndOfStream`].
pub fn send_response_chunks(w: &mut Vec<Response>, data: &[u8], chunk_size: usize)
    requires
        chunk_size > 0,
    ensures
        responses(final(w)@) == responses(old(w)@) + response_chunks(data@, chunk_size as nat),
{
    let ghost before = responses(w@);
    let ghost size = chunk_size as nat;
    let mut pos: usize = 0;
    assert(data@.skip(0) =~= data@);
    assert(responses(w@) =~= before + chunk_responses(Seq::empty()));
    let ghost mut done: Seq<Seq<u8>> = Seq::empty();
    while pos < data.len()
        invariant
            chunk_size > 0,
            size == chunk_size as nat,
            pos <= data.len(),
            chunks_of(data@, size) == done + chunks_of(data@.skip(pos as int), size),
            responses(w@) == before + chunk_responses(done),
        decreases data.len() - pos,
    {
        let (piece, end) = chunk_from(data, pos, chunk_size);
        proof {
            lemma_chunks_step(data@, size, pos as int, end as int);
            assert(responses(w@.push(Response::Chunk(piece))) =~= responses(w@).push(
                ResponseView::Chunk(piece@),
            ));
            assert(chunk_responses(done.push(piece@)) =~= chunk_responses(done).push(
                ResponseView::Chunk(piece@),
            ));
            assert((before + chunk_responses(done)).push(ResponseView::Chunk(piece@)) =~= before
                + chunk_responses(done).push(ResponseView::Chunk(piece@)));
            assert(done.push(piece@) + chunks_of(data@.skip(end as int), size) =~= done + (
            seq![piece@] + chunks_of(data@.skip(end as int), size)));
            done = done.push(piece@);
        }
        w.push(Response::Chunk(piece));
        pos = end;
    }
    proof {
        assert(chunks_of(data@, size) =~= done);
        assert(responses(w@.push(Response::EndOfStream)) =~= responses(w@).push(
            ResponseView::EndOfStream,
        ));
        assert((before + chunk_responses(done)).push(ResponseView::EndOfStream) =~= before
            + response_chunks(data@, size));
    }
    w.push(Response::EndOfStream);
}

} // verus!
