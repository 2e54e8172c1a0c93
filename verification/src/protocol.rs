//! Framing: how a message of any length travels in chunks.
//!
//! A message that fits with a four-byte header in one chunk travels in that
//! chunk: the payload's length, big-endian, in the first four bytes, then
//! the payload, then zero padding. Any longer message starts with a chunk
//! whose first eight bytes hold the length, big-endian; the payload fills
//! the rest of that chunk and the chunks that follow, and zeros pad the last.
//! The length of a long message is below 2^32, so the first four bytes of
//! its header are zero, which is how the two forms are told apart. The
//! empty message is the chunk that begins with eight zero bytes.

use crate::chunked_tcp_stream::{FrameError, MSG_SIZE_BYTES};
use crate::serialize::{
    decode_request_spec, decode_response_spec, encode_request_spec, encode_response_spec,
    ClientWorkPacket, CodecError, MessageTrait, RequestView, ResponseView, ServerWorkPacket,
};
use vstd::prelude::*;
use vstd::slice::{slice_subrange, slice_to_vec};

verus! {

/// The longest payload that travels in one chunk.
pub const SHORT_MAX: usize = 124;

/// The longest payload that can be framed at all.
pub const MAX_PAYLOAD: usize = 0xFFFF_FF00;

/// The four bytes that hold `x`, most significant first.
pub open spec fn be32_bytes(x: nat) -> Seq<u8>
    recommends
        x < 0x1_0000_0000,
{
    seq![
        (x / 0x100_0000 % 256) as u8,
        (x / 0x1_0000 % 256) as u8,
        (x / 0x100 % 256) as u8,
        (x % 256) as u8,
    ]
}

/// The number that the first four bytes of `s` hold, most significant first.
pub open spec fn be32_value(s: Seq<u8>) -> nat
    recommends
        s.len() >= 4,
{
    (s[0] as nat) * 0x100_0000 + (s[1] as nat) * 0x1_0000 + (s[2] as nat) * 0x100 + (s[3] as nat)
}

/// The eight bytes that hold `x`, most significant first.
pub open spec fn be64_bytes(x: nat) -> Seq<u8>
    recommends
        x < 0x1_0000_0000_0000_0000,
{
    be32_bytes(x / 0x1_0000_0000) + be32_bytes(x % 0x1_0000_0000)
}

/// The number that the first eight bytes of `s` hold, most significant first.
pub open spec fn be64_value(s: Seq<u8>) -> nat
    recommends
        s.len() >= 8,
{
    be32_value(s) * 0x1_0000_0000 + be32_value(s.skip(4))
}

/// `n` zero bytes.
pub open spec fn zeros(n: nat) -> Seq<u8> {
    Seq::new(n, |i: int| 0u8)
}

/// How many bytes bring `n` up to a whole number of chunks.
pub open spec fn pad_len(n: nat) -> nat {
    ((MSG_SIZE_BYTES - n % (MSG_SIZE_BYTES as nat)) % (MSG_SIZE_BYTES as int)) as nat
}

/// The header of a payload of `len` bytes.
pub open spec fn header_spec(len: nat) -> Seq<u8> {
    if len <= SHORT_MAX {
        be32_bytes(len)
    } else {
        be64_bytes(len)
    }
}

/// The bytes that carry `payload` on the stream: header, payload, padding.
pub open spec fn frame_spec(payload: Seq<u8>) -> Seq<u8>
    recommends
        payload.len() <= MAX_PAYLOAD,
{
    let body = header_spec(payload.len()) + payload;
    body + zeros(pad_len(body.len()))
}

/// What the front of a stream of bytes holds.
///
/// `Ok(None)`: not yet a whole message. `Ok(Some((payload, n)))`: a message
/// with this payload, which takes up the first `n` bytes. `Err`: a header
/// that no sender writes.
///
/// A header whose first four bytes are not all zero is a short one; it
/// must declare no more than fits in the chunk, and the padding behind its
/// payload is not looked at. A header whose first four bytes are zero is
/// read as eight bytes. Eight zero bytes are the empty message: the first
/// four bytes of its padding must be zero for it to be known as such, the
/// rest of the padding is not looked at. Anything else in the eight bytes
/// is the length of a long message, which must be more than fits in one
/// chunk with a short header, and no more than can be framed.
pub open spec fn unframe_spec(w: Seq<u8>) -> Result<Option<(Seq<u8>, nat)>, FrameError> {
    if w.len() < MSG_SIZE_BYTES {
        Ok(None)
    } else {
        let short = be32_value(w);
        let long = be32_value(w.skip(4));
        if short != 0 {
            if short <= SHORT_MAX {
                Ok(Some((w.subrange(4, 4 + short as int), MSG_SIZE_BYTES as nat)))
            } else {
                Err(FrameError::DeclaredLength)
            }
        } else if long == 0 {
            Ok(Some((Seq::empty(), MSG_SIZE_BYTES as nat)))
        } else if long <= SHORT_MAX || long > MAX_PAYLOAD {
            Err(FrameError::DeclaredLength)
        } else {
            let need = 8 + long + pad_len(8 + long);
            if w.len() < need {
                Ok(None)
            } else {
                Ok(Some((w.subrange(8, 8 + long as int), need)))
            }
        }
    }
}

/// A number below 2^32, written as four bytes and read back, is the same
/// number.
pub proof fn lemma_be32(x: nat)
    requires
        x < 0x1_0000_0000,
    ensures
        be32_bytes(x).len() == 4,
        be32_value(be32_bytes(x)) == x,
{
}

/// A number below 2^64, written as eight bytes and read back, is the same
/// number; its first four bytes hold its upper half and the rest its lower.
pub proof fn lemma_be64(x: nat)
    requires
        x < 0x1_0000_0000_0000_0000,
    ensures
        be64_bytes(x).len() == 8,
        be32_value(be64_bytes(x)) == x / 0x1_0000_0000,
        be32_value(be64_bytes(x).skip(4)) == x % 0x1_0000_0000,
        be64_value(be64_bytes(x)) == x,
{
    let hi = x / 0x1_0000_0000;
    let lo = x % 0x1_0000_0000;
    lemma_be32(hi);
    lemma_be32(lo);
    let s = be64_bytes(x);
    assert(s.skip(4) =~= be32_bytes(lo));
    assert(be32_value(s) == be32_value(be32_bytes(hi)));
}

/// Padding brings any length up to a whole number of chunks, with less than
/// one chunk of zeros.
pub proof fn lemma_pad_len(n: nat)
    ensures
        pad_len(n) < MSG_SIZE_BYTES,
        (n + pad_len(n)) % (MSG_SIZE_BYTES as nat) == 0,
        n % (MSG_SIZE_BYTES as nat) == 0 ==> pad_len(n) == 0,
{
}

/// A frame is a whole number of chunks, at least one, and long enough for
/// its header and payload.
pub proof fn lemma_frame_len(payload: Seq<u8>)
    requires
        payload.len() <= MAX_PAYLOAD,
    ensures
        frame_spec(payload).len() % (MSG_SIZE_BYTES as nat) == 0,
        frame_spec(payload).len() >= MSG_SIZE_BYTES,
        frame_spec(payload).len() == header_spec(payload.len()).len() + payload.len() + pad_len(
            header_spec(payload.len()).len() + payload.len(),
        ),
        payload.len() <= SHORT_MAX ==> frame_spec(payload).len() == MSG_SIZE_BYTES,
{
    let len = payload.len();
    if len <= SHORT_MAX {
        lemma_be32(len);
    } else {
        lemma_be64(len);
    }
    lemma_pad_len(header_spec(len).len() + len);
}

/// Framing a payload and reading the front of the stream gives the payload
/// back and uses up the frame exactly, whatever follows it on the stream.
pub proof fn lemma_unframe_of_frame(payload: Seq<u8>, rest: Seq<u8>)
    requires
        payload.len() <= MAX_PAYLOAD,
    ensures
        unframe_spec(frame_spec(payload) + rest) == Ok::<Option<(Seq<u8>, nat)>, FrameError>(
            Some((payload, frame_spec(payload).len())),
        ),
{
    let len = payload.len();
    let f = frame_spec(payload);
    let w = f + rest;
    lemma_frame_len(payload);
    let h = header_spec(len);
    if len <= SHORT_MAX {
        lemma_be32(len);
        assert(be32_value(w) == be32_value(h));
        if len == 0 {
            assert(w.skip(4) =~= zeros(124) + rest);
            assert(be32_value(w.skip(4)) == 0);
            assert(payload =~= Seq::<u8>::empty());
        } else {
            assert(w.subrange(4, 4 + len as int) =~= payload);
        }
    } else {
        lemma_be64(len);
        assert(be32_value(w) == be32_value(h));
        assert(be32_value(w.skip(4)) == be32_value(h.skip(4))) by {
            assert(w.skip(4)[0] == h.skip(4)[0]);
            assert(w.skip(4)[1] == h.skip(4)[1]);
            assert(w.skip(4)[2] == h.skip(4)[2]);
            assert(w.skip(4)[3] == h.skip(4)[3]);
        }
        assert(w.subrange(8, 8 + len as int) =~= payload);
    }
}

/// No proper prefix of a frame is taken for a whole message, nor for a
/// broken one: a receiver that has part of a frame waits for the rest.
pub proof fn lemma_unframe_of_prefix(payload: Seq<u8>, k: int)
    requires
        payload.len() <= MAX_PAYLOAD,
        0 <= k < frame_spec(payload).len(),
    ensures
        unframe_spec(frame_spec(payload).take(k)) == Ok::<Option<(Seq<u8>, nat)>, FrameError>(None),
{
    let len = payload.len();
    let f = frame_spec(payload);
    let w = f.take(k);
    lemma_frame_len(payload);
    let h = header_spec(len);
    if k >= MSG_SIZE_BYTES {
        lemma_be64(len);
        assert(be32_value(w) == be32_value(h));
        assert(be32_value(w.skip(4)) == be32_value(h.skip(4))) by {
            assert(w.skip(4)[0] == h.skip(4)[0]);
            assert(w.skip(4)[1] == h.skip(4)[1]);
            assert(w.skip(4)[2] == h.skip(4)[2]);
            assert(w.skip(4)[3] == h.skip(4)[3]);
        }
    }
}

/// Appends the four bytes of `x`, most significant first.
pub fn push_be32(out: &mut Vec<u8>, x: u32)
    ensures
        final(out)@ == old(out)@ + be32_bytes(x as nat),
{
    out.push((x / 0x100_0000 % 256) as u8);
    out.push((x / 0x1_0000 % 256) as u8);
    out.push((x / 0x100 % 256) as u8);
    out.push((x % 256) as u8);
    assert(out@ =~= old(out)@ + be32_bytes(x as nat));
}

/// Appends the eight bytes of `x`, most significant first.
pub fn push_be64(out: &mut Vec<u8>, x: u64)
    ensures
        final(out)@ == old(out)@ + be64_bytes(x as nat),
{
    push_be32(out, (x / 0x1_0000_0000) as u32);
    push_be32(out, (x % 0x1_0000_0000) as u32);
    assert(out@ =~= old(out)@ + be64_bytes(x as nat));
}

/// Reads the four bytes at `at` as a number, most significant first.
/// `None` when fewer than four bytes are there.
pub fn read_be32(buf: &[u8], at: usize) -> (x: Option<u32>)
    ensures
        x == if at + 4 <= buf@.len() {
            Some(be32_value(buf@.skip(at as int)) as u32)
        } else {
            None
        },
{
    let total = buf.len();
    if total < 4 || at > total - 4 {
        return None;
    }
    let b0: u32 = buf[at] as u32;
    let b1: u32 = buf[at + 1] as u32;
    let b2: u32 = buf[at + 2] as u32;
    let b3: u32 = buf[at + 3] as u32;
    Some(b0 * 0x100_0000 + b1 * 0x1_0000 + b2 * 0x100 + b3)
}

/// The number of padding bytes after `n` bytes of header and payload.
fn padding(n: usize) -> (pad: usize)
    ensures
        pad == pad_len(n as nat),
{
    let r: usize = n % MSG_SIZE_BYTES;
    if r == 0 {
        0
    } else {
        MSG_SIZE_BYTES - r
    }
}

/// Frames a payload: the bytes to put on the stream, chunk after chunk.
///
/// Fails only for a payload longer than [`MAX_PAYLOAD`].
pub fn frame(payload: &[u8]) -> (r: Result<Vec<u8>, FrameError>)
    ensures
        match r {
            Ok(wire) => payload@.len() <= MAX_PAYLOAD && wire@ == frame_spec(payload@),
            Err(e) => payload@.len() > MAX_PAYLOAD && e == FrameError::PayloadTooLarge,
        },
{
    let len = payload.len();
    if len > MAX_PAYLOAD {
        return Err(FrameError::PayloadTooLarge);
    }
    let mut wire: Vec<u8> = Vec::new();
    if len <= SHORT_MAX {
        push_be32(&mut wire, len as u32);
    } else {
        push_be64(&mut wire, len as u64);
    }
    wire.extend_from_slice(payload);
    proof {
        lemma_frame_len(payload@);
    }
    let ghost body = wire@;
    let pad = padding(wire.len());
    let mut i: usize = 0;
    while i < pad
        invariant
            i <= pad,
            wire@ == body + zeros(i as nat),
        decreases pad - i,
    {
        wire.push(0u8);
        i += 1;
        assert(wire@ =~= body + zeros(i as nat));
    }
    Ok(wire)
}

/// How many chunks a framed message takes.
pub fn chunk_count(wire: &[u8]) -> (n: usize)
    ensures
        n == wire@.len() / (MSG_SIZE_BYTES as nat),
{
    wire.len() / MSG_SIZE_BYTES
}

/// The `i`-th chunk of a framed message, counted from 0; `None` past the
/// last whole chunk.
pub fn chunk_at(wire: &[u8], i: usize) -> (chunk: Option<&[u8]>)
    ensures
        chunk matches Some(bytes) ==> bytes@ == wire@.subrange(
            i * MSG_SIZE_BYTES,
            (i + 1) * MSG_SIZE_BYTES,
        ),
        chunk is Some <==> (i + 1) * MSG_SIZE_BYTES <= wire@.len(),
{
    let total = wire.len();
    if i >= total / MSG_SIZE_BYTES {
        return None;
    }
    let start: usize = i * MSG_SIZE_BYTES;
    Some(slice_subrange(wire, start, start + MSG_SIZE_BYTES))
}

/// Reads the front of a stream of bytes: see [`unframe_spec`].
pub fn unframe(buf: &[u8]) -> (r: Result<Option<(Vec<u8>, usize)>, FrameError>)
    ensures
        match r {
            Ok(None) => unframe_spec(buf@) == Ok::<Option<(Seq<u8>, nat)>, FrameError>(None),
            Ok(Some((payload, used))) => unframe_spec(buf@) == Ok::<
                Option<(Seq<u8>, nat)>,
                FrameError,
            >(Some((payload@, used as nat))) && MSG_SIZE_BYTES <= used <= buf@.len(),
            Err(e) => unframe_spec(buf@) == Err::<Option<(Seq<u8>, nat)>, FrameError>(e),
        },
{
    if buf.len() < MSG_SIZE_BYTES {
        return Ok(None);
    }
    assert(buf@.skip(0) =~= buf@);
    let short = match read_be32(buf, 0) {
        Some(short) => short as usize,
        None => {
            return Ok(None);
        },
    };
    let long = match read_be32(buf, 4) {
        Some(long) => long as usize,
        None => {
            return Ok(None);
        },
    };
    if short != 0 {
        if short <= SHORT_MAX {
            let payload = slice_to_vec(slice_subrange(buf, 4, 4 + short));
            Ok(Some((payload, MSG_SIZE_BYTES)))
        } else {
            Err(FrameError::DeclaredLength)
        }
    } else if long == 0 {
        let payload: Vec<u8> = Vec::new();
        assert(payload@ =~= Seq::<u8>::empty());
        Ok(Some((payload, MSG_SIZE_BYTES)))
    } else if long <= SHORT_MAX || long > MAX_PAYLOAD {
        Err(FrameError::DeclaredLength)
    } else {
        let need: usize = 8 + long + padding(8 + long);
        if buf.len() < need {
            Ok(None)
        } else {
            let payload = slice_to_vec(slice_subrange(buf, 8, 8 + long));
            Ok(Some((payload, need)))
        }
    }
}

/// The bytes of one connection that have arrived and not yet been taken as
/// messages.
pub struct RecvBuffer {
    pending: Vec<u8>,
}

impl View for RecvBuffer {
    type V = Seq<u8>;

    closed spec fn view(&self) -> Seq<u8> {
        self.pending@
    }
}

impl RecvBuffer {
    /// A buffer that holds nothing.
    pub fn new() -> (buf: RecvBuffer)
        ensures
            buf@ == Seq::<u8>::empty(),
    {
        RecvBuffer { pending: Vec::new() }
    }

    /// How many bytes wait in the buffer.
    pub fn len(&self) -> (n: usize)
        ensures
            n == self@.len(),
    {
        self.pending.len()
    }

    /// Takes in bytes as they arrive, in any portions.
    pub fn push(&mut self, bytes: &[u8])
        ensures
            final(self)@ == old(self)@ + bytes@,
    {
        self.pending.extend_from_slice(bytes);
    }

    /// Takes the message at the front of the buffer, if a whole one is there.
    ///
    /// A whole message leaves the buffer with its frame; what follows the
    /// frame stays. While the message is incomplete, and when the header is
    /// broken, the buffer is left as it is.
    pub fn take_message(&mut self) -> (r: Result<Option<Vec<u8>>, FrameError>)
        ensures
            match unframe_spec(old(self)@) {
                Ok(None) => r == Ok::<Option<Vec<u8>>, FrameError>(None) && final(self)@ == old(self)@,
                Ok(Some((payload, used))) => {
                    &&& r matches Ok(Some(got))
                    &&& got@ == payload
                    &&& final(self)@ == old(self)@.skip(used as int)
                },
                Err(e) => r == Err::<Option<Vec<u8>>, FrameError>(e) && final(self)@ == old(self)@,
            },
    {
        match unframe(self.pending.as_slice()) {
            Ok(None) => Ok(None),
            Ok(Some((payload, used))) => {
                let rest = self.pending.split_off(used);
                self.pending = rest;
                Ok(Some(payload))
            },
            Err(e) => Err(e),
        }
    }

    /// Takes in one transfer from a stream that moves whole chunks, and
    /// then the message at the front, if that completes one.
    ///
    /// A transfer that is not one chunk is refused and changes nothing.
    pub fn accept_chunk(&mut self, chunk: &[u8]) -> (r: Result<Option<Vec<u8>>, FrameError>)
        ensures
            chunk@.len() != MSG_SIZE_BYTES ==> r == Err::<Option<Vec<u8>>, FrameError>(
                FrameError::ChunkSize,
            ) && final(self)@ == old(self)@,
            chunk@.len() == MSG_SIZE_BYTES ==> match unframe_spec(old(self)@ + chunk@) {
                Ok(None) => r == Ok::<Option<Vec<u8>>, FrameError>(None) && final(self)@ == old(self)@ + chunk@,
                Ok(Some((payload, used))) => {
                    &&& r matches Ok(Some(got))
                    &&& got@ == payload
                    &&& final(self)@ == (old(self)@ + chunk@).skip(used as int)
                },
                Err(e) => r == Err::<Option<Vec<u8>>, FrameError>(e) && final(self)@ == old(self)@
                    + chunk@,
            },
    {
        if chunk.len() != MSG_SIZE_BYTES {
            return Err(FrameError::ChunkSize);
        }
        self.push(chunk);
        self.take_message()
    }

    /// What the end of the stream means: an error if it cuts a message
    /// short, nothing otherwise.
    pub fn finish(&self) -> (r: Result<(), FrameError>)
        ensures
            r == if self@.len() == 0 {
                Ok::<(), FrameError>(())
            } else {
                Err::<(), FrameError>(FrameError::Truncated)
            },
    {
        if self.pending.len() == 0 {
            Ok(())
        } else {
            Err(FrameError::Truncated)
        }
    }
}

/// Why a message could not be sent or received.
#[derive(Debug, Clone, Copy, PartialEq, Eq, Structural)]
pub enum ProtocolError {
    /// The frame is wrong.
    Frame(FrameError),
    /// The frame is right, but the packet in it is not.
    Codec(CodecError),
}

/// The request at the front of the bytes received.
///
/// `Ok(None)` while the message is incomplete. A complete message is read
/// as a request; a frame or a packet that is wrong is an error.
pub open spec fn front_request(buf: Seq<u8>) -> Result<Option<RequestView>, ProtocolError> {
    match unframe_spec(buf) {
        Err(e) => Err(ProtocolError::Frame(e)),
        Ok(None) => Ok(None),
        Ok(Some((payload, used))) => match decode_request_spec(payload) {
            Ok(v) => Ok(Some(v)),
            Err(e) => Err(ProtocolError::Codec(e)),
        },
    }
}

/// The response at the front of the bytes received.
pub open spec fn front_response(buf: Seq<u8>) -> Result<Option<ResponseView>, ProtocolError> {
    match unframe_spec(buf) {
        Err(e) => Err(ProtocolError::Frame(e)),
        Ok(None) => Ok(None),
        Ok(Some((payload, used))) => match decode_response_spec(payload) {
            Ok(v) => Ok(Some(v)),
            Err(e) => Err(ProtocolError::Codec(e)),
        },
    }
}

/// The bytes received once the message at their front has been taken: a
/// complete message leaves with its frame, anything else stays.
pub open spec fn after_front(buf: Seq<u8>) -> Seq<u8> {
    match unframe_spec(buf) {
        Ok(Some((payload, used))) => buf.skip(used as int),
        _ => buf,
    }
}

/// The request that arrives once `chunk` follows the bytes in `pending`.
/// A transfer that is no chunk is an error.
pub open spec fn request_from(pending: Seq<u8>, chunk: Seq<u8>) -> Result<
    Option<RequestView>,
    ProtocolError,
> {
    if chunk.len() != MSG_SIZE_BYTES {
        Err(ProtocolError::Frame(FrameError::ChunkSize))
    } else {
        front_request(pending + chunk)
    }
}

/// The response that arrives once `chunk` follows the bytes in `pending`.
/// A transfer that is no chunk is an error.
pub open spec fn response_from(pending: Seq<u8>, chunk: Seq<u8>) -> Result<
    Option<ResponseView>,
    ProtocolError,
> {
    if chunk.len() != MSG_SIZE_BYTES {
        Err(ProtocolError::Frame(FrameError::ChunkSize))
    } else {
        front_response(pending + chunk)
    }
}

/// What is left pending once `chunk` has followed the bytes in `pending`:
/// a transfer that is no chunk is not taken in.
pub open spec fn pending_after(pending: Seq<u8>, chunk: Seq<u8>) -> Seq<u8> {
    if chunk.len() != MSG_SIZE_BYTES {
        pending
    } else {
        after_front(pending + chunk)
    }
}

/// A request that is framed and sent arrives as it was, in one chunk, and
/// leaves nothing pending.
pub proof fn lemma_request_arrives(v: RequestView)
    requires
        v.work.valid(),
    ensures
        frame_spec(encode_request_spec(v)).len() == MSG_SIZE_BYTES,
        request_from(Seq::empty(), frame_spec(encode_request_spec(v))) == Ok::<
            Option<RequestView>,
            ProtocolError,
        >(Some(v)),
        pending_after(Seq::empty(), frame_spec(encode_request_spec(v))) == Seq::<u8>::empty(),
{
    let data = encode_request_spec(v);
    let wire = frame_spec(data);
    crate::serialize::lemma_request_len(v);
    lemma_frame_len(data);
    lemma_unframe_of_frame(data, Seq::empty());
    assert(wire + Seq::<u8>::empty() =~= wire);
    assert(Seq::<u8>::empty() + wire =~= wire);
    crate::serialize::lemma_decode_encoded_request(v, Seq::empty());
    assert(data + Seq::<u8>::empty() =~= data);
    assert(wire.skip(wire.len() as int) =~= Seq::<u8>::empty());
}

/// On a stream of framed requests the first is read as it was sent, and
/// what follows it stays for the next reading: requests come out one by
/// one, in the order in which they went in.
pub proof fn lemma_requests_arrive_in_order(v: RequestView, rest: Seq<u8>)
    requires
        v.work.valid(),
    ensures
        front_request(frame_spec(encode_request_spec(v)) + rest) == Ok::<
            Option<RequestView>,
            ProtocolError,
        >(Some(v)),
        after_front(frame_spec(encode_request_spec(v)) + rest) == rest,
{
    let data = encode_request_spec(v);
    let wire = frame_spec(data);
    crate::serialize::lemma_request_len(v);
    lemma_unframe_of_frame(data, rest);
    crate::serialize::lemma_decode_encoded_request(v, Seq::empty());
    assert(data + Seq::<u8>::empty() =~= data);
    assert((wire + rest).skip(wire.len() as int) =~= rest);
}

/// A response that is framed and sent arrives as it was once all its bytes
/// are there, whatever follows them, and what follows them stays pending.
pub proof fn lemma_response_arrives(v: ResponseView, rest: Seq<u8>)
    requires
        encode_response_spec(v).len() <= MAX_PAYLOAD,
    ensures
        front_response(frame_spec(encode_response_spec(v)) + rest) == Ok::<
            Option<ResponseView>,
            ProtocolError,
        >(Some(v)),
        after_front(frame_spec(encode_response_spec(v)) + rest) == rest,
{
    let data = encode_response_spec(v);
    let wire = frame_spec(data);
    lemma_unframe_of_frame(data, rest);
    crate::serialize::lemma_decode_encoded_response(v, Seq::empty());
    assert(data + Seq::<u8>::empty() =~= data);
    assert((wire + rest).skip(wire.len() as int) =~= rest);
}

/// The direction of a connection that carries requests.
///
/// The sending end turns a request into the bytes to write; the receiving
/// end is fed the chunks that were read and gives the requests back.
pub struct ClientWorkPacketConn {
    incoming: RecvBuffer,
}

impl View for ClientWorkPacketConn {
    type V = Seq<u8>;

    /// The bytes received that belong to a message not yet complete.
    closed spec fn view(&self) -> Seq<u8> {
        self.incoming@
    }
}

impl ClientWorkPacketConn {
    /// A connection on which nothing has arrived.
    pub fn new() -> (conn: ClientWorkPacketConn)
        ensures
            conn@ == Seq::<u8>::empty(),
    {
        ClientWorkPacketConn { incoming: RecvBuffer::new() }
    }

    /// The bytes that carry `work_packet`: its frame, to be written chunk
    /// by chunk. Never fails for a request, which is always short.
    pub fn send_work_msg(&self, work_packet: ClientWorkPacket) -> (r: Result<Vec<u8>, ProtocolError>)
        ensures
            r matches Ok(wire) && wire@ == frame_spec(encode_request_spec(work_packet@)),
    {
        let mut data: Vec<u8> = Vec::new();
        let _ = work_packet.to_vec(&mut data);
        assert(data@ =~= encode_request_spec(work_packet@));
        proof {
            crate::serialize::lemma_request_len(work_packet@);
        }
        match frame(data.as_slice()) {
            Ok(wire) => Ok(wire),
            Err(e) => Err(ProtocolError::Frame(e)),
        }
    }

    /// Takes in one chunk read from the stream, and gives the request that
    /// it completes, if it completes one.
    pub fn recv_work_msg(&mut self, chunk: &[u8]) -> (r: Result<
        Option<ClientWorkPacket>,
        ProtocolError,
    >)
        ensures
            final(self)@ == pending_after(old(self)@, chunk@),
            match r {
                Ok(Some(packet)) => request_from(old(self)@, chunk@) == Ok::<
                    Option<RequestView>,
                    ProtocolError,
                >(Some(packet@)),
                Ok(None) => request_from(old(self)@, chunk@) == Ok::<
                    Option<RequestView>,
                    ProtocolError,
                >(None),
                Err(e) => request_from(old(self)@, chunk@) == Err::<
                    Option<RequestView>,
                    ProtocolError,
                >(e),
            },
    {
        match self.incoming.accept_chunk(chunk) {
            Err(e) => Err(ProtocolError::Frame(e)),
            Ok(None) => Ok(None),
            Ok(Some(payload)) => match ClientWorkPacket::from_bytes(payload.as_slice()) {
                Ok(packet) => Ok(Some(packet)),
                Err(e) => Err(ProtocolError::Codec(e)),
            },
        }
    }

    /// What the end of the stream means: an error if it cuts a message
    /// short.
    pub fn finish(&self) -> (r: Result<(), ProtocolError>)
        ensures
            r == if self@.len() == 0 {
                Ok::<(), ProtocolError>(())
            } else {
                Err::<(), ProtocolError>(ProtocolError::Frame(FrameError::Truncated))
            },
    {
        match self.incoming.finish() {
            Ok(()) => Ok(()),
            Err(e) => Err(ProtocolError::Frame(e)),
        }
    }
}

/// The direction of a connection that carries responses.
pub struct ServerWorkPacketConn {
    incoming: RecvBuffer,
}

impl View for ServerWorkPacketConn {
    type V = Seq<u8>;

    /// The bytes received that belong to a message not yet complete.
    closed spec fn view(&self) -> Seq<u8> {
        self.incoming@
    }
}

impl ServerWorkPacketConn {
    /// A connection on which nothing has arrived.
    pub fn new() -> (conn: ServerWorkPacketConn)
        ensures
            conn@ == Seq::<u8>::empty(),
    {
        ServerWorkPacketConn { incoming: RecvBuffer::new() }
    }

    /// The bytes that carry `packet`: its frame, to be written chunk by
    /// chunk. Fails only when the payload makes the packet too large to
    /// frame.
    pub fn send_work_msg(&self, packet: &ServerWorkPacket) -> (r: Result<Vec<u8>, ProtocolError>)
        ensures
            match r {
                Ok(wire) => encode_response_spec(packet@).len() <= MAX_PAYLOAD && wire@
                    == frame_spec(encode_response_spec(packet@)),
                Err(e) => encode_response_spec(packet@).len() > MAX_PAYLOAD && e
                    == ProtocolError::Frame(FrameError::PayloadTooLarge),
            },
    {
        let mut data: Vec<u8> = Vec::new();
        let _ = packet.to_vec(&mut data);
        assert(data@ =~= encode_response_spec(packet@));
        match frame(data.as_slice()) {
            Ok(wire) => Ok(wire),
            Err(e) => Err(ProtocolError::Frame(e)),
        }
    }

    /// Takes in one chunk read from the stream, and gives the response
    /// that it completes, if it completes one.
    pub fn recv_work_msg(&mut self, chunk: &[u8]) -> (r: Result<
        Option<ServerWorkPacket>,
        ProtocolError,
    >)
        ensures
            final(self)@ == pending_after(old(self)@, chunk@),
            match r {
                Ok(Some(packet)) => response_from(old(self)@, chunk@) == Ok::<
                    Option<ResponseView>,
                    ProtocolError,
                >(Some(packet@)),
                Ok(None) => response_from(old(self)@, chunk@) == Ok::<
                    Option<ResponseView>,
                    ProtocolError,
                >(None),
                Err(e) => response_from(old(self)@, chunk@) == Err::<
                    Option<ResponseView>,
                    ProtocolError,
                >(e),
            },
    {
        match self.incoming.accept_chunk(chunk) {
            Err(e) => Err(ProtocolError::Frame(e)),
            Ok(None) => Ok(None),
            Ok(Some(payload)) => match ServerWorkPacket::from_bytes(payload.as_slice()) {
                Ok(packet) => Ok(Some(packet)),
                Err(e) => Err(ProtocolError::Codec(e)),
            },
        }
    }

    /// What the end of the stream means: an error if it cuts a message
    /// short.
    pub fn finish(&self) -> (r: Result<(), ProtocolError>)
        ensures
            r == if self@.len() == 0 {
                Ok::<(), ProtocolError>(())
            } else {
                Err::<(), ProtocolError>(ProtocolError::Frame(FrameError::Truncated))
            },
    {
        match self.incoming.finish() {
            Ok(()) => Ok(()),
            Err(e) => Err(ProtocolError::Frame(e)),
        }
    }
}

} // verus!
