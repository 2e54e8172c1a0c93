//! Request and response packets, their binary layout, and latency accounting.
//!
//! The layout is flat and little-endian. A request is its id, its work and
//! its send time: eight bytes, then a four-byte tag with eight bytes of
//! amount where the work has one, then eight bytes. A response is a
//! four-byte status, three eight-byte numbers, a presence byte and, where
//! that is 1, an eight-byte length and as many payload bytes, which end the
//! packet: a length that disagrees with the bytes that follow it is refused. Integers are
//! written and read by `bincode`; how they follow one another is laid down
//! here.

use crate::app::{NonZeroMicros, Work};
use crate::get_current_time_micros;
use rand::Rng;
use vstd::prelude::*;
use vstd::slice::{slice_subrange, slice_to_vec};

verus! {

/// The error that `bincode` reports; nothing is read from it.
#[verifier::external_type_specification]
#[verifier::external_body]
pub struct ExBincodeErrorKind(bincode::ErrorKind);

/// What can go wrong when a packet is written or read.
#[derive(Debug, Clone, Copy, PartialEq, Eq, Structural)]
pub enum CodecError {
    /// The bytes end before a field that must be there.
    TooShort,
    /// A tag that stands for no variant.
    BadTag,
    /// A Poisson work with mean zero.
    ZeroPoisson,
    /// The payload is declared longer than the bytes that are left.
    PayloadLength,
    /// The buffer to write into is smaller than the packet.
    BufferTooSmall,
}

/// The four bytes that hold `x`, least significant first.
#[verifier::opaque]
pub open spec fn le32_bytes(x: nat) -> Seq<u8>
    recommends
        x < 0x1_0000_0000,
{
    seq![
        (x % 256) as u8,
        (x / 0x100 % 256) as u8,
        (x / 0x1_0000 % 256) as u8,
        (x / 0x100_0000 % 256) as u8,
    ]
}

/// The number that the first four bytes of `s` hold, least significant first.
#[verifier::opaque]
pub open spec fn le32_value(s: Seq<u8>) -> nat
    recommends
        s.len() >= 4,
{
    (s[0] as nat) + (s[1] as nat) * 0x100 + (s[2] as nat) * 0x1_0000 + (s[3] as nat) * 0x100_0000
}

/// The eight bytes that hold `x`, least significant first.
#[verifier::opaque]
pub open spec fn le64_bytes(x: nat) -> Seq<u8>
    recommends
        x < 0x1_0000_0000_0000_0000,
{
    le32_bytes(x % 0x1_0000_0000) + le32_bytes(x / 0x1_0000_0000)
}

/// The number that the first eight bytes of `s` hold, least significant first.
#[verifier::opaque]
pub open spec fn le64_value(s: Seq<u8>) -> nat
    recommends
        s.len() >= 8,
{
    le32_value(s) + le32_value(s.skip(4)) * 0x1_0000_0000
}

/// A number below 2^32, written as four bytes and read back, is the same
/// number, whatever follows the four bytes.
pub proof fn lemma_le32(x: nat, rest: Seq<u8>)
    requires
        x < 0x1_0000_0000,
    ensures
        le32_bytes(x).len() == 4,
        le32_value(le32_bytes(x) + rest) == x,
        (le32_bytes(x) + rest).skip(4) == rest,
{
    reveal(le32_bytes);
    reveal(le32_value);
    assert((le32_bytes(x) + rest).skip(4) =~= rest);
}

/// A number below 2^64, written as eight bytes and read back, is the same
/// number, whatever follows the eight bytes.
pub proof fn lemma_le64(x: nat, rest: Seq<u8>)
    requires
        x < 0x1_0000_0000_0000_0000,
    ensures
        le64_bytes(x).len() == 8,
        le64_value(le64_bytes(x) + rest) == x,
        (le64_bytes(x) + rest).skip(8) == rest,
{
    reveal(le64_bytes);
    reveal(le64_value);
    let lo = x % 0x1_0000_0000;
    let hi = x / 0x1_0000_0000;
    let s = le64_bytes(x) + rest;
    lemma_le32(lo, le32_bytes(hi) + rest);
    lemma_le32(hi, rest);
    assert(s =~= le32_bytes(lo) + (le32_bytes(hi) + rest));
    assert(s.skip(8) =~= rest);
}

/// The value read from four bytes is below 2^32, and from eight below 2^64.
pub proof fn lemma_le_bounds(s: Seq<u8>)
    ensures
        le32_value(s) < 0x1_0000_0000,
        le64_value(s) < 0x1_0000_0000_0000_0000,
{
    reveal(le32_value);
    reveal(le64_value);
}

/// Appends `x` as `bincode` writes a `u32`.
///
/// Calls `bincode::serialize_into` with the vector as the writer. With the
/// options of that function (fixed-width integers, little-endian, no size
/// limit) it appends the four bytes of `x`, least significant first, and a
/// vector never refuses a write, so it does not fail.
#[verifier::external_body]
fn put_u32(buf: &mut Vec<u8>, x: u32) -> (r: Result<(), Box<bincode::ErrorKind>>)
    ensures
        r is Ok,
        final(buf)@ == old(buf)@ + le32_bytes(x as nat),
{
    bincode::serialize_into(buf, &x)
}

/// Appends `x` as `bincode` writes a `u64`.
///
/// Calls `bincode::serialize_into` with the vector as the writer; as for a
/// `u32`, with eight bytes.
#[verifier::external_body]
fn put_u64(buf: &mut Vec<u8>, x: u64) -> (r: Result<(), Box<bincode::ErrorKind>>)
    ensures
        r is Ok,
        final(buf)@ == old(buf)@ + le64_bytes(x as nat),
{
    bincode::serialize_into(buf, &x)
}

/// Reads a `u32` from the front of `bytes` as `bincode` does.
///
/// Calls `bincode::deserialize`. With the options of that function it takes
/// four bytes, least significant first, and leaves what follows them alone;
/// it fails when fewer than four bytes are there, and only then.
#[verifier::external_body]
fn get_u32(bytes: &[u8]) -> (r: Result<u32, Box<bincode::ErrorKind>>)
    ensures
        r is Ok <==> bytes@.len() >= 4,
        r matches Ok(x) ==> x == le32_value(bytes@),
{
    bincode::deserialize::<u32>(bytes)
}

/// Reads a `u64` from the front of `bytes` as `bincode` does.
///
/// Calls `bincode::deserialize`; as for a `u32`, with eight bytes.
#[verifier::external_body]
fn get_u64(bytes: &[u8]) -> (r: Result<u64, Box<bincode::ErrorKind>>)
    ensures
        r is Ok <==> bytes@.len() >= 8,
        r matches Ok(x) ==> x == le64_value(bytes@),
{
    bincode::deserialize::<u64>(bytes)
}

/// Appends the four bytes of `x`, least significant first.
fn write_u32(buf: &mut Vec<u8>, x: u32)
    ensures
        final(buf)@ == old(buf)@ + le32_bytes(x as nat),
{
    let _ = put_u32(buf, x);
}

/// Appends the eight bytes of `x`, least significant first.
fn write_u64(buf: &mut Vec<u8>, x: u64)
    ensures
        final(buf)@ == old(buf)@ + le64_bytes(x as nat),
{
    let _ = put_u64(buf, x);
}

/// Reads four bytes at `at`, least significant first.
fn read_u32(bytes: &[u8], at: usize) -> (r: Result<u32, CodecError>)
    requires
        at <= bytes@.len(),
    ensures
        match r {
            Ok(x) => bytes@.len() - at >= 4 && x == le32_value(bytes@.skip(at as int)),
            Err(e) => bytes@.len() - at < 4 && e == CodecError::TooShort,
        },
{
    proof {
        lemma_le_bounds(bytes@.skip(at as int));
    }
    let tail = slice_subrange(bytes, at, bytes.len());
    assert(tail@ =~= bytes@.skip(at as int));
    match get_u32(tail) {
        Ok(x) => Ok(x),
        Err(_) => Err(CodecError::TooShort),
    }
}

/// Reads eight bytes at `at`, least significant first.
fn read_u64(bytes: &[u8], at: usize) -> (r: Result<u64, CodecError>)
    requires
        at <= bytes@.len(),
    ensures
        match r {
            Ok(x) => bytes@.len() - at >= 8 && x == le64_value(bytes@.skip(at as int)),
            Err(e) => bytes@.len() - at < 8 && e == CodecError::TooShort,
        },
{
    proof {
        lemma_le_bounds(bytes@.skip(at as int));
    }
    let tail = slice_subrange(bytes, at, bytes.len());
    assert(tail@ =~= bytes@.skip(at as int));
    match get_u64(tail) {
        Ok(x) => Ok(x),
        Err(_) => Err(CodecError::TooShort),
    }
}

/// One latency sample, in microseconds.
#[derive(Debug, Clone, Copy, PartialEq, Eq, Structural)]
pub struct LatencyRecord {
    /// One-way network latency: half of the round trip that was not spent
    /// processing.
    pub latency: u64,
    /// When the client sent the request.
    pub send_timestamp: u64,
    /// How long the server worked on it.
    pub server_processing_time: u64,
    /// When the client received the response.
    pub recv_timestamp: u64,
}

/// How the server's work on a request ended.
#[derive(Debug, Clone, Copy, PartialEq, Eq, Structural)]
pub enum ServerWorkStatus {
    Completed,
    Failed,
}

/// A request: a unit of work with the id and the send time the client gave it.
#[derive(Debug, Clone, Copy, PartialEq, Eq, Structural)]
pub struct ClientWorkPacket {
    id: u64,
    work: Work,
    timestamp: u64,
}

/// What a request holds.
pub struct RequestView {
    pub id: u64,
    pub work: Work,
    pub timestamp: u64,
}

/// A response: the outcome of a request, with the request's id and send
/// time echoed.
#[derive(Debug, Clone, PartialEq)]
pub struct ServerWorkPacket {
    status: ServerWorkStatus,
    server_processing_time: u64,
    client_id: u64,
    client_send_time: u64,
    payload: Option<Vec<u8>>,
}

/// What a response holds.
pub struct ResponseView {
    pub status: ServerWorkStatus,
    pub server_processing_time: u64,
    pub client_id: u64,
    pub client_send_time: u64,
    pub payload: Option<Seq<u8>>,
}

impl View for ClientWorkPacket {
    type V = RequestView;

    closed spec fn view(&self) -> RequestView {
        RequestView { id: self.id, work: self.work, timestamp: self.timestamp }
    }
}

impl View for ServerWorkPacket {
    type V = ResponseView;

    closed spec fn view(&self) -> ResponseView {
        ResponseView {
            status: self.status,
            server_processing_time: self.server_processing_time,
            client_id: self.client_id,
            client_send_time: self.client_send_time,
            payload: match self.payload {
                Some(p) => Some(p@),
                None => None,
            },
        }
    }
}

/// The tag that stands for a work's variant on the wire.
pub open spec fn work_tag(w: Work) -> nat {
    match w {
        Work::Immediate => 0,
        Work::Const(_) => 1,
        Work::Payload => 2,
        Work::Poisson(_) => 3,
        Work::BusyTimeConst(_) => 4,
        Work::BusyWorkConst(_) => 5,
    }
}

/// The bytes of a work: its tag, then its amount if it has one.
pub open spec fn encode_work_spec(w: Work) -> Seq<u8> {
    match w {
        Work::Immediate => le32_bytes(0),
        Work::Payload => le32_bytes(2),
        Work::Const(amt) => le32_bytes(1) + le64_bytes(amt as nat),
        Work::Poisson(rate) => le32_bytes(3) + le64_bytes(rate.value() as nat),
        Work::BusyTimeConst(amt) => le32_bytes(4) + le64_bytes(amt as nat),
        Work::BusyWorkConst(amt) => le32_bytes(5) + le64_bytes(amt as nat),
    }
}

/// The work at the front of `b`, with the number of bytes it takes.
pub open spec fn decode_work_spec(b: Seq<u8>) -> Result<(Work, nat), CodecError> {
    if b.len() < 4 {
        Err(CodecError::TooShort)
    } else {
        let tag = le32_value(b);
        let amt = le64_value(b.skip(4)) as u64;
        if tag == 0 {
            Ok((Work::Immediate, 4))
        } else if tag == 2 {
            Ok((Work::Payload, 4))
        } else if tag > 5 {
            Err(CodecError::BadTag)
        } else if b.len() < 12 {
            Err(CodecError::TooShort)
        } else if tag == 1 {
            Ok((Work::Const(amt), 12))
        } else if tag == 4 {
            Ok((Work::BusyTimeConst(amt), 12))
        } else if tag == 5 {
            Ok((Work::BusyWorkConst(amt), 12))
        } else if amt == 0 {
            Err(CodecError::ZeroPoisson)
        } else {
            Ok((Work::Poisson(NonZeroMicros::from_value(amt)), 12))
        }
    }
}

/// The bytes of a request: id, work, send time.
pub open spec fn encode_request_spec(v: RequestView) -> Seq<u8> {
    le64_bytes(v.id as nat) + encode_work_spec(v.work) + le64_bytes(v.timestamp as nat)
}

/// The request at the front of `b`; bytes after it are not looked at.
pub open spec fn decode_request_spec(b: Seq<u8>) -> Result<RequestView, CodecError> {
    if b.len() < 8 {
        Err(CodecError::TooShort)
    } else {
        match decode_work_spec(b.skip(8)) {
            Err(e) => Err(e),
            Ok((work, used)) => if b.len() < 8 + used + 8 {
                Err(CodecError::TooShort)
            } else {
                Ok(
                    RequestView {
                        id: le64_value(b) as u64,
                        work,
                        timestamp: le64_value(b.skip(8 + used as int)) as u64,
                    },
                )
            },
        }
    }
}

/// The bytes of an optional payload: a presence byte, then length and bytes.
pub open spec fn encode_payload_spec(p: Option<Seq<u8>>) -> Seq<u8> {
    match p {
        None => seq![0u8],
        Some(bytes) => seq![1u8] + le64_bytes(bytes.len()) + bytes,
    }
}

/// The optional payload that `b` holds.
///
/// An absent payload is its presence byte, and what follows that byte is
/// not looked at. A present payload must fill the rest of `b` exactly: a
/// declared length that is more or less than the bytes that follow it is
/// an error.
pub open spec fn decode_payload_spec(b: Seq<u8>) -> Result<Option<Seq<u8>>, CodecError> {
    if b.len() < 1 {
        Err(CodecError::TooShort)
    } else if b[0] == 0 {
        Ok(None)
    } else if b[0] != 1 {
        Err(CodecError::BadTag)
    } else if b.len() < 9 {
        Err(CodecError::TooShort)
    } else {
        let n = le64_value(b.skip(1));
        if n != b.len() - 9 {
            Err(CodecError::PayloadLength)
        } else {
            Ok(Some(b.skip(9)))
        }
    }
}

/// The bytes of a response: status, processing time, id, send time, payload.
pub open spec fn encode_response_spec(v: ResponseView) -> Seq<u8> {
    le32_bytes(
        match v.status {
            ServerWorkStatus::Completed => 0,
            ServerWorkStatus::Failed => 1,
        },
    ) + le64_bytes(v.server_processing_time as nat) + le64_bytes(v.client_id as nat) + le64_bytes(
        v.client_send_time as nat,
    ) + encode_payload_spec(v.payload)
}

/// The response that `b` holds. Where the response has a payload, the
/// payload must end where `b` ends; after a response without one, what
/// follows is not looked at.
pub open spec fn decode_response_spec(b: Seq<u8>) -> Result<ResponseView, CodecError> {
    if b.len() < 4 {
        Err(CodecError::TooShort)
    } else if le32_value(b) > 1 {
        Err(CodecError::BadTag)
    } else if b.len() < 28 {
        Err(CodecError::TooShort)
    } else {
        match decode_payload_spec(b.skip(28)) {
            Err(e) => Err(e),
            Ok(payload) => Ok(
                ResponseView {
                    status: if le32_value(b) == 0 {
                        ServerWorkStatus::Completed
                    } else {
                        ServerWorkStatus::Failed
                    },
                    server_processing_time: le64_value(b.skip(4)) as u64,
                    client_id: le64_value(b.skip(12)) as u64,
                    client_send_time: le64_value(b.skip(20)) as u64,
                    payload,
                },
            ),
        }
    }
}

/// Appends the bytes of a work.
fn encode_work(buf: &mut Vec<u8>, work: Work)
    ensures
        final(buf)@ == old(buf)@ + encode_work_spec(work),
{
    match work {
        Work::Immediate => {
            write_u32(buf, 0);
        },
        Work::Payload => {
            write_u32(buf, 2);
        },
        Work::Const(amt) => {
            write_u32(buf, 1);
            write_u64(buf, amt);
        },
        Work::Poisson(rate) => {
            write_u32(buf, 3);
            write_u64(buf, rate.get());
        },
        Work::BusyTimeConst(amt) => {
            write_u32(buf, 4);
            write_u64(buf, amt);
        },
        Work::BusyWorkConst(amt) => {
            write_u32(buf, 5);
            write_u64(buf, amt);
        },
    }
    assert(buf@ =~= old(buf)@ + encode_work_spec(work));
}

/// Reads the work that starts at `at`.
fn decode_work(bytes: &[u8], at: usize) -> (r: Result<(Work, usize), CodecError>)
    requires
        at <= bytes@.len(),
    ensures
        match r {
            Ok((work, used)) => decode_work_spec(bytes@.skip(at as int)) == Ok::<
                (Work, nat),
                CodecError,
            >((work, used as nat)) && at + used <= bytes@.len() && work.valid(),
            Err(e) => decode_work_spec(bytes@.skip(at as int)) == Err::<(Work, nat), CodecError>(
                e,
            ),
        },
{
    broadcast use NonZeroMicros::lemma_value_of_from_value;

    let ghost b = bytes@.skip(at as int);
    let total = bytes.len();
    let tag = match read_u32(bytes, at) {
        Ok(tag) => tag,
        Err(e) => {
            return Err(e);
        },
    };
    if tag == 0 {
        return Ok((Work::Immediate, 4));
    }
    if tag == 2 {
        return Ok((Work::Payload, 4));
    }
    if tag > 5 {
        return Err(CodecError::BadTag);
    }
    assert(b.skip(4) =~= bytes@.skip(at + 4));
    let amt = match read_u64(bytes, at + 4) {
        Ok(amt) => amt,
        Err(e) => {
            return Err(e);
        },
    };
    if tag == 1 {
        Ok((Work::Const(amt), 12))
    } else if tag == 4 {
        Ok((Work::BusyTimeConst(amt), 12))
    } else if tag == 5 {
        Ok((Work::BusyWorkConst(amt), 12))
    } else {
        match NonZeroMicros::new(amt) {
            Some(rate) => Ok((Work::Poisson(rate), 12)),
            None => Err(CodecError::ZeroPoisson),
        }
    }
}

/// Reads the optional payload that starts at `at`.
fn decode_payload(bytes: &[u8], at: usize) -> (r: Result<Option<Vec<u8>>, CodecError>)
    requires
        at <= bytes@.len(),
    ensures
        match r {
            Ok(Some(p)) => decode_payload_spec(bytes@.skip(at as int)) == Ok::<
                Option<Seq<u8>>,
                CodecError,
            >(Some(p@)),
            Ok(None) => decode_payload_spec(bytes@.skip(at as int)) == Ok::<
                Option<Seq<u8>>,
                CodecError,
            >(None),
            Err(e) => decode_payload_spec(bytes@.skip(at as int)) == Err::<
                Option<Seq<u8>>,
                CodecError,
            >(e),
        },
{
    let ghost b = bytes@.skip(at as int);
    let total = bytes.len();
    if total - at < 1 {
        return Err(CodecError::TooShort);
    }
    let flag = bytes[at];
    assert(b[0] == flag);
    if flag == 0 {
        return Ok(None);
    }
    if flag != 1 {
        return Err(CodecError::BadTag);
    }
    assert(b.skip(1) =~= bytes@.skip(at + 1));
    let n = match read_u64(bytes, at + 1) {
        Ok(n) => n,
        Err(e) => {
            return Err(e);
        },
    };
    let left = total - at - 9;
    if n != left as u64 {
        return Err(CodecError::PayloadLength);
    }
    let p = slice_to_vec(slice_subrange(bytes, at + 9, total));
    assert(p@ =~= b.skip(9));
    Ok(Some(p))
}

/// Copies `src` over the front of `dst`.
fn copy_to_front(dst: &mut [u8], src: &Vec<u8>)
    requires
        src@.len() <= old(dst)@.len(),
    ensures
        final(dst)@ == src@ + old(dst)@.skip(src@.len() as int),
{
    let n = src.len();
    let mut i: usize = 0;
    while i < n
        invariant
            i <= n,
            n == src@.len(),
            n <= dst@.len(),
            dst@.len() == old(dst)@.len(),
            dst@ == src@.take(i as int) + old(dst)@.skip(i as int),
        decreases n - i,
    {
        let byte = src[i];
        dst[i] = byte;
        i += 1;
        assert(dst@ =~= src@.take(i as int) + old(dst)@.skip(i as int));
    }
    assert(src@.take(n as int) =~= src@);
}

/// A packet that has a binary form.
pub trait MessageTrait: Sized + View {
    /// The bytes of a packet.
    spec fn encoding(v: Self::V) -> Seq<u8>;

    /// The packet that some bytes hold, or why they hold none.
    spec fn decoding(bytes: Seq<u8>) -> Result<Self::V, CodecError>;

    /// Writes the packet over the front of `buf` and returns its size.
    ///
    /// Fails, and leaves `buf` alone, exactly when the packet is larger
    /// than `buf`.
    fn to_bytes(&self, buf: &mut [u8]) -> (r: Result<u64, CodecError>)
        ensures
            match r {
                Ok(n) => n == Self::encoding(self@).len() && n <= old(buf)@.len() && final(buf)@
                    == Self::encoding(self@) + old(buf)@.skip(n as int),
                Err(e) => e == CodecError::BufferTooSmall && Self::encoding(self@).len() > old(buf)@.len() && final(buf)@ == old(buf)@,
            },
    ;

    /// Appends the packet to `buf`. Never fails.
    fn to_vec(&self, buf: &mut Vec<u8>) -> (r: Result<(), CodecError>)
        ensures
            r is Ok,
            final(buf)@ == old(buf)@ + Self::encoding(self@),
    ;

    /// Reads the packet that `buf` holds: `Ok` exactly where
    /// [`Self::decoding`] gives the packet, and its error everywhere else.
    fn from_bytes(buf: &[u8]) -> (r: Result<Self, CodecError>)
        ensures
            match r {
                Ok(p) => Self::decoding(buf@) == Ok::<Self::V, CodecError>(p@),
                Err(e) => Self::decoding(buf@) == Err::<Self::V, CodecError>(e),
            },
    ;
}

impl MessageTrait for ClientWorkPacket {
    open spec fn encoding(v: RequestView) -> Seq<u8> {
        encode_request_spec(v)
    }

    open spec fn decoding(bytes: Seq<u8>) -> Result<RequestView, CodecError> {
        decode_request_spec(bytes)
    }

    fn to_bytes(&self, buf: &mut [u8]) -> (r: Result<u64, CodecError>) {
        let mut tmp: Vec<u8> = Vec::new();
        let _ = self.to_vec(&mut tmp);
        assert(tmp@ =~= encode_request_spec(self@));
        if tmp.len() > buf.len() {
            return Err(CodecError::BufferTooSmall);
        }
        copy_to_front(buf, &tmp);
        Ok(tmp.len() as u64)
    }

    fn to_vec(&self, buf: &mut Vec<u8>) -> (r: Result<(), CodecError>) {
        write_u64(buf, self.id);
        encode_work(buf, self.work);
        write_u64(buf, self.timestamp);
        assert(buf@ =~= old(buf)@ + encode_request_spec(self@));
        Ok(())
    }

    fn from_bytes(buf: &[u8]) -> (r: Result<ClientWorkPacket, CodecError>) {
        let total = buf.len();
        assert(buf@.skip(0) =~= buf@);
        let id = match read_u64(buf, 0) {
            Ok(id) => id,
            Err(e) => {
                return Err(e);
            },
        };
        let (work, used) = match decode_work(buf, 8) {
            Ok(found) => found,
            Err(e) => {
                return Err(e);
            },
        };
        let timestamp = match read_u64(buf, 8 + used) {
            Ok(timestamp) => timestamp,
            Err(e) => {
                return Err(e);
            },
        };
        Ok(ClientWorkPacket { id, work, timestamp })
    }
}

impl MessageTrait for ServerWorkPacket {
    open spec fn encoding(v: ResponseView) -> Seq<u8> {
        encode_response_spec(v)
    }

    open spec fn decoding(bytes: Seq<u8>) -> Result<ResponseView, CodecError> {
        decode_response_spec(bytes)
    }

    fn to_bytes(&self, buf: &mut [u8]) -> (r: Result<u64, CodecError>) {
        let mut tmp: Vec<u8> = Vec::new();
        let _ = self.to_vec(&mut tmp);
        assert(tmp@ =~= encode_response_spec(self@));
        if tmp.len() > buf.len() {
            return Err(CodecError::BufferTooSmall);
        }
        copy_to_front(buf, &tmp);
        Ok(tmp.len() as u64)
    }

    fn to_vec(&self, buf: &mut Vec<u8>) -> (r: Result<(), CodecError>) {
        let status: u32 = match self.status {
            ServerWorkStatus::Completed => 0,
            ServerWorkStatus::Failed => 1,
        };
        write_u32(buf, status);
        write_u64(buf, self.server_processing_time);
        write_u64(buf, self.client_id);
        write_u64(buf, self.client_send_time);
        let ghost head = buf@;
        match &self.payload {
            None => {
                buf.push(0u8);
                assert(buf@ =~= head + encode_payload_spec(self@.payload));
            },
            Some(bytes) => {
                buf.push(1u8);
                write_u64(buf, bytes.len() as u64);
                buf.extend_from_slice(bytes.as_slice());
                assert(buf@ =~= head + encode_payload_spec(self@.payload));
            },
        }
        assert(buf@ =~= old(buf)@ + encode_response_spec(self@));
        Ok(())
    }

    fn from_bytes(buf: &[u8]) -> (r: Result<ServerWorkPacket, CodecError>) {
        let total = buf.len();
        assert(buf@.skip(0) =~= buf@);
        let tag = match read_u32(buf, 0) {
            Ok(tag) => tag,
            Err(e) => {
                return Err(e);
            },
        };
        if tag > 1 {
            return Err(CodecError::BadTag);
        }
        let status = if tag == 0 {
            ServerWorkStatus::Completed
        } else {
            ServerWorkStatus::Failed
        };
        let server_processing_time = match read_u64(buf, 4) {
            Ok(x) => x,
            Err(e) => {
                return Err(e);
            },
        };
        let client_id = match read_u64(buf, 12) {
            Ok(x) => x,
            Err(e) => {
                return Err(e);
            },
        };
        let client_send_time = match read_u64(buf, 20) {
            Ok(x) => x,
            Err(e) => {
                return Err(e);
            },
        };
        let payload = match decode_payload(buf, 28) {
            Ok(payload) => payload,
            Err(e) => {
                return Err(e);
            },
        };
        Ok(ServerWorkPacket { status, server_processing_time, client_id, client_send_time, payload })
    }
}

/// A work, written and read back, is the same work, whatever follows it.
pub proof fn lemma_decode_encoded_work(w: Work, rest: Seq<u8>)
    requires
        w.valid(),
    ensures
        decode_work_spec(encode_work_spec(w) + rest) == Ok::<(Work, nat), CodecError>(
            (w, encode_work_spec(w).len()),
        ),
{
    broadcast use NonZeroMicros::lemma_from_value_of_value;

    let b = encode_work_spec(w) + rest;
    match w {
        Work::Immediate => {
            lemma_le32(0, rest);
        },
        Work::Payload => {
            lemma_le32(2, rest);
        },
        Work::Const(amt) => {
            lemma_le32(1, le64_bytes(amt as nat) + rest);
            lemma_le64(amt as nat, rest);
            assert(b =~= le32_bytes(1) + (le64_bytes(amt as nat) + rest));
        },
        Work::Poisson(rate) => {
            let amt = rate.value();
            lemma_le32(3, le64_bytes(amt as nat) + rest);
            lemma_le64(amt as nat, rest);
            assert(b =~= le32_bytes(3) + (le64_bytes(amt as nat) + rest));
        },
        Work::BusyTimeConst(amt) => {
            lemma_le32(4, le64_bytes(amt as nat) + rest);
            lemma_le64(amt as nat, rest);
            assert(b =~= le32_bytes(4) + (le64_bytes(amt as nat) + rest));
        },
        Work::BusyWorkConst(amt) => {
            lemma_le32(5, le64_bytes(amt as nat) + rest);
            lemma_le64(amt as nat, rest);
            assert(b =~= le32_bytes(5) + (le64_bytes(amt as nat) + rest));
        },
    }
}

/// A request takes twenty bytes, and eight more where its work has an
/// amount.
pub proof fn lemma_request_len(v: RequestView)
    ensures
        encode_request_spec(v).len() == 20 || encode_request_spec(v).len() == 28,
{
    lemma_le32(0, Seq::empty());
    lemma_le64(0, Seq::empty());
    reveal(le32_bytes);
    reveal(le64_bytes);
}

/// A request, written and read back, is the same request, whatever follows
/// its bytes.
pub proof fn lemma_decode_encoded_request(v: RequestView, rest: Seq<u8>)
    requires
        v.work.valid(),
    ensures
        decode_request_spec(encode_request_spec(v) + rest) == Ok::<RequestView, CodecError>(v),
{
    let w = encode_work_spec(v.work);
    let ts = le64_bytes(v.timestamp as nat);
    let b = encode_request_spec(v) + rest;
    lemma_le64(v.id as nat, w + ts + rest);
    assert(b =~= le64_bytes(v.id as nat) + (w + ts + rest));
    assert(b.skip(8) =~= w + (ts + rest));
    lemma_decode_encoded_work(v.work, ts + rest);
    lemma_le64(v.timestamp as nat, rest);
    assert(b.skip(8 + w.len() as int) =~= ts + rest);
}

/// An optional payload, written and read back, is the same. A payload
/// that is present must be the last thing written; one that is absent may
/// be followed by anything.
pub proof fn lemma_decode_encoded_payload(p: Option<Seq<u8>>, rest: Seq<u8>)
    requires
        p matches Some(bytes) ==> bytes.len() <= u64::MAX && rest.len() == 0,
    ensures
        decode_payload_spec(encode_payload_spec(p) + rest) == Ok::<Option<Seq<u8>>, CodecError>(p),
{
    let b = encode_payload_spec(p) + rest;
    match p {
        None => {
            assert(b[0] == 0);
        },
        Some(bytes) => {
            assert(b[0] == 1);
            lemma_le64(bytes.len(), bytes + rest);
            assert(b.skip(1) =~= le64_bytes(bytes.len()) + (bytes + rest));
            assert(b.skip(9) =~= bytes);
        },
    }
}

/// A response, written and read back, is the same response. One with a
/// payload must be the last thing written; one without may be followed by
/// anything.
pub proof fn lemma_decode_encoded_response(v: ResponseView, rest: Seq<u8>)
    requires
        v.payload matches Some(bytes) ==> bytes.len() <= u64::MAX && rest.len() == 0,
    ensures
        decode_response_spec(encode_response_spec(v) + rest) == Ok::<ResponseView, CodecError>(v),
{
    let tag: nat = match v.status {
        ServerWorkStatus::Completed => 0,
        ServerWorkStatus::Failed => 1,
    };
    let a = le64_bytes(v.server_processing_time as nat);
    let c = le64_bytes(v.client_id as nat);
    let d = le64_bytes(v.client_send_time as nat);
    let e = encode_payload_spec(v.payload);
    let b = encode_response_spec(v) + rest;
    lemma_le32(tag, a + c + d + e + rest);
    assert(b =~= le32_bytes(tag) + (a + c + d + e + rest));
    lemma_le64(v.server_processing_time as nat, c + d + e + rest);
    assert(b.skip(4) =~= a + (c + d + e + rest));
    lemma_le64(v.client_id as nat, d + e + rest);
    assert(b.skip(12) =~= c + (d + e + rest));
    lemma_le64(v.client_send_time as nat, e + rest);
    assert(b.skip(20) =~= d + (e + rest));
    assert(b.skip(28) =~= e + rest);
    lemma_decode_encoded_payload(v.payload, rest);
}

/// The response to `request` after the work took `processing_time` and
/// made `payload`.
pub open spec fn response_to(request: RequestView, processing_time: u64, payload: Option<Seq<u8>>)
    -> ResponseView {
    ResponseView {
        status: ServerWorkStatus::Completed,
        server_processing_time: processing_time,
        client_id: request.id,
        client_send_time: request.timestamp,
        payload,
    }
}

impl ClientWorkPacket {
    /// A request stamped with the time at which it is made.
    ///
    /// The send time is whatever the wall clock reads at the call.
    pub fn new(id: u64, work: Work) -> (packet: ClientWorkPacket)
        ensures
            packet@.id == id,
            packet@.work == work,
    {
        ClientWorkPacket::with_timestamp(id, work, get_current_time_micros())
    }

    /// A request with the send time given.
    pub fn with_timestamp(id: u64, work: Work, timestamp: u64) -> (packet: ClientWorkPacket)
        ensures
            packet@ == (RequestView { id, work, timestamp }),
    {
        ClientWorkPacket { id, work, timestamp }
    }

    pub fn id(&self) -> (id: u64)
        ensures
            id == self@.id,
    {
        self.id
    }

    pub fn work(&self) -> (work: Work)
        ensures
            work == self@.work,
    {
        self.work
    }

    pub fn timestamp(&self) -> (timestamp: u64)
        ensures
            timestamp == self@.timestamp,
    {
        self.timestamp
    }

    /// The response to this request once its work has been performed:
    /// completed, with the time the work took and the payload it made, and
    /// with the request's id and send time echoed.
    pub fn do_work(&self, server_processing_time: u64, payload: Option<Vec<u8>>) -> (response:
        ServerWorkPacket)
        ensures
            response@ == response_to(
                self@,
                server_processing_time,
                match payload {
                    Some(p) => Some(p@),
                    None => None,
                },
            ),
    {
        ServerWorkPacket {
            status: ServerWorkStatus::Completed,
            server_processing_time,
            client_id: self.id,
            client_send_time: self.timestamp,
            payload,
        }
    }
}

/// The latency sample that a response gives when it is received at
/// `receive_time`.
///
/// A failed response gives none. Nor does one that seems to arrive before
/// it was sent, or that the server claims to have worked on for longer than
/// the whole round trip: both would make the latency negative. Otherwise
/// the latency is half of the round trip after the processing time is taken
/// off, rounded down.
pub open spec fn latency_spec(v: ResponseView, receive_time: u64) -> Option<LatencyRecord> {
    if v.status == ServerWorkStatus::Failed {
        None
    } else if receive_time < v.client_send_time {
        None
    } else if receive_time - v.client_send_time < v.server_processing_time {
        None
    } else {
        Some(
            LatencyRecord {
                latency: ((receive_time - v.client_send_time - v.server_processing_time)
                    / 2) as u64,
                send_timestamp: v.client_send_time,
                server_processing_time: v.server_processing_time,
                recv_timestamp: receive_time,
            },
        )
    }
}

/// Whether a response received at `receive_time` carries times that cannot
/// both be right: it completed, yet the round trip is negative or shorter
/// than the processing time.
pub open spec fn inconsistent_spec(v: ResponseView, receive_time: u64) -> bool {
    v.status == ServerWorkStatus::Completed && (receive_time < v.client_send_time || receive_time
        - v.client_send_time < v.server_processing_time)
}

impl ServerWorkPacket {
    /// A response with every field given.
    pub fn new(
        status: ServerWorkStatus,
        server_processing_time: u64,
        client_id: u64,
        client_send_time: u64,
        payload: Option<Vec<u8>>,
    ) -> (response: ServerWorkPacket)
        ensures
            response@ == (ResponseView {
                status,
                server_processing_time,
                client_id,
                client_send_time,
                payload: match payload {
                    Some(p) => Some(p@),
                    None => None,
                },
            }),
    {
        ServerWorkPacket { status, server_processing_time, client_id, client_send_time, payload }
    }

    pub fn status(&self) -> (status: ServerWorkStatus)
        ensures
            status == self@.status,
    {
        self.status
    }

    pub fn server_processing_time(&self) -> (t: u64)
        ensures
            t == self@.server_processing_time,
    {
        self.server_processing_time
    }

    pub fn client_id(&self) -> (id: u64)
        ensures
            id == self@.client_id,
    {
        self.client_id
    }

    pub fn client_send_time(&self) -> (t: u64)
        ensures
            t == self@.client_send_time,
    {
        self.client_send_time
    }

    /// How many bytes of payload the response carries, if it carries any.
    pub fn payload_len(&self) -> (n: Option<usize>)
        ensures
            n == match self@.payload {
                Some(p) => Some(p.len() as usize),
                None => None,
            },
    {
        match &self.payload {
            Some(p) => Some(p.len()),
            None => None,
        }
    }

    /// The latency sample of this response: see [`latency_spec`].
    pub fn calculate_latency(&self, receive_time: u64) -> (sample: Option<LatencyRecord>)
        ensures
            sample == latency_spec(self@, receive_time),
    {
        match self.status {
            ServerWorkStatus::Failed => None,
            ServerWorkStatus::Completed => {
                if receive_time < self.client_send_time {
                    return None;
                }
                let rtt = receive_time - self.client_send_time;
                if rtt < self.server_processing_time {
                    return None;
                }
                Some(
                    LatencyRecord {
                        latency: (rtt - self.server_processing_time) / 2,
                        send_timestamp: self.client_send_time,
                        server_processing_time: self.server_processing_time,
                        recv_timestamp: receive_time,
                    },
                )
            },
        }
    }

    /// Whether the sample was dropped because the times disagree, which is
    /// worth a warning, and not because the work failed.
    pub fn is_inconsistent(&self, receive_time: u64) -> (bad: bool)
        ensures
            bad == inconsistent_spec(self@, receive_time),
    {
        match self.status {
            ServerWorkStatus::Failed => false,
            ServerWorkStatus::Completed => receive_time < self.client_send_time || receive_time
                - self.client_send_time < self.server_processing_time,
        }
    }
}

/// Draws a number from `low..high` at random.
///
/// Calls `rand::Rng::gen_range` on the thread-local generator with the
/// half-open range. That method panics on an empty range, which the
/// precondition leaves out; its result lies in the range.
#[verifier::external_body]
fn draw_in_range(low: u64, high: u64) -> (r: u64)
    requires
        low < high,
    ensures
        low <= r < high,
{
    rand::thread_rng().gen_range(low..high)
}

/// A work drawn at random: one of the kinds that need no payload, with an
/// amount from 1 to 99 where the kind takes one.
pub fn generate_random_work() -> (work: Work)
    ensures
        work.valid(),
        !(work is Payload),
        match work {
            Work::Immediate => true,
            Work::Payload => false,
            Work::Const(amt) => 1 <= amt < 100,
            Work::Poisson(rate) => 1 <= rate.value() < 100,
            Work::BusyTimeConst(amt) => 1 <= amt < 100,
            Work::BusyWorkConst(amt) => 1 <= amt < 100,
        },
{
    broadcast use NonZeroMicros::lemma_value_of_from_value;

    let kind = draw_in_range(0, 6);
    if 1 <= kind && kind <= 4 {
        let amount = NonZeroMicros::new(draw_in_range(1, 100));
        Work::from_draw(kind, amount.unwrap())
    } else {
        Work::Immediate
    }
}

} // verus!
