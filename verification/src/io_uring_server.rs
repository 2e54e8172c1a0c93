//! The ring-based server: one reactor, many connections, no thread that
//! waits for any one of them.
//!
//! Each connection has the bytes that were read and not yet understood,
//! and the bytes of responses that were made and not yet written. Reads
//! and writes complete in whatever portions the kernel likes; the reactor
//! books each completion here, and asks here what to do next. Responses
//! leave a connection in the order in which their requests were read from
//! it, and every byte of them leaves once. A connection has at most one
//! read and one write under way at a time, and none is started on a
//! connection that was hung up.

use crate::chunked_tcp_stream::{FrameError, MSG_SIZE_BYTES};
use crate::io_uring::{IOUring, RingError, RingView};
use crate::protocol::{
    after_front, frame_spec, front_request, ProtocolError, RecvBuffer, ServerWorkPacketConn,
    MAX_PAYLOAD,
};
use crate::serialize::{
    encode_response_spec, response_to, ClientWorkPacket, MessageTrait, RequestView,
};
use vstd::prelude::*;
use vstd::slice::{slice_subrange, slice_to_vec};

verus! {

/// One connection of the reactor.
pub struct Connection {
    incoming: RecvBuffer,
    outgoing: Vec<u8>,
    reading: bool,
    writing: bool,
    closed: bool,
}

/// What a connection holds.
pub struct ConnectionView {
    /// Bytes read that belong to a request not yet complete or not yet taken.
    pub incoming: Seq<u8>,
    /// Bytes of responses that wait to be written, in the order to write them.
    pub outgoing: Seq<u8>,
    /// Whether a read is under way.
    pub reading: bool,
    /// Whether a write is under way.
    pub writing: bool,
    /// Whether the connection was hung up.
    pub closed: bool,
}

impl View for Connection {
    type V = ConnectionView;

    closed spec fn view(&self) -> ConnectionView {
        ConnectionView {
            incoming: self.incoming@,
            outgoing: self.outgoing@,
            reading: self.reading,
            writing: self.writing,
            closed: self.closed,
        }
    }
}

/// A connection on which nothing has happened.
pub open spec fn fresh_connection() -> ConnectionView {
    ConnectionView {
        incoming: Seq::empty(),
        outgoing: Seq::empty(),
        reading: false,
        writing: false,
        closed: false,
    }
}

/// Whether a read may be started on the connection: it is open and has
/// none under way.
pub open spec fn wants_read(c: ConnectionView) -> bool {
    !c.closed && !c.reading
}

/// Whether a write may be started on the connection: it is open, has none
/// under way, and bytes wait.
pub open spec fn wants_write(c: ConnectionView) -> bool {
    !c.closed && !c.writing && c.outgoing.len() > 0
}

/// How many bytes the next write carries when `waiting` bytes wait: what
/// is left of the chunk that is under way, or a whole chunk.
pub open spec fn next_write_len(waiting: nat) -> nat {
    if waiting == 0 {
        0
    } else if waiting % (MSG_SIZE_BYTES as nat) == 0 {
        MSG_SIZE_BYTES as nat
    } else {
        waiting % (MSG_SIZE_BYTES as nat)
    }
}

impl Connection {
    /// A connection on which nothing has happened.
    pub fn new() -> (conn: Connection)
        ensures
            conn@ == fresh_connection(),
    {
        Connection {
            incoming: RecvBuffer::new(),
            outgoing: Vec::new(),
            reading: false,
            writing: false,
            closed: false,
        }
    }

    /// Starts a read if one may be started, and says whether it did.
    pub fn begin_read(&mut self) -> (started: bool)
        ensures
            started == wants_read(old(self)@),
            final(self)@ == (ConnectionView {
                reading: old(self)@.reading || started,
                ..old(self)@
            }),
    {
        if !self.closed && !self.reading {
            self.reading = true;
            true
        } else {
            false
        }
    }

    /// Books a completed read of `bytes`, however many they are: they join
    /// what was read before, and no read is under way any more.
    pub fn on_read(&mut self, bytes: &[u8])
        ensures
            final(self)@ == (ConnectionView {
                incoming: old(self)@.incoming + bytes@,
                reading: false,
                ..old(self)@
            }),
    {
        self.incoming.push(bytes);
        self.reading = false;
    }

    /// Starts a write if one may be started, and gives the bytes it
    /// carries: see [`Connection::next_write`].
    pub fn begin_write(&mut self) -> (bytes: Option<Vec<u8>>)
        ensures
            bytes is Some <==> wants_write(old(self)@),
            bytes matches Some(b) ==> b@ == old(self)@.outgoing.take(
                next_write_len(old(self)@.outgoing.len()) as int,
            ),
            final(self)@ == (ConnectionView {
                writing: old(self)@.writing || bytes is Some,
                ..old(self)@
            }),
    {
        if !self.closed && !self.writing && self.outgoing.len() > 0 {
            let bytes = slice_to_vec(self.next_write());
            self.writing = true;
            Some(bytes)
        } else {
            None
        }
    }

    /// Hangs the connection up: no operation is started on it any more.
    /// What is under way may still complete.
    pub fn close(&mut self)
        ensures
            final(self)@ == (ConnectionView { closed: true, ..old(self)@ }),
    {
        self.closed = true;
    }

    /// Whether a read is under way.
    pub fn is_reading(&self) -> (b: bool)
        ensures
            b == self@.reading,
    {
        self.reading
    }

    /// Whether a write is under way.
    pub fn is_writing(&self) -> (b: bool)
        ensures
            b == self@.writing,
    {
        self.writing
    }

    /// Whether the connection was hung up.
    pub fn is_closed(&self) -> (b: bool)
        ensures
            b == self@.closed,
    {
        self.closed
    }

    /// Takes the request at the front of what was read, if a whole one is
    /// there. A message that is taken leaves the buffer, also when the
    /// packet in it turns out to be wrong.
    pub fn next_request(&mut self) -> (r: Result<Option<ClientWorkPacket>, ProtocolError>)
        ensures
            final(self)@ == (ConnectionView {
                incoming: after_front(old(self)@.incoming),
                ..old(self)@
            }),
            match r {
                Ok(Some(packet)) => front_request(old(self)@.incoming) == Ok::<
                    Option<RequestView>,
                    ProtocolError,
                >(Some(packet@)),
                Ok(None) => front_request(old(self)@.incoming) == Ok::<
                    Option<RequestView>,
                    ProtocolError,
                >(None),
                Err(e) => front_request(old(self)@.incoming) == Err::<
                    Option<RequestView>,
                    ProtocolError,
                >(e),
            },
    {
        match self.incoming.take_message() {
            Err(e) => Err(ProtocolError::Frame(e)),
            Ok(None) => Ok(None),
            Ok(Some(payload)) => match ClientWorkPacket::from_bytes(payload.as_slice()) {
                Ok(packet) => Ok(Some(packet)),
                Err(e) => Err(ProtocolError::Codec(e)),
            },
        }
    }

    /// Queues the response to `request` behind the responses that wait.
    ///
    /// Fails, and queues nothing, only when the payload makes the response
    /// too large to frame.
    pub fn respond(
        &mut self,
        request: &ClientWorkPacket,
        processing_time: u64,
        payload: Option<Vec<u8>>,
    ) -> (r: Result<(), ProtocolError>)
        ensures
            final(self)@ == (ConnectionView { outgoing: final(self)@.outgoing, ..old(self)@ }),
            ({
                let data = encode_response_spec(
                    response_to(
                        request@,
                        processing_time,
                        match payload {
                            Some(p) => Some(p@),
                            None => None,
                        },
                    ),
                );
                match r {
                    Ok(()) => data.len() <= MAX_PAYLOAD && final(self)@.outgoing == old(self)@.outgoing + frame_spec(data),
                    Err(e) => data.len() > MAX_PAYLOAD && e == ProtocolError::Frame(
                        FrameError::PayloadTooLarge,
                    ) && final(self)@.outgoing == old(self)@.outgoing,
                }
            }),
    {
        let response = request.do_work(processing_time, payload);
        match ServerWorkPacketConn::new().send_work_msg(&response) {
            Ok(wire) => {
                self.outgoing.extend_from_slice(wire.as_slice());
                Ok(())
            },
            Err(e) => Err(e),
        }
    }

    /// The bytes of the next write: the front of what waits, up to the end
    /// of the chunk that is under way. Empty when nothing waits.
    pub fn next_write(&self) -> (bytes: &[u8])
        ensures
            bytes@ == self@.outgoing.take(next_write_len(self@.outgoing.len()) as int),
    {
        let waiting = self.outgoing.len();
        let rest = waiting % MSG_SIZE_BYTES;
        let n = if waiting == 0 {
            0
        } else if rest == 0 {
            MSG_SIZE_BYTES
        } else {
            rest
        };
        slice_subrange(self.outgoing.as_slice(), 0, n)
    }

    /// Books a completed write of `written` bytes, which may be fewer than
    /// were handed over: they leave the queue, the rest stays at its front,
    /// and no write is under way any more.
    ///
    /// A completion for more bytes than the write carried is refused and
    /// changes nothing.
    pub fn on_written(&mut self, written: usize) -> (r: Result<(), ProtocolError>)
        ensures
            match r {
                Ok(()) => written <= next_write_len(old(self)@.outgoing.len()) && final(self)@
                    == (ConnectionView {
                    outgoing: old(self)@.outgoing.skip(written as int),
                    writing: false,
                    ..old(self)@
                }),
                Err(e) => written > next_write_len(old(self)@.outgoing.len()) && e
                    == ProtocolError::Frame(FrameError::ChunkSize) && final(self)@ == old(self)@,
            },
    {
        let limit = self.next_write().len();
        if written > limit {
            return Err(ProtocolError::Frame(FrameError::ChunkSize));
        }
        let rest = self.outgoing.split_off(written);
        self.outgoing = rest;
        self.writing = false;
        Ok(())
    }

    /// How many bytes wait to be written.
    pub fn waiting(&self) -> (n: usize)
        ensures
            n == self@.outgoing.len(),
    {
        self.outgoing.len()
    }

    /// What the end of the stream means for what was read: an error if it
    /// cuts a request short.
    pub fn finish(&self) -> (r: Result<(), ProtocolError>)
        ensures
            r == if self@.incoming.len() == 0 {
                Ok::<(), ProtocolError>(())
            } else {
                Err::<(), ProtocolError>(ProtocolError::Frame(FrameError::Truncated))
            },
    {
        match self.incoming.finish() {
            Ok(()) => Ok(()),
            Err(e) => Err(ProtocolError::Frame(e)),
        }
    }
}

/// Writes in portions add up: the bytes that leave in two writes are the
/// bytes that one write of both sizes would have carried, and the same
/// bytes stay behind. So no byte leaves twice, none is skipped, and none
/// overtakes another.
pub proof fn lemma_writes_add_up(outgoing: Seq<u8>, first: nat, second: nat)
    requires
        first + second <= outgoing.len(),
    ensures
        outgoing.take(first as int) + outgoing.skip(first as int).take(second as int)
            == outgoing.take((first + second) as int),
        outgoing.skip(first as int).skip(second as int) == outgoing.skip((first + second) as int),
{
    assert(outgoing.take(first as int) + outgoing.skip(first as int).take(second as int)
        =~= outgoing.take((first + second) as int));
    assert(outgoing.skip(first as int).skip(second as int) =~= outgoing.skip(
        (first + second) as int,
    ));
}

/// A response that is queued while another waits leaves after it: the
/// bytes that wait are those of the first, then those of the second.
pub proof fn lemma_responses_keep_order(waiting: Seq<u8>, first: Seq<u8>, second: Seq<u8>)
    ensures
        (waiting + first + second).take((waiting + first).len() as int) == waiting + first,
        (waiting + first + second).skip((waiting + first).len() as int) == second,
{
    assert((waiting + first + second).take((waiting + first).len() as int) =~= waiting + first);
    assert((waiting + first + second).skip((waiting + first).len() as int) =~= second);
}

/// While bytes wait, the next write carries at least one of them and never
/// more than a chunk, and it ends where a chunk ends.
pub proof fn lemma_next_write_len(waiting: nat)
    ensures
        next_write_len(waiting) <= waiting,
        next_write_len(waiting) <= MSG_SIZE_BYTES,
        waiting > 0 ==> next_write_len(waiting) > 0,
        (waiting - next_write_len(waiting)) % (MSG_SIZE_BYTES as int) == 0,
{
}

/// Why the reactor could not do what it was asked.
#[derive(Debug, Clone, Copy, PartialEq, Eq, Structural)]
pub enum ServerError {
    /// No connection has this number.
    UnknownConnection,
    /// A completion came for an operation that was not started here.
    NotUnderWay,
    /// The ring's books do not allow it.
    Ring(RingError),
    /// The bytes on the connection are wrong.
    Protocol(ProtocolError),
}

/// The reactor's state: the ring's books and the table of connections.
pub struct IOUringServer {
    ring: IOUring,
    conns: Vec<Connection>,
    accepting: bool,
}

/// What the reactor holds.
pub struct ServerView {
    pub ring: RingView,
    /// The connections, by their number.
    pub conns: Seq<ConnectionView>,
    /// Whether an accept is under way.
    pub accepting: bool,
}

impl View for IOUringServer {
    type V = ServerView;

    closed spec fn view(&self) -> ServerView {
        ServerView {
            ring: self.ring@,
            conns: Seq::new(self.conns@.len(), |i: int| self.conns@[i]@),
            accepting: self.accepting,
        }
    }
}

/// The ring's books with one operation more under way.
pub open spec fn one_more(ring: RingView) -> RingView {
    RingView { in_flight: (ring.in_flight + 1) as u32, ..ring }
}

/// The ring's books with one operation less under way.
pub open spec fn one_less(ring: RingView) -> RingView {
    RingView { in_flight: (ring.in_flight - 1) as u32, ..ring }
}

/// Whether the ring has a slot free.
pub open spec fn has_room(ring: RingView) -> bool {
    ring.in_flight < ring.slots
}

impl IOUringServer {
    /// A reactor with a ring of `ring_sz` slots and no connection.
    pub fn new(ring_sz: u32) -> (r: Result<IOUringServer, ServerError>)
        ensures
            match r {
                Ok(server) => ring_sz > 0 && server@ == (ServerView {
                    ring: RingView { slots: ring_sz, in_flight: 0 },
                    conns: Seq::empty(),
                    accepting: false,
                }),
                Err(e) => ring_sz == 0 && e == ServerError::Ring(RingError::NoSlots),
            },
    {
        match IOUring::new(ring_sz) {
            Ok(ring) => {
                let server = IOUringServer { ring, conns: Vec::new(), accepting: false };
                assert(server@.conns =~= Seq::<ConnectionView>::empty());
                Ok(server)
            },
            Err(e) => Err(ServerError::Ring(e)),
        }
    }

    /// Takes in a new connection, and gives the number by which the
    /// reactor knows it.
    pub fn open(&mut self) -> (conn: usize)
        ensures
            conn == old(self)@.conns.len(),
            final(self)@ == (ServerView {
                conns: old(self)@.conns.push(fresh_connection()),
                ..old(self)@
            }),
    {
        let conn = self.conns.len();
        self.conns.push(Connection::new());
        assert(self@.conns =~= old(self)@.conns.push(fresh_connection()));
        conn
    }

    /// How many connections the reactor knows.
    pub fn connections(&self) -> (n: usize)
        ensures
            n == self@.conns.len(),
    {
        self.conns.len()
    }

    /// How many operations are under way on the ring.
    pub fn in_flight(&self) -> (n: u32)
        ensures
            n == self@.ring.in_flight,
    {
        self.ring.in_flight()
    }

    /// Starts an accept, if none is under way and the ring has room, and
    /// says whether it did.
    pub fn begin_accept(&mut self) -> (started: bool)
        ensures
            started == (!old(self)@.accepting && has_room(old(self)@.ring)),
            started ==> final(self)@ == (ServerView {
                ring: one_more(old(self)@.ring),
                accepting: true,
                ..old(self)@
            }),
            !started ==> final(self)@ == old(self)@,
    {
        if self.accepting || self.ring.free_slots() == 0 {
            return false;
        }
        let granted = self.ring.submit(1);
        self.accepting = true;
        assert(self@.conns =~= old(self)@.conns);
        true
    }

    /// Books the completion of the accept: it leaves the ring, and where
    /// it brought a connection (`arrived`), the connection is taken in
    /// and its number given.
    ///
    /// Refused, with nothing changed, when no accept is under way.
    pub fn accepted(&mut self, arrived: bool) -> (r: Result<Option<usize>, ServerError>)
        ensures
            match r {
                Ok(conn) => {
                    &&& old(self)@.accepting
                    &&& old(self)@.ring.in_flight > 0
                    &&& conn == if arrived {
                        Some(old(self)@.conns.len() as usize)
                    } else {
                        None
                    }
                    &&& final(self)@ == (ServerView {
                        ring: one_less(old(self)@.ring),
                        conns: if arrived {
                            old(self)@.conns.push(fresh_connection())
                        } else {
                            old(self)@.conns
                        },
                        accepting: false,
                    })
                },
                Err(e) => final(self)@ == old(self)@ && e == if !old(self)@.accepting {
                    ServerError::NotUnderWay
                } else {
                    ServerError::Ring(RingError::Unsubmitted)
                } && (!old(self)@.accepting || old(self)@.ring.in_flight == 0),
            },
    {
        if !self.accepting {
            return Err(ServerError::NotUnderWay);
        }
        match self.ring.complete(1) {
            Ok(()) => {},
            Err(e) => {
                assert(self@.conns =~= old(self)@.conns);
                return Err(ServerError::Ring(e));
            },
        }
        self.accepting = false;
        if arrived {
            let conn = self.conns.len();
            self.conns.push(Connection::new());
            assert(self@.conns =~= old(self)@.conns.push(fresh_connection()));
            Ok(Some(conn))
        } else {
            assert(self@.conns =~= old(self)@.conns);
            Ok(None)
        }
    }

    /// Starts a read on connection `conn`, if one may be started there
    /// and the ring has room, and says whether it did.
    pub fn begin_read(&mut self, conn: usize) -> (r: Result<bool, ServerError>)
        ensures
            match r {
                Ok(started) => {
                    &&& conn < old(self)@.conns.len()
                    &&& started == (wants_read(old(self)@.conns[conn as int]) && has_room(
                        old(self)@.ring,
                    ))
                    &&& started ==> final(self)@ == (ServerView {
                        ring: one_more(old(self)@.ring),
                        conns: old(self)@.conns.update(
                            conn as int,
                            ConnectionView { reading: true, ..old(self)@.conns[conn as int] },
                        ),
                        ..old(self)@
                    })
                    &&& !started ==> final(self)@ == old(self)@
                },
                Err(e) => conn >= old(self)@.conns.len() && e == ServerError::UnknownConnection
                    && final(self)@ == old(self)@,
            },
    {
        if conn >= self.conns.len() {
            return Err(ServerError::UnknownConnection);
        }
        if self.conns[conn].is_closed() || self.conns[conn].is_reading() || self.ring.free_slots()
            == 0 {
            return Ok(false);
        }
        let granted = self.ring.submit(1);
        let started = self.conns[conn].begin_read();
        assert(self@.conns =~= old(self)@.conns.update(
            conn as int,
            ConnectionView { reading: true, ..old(self)@.conns[conn as int] },
        ));
        Ok(true)
    }

    /// Books a read on connection `conn` that completed with `bytes`: the
    /// operation leaves the ring, the bytes join what was read before.
    ///
    /// Refused, with nothing changed, for a connection that is not known,
    /// or that has no read under way, or when the ring has nothing under
    /// way.
    pub fn recv_msgs_from_ring(&mut self, conn: usize, bytes: &[u8]) -> (r: Result<(), ServerError>)
        ensures
            match r {
                Ok(()) => {
                    &&& conn < old(self)@.conns.len()
                    &&& old(self)@.conns[conn as int].reading
                    &&& old(self)@.ring.in_flight > 0
                    &&& final(self)@ == (ServerView {
                        ring: one_less(old(self)@.ring),
                        conns: old(self)@.conns.update(
                            conn as int,
                            ConnectionView {
                                incoming: old(self)@.conns[conn as int].incoming + bytes@,
                                reading: false,
                                ..old(self)@.conns[conn as int]
                            },
                        ),
                        ..old(self)@
                    })
                },
                Err(e) => final(self)@ == old(self)@ && e == if conn >= old(self)@.conns.len() {
                    ServerError::UnknownConnection
                } else if !old(self)@.conns[conn as int].reading {
                    ServerError::NotUnderWay
                } else {
                    ServerError::Ring(RingError::Unsubmitted)
                } && (conn >= old(self)@.conns.len() || !old(self)@.conns[conn as int].reading
                    || old(self)@.ring.in_flight == 0),
            },
    {
        if conn >= self.conns.len() {
            return Err(ServerError::UnknownConnection);
        }
        if !self.conns[conn].is_reading() {
            return Err(ServerError::NotUnderWay);
        }
        match self.ring.complete(1) {
            Ok(()) => {},
            Err(e) => {
                assert(self@.conns =~= old(self)@.conns);
                return Err(ServerError::Ring(e));
            },
        }
        self.conns[conn].on_read(bytes);
        assert(self@.conns =~= old(self)@.conns.update(
            conn as int,
            ConnectionView {
                incoming: old(self)@.conns[conn as int].incoming + bytes@,
                reading: false,
                ..old(self)@.conns[conn as int]
            },
        ));
        Ok(())
    }

    /// Takes the next request that is complete among what was read on
    /// connection `conn`: see [`Connection::next_request`]. The ring is not
    /// involved.
    pub fn handle_recv_msgs(&mut self, conn: usize) -> (r: Result<
        Option<ClientWorkPacket>,
        ServerError,
    >)
        ensures
            conn >= old(self)@.conns.len() ==> final(self)@ == old(self)@ && r == Err::<
                Option<ClientWorkPacket>,
                ServerError,
            >(ServerError::UnknownConnection),
            conn < old(self)@.conns.len() ==> {
                let before = old(self)@.conns[conn as int];
                &&& final(self)@ == (ServerView {
                    conns: old(self)@.conns.update(
                        conn as int,
                        ConnectionView { incoming: after_front(before.incoming), ..before },
                    ),
                    ..old(self)@
                })
                &&& match r {
                    Ok(Some(packet)) => front_request(before.incoming) == Ok::<
                        Option<RequestView>,
                        ProtocolError,
                    >(Some(packet@)),
                    Ok(None) => front_request(before.incoming) == Ok::<
                        Option<RequestView>,
                        ProtocolError,
                    >(None),
                    Err(ServerError::Protocol(cause)) => front_request(before.incoming) == Err::<
                        Option<RequestView>,
                        ProtocolError,
                    >(cause),
                    Err(_) => false,
                }
            },
    {
        if conn >= self.conns.len() {
            return Err(ServerError::UnknownConnection);
        }
        let found = self.conns[conn].next_request();
        assert(self@.conns =~= old(self)@.conns.update(
            conn as int,
            ConnectionView {
                incoming: after_front(old(self)@.conns[conn as int].incoming),
                ..old(self)@.conns[conn as int]
            },
        ));
        match found {
            Ok(request) => Ok(request),
            Err(e) => Err(ServerError::Protocol(e)),
        }
    }

    /// Queues the response to `request` on connection `conn`, behind the
    /// responses that wait there: see [`Connection::respond`].
    pub fn do_work_request(
        &mut self,
        conn: usize,
        request: &ClientWorkPacket,
        processing_time: u64,
        payload: Option<Vec<u8>>,
    ) -> (r: Result<(), ServerError>)
        ensures
            ({
                let data = encode_response_spec(
                    response_to(
                        request@,
                        processing_time,
                        match payload {
                            Some(p) => Some(p@),
                            None => None,
                        },
                    ),
                );
                match r {
                    Ok(()) => {
                        &&& conn < old(self)@.conns.len()
                        &&& data.len() <= MAX_PAYLOAD
                        &&& final(self)@ == (ServerView {
                            conns: old(self)@.conns.update(
                                conn as int,
                                ConnectionView {
                                    outgoing: old(self)@.conns[conn as int].outgoing + frame_spec(
                                        data,
                                    ),
                                    ..old(self)@.conns[conn as int]
                                },
                            ),
                            ..old(self)@
                        })
                    },
                    Err(e) => final(self)@ == old(self)@ && e == if conn >= old(self)@.conns.len() {
                        ServerError::UnknownConnection
                    } else {
                        ServerError::Protocol(ProtocolError::Frame(FrameError::PayloadTooLarge))
                    } && (conn >= old(self)@.conns.len() || data.len() > MAX_PAYLOAD),
                }
            }),
    {
        if conn >= self.conns.len() {
            return Err(ServerError::UnknownConnection);
        }
        let queued = self.conns[conn].respond(request, processing_time, payload);
        match queued {
            Ok(()) => {
                assert(self@.conns =~= old(self)@.conns.update(
                    conn as int,
                    ConnectionView {
                        outgoing: self@.conns[conn as int].outgoing,
                        ..old(self)@.conns[conn as int]
                    },
                ));
                Ok(())
            },
            Err(e) => {
                assert(self@.conns =~= old(self)@.conns);
                Err(ServerError::Protocol(e))
            },
        }
    }

    /// Starts a write on connection `conn`, if one may be started there
    /// and the ring has room, and gives the bytes to write.
    ///
    /// `None`, with nothing changed, when no write may be started or the
    /// ring is full: what waits then stays queued until a completion has
    /// made room. The queue itself changes only when a write completes.
    pub fn send_messages_to_ring(&mut self, conn: usize) -> (r: Result<Option<Vec<u8>>, ServerError>)
        ensures
            match r {
                Ok(None) => {
                    &&& conn < old(self)@.conns.len()
                    &&& !(wants_write(old(self)@.conns[conn as int]) && has_room(old(self)@.ring))
                    &&& final(self)@ == old(self)@
                },
                Ok(Some(bytes)) => {
                    let before = old(self)@.conns[conn as int];
                    &&& conn < old(self)@.conns.len()
                    &&& wants_write(before)
                    &&& has_room(old(self)@.ring)
                    &&& bytes@ == before.outgoing.take(next_write_len(before.outgoing.len()) as int)
                    &&& final(self)@ == (ServerView {
                        ring: one_more(old(self)@.ring),
                        conns: old(self)@.conns.update(
                            conn as int,
                            ConnectionView { writing: true, ..before },
                        ),
                        ..old(self)@
                    })
                },
                Err(e) => conn >= old(self)@.conns.len() && e == ServerError::UnknownConnection
                    && final(self)@ == old(self)@,
            },
    {
        if conn >= self.conns.len() {
            return Err(ServerError::UnknownConnection);
        }
        if self.conns[conn].is_closed() || self.conns[conn].is_writing() || self.conns[conn].waiting()
            == 0 || self.ring.free_slots() == 0 {
            return Ok(None);
        }
        let granted = self.ring.submit(1);
        let bytes = self.conns[conn].begin_write();
        assert(self@.conns =~= old(self)@.conns.update(
            conn as int,
            ConnectionView { writing: true, ..old(self)@.conns[conn as int] },
        ));
        Ok(bytes)
    }

    /// Books a write on connection `conn` that completed with `written`
    /// bytes: the operation leaves the ring, and the bytes leave the
    /// connection's queue. Refused, with nothing changed, for a connection
    /// that is not known, or that has no write under way, when the ring
    /// has nothing under way, or for more bytes than the write carried.
    pub fn write_completed(&mut self, conn: usize, written: usize) -> (r: Result<(), ServerError>)
        ensures
            match r {
                Ok(()) => {
                    let before = old(self)@.conns[conn as int];
                    &&& conn < old(self)@.conns.len()
                    &&& before.writing
                    &&& old(self)@.ring.in_flight > 0
                    &&& written <= next_write_len(before.outgoing.len())
                    &&& final(self)@ == (ServerView {
                        ring: one_less(old(self)@.ring),
                        conns: old(self)@.conns.update(
                            conn as int,
                            ConnectionView {
                                outgoing: before.outgoing.skip(written as int),
                                writing: false,
                                ..before
                            },
                        ),
                        ..old(self)@
                    })
                },
                Err(e) => final(self)@ == old(self)@ && e == if conn >= old(self)@.conns.len() {
                    ServerError::UnknownConnection
                } else if !old(self)@.conns[conn as int].writing {
                    ServerError::NotUnderWay
                } else if old(self)@.ring.in_flight == 0 {
                    ServerError::Ring(RingError::Unsubmitted)
                } else {
                    ServerError::Protocol(ProtocolError::Frame(FrameError::ChunkSize))
                } && (conn >= old(self)@.conns.len() || !old(self)@.conns[conn as int].writing
                    || old(self)@.ring.in_flight == 0 || written > next_write_len(
                    old(self)@.conns[conn as int].outgoing.len(),
                )),
            },
    {
        if conn >= self.conns.len() {
            return Err(ServerError::UnknownConnection);
        }
        if !self.conns[conn].is_writing() {
            return Err(ServerError::NotUnderWay);
        }
        if self.ring.in_flight() == 0 {
            return Err(ServerError::Ring(RingError::Unsubmitted));
        }
        if written > self.conns[conn].next_write().len() {
            return Err(ServerError::Protocol(ProtocolError::Frame(FrameError::ChunkSize)));
        }
        let _ = self.ring.complete(1);
        let _ = self.conns[conn].on_written(written);
        assert(self@.conns =~= old(self)@.conns.update(
            conn as int,
            ConnectionView {
                outgoing: old(self)@.conns[conn as int].outgoing.skip(written as int),
                writing: false,
                ..old(self)@.conns[conn as int]
            },
        ));
        Ok(())
    }

    /// Hangs connection `conn` up: no read and no write is started on it
    /// any more. What is under way may still complete.
    pub fn hang_up(&mut self, conn: usize) -> (r: Result<(), ServerError>)
        ensures
            match r {
                Ok(()) => conn < old(self)@.conns.len() && final(self)@ == (ServerView {
                    conns: old(self)@.conns.update(
                        conn as int,
                        ConnectionView { closed: true, ..old(self)@.conns[conn as int] },
                    ),
                    ..old(self)@
                }),
                Err(e) => conn >= old(self)@.conns.len() && e == ServerError::UnknownConnection
                    && final(self)@ == old(self)@,
            },
    {
        if conn >= self.conns.len() {
            return Err(ServerError::UnknownConnection);
        }
        self.conns[conn].close();
        assert(self@.conns =~= old(self)@.conns.update(
            conn as int,
            ConnectionView { closed: true, ..old(self)@.conns[conn as int] },
        ));
        Ok(())
    }

    /// Whether connection `conn` was hung up. `false` for a connection
    /// that is not known.
    pub fn is_closed(&self, conn: usize) -> (closed: bool)
        ensures
            closed == (conn < self@.conns.len() && self@.conns[conn as int].closed),
    {
        if conn >= self.conns.len() {
            return false;
        }
        self.conns[conn].is_closed()
    }

    /// Whether connection `conn` is hung up and has nothing under way, so
    /// that its socket can be given back. `false` for a connection that is
    /// not known.
    pub fn is_finished(&self, conn: usize) -> (done: bool)
        ensures
            done == (conn < self@.conns.len() && {
                let c = self@.conns[conn as int];
                c.closed && !c.reading && !c.writing
            }),
    {
        if conn >= self.conns.len() {
            return false;
        }
        self.conns[conn].is_closed() && !self.conns[conn].is_reading()
            && !self.conns[conn].is_writing()
    }
}

/// Once a connection is hung up, no read and no write is started on it.
pub proof fn lemma_closed_starts_nothing(c: ConnectionView)
    requires
        c.closed,
    ensures
        !wants_read(c),
        !wants_write(c),
{
}

/// A connection never has two reads or two writes under way: while one
/// is, no other is started.
pub proof fn lemma_one_at_a_time(c: ConnectionView)
    ensures
        c.reading ==> !wants_read(c),
        c.writing ==> !wants_write(c),
{
}

} // verus!
