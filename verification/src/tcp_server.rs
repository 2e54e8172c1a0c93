//! The blocking server: one thread per connection, one request at a time.
//!
//! The thread reads a chunk, hands it to [`ConnHandler::on_chunk`] and does
//! what the answer says: read on, perform a request and write the bytes
//! that [`ConnHandler::reply`] gives, or hang up. Whatever goes wrong ends
//! this connection and no other.

use crate::protocol::{
    frame_spec, pending_after, request_from, ClientWorkPacketConn, ProtocolError,
    ServerWorkPacketConn, MAX_PAYLOAD,
};
use crate::chunked_tcp_stream::FrameError;
use crate::serialize::{encode_response_spec, response_to, ClientWorkPacket, RequestView};
use vstd::prelude::*;

verus! {

/// What the connection's thread does next.
pub enum Step {
    /// Read the next chunk.
    Read,
    /// Perform this request, then write the reply.
    Work(ClientWorkPacket),
    /// Hang up, for this reason.
    Close(ProtocolError),
}

/// The server's end of one connection.
pub struct ConnHandler {
    requests: ClientWorkPacketConn,
    responses: ServerWorkPacketConn,
}

impl View for ConnHandler {
    type V = Seq<u8>;

    /// The bytes read that belong to a request not yet complete.
    closed spec fn view(&self) -> Seq<u8> {
        self.requests@
    }
}

impl ConnHandler {
    /// The handler of a connection on which nothing has arrived.
    pub fn new() -> (handler: ConnHandler)
        ensures
            handler@ == Seq::<u8>::empty(),
    {
        ConnHandler { requests: ClientWorkPacketConn::new(), responses: ServerWorkPacketConn::new() }
    }

    /// Takes in one chunk read from the connection.
    ///
    /// A chunk that completes a request asks for its work; one that does
    /// not asks for the next chunk; a transfer that is no chunk, or bytes
    /// that are no request, end the connection.
    pub fn on_chunk(&mut self, chunk: &[u8]) -> (step: Step)
        ensures
            final(self)@ == pending_after(old(self)@, chunk@),
            match step {
                Step::Read => request_from(old(self)@, chunk@) == Ok::<
                    Option<RequestView>,
                    ProtocolError,
                >(None),
                Step::Work(request) => request_from(old(self)@, chunk@) == Ok::<
                    Option<RequestView>,
                    ProtocolError,
                >(Some(request@)),
                Step::Close(e) => request_from(old(self)@, chunk@) == Err::<
                    Option<RequestView>,
                    ProtocolError,
                >(e),
            },
    {
        match self.requests.recv_work_msg(chunk) {
            Ok(None) => Step::Read,
            Ok(Some(request)) => Step::Work(request),
            Err(e) => Step::Close(e),
        }
    }

    /// What the peer's hanging up means: `Ok` between two requests, an
    /// error in the middle of one.
    pub fn on_eof(&self) -> (r: Result<(), ProtocolError>)
        ensures
            r == if self@.len() == 0 {
                Ok::<(), ProtocolError>(())
            } else {
                Err::<(), ProtocolError>(ProtocolError::Frame(FrameError::Truncated))
            },
    {
        self.requests.finish()
    }

    /// The bytes to write in answer to `request`, once its work took
    /// `processing_time` and made `payload`: the frame of the response.
    ///
    /// Fails only when the payload makes the response too large to frame.
    pub fn reply(
        &self,
        request: &ClientWorkPacket,
        processing_time: u64,
        payload: Option<Vec<u8>>,
    ) -> (r: Result<Vec<u8>, ProtocolError>)
        ensures
            ({
                let data = encode_response_spec(
                    response_to(
                        request@,
                        processing_time,
                        match payload {
                            Some(p) => Some(p@),
                            None => None,
                        },
                    ),
                );
                match r {
                    Ok(wire) => data.len() <= MAX_PAYLOAD && wire@ == frame_spec(data),
                    Err(e) => data.len() > MAX_PAYLOAD && e == ProtocolError::Frame(
                        FrameError::PayloadTooLarge,
                    ),
                }
            }),
    {
        let response = request.do_work(processing_time, payload);
        self.responses.send_work_msg(&response)
    }
}

} // verus!
