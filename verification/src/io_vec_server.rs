//! The vectored server: requests are read as the blocking server reads
//! them, and a response leaves in one gathered write of all its chunks.

use crate::chunked_tcp_stream::{FrameError, MSG_SIZE_BYTES};
use vstd::prelude::*;

verus! {

/// One buffer of a gathered write: where it starts in the framed response,
/// and how long it is.
#[derive(Debug, Clone, Copy, PartialEq, Eq, Structural)]
pub struct Span {
    pub start: usize,
    pub len: usize,
}

/// The buffers of the gathered write of a response of `wire_len` bytes:
/// its chunks, one after the other.
pub open spec fn gather_spec(wire_len: nat) -> Seq<Span> {
    Seq::new(
        wire_len / (MSG_SIZE_BYTES as nat),
        |i: int| Span { start: (i * MSG_SIZE_BYTES) as usize, len: MSG_SIZE_BYTES },
    )
}

/// Splits a framed response of `wire_len` bytes into the buffers of one
/// gathered write. Refuses a length that is no whole number of chunks.
pub fn gather(wire_len: usize) -> (r: Result<Vec<Span>, FrameError>)
    ensures
        match r {
            Ok(spans) => wire_len % MSG_SIZE_BYTES == 0 && spans@ == gather_spec(wire_len as nat),
            Err(e) => wire_len % MSG_SIZE_BYTES != 0 && e == FrameError::ChunkSize,
        },
{
    if wire_len % MSG_SIZE_BYTES != 0 {
        return Err(FrameError::ChunkSize);
    }
    let count = wire_len / MSG_SIZE_BYTES;
    let mut spans: Vec<Span> = Vec::new();
    let mut i: usize = 0;
    while i < count
        invariant
            i <= count,
            count == wire_len / MSG_SIZE_BYTES,
            spans@.len() == i,
            forall|j: int|
                0 <= j < i ==> spans@[j] == (Span {
                    start: (j * MSG_SIZE_BYTES) as usize,
                    len: MSG_SIZE_BYTES,
                }),
        decreases count - i,
    {
        spans.push(Span { start: i * MSG_SIZE_BYTES, len: MSG_SIZE_BYTES });
        i += 1;
    }
    assert(spans@ =~= gather_spec(wire_len as nat));
    Ok(spans)
}

/// The buffers of a gathered write lie end to end from the start of the
/// response to its end, and each is one chunk: together they carry every
/// byte of it once, in order.
pub proof fn lemma_gather_covers(wire_len: nat)
    requires
        wire_len % (MSG_SIZE_BYTES as nat) == 0,
        wire_len <= usize::MAX,
    ensures
        gather_spec(wire_len).len() * MSG_SIZE_BYTES == wire_len,
        forall|j: int|
            0 <= j < gather_spec(wire_len).len() ==> (#[trigger] gather_spec(wire_len)[j]).start
                == j * MSG_SIZE_BYTES && gather_spec(wire_len)[j].len == MSG_SIZE_BYTES,
{
}

/// How many bytes of a response of `wire_len` bytes are still to be
/// written after a gathered write has reported `written`. `None` when
/// more was reported than there was to write.
pub fn left_to_write(wire_len: usize, written: usize) -> (left: Option<usize>)
    ensures
        left == if written <= wire_len {
            Some((wire_len - written) as usize)
        } else {
            None
        },
{
    if written <= wire_len {
        Some(wire_len - written)
    } else {
        None
    }
}

} // verus!
