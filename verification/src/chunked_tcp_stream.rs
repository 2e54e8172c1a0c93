//! The chunk: the fixed-size unit in which a stream carries everything.

use vstd::prelude::*;

verus! {

/// Every transfer on the stream is exactly this many bytes.
pub const MSG_SIZE_BYTES: usize = 128;

/// What is wrong with a frame or with the way it arrived.
#[derive(Debug, Clone, Copy, PartialEq, Eq, Structural)]
pub enum FrameError {
    /// A transfer of some other size than one chunk was attempted.
    ChunkSize,
    /// The header declares a length that a frame of its form never carries.
    DeclaredLength,
    /// The payload is too long to be framed.
    PayloadTooLarge,
    /// The stream ended in the middle of a message.
    Truncated,
}

/// Checks that a transfer of `len` bytes is one whole chunk.
pub fn check_chunk(len: usize) -> (r: Result<(), FrameError>)
    ensures
        r == if len == MSG_SIZE_BYTES {
            Ok::<(), FrameError>(())
        } else {
            Err::<(), FrameError>(FrameError::ChunkSize)
        },
{
    if len == MSG_SIZE_BYTES {
        Ok(())
    } else {
        Err(FrameError::ChunkSize)
    }
}

/// Whether every buffer of a gathered transfer is one whole chunk.
pub open spec fn all_whole_chunks(lens: Seq<usize>) -> bool {
    forall|j: int| 0 <= j < lens.len() ==> lens[j] == MSG_SIZE_BYTES
}

/// Checks the buffers of a scatter/gather transfer: each must be one whole
/// chunk.
pub fn check_chunks(lens: &[usize]) -> (r: Result<(), FrameError>)
    ensures
        r == if all_whole_chunks(lens@) {
            Ok::<(), FrameError>(())
        } else {
            Err::<(), FrameError>(FrameError::ChunkSize)
        },
{
    let n = lens.len();
    let mut i: usize = 0;
    while i < n
        invariant
            i <= n,
            n == lens@.len(),
            forall|j: int| 0 <= j < i ==> lens@[j] == MSG_SIZE_BYTES,
        decreases n - i,
    {
        if lens[i] != MSG_SIZE_BYTES {
            return Err(FrameError::ChunkSize);
        }
        i += 1;
    }
    Ok(())
}

} // verus!
