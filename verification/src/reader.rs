//! The blocking byte-reader: the one-byte-at-a-time monitor that drains a
//! pipe on a thread of its own.
//!
//! Where the readiness loop is not used, a stream can be drained by
//! blocking single-byte reads. The decision is the same for every read:
//! keep each byte that arrives, and stop for good at the first outcome
//! that is not a byte — a zero-byte read (closure), a read of an
//! unexpected length, or an error.

use vstd::prelude::*;

verus! {

/// What one blocking single-byte read produced.
#[derive(Clone, Copy, PartialEq, Eq, Structural, Debug)]
pub enum BlockingRead {
    /// One byte arrived.
    Byte(u8),
    /// A zero-byte read: the peer closed the stream.
    Closed,
    /// An unexpected length or a read error: stop monitoring.
    Failed,
}

/// Whether `r` delivered exactly the byte `b`.
pub open spec fn delivers_byte(r: BlockingRead, b: u8) -> bool {
    r matches BlockingRead::Byte(x) && x == b
}

/// Collects a stream drained by blocking single-byte reads whose outcomes
/// are `reads`: every byte up to the first non-byte outcome is kept, in
/// order, and nothing after it.
pub fn collect_stream(reads: &Vec<BlockingRead>) -> (out: Vec<u8>)
    ensures
        out@.len() <= reads@.len(),
        forall|j: int| 0 <= j < out@.len() ==> delivers_byte(#[trigger] reads@[j], out@[j]),
        out@.len() < reads@.len() ==> !(reads@[out@.len() as int] is Byte),
{
    let mut out: Vec<u8> = Vec::new();
    let mut i: usize = 0;
    while i < reads.len()
        invariant
            i <= reads@.len(),
            out@.len() == i,
            forall|j: int| 0 <= j < i ==> delivers_byte(#[trigger] reads@[j], out@[j]),
        decreases reads@.len() - i,
    {
        match reads[i] {
            BlockingRead::Byte(b) => {
                out.push(b);
                i += 1;
            },
            _ => {
                return out;
            },
        }
    }
    out
}

} // verus!
