//! Pull-based planning of fixed-size chunks over a byte range: the
//! consumer asks for the next chunk descriptor, so no byte is read from
//! disk until it does, and a slow consumer throttles reads naturally.

use vstd::prelude::*;

verus! {

/// Default size of one streamed chunk: 64 KiB.
pub const CHUNK_SIZE: u64 = 65536;

/// A finite, non-restartable plan of chunk reads over the half-open byte
/// range `[pos, end)`, in steps of `chunk_size` (the last step may be
/// shorter).
pub struct ChunkPlan {
    pub pos: u64,
    pub end: u64,
    pub chunk_size: u64,
}

impl ChunkPlan {
    /// A usable plan: a non-empty step size and a position inside the
    /// range.
    pub open spec fn wf(&self) -> bool {
        self.pos <= self.end && self.chunk_size >= 1
    }

    /// Plan chunks over `[start, end)`. The range must already be
    /// validated against the resource length.
    pub fn new(start: u64, end: u64, chunk_size: u64) -> (r: ChunkPlan)
        requires
            start <= end,
            chunk_size >= 1,
        ensures
            r.wf(),
            r.pos == start,
            r.end == end,
            r.chunk_size == chunk_size,
    {
        ChunkPlan { pos: start, end, chunk_size }
    }

    /// How many bytes are still to be delivered.
    pub fn remaining(&self) -> (r: u64)
        requires
            self.wf(),
        ensures
            r == self.end - self.pos,
    {
        self.end - self.pos
    }

    /// The next chunk to read, as `(offset, length)`: a full
    /// `chunk_size` step, or the shorter final step, or `None` once the
    /// range is exhausted. The position advances by exactly the returned
    /// length.
    pub fn next(&mut self) -> (r: Option<(u64, u64)>)
        requires
            old(self).wf(),
        ensures
            final(self).wf(),
            final(self).end == old(self).end,
            final(self).chunk_size == old(self).chunk_size,
            old(self).pos == old(self).end ==> r is None && final(self).pos == old(self).pos,
            old(self).pos < old(self).end ==> {
                let len = if old(self).end - old(self).pos < old(self).chunk_size {
                    (old(self).end - old(self).pos) as u64
                } else {
                    old(self).chunk_size
                };
                &&& r == Some((old(self).pos, len))
                &&& final(self).pos == old(self).pos + len
            },
    {
        if self.pos == self.end {
            return None;
        }
        let avail = self.end - self.pos;
        let len = if avail < self.chunk_size {
            avail
        } else {
            self.chunk_size
        };
        let offset = self.pos;
        self.pos = self.pos + len;
        Some((offset, len))
    }
}

} // verus!
