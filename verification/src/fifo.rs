//! A bounded queue of encoded audio chunks.
//!
//! The fallback transport hands encoded chunks in and out through the
//! shell. The queue keeps arrival order and a hard cap: when a push would
//! grow it past the cap, the oldest chunks are dropped first.

use vstd::prelude::*;

verus! {

/// Most chunks the queue holds.
pub const CHUNK_QUEUE_CAP: usize = 100;

/// A first-in-first-out queue of byte chunks, capped in length.
pub struct ChunkQueue {
    /// Queued chunks, oldest first.
    chunks: Vec<Vec<u8>>,
}

impl View for ChunkQueue {
    type V = Seq<Vec<u8>>;

    closed spec fn view(&self) -> Seq<Vec<u8>> {
        self.chunks@
    }
}

impl ChunkQueue {
    /// A fresh, empty queue.
    pub fn new() -> (r: ChunkQueue)
        ensures
            r@ == Seq::<Vec<u8>>::empty(),
    {
        ChunkQueue { chunks: Vec::new() }
    }

    /// Number of queued chunks.
    pub fn len(&self) -> (r: usize)
        ensures
            r == self@.len(),
    {
        self.chunks.len()
    }

    /// Queue one chunk at the back; if the queue is full, the oldest chunk
    /// leaves first. The queue never exceeds its cap.
    pub fn push_chunk(&mut self, data: Vec<u8>)
        requires
            old(self)@.len() <= CHUNK_QUEUE_CAP,
        ensures
            old(self)@.len() < CHUNK_QUEUE_CAP ==> final(self)@ == old(self)@.push(data),
            old(self)@.len() == CHUNK_QUEUE_CAP ==> final(self)@ == old(self)@.subrange(
                1,
                old(self)@.len() as int,
            ).push(data),
            final(self)@.len() <= CHUNK_QUEUE_CAP,
    {
        if self.chunks.len() == CHUNK_QUEUE_CAP {
            self.chunks.remove(0);
            proof {
                assert(self@ == old(self)@.subrange(1, old(self)@.len() as int));
            }
        }
        self.chunks.push(data);
    }

    /// Take the oldest chunk, if any.
    pub fn pop_chunk(&mut self) -> (r: Option<Vec<u8>>)
        ensures
            old(self)@.len() == 0 ==> r is None && *final(self) == *old(self),
            old(self)@.len() > 0 ==> r == Some(old(self)@[0]) && final(self)@ == old(
                self,
            )@.subrange(1, old(self)@.len() as int),
    {
        if self.chunks.len() == 0 {
            return None;
        }
        let chunk = self.chunks.remove(0);
        proof {
            assert(self@ == old(self)@.subrange(1, old(self)@.len() as int));
        }
        Some(chunk)
    }
}

} // verus!
