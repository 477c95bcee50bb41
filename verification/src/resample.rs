//! Feeding a chunked sample-rate converter.
//!
//! A fixed-ratio converter takes its input in chunks of a size it names.
//! The accumulator queues the routed stereo stream per channel and releases
//! it chunk by chunk: never a partial chunk, and what does not fill one
//! waits for the next buffer.

use vstd::prelude::*;

verus! {

/// What the accumulator holds: the samples waiting on each channel.
pub struct PendingState {
    pub left: Seq<u32>,
    pub right: Seq<u32>,
}

impl PendingState {
    /// Both channels hold the same number of samples.
    pub open spec fn wf(self) -> bool {
        self.left.len() == self.right.len()
    }

    /// The number of frames waiting.
    pub open spec fn frames(self) -> nat {
        self.left.len()
    }

    /// Whether a chunk of `size` frames can be released: a chunk is never
    /// empty and never partial.
    pub open spec fn has_chunk(self, size: int) -> bool {
        0 < size <= self.frames()
    }

    /// The state with one more frame queued.
    pub open spec fn with_frame(self, left: u32, right: u32) -> PendingState {
        PendingState { left: self.left.push(left), right: self.right.push(right) }
    }

    /// The state with the whole frames of an interleaved stereo buffer
    /// queued; a trailing sample without its partner is left out.
    pub open spec fn with_interleaved(self, stereo: Seq<u32>) -> PendingState {
        PendingState {
            left: self.left + Seq::new(stereo.len() / 2, |i: int| stereo[2 * i]),
            right: self.right + Seq::new(stereo.len() / 2, |i: int| stereo[2 * i + 1]),
        }
    }

    /// The state after the oldest `size` frames left.
    pub open spec fn without_chunk(self, size: int) -> PendingState {
        PendingState { left: self.left.skip(size), right: self.right.skip(size) }
    }
}

/// One chunk of converter input: the same number of samples per channel.
pub struct Chunk {
    pub left: Vec<u32>,
    pub right: Vec<u32>,
}

/// Per-channel queues in front of a chunked converter.
pub struct ChunkAccumulator {
    left: Vec<u32>,
    right: Vec<u32>,
}

impl View for ChunkAccumulator {
    type V = PendingState;

    closed spec fn view(&self) -> PendingState {
        PendingState { left: self.left@, right: self.right@ }
    }
}

impl ChunkAccumulator {
    /// An accumulator with nothing waiting.
    pub fn new() -> (r: Self)
        ensures
            r@.left == Seq::<u32>::empty(),
            r@.right == Seq::<u32>::empty(),
            r@.wf(),
    {
        ChunkAccumulator { left: Vec::new(), right: Vec::new() }
    }

    /// Checks the invariant that every accumulator made by `new` has and
    /// that every method keeps.
    pub fn is_well_formed(&self) -> (ok: bool)
        ensures
            ok == self@.wf(),
    {
        self.left.len() == self.right.len()
    }

    /// The number of frames waiting.
    pub fn pending(&self) -> (r: usize)
        ensures
            r == self@.frames(),
    {
        self.left.len()
    }

    /// Queues one stereo frame.
    pub fn push_frame(&mut self, left: u32, right: u32)
        requires
            old(self)@.wf(),
        ensures
            final(self)@ == old(self)@.with_frame(left, right),
            final(self)@.wf(),
    {
        self.left.push(left);
        self.right.push(right);
    }

    /// Queues the whole frames of an interleaved stereo buffer.
    pub fn extend_interleaved(&mut self, stereo: &[u32])
        requires
            old(self)@.wf(),
        ensures
            final(self)@ == old(self)@.with_interleaved(stereo@),
            final(self)@.wf(),
    {
        let frames: usize = stereo.len() / 2;
        let mut i: usize = 0;
        while i < frames
            invariant
                i <= frames,
                frames == stereo@.len() / 2,
                2 * frames <= stereo@.len() <= usize::MAX,
                self@.left == old(self)@.left + Seq::new(i as nat, |k: int| stereo@[2 * k]),
                self@.right == old(self)@.right + Seq::new(i as nat, |k: int| stereo@[2 * k + 1]),
            decreases frames - i,
        {
            self.left.push(stereo[2 * i]);
            self.right.push(stereo[2 * i + 1]);
            i = i + 1;
            assert(self@.left =~= old(self)@.left + Seq::new(i as nat, |k: int| stereo@[2 * k]));
            assert(self@.right =~= old(self)@.right + Seq::new(
                i as nat,
                |k: int| stereo@[2 * k + 1],
            ));
        }
    }

    /// Releases the oldest `chunk_size` frames if that many are waiting,
    /// and nothing otherwise.  What stays keeps its order and waits for
    /// the next call.
    pub fn take_chunk(&mut self, chunk_size: usize) -> (r: Option<Chunk>)
        requires
            old(self)@.wf(),
        ensures
            final(self)@.wf(),
            r is Some <==> old(self)@.has_chunk(chunk_size as int),
            r is None ==> final(self)@ == old(self)@,
            r matches Some(chunk) ==> {
                &&& chunk.left@ == old(self)@.left.take(chunk_size as int)
                &&& chunk.right@ == old(self)@.right.take(chunk_size as int)
                &&& final(self)@ == old(self)@.without_chunk(chunk_size as int)
            },
    {
        if chunk_size == 0 || self.left.len() < chunk_size {
            return None;
        }
        let mut left = self.left.split_off(chunk_size);
        let mut right = self.right.split_off(chunk_size);
        std::mem::swap(&mut self.left, &mut left);
        std::mem::swap(&mut self.right, &mut right);
        Some(Chunk { left, right })
    }
}

/// Taking a chunk loses and reorders nothing: the chunk followed by what
/// stays is what was waiting.
pub proof fn chunk_and_rest_make_the_whole(s: PendingState, size: int)
    requires
        s.wf(),
        s.has_chunk(size),
    ensures
        s.left.take(size) + s.without_chunk(size).left == s.left,
        s.right.take(size) + s.without_chunk(size).right == s.right,
        s.without_chunk(size).wf(),
        s.without_chunk(size).frames() == s.frames() - size,
{
    assert(s.left.take(size) + s.left.skip(size) =~= s.left);
    assert(s.right.take(size) + s.right.skip(size) =~= s.right);
}

} // verus!
