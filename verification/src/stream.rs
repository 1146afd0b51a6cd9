//! Frames from a stream that arrives in pieces.
//!
//! Notifications deliver the byte stream in chunks that know nothing of
//! frame boundaries. A [`FrameStream`] keeps the bytes of a frame that has
//! begun but not yet ended, and hands out each frame once it is whole.

use crate::frame::{frame_complete, frame_views, frames_from, pending_after};
use crate::frame::{lemma_rest_bounds, split_frames, RawFrame};
use vstd::prelude::*;

verus! {

/// The bytes received so far that belong to no whole frame yet.
pub struct FrameStream {
    pending: Vec<u8>,
}

impl FrameStream {
    /// The bytes that wait for the rest of their frame.
    pub closed spec fn pending(&self) -> Seq<u8> {
        self.pending@
    }

    /// Nothing whole is ever kept back.
    pub open spec fn wf(&self) -> bool {
        !frame_complete(self.pending(), 0)
    }

    /// A stream on which nothing has arrived.
    pub fn new() -> (stream: FrameStream)
        ensures
            stream.pending() == Seq::<u8>::empty(),
            stream.wf(),
    {
        FrameStream { pending: Vec::new() }
    }

    /// Number of bytes that wait for the rest of their frame.
    pub fn pending_len(&self) -> (n: usize)
        ensures
            n == self.pending().len(),
    {
        self.pending.len()
    }

    /// Takes in the next chunk and returns every frame that is whole now.
    ///
    /// The frames are those of the pending bytes followed by `chunk`, in
    /// stream order; what is left of a frame that has only begun stays
    /// pending for the next call.
    pub fn feed(&mut self, chunk: &[u8]) -> (frames: Vec<RawFrame>)
        ensures
            frame_views(frames@) == frames_from(old(self).pending() + chunk@, 0),
            final(self).pending() == pending_after(old(self).pending() + chunk@),
            final(self).wf(),
            forall|i: int| 0 <= i < frames@.len() ==> (#[trigger] frames@[i]).wf(),
    {
        self.pending.extend_from_slice(chunk);
        assert(self.pending@ =~= old(self).pending@ + chunk@);
        let (frames, rest) = split_frames(self.pending.as_slice(), 0);
        proof {
            lemma_rest_bounds(self.pending@, 0);
        }
        let tail = self.pending.split_off(rest);
        self.pending = tail;
        frames
    }

    /// Ends the stream and returns the bytes that never became a frame.
    pub fn finish(self) -> (dropped: Vec<u8>)
        ensures
            dropped@ == self.pending(),
    {
        self.pending
    }
}

/// What stays pending holds no whole frame.
pub proof fn lemma_pending_holds_no_frame(buf: Seq<u8>)
    ensures
        !frame_complete(pending_after(buf), 0),
        frames_from(pending_after(buf), 0).len() == 0,
{
    lemma_rest_bounds(buf, 0);
}

} // verus!
