//! The frame codec: cutting a byte stream into protocol frames.
//!
//! A frame starts with a marker byte and a little-endian 16-bit length. The
//! length counts every byte from the marker up to the trailer; the trailer
//! is four more bytes. The codec only finds the boundaries: whether the
//! checksums inside a frame hold is decided when the frame is opened.

use vstd::prelude::*;
use vstd::slice::{slice_subrange, slice_to_vec};

verus! {

/// Bytes that must be present before the length of a frame can be read.
pub const PREFIX_LEN: usize = 3;

/// Bytes of the trailer, which the declared length does not count.
pub const TRAILER_LEN: usize = 4;

/// One frame exactly as it stood in the stream, header and trailer included.
#[derive(Debug)]
pub struct RawFrame {
    pub bytes: Vec<u8>,
}

impl View for RawFrame {
    type V = Seq<u8>;

    open spec fn view(&self) -> Seq<u8> {
        self.bytes@
    }
}

impl RawFrame {
    /// A frame is as long as its own header says, trailer added.
    pub open spec fn wf(&self) -> bool {
        is_whole_frame(self@)
    }
}

/// The unsigned 16-bit number stored at `at`, low byte first.
pub open spec fn le_u16_at(buf: Seq<u8>, at: int) -> int
    recommends
        0 <= at,
        at + 2 <= buf.len(),
{
    buf[at] as int + 256 * (buf[at + 1] as int)
}

/// The length that the header at `cursor` declares.
pub open spec fn declared_len(buf: Seq<u8>, cursor: int) -> int
    recommends
        0 <= cursor,
        cursor + PREFIX_LEN <= buf.len(),
{
    le_u16_at(buf, cursor + 1)
}

/// Position just behind the frame that starts at `cursor`.
pub open spec fn frame_end(buf: Seq<u8>, cursor: int) -> int
    recommends
        0 <= cursor,
        cursor + PREFIX_LEN <= buf.len(),
{
    cursor + declared_len(buf, cursor) + TRAILER_LEN as int
}

/// Whether a whole frame lies in `buf` at `cursor`: the three header bytes
/// are there, and so is every byte up to the end of the trailer.
pub open spec fn frame_complete(buf: Seq<u8>, cursor: int) -> bool {
    &&& 0 <= cursor
    &&& cursor + PREFIX_LEN <= buf.len()
    &&& frame_end(buf, cursor) <= buf.len()
}

/// The bytes of the frame that starts at `cursor`.
pub open spec fn frame_at(buf: Seq<u8>, cursor: int) -> Seq<u8>
    recommends
        frame_complete(buf, cursor),
{
    buf.subrange(cursor, frame_end(buf, cursor))
}

/// Whether `bytes` is one frame and nothing else.
pub open spec fn is_whole_frame(bytes: Seq<u8>) -> bool {
    &&& frame_complete(bytes, 0)
    &&& frame_end(bytes, 0) == bytes.len()
}

/// All frames that lie whole in `buf` from `cursor` on, in stream order.
pub open spec fn frames_from(buf: Seq<u8>, cursor: int) -> Seq<Seq<u8>>
    decreases buf.len() - cursor,
{
    if frame_complete(buf, cursor) {
        seq![frame_at(buf, cursor)] + frames_from(buf, frame_end(buf, cursor))
    } else {
        Seq::empty()
    }
}

/// Where the cursor comes to rest: the first position from `cursor` on at
/// which no whole frame lies.
pub open spec fn rest_from(buf: Seq<u8>, cursor: int) -> int
    decreases buf.len() - cursor,
{
    if frame_complete(buf, cursor) {
        rest_from(buf, frame_end(buf, cursor))
    } else {
        cursor
    }
}

/// The views of a run of frames.
pub open spec fn frame_views(frames: Seq<RawFrame>) -> Seq<Seq<u8>> {
    frames.map_values(|f: RawFrame| f@)
}

/// Takes the next frame out of `buf` at `cursor`.
///
/// Returns the frame together with the cursor advanced past it, or `None`
/// when fewer than three bytes are left or the frame would run over the end
/// of the buffer. `None` is no error: more bytes may still arrive.
pub fn next_frame(buf: &[u8], cursor: usize) -> (found: Option<(RawFrame, usize)>)
    ensures
        match found {
            Some((frame, next)) => {
                &&& frame_complete(buf@, cursor as int)
                &&& frame@ == frame_at(buf@, cursor as int)
                &&& next as int == frame_end(buf@, cursor as int)
                &&& frame.wf()
            },
            None => !frame_complete(buf@, cursor as int),
        },
{
    if cursor > buf.len() || buf.len() - cursor < PREFIX_LEN {
        return None;
    }
    let declared: usize = buf[cursor + 1] as usize + 256 * (buf[cursor + 2] as usize);
    let size: usize = declared + TRAILER_LEN;
    if buf.len() - cursor < size {
        return None;
    }
    let end: usize = cursor + size;
    let bytes = slice_to_vec(slice_subrange(buf, cursor, end));
    Some((RawFrame { bytes }, end))
}

/// Cuts `buf` into its frames, starting at `cursor`.
///
/// Returns the frames in stream order and the position at which the cursor
/// rests. Bytes behind that position are the beginning of a frame that is
/// not whole yet; they are in none of the frames returned.
pub fn split_frames(buf: &[u8], cursor: usize) -> (cut: (Vec<RawFrame>, usize))
    ensures
        frame_views(cut.0@) == frames_from(buf@, cursor as int),
        cut.1 as int == rest_from(buf@, cursor as int),
        forall|i: int| 0 <= i < cut.0@.len() ==> (#[trigger] cut.0@[i]).wf(),
{
    let mut frames: Vec<RawFrame> = Vec::new();
    let mut at: usize = cursor;
    loop
        invariant
            frames_from(buf@, cursor as int) == frame_views(frames@) + frames_from(
                buf@,
                at as int,
            ),
            rest_from(buf@, cursor as int) == rest_from(buf@, at as int),
            forall|i: int| 0 <= i < frames@.len() ==> (#[trigger] frames@[i]).wf(),
        decreases buf@.len() - at,
    {
        match next_frame(buf, at) {
            Some((frame, next)) => {
                frames.push(frame);
                at = next;
            },
            None => {
                return (frames, at);
            },
        }
    }
}

/// The bytes that stay behind once every whole frame has been taken from
/// the front of `buf`.
pub open spec fn pending_after(buf: Seq<u8>) -> Seq<u8> {
    buf.skip(rest_from(buf, 0))
}

/// The cursor never moves backwards, never leaves the buffer, and rests
/// where no whole frame lies.
pub proof fn lemma_rest_bounds(buf: Seq<u8>, cursor: int)
    ensures
        cursor <= rest_from(buf, cursor),
        cursor <= buf.len() ==> rest_from(buf, cursor) <= buf.len(),
        !frame_complete(buf, rest_from(buf, cursor)),
        frames_from(buf, rest_from(buf, cursor)).len() == 0,
    decreases buf.len() - cursor,
{
    if frame_complete(buf, cursor) {
        lemma_rest_bounds(buf, frame_end(buf, cursor));
    }
}

/// Extraction can be taken up again at any frame boundary: the frames found
/// from `cursor` are the first frame followed by the frames found from the
/// position behind it, and the cursor comes to rest at the same place.
pub proof fn lemma_frames_restart(buf: Seq<u8>, cursor: int)
    requires
        frame_complete(buf, cursor),
    ensures
        frames_from(buf, cursor) == seq![frame_at(buf, cursor)] + frames_from(
            buf,
            frame_end(buf, cursor),
        ),
        rest_from(buf, cursor) == rest_from(buf, frame_end(buf, cursor)),
{
}

/// A frame that lies whole in a buffer is found again, byte for byte and
/// with the same end, after more bytes have been appended to the buffer.
pub proof fn lemma_frame_survives_append(buf: Seq<u8>, more: Seq<u8>, cursor: int)
    requires
        frame_complete(buf, cursor),
    ensures
        frame_complete(buf + more, cursor),
        frame_end(buf + more, cursor) == frame_end(buf, cursor),
        frame_at(buf + more, cursor) == frame_at(buf, cursor),
{
}

/// Frame boundaries do not depend on the bytes in front of the cursor.
pub proof fn lemma_frames_shift(buf: Seq<u8>, cursor: int, dropped: int)
    requires
        0 <= dropped <= cursor,
        cursor <= buf.len(),
    ensures
        frames_from(buf, cursor) == frames_from(buf.skip(dropped), cursor - dropped),
        rest_from(buf, cursor) == rest_from(buf.skip(dropped), cursor - dropped) + dropped,
    decreases buf.len() - cursor,
{
    let cut = buf.skip(dropped);
    if frame_complete(buf, cursor) {
        assert(frame_at(cut, cursor - dropped) =~= frame_at(buf, cursor));
        lemma_frames_shift(buf, frame_end(buf, cursor), dropped);
    }
}

/// Bytes that arrive later change no frame that was already whole: the
/// frames of the grown buffer are the frames of the old one, followed by
/// those found from the old resting place on.
pub proof fn lemma_frames_append(buf: Seq<u8>, more: Seq<u8>, cursor: int)
    ensures
        frames_from(buf + more, cursor) == frames_from(buf, cursor) + frames_from(
            buf + more,
            rest_from(buf, cursor),
        ),
        rest_from(buf + more, cursor) == rest_from(buf + more, rest_from(buf, cursor)),
    decreases buf.len() - cursor,
{
    if frame_complete(buf, cursor) {
        lemma_frame_survives_append(buf, more, cursor);
        let end = frame_end(buf, cursor);
        lemma_frames_append(buf, more, end);
    }
}

/// The frames found are exactly the bytes between the cursor and its
/// resting place, in order and without gaps.
pub proof fn lemma_frames_cover(buf: Seq<u8>, cursor: int)
    requires
        0 <= cursor <= buf.len(),
    ensures
        frames_from(buf, cursor).flatten() == buf.subrange(cursor, rest_from(buf, cursor)),
    decreases buf.len() - cursor,
{
    if frame_complete(buf, cursor) {
        let end = frame_end(buf, cursor);
        lemma_frames_cover(buf, end);
        lemma_rest_bounds(buf, end);
        let head = seq![frame_at(buf, cursor)];
        let tail = frames_from(buf, end);
        assert((head + tail).drop_first() =~= tail);
    }
}

/// A stream may be cut into chunks anywhere. Feeding `first` and then
/// `second`, carrying over the bytes left pending in between, yields the
/// frames of the whole stream and leaves the same bytes pending.
pub proof fn lemma_stream_chunking(first: Seq<u8>, second: Seq<u8>)
    ensures
        frames_from(first + second, 0) == frames_from(first, 0) + frames_from(
            pending_after(first) + second,
            0,
        ),
        pending_after(first + second) == pending_after(pending_after(first) + second),
{
    let whole = first + second;
    let rest = rest_from(first, 0);
    lemma_rest_bounds(first, 0);
    lemma_frames_append(first, second, 0);
    lemma_frames_shift(whole, rest, rest);
    assert(whole.skip(rest) =~= pending_after(first) + second);
    let carried = pending_after(first) + second;
    lemma_rest_bounds(carried, 0);
}

/// A frame cut short at the end of a stream is never handed out: if `tail`
/// holds no whole frame, the buffer `whole + tail` yields the frames of
/// `whole` and no others, provided `whole` ends on a frame boundary.
pub proof fn lemma_truncated_tail_dropped(whole: Seq<u8>, tail: Seq<u8>)
    requires
        rest_from(whole, 0) == whole.len(),
        !frame_complete(tail, 0),
    ensures
        frames_from(whole + tail, 0) == frames_from(whole, 0),
        rest_from(whole + tail, 0) == whole.len(),
{
    lemma_frames_append(whole, tail, 0);
}

/// Extraction is repeatable: whatever two runs over the same buffer from
/// the same cursor return, they return the same frame, byte for byte, and
/// the same next cursor, or both return nothing.
pub proof fn lemma_next_frame_repeatable(
    buf: &[u8],
    cursor: usize,
    first: Option<(RawFrame, usize)>,
    second: Option<(RawFrame, usize)>,
)
    requires
        next_frame.ensures((buf, cursor), first),
        next_frame.ensures((buf, cursor), second),
    ensures
        match (first, second) {
            (Some((one, next)), Some((other, other_next))) => one@ == other@ && next
                == other_next,
            (None, None) => true,
            _ => false,
        },
{
}

/// Cutting is repeatable: whatever two runs over the same buffer from the
/// same cursor return, they return the same frames with the same
/// boundaries, and leave the cursor at the same place.
pub proof fn lemma_split_repeatable(
    buf: &[u8],
    cursor: usize,
    first: (Vec<RawFrame>, usize),
    second: (Vec<RawFrame>, usize),
)
    requires
        split_frames.ensures((buf, cursor), first),
        split_frames.ensures((buf, cursor), second),
    ensures
        frame_views(first.0@) == frame_views(second.0@),
        first.1 == second.1,
{
}

} // verus!
