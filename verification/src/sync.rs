//! The history transfer: what to make of each notification.
//!
//! Every chunk that the device sends goes through the frame stream. Each
//! frame that becomes whole is to be stored as it is, decoded if it is a
//! history frame, and looked at for the mark that ends the transfer. A frame
//! that fails its checks is skipped; the transfer goes on.

use crate::command::is_terminal_frame;
use crate::frame::{frame_views, frames_from, lemma_stream_chunking, pending_after, RawFrame};
use crate::ingest::{decoded_stream, lemma_records_concat, record_views, records_of};
use crate::packet::{open_frame, WhoopPacket};
use crate::record::{decode_frame, FrameOutcome, TelemetryRecord};
use crate::stream::FrameStream;
use vstd::prelude::*;

verus! {

/// What one notification brought.
#[derive(Debug)]
pub struct SyncBatch {
    /// The frames that became whole, in stream order, to be stored raw.
    pub frames: Vec<RawFrame>,
    /// The records decoded from those frames, in the same order.
    pub records: Vec<TelemetryRecord>,
    /// How many of the frames failed their checks and were skipped.
    pub skipped: usize,
    /// Whether one of the frames marks the end of the transfer.
    pub complete: bool,
}

/// How many of `frames` do not open.
pub open spec fn malformed_count(frames: Seq<Seq<u8>>) -> int
    decreases frames.len(),
{
    if frames.len() == 0 {
        0
    } else {
        malformed_count(frames.drop_last()) + if open_frame(frames.last()) is Err {
            1int
        } else {
            0int
        }
    }
}

/// Whether one of `frames` marks the end of the transfer.
pub open spec fn holds_terminal(frames: Seq<Seq<u8>>) -> bool {
    exists|i: int| 0 <= i < frames.len() && is_terminal_frame(#[trigger] frames[i])
}

/// Whether the frame `bytes` marks the end of the transfer.
pub fn is_terminal(bytes: &[u8]) -> (terminal: bool)
    ensures
        terminal == is_terminal_frame(bytes@),
{
    match WhoopPacket::from_data(bytes) {
        Ok(packet) => packet.is_history_complete(),
        Err(_) => false,
    }
}

/// Takes in one notification during the history transfer.
///
/// The chunk is appended to what the stream holds pending. Every frame
/// that is whole now is returned raw, the history frames among them are
/// decoded, the frames that fail their checks are counted and otherwise
/// passed over, and the batch says whether the device has marked the end of
/// the transfer.
pub fn on_notification(stream: &mut FrameStream, chunk: &[u8]) -> (batch: SyncBatch)
    ensures
        frame_views(batch.frames@) == frames_from(old(stream).pending() + chunk@, 0),
        final(stream).pending() == pending_after(old(stream).pending() + chunk@),
        final(stream).wf(),
        record_views(batch.records@) == records_of(frame_views(batch.frames@)),
        batch.skipped == malformed_count(frame_views(batch.frames@)),
        batch.complete == holds_terminal(frame_views(batch.frames@)),
{
    let frames = stream.feed(chunk);
    let ghost views = frame_views(frames@);
    let mut records: Vec<TelemetryRecord> = Vec::new();
    let mut skipped: usize = 0;
    let mut complete = false;
    let mut i: usize = 0;
    while i < frames.len()
        invariant
            i <= frames@.len(),
            views == frame_views(frames@),
            record_views(records@) == records_of(views.take(i as int)),
            skipped == malformed_count(views.take(i as int)),
            skipped <= i,
            complete == holds_terminal(views.take(i as int)),
        decreases frames@.len() - i,
    {
        proof {
            assert(views.take(i + 1).drop_last() =~= views.take(i as int));
        }
        let bytes = frames[i].bytes.as_slice();
        let terminal = is_terminal(bytes);
        complete = complete || terminal;
        match decode_frame(bytes) {
            FrameOutcome::Record(record, _) => {
                records.push(record);
            },
            FrameOutcome::Malformed(_) => {
                skipped += 1;
            },
            _ => {},
        }
        i += 1;
    }
    proof {
        assert(views.take(i as int) =~= views);
    }
    SyncBatch { frames, records, skipped, complete }
}

/// A transfer that arrives in two notifications yields the records that
/// the same bytes yield when they are decoded in one piece: those of the
/// first notification, followed by those of the second together with what
/// the first left pending.
pub proof fn lemma_chunked_transfer(first: Seq<u8>, second: Seq<u8>)
    ensures
        decoded_stream(first + second) == decoded_stream(first) + decoded_stream(
            pending_after(first) + second,
        ),
{
    lemma_stream_chunking(first, second);
    lemma_records_concat(frames_from(first, 0), frames_from(pending_after(first) + second, 0));
}

} // verus!
