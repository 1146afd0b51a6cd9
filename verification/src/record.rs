//! The record decoder: from the data of a history frame to a telemetry
//! record.
//!
//! Offsets into the data, all numbers little-endian:
//!
//! | bytes    | content                                   |
//! |----------|-------------------------------------------|
//! | `4..8`   | time of the sample, seconds since 1970    |
//! | `8..10`  | fraction of the second (not surfaced)     |
//! | `11`     | heart rate, beats per minute              |
//! | `15`     | number of RR intervals that follow        |
//! | `16..24` | up to four RR intervals, milliseconds     |

use crate::frame::le_u16_at;
use crate::packet::{le_u32_at, open_frame, MalformedFrame, PacketType, PacketView, WhoopPacket};
use vstd::prelude::*;

verus! {

/// Data shorter than this is not decoded.
pub const MIN_RECORD_LEN: usize = 15;

/// Data at least this long carries the block of RR intervals.
pub const RR_BLOCK_END: usize = 24;

/// Where the block of RR intervals starts.
pub const RR_BLOCK_START: usize = 16;

/// Where the number of RR intervals stands.
pub const RR_COUNT_AT: usize = 15;

/// The most RR intervals one record carries.
pub const MAX_RR_INTERVALS: usize = 4;

/// One decoded sample of the history.
#[derive(Debug)]
pub struct TelemetryRecord {
    /// Seconds since 1970.
    pub timestamp: u32,
    /// Beats per minute.
    pub heart_rate_bpm: u8,
    /// Up to four beat-to-beat intervals in milliseconds, oldest first.
    pub rr_intervals: Vec<u16>,
}

/// A record as a mathematical value.
pub struct RecordView {
    pub timestamp: u32,
    pub heart_rate_bpm: u8,
    pub rr_intervals: Seq<u16>,
}

impl View for TelemetryRecord {
    type V = RecordView;

    open spec fn view(&self) -> RecordView {
        RecordView {
            timestamp: self.timestamp,
            heart_rate_bpm: self.heart_rate_bpm,
            rr_intervals: self.rr_intervals@,
        }
    }
}

impl TelemetryRecord {
    /// A record never carries more than four RR intervals.
    pub open spec fn wf(&self) -> bool {
        self.rr_intervals@.len() <= MAX_RR_INTERVALS
    }
}

/// How many RR intervals are taken from `data`: the count byte where the
/// block of intervals is present and the count is one the decoder
/// understands, and none otherwise.
pub open spec fn rr_taken(data: Seq<u8>) -> int {
    if data.len() >= RR_BLOCK_END && data[RR_COUNT_AT as int] <= MAX_RR_INTERVALS {
        data[RR_COUNT_AT as int] as int
    } else {
        0
    }
}

/// The RR intervals taken from `data`.
pub open spec fn rr_of(data: Seq<u8>) -> Seq<u16> {
    Seq::new(rr_taken(data) as nat, |i: int| le_u16_at(data, RR_BLOCK_START + 2 * i) as u16)
}

/// The count byte of `data` where it is one the decoder does not
/// understand: the block of intervals is present and the byte exceeds four.
pub open spec fn unknown_rr_count(data: Seq<u8>) -> Option<u8> {
    if data.len() >= RR_BLOCK_END && data[RR_COUNT_AT as int] > MAX_RR_INTERVALS {
        Some(data[RR_COUNT_AT as int])
    } else {
        None
    }
}

/// The record that `data` decodes to; none when `data` is too short.
pub open spec fn record_of(data: Seq<u8>) -> Option<RecordView> {
    if data.len() < MIN_RECORD_LEN {
        None
    } else {
        Some(
            RecordView {
                timestamp: le_u32_at(data, 4) as u32,
                heart_rate_bpm: data[11],
                rr_intervals: rr_of(data),
            },
        )
    }
}

/// What became of one frame.
#[derive(Debug)]
pub enum FrameOutcome {
    /// A history frame that decoded to a record. The second field is the
    /// count byte where it was out of range and the intervals were dropped.
    Record(TelemetryRecord, Option<u8>),
    /// A history frame whose data is too short to decode.
    TooShort(usize),
    /// A sound frame of another type: an acknowledgement, an event and the
    /// like.
    NotHistory(PacketType),
    /// A frame that failed one of the checks on opening.
    Malformed(MalformedFrame),
}

/// The record that a frame yields: one exactly when the frame opens, is a
/// history frame and carries enough data.
pub open spec fn frame_record(bytes: Seq<u8>) -> Option<RecordView> {
    match open_frame(bytes) {
        Ok(packet) => if packet.packet_type == PacketType::HistoricalData {
            record_of(packet.data)
        } else {
            None
        },
        Err(_) => None,
    }
}

fn read_le_u16(buf: &[u8], at: usize) -> (value: u16)
    requires
        at + 2 <= buf@.len(),
    ensures
        value as int == le_u16_at(buf@, at as int),
{
    buf[at] as u16 + 256 * (buf[at + 1] as u16)
}

/// Reads the count byte where it is out of range, for the log.
pub fn rr_count_anomaly(data: &[u8]) -> (count: Option<u8>)
    ensures
        count == unknown_rr_count(data@),
{
    if data.len() >= RR_BLOCK_END && data[RR_COUNT_AT] > 4 {
        Some(data[RR_COUNT_AT])
    } else {
        None
    }
}

/// Decodes the data of a history frame.
///
/// Returns `None` exactly when `data` is shorter than fifteen bytes. A
/// count byte above four is no failure: the record is returned with no RR
/// intervals. So is data that ends before the block of intervals.
pub fn decode_record(data: &[u8]) -> (decoded: Option<TelemetryRecord>)
    ensures
        match decoded {
            Some(record) => record_of(data@) == Some(record@) && record.wf(),
            None => record_of(data@) is None,
        },
{
    if data.len() < MIN_RECORD_LEN {
        return None;
    }
    let timestamp: u32 = data[4] as u32 + 256 * (data[5] as u32) + 65536 * (data[6] as u32)
        + 16777216 * (data[7] as u32);
    let heart_rate_bpm = data[11];
    let mut rr_intervals: Vec<u16> = Vec::new();
    if data.len() >= RR_BLOCK_END {
        let count = data[RR_COUNT_AT];
        if count <= 4 {
            let mut k: usize = 0;
            while k < count as usize
                invariant
                    k <= count <= 4,
                    data@.len() >= RR_BLOCK_END,
                    rr_intervals@.len() == k,
                    forall|i: int|
                        0 <= i < k ==> rr_intervals@[i] as int == le_u16_at(
                            data@,
                            RR_BLOCK_START + 2 * i,
                        ),
                decreases count - k,
            {
                let value = read_le_u16(data, RR_BLOCK_START + 2 * k);
                rr_intervals.push(value);
                k += 1;
            }
        }
    }
    assert(rr_intervals@ =~= rr_of(data@));
    Some(TelemetryRecord { timestamp, heart_rate_bpm, rr_intervals })
}

/// Opens one frame and decodes it if it is a history frame.
///
/// Frames of other types are named as such and never decoded as telemetry.
pub fn decode_frame(bytes: &[u8]) -> (outcome: FrameOutcome)
    ensures
        match outcome {
            FrameOutcome::Record(record, anomaly) => {
                &&& frame_record(bytes@) == Some(record@)
                &&& record.wf()
                &&& open_frame(bytes@) matches Ok(packet) && anomaly == unknown_rr_count(
                    packet.data,
                )
            },
            FrameOutcome::TooShort(len) => {
                &&& frame_record(bytes@) is None
                &&& open_frame(bytes@) matches Ok(packet) && packet.packet_type
                    == PacketType::HistoricalData && packet.data.len() == len
            },
            FrameOutcome::NotHistory(kind) => {
                &&& frame_record(bytes@) is None
                &&& open_frame(bytes@) matches Ok(packet) && packet.packet_type == kind
                &&& kind != PacketType::HistoricalData
            },
            FrameOutcome::Malformed(reason) => {
                &&& frame_record(bytes@) is None
                &&& open_frame(bytes@) == Err::<PacketView, MalformedFrame>(reason)
            },
        },
{
    match WhoopPacket::from_data(bytes) {
        Err(reason) => FrameOutcome::Malformed(reason),
        Ok(packet) => {
            match packet.packet_type {
                PacketType::HistoricalData => {
                    let anomaly = rr_count_anomaly(packet.data.as_slice());
                    match decode_record(packet.data.as_slice()) {
                        Some(record) => FrameOutcome::Record(record, anomaly),
                        None => FrameOutcome::TooShort(packet.data.len()),
                    }
                },
                kind => FrameOutcome::NotHistory(kind),
            }
        },
    }
}

/// A count byte of five or more is no decode failure: the record is there,
/// with its time and heart rate, and carries no RR intervals.
pub proof fn lemma_unknown_count_keeps_record(data: Seq<u8>)
    requires
        data.len() > RR_COUNT_AT,
        data[RR_COUNT_AT as int] >= 5,
    ensures
        record_of(data) matches Some(record) && record.rr_intervals.len() == 0
            && record.timestamp == le_u32_at(data, 4) as u32 && record.heart_rate_bpm == data[11],
{
}

/// A record carries exactly as many RR intervals as its count byte says,
/// where that is at most four and the block of intervals is present.
pub proof fn lemma_rr_count(data: Seq<u8>)
    requires
        data.len() >= MIN_RECORD_LEN,
    ensures
        record_of(data) matches Some(record) && record.rr_intervals.len() == rr_taken(data)
            && record.rr_intervals.len() <= MAX_RR_INTERVALS,
{
}

} // verus!
