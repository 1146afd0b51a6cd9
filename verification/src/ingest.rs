//! Batch ingestion: from a blob of raw bytes to one structured record per
//! decoded history frame, each with the RMSSD of its window.

use crate::frame::{frame_complete, frame_views, frames_from, rest_from, split_frames, RawFrame};
use crate::frame::lemma_truncated_tail_dropped;
use crate::hrv::{calculate_time_domain_metrics, rmssd_squared, MeanSquare};
use crate::record::{decode_frame, frame_record, FrameOutcome, RecordView, TelemetryRecord};
use vstd::prelude::*;

verus! {

/// Number of records whose RR intervals are pooled for one RMSSD value.
pub const WINDOW_SIZE: usize = 10;

/// A decoded sample together with the RMSSD of the window it lies in.
#[derive(Debug)]
pub struct HistoricalRecord {
    pub unix: u32,
    pub heart_rate: u8,
    pub rr: Vec<u16>,
    pub hrv_rmssd: Option<MeanSquare>,
}

/// The shape in which a sample leaves the ingestion boundary.
#[derive(Debug)]
pub struct ParsedRecord {
    pub timestamp: u32,
    pub heart_rate: u8,
    pub rr_intervals: Vec<u16>,
    pub hrv_rmssd: Option<MeanSquare>,
}

/// A sample with its window's RMSSD, as a mathematical value.
pub struct SampleView {
    pub timestamp: u32,
    pub heart_rate: u8,
    pub rr_intervals: Seq<u16>,
    pub hrv_rmssd: Option<MeanSquare>,
}

impl View for HistoricalRecord {
    type V = SampleView;

    open spec fn view(&self) -> SampleView {
        SampleView {
            timestamp: self.unix,
            heart_rate: self.heart_rate,
            rr_intervals: self.rr@,
            hrv_rmssd: self.hrv_rmssd,
        }
    }
}

impl View for ParsedRecord {
    type V = SampleView;

    open spec fn view(&self) -> SampleView {
        SampleView {
            timestamp: self.timestamp,
            heart_rate: self.heart_rate,
            rr_intervals: self.rr_intervals@,
            hrv_rmssd: self.hrv_rmssd,
        }
    }
}

/// The views of a run of telemetry records.
pub open spec fn record_views(records: Seq<TelemetryRecord>) -> Seq<RecordView> {
    records.map_values(|r: TelemetryRecord| r@)
}

/// The views of a run of historical records.
pub open spec fn historical_views(records: Seq<HistoricalRecord>) -> Seq<SampleView> {
    records.map_values(|r: HistoricalRecord| r@)
}

/// The views of a run of parsed records.
pub open spec fn parsed_views(records: Seq<ParsedRecord>) -> Seq<SampleView> {
    records.map_values(|r: ParsedRecord| r@)
}

/// The records that a run of frames yields, in order. A frame that does not
/// open, is of another type or is too short yields none and changes nothing
/// for the frames after it.
pub open spec fn records_of(frames: Seq<Seq<u8>>) -> Seq<RecordView>
    decreases frames.len(),
{
    if frames.len() == 0 {
        Seq::empty()
    } else {
        match frame_record(frames.last()) {
            Some(record) => records_of(frames.drop_last()).push(record),
            None => records_of(frames.drop_last()),
        }
    }
}

/// The records that a blob of bytes yields: those of its whole frames.
pub open spec fn decoded_stream(bytes: Seq<u8>) -> Seq<RecordView> {
    records_of(frames_from(bytes, 0))
}

/// Index of the first record of the window in which record `i` lies.
pub open spec fn window_start(i: int) -> int {
    i / (WINDOW_SIZE as int) * (WINDOW_SIZE as int)
}

/// Index just behind the last record of the window in which record `i`
/// lies, among `total` records.
pub open spec fn window_end(i: int, total: int) -> int {
    if window_start(i) + WINDOW_SIZE <= total {
        window_start(i) + WINDOW_SIZE
    } else {
        total
    }
}

/// The RR intervals of records `from..to`, one record after the other.
pub open spec fn pooled_rr(samples: Seq<SampleView>, from: int, to: int) -> Seq<u16>
    decreases to - from,
{
    if to <= from {
        Seq::empty()
    } else {
        pooled_rr(samples, from, to - 1) + samples[to - 1].rr_intervals
    }
}

/// The squared RMSSD of the window in which record `i` lies; absent when
/// the window holds fewer than two RR intervals in all.
pub open spec fn window_rmssd(samples: Seq<SampleView>, i: int) -> Option<MeanSquare> {
    rmssd_squared(pooled_rr(samples, window_start(i), window_end(i, samples.len() as int)))
}

/// Record `i` after the windows have been worked: unchanged but for the
/// RMSSD, which is that of its window where the window has one.
pub open spec fn with_window_rmssd(samples: Seq<SampleView>, i: int) -> SampleView {
    SampleView {
        hrv_rmssd: match window_rmssd(samples, i) {
            Some(value) => Some(value),
            None => samples[i].hrv_rmssd,
        },
        ..samples[i]
    }
}

/// All records after the windows have been worked.
pub open spec fn windowed(samples: Seq<SampleView>) -> Seq<SampleView> {
    Seq::new(samples.len(), |i: int| with_window_rmssd(samples, i))
}

/// A decoded record before any window has been worked.
pub open spec fn fresh_sample(record: RecordView) -> SampleView {
    SampleView {
        timestamp: record.timestamp,
        heart_rate: record.heart_rate_bpm,
        rr_intervals: record.rr_intervals,
        hrv_rmssd: None,
    }
}

/// A run of decoded records before any window has been worked.
pub open spec fn fresh_samples(records: Seq<RecordView>) -> Seq<SampleView> {
    records.map_values(|r: RecordView| fresh_sample(r))
}

/// What batch ingestion makes of a blob of bytes.
pub open spec fn ingested(bytes: Seq<u8>) -> Seq<SampleView> {
    windowed(fresh_samples(decoded_stream(bytes)))
}

/// Decodes a run of frames, skipping every frame that yields no record.
pub fn decode_frames(frames: &Vec<RawFrame>) -> (records: Vec<TelemetryRecord>)
    ensures
        record_views(records@) == records_of(frame_views(frames@)),
        forall|i: int| 0 <= i < records@.len() ==> (#[trigger] records@[i]).wf(),
{
    let mut records: Vec<TelemetryRecord> = Vec::new();
    let mut i: usize = 0;
    while i < frames.len()
        invariant
            i <= frames@.len(),
            record_views(records@) == records_of(frame_views(frames@).take(i as int)),
            forall|k: int| 0 <= k < records@.len() ==> (#[trigger] records@[k]).wf(),
        decreases frames@.len() - i,
    {
        proof {
            let views = frame_views(frames@);
            assert(views.take(i + 1).drop_last() =~= views.take(i as int));
        }
        match decode_frame(frames[i].bytes.as_slice()) {
            FrameOutcome::Record(record, _) => {
                records.push(record);
            },
            _ => {},
        }
        i += 1;
    }
    proof {
        assert(frame_views(frames@).take(i as int) =~= frame_views(frames@));
    }
    records
}

/// Decodes every whole frame in `bytes`.
///
/// A frame cut short at the end of `bytes` is dropped, a frame that fails
/// its checks is skipped, and a frame of another type is passed over.
pub fn decode_stream(bytes: &[u8]) -> (records: Vec<TelemetryRecord>)
    ensures
        record_views(records@) == decoded_stream(bytes@),
        forall|i: int| 0 <= i < records@.len() ==> (#[trigger] records@[i]).wf(),
{
    let (frames, _) = split_frames(bytes, 0);
    decode_frames(&frames)
}

/// Gives every record the RMSSD of its window.
///
/// The records are taken ten at a time, the last window being shorter
/// where the count is no multiple of ten. The RR intervals of a window are
/// pooled in record order; where the pool holds two intervals or more, its
/// squared RMSSD is written to every record of the window alike. Records of
/// a window with a smaller pool keep the value they had. Nothing else is
/// changed.
pub fn assign_window_rmssd(records: &mut Vec<HistoricalRecord>)
    ensures
        historical_views(final(records)@) == windowed(historical_views(old(records)@)),
{
    let ghost before = historical_views(records@);
    let n = records.len();
    let mut chunk_start: usize = 0;
    while chunk_start < n
        invariant
            n == records@.len(),
            n == before.len(),
            chunk_start <= n,
            chunk_start % WINDOW_SIZE == 0 || chunk_start == n,
            forall|k: int| 0 <= k < chunk_start ==> (#[trigger] records@[k])@ == with_window_rmssd(before, k),
            forall|k: int| chunk_start <= k < n ==> (#[trigger] records@[k])@ == before[k],
        decreases n - chunk_start,
    {
        let end: usize = if n - chunk_start > WINDOW_SIZE {
            chunk_start + WINDOW_SIZE
        } else {
            n
        };
        let mut all_rr: Vec<u16> = Vec::new();
        let mut j: usize = chunk_start;
        while j < end
            invariant
                chunk_start <= j <= end <= n,
                n == records@.len(),
                n == before.len(),
                all_rr@ == pooled_rr(before, chunk_start as int, j as int),
                forall|k: int| chunk_start <= k < n ==> (#[trigger] records@[k])@ == before[k],
            decreases end - j,
        {
            all_rr.extend_from_slice(records[j].rr.as_slice());
            j += 1;
        }
        let sample = calculate_time_domain_metrics(all_rr.as_slice());
        if all_rr.len() >= 2 {
            let mut m: usize = chunk_start;
            while m < end
                invariant
                    chunk_start <= m <= end <= n,
                    n == records@.len(),
                    n == before.len(),
                    sample.rmssd is Some,
                    forall|k: int| chunk_start <= k < end ==> window_rmssd(before, k) == sample.rmssd,
                    forall|k: int|
                        0 <= k < m ==> (#[trigger] records@[k])@ == with_window_rmssd(before, k),
                    forall|k: int| m <= k < n ==> (#[trigger] records@[k])@ == before[k],
                decreases end - m,
            {
                records[m].hrv_rmssd = sample.rmssd;
                m += 1;
            }
        }
        chunk_start = end;
    }
}

/// Turns a blob of raw bytes into one record per decoded history frame.
///
/// The blob is cut into frames from its first byte; a frame cut short at
/// the end is dropped. Each frame is opened and, if it is a history frame
/// with enough data, decoded; any other frame is skipped. The records are
/// then worked in windows of ten, and each one receives the squared RMSSD
/// of the RR intervals pooled over its window, where the pool holds at
/// least two.
pub fn parse_history(bin_data: &[u8]) -> (results: Vec<ParsedRecord>)
    ensures
        parsed_views(results@) == ingested(bin_data@),
{
    let decoded = decode_stream(bin_data);
    let ghost fresh = fresh_samples(decoded_stream(bin_data@));
    let mut records: Vec<HistoricalRecord> = Vec::new();
    for record in it: decoded
        invariant
            record_views(it.seq()) == decoded_stream(bin_data@),
            records@.len() == it.index(),
            fresh == fresh_samples(decoded_stream(bin_data@)),
            forall|k: int| 0 <= k < records@.len() ==> (#[trigger] records@[k])@ == fresh[k],
    {
        records.push(
            HistoricalRecord {
                unix: record.timestamp,
                heart_rate: record.heart_rate_bpm,
                rr: record.rr_intervals,
                hrv_rmssd: None,
            },
        );
    }
    assert(historical_views(records@) =~= fresh);
    assign_window_rmssd(&mut records);
    let ghost worked = historical_views(records@);
    let mut results: Vec<ParsedRecord> = Vec::new();
    for record in it: records
        invariant
            historical_views(it.seq()) == worked,
            results@.len() == it.index(),
            forall|k: int| 0 <= k < results@.len() ==> (#[trigger] results@[k])@ == worked[k],
    {
        results.push(
            ParsedRecord {
                timestamp: record.unix,
                heart_rate: record.heart_rate,
                rr_intervals: record.rr,
                hrv_rmssd: record.hrv_rmssd,
            },
        );
    }
    results
}

/// A sample without the RMSSD of its window.
pub open spec fn record_in(sample: SampleView) -> RecordView {
    RecordView {
        timestamp: sample.timestamp,
        heart_rate_bpm: sample.heart_rate,
        rr_intervals: sample.rr_intervals,
    }
}

/// A run of samples without the RMSSD of their windows.
pub open spec fn records_in(samples: Seq<SampleView>) -> Seq<RecordView> {
    samples.map_values(|s: SampleView| record_in(s))
}

/// The windows lie side by side, ten records each but for the last: every
/// record lies in its own window, a window starts at a multiple of ten and
/// ends ten records later or with the last record.
pub proof fn lemma_window_bounds(i: int, total: int)
    requires
        0 <= i < total,
    ensures
        window_start(i) % (WINDOW_SIZE as int) == 0,
        window_start(i) <= i < window_end(i, total) <= total,
        window_end(i, total) - window_start(i) <= WINDOW_SIZE,
        window_end(i, total) < total ==> window_end(i, total) - window_start(i) == WINDOW_SIZE,
{
}

/// Records of one window receive one and the same RMSSD, that of the
/// window's pooled RR intervals.
pub proof fn lemma_window_shares_rmssd(samples: Seq<SampleView>, i: int, j: int)
    requires
        0 <= i < samples.len(),
        0 <= j < samples.len(),
        i / (WINDOW_SIZE as int) == j / (WINDOW_SIZE as int),
    ensures
        window_rmssd(samples, i) == window_rmssd(samples, j),
        window_rmssd(samples, i) is Some ==> windowed(samples)[i].hrv_rmssd == windowed(
            samples,
        )[j].hrv_rmssd && windowed(samples)[i].hrv_rmssd == window_rmssd(samples, i),
{
}

/// After batch ingestion any two records of one window carry the same
/// RMSSD, present or absent.
pub proof fn lemma_ingested_window_uniform(bytes: Seq<u8>, i: int, j: int)
    requires
        0 <= i < ingested(bytes).len(),
        0 <= j < ingested(bytes).len(),
        i / (WINDOW_SIZE as int) == j / (WINDOW_SIZE as int),
    ensures
        ingested(bytes)[i].hrv_rmssd == ingested(bytes)[j].hrv_rmssd,
        ingested(bytes)[i].hrv_rmssd == window_rmssd(fresh_samples(decoded_stream(bytes)), i),
{
}

/// Working the windows changes nothing but the RMSSD: one sample comes out
/// for every record decoded, in order, with the same time, heart rate and
/// RR intervals.
pub proof fn lemma_ingested_keeps_records(bytes: Seq<u8>)
    ensures
        records_in(ingested(bytes)) == decoded_stream(bytes),
{
}

/// The records of two runs of frames, one after the other, are the records
/// of the first run followed by those of the second.
pub proof fn lemma_records_concat(first: Seq<Seq<u8>>, second: Seq<Seq<u8>>)
    ensures
        records_of(first + second) == records_of(first) + records_of(second),
    decreases second.len(),
{
    if second.len() > 0 {
        let whole = first + second;
        assert(whole.drop_last() =~= first + second.drop_last());
        lemma_records_concat(first, second.drop_last());
    }
}

/// A frame cut short at the end of a blob never becomes a record: if the
/// blob `whole` ends on a frame boundary and `tail` holds no whole frame,
/// then `whole` followed by `tail` decodes to what `whole` decodes to.
pub proof fn lemma_truncated_tail_yields_no_record(whole: Seq<u8>, tail: Seq<u8>)
    requires
        rest_from(whole, 0) == whole.len(),
        !frame_complete(tail, 0),
    ensures
        decoded_stream(whole + tail) == decoded_stream(whole),
        ingested(whole + tail) == ingested(whole),
{
    lemma_truncated_tail_dropped(whole, tail);
}

} // verus!
