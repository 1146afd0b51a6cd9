use openwhoop::packet::{MalformedFrame, PacketType, WhoopPacket};
use openwhoop::record::{decode_frame, decode_record, rr_count_anomaly, FrameOutcome};

fn history_data(unix: u32, heart: u8, count: u8, rr: [u16; 4]) -> Vec<u8> {
    let mut data = vec![0u8; 24];
    data[0..4].copy_from_slice(&[0xDE, 0xAD, 0xBE, 0xEF]);
    data[4..8].copy_from_slice(&unix.to_le_bytes());
    data[8..10].copy_from_slice(&0x1234u16.to_le_bytes());
    data[10] = 0x55;
    data[11] = heart;
    data[12..15].copy_from_slice(&[1, 2, 3]);
    data[15] = count;
    for (i, value) in rr.iter().enumerate() {
        data[16 + 2 * i..18 + 2 * i].copy_from_slice(&value.to_le_bytes());
    }
    data
}

#[test]
fn fields_are_read_at_their_offsets() {
    let data = history_data(0x6601_0203, 61, 4, [800, 810, 790, 0xFFFF]);
    let record = decode_record(&data).expect("long enough");
    assert_eq!(record.timestamp, 0x6601_0203);
    assert_eq!(record.heart_rate_bpm, 61);
    assert_eq!(record.rr_intervals, vec![800, 810, 790, 0xFFFF]);
}

#[test]
fn exactly_the_first_n_intervals_are_taken() {
    let rr = [1000, 2000, 3000, 4000];
    let expected: [&[u16]; 5] = [&[], &[1000], &[1000, 2000], &[1000, 2000, 3000], &rr];
    for count in 0..=4u8 {
        let record = decode_record(&history_data(1, 2, count, rr)).unwrap();
        assert_eq!(record.rr_intervals, expected[count as usize].to_vec());
        assert_eq!(rr_count_anomaly(&history_data(1, 2, count, rr)), None);
    }
}

#[test]
fn count_of_five_or_more_gives_an_empty_record() {
    for count in [5u8, 6, 100, 255] {
        let data = history_data(77, 88, count, [1, 2, 3, 4]);
        let record = decode_record(&data).expect("still a record");
        assert_eq!(record.timestamp, 77);
        assert_eq!(record.heart_rate_bpm, 88);
        assert!(record.rr_intervals.is_empty());
        assert_eq!(rr_count_anomaly(&data), Some(count));
    }
}

#[test]
fn shorter_than_fifteen_is_skipped() {
    let data = history_data(1, 2, 1, [5, 6, 7, 8]);
    assert!(decode_record(&[]).is_none());
    assert!(decode_record(&data[..14]).is_none());
    assert!(decode_record(&data[..15]).is_some());
}

#[test]
fn fifteen_bytes_decode_without_count_byte() {
    let data = history_data(0x0102_0304, 99, 3, [5, 6, 7, 8]);
    let record = decode_record(&data[..15]).unwrap();
    assert_eq!(record.timestamp, 0x0102_0304);
    assert_eq!(record.heart_rate_bpm, 99);
    assert!(record.rr_intervals.is_empty());
    assert_eq!(rr_count_anomaly(&data[..15]), None);
}

#[test]
fn data_that_ends_before_the_block_has_no_intervals() {
    let data = history_data(5, 6, 2, [500, 600, 700, 800]);
    for len in 16..24 {
        let record = decode_record(&data[..len]).unwrap();
        assert!(record.rr_intervals.is_empty(), "length {}", len);
        assert_eq!(rr_count_anomaly(&data[..len]), None);
    }
    let mut longer = data.clone();
    longer.extend_from_slice(&[9; 30]);
    assert_eq!(decode_record(&longer).unwrap().rr_intervals, vec![500, 600]);
}

#[test]
fn history_frame_decodes_to_record() {
    let data = history_data(1_700_000_000, 72, 2, [850, 860, 0, 0]);
    let frame = WhoopPacket::new(PacketType::HistoricalData, 9, 1, data).framed_packet();
    match decode_frame(&frame) {
        FrameOutcome::Record(record, anomaly) => {
            assert_eq!(record.timestamp, 1_700_000_000);
            assert_eq!(record.heart_rate_bpm, 72);
            assert_eq!(record.rr_intervals, vec![850, 860]);
            assert_eq!(anomaly, None);
        }
        other => panic!("not a record: {:?}", other),
    }
}

#[test]
fn history_frame_reports_unknown_count() {
    let data = history_data(3, 4, 9, [1, 1, 1, 1]);
    let frame = WhoopPacket::new(PacketType::HistoricalData, 0, 0, data).framed_packet();
    match decode_frame(&frame) {
        FrameOutcome::Record(record, anomaly) => {
            assert!(record.rr_intervals.is_empty());
            assert_eq!(anomaly, Some(9));
        }
        other => panic!("not a record: {:?}", other),
    }
}

#[test]
fn other_types_are_not_decoded_as_telemetry() {
    let data = history_data(1_700_000_000, 72, 2, [850, 860, 0, 0]);
    for kind in [
        PacketType::Command,
        PacketType::CommandResponse,
        PacketType::RealtimeData,
        PacketType::Event,
        PacketType::Metadata,
        PacketType::HistoricalImuDataStream,
    ] {
        let frame = WhoopPacket::new(kind, 0, 0, data.clone()).framed_packet();
        match decode_frame(&frame) {
            FrameOutcome::NotHistory(seen) => assert_eq!(seen, kind),
            other => panic!("decoded {:?} as {:?}", kind, other),
        }
    }
}

#[test]
fn short_history_frame_is_an_anomaly() {
    let frame = WhoopPacket::new(PacketType::HistoricalData, 0, 0, vec![0; 14]).framed_packet();
    assert!(matches!(decode_frame(&frame), FrameOutcome::TooShort(14)));
}

#[test]
fn malformed_frame_is_named() {
    let data = history_data(1, 2, 1, [3, 0, 0, 0]);
    let mut frame = WhoopPacket::new(PacketType::HistoricalData, 0, 0, data).framed_packet();
    frame[20] ^= 0xFF;
    assert!(matches!(decode_frame(&frame), FrameOutcome::Malformed(MalformedFrame::BadTrailer)));
    assert!(matches!(decode_frame(&[]), FrameOutcome::Malformed(MalformedFrame::TooShort)));
}
