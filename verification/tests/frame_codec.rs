use openwhoop::frame::{next_frame, split_frames};
use openwhoop::packet::{PacketType, WhoopPacket};
use openwhoop::stream::FrameStream;

fn frame_with(data: Vec<u8>) -> Vec<u8> {
    WhoopPacket::new(PacketType::HistoricalData, 0, 0, data).framed_packet()
}

fn three_frames() -> (Vec<Vec<u8>>, Vec<u8>) {
    let frames = vec![frame_with(vec![1; 3]), frame_with(vec![]), frame_with(vec![2; 40])];
    let stream = frames.concat();
    (frames, stream)
}

#[test]
fn empty_buffer_holds_no_frame() {
    assert!(next_frame(&[], 0).is_none());
    let (frames, rest) = split_frames(&[], 0);
    assert!(frames.is_empty());
    assert_eq!(rest, 0);
}

#[test]
fn fewer_than_three_bytes_is_incomplete() {
    assert!(next_frame(&[0xAA], 0).is_none());
    assert!(next_frame(&[0xAA, 4], 0).is_none());
    assert!(next_frame(&[0xAA, 4, 0, 1, 2, 3, 4, 5], 6).is_none());
}

#[test]
fn cursor_behind_the_end_is_incomplete() {
    assert!(next_frame(&[0xAA, 0, 0, 1, 2, 3, 4], 7).is_none());
    assert!(next_frame(&[0xAA, 0, 0, 1, 2, 3, 4], 100).is_none());
    assert!(next_frame(&[0xAA, 0, 0, 1, 2, 3, 4], usize::MAX).is_none());
}

#[test]
fn frame_size_is_declared_length_plus_four() {
    // declared length 5: marker, two length bytes, two more; then the trailer
    let buf = [0xAA, 5, 0, 10, 11, 1, 2, 3, 4, 0xEE];
    let (frame, next) = next_frame(&buf, 0).expect("nine bytes are there");
    assert_eq!(frame.bytes, buf[..9].to_vec());
    assert_eq!(next, 9);
}

#[test]
fn declared_length_is_little_endian() {
    let mut buf = vec![0x00, 0x02, 0x01];
    buf.resize(0x0102 + 4, 7);
    let (frame, next) = next_frame(&buf, 0).expect("the frame is whole");
    assert_eq!(frame.bytes.len(), 0x0102 + 4);
    assert_eq!(next, 0x0102 + 4);
    buf.pop();
    assert!(next_frame(&buf, 0).is_none());
}

#[test]
fn declared_length_zero_takes_four_bytes() {
    let buf = [9, 0, 0, 1, 2, 3];
    let (frame, next) = next_frame(&buf, 0).expect("four bytes are there");
    assert_eq!(frame.bytes, vec![9, 0, 0, 1]);
    assert_eq!(next, 4);
}

#[test]
fn frame_one_byte_short_is_incomplete() {
    let frame = frame_with(vec![5; 10]);
    assert!(next_frame(&frame[..frame.len() - 1], 0).is_none());
    assert!(next_frame(&frame, 0).is_some());
}

#[test]
fn extraction_from_a_later_cursor() {
    let (frames, stream) = three_frames();
    let (first, next) = next_frame(&stream, 0).unwrap();
    assert_eq!(first.bytes, frames[0]);
    let (second, next) = next_frame(&stream, next).unwrap();
    assert_eq!(second.bytes, frames[1]);
    let (third, next) = next_frame(&stream, next).unwrap();
    assert_eq!(third.bytes, frames[2]);
    assert_eq!(next, stream.len());
    assert!(next_frame(&stream, next).is_none());
}

#[test]
fn extraction_is_repeatable() {
    let (_, stream) = three_frames();
    for cursor in [0usize, 14, 25, 3] {
        let once = next_frame(&stream, cursor).map(|(f, n)| (f.bytes, n));
        let twice = next_frame(&stream, cursor).map(|(f, n)| (f.bytes, n));
        assert_eq!(once, twice);
    }
    let (a, rest_a) = split_frames(&stream, 0);
    let (b, rest_b) = split_frames(&stream, 0);
    assert_eq!(rest_a, rest_b);
    let a: Vec<Vec<u8>> = a.into_iter().map(|f| f.bytes).collect();
    let b: Vec<Vec<u8>> = b.into_iter().map(|f| f.bytes).collect();
    assert_eq!(a, b);
}

#[test]
fn split_finds_all_frames_in_order() {
    let (frames, stream) = three_frames();
    let (cut, rest) = split_frames(&stream, 0);
    let cut: Vec<Vec<u8>> = cut.into_iter().map(|f| f.bytes).collect();
    assert_eq!(cut, frames);
    assert_eq!(rest, stream.len());
}

#[test]
fn split_can_restart_at_a_boundary() {
    let (frames, stream) = three_frames();
    let (cut, rest) = split_frames(&stream, frames[0].len());
    let cut: Vec<Vec<u8>> = cut.into_iter().map(|f| f.bytes).collect();
    assert_eq!(cut, frames[1..].to_vec());
    assert_eq!(rest, stream.len());
}

#[test]
fn truncated_last_frame_is_left_out() {
    let (frames, mut stream) = three_frames();
    let whole = stream.len();
    let extra = frame_with(vec![3; 8]);
    stream.extend_from_slice(&extra[..extra.len() - 1]);
    let (cut, rest) = split_frames(&stream, 0);
    assert_eq!(cut.len(), frames.len());
    assert_eq!(rest, whole);
    stream.push(extra[extra.len() - 1]);
    let (cut, rest) = split_frames(&stream, 0);
    assert_eq!(cut.len(), frames.len() + 1);
    assert_eq!(rest, stream.len());
}

#[test]
fn frames_cover_the_bytes_consumed() {
    let (_, mut stream) = three_frames();
    stream.extend_from_slice(&[0xAA, 200]);
    let (cut, rest) = split_frames(&stream, 0);
    let joined: Vec<u8> = cut.into_iter().flat_map(|f| f.bytes).collect();
    assert_eq!(joined, stream[..rest].to_vec());
    assert_eq!(rest, stream.len() - 2);
}

#[test]
fn stream_hands_out_frames_as_they_complete() {
    let (frames, stream) = three_frames();
    let mut reader = FrameStream::new();
    assert_eq!(reader.pending_len(), 0);
    let mut seen: Vec<Vec<u8>> = Vec::new();
    for byte in &stream {
        for frame in reader.feed(&[*byte]) {
            seen.push(frame.bytes);
        }
    }
    assert_eq!(seen, frames);
    assert_eq!(reader.pending_len(), 0);
}

#[test]
fn stream_is_indifferent_to_chunking() {
    let (frames, stream) = three_frames();
    for cut in 0..=stream.len() {
        let mut reader = FrameStream::new();
        let mut seen: Vec<Vec<u8>> = Vec::new();
        seen.extend(reader.feed(&stream[..cut]).into_iter().map(|f| f.bytes));
        seen.extend(reader.feed(&stream[cut..]).into_iter().map(|f| f.bytes));
        assert_eq!(seen, frames, "cut at {}", cut);
        assert_eq!(reader.pending_len(), 0);
    }
}

#[test]
fn stream_keeps_the_unfinished_tail() {
    let frame = frame_with(vec![7; 6]);
    let mut reader = FrameStream::new();
    assert!(reader.feed(&frame[..5]).is_empty());
    assert_eq!(reader.pending_len(), 5);
    assert!(reader.feed(&[]).is_empty());
    assert_eq!(reader.pending_len(), 5);
    let mut rest = frame[5..].to_vec();
    rest.extend_from_slice(&[0xAA, 9]);
    let out = reader.feed(&rest);
    assert_eq!(out.len(), 1);
    assert_eq!(out[0].bytes, frame);
    assert_eq!(reader.pending_len(), 2);
    assert_eq!(reader.finish(), vec![0xAA, 9]);
}
