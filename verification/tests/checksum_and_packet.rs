use openwhoop::checksum::{crc32, crc8};
use openwhoop::command::handshake_commands;
use openwhoop::frame::next_frame;
use openwhoop::packet::{MalformedFrame, PacketType, WhoopPacket, MAX_DATA_LEN};

fn sample_frame() -> Vec<u8> {
    WhoopPacket::new(PacketType::Command, 7, 22, vec![1, 2, 3, 4, 5]).framed_packet()
}

#[test]
fn crc8_of_check_string() {
    assert_eq!(crc8(b"123456789"), 0xF4);
}

#[test]
fn crc8_of_nothing_is_zero() {
    assert_eq!(crc8(&[]), 0);
}

#[test]
fn crc8_of_one_byte() {
    assert_eq!(crc8(&[0x01]), 0x07);
    assert_eq!(crc8(&[0x80]), 0x89);
}

#[test]
fn crc32_of_check_string() {
    assert_eq!(crc32(b"123456789"), 0xCBF4_3926);
}

#[test]
fn crc32_of_nothing_is_zero() {
    assert_eq!(crc32(&[]), 0);
}

#[test]
fn crc32_of_one_letter() {
    assert_eq!(crc32(b"a"), 0xE8B7_BE43);
}

#[test]
fn packet_type_codes_round_trip() {
    let all = [
        (PacketType::Command, 35u8),
        (PacketType::CommandResponse, 36),
        (PacketType::RealtimeData, 40),
        (PacketType::RealtimeRawData, 43),
        (PacketType::HistoricalData, 47),
        (PacketType::Event, 48),
        (PacketType::Metadata, 49),
        (PacketType::ConsoleLogs, 50),
        (PacketType::RealtimeImuDataStream, 51),
        (PacketType::HistoricalImuDataStream, 52),
    ];
    for (kind, code) in all {
        assert_eq!(kind.as_u8(), code);
        assert_eq!(PacketType::from_u8(code), Some(kind));
    }
    assert_eq!(PacketType::from_u8(0), None);
    assert_eq!(PacketType::from_u8(37), None);
    assert_eq!(PacketType::from_u8(255), None);
}

#[test]
fn frame_layout_is_as_documented() {
    let frame = sample_frame();
    // marker, length, header checksum, type, seq, cmd, five data bytes, trailer
    assert_eq!(frame.len(), 4 + 3 + 5 + 4);
    assert_eq!(frame[0], 0xAA);
    assert_eq!(u16::from_le_bytes([frame[1], frame[2]]), 12);
    assert_eq!(frame[3], crc8(&frame[1..3]));
    assert_eq!(&frame[4..7], &[35, 7, 22]);
    assert_eq!(&frame[7..12], &[1, 2, 3, 4, 5]);
    assert_eq!(
        u32::from_le_bytes([frame[12], frame[13], frame[14], frame[15]]),
        crc32(&frame[4..12])
    );
}

#[test]
fn exit_command_frame_bytes() {
    let frame = WhoopPacket::exit_high_freq_sync().framed_packet();
    assert_eq!(frame.len(), 11);
    assert_eq!(&frame[..3], &[0xAA, 7, 0]);
    assert_eq!(&frame[4..7], &[35, 0, 97]);
    assert_eq!(frame[3], crc8(&[7, 0]));
    assert_eq!(&frame[7..], &crc32(&[35, 0, 97]).to_le_bytes());
}

#[test]
fn command_round_trip_through_codec() {
    let packet = WhoopPacket::new(PacketType::Command, 3, 97, vec![9, 8, 7]);
    let frame = packet.framed_packet();
    let mut stream = frame.clone();
    stream.extend_from_slice(&[0xAA, 0x55]);
    let (cut, next) = next_frame(&stream, 0).expect("the frame is whole");
    assert_eq!(cut.bytes, frame);
    assert_eq!(next, frame.len());
    let opened = WhoopPacket::from_data(&cut.bytes).expect("the frame opens");
    assert_eq!(opened.packet_type, PacketType::Command);
    assert_eq!(opened.seq, 3);
    assert_eq!(opened.cmd, 97);
    assert_eq!(opened.data, vec![9, 8, 7]);
}

#[test]
fn every_command_round_trips() {
    let mut commands = handshake_commands();
    commands.push(WhoopPacket::history_start());
    commands.push(WhoopPacket::exit_high_freq_sync());
    for command in commands {
        let frame = command.framed_packet();
        let opened = WhoopPacket::from_data(&frame).expect("the frame opens");
        assert_eq!(opened.packet_type, command.packet_type);
        assert_eq!(opened.seq, command.seq);
        assert_eq!(opened.cmd, command.cmd);
        assert_eq!(opened.data, command.data);
        assert_eq!(opened.framed_packet(), frame);
    }
}

#[test]
fn largest_packet_round_trips() {
    let data: Vec<u8> = (0..MAX_DATA_LEN).map(|i| (i % 251) as u8).collect();
    let packet = WhoopPacket::new(PacketType::HistoricalData, 1, 2, data.clone());
    let frame = packet.framed_packet();
    assert_eq!(frame.len(), 65535 + 4);
    assert_eq!(u16::from_le_bytes([frame[1], frame[2]]), 65535);
    let opened = WhoopPacket::from_data(&frame).expect("the frame opens");
    assert_eq!(opened.data, data);
}

#[test]
fn handshake_is_hello_then_fast_mode() {
    let commands = handshake_commands();
    assert_eq!(commands.len(), 2);
    assert_eq!((commands[0].cmd, commands[0].data.clone()), (35, vec![0]));
    assert_eq!((commands[1].cmd, commands[1].data.clone()), (96, vec![]));
    assert_eq!(WhoopPacket::history_start().cmd, 22);
    assert_eq!(WhoopPacket::history_start().data, vec![0]);
}

#[test]
fn too_short_is_refused() {
    assert_eq!(WhoopPacket::from_data(&[]).unwrap_err(), MalformedFrame::TooShort);
    let frame = sample_frame();
    assert_eq!(WhoopPacket::from_data(&frame[..10]).unwrap_err(), MalformedFrame::TooShort);
}

#[test]
fn bad_marker_is_refused() {
    let mut frame = sample_frame();
    frame[0] = 0xAB;
    assert_eq!(WhoopPacket::from_data(&frame).unwrap_err(), MalformedFrame::BadMarker);
}

#[test]
fn bad_header_checksum_is_refused() {
    let mut frame = sample_frame();
    frame[3] ^= 0x01;
    assert_eq!(WhoopPacket::from_data(&frame).unwrap_err(), MalformedFrame::BadHeaderChecksum);
}

#[test]
fn changed_length_fails_the_header_checksum() {
    let mut frame = sample_frame();
    frame[1] += 1;
    assert_eq!(WhoopPacket::from_data(&frame).unwrap_err(), MalformedFrame::BadHeaderChecksum);
}

#[test]
fn length_mismatch_is_refused() {
    let mut frame = sample_frame();
    frame.push(0);
    assert_eq!(WhoopPacket::from_data(&frame).unwrap_err(), MalformedFrame::LengthMismatch);
    let frame = sample_frame();
    assert_eq!(
        WhoopPacket::from_data(&frame[..frame.len() - 1]).unwrap_err(),
        MalformedFrame::LengthMismatch
    );
}

#[test]
fn bad_trailer_is_refused() {
    let mut frame = sample_frame();
    let last = frame.len() - 1;
    frame[last] ^= 0x80;
    assert_eq!(WhoopPacket::from_data(&frame).unwrap_err(), MalformedFrame::BadTrailer);
    let mut frame = sample_frame();
    frame[8] ^= 0x01;
    assert_eq!(WhoopPacket::from_data(&frame).unwrap_err(), MalformedFrame::BadTrailer);
}

#[test]
fn unknown_type_is_refused() {
    let body = [99u8, 0, 1, 42];
    let mut frame = vec![0xAA, 8, 0, crc8(&[8, 0])];
    frame.extend_from_slice(&body);
    frame.extend_from_slice(&crc32(&body).to_le_bytes());
    assert_eq!(WhoopPacket::from_data(&frame).unwrap_err(), MalformedFrame::UnknownType(99));
}

#[test]
fn every_error_has_its_text() {
    assert_eq!(MalformedFrame::TooShort.describe(), "frame too short");
    assert_eq!(MalformedFrame::BadMarker.describe(), "invalid start of frame");
    assert_eq!(MalformedFrame::BadHeaderChecksum.describe(), "invalid header checksum");
    assert_eq!(MalformedFrame::LengthMismatch.describe(), "invalid frame length");
    assert_eq!(MalformedFrame::BadTrailer.describe(), "invalid data checksum");
    assert_eq!(MalformedFrame::UnknownType(1).describe(), "invalid packet type");
}

#[test]
fn history_complete_is_recognised() {
    let done = WhoopPacket::new(PacketType::Metadata, 0, 3, vec![]);
    assert!(done.is_history_complete());
    assert!(!WhoopPacket::new(PacketType::Metadata, 0, 2, vec![]).is_history_complete());
    assert!(!WhoopPacket::new(PacketType::Command, 0, 3, vec![]).is_history_complete());
}

#[test]
fn oversized_packet_is_not_framed() {
    let fits = WhoopPacket::new(PacketType::Event, 0, 0, vec![0; MAX_DATA_LEN]);
    assert_eq!(fits.try_framed_packet(), Some(fits.framed_packet()));
    let too_long = WhoopPacket::new(PacketType::Event, 0, 0, vec![0; MAX_DATA_LEN + 1]);
    assert_eq!(too_long.try_framed_packet(), None);
}
