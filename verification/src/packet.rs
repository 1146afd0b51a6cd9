//! Opening and building frames.
//!
//! Layout of a frame, offsets from its first byte:
//!
//! | bytes            | content                                           |
//! |------------------|---------------------------------------------------|
//! | `0`              | marker `0xAA`                                     |
//! | `1..3`           | length, little-endian: all bytes before the trailer |
//! | `3`              | 8-bit checksum of the two length bytes            |
//! | `4`              | packet type                                       |
//! | `5`              | sequence number                                   |
//! | `6`              | command                                           |
//! | `7..length`      | data                                              |
//! | `length..length+4` | trailer: 32-bit checksum, little-endian, of bytes `4..length` |

use crate::checksum::{crc32, crc32_of, crc8, crc8_of};
use crate::frame::{frame_at, frame_complete, frame_end, frames_from, is_whole_frame, le_u16_at};
use vstd::prelude::*;
use vstd::slice::{slice_subrange, slice_to_vec};

verus! {

/// First byte of every frame.
pub const MARKER: u8 = 0xAA;

/// Bytes in front of the body: marker, length and header checksum.
pub const HEADER_LEN: usize = 4;

/// Bytes of the body that precede the data: type, sequence number, command.
pub const BODY_PREFIX_LEN: usize = 3;

/// Bytes of the trailing checksum.
pub const CHECKSUM_LEN: usize = 4;

/// The shortest frame: one with no data.
pub const MIN_FRAME_LEN: usize = 11;

/// The most data one frame can carry, given its 16-bit length field.
pub const MAX_DATA_LEN: usize = 65528;

/// What kind of traffic a frame carries.
#[derive(Clone, Copy, Debug, PartialEq, Eq, Structural)]
pub enum PacketType {
    Command,
    CommandResponse,
    RealtimeData,
    RealtimeRawData,
    HistoricalData,
    Event,
    Metadata,
    ConsoleLogs,
    RealtimeImuDataStream,
    HistoricalImuDataStream,
}

/// The byte that stands for `kind` on the wire.
pub open spec fn packet_type_code(kind: PacketType) -> u8 {
    match kind {
        PacketType::Command => 35,
        PacketType::CommandResponse => 36,
        PacketType::RealtimeData => 40,
        PacketType::RealtimeRawData => 43,
        PacketType::HistoricalData => 47,
        PacketType::Event => 48,
        PacketType::Metadata => 49,
        PacketType::ConsoleLogs => 50,
        PacketType::RealtimeImuDataStream => 51,
        PacketType::HistoricalImuDataStream => 52,
    }
}

/// The packet type that `code` stands for, if it stands for one.
pub open spec fn packet_type_of(code: u8) -> Option<PacketType> {
    if code == 35 {
        Some(PacketType::Command)
    } else if code == 36 {
        Some(PacketType::CommandResponse)
    } else if code == 40 {
        Some(PacketType::RealtimeData)
    } else if code == 43 {
        Some(PacketType::RealtimeRawData)
    } else if code == 47 {
        Some(PacketType::HistoricalData)
    } else if code == 48 {
        Some(PacketType::Event)
    } else if code == 49 {
        Some(PacketType::Metadata)
    } else if code == 50 {
        Some(PacketType::ConsoleLogs)
    } else if code == 51 {
        Some(PacketType::RealtimeImuDataStream)
    } else if code == 52 {
        Some(PacketType::HistoricalImuDataStream)
    } else {
        None
    }
}

impl PacketType {
    /// The byte that stands for this type on the wire.
    pub fn as_u8(self) -> (code: u8)
        ensures
            code == packet_type_code(self),
    {
        match self {
            PacketType::Command => 35,
            PacketType::CommandResponse => 36,
            PacketType::RealtimeData => 40,
            PacketType::RealtimeRawData => 43,
            PacketType::HistoricalData => 47,
            PacketType::Event => 48,
            PacketType::Metadata => 49,
            PacketType::ConsoleLogs => 50,
            PacketType::RealtimeImuDataStream => 51,
            PacketType::HistoricalImuDataStream => 52,
        }
    }

    /// Reads a packet type from its wire byte; `None` for an unknown byte.
    pub fn from_u8(code: u8) -> (kind: Option<PacketType>)
        ensures
            kind == packet_type_of(code),
    {
        match code {
            35 => Some(PacketType::Command),
            36 => Some(PacketType::CommandResponse),
            40 => Some(PacketType::RealtimeData),
            43 => Some(PacketType::RealtimeRawData),
            47 => Some(PacketType::HistoricalData),
            48 => Some(PacketType::Event),
            49 => Some(PacketType::Metadata),
            50 => Some(PacketType::ConsoleLogs),
            51 => Some(PacketType::RealtimeImuDataStream),
            52 => Some(PacketType::HistoricalImuDataStream),
            _ => None,
        }
    }
}

/// Why a run of bytes is not a frame that can be opened.
#[derive(Clone, Copy, Debug, PartialEq, Eq, Structural)]
pub enum MalformedFrame {
    /// Fewer bytes than the shortest frame has.
    TooShort,
    /// The first byte is not the marker.
    BadMarker,
    /// The header checksum does not match the length field.
    BadHeaderChecksum,
    /// The length field disagrees with the number of bytes.
    LengthMismatch,
    /// The trailer does not match the body.
    BadTrailer,
    /// The packet type byte stands for no known type.
    UnknownType(u8),
}

/// The words for `reason`.
pub open spec fn reason_text(reason: MalformedFrame) -> Seq<char> {
    match reason {
        MalformedFrame::TooShort => "frame too short"@,
        MalformedFrame::BadMarker => "invalid start of frame"@,
        MalformedFrame::BadHeaderChecksum => "invalid header checksum"@,
        MalformedFrame::LengthMismatch => "invalid frame length"@,
        MalformedFrame::BadTrailer => "invalid data checksum"@,
        MalformedFrame::UnknownType(_) => "invalid packet type"@,
    }
}

impl MalformedFrame {
    /// A short description for a log line.
    pub fn describe(&self) -> (text: &'static str)
        ensures
            text@ == reason_text(*self),
    {
        match self {
            MalformedFrame::TooShort => "frame too short",
            MalformedFrame::BadMarker => "invalid start of frame",
            MalformedFrame::BadHeaderChecksum => "invalid header checksum",
            MalformedFrame::LengthMismatch => "invalid frame length",
            MalformedFrame::BadTrailer => "invalid data checksum",
            MalformedFrame::UnknownType(_) => "invalid packet type",
        }
    }
}

/// An opened frame.
#[derive(Debug)]
pub struct WhoopPacket {
    pub packet_type: PacketType,
    pub seq: u8,
    pub cmd: u8,
    pub data: Vec<u8>,
}

/// An opened frame as a mathematical value.
pub struct PacketView {
    pub packet_type: PacketType,
    pub seq: u8,
    pub cmd: u8,
    pub data: Seq<u8>,
}

impl View for WhoopPacket {
    type V = PacketView;

    open spec fn view(&self) -> PacketView {
        PacketView {
            packet_type: self.packet_type,
            seq: self.seq,
            cmd: self.cmd,
            data: self.data@,
        }
    }
}

/// The unsigned 32-bit number stored at `at`, low byte first.
pub open spec fn le_u32_at(buf: Seq<u8>, at: int) -> int
    recommends
        0 <= at,
        at + 4 <= buf.len(),
{
    buf[at] as int + 256 * (buf[at + 1] as int) + 65536 * (buf[at + 2] as int) + 16777216 * (
    buf[at + 3] as int)
}

/// The two bytes of `value`, low byte first.
pub open spec fn le_bytes_u16(value: int) -> Seq<u8>
    recommends
        0 <= value < 65536,
{
    seq![(value % 256) as u8, (value / 256) as u8]
}

/// The four bytes of `value`, low byte first.
pub open spec fn le_bytes_u32(value: int) -> Seq<u8>
    recommends
        0 <= value < 4294967296,
{
    seq![
        (value % 256) as u8,
        (value / 256 % 256) as u8,
        (value / 65536 % 256) as u8,
        (value / 16777216) as u8,
    ]
}

/// The part of a frame that the trailer guards.
pub open spec fn body_of(bytes: Seq<u8>) -> Seq<u8>
    recommends
        bytes.len() >= MIN_FRAME_LEN,
{
    bytes.subrange(HEADER_LEN as int, bytes.len() - CHECKSUM_LEN)
}

/// What opening `bytes` yields: the packet, or the first check that fails.
///
/// The checks are made in this order: size, marker, header checksum,
/// length, trailer, packet type.
pub open spec fn open_frame(bytes: Seq<u8>) -> Result<PacketView, MalformedFrame> {
    if bytes.len() < MIN_FRAME_LEN {
        Err(MalformedFrame::TooShort)
    } else if bytes[0] != MARKER {
        Err(MalformedFrame::BadMarker)
    } else if bytes[3] != crc8_of(bytes.subrange(1, 3)) {
        Err(MalformedFrame::BadHeaderChecksum)
    } else if le_u16_at(bytes, 1) + CHECKSUM_LEN != bytes.len() {
        Err(MalformedFrame::LengthMismatch)
    } else if le_u32_at(bytes, bytes.len() - CHECKSUM_LEN) != crc32_of(body_of(bytes)) {
        Err(MalformedFrame::BadTrailer)
    } else {
        match packet_type_of(bytes[4]) {
            None => Err(MalformedFrame::UnknownType(bytes[4])),
            Some(kind) => Ok(
                PacketView {
                    packet_type: kind,
                    seq: bytes[5],
                    cmd: bytes[6],
                    data: bytes.subrange(
                        (HEADER_LEN + BODY_PREFIX_LEN) as int,
                        bytes.len() - CHECKSUM_LEN,
                    ),
                },
            ),
        }
    }
}

/// The body of the frame that carries `packet`.
pub open spec fn packet_body(packet: PacketView) -> Seq<u8> {
    seq![packet_type_code(packet.packet_type), packet.seq, packet.cmd] + packet.data
}

/// The frame that carries `packet`.
pub open spec fn framed(packet: PacketView) -> Seq<u8>
    recommends
        packet.data.len() <= MAX_DATA_LEN,
{
    let body = packet_body(packet);
    let length = le_bytes_u16(body.len() + HEADER_LEN);
    seq![MARKER] + length + seq![crc8_of(length)] + body + le_bytes_u32(crc32_of(body) as int)
}

fn read_le_u32(buf: &[u8], at: usize) -> (value: u32)
    requires
        at + 4 <= buf@.len(),
    ensures
        value as int == le_u32_at(buf@, at as int),
{
    buf[at] as u32 + 256 * (buf[at + 1] as u32) + 65536 * (buf[at + 2] as u32) + 16777216 * (
    buf[at + 3] as u32)
}

impl WhoopPacket {
    /// Puts a packet together from its parts.
    pub fn new(packet_type: PacketType, seq: u8, cmd: u8, data: Vec<u8>) -> (packet: WhoopPacket)
        ensures
            packet@ == (PacketView { packet_type, seq, cmd, data: data@ }),
    {
        WhoopPacket { packet_type, seq, cmd, data }
    }

    /// Opens a frame: checks its marker, both checksums, its length and its
    /// type, and returns the packet inside.
    ///
    /// Succeeds exactly on the byte sequences on which [`open_frame`] does,
    /// and names the first failing check otherwise.
    pub fn from_data(bytes: &[u8]) -> (opened: Result<WhoopPacket, MalformedFrame>)
        ensures
            match opened {
                Ok(packet) => open_frame(bytes@) == Ok::<PacketView, MalformedFrame>(packet@),
                Err(reason) => open_frame(bytes@) == Err::<PacketView, MalformedFrame>(reason),
            },
    {
        let n = bytes.len();
        if n < MIN_FRAME_LEN {
            return Err(MalformedFrame::TooShort);
        }
        if bytes[0] != MARKER {
            return Err(MalformedFrame::BadMarker);
        }
        if bytes[3] != crc8(slice_subrange(bytes, 1, 3)) {
            return Err(MalformedFrame::BadHeaderChecksum);
        }
        let declared: usize = bytes[1] as usize + 256 * (bytes[2] as usize);
        if declared + CHECKSUM_LEN != n {
            return Err(MalformedFrame::LengthMismatch);
        }
        let body = slice_subrange(bytes, HEADER_LEN, n - CHECKSUM_LEN);
        if read_le_u32(bytes, n - CHECKSUM_LEN) != crc32(body) {
            return Err(MalformedFrame::BadTrailer);
        }
        match PacketType::from_u8(bytes[4]) {
            None => Err(MalformedFrame::UnknownType(bytes[4])),
            Some(kind) => {
                let data = slice_to_vec(
                    slice_subrange(bytes, HEADER_LEN + BODY_PREFIX_LEN, n - CHECKSUM_LEN),
                );
                Ok(WhoopPacket { packet_type: kind, seq: bytes[5], cmd: bytes[6], data })
            },
        }
    }

    /// Builds the frame that carries this packet, or returns `None` where
    /// the packet holds more data than the length field can count.
    pub fn try_framed_packet(&self) -> (frame: Option<Vec<u8>>)
        ensures
            match frame {
                Some(bytes) => self.data@.len() <= MAX_DATA_LEN && bytes@ == framed(self@),
                None => self.data@.len() > MAX_DATA_LEN,
            },
    {
        if self.data.len() <= MAX_DATA_LEN {
            Some(self.framed_packet())
        } else {
            None
        }
    }

    /// Builds the frame that carries this packet.
    pub fn framed_packet(&self) -> (frame: Vec<u8>)
        requires
            self.data@.len() <= MAX_DATA_LEN,
        ensures
            frame@ == framed(self@),
    {
        let mut body: Vec<u8> = Vec::new();
        body.push(self.packet_type.as_u8());
        body.push(self.seq);
        body.push(self.cmd);
        body.extend_from_slice(self.data.as_slice());
        assert(body@ =~= packet_body(self@));
        let length: usize = body.len() + HEADER_LEN;
        let mut frame: Vec<u8> = Vec::new();
        frame.push(MARKER);
        frame.push((length % 256) as u8);
        frame.push((length / 256) as u8);
        let header_sum = crc8(slice_subrange(frame.as_slice(), 1, 3));
        assert(frame@.subrange(1, 3) =~= le_bytes_u16(length as int));
        frame.push(header_sum);
        frame.extend_from_slice(body.as_slice());
        let sum: u32 = crc32(body.as_slice());
        frame.push((sum % 256) as u8);
        frame.push((sum / 256 % 256) as u8);
        frame.push((sum / 65536 % 256) as u8);
        frame.push((sum / 16777216) as u8);
        frame
    }
}

/// Reading back what was written low byte first gives the number written.
pub proof fn lemma_le_u16_round_trip(value: int)
    requires
        0 <= value < 65536,
    ensures
        le_bytes_u16(value).len() == 2,
        le_u16_at(le_bytes_u16(value), 0) == value,
{
}

/// Reading back what was written low byte first gives the number written.
pub proof fn lemma_le_u32_round_trip(value: int)
    requires
        0 <= value < 4294967296,
    ensures
        le_bytes_u32(value).len() == 4,
        le_u32_at(le_bytes_u32(value), 0) == value,
{
}

/// Building a frame and opening it again gives back the packet, and the
/// frame codec cuts the built frame out of a stream byte for byte, whatever
/// follows it.
pub proof fn lemma_frame_round_trip(packet: PacketView, following: Seq<u8>)
    requires
        packet.data.len() <= MAX_DATA_LEN,
    ensures
        open_frame(framed(packet)) == Ok::<PacketView, MalformedFrame>(packet),
        is_whole_frame(framed(packet)),
        frame_complete(framed(packet) + following, 0),
        frame_at(framed(packet) + following, 0) == framed(packet),
        frame_end(framed(packet) + following, 0) == framed(packet).len(),
{
    let body = packet_body(packet);
    let declared = body.len() + HEADER_LEN;
    let length = le_bytes_u16(declared as int);
    let sum = crc32_of(body) as int;
    let frame = framed(packet);
    lemma_le_u16_round_trip(declared as int);
    lemma_le_u32_round_trip(sum);
    assert(frame.subrange(1, 3) =~= length);
    assert(body_of(frame) =~= body);
    assert(packet_type_of(packet_type_code(packet.packet_type)) == Some(packet.packet_type));
    assert(frame.subrange((HEADER_LEN + BODY_PREFIX_LEN) as int, frame.len() - CHECKSUM_LEN)
        =~= packet.data);
}

/// A stream that holds one built frame and nothing else yields that frame.
pub proof fn lemma_single_frame_stream(packet: PacketView)
    requires
        packet.data.len() <= MAX_DATA_LEN,
    ensures
        frames_from(framed(packet), 0) == seq![framed(packet)],
{
    let frame = framed(packet);
    lemma_frame_round_trip(packet, Seq::empty());
    assert(frames_from(frame, frame.len() as int) =~= Seq::<Seq<u8>>::empty());
}

} // verus!
