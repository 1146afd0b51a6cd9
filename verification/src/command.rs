//! The commands that the session writes to the device, and the metadata
//! frames by which the device marks the course of a history transfer.

use crate::packet::{open_frame, PacketType, PacketView, WhoopPacket, MAX_DATA_LEN};
use vstd::prelude::*;

verus! {

/// The service by which the device is known, as a 128-bit UUID.
pub const WHOOP_SERVICE: u128 = 0x61080001_8d6d_82b8_614a_1c8cb0f8dcc6;

/// The characteristic to which commands are written.
pub const CMD_TO_STRAP: u128 = 0x61080002_8d6d_82b8_614a_1c8cb0f8dcc6;

/// The characteristic that notifies of answers to commands.
pub const CMD_FROM_STRAP: u128 = 0x61080003_8d6d_82b8_614a_1c8cb0f8dcc6;

/// The characteristic that notifies of telemetry frames.
pub const DATA_FROM_STRAP: u128 = 0x61080005_8d6d_82b8_614a_1c8cb0f8dcc6;

/// Seconds without a notification after which a history transfer is given
/// up.
pub const SYNC_TIMEOUT_SECS: u64 = 10;

/// Command: start sending the stored history.
pub const CMD_SEND_HISTORICAL_DATA: u8 = 22;

/// Command: greeting that opens a session.
pub const CMD_GET_HELLO_HARVARD: u8 = 35;

/// Command: enter the fast streaming mode used for bulk transfer.
pub const CMD_ENTER_HIGH_FREQ_SYNC: u8 = 96;

/// Command: leave the fast streaming mode.
pub const CMD_EXIT_HIGH_FREQ_SYNC: u8 = 97;

/// Metadata: a batch of history begins.
pub const META_HISTORY_START: u8 = 1;

/// Metadata: a batch of history ends.
pub const META_HISTORY_END: u8 = 2;

/// Metadata: the whole history has been sent.
pub const META_HISTORY_COMPLETE: u8 = 3;

/// The command packet with number `cmd` and data `data`.
pub open spec fn command(cmd: u8, data: Seq<u8>) -> PacketView {
    PacketView { packet_type: PacketType::Command, seq: 0, cmd, data }
}

/// Whether `bytes` is the frame by which the device says that the history
/// transfer is complete.
pub open spec fn is_terminal_frame(bytes: Seq<u8>) -> bool {
    match open_frame(bytes) {
        Ok(packet) => packet.packet_type == PacketType::Metadata && packet.cmd
            == META_HISTORY_COMPLETE,
        Err(_) => false,
    }
}

impl WhoopPacket {
    /// The greeting that the handshake begins with.
    pub fn hello_harvard() -> (packet: WhoopPacket)
        ensures
            packet@ == command(CMD_GET_HELLO_HARVARD, seq![0u8]),
            packet.data@.len() <= MAX_DATA_LEN,
    {
        let mut data: Vec<u8> = Vec::new();
        data.push(0);
        WhoopPacket::new(PacketType::Command, 0, CMD_GET_HELLO_HARVARD, data)
    }

    /// Asks the device to enter the fast streaming mode.
    pub fn enter_high_freq_sync() -> (packet: WhoopPacket)
        ensures
            packet@ == command(CMD_ENTER_HIGH_FREQ_SYNC, Seq::empty()),
            packet.data@.len() <= MAX_DATA_LEN,
    {
        WhoopPacket::new(PacketType::Command, 0, CMD_ENTER_HIGH_FREQ_SYNC, Vec::new())
    }

    /// Asks the device to leave the fast streaming mode.
    pub fn exit_high_freq_sync() -> (packet: WhoopPacket)
        ensures
            packet@ == command(CMD_EXIT_HIGH_FREQ_SYNC, Seq::empty()),
            packet.data@.len() <= MAX_DATA_LEN,
    {
        WhoopPacket::new(PacketType::Command, 0, CMD_EXIT_HIGH_FREQ_SYNC, Vec::new())
    }

    /// Asks the device to send its stored history.
    pub fn history_start() -> (packet: WhoopPacket)
        ensures
            packet@ == command(CMD_SEND_HISTORICAL_DATA, seq![0u8]),
            packet.data@.len() <= MAX_DATA_LEN,
    {
        let mut data: Vec<u8> = Vec::new();
        data.push(0);
        WhoopPacket::new(PacketType::Command, 0, CMD_SEND_HISTORICAL_DATA, data)
    }

    /// Whether this packet says that the history transfer is complete.
    pub fn is_history_complete(&self) -> (complete: bool)
        ensures
            complete == (self.packet_type == PacketType::Metadata && self.cmd
                == META_HISTORY_COMPLETE),
    {
        match self.packet_type {
            PacketType::Metadata => self.cmd == META_HISTORY_COMPLETE,
            _ => false,
        }
    }
}

/// The commands of the handshake, in the order in which they are written.
pub fn handshake_commands() -> (commands: Vec<WhoopPacket>)
    ensures
        commands@.len() == 2,
        commands@[0]@ == command(CMD_GET_HELLO_HARVARD, seq![0u8]),
        commands@[1]@ == command(CMD_ENTER_HIGH_FREQ_SYNC, Seq::empty()),
        forall|i: int| 0 <= i < commands@.len() ==> (#[trigger] commands@[i]).data@.len() <= MAX_DATA_LEN,
{
    let mut commands: Vec<WhoopPacket> = Vec::new();
    commands.push(WhoopPacket::hello_harvard());
    commands.push(WhoopPacket::enter_high_freq_sync());
    commands
}

} // verus!
