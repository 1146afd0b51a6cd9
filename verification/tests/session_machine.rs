use openwhoop::packet::{PacketType, WhoopPacket};
use openwhoop::session::{
    DeviceSession, SessionAction, SessionEvent, SessionFailure, SessionState,
    RECONNECT_BACKOFF_SECS,
};
use openwhoop::stream::FrameStream;
use openwhoop::sync::{is_terminal, on_notification};

fn history_frame(unix: u32) -> Vec<u8> {
    let mut data = vec![0u8; 24];
    data[4..8].copy_from_slice(&unix.to_le_bytes());
    data[11] = 60;
    WhoopPacket::new(PacketType::HistoricalData, 0, 0, data).framed_packet()
}

fn session_at_sync() -> DeviceSession {
    let mut session = DeviceSession::new();
    assert_eq!(session.step(SessionEvent::Start), SessionAction::Connect);
    assert_eq!(session.step(SessionEvent::ConnectSucceeded), SessionAction::Initialize);
    assert_eq!(session.step(SessionEvent::InitializeSucceeded), SessionAction::SyncHistory);
    session
}

#[test]
fn new_session_is_disconnected() {
    let session = DeviceSession::new();
    assert_eq!(session.state(), SessionState::Disconnected);
    assert!(!session.is_connected());
    assert!(!session.is_over());
}

#[test]
fn straight_run_of_a_download() {
    let mut session = DeviceSession::new();
    assert_eq!(session.step(SessionEvent::Start), SessionAction::Connect);
    assert_eq!(session.state(), SessionState::Connecting);
    assert_eq!(session.step(SessionEvent::ConnectSucceeded), SessionAction::Initialize);
    assert_eq!(session.state(), SessionState::Initializing);
    assert!(session.is_connected());
    assert_eq!(session.step(SessionEvent::InitializeSucceeded), SessionAction::SyncHistory);
    assert_eq!(session.state(), SessionState::SyncingHistory);
    assert_eq!(session.step(SessionEvent::SyncCompleted), SessionAction::CheckConnectivity);
    assert_eq!(session.state(), SessionState::Idle);
    assert_eq!(session.step(SessionEvent::Connectivity(true)), SessionAction::SendExit);
    assert_eq!(session.state(), SessionState::Exiting);
    assert_eq!(session.step(SessionEvent::WriteSucceeded), SessionAction::Finish);
    assert_eq!(session.state(), SessionState::Finished);
    assert!(session.is_over());
}

#[test]
fn failed_connect_ends_the_session() {
    let mut session = DeviceSession::new();
    session.step(SessionEvent::Start);
    assert_eq!(
        session.step(SessionEvent::ConnectFailed),
        SessionAction::Fail(SessionFailure::Connect)
    );
    assert_eq!(session.state(), SessionState::Failed);
    assert!(!session.is_connected());
    assert!(session.is_over());
}

#[test]
fn failed_handshake_ends_the_session() {
    let mut session = DeviceSession::new();
    session.step(SessionEvent::Start);
    session.step(SessionEvent::ConnectSucceeded);
    assert_eq!(
        session.step(SessionEvent::InitializeFailed),
        SessionAction::Fail(SessionFailure::Initialize)
    );
    assert_eq!(session.state(), SessionState::Failed);
}

#[test]
fn failed_or_timed_out_sync_still_leads_to_exit() {
    for end in [SessionEvent::SyncFailed, SessionEvent::SyncTimedOut, SessionEvent::SyncCompleted] {
        let mut session = session_at_sync();
        assert_eq!(session.step(end), SessionAction::CheckConnectivity);
        assert_eq!(session.state(), SessionState::Idle);
        assert_eq!(session.step(SessionEvent::Connectivity(true)), SessionAction::SendExit);
        assert_eq!(session.step(SessionEvent::WriteSucceeded), SessionAction::Finish);
    }
}

#[test]
fn reconnect_loop_runs_without_a_cap() {
    let mut session = session_at_sync();
    session.step(SessionEvent::SyncFailed);
    for _ in 0..1000 {
        assert_eq!(session.step(SessionEvent::Connectivity(false)), SessionAction::Connect);
        assert_eq!(session.state(), SessionState::Reconnecting);
        assert!(!session.is_connected());
        assert_eq!(
            session.step(SessionEvent::ConnectSucceeded),
            SessionAction::Backoff(RECONNECT_BACKOFF_SECS)
        );
        assert_eq!(session.state(), SessionState::BackingOff);
        assert_eq!(session.step(SessionEvent::BackoffElapsed), SessionAction::CheckConnectivity);
        assert_eq!(session.state(), SessionState::Idle);
    }
    assert_eq!(session.step(SessionEvent::Connectivity(true)), SessionAction::SendExit);
    assert!(session.is_connected());
}

#[test]
fn backoff_is_one_second() {
    assert_eq!(RECONNECT_BACKOFF_SECS, 1);
}

#[test]
fn failed_reconnect_is_tried_again() {
    let mut session = session_at_sync();
    session.step(SessionEvent::SyncCompleted);
    for _ in 0..50 {
        assert_eq!(session.step(SessionEvent::Connectivity(false)), SessionAction::Connect);
        assert_eq!(
            session.step(SessionEvent::ConnectFailed),
            SessionAction::Backoff(RECONNECT_BACKOFF_SECS)
        );
        assert!(!session.is_connected());
        assert_eq!(session.step(SessionEvent::BackoffElapsed), SessionAction::CheckConnectivity);
        assert!(!session.is_over());
    }
    assert_eq!(session.step(SessionEvent::Connectivity(true)), SessionAction::SendExit);
}

#[test]
fn failed_exit_write_is_tried_again() {
    let mut session = session_at_sync();
    session.step(SessionEvent::SyncCompleted);
    for _ in 0..50 {
        assert_eq!(session.step(SessionEvent::Connectivity(true)), SessionAction::SendExit);
        assert_eq!(session.step(SessionEvent::WriteFailed), SessionAction::CheckConnectivity);
        assert_eq!(session.state(), SessionState::Idle);
    }
    session.step(SessionEvent::Connectivity(true));
    assert_eq!(session.step(SessionEvent::WriteSucceeded), SessionAction::Finish);
    assert_eq!(session.state(), SessionState::Finished);
}

#[test]
fn events_out_of_place_are_ignored() {
    let mut session = DeviceSession::new();
    for event in [
        SessionEvent::ConnectSucceeded,
        SessionEvent::InitializeSucceeded,
        SessionEvent::SyncCompleted,
        SessionEvent::Connectivity(true),
        SessionEvent::BackoffElapsed,
        SessionEvent::WriteSucceeded,
    ] {
        assert_eq!(session.step(event), SessionAction::Ignore);
        assert_eq!(session.state(), SessionState::Disconnected);
    }
    let mut session = session_at_sync();
    assert_eq!(session.step(SessionEvent::Start), SessionAction::Ignore);
    assert_eq!(session.step(SessionEvent::Connectivity(true)), SessionAction::Ignore);
    assert_eq!(session.step(SessionEvent::WriteSucceeded), SessionAction::Ignore);
    assert_eq!(session.state(), SessionState::SyncingHistory);
}

#[test]
fn a_session_that_is_over_stays_over() {
    let mut session = session_at_sync();
    session.step(SessionEvent::SyncCompleted);
    session.step(SessionEvent::Connectivity(true));
    session.step(SessionEvent::WriteSucceeded);
    for event in [SessionEvent::Start, SessionEvent::ConnectSucceeded, SessionEvent::WriteFailed] {
        assert_eq!(session.step(event), SessionAction::Ignore);
        assert_eq!(session.state(), SessionState::Finished);
    }
}

#[test]
fn notification_with_whole_frames() {
    let mut stream = FrameStream::new();
    let mut chunk = history_frame(1);
    chunk.extend_from_slice(&history_frame(2));
    let batch = on_notification(&mut stream, &chunk);
    assert_eq!(batch.frames.len(), 2);
    assert_eq!(batch.frames[0].bytes, history_frame(1));
    assert_eq!(batch.records.len(), 2);
    assert_eq!(batch.records[1].timestamp, 2);
    assert_eq!(batch.skipped, 0);
    assert!(!batch.complete);
    assert_eq!(stream.pending_len(), 0);
}

#[test]
fn notifications_that_split_a_frame() {
    let frame = history_frame(77);
    let mut stream = FrameStream::new();
    let first = on_notification(&mut stream, &frame[..20]);
    assert!(first.frames.is_empty() && first.records.is_empty() && !first.complete);
    assert_eq!(stream.pending_len(), 20);
    let second = on_notification(&mut stream, &frame[20..]);
    assert_eq!(second.frames.len(), 1);
    assert_eq!(second.records.len(), 1);
    assert_eq!(second.records[0].timestamp, 77);
}

#[test]
fn malformed_frame_does_not_stop_the_transfer() {
    let mut bad = history_frame(5);
    bad[10] ^= 0x40;
    let mut chunk = bad.clone();
    chunk.extend_from_slice(&history_frame(6));
    let mut stream = FrameStream::new();
    let batch = on_notification(&mut stream, &chunk);
    assert_eq!(batch.frames.len(), 2);
    assert_eq!(batch.frames[0].bytes, bad);
    assert_eq!(batch.skipped, 1);
    assert_eq!(batch.records.len(), 1);
    assert_eq!(batch.records[0].timestamp, 6);
    assert!(!batch.complete);
}

#[test]
fn terminal_frame_completes_the_transfer() {
    let done = WhoopPacket::new(PacketType::Metadata, 0, 3, vec![1, 2, 3]).framed_packet();
    let batch_end = WhoopPacket::new(PacketType::Metadata, 0, 2, vec![1, 2, 3]).framed_packet();
    assert!(is_terminal(&done));
    assert!(!is_terminal(&batch_end));
    assert!(!is_terminal(&history_frame(1)));
    assert!(!is_terminal(&done[..done.len() - 1]));
    let mut stream = FrameStream::new();
    let mut chunk = history_frame(1);
    chunk.extend_from_slice(&batch_end);
    assert!(!on_notification(&mut stream, &chunk).complete);
    let mut chunk = history_frame(2);
    chunk.extend_from_slice(&done);
    chunk.extend_from_slice(&history_frame(3));
    let batch = on_notification(&mut stream, &chunk);
    assert!(batch.complete);
    assert_eq!(batch.frames.len(), 3);
    assert_eq!(batch.records.len(), 2);
}

#[test]
fn chunked_transfer_yields_what_the_whole_yields() {
    let mut whole: Vec<u8> = Vec::new();
    for t in 0..6 {
        whole.extend_from_slice(&history_frame(t));
    }
    let expected: Vec<u32> =
        openwhoop::ingest::decode_stream(&whole).iter().map(|r| r.timestamp).collect();
    assert_eq!(expected, vec![0, 1, 2, 3, 4, 5]);
    for size in [1usize, 7, 35, 36, 100, 1000] {
        let mut stream = FrameStream::new();
        let mut seen: Vec<u32> = Vec::new();
        for chunk in whole.chunks(size) {
            seen.extend(on_notification(&mut stream, chunk).records.iter().map(|r| r.timestamp));
        }
        assert_eq!(seen, expected, "chunks of {}", size);
    }
}
