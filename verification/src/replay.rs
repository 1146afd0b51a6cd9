//! Replay: regenerating the records from the packets that were stored.
//!
//! Every raw frame is stored before it is decoded, so the decoded state can
//! be rebuilt at any time from the stored packets alone. The bytes of a
//! packet are decoded as if they had just been received.

use crate::ingest::{decode_stream, decoded_stream, ingested, record_views, records_in};
use crate::record::{RecordView, TelemetryRecord};
use vstd::prelude::*;

verus! {

/// A packet as the store holds it.
#[derive(Debug)]
pub struct PersistedPacket {
    /// Identifier given by the store; it grows with every insertion.
    pub id: i32,
    /// Identifier of the characteristic that delivered the bytes.
    pub uuid: u128,
    /// The raw bytes exactly as they were received.
    pub bytes: Vec<u8>,
}

/// A stored packet as a mathematical value.
pub struct StoredView {
    pub id: i32,
    pub uuid: u128,
    pub bytes: Seq<u8>,
}

impl View for PersistedPacket {
    type V = StoredView;

    open spec fn view(&self) -> StoredView {
        StoredView { id: self.id, uuid: self.uuid, bytes: self.bytes@ }
    }
}

/// The views of a run of stored packets.
pub open spec fn stored_views(packets: Seq<PersistedPacket>) -> Seq<StoredView> {
    packets.map_values(|p: PersistedPacket| p@)
}

/// The records that replaying `packets` in order regenerates.
pub open spec fn replayed(packets: Seq<StoredView>) -> Seq<RecordView>
    decreases packets.len(),
{
    if packets.len() == 0 {
        Seq::empty()
    } else {
        replayed(packets.drop_last()) + decoded_stream(packets.last().bytes)
    }
}

/// Where the replay stands after `packets`: at the identifier of the last
/// of them, or where it stood if there are none.
pub open spec fn replayed_up_to(last_packet_id: i32, packets: Seq<StoredView>) -> i32 {
    if packets.len() == 0 {
        last_packet_id
    } else {
        packets.last().id
    }
}

/// What one page of stored packets came to.
#[derive(Debug)]
pub struct ReplayPage {
    /// The records regenerated from the page, in packet order.
    pub records: Vec<TelemetryRecord>,
    /// Identifier of the last packet replayed so far.
    pub last_packet_id: i32,
    /// Whether the page was empty, which ends the replay.
    pub finished: bool,
}

/// Replays one page of stored packets.
///
/// The packets are taken in the order given, which is the order of
/// insertion. An empty page ends the replay and leaves the position where
/// it was; otherwise the position moves to the last packet of the page.
pub fn replay_page(last_packet_id: i32, packets: &[PersistedPacket]) -> (page: ReplayPage)
    ensures
        record_views(page.records@) == replayed(stored_views(packets@)),
        page.last_packet_id == replayed_up_to(last_packet_id, stored_views(packets@)),
        page.finished == (packets@.len() == 0),
{
    let mut records: Vec<TelemetryRecord> = Vec::new();
    let mut last = last_packet_id;
    let mut i: usize = 0;
    while i < packets.len()
        invariant
            i <= packets@.len(),
            record_views(records@) == replayed(stored_views(packets@).take(i as int)),
            last == replayed_up_to(last_packet_id, stored_views(packets@).take(i as int)),
        decreases packets@.len() - i,
    {
        proof {
            let views = stored_views(packets@);
            assert(views.take(i + 1).drop_last() =~= views.take(i as int));
        }
        last = packets[i].id;
        let mut decoded = decode_stream(packets[i].bytes.as_slice());
        records.append(&mut decoded);
        i += 1;
    }
    proof {
        assert(stored_views(packets@).take(i as int) =~= stored_views(packets@));
    }
    ReplayPage { records, last_packet_id: last, finished: packets.len() == 0 }
}

/// Replaying two pages one after the other regenerates what replaying them
/// as one page does.
pub proof fn lemma_replay_pages(first: Seq<StoredView>, second: Seq<StoredView>)
    ensures
        replayed(first + second) == replayed(first) + replayed(second),
    decreases second.len(),
{
    if second.len() > 0 {
        let whole = first + second;
        assert(whole.drop_last() =~= first + second.drop_last());
        lemma_replay_pages(first, second.drop_last());
    }
}

/// Storing a blob of bytes as one packet and replaying it regenerates the
/// very records that batch ingestion of the blob yields, in the same order.
pub proof fn lemma_replay_matches_ingestion(packet: StoredView)
    ensures
        replayed(seq![packet]) == decoded_stream(packet.bytes),
        replayed(seq![packet]) == records_in(ingested(packet.bytes)),
{
    let one = seq![packet];
    assert(replayed(one.drop_last()) =~= Seq::<RecordView>::empty());
}

} // verus!
