use vstd::prelude::*;
use crate::event::IbcEvent;
use crate::link::RelaySummary;
use crate::object::Packet;

verus! {

/// The three counters that a worker reports after an execution pass.
#[derive(Clone, Copy, Debug, PartialEq, Eq, Structural)]
pub enum Counter {
    /// Packets received: one for each acknowledgement written.
    ReceivePackets,
    /// Acknowledgements taken.
    AcknowledgmentPackets,
    /// Timeouts taken.
    TimeoutPackets,
}

/// Whether an event adds to a counter.
pub open spec fn counts_for(ev: IbcEvent, counter: Counter) -> bool {
    match counter {
        Counter::ReceivePackets => ev is WriteAcknowledgement,
        Counter::AcknowledgmentPackets => ev is AcknowledgePacket,
        Counter::TimeoutPackets => ev is TimeoutPacket,
    }
}

/// How many of the first `n` events add to a counter.
pub open spec fn tally(events: Seq<IbcEvent>, n: nat, counter: Counter) -> nat
    decreases n,
{
    if n == 0 {
        0
    } else {
        tally(events, (n - 1) as nat, counter) + if counts_for(events[n - 1], counter) {
            1nat
        } else {
            0nat
        }
    }
}

/// The counters of one execution pass, keyed by the source end of the path.
#[derive(Clone, Debug, PartialEq, Eq)]
pub struct PacketMetrics {
    pub src_chain_id: String,
    pub src_channel_id: String,
    pub src_port_id: String,
    pub receive_packets: u64,
    pub acknowledgment_packets: u64,
    pub timeout_packets: u64,
}

pub fn adds_to(ev: &IbcEvent, counter: Counter) -> (r: bool)
    ensures
        r == counts_for(*ev, counter),
{
    match counter {
        Counter::ReceivePackets => matches!(ev, IbcEvent::WriteAcknowledgement(_)),
        Counter::AcknowledgmentPackets => matches!(ev, IbcEvent::AcknowledgePacket(_)),
        Counter::TimeoutPackets => matches!(ev, IbcEvent::TimeoutPacket(_)),
    }
}

/// Counts the events of a summary that add to a counter.
pub fn count_events(summary: &RelaySummary, counter: Counter) -> (count: u64)
    ensures
        count == tally(summary.events@, summary.events@.len(), counter),
{
    let mut count: u64 = 0;
    let mut i: usize = 0;
    while i < summary.events.len()
        invariant
            0 <= i <= summary.events@.len(),
            count == tally(summary.events@, i as nat, counter),
            count <= i,
        decreases summary.events@.len() - i,
    {
        if adds_to(&summary.events[i], counter) {
            count += 1;
        }
        i += 1;
    }
    count
}

/// The number of packets received, by the acknowledgements written.
pub fn receive_packet_metrics(summary: &RelaySummary) -> (count: u64)
    ensures
        count == tally(summary.events@, summary.events@.len(), Counter::ReceivePackets),
{
    count_events(summary, Counter::ReceivePackets)
}

/// The number of acknowledgements taken.
pub fn acknowledgment_metrics(summary: &RelaySummary) -> (count: u64)
    ensures
        count == tally(summary.events@, summary.events@.len(), Counter::AcknowledgmentPackets),
{
    count_events(summary, Counter::AcknowledgmentPackets)
}

/// The number of timeouts taken.
pub fn timeout_metrics(summary: &RelaySummary) -> (count: u64)
    ensures
        count == tally(summary.events@, summary.events@.len(), Counter::TimeoutPackets),
{
    count_events(summary, Counter::TimeoutPackets)
}

/// The counters of a pass that produced `summary` on `path`.
pub fn packet_metrics(path: &Packet, summary: &RelaySummary) -> (m: PacketMetrics)
    ensures
        m.src_chain_id@ == path.src_chain_id@,
        m.src_channel_id@ == path.src_channel_id@,
        m.src_port_id@ == path.src_port_id@,
        m.receive_packets == tally(
            summary.events@,
            summary.events@.len(),
            Counter::ReceivePackets,
        ),
        m.acknowledgment_packets == tally(
            summary.events@,
            summary.events@.len(),
            Counter::AcknowledgmentPackets,
        ),
        m.timeout_packets == tally(
            summary.events@,
            summary.events@.len(),
            Counter::TimeoutPackets,
        ),
{
    PacketMetrics {
        src_chain_id: path.src_chain_id.clone(),
        src_channel_id: path.src_channel_id.clone(),
        src_port_id: path.src_port_id.clone(),
        receive_packets: receive_packet_metrics(summary),
        acknowledgment_packets: acknowledgment_metrics(summary),
        timeout_packets: timeout_metrics(summary),
    }
}

} // verus!
