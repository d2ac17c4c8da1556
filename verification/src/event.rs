use vstd::prelude::*;
use crate::height::Height;

verus! {

/// What a packet event says of its packet: the sequence number on the channel
/// and the destination height at which the packet times out.
#[derive(Clone, Copy, Debug, PartialEq, Eq, Structural)]
pub struct PacketInfo {
    pub sequence: u64,
    pub timeout_height: Height,
}

/// A chain event, as far as the packet worker tells events apart.
#[derive(Clone, Copy, Debug, PartialEq, Eq, Structural)]
pub enum IbcEvent {
    /// The source application committed a packet.
    SendPacket(PacketInfo),
    /// The receiving chain took a packet and wrote its acknowledgement.
    WriteAcknowledgement(PacketInfo),
    /// The sending chain took an acknowledgement.
    AcknowledgePacket(PacketInfo),
    /// The sending chain took a timeout.
    TimeoutPacket(PacketInfo),
    /// Any event that concerns no packet.
    Other,
}

/// The events that one block of the source chain emitted.
#[derive(Clone, Debug, PartialEq, Eq)]
pub struct EventBatch {
    pub height: Height,
    pub events: Vec<IbcEvent>,
}

/// The notice that the source chain made a block.
#[derive(Clone, Copy, Debug, PartialEq, Eq, Structural)]
pub struct NewBlockEvent {
    pub height: Height,
}

/// A command in the worker's inbox.
#[derive(Clone, Debug, PartialEq, Eq)]
pub enum WorkerCmd {
    /// A batch of events to schedule from.
    IbcEvents { batch: EventBatch },
    /// The source chain advanced to `height`.
    NewBlock { height: Height, new_block: NewBlockEvent },
    /// Reconcile with the chains now.
    ClearPendingPackets,
}

} // verus!
