use vstd::prelude::*;

verus! {

/// The directed relay path that a packet worker serves: the channel end on the
/// source chain, and the chain, channel and application lane it leads to.
/// It is fixed for the worker's lifetime and names the worker.
#[derive(Clone, Debug, PartialEq, Eq)]
pub struct Packet {
    pub dst_chain_id: String,
    pub dst_channel_id: String,
    pub dst_port_id: String,
    pub src_chain_id: String,
    pub src_channel_id: String,
    pub src_port_id: String,
}

} // verus!
