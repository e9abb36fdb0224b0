//! The host agent's decisions: the request it announces itself with, when
//! the guest has answered, and what a read on the accepted stream leads to.

use vstd::prelude::*;
use crate::guest_agent::{ReadOutcome, ReadOutcomeView};
use crate::vsock_protocol::{
    decode, Packet, PacketView, VirtioVsockHdr, VSOCK_OP_REQUEST, VSOCK_OP_RESPONSE,
    VSOCK_TYPE_STREAM,
};

verus! {

/// Bytes read from the stream at a time.
pub const BUFFER_SIZE: usize = 4096;

/// Seconds between two tries of the handshake.
pub const RETRY_SECS: u64 = 5;

/// The REQUEST of a host on `host_cid` and `host_port`: source and
/// destination are the host itself.
pub open spec fn handshake_packet(host_cid: u32, host_port: u32) -> PacketView {
    PacketView {
        hdr: VirtioVsockHdr {
            src_cid: host_cid,
            dst_cid: host_cid,
            src_port: host_port,
            dst_port: host_port,
            len: 0,
            type_: VSOCK_TYPE_STREAM,
            op: VSOCK_OP_REQUEST,
            flags: 0,
            buf_alloc: 0,
            fwd_cnt: 0,
        },
        payload: Seq::<u8>::empty(),
    }
}

/// Whether `bytes` answer the handshake: they hold a packet, and it is a
/// RESPONSE.
pub open spec fn answers_handshake(bytes: Seq<u8>) -> bool {
    bytes.len() > 0 && decode(bytes) is Ok && decode(bytes).unwrap().hdr.op == VSOCK_OP_RESPONSE
}

/// What follows a read on the accepted stream.
pub enum HostStep {
    /// Write these bytes back, then read on.
    Echo(Vec<u8>),
    /// Stop reading and shut the stream down.
    Stop,
}

/// A host step as plain values.
pub enum HostStepView {
    Echo(Seq<u8>),
    Stop,
}

impl View for HostStep {
    type V = HostStepView;

    open spec fn view(&self) -> HostStepView {
        match self {
            HostStep::Echo(bytes) => HostStepView::Echo(bytes@),
            HostStep::Stop => HostStepView::Stop,
        }
    }
}

/// The packet that the host agent sends until the guest answers.
pub fn handshake_request(host_cid: u32, host_port: u32) -> (packet: Packet)
    ensures
        packet@ == handshake_packet(host_cid, host_port),
        packet@.wf(),
{
    let hdr = VirtioVsockHdr {
        src_cid: host_cid,
        dst_cid: host_cid,
        src_port: host_port,
        dst_port: host_port,
        len: 0,
        type_: VSOCK_TYPE_STREAM,
        op: VSOCK_OP_REQUEST,
        flags: 0,
        buf_alloc: 0,
        fwd_cnt: 0,
    };
    let packet = Packet::new(hdr, Vec::new());
    assert(packet@.payload =~= Seq::<u8>::empty());
    packet
}

/// Whether the guest has answered the handshake with `response_bytes`.
pub fn is_handshake_response(response_bytes: &[u8]) -> (answered: bool)
    ensures
        answered == answers_handshake(response_bytes@),
{
    if response_bytes.len() == 0 {
        return false;
    }
    match Packet::from_bytes(response_bytes) {
        Ok(packet) => packet.hdr().op == VSOCK_OP_RESPONSE,
        Err(_) => false,
    }
}

/// Decides what follows a read on the accepted stream: bytes are echoed,
/// and anything else ends the session.
pub fn handle_host_stream(outcome: ReadOutcome) -> (step: HostStep)
    ensures
        step@ == match outcome@ {
            ReadOutcomeView::Data(bytes) => HostStepView::Echo(bytes),
            _ => HostStepView::Stop,
        },
{
    match outcome {
        ReadOutcome::Data(bytes) => HostStep::Echo(bytes),
        _ => HostStep::Stop,
    }
}

} // verus!
