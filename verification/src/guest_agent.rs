//! The guest agent's decisions: which vsock connections stand, what a packet
//! from the CMIO channel asks for, and what a read on a connection's stream
//! leads to. The streams themselves, and the channel, are the caller's.

use vstd::prelude::*;
use std::collections::HashMap;
use crate::vsock_protocol::{
    create_reply_header, decode, encode, reply_header, Packet, PacketView, ProtocolError,
    VirtioVsockHdr, VSOCK_OP_REQUEST, VSOCK_OP_RESPONSE, VSOCK_OP_RST, VSOCK_OP_RW,
    VSOCK_OP_SHUTDOWN,
};

verus! {

broadcast use vstd::std_specs::hash::group_hash_axioms;

/// The CMIO domain of all vsock traffic.
pub const CMIO_QUEUE_ID: u16 = 1;

/// Bytes read from a stream at a time.
pub const RW_BUF_SIZE: usize = 4096;

/// Seconds between two rounds of polling.
pub const LOOP_SLEEP_SECS: u64 = 5;

/// Who opened a connection: the cid and port a packet comes from.
#[derive(PartialEq, Eq, Hash, Clone, Copy, Debug, Structural)]
pub struct ConnectionKey {
    pub cid: u32,
    pub port: u32,
}

impl ConnectionKey {
    /// The key as one number: the cid in the upper 32 bits, the port in the
    /// lower ones.
    pub open spec fn index(self) -> u64 {
        (self.cid as int * 0x1_0000_0000 + self.port as int) as u64
    }

    /// The key of the sender of a packet with header `hdr`.
    pub open spec fn of(hdr: VirtioVsockHdr) -> ConnectionKey {
        ConnectionKey { cid: hdr.src_cid, port: hdr.src_port }
    }

    /// The key of the sender of a packet with header `hdr`.
    pub fn from(hdr: &VirtioVsockHdr) -> (key: Self)
        ensures
            key == ConnectionKey::of(*hdr),
    {
        Self { cid: hdr.src_cid, port: hdr.src_port }
    }

    /// The key as one number.
    pub fn to_index(&self) -> (index: u64)
        ensures
            index == self.index(),
    {
        self.cid as u64 * 0x1_0000_0000 + self.port as u64
    }
}

/// Different keys have different numbers.
pub proof fn lemma_index_injective(a: ConnectionKey, b: ConnectionKey)
    ensures
        a.index() == b.index() <==> a == b,
{
}

/// What a read on a connection's stream gave.
pub enum ReadOutcome {
    /// The peer closed the stream (a read of no bytes).
    Closed,
    /// These bytes arrived.
    Data(Vec<u8>),
    /// Nothing to read for now.
    WouldBlock,
    /// The read failed.
    Failed,
}

/// A read outcome as plain values.
pub enum ReadOutcomeView {
    Closed,
    Data(Seq<u8>),
    WouldBlock,
    Failed,
}

impl View for ReadOutcome {
    type V = ReadOutcomeView;

    open spec fn view(&self) -> ReadOutcomeView {
        match self {
            ReadOutcome::Closed => ReadOutcomeView::Closed,
            ReadOutcome::Data(bytes) => ReadOutcomeView::Data(bytes@),
            ReadOutcome::WouldBlock => ReadOutcomeView::WouldBlock,
            ReadOutcome::Failed => ReadOutcomeView::Failed,
        }
    }
}

/// What follows a read on a stream.
pub struct StreamDecision {
    /// The packet to send on the CMIO channel, encoded.
    pub to_cmio: Option<Vec<u8>>,
    /// Whether the bytes read are written back to the stream.
    pub echo: bool,
    /// Whether the connection ends.
    pub remove: bool,
}

/// A stream decision as plain values.
pub struct StreamDecisionView {
    pub to_cmio: Option<Seq<u8>>,
    pub echo: bool,
    pub remove: bool,
}

impl View for StreamDecision {
    type V = StreamDecisionView;

    open spec fn view(&self) -> StreamDecisionView {
        StreamDecisionView {
            to_cmio: match self.to_cmio {
                Some(bytes) => Some(bytes@),
                None => None,
            },
            echo: self.echo,
            remove: self.remove,
        }
    }
}

/// What a packet from the CMIO channel asks the agent to do.
pub enum GuestAction {
    /// Connect a stream to `cid` and `port` for `key`, then report with
    /// `connection_opened` or answer with `reset_to_cmio`.
    Connect { key: ConnectionKey, cid: u32, port: u32 },
    /// Write `payload` to the stream of `key`.
    Forward { key: ConnectionKey, payload: Vec<u8> },
    /// Shut the stream of `key` down; the connection is gone.
    Close { key: ConnectionKey },
    /// Nothing.
    Ignore,
}

/// A guest action as plain values.
pub enum GuestActionView {
    Connect { key: ConnectionKey, cid: u32, port: u32 },
    Forward { key: ConnectionKey, payload: Seq<u8> },
    Close { key: ConnectionKey },
    Ignore,
}

impl View for GuestAction {
    type V = GuestActionView;

    open spec fn view(&self) -> GuestActionView {
        match self {
            GuestAction::Connect { key, cid, port } => GuestActionView::Connect {
                key: *key,
                cid: *cid,
                port: *port,
            },
            GuestAction::Forward { key, payload } => GuestActionView::Forward {
                key: *key,
                payload: payload@,
            },
            GuestAction::Close { key } => GuestActionView::Close { key: *key },
            GuestAction::Ignore => GuestActionView::Ignore,
        }
    }
}

/// The RESPONSE that accepts the request with header `request`, encoded.
pub open spec fn response_bytes(request: VirtioVsockHdr) -> Seq<u8> {
    encode(
        PacketView { hdr: reply_header(request, VSOCK_OP_RESPONSE, 0), payload: Seq::<u8>::empty() },
    )
}

/// The RST that refuses or ends the connection opened with header
/// `request`, encoded.
pub open spec fn reset_bytes(request: VirtioVsockHdr) -> Seq<u8> {
    encode(PacketView { hdr: reply_header(request, VSOCK_OP_RST, 0), payload: Seq::<u8>::empty() })
}

/// The RW packet that carries `data` read from the stream of the connection
/// opened with header `request`, encoded. The header's length is the number
/// of bytes, reduced to 32 bits.
pub open spec fn data_bytes(request: VirtioVsockHdr, data: Seq<u8>) -> Seq<u8> {
    encode(
        PacketView {
            hdr: reply_header(request, VSOCK_OP_RW, (data.len() % 0x1_0000_0000) as u32),
            payload: data,
        },
    )
}

/// What a read on the stream of the connection opened with `request` leads
/// to: a closed stream ends the connection; bytes go to the CMIO channel and
/// back to the stream; a failed read resets and ends the connection.
pub open spec fn stream_decision(request: VirtioVsockHdr, outcome: ReadOutcomeView) -> StreamDecisionView {
    match outcome {
        ReadOutcomeView::Closed => StreamDecisionView { to_cmio: None, echo: false, remove: true },
        ReadOutcomeView::Data(data) => StreamDecisionView {
            to_cmio: Some(data_bytes(request, data)),
            echo: true,
            remove: false,
        },
        ReadOutcomeView::WouldBlock => StreamDecisionView {
            to_cmio: None,
            echo: false,
            remove: false,
        },
        ReadOutcomeView::Failed => StreamDecisionView {
            to_cmio: Some(reset_bytes(request)),
            echo: false,
            remove: true,
        },
    }
}

/// What a packet from the CMIO channel does to the connections, which are
/// held by the number of their key, and what it asks for.
pub open spec fn guest_step(connections: Map<u64, VirtioVsockHdr>, p: PacketView) -> (
    Map<u64, VirtioVsockHdr>,
    GuestActionView,
) {
    let key = ConnectionKey::of(p.hdr);
    let known = connections.contains_key(key.index());
    if p.hdr.op == VSOCK_OP_REQUEST {
        if known {
            (connections, GuestActionView::Ignore)
        } else {
            (
                connections,
                GuestActionView::Connect { key, cid: p.hdr.dst_cid, port: p.hdr.dst_port },
            )
        }
    } else if p.hdr.op == VSOCK_OP_RW {
        if known && p.payload.len() > 0 {
            (connections, GuestActionView::Forward { key, payload: p.payload })
        } else {
            (connections, GuestActionView::Ignore)
        }
    } else if p.hdr.op == VSOCK_OP_RST || p.hdr.op == VSOCK_OP_SHUTDOWN {
        if known {
            (connections.remove(key.index()), GuestActionView::Close { key })
        } else {
            (connections, GuestActionView::Ignore)
        }
    } else {
        (connections, GuestActionView::Ignore)
    }
}

/// The packet that answers a poll of the CMIO channel, if the bytes hold
/// one: no bytes, or bytes that do not decode, are no packet.
pub fn packet_from_cmio(bytes: &[u8]) -> (packet: Option<Packet>)
    ensures
        match packet {
            Some(p) => bytes@.len() > 0 && decode(bytes@) == Ok::<PacketView, ProtocolError>(p@),
            None => bytes@.len() == 0 || decode(bytes@) is Err,
        },
{
    if bytes.len() == 0 {
        return None;
    }
    match Packet::from_bytes(bytes) {
        Ok(packet) => Some(packet),
        Err(_) => None,
    }
}

/// The RESPONSE to send on the CMIO channel for an accepted request.
pub fn response_to_cmio(request_hdr: &VirtioVsockHdr) -> (bytes: Vec<u8>)
    ensures
        bytes@ == response_bytes(*request_hdr),
{
    let packet = Packet::new(create_reply_header(request_hdr, VSOCK_OP_RESPONSE, 0), Vec::new());
    assert(packet@.payload =~= Seq::<u8>::empty());
    packet.to_bytes()
}

/// The RST to send on the CMIO channel for a refused or failed connection.
pub fn reset_to_cmio(request_hdr: &VirtioVsockHdr) -> (bytes: Vec<u8>)
    ensures
        bytes@ == reset_bytes(*request_hdr),
{
    let packet = Packet::new(create_reply_header(request_hdr, VSOCK_OP_RST, 0), Vec::new());
    assert(packet@.payload =~= Seq::<u8>::empty());
    packet.to_bytes()
}

/// Decides what follows a read on the stream of the connection that was
/// opened with `request_hdr`.
pub fn on_stream_read(request_hdr: &VirtioVsockHdr, outcome: ReadOutcome) -> (decision:
    StreamDecision)
    ensures
        decision@ == stream_decision(*request_hdr, outcome@),
{
    match outcome {
        ReadOutcome::Closed => StreamDecision { to_cmio: None, echo: false, remove: true },
        ReadOutcome::Data(data) => {
            let len: u64 = data.len() as u64;
            let hdr = create_reply_header(request_hdr, VSOCK_OP_RW, (len % 0x1_0000_0000) as u32);
            let packet = Packet::new(hdr, data);
            StreamDecision { to_cmio: Some(packet.to_bytes()), echo: true, remove: false }
        },
        ReadOutcome::WouldBlock => StreamDecision { to_cmio: None, echo: false, remove: false },
        ReadOutcome::Failed => StreamDecision {
            to_cmio: Some(reset_to_cmio(request_hdr)),
            echo: false,
            remove: true,
        },
    }
}

/// The connections that the guest agent holds open, each with the header of
/// the request that opened it.
pub struct ConnectionManager {
    connections: HashMap<u64, VirtioVsockHdr>,
}

impl View for ConnectionManager {
    type V = Map<u64, VirtioVsockHdr>;

    closed spec fn view(&self) -> Map<u64, VirtioVsockHdr> {
        self.connections@
    }
}

impl ConnectionManager {
    pub fn new() -> (manager: Self)
        ensures
            manager@ == Map::<u64, VirtioVsockHdr>::empty(),
    {
        Self { connections: HashMap::new() }
    }

    /// The header of the request that opened the connection of `key`.
    pub fn request_hdr(&self, key: &ConnectionKey) -> (hdr: Option<VirtioVsockHdr>)
        ensures
            hdr == if self@.contains_key(key.index()) {
                Some(self@[key.index()])
            } else {
                None
            },
    {
        match self.connections.get(&key.to_index()) {
            Some(hdr) => Some(*hdr),
            None => None,
        }
    }

    /// Decides what a packet from the CMIO channel asks for.
    pub fn handle_cmio_packet(&mut self, packet: Packet) -> (action: GuestAction)
        ensures
            (final(self)@, action@) == guest_step(old(self)@, packet@),
    {
        let (hdr, payload) = packet.into_parts();
        let key = ConnectionKey::from(&hdr);
        if hdr.op == VSOCK_OP_REQUEST {
            self.handle_new_connection_request(hdr)
        } else if hdr.op == VSOCK_OP_RW {
            if self.connections.contains_key(&key.to_index()) && payload.len() > 0 {
                GuestAction::Forward { key, payload }
            } else {
                GuestAction::Ignore
            }
        } else if hdr.op == VSOCK_OP_RST || hdr.op == VSOCK_OP_SHUTDOWN {
            match self.connections.remove(&key.to_index()) {
                Some(_) => GuestAction::Close { key },
                None => GuestAction::Ignore,
            }
        } else {
            GuestAction::Ignore
        }
    }

    /// Decides what a REQUEST asks for: a connection for a key that has none
    /// yet, and nothing for a key that has one.
    pub fn handle_new_connection_request(&mut self, request_hdr: VirtioVsockHdr) -> (action:
        GuestAction)
        ensures
            final(self)@ == old(self)@,
            action@ == if old(self)@.contains_key(ConnectionKey::of(request_hdr).index()) {
                GuestActionView::Ignore
            } else {
                GuestActionView::Connect {
                    key: ConnectionKey::of(request_hdr),
                    cid: request_hdr.dst_cid,
                    port: request_hdr.dst_port,
                }
            },
    {
        let key = ConnectionKey::from(&request_hdr);
        if self.connections.contains_key(&key.to_index()) {
            GuestAction::Ignore
        } else {
            GuestAction::Connect { key, cid: request_hdr.dst_cid, port: request_hdr.dst_port }
        }
    }

    /// Records the connection that the request with header `request_hdr`
    /// opened, once its stream stands and the RESPONSE is sent.
    pub fn connection_opened(&mut self, request_hdr: VirtioVsockHdr)
        ensures
            final(self)@ == old(self)@.insert(ConnectionKey::of(request_hdr).index(), request_hdr),
    {
        let key = ConnectionKey::from(&request_hdr);
        self.connections.insert(key.to_index(), request_hdr);
    }

    /// Decides what follows a read on the stream of `key`, and drops the
    /// connection where it ends. A key without a connection decides nothing.
    pub fn poll_vsock_connection(&mut self, key: &ConnectionKey, outcome: ReadOutcome) -> (decision:
        Option<StreamDecision>)
        ensures
            match decision {
                Some(d) => old(self)@.contains_key(key.index()) && d@ == stream_decision(
                    old(self)@[key.index()],
                    outcome@,
                ) && final(self)@ == if d.remove {
                    old(self)@.remove(key.index())
                } else {
                    old(self)@
                },
                None => !old(self)@.contains_key(key.index()) && final(self)@ == old(self)@,
            },
    {
        let hdr = match self.connections.get(&key.to_index()) {
            Some(hdr) => *hdr,
            None => {
                return None;
            },
        };
        let decision = on_stream_read(&hdr, outcome);
        if decision.remove {
            self.connections.remove(&key.to_index());
        }
        Some(decision)
    }
}

/// A read on the stream of one connection.
pub struct StreamEvent {
    pub key: ConnectionKey,
    pub outcome: ReadOutcome,
}

/// A stream event as plain values.
pub struct StreamEventView {
    pub key: ConnectionKey,
    pub outcome: ReadOutcomeView,
}

impl View for StreamEvent {
    type V = StreamEventView;

    open spec fn view(&self) -> StreamEventView {
        StreamEventView { key: self.key, outcome: self.outcome@ }
    }
}

/// What one round of reads leads to, in the order in which it is carried
/// out: the echoes, the data packets, the resets, the streams to shut down.
pub struct PollPlan {
    /// Bytes to write back to the stream they were read from.
    pub echoes: Vec<(ConnectionKey, Vec<u8>)>,
    /// Encoded RW packets for the CMIO channel.
    pub packets: Vec<Vec<u8>>,
    /// Encoded RST packets for the CMIO channel, sent after the RW packets.
    pub resets: Vec<Vec<u8>>,
    /// The connections that ended.
    pub removed: Vec<ConnectionKey>,
}

/// A poll plan as plain values.
pub struct PollPlanView {
    pub echoes: Seq<(ConnectionKey, Seq<u8>)>,
    pub packets: Seq<Seq<u8>>,
    pub resets: Seq<Seq<u8>>,
    pub removed: Seq<ConnectionKey>,
}

impl View for PollPlan {
    type V = PollPlanView;

    open spec fn view(&self) -> PollPlanView {
        PollPlanView {
            echoes: self.echoes@.map_values(|e: (ConnectionKey, Vec<u8>)| (e.0, e.1@)),
            packets: self.packets@.map_values(|p: Vec<u8>| p@),
            resets: self.resets@.map_values(|p: Vec<u8>| p@),
            removed: self.removed@,
        }
    }
}

/// The plan for a round of reads. Every event is judged against the
/// connections as they stood before the round; an event for a key without a
/// connection adds nothing.
pub open spec fn poll_plan(connections: Map<u64, VirtioVsockHdr>, events: Seq<StreamEventView>) -> PollPlanView
    decreases events.len(),
{
    if events.len() == 0 {
        PollPlanView {
            echoes: Seq::<(ConnectionKey, Seq<u8>)>::empty(),
            packets: Seq::<Seq<u8>>::empty(),
            resets: Seq::<Seq<u8>>::empty(),
            removed: Seq::<ConnectionKey>::empty(),
        }
    } else {
        let plan = poll_plan(connections, events.drop_last());
        let e = events.last();
        if connections.contains_key(e.key.index()) {
            let request = connections[e.key.index()];
            match e.outcome {
                ReadOutcomeView::Closed => PollPlanView {
                    removed: plan.removed.push(e.key),
                    ..plan
                },
                ReadOutcomeView::Data(data) => PollPlanView {
                    echoes: plan.echoes.push((e.key, data)),
                    packets: plan.packets.push(data_bytes(request, data)),
                    ..plan
                },
                ReadOutcomeView::WouldBlock => plan,
                ReadOutcomeView::Failed => PollPlanView {
                    resets: plan.resets.push(reset_bytes(request)),
                    removed: plan.removed.push(e.key),
                    ..plan
                },
            }
        } else {
            plan
        }
    }
}

/// The connections without those of `removed`.
pub open spec fn without(connections: Map<u64, VirtioVsockHdr>, removed: Seq<ConnectionKey>) -> Map<
    u64,
    VirtioVsockHdr,
>
    decreases removed.len(),
{
    if removed.len() == 0 {
        connections
    } else {
        without(connections, removed.drop_last()).remove(removed.last().index())
    }
}

impl ConnectionManager {
    /// Decides what follows one round of reads on the connections' streams,
    /// and drops the connections that ended.
    pub fn poll_vsock_connections(&mut self, events: Vec<StreamEvent>) -> (plan: PollPlan)
        ensures
            plan@ == poll_plan(old(self)@, events@.map_values(|e: StreamEvent| e@)),
            final(self)@ == without(old(self)@, plan@.removed),
    {
        let ghost all = events@.map_values(|e: StreamEvent| e@);
        let mut plan = PollPlan {
            echoes: Vec::new(),
            packets: Vec::new(),
            resets: Vec::new(),
            removed: Vec::new(),
        };
        let mut events = events;
        let mut rest: Vec<StreamEvent> = Vec::new();
        // Events are taken from the back, so turn them round first.
        while events.len() > 0
            invariant
                events@.len() + rest@.len() == all.len(),
                forall|i: int|
                    0 <= i < events@.len() ==> (#[trigger] events@[i])@ == all[i],
                forall|i: int|
                    0 <= i < rest@.len() ==> (#[trigger] rest@[i])@ == all[all.len() - 1 - i],
            decreases events@.len(),
        {
            let e = events.pop().unwrap();
            rest.push(e);
        }
        let ghost mut done: int = 0;
        assert(all.subrange(0, 0) =~= Seq::<StreamEventView>::empty());
        proof {
            assert(plan@.echoes =~= Seq::<(ConnectionKey, Seq<u8>)>::empty());
            assert(plan@.packets =~= Seq::<Seq<u8>>::empty());
            assert(plan@.resets =~= Seq::<Seq<u8>>::empty());
        }
        while rest.len() > 0
            invariant
                0 <= done,
                done + rest@.len() == all.len(),
                self@ == old(self)@,
                forall|i: int|
                    0 <= i < rest@.len() ==> (#[trigger] rest@[i])@ == all[all.len() - 1 - i],
                plan@ == poll_plan(old(self)@, all.subrange(0, done)),
            decreases rest@.len(),
        {
            let e = rest.pop().unwrap();
            let ghost before = plan@;
            let ghost seen = all.subrange(0, done + 1);
            proof {
                assert(e@ == all[done]);
                assert(seen.drop_last() =~= all.subrange(0, done));
                assert(seen.last() == e@);
            }
            let key = e.key;
            match self.request_hdr(&key) {
                Some(hdr) => {
                    match e.outcome {
                        ReadOutcome::Closed => {
                            plan.removed.push(key);
                        },
                        ReadOutcome::Data(data) => {
                            let len: u64 = data.len() as u64;
                            let rw = create_reply_header(
                                &hdr,
                                VSOCK_OP_RW,
                                (len % 0x1_0000_0000) as u32,
                            );
                            let packet = Packet::new(rw, data);
                            plan.packets.push(packet.to_bytes());
                            let (_, data) = packet.into_parts();
                            plan.echoes.push((key, data));
                            proof {
                                assert(plan@.packets =~= before.packets.push(
                                    data_bytes(hdr, data@),
                                ));
                                assert(plan@.echoes =~= before.echoes.push((key, data@)));
                                assert(plan@.resets =~= before.resets);
                            }
                        },
                        ReadOutcome::WouldBlock => {},
                        ReadOutcome::Failed => {
                            plan.resets.push(reset_to_cmio(&hdr));
                            plan.removed.push(key);
                            proof {
                                assert(plan@.resets =~= before.resets.push(reset_bytes(hdr)));
                                assert(plan@.packets =~= before.packets);
                                assert(plan@.echoes =~= before.echoes);
                            }
                        },
                    }
                },
                None => {},
            }
            proof {
                done = done + 1;
            }
        }
        assert(all.subrange(0, done) =~= all);
        let mut i: usize = 0;
        assert(plan.removed@.subrange(0, 0) =~= Seq::<ConnectionKey>::empty());
        while i < plan.removed.len()
            invariant
                i <= plan.removed@.len(),
                self@ == without(old(self)@, plan.removed@.subrange(0, i as int)),
            decreases plan.removed@.len() - i,
        {
            let key = plan.removed[i];
            self.connections.remove(&key.to_index());
            i = i + 1;
            proof {
                let taken = plan.removed@.subrange(0, i as int);
                assert(taken.drop_last() =~= plan.removed@.subrange(0, i - 1));
                assert(taken.last() == key);
            }
        }
        assert(plan.removed@.subrange(0, i as int) =~= plan.removed@);
        plan
    }
}

} // verus!
