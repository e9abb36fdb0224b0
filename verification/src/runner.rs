//! The multiplexer's state: the services and clients registered by port, the
//! connections that stand, the requests that wait for an answer, and the two
//! packet queues of the half-duplex CMIO channel.

use vstd::prelude::*;
use std::collections::HashMap;
use vstd::std_specs::iter::IteratorSpec;
use crate::slots::slot_mut;
use crate::vsock_protocol::{
    reply_header, Packet, PacketView, ProtocolError, VirtioVsockHdr, MAX_PAYLOAD_LEN,
    VSOCK_OP_REQUEST, VSOCK_TYPE_STREAM,
};

verus! {

broadcast use vstd::std_specs::hash::group_hash_axioms;

pub const GUEST_CID: u32 = 1;

pub const HOST_CID: u32 = 3;

pub const HOST_PORT: u32 = 1025;

/// A call that the multiplexer makes on a service or a client, with what the
/// call returned.
pub enum Call {
    /// `Service::on_connection` for a peer port.
    Connection(u32),
    /// `Client::on_connect_success` for a peer port.
    ConnectSuccess(u32),
    /// `Client::on_connect_failed` for a peer port.
    ConnectFailed(u32),
    /// `on_data` for a peer port, with the bytes handed over.
    Data(u32, Seq<u8>),
    /// `on_reset` for a peer port.
    Reset(u32),
    /// `on_shutdown` for a peer port.
    Shutdown(u32),
    /// `get_write_data` for a peer port, with the bytes it handed out.
    WriteData(u32, Option<Seq<u8>>),
    /// `should_shutdown` for a peer port, with its answer.
    ShouldShutdown(u32, bool),
}

/// The view of bytes that may be absent.
pub open spec fn bytes_view(data: Option<Vec<u8>>) -> Option<Seq<u8>> {
    match data {
        Some(bytes) => Some(bytes@),
        None => None,
    }
}

/// Service trait for handling vsock connections
///
/// A service may keep a record of the calls made on it. One that says so in
/// `records` promises that every call is added to `calls`, with what it was
/// handed and what it returned; one that says nothing promises nothing.
pub trait Service: Send {
    /// Whether this service keeps a record of the calls made on it.
    open spec fn records(&self) -> bool {
        false
    }

    /// The calls made on a service that keeps a record, oldest first.
    open spec fn calls(&self) -> Seq<Call> {
        Seq::<Call>::empty()
    }

    /// Called when a new connection is established
    fn on_connection(&mut self, port: u32)
        ensures
            called(
                old(self).records(),
                old(self).calls(),
                Call::Connection(port),
                final(self).records(),
                final(self).calls(),
            ),
    ;

    /// Called when data is received on a connection
    fn on_data(&mut self, port: u32, data: &[u8])
        ensures
            called(
                old(self).records(),
                old(self).calls(),
                Call::Data(port, data@),
                final(self).records(),
                final(self).calls(),
            ),
    ;

    /// Called when a connection receives a reset
    fn on_reset(&mut self, port: u32)
        ensures
            called(
                old(self).records(),
                old(self).calls(),
                Call::Reset(port),
                final(self).records(),
                final(self).calls(),
            ),
    ;

    /// Called when a connection receives a shutdown
    fn on_shutdown(&mut self, port: u32)
        ensures
            called(
                old(self).records(),
                old(self).calls(),
                Call::Shutdown(port),
                final(self).records(),
                final(self).calls(),
            ),
    ;

    /// Called to get data to write to a connection
    fn get_write_data(&mut self, port: u32) -> (data: Option<Vec<u8>>)
        ensures
            called(
                old(self).records(),
                old(self).calls(),
                Call::WriteData(port, bytes_view(data)),
                final(self).records(),
                final(self).calls(),
            ),
    ;

    /// Called to check if a connection should be shut down
    fn should_shutdown(&mut self, port: u32) -> (shutdown: bool)
        ensures
            called(
                old(self).records(),
                old(self).calls(),
                Call::ShouldShutdown(port, shutdown),
                final(self).records(),
                final(self).calls(),
            ),
    ;
}

/// Client trait for making vsock connections
///
/// A client may keep a record of the calls made on it, as a service may.
pub trait Client: Send {
    /// Whether this client keeps a record of the calls made on it.
    open spec fn records(&self) -> bool {
        false
    }

    /// The calls made on a client that keeps a record, oldest first.
    open spec fn calls(&self) -> Seq<Call> {
        Seq::<Call>::empty()
    }

    /// Called when a connection attempt succeeds
    fn on_connect_success(&mut self, port: u32)
        ensures
            called(
                old(self).records(),
                old(self).calls(),
                Call::ConnectSuccess(port),
                final(self).records(),
                final(self).calls(),
            ),
    ;

    /// Called when a connection attempt fails
    fn on_connect_failed(&mut self, port: u32)
        ensures
            called(
                old(self).records(),
                old(self).calls(),
                Call::ConnectFailed(port),
                final(self).records(),
                final(self).calls(),
            ),
    ;

    /// Called when data is received on a connection
    fn on_data(&mut self, port: u32, data: &[u8])
        ensures
            called(
                old(self).records(),
                old(self).calls(),
                Call::Data(port, data@),
                final(self).records(),
                final(self).calls(),
            ),
    ;

    /// Called when a connection receives a reset
    fn on_reset(&mut self, port: u32)
        ensures
            called(
                old(self).records(),
                old(self).calls(),
                Call::Reset(port),
                final(self).records(),
                final(self).calls(),
            ),
    ;

    /// Called when a connection receives a shutdown
    fn on_shutdown(&mut self, port: u32)
        ensures
            called(
                old(self).records(),
                old(self).calls(),
                Call::Shutdown(port),
                final(self).records(),
                final(self).calls(),
            ),
    ;

    /// Called to get data to write to a connection
    fn get_write_data(&mut self, port: u32) -> (data: Option<Vec<u8>>)
        ensures
            called(
                old(self).records(),
                old(self).calls(),
                Call::WriteData(port, bytes_view(data)),
                final(self).records(),
                final(self).calls(),
            ),
    ;

    /// Called to check if a connection should be shut down
    fn should_shutdown(&mut self, port: u32) -> (shutdown: bool)
        ensures
            called(
                old(self).records(),
                old(self).calls(),
                Call::ShouldShutdown(port, shutdown),
                final(self).records(),
                final(self).calls(),
            ),
    ;
}

/// What one call does to the record of its receiver: where a record is
/// kept, it is still kept afterwards and has grown by the call.
pub open spec fn called(
    recorded: bool,
    before: Seq<Call>,
    call: Call,
    records: bool,
    after: Seq<Call>,
) -> bool {
    recorded ==> records && after == before.push(call)
}

/// What a run of calls does to the record of its receiver: where a record
/// is kept, it is still kept afterwards and has grown by the calls, in order.
pub open spec fn called_all(
    recorded: bool,
    before: Seq<Call>,
    calls: Seq<Call>,
    records: bool,
    after: Seq<Call>,
) -> bool {
    recorded ==> records && after == before + calls
}

/// A boxed service is a service: services of different kinds can share one
/// registry. Its record is that of the service in the box.
impl Service for Box<dyn Service> {
    open spec fn records(&self) -> bool {
        (**self).records()
    }

    open spec fn calls(&self) -> Seq<Call> {
        (**self).calls()
    }

    fn on_connection(&mut self, port: u32) {
        (**self).on_connection(port)
    }

    fn on_data(&mut self, port: u32, data: &[u8]) {
        (**self).on_data(port, data)
    }

    fn on_reset(&mut self, port: u32) {
        (**self).on_reset(port)
    }

    fn on_shutdown(&mut self, port: u32) {
        (**self).on_shutdown(port)
    }

    fn get_write_data(&mut self, port: u32) -> (data: Option<Vec<u8>>) {
        (**self).get_write_data(port)
    }

    fn should_shutdown(&mut self, port: u32) -> (shutdown: bool) {
        (**self).should_shutdown(port)
    }
}

/// A boxed client is a client: clients of different kinds can share one
/// registry. Its record is that of the client in the box.
impl Client for Box<dyn Client> {
    open spec fn records(&self) -> bool {
        (**self).records()
    }

    open spec fn calls(&self) -> Seq<Call> {
        (**self).calls()
    }

    fn on_connect_success(&mut self, port: u32) {
        (**self).on_connect_success(port)
    }

    fn on_connect_failed(&mut self, port: u32) {
        (**self).on_connect_failed(port)
    }

    fn on_data(&mut self, port: u32, data: &[u8]) {
        (**self).on_data(port, data)
    }

    fn on_reset(&mut self, port: u32) {
        (**self).on_reset(port)
    }

    fn on_shutdown(&mut self, port: u32) {
        (**self).on_shutdown(port)
    }

    fn get_write_data(&mut self, port: u32) -> (data: Option<Vec<u8>>) {
        (**self).get_write_data(port)
    }

    fn should_shutdown(&mut self, port: u32) -> (shutdown: bool) {
        (**self).should_shutdown(port)
    }
}

/// An outbound connection that waits for the guest's RESPONSE.
#[derive(Debug, Copy, Clone, PartialEq, Eq, Structural)]
pub struct PendingRequest {
    /// The client that asked for the connection.
    pub client_port: u32,
    /// The guest port asked for.
    pub target_port: u32,
    /// Whether the REQUEST still waits in the write queue.
    pub not_yet_sent: bool,
}

/// The multiplexer. `S` is the kind of service it holds and `C` the kind of
/// client; boxed trait objects hold any.
pub struct RunnerState<S: Service, C: Client> {
    listeners: HashMap<u32, S>,
    clients: HashMap<u32, C>,
    connection_service_map: HashMap<u32, u32>,
    connection_client_map: HashMap<u32, u32>,
    pending_requests: HashMap<u32, PendingRequest>,
    cmio_write_queue: Vec<Packet>,
    cmio_read_queue: Vec<Packet>,
}

/// The multiplexer's tables and queues.
pub struct RunnerView {
    /// Ports with a registered service.
    pub listeners: Set<u32>,
    /// Ports with a registered client.
    pub clients: Set<u32>,
    /// Established inbound connections: peer port to service port.
    pub service_conns: Map<u32, u32>,
    /// Established outbound connections: peer port to client port.
    pub client_conns: Map<u32, u32>,
    /// Outbound connections that wait for a RESPONSE, by target port.
    pub pending: Map<u32, PendingRequest>,
    /// Packets staged for the guest; the last one leaves first.
    pub write_queue: Seq<PacketView>,
    /// Packets of the guest that wait for dispatch; the last one is
    /// dispatched first.
    pub read_queue: Seq<PacketView>,
}

impl RunnerView {
    /// No peer port has an inbound and an outbound connection at once.
    pub open spec fn wf(self) -> bool {
        forall|peer: u32| !(self.service_conns.contains_key(peer) && self.client_conns.contains_key(peer))
    }

    /// Tables and queues with nothing in them.
    pub open spec fn empty() -> RunnerView {
        RunnerView {
            listeners: Set::<u32>::empty(),
            clients: Set::<u32>::empty(),
            service_conns: Map::<u32, u32>::empty(),
            client_conns: Map::<u32, u32>::empty(),
            pending: Map::<u32, PendingRequest>::empty(),
            write_queue: Seq::<PacketView>::empty(),
            read_queue: Seq::<PacketView>::empty(),
        }
    }

    /// Whether `peer` has an established connection, inbound or outbound.
    pub open spec fn connected(self, peer: u32) -> bool {
        self.service_conns.contains_key(peer) || self.client_conns.contains_key(peer)
    }
}

/// The view of a packet that may be absent.
pub open spec fn packet_view(packet: Option<Packet>) -> Option<PacketView> {
    match packet {
        Some(p) => Some(p@),
        None => None,
    }
}

/// The header of a packet that the host originates towards `guest_port`.
pub open spec fn host_header(guest_port: u32, op: u16, len: u32) -> VirtioVsockHdr {
    VirtioVsockHdr {
        src_cid: HOST_CID,
        dst_cid: GUEST_CID,
        src_port: HOST_PORT,
        dst_port: guest_port,
        len,
        type_: VSOCK_TYPE_STREAM,
        op,
        flags: 0,
        buf_alloc: 0,
        fwd_cnt: 0,
    }
}

/// The packet that the host originates towards `guest_port` with `payload`.
pub open spec fn host_packet(guest_port: u32, op: u16, payload: Seq<u8>) -> PacketView {
    PacketView { hdr: host_header(guest_port, op, payload.len() as u32), payload }
}

/// The REQUEST that opens a connection from `client_port` to `target_port`.
pub open spec fn request_packet(client_port: u32, target_port: u32) -> PacketView {
    PacketView {
        hdr: VirtioVsockHdr {
            src_port: client_port,
            ..host_header(target_port, VSOCK_OP_REQUEST, 0)
        },
        payload: Seq::<u8>::empty(),
    }
}

/// The reply without payload to a packet with header `request`.
pub open spec fn reply_packet(request: VirtioVsockHdr, op: u16) -> PacketView {
    PacketView { hdr: reply_header(request, op, 0), payload: Seq::<u8>::empty() }
}

/// Whether `ports` names the peers of inbound connections in its first
/// `inbound` places and the peers of outbound connections behind them.
pub open spec fn inbound_first(s: RunnerView, ports: Seq<u32>, inbound: int) -> bool {
    &&& 0 <= inbound <= ports.len()
    &&& forall|i: int|
        0 <= i < ports.len() ==> if i < inbound {
            s.service_conns.contains_key(#[trigger] ports[i])
        } else {
            s.client_conns.contains_key(ports[i])
        }
}

/// The pending requests once `sent` has left the write queue: a REQUEST for
/// a pending target is no longer waiting to be sent.
pub open spec fn mark_sent(pending: Map<u32, PendingRequest>, sent: PacketView) -> Map<
    u32,
    PendingRequest,
> {
    let target = sent.hdr.dst_port;
    if sent.hdr.op == VSOCK_OP_REQUEST && pending.contains_key(target) {
        pending.insert(target, PendingRequest { not_yet_sent: false, ..pending[target] })
    } else {
        pending
    }
}

/// Crafts a packet from the host to `guest_port`. A payload of more than
/// 4096 bytes makes no packet.
pub fn construct_packet(guest_port: u32, op: u16, payload: &[u8]) -> (packet: Result<
    Packet,
    ProtocolError,
>)
    ensures
        payload@.len() > MAX_PAYLOAD_LEN ==> packet == Err::<Packet, ProtocolError>(
            ProtocolError::PayloadTooLarge,
        ),
        payload@.len() <= MAX_PAYLOAD_LEN ==> packet is Ok && packet.unwrap()@ == host_packet(
            guest_port,
            op,
            payload@,
        ) && packet.unwrap()@.wf(),
{
    if payload.len() > MAX_PAYLOAD_LEN as usize {
        return Err(ProtocolError::PayloadTooLarge);
    }
    let hdr = VirtioVsockHdr {
        src_cid: HOST_CID,
        dst_cid: GUEST_CID,
        src_port: HOST_PORT,
        dst_port: guest_port,
        len: payload.len() as u32,
        type_: VSOCK_TYPE_STREAM,
        op,
        flags: 0,
        buf_alloc: 0,
        fwd_cnt: 0,
    };
    Ok(Packet::new(hdr, vstd::slice::slice_to_vec(payload)))
}

impl<S: Service, C: Client> View for RunnerState<S, C> {
    type V = RunnerView;

    closed spec fn view(&self) -> RunnerView {
        RunnerView {
            listeners: self.listeners@.dom(),
            clients: self.clients@.dom(),
            service_conns: self.connection_service_map@,
            client_conns: self.connection_client_map@,
            pending: self.pending_requests@,
            write_queue: self.cmio_write_queue@.map_values(|p: Packet| p@),
            read_queue: self.cmio_read_queue@.map_values(|p: Packet| p@),
        }
    }
}

impl<S: Service, C: Client> RunnerState<S, C> {
    /// The services registered, by port.
    pub closed spec fn held_services(&self) -> Map<u32, S> {
        self.listeners@
    }

    /// The clients registered, by port.
    pub closed spec fn held_clients(&self) -> Map<u32, C> {
        self.clients@
    }

    /// The ports in the view are those of the services and clients held.
    pub proof fn lemma_held_ports(&self)
        ensures
            self@.listeners == self.held_services().dom(),
            self@.clients == self.held_clients().dom(),
    {
    }

    pub fn new() -> (state: Self)
        ensures
            state.held_services() == Map::<u32, S>::empty(),
            state.held_clients() == Map::<u32, C>::empty(),
            state@ == RunnerView::empty(),
    {
        let state = Self {
            listeners: HashMap::new(),
            clients: HashMap::new(),
            connection_service_map: HashMap::new(),
            connection_client_map: HashMap::new(),
            pending_requests: HashMap::new(),
            cmio_write_queue: Vec::new(),
            cmio_read_queue: Vec::new(),
        };
        proof {
            assert(state@.listeners =~= Set::<u32>::empty());
            assert(state@.clients =~= Set::<u32>::empty());
            assert(state@.write_queue =~= Seq::<PacketView>::empty());
            assert(state@.read_queue =~= Seq::<PacketView>::empty());
        }
        state
    }

    /// Registers `service` on `port`, in place of any service that was there.
    pub fn add_listener(&mut self, port: u32, service: S)
        ensures
            final(self)@ == (RunnerView {
                listeners: old(self)@.listeners.insert(port),
                ..old(self)@
            }),
            final(self).held_services() == old(self).held_services().insert(port, service),
            final(self).held_clients() == old(self).held_clients(),
    {
        self.listeners.insert(port, service);
        assert(self@.listeners =~= old(self)@.listeners.insert(port));
    }

    pub fn remove_listener(&mut self, port: u32)
        ensures
            final(self).held_services() == old(self).held_services().remove(port),
            final(self).held_clients() == old(self).held_clients(),
            final(self)@ == (RunnerView {
                listeners: old(self)@.listeners.remove(port),
                ..old(self)@
            }),
    {
        self.listeners.remove(&port);
        assert(self@.listeners =~= old(self)@.listeners.remove(port));
    }

    /// The service registered on `port`, for the caller to work on. What the
    /// caller makes of it is what the registry holds afterwards.
    pub fn get_listener(&mut self, port: u32) -> (service: Option<&mut S>)
        ensures
            service is Some <==> old(self)@.listeners.contains(port),
            final(self)@ == old(self)@,
            final(self).held_clients() == old(self).held_clients(),
            match service {
                Some(held) => old(self).held_services().contains_key(port) && *held == old(
                    self,
                ).held_services()[port] && final(self).held_services() == old(
                    self,
                ).held_services().insert(port, *final(held)),
                None => final(self).held_services() == old(self).held_services(),
            },
    {
        let ghost held = self.listeners@;
        assert forall|s: S| #[trigger] held.insert(port, s).dom() == held.dom().insert(port) by {
            assert(held.insert(port, s).dom() =~= held.dom().insert(port));
        }
        assert(held.contains_key(port) ==> held.dom().insert(port) =~= held.dom());
        slot_mut(&mut self.listeners, &port)
    }

    /// Registers `client` on `port`, in place of any client that was there.
    pub fn add_client(&mut self, port: u32, client: C)
        ensures
            final(self)@ == (RunnerView { clients: old(self)@.clients.insert(port), ..old(self)@ }),
            final(self).held_clients() == old(self).held_clients().insert(port, client),
            final(self).held_services() == old(self).held_services(),
    {
        self.clients.insert(port, client);
        assert(self@.clients =~= old(self)@.clients.insert(port));
    }

    pub fn remove_client(&mut self, port: u32)
        ensures
            final(self).held_clients() == old(self).held_clients().remove(port),
            final(self).held_services() == old(self).held_services(),
            final(self)@ == (RunnerView { clients: old(self)@.clients.remove(port), ..old(self)@ }),
    {
        self.clients.remove(&port);
        assert(self@.clients =~= old(self)@.clients.remove(port));
    }

    /// The client registered on `port`, for the caller to work on. What the
    /// caller makes of it is what the registry holds afterwards.
    pub fn get_client(&mut self, port: u32) -> (client: Option<&mut C>)
        ensures
            client is Some <==> old(self)@.clients.contains(port),
            final(self)@ == old(self)@,
            final(self).held_services() == old(self).held_services(),
            match client {
                Some(held) => old(self).held_clients().contains_key(port) && *held == old(
                    self,
                ).held_clients()[port] && final(self).held_clients() == old(
                    self,
                ).held_clients().insert(port, *final(held)),
                None => final(self).held_clients() == old(self).held_clients(),
            },
    {
        let ghost held = self.clients@;
        assert forall|c: C| #[trigger] held.insert(port, c).dom() == held.dom().insert(port) by {
            assert(held.insert(port, c).dom() =~= held.dom().insert(port));
        }
        assert(held.contains_key(port) ==> held.dom().insert(port) =~= held.dom());
        slot_mut(&mut self.clients, &port)
    }

    /// Asks the guest for a connection from the client on `client_port` to
    /// `target_port`: the REQUEST is staged and the connection is pending
    /// until the guest answers. The packet goes from the host to the guest,
    /// whatever `target_cid` says.
    pub fn initiate_connection(&mut self, client_port: u32, target_cid: u32, target_port: u32) -> (done:
        Result<(), ProtocolError>)
        ensures
            final(self).held_services() == old(self).held_services(),
            final(self).held_clients() == old(self).held_clients(),
            done is Ok,
            final(self)@ == (RunnerView {
                write_queue: old(self)@.write_queue.push(
                    request_packet(client_port, target_port),
                ),
                pending: old(self)@.pending.insert(
                    target_port,
                    PendingRequest { client_port, target_port, not_yet_sent: true },
                ),
                ..old(self)@
            }),
    {
        let hdr = VirtioVsockHdr {
            src_cid: HOST_CID,
            dst_cid: GUEST_CID,
            src_port: client_port,
            dst_port: target_port,
            len: 0,
            type_: VSOCK_TYPE_STREAM,
            op: VSOCK_OP_REQUEST,
            flags: 0,
            buf_alloc: 0,
            fwd_cnt: 0,
        };
        let packet = Packet::new(hdr, Vec::new());
        assert(packet@.payload =~= Seq::<u8>::empty());
        self.add_to_write_queue(packet);
        self.pending_requests.insert(
            target_port,
            PendingRequest { client_port, target_port, not_yet_sent: true },
        );
        Ok(())
    }

    /// Records an inbound connection from `port` to the service on
    /// `service_port`. It takes the place of any connection `port` had.
    pub fn add_connection(&mut self, port: u32, service_port: u32)
        ensures
            final(self).held_services() == old(self).held_services(),
            final(self).held_clients() == old(self).held_clients(),
            final(self)@ == (RunnerView {
                service_conns: old(self)@.service_conns.insert(port, service_port),
                client_conns: old(self)@.client_conns.remove(port),
                ..old(self)@
            }),
    {
        self.connection_client_map.remove(&port);
        self.connection_service_map.insert(port, service_port);
    }

    /// Records an outbound connection to `port` for the client on
    /// `client_port`. It takes the place of any connection `port` had.
    pub fn add_client_connection(&mut self, port: u32, client_port: u32)
        ensures
            final(self).held_services() == old(self).held_services(),
            final(self).held_clients() == old(self).held_clients(),
            final(self)@ == (RunnerView {
                service_conns: old(self)@.service_conns.remove(port),
                client_conns: old(self)@.client_conns.insert(port, client_port),
                ..old(self)@
            }),
    {
        self.connection_service_map.remove(&port);
        self.connection_client_map.insert(port, client_port);
    }

    pub fn remove_connection(&mut self, port: u32)
        ensures
            final(self).held_services() == old(self).held_services(),
            final(self).held_clients() == old(self).held_clients(),
            final(self)@ == (RunnerView {
                service_conns: old(self)@.service_conns.remove(port),
                client_conns: old(self)@.client_conns.remove(port),
                ..old(self)@
            }),
    {
        self.connection_service_map.remove(&port);
        self.connection_client_map.remove(&port);
    }

    pub fn get_service_port(&self, connection_port: u32) -> (service_port: Option<u32>)
        ensures
            service_port == if self@.service_conns.contains_key(connection_port) {
                Some(self@.service_conns[connection_port])
            } else {
                None
            },
    {
        match self.connection_service_map.get(&connection_port) {
            Some(port) => Some(*port),
            None => None,
        }
    }

    pub fn get_client_port(&self, connection_port: u32) -> (client_port: Option<u32>)
        ensures
            client_port == if self@.client_conns.contains_key(connection_port) {
                Some(self@.client_conns[connection_port])
            } else {
                None
            },
    {
        match self.connection_client_map.get(&connection_port) {
            Some(port) => Some(*port),
            None => None,
        }
    }

    /// The peer ports of all connections, inbound ones first, each once.
    pub fn get_connection_ports(&self) -> (ports: Vec<u32>)
        ensures
            forall|peer: u32| ports@.contains(peer) <==> self@.connected(peer),
            self@.wf() ==> ports@.no_duplicates(),
            exists|inbound: int| inbound_first(self@, ports@, inbound),
    {
        let mut ports: Vec<u32> = Vec::new();
        let ghost inbound = self.connection_service_map.keys().remaining().unref();
        for port in it: self.connection_service_map.keys()
            invariant
                it.seq().unref() == inbound,
                ports@ == inbound.subrange(0, it.index()),
        {
            ports.push(*port);
            assert(ports@ =~= inbound.subrange(0, it.index() + 1));
        }
        assert(ports@ =~= inbound);
        let ghost outbound = self.connection_client_map.keys().remaining().unref();
        for port in it: self.connection_client_map.keys()
            invariant
                it.seq().unref() == outbound,
                ports@ == inbound + outbound.subrange(0, it.index()),
        {
            ports.push(*port);
            assert(ports@ =~= inbound + outbound.subrange(0, it.index() + 1));
        }
        assert(ports@ =~= inbound + outbound);
        proof {
            assert(inbound.to_set() == self@.service_conns.dom());
            assert(outbound.to_set() == self@.client_conns.dom());
            assert forall|peer: u32| ports@.contains(peer) <==> self@.connected(peer) by {
                if ports@.contains(peer) {
                    let i = choose|i: int| 0 <= i < ports@.len() && ports@[i] == peer;
                    if i < inbound.len() {
                        assert(inbound[i] == peer);
                        assert(inbound.to_set().contains(peer));
                    } else {
                        assert(outbound[i - inbound.len()] == peer);
                        assert(outbound.to_set().contains(peer));
                    }
                }
                if self@.service_conns.contains_key(peer) {
                    assert(inbound.to_set().contains(peer));
                    let i = choose|i: int| 0 <= i < inbound.len() && inbound[i] == peer;
                    assert(ports@[i] == peer);
                }
                if self@.client_conns.contains_key(peer) {
                    assert(outbound.to_set().contains(peer));
                    let i = choose|i: int| 0 <= i < outbound.len() && outbound[i] == peer;
                    assert(ports@[inbound.len() + i] == peer);
                }
            }
            assert forall|i: int| 0 <= i < ports@.len() implies if i < inbound.len() {
                self@.service_conns.contains_key(#[trigger] ports@[i])
            } else {
                self@.client_conns.contains_key(ports@[i])
            } by {
                if i < inbound.len() {
                    assert(inbound.to_set().contains(inbound[i]));
                } else {
                    assert(outbound.to_set().contains(outbound[i - inbound.len()]));
                }
            }
            assert(inbound_first(self@, ports@, inbound.len() as int));
            if self@.wf() {
                assert forall|i: int, j: int|
                    0 <= i < ports@.len() && 0 <= j < ports@.len() && i != j implies ports@[i]
                    != ports@[j] by {
                    if i < inbound.len() && j >= inbound.len() {
                        assert(inbound.to_set().contains(inbound[i]));
                        assert(outbound.to_set().contains(outbound[j - inbound.len()]));
                    }
                    if j < inbound.len() && i >= inbound.len() {
                        assert(inbound.to_set().contains(inbound[j]));
                        assert(outbound.to_set().contains(outbound[i - inbound.len()]));
                    }
                }
            }
        }
        ports
    }

    pub fn add_to_write_queue(&mut self, packet: Packet)
        ensures
            final(self).held_services() == old(self).held_services(),
            final(self).held_clients() == old(self).held_clients(),
            final(self)@ == (RunnerView {
                write_queue: old(self)@.write_queue.push(packet@),
                ..old(self)@
            }),
    {
        self.cmio_write_queue.push(packet);
        assert(self@.write_queue =~= old(self)@.write_queue.push(packet@));
    }

    /// Takes the packet that was staged last.
    pub fn pop_from_write_queue(&mut self) -> (packet: Option<Packet>)
        ensures
            final(self).held_services() == old(self).held_services(),
            final(self).held_clients() == old(self).held_clients(),
            old(self)@.write_queue.len() == 0 ==> packet is None && final(self)@ == old(self)@,
            old(self)@.write_queue.len() > 0 ==> packet is Some && packet.unwrap()@ == old(
                self,
            )@.write_queue.last() && final(self)@ == (RunnerView {
                write_queue: old(self)@.write_queue.drop_last(),
                ..old(self)@
            }),
    {
        let packet = self.cmio_write_queue.pop();
        proof {
            if packet is Some {
                assert(self@.write_queue =~= old(self)@.write_queue.drop_last());
            } else {
                assert(self@.write_queue =~= old(self)@.write_queue);
            }
        }
        packet
    }

    /// Whether a service is registered on `port`.
    pub fn has_listener(&self, port: u32) -> (found: bool)
        ensures
            found == self@.listeners.contains(port),
    {
        self.listeners.contains_key(&port)
    }

    /// Whether a client is registered on `port`.
    pub fn has_client(&self, port: u32) -> (found: bool)
        ensures
            found == self@.clients.contains(port),
    {
        self.clients.contains_key(&port)
    }

    /// Takes the service on `port` out of the registry, for the caller to
    /// work on and to register again.
    pub fn take_listener(&mut self, port: u32) -> (service: Option<S>)
        ensures
            service is Some <==> old(self)@.listeners.contains(port),
            service == if old(self).held_services().contains_key(port) {
                Some(old(self).held_services()[port])
            } else {
                None
            },
            final(self)@ == (RunnerView {
                listeners: old(self)@.listeners.remove(port),
                ..old(self)@
            }),
            final(self).held_services() == old(self).held_services().remove(port),
            final(self).held_clients() == old(self).held_clients(),
    {
        let service = self.listeners.remove(&port);
        assert(self@.listeners =~= old(self)@.listeners.remove(port));
        service
    }

    /// Takes the client on `port` out of the registry, for the caller to
    /// work on and to register again.
    pub fn take_client(&mut self, port: u32) -> (client: Option<C>)
        ensures
            client is Some <==> old(self)@.clients.contains(port),
            client == if old(self).held_clients().contains_key(port) {
                Some(old(self).held_clients()[port])
            } else {
                None
            },
            final(self)@ == (RunnerView { clients: old(self)@.clients.remove(port), ..old(self)@ }),
            final(self).held_clients() == old(self).held_clients().remove(port),
            final(self).held_services() == old(self).held_services(),
    {
        let client = self.clients.remove(&port);
        assert(self@.clients =~= old(self)@.clients.remove(port));
        client
    }

    /// The request that waits for an answer from `target_port`.
    pub fn get_pending_request(&self, target_port: u32) -> (request: Option<PendingRequest>)
        ensures
            request == if self@.pending.contains_key(target_port) {
                Some(self@.pending[target_port])
            } else {
                None
            },
    {
        match self.pending_requests.get(&target_port) {
            Some(request) => Some(*request),
            None => None,
        }
    }

    /// Ends the wait for an answer from `target_port`.
    pub fn remove_pending_request(&mut self, target_port: u32) -> (request: Option<PendingRequest>)
        ensures
            final(self).held_services() == old(self).held_services(),
            final(self).held_clients() == old(self).held_clients(),
            request == if old(self)@.pending.contains_key(target_port) {
                Some(old(self)@.pending[target_port])
            } else {
                None
            },
            final(self)@ == (RunnerView {
                pending: old(self)@.pending.remove(target_port),
                ..old(self)@
            }),
    {
        self.pending_requests.remove(&target_port)
    }

    /// Notes that the REQUEST `sent` has left the write queue.
    pub fn mark_request_sent(&mut self, sent: &Packet)
        ensures
            final(self).held_services() == old(self).held_services(),
            final(self).held_clients() == old(self).held_clients(),
            final(self)@ == (RunnerView {
                pending: mark_sent(old(self)@.pending, sent@),
                ..old(self)@
            }),
    {
        let target: u32 = sent.hdr().dst_port;
        if sent.hdr().op == VSOCK_OP_REQUEST {
            let waiting = match self.pending_requests.get(&target) {
                Some(request) => Some(*request),
                None => None,
            };
            if let Some(request) = waiting {
                self.pending_requests.insert(
                    target,
                    PendingRequest { not_yet_sent: false, ..request },
                );
            }
        }
    }

    /// Stages `packets` in the order given.
    pub fn extend_write_queue(&mut self, packets: Vec<Packet>)
        ensures
            final(self).held_services() == old(self).held_services(),
            final(self).held_clients() == old(self).held_clients(),
            final(self)@ == (RunnerView {
                write_queue: old(self)@.write_queue + packets@.map_values(|p: Packet| p@),
                ..old(self)@
            }),
    {
        let ghost staged = packets@.map_values(|p: Packet| p@);
        let mut packets = packets;
        self.cmio_write_queue.append(&mut packets);
        assert(self@.write_queue =~= old(self)@.write_queue + staged);
    }

    pub fn add_to_read_queue(&mut self, packet: Packet)
        ensures
            final(self).held_services() == old(self).held_services(),
            final(self).held_clients() == old(self).held_clients(),
            final(self)@ == (RunnerView {
                read_queue: old(self)@.read_queue.push(packet@),
                ..old(self)@
            }),
    {
        self.cmio_read_queue.push(packet);
        assert(self@.read_queue =~= old(self)@.read_queue.push(packet@));
    }

    /// Takes the packet that was queued last.
    pub fn pop_from_read_queue(&mut self) -> (packet: Option<Packet>)
        ensures
            final(self).held_services() == old(self).held_services(),
            final(self).held_clients() == old(self).held_clients(),
            old(self)@.read_queue.len() == 0 ==> packet is None && final(self)@ == old(self)@,
            old(self)@.read_queue.len() > 0 ==> packet is Some && packet.unwrap()@ == old(
                self,
            )@.read_queue.last() && final(self)@ == (RunnerView {
                read_queue: old(self)@.read_queue.drop_last(),
                ..old(self)@
            }),
    {
        let packet = self.cmio_read_queue.pop();
        proof {
            if packet is Some {
                assert(self@.read_queue =~= old(self)@.read_queue.drop_last());
            } else {
                assert(self@.read_queue =~= old(self)@.read_queue);
            }
        }
        packet
    }
}

} // verus!
