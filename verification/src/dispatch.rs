//! The dispatch table: what each packet of the guest does to the
//! multiplexer's tables, and which callback it calls for.

use vstd::prelude::*;
use crate::runner::{
    called, called_all, reply_packet, Call, Client, RunnerState, RunnerView, Service,
};
use crate::vsock_protocol::{
    create_reply_header, Packet, PacketView, VSOCK_OP_REQUEST, VSOCK_OP_RESPONSE, VSOCK_OP_RST,
    VSOCK_OP_RW, VSOCK_OP_SHUTDOWN,
};

verus! {

broadcast use vstd::std_specs::hash::group_hash_axioms;

/// Who a callback goes to: the service or the client registered on a port.
#[derive(Debug, Copy, Clone, PartialEq, Eq, Structural)]
pub enum Owner {
    Service(u32),
    Client(u32),
}

/// What a callback reports.
#[derive(Debug, Copy, Clone, PartialEq, Eq, Structural)]
pub enum Event {
    /// A guest opened a connection to a service (`Service::on_connection`).
    Connection,
    /// The guest accepted a client's connection (`Client::on_connect_success`).
    ConnectSuccess,
    /// The guest refused a client's connection (`Client::on_connect_failed`).
    ConnectFailed,
    /// Bytes arrived (`on_data`).
    Data,
    /// The peer reset the connection (`on_reset`).
    Reset,
    /// The peer shut the connection down (`on_shutdown`).
    Shutdown,
}

/// One callback that the multiplexer owes: to whom, about which peer, what,
/// and with which bytes (none but for `Event::Data`).
pub struct Delivery {
    pub owner: Owner,
    pub peer: u32,
    pub event: Event,
    pub data: Vec<u8>,
}

/// A delivery as plain values.
pub struct DeliveryView {
    pub owner: Owner,
    pub peer: u32,
    pub event: Event,
    pub data: Seq<u8>,
}

impl View for Delivery {
    type V = DeliveryView;

    open spec fn view(&self) -> DeliveryView {
        DeliveryView { owner: self.owner, peer: self.peer, event: self.event, data: self.data@ }
    }
}

/// The call that a delivery stands for.
pub open spec fn call_of(d: DeliveryView) -> Call {
    match d.event {
        Event::Connection => Call::Connection(d.peer),
        Event::ConnectSuccess => Call::ConnectSuccess(d.peer),
        Event::ConnectFailed => Call::ConnectFailed(d.peer),
        Event::Data => Call::Data(d.peer, d.data),
        Event::Reset => Call::Reset(d.peer),
        Event::Shutdown => Call::Shutdown(d.peer),
    }
}

/// Whether the owner of a delivery has a callback for its event: a service
/// has none for the outcome of a connection attempt, and a client has none
/// for an incoming connection.
pub open spec fn has_callback(d: DeliveryView) -> bool {
    match d.owner {
        Owner::Service(_) => d.event != Event::ConnectSuccess && d.event != Event::ConnectFailed,
        Owner::Client(_) => d.event != Event::Connection,
    }
}

/// What a delivery does to the services held: the callback is made on the
/// service that owns it, if that service is registered and has such a
/// callback, and on nobody else.
pub open spec fn service_delivered<S: Service>(
    pre: Map<u32, S>,
    d: DeliveryView,
    post: Map<u32, S>,
) -> bool {
    match d.owner {
        Owner::Service(port) => if pre.contains_key(port) && has_callback(d) {
            &&& post.contains_key(port)
            &&& post == pre.insert(port, post[port])
            &&& called(
                pre[port].records(),
                pre[port].calls(),
                call_of(d),
                post[port].records(),
                post[port].calls(),
            )
        } else {
            post == pre
        },
        Owner::Client(_) => post == pre,
    }
}

/// What a delivery does to the clients held: the callback is made on the
/// client that owns it, if that client is registered and has such a
/// callback, and on nobody else.
pub open spec fn client_delivered<C: Client>(
    pre: Map<u32, C>,
    d: DeliveryView,
    post: Map<u32, C>,
) -> bool {
    match d.owner {
        Owner::Client(port) => if pre.contains_key(port) && has_callback(d) {
            &&& post.contains_key(port)
            &&& post == pre.insert(port, post[port])
            &&& called(
                pre[port].records(),
                pre[port].calls(),
                call_of(d),
                post[port].records(),
                post[port].calls(),
            )
        } else {
            post == pre
        },
        Owner::Service(_) => post == pre,
    }
}

/// What a dispatch does to the services and clients held: the callback that
/// the packet calls for, if any, is made on its owner, and nobody else is
/// touched.
pub open spec fn owners_after<S: Service, C: Client>(
    services: Map<u32, S>,
    clients: Map<u32, C>,
    delivery: Option<DeliveryView>,
    services_after: Map<u32, S>,
    clients_after: Map<u32, C>,
) -> bool {
    match delivery {
        Some(d) => service_delivered(services, d, services_after) && client_delivered(
            clients,
            d,
            clients_after,
        ),
        None => services_after == services && clients_after == clients,
    }
}

/// The calls that `deliveries` make on `owner`, in order.
pub open spec fn delivery_calls(deliveries: Seq<DeliveryView>, owner: Owner) -> Seq<Call>
    decreases deliveries.len(),
{
    if deliveries.len() == 0 {
        Seq::<Call>::empty()
    } else {
        let earlier = delivery_calls(deliveries.drop_last(), owner);
        let d = deliveries.last();
        if d.owner == owner && has_callback(d) {
            earlier.push(call_of(d))
        } else {
            earlier
        }
    }
}

/// What a run of deliveries does to the services held: every service is
/// called as `delivery_calls` says, and one that nothing is delivered to is
/// as it was.
pub open spec fn services_delivered_all<S: Service>(
    pre: Map<u32, S>,
    deliveries: Seq<DeliveryView>,
    post: Map<u32, S>,
) -> bool {
    &&& post.dom() == pre.dom()
    &&& forall|port: u32| #[trigger]
        pre.contains_key(port) ==> {
            let calls = delivery_calls(deliveries, Owner::Service(port));
            &&& called_all(
                pre[port].records(),
                pre[port].calls(),
                calls,
                post[port].records(),
                post[port].calls(),
            )
            &&& calls.len() == 0 ==> post[port] == pre[port]
        }
}

/// What a run of deliveries does to the clients held: every client is
/// called as `delivery_calls` says, and one that nothing is delivered to is
/// as it was.
pub open spec fn clients_delivered_all<C: Client>(
    pre: Map<u32, C>,
    deliveries: Seq<DeliveryView>,
    post: Map<u32, C>,
) -> bool {
    &&& post.dom() == pre.dom()
    &&& forall|port: u32| #[trigger]
        pre.contains_key(port) ==> {
            let calls = delivery_calls(deliveries, Owner::Client(port));
            &&& called_all(
                pre[port].records(),
                pre[port].calls(),
                calls,
                post[port].records(),
                post[port].calls(),
            )
            &&& calls.len() == 0 ==> post[port] == pre[port]
        }
}

/// One more delivery adds its call to the record of its owner, and nothing
/// to anybody else's.
pub proof fn lemma_delivery_calls_push(deliveries: Seq<DeliveryView>, d: DeliveryView, owner: Owner)
    ensures
        delivery_calls(deliveries.push(d), owner) == if d.owner == owner && has_callback(d) {
            delivery_calls(deliveries, owner).push(call_of(d))
        } else {
            delivery_calls(deliveries, owner)
        },
{
    assert(deliveries.push(d).drop_last() =~= deliveries);
}

/// A dispatch after a run of deliveries is a run of deliveries: the run
/// with the callback of the dispatch, if there is one, at its end.
pub proof fn lemma_owners_after_run<S: Service, C: Client>(
    services: Map<u32, S>,
    clients: Map<u32, C>,
    deliveries: Seq<DeliveryView>,
    services_now: Map<u32, S>,
    clients_now: Map<u32, C>,
    delivery: Option<DeliveryView>,
    services_after: Map<u32, S>,
    clients_after: Map<u32, C>,
)
    requires
        services_delivered_all(services, deliveries, services_now),
        clients_delivered_all(clients, deliveries, clients_now),
        owners_after(services_now, clients_now, delivery, services_after, clients_after),
    ensures
        services_delivered_all(services, with_delivery(deliveries, delivery), services_after),
        clients_delivered_all(clients, with_delivery(deliveries, delivery), clients_after),
{
    match delivery {
        Some(d) => {
            let run = deliveries.push(d);
            assert(services_after.dom() =~= services.dom());
            assert(clients_after.dom() =~= clients.dom());
            assert forall|port: u32| #[trigger] services.contains_key(port) implies {
                let calls = delivery_calls(run, Owner::Service(port));
                &&& called_all(
                    services[port].records(),
                    services[port].calls(),
                    calls,
                    services_after[port].records(),
                    services_after[port].calls(),
                )
                &&& calls.len() == 0 ==> services_after[port] == services[port]
            } by {
                lemma_delivery_calls_push(deliveries, d, Owner::Service(port));
                assert(services_now.contains_key(port));
                let before = delivery_calls(deliveries, Owner::Service(port));
                if d.owner == Owner::Service(port) && has_callback(d) {
                    assert(services[port].calls() + before.push(call_of(d)) =~= (
                    services[port].calls() + before).push(call_of(d)));
                }
            }
            assert forall|port: u32| #[trigger] clients.contains_key(port) implies {
                let calls = delivery_calls(run, Owner::Client(port));
                &&& called_all(
                    clients[port].records(),
                    clients[port].calls(),
                    calls,
                    clients_after[port].records(),
                    clients_after[port].calls(),
                )
                &&& calls.len() == 0 ==> clients_after[port] == clients[port]
            } by {
                lemma_delivery_calls_push(deliveries, d, Owner::Client(port));
                assert(clients_now.contains_key(port));
                let before = delivery_calls(deliveries, Owner::Client(port));
                if d.owner == Owner::Client(port) && has_callback(d) {
                    assert(clients[port].calls() + before.push(call_of(d)) =~= (
                    clients[port].calls() + before).push(call_of(d)));
                }
            }
        },
        None => {},
    }
}

/// A run of deliveries with one more at its end, if there is one more.
pub open spec fn with_delivery(deliveries: Seq<DeliveryView>, delivery: Option<DeliveryView>) -> Seq<
    DeliveryView,
> {
    match delivery {
        Some(d) => deliveries.push(d),
        None => deliveries,
    }
}

/// The view of a delivery that may be absent.
pub open spec fn delivery_view(delivery: Option<Delivery>) -> Option<DeliveryView> {
    match delivery {
        Some(d) => Some(d@),
        None => None,
    }
}

/// A callback for the service on `service_port`, if one is registered.
pub open spec fn to_service(
    s: RunnerView,
    service_port: u32,
    peer: u32,
    event: Event,
    data: Seq<u8>,
) -> Option<DeliveryView> {
    if s.listeners.contains(service_port) {
        Some(DeliveryView { owner: Owner::Service(service_port), peer, event, data })
    } else {
        None
    }
}

/// A callback for the client on `client_port`, if one is registered.
pub open spec fn to_client(
    s: RunnerView,
    client_port: u32,
    peer: u32,
    event: Event,
    data: Seq<u8>,
) -> Option<DeliveryView> {
    if s.clients.contains(client_port) {
        Some(DeliveryView { owner: Owner::Client(client_port), peer, event, data })
    } else {
        None
    }
}

/// A callback for whoever owns the connection of `peer`: the service of an
/// inbound connection, else the client of an outbound one, else nobody.
pub open spec fn routed(s: RunnerView, peer: u32, event: Event, data: Seq<u8>) -> Option<
    DeliveryView,
> {
    if s.service_conns.contains_key(peer) {
        to_service(s, s.service_conns[peer], peer, event, data)
    } else if s.client_conns.contains_key(peer) {
        to_client(s, s.client_conns[peer], peer, event, data)
    } else {
        None
    }
}

/// The dispatch table: what one packet of the guest does to the tables and
/// queues, and the callback it calls for.
///
/// With `src` and `dst` the packet's source and destination port:
/// - REQUEST with a listener on `dst`: a RESPONSE is staged, `src` becomes an
///   inbound connection of that listener, which learns of the connection;
///   without a listener an RST is staged.
/// - RESPONSE with a pending request for `src`: the request ends, `src`
///   becomes an outbound connection of the client that asked, which learns of
///   its success; without one the packet is dropped.
/// - RW: the owner of the connection of `src` gets the payload; without a
///   connection the packet is dropped.
/// - RST: the owner of the connection of `src` learns of the reset, or else
///   the client of a pending request for `src` learns that it failed; `src`
///   leaves every table.
/// - SHUTDOWN: the owner of the connection of `src` learns of it, and the
///   connection ends.
/// - Any other packet is dropped.
pub open spec fn dispatch(s: RunnerView, p: PacketView) -> (RunnerView, Option<DeliveryView>) {
    let src = p.hdr.src_port;
    let dst = p.hdr.dst_port;
    let none = Seq::<u8>::empty();
    if p.hdr.op == VSOCK_OP_REQUEST {
        if s.listeners.contains(dst) {
            (
                RunnerView {
                    write_queue: s.write_queue.push(reply_packet(p.hdr, VSOCK_OP_RESPONSE)),
                    service_conns: s.service_conns.insert(src, dst),
                    client_conns: s.client_conns.remove(src),
                    ..s
                },
                to_service(s, dst, src, Event::Connection, none),
            )
        } else {
            (
                RunnerView {
                    write_queue: s.write_queue.push(reply_packet(p.hdr, VSOCK_OP_RST)),
                    ..s
                },
                None,
            )
        }
    } else if p.hdr.op == VSOCK_OP_RESPONSE {
        if s.pending.contains_key(src) {
            (
                RunnerView {
                    pending: s.pending.remove(src),
                    service_conns: s.service_conns.remove(src),
                    client_conns: s.client_conns.insert(src, s.pending[src].client_port),
                    ..s
                },
                to_client(s, s.pending[src].client_port, src, Event::ConnectSuccess, none),
            )
        } else {
            (s, None)
        }
    } else if p.hdr.op == VSOCK_OP_RW {
        (s, routed(s, src, Event::Data, p.payload))
    } else if p.hdr.op == VSOCK_OP_RST {
        (
            RunnerView {
                pending: s.pending.remove(src),
                service_conns: s.service_conns.remove(src),
                client_conns: s.client_conns.remove(src),
                ..s
            },
            if s.connected(src) {
                routed(s, src, Event::Reset, none)
            } else if s.pending.contains_key(src) {
                to_client(s, s.pending[src].client_port, src, Event::ConnectFailed, none)
            } else {
                None
            },
        )
    } else if p.hdr.op == VSOCK_OP_SHUTDOWN {
        (
            RunnerView {
                service_conns: s.service_conns.remove(src),
                client_conns: s.client_conns.remove(src),
                ..s
            },
            routed(s, src, Event::Shutdown, none),
        )
    } else {
        (s, None)
    }
}

/// What dispatching `packets` one after the other leaves, and the callbacks
/// in the order they are owed.
pub open spec fn dispatch_all(s: RunnerView, packets: Seq<PacketView>) -> (
    RunnerView,
    Seq<DeliveryView>,
)
    decreases packets.len(),
{
    if packets.len() == 0 {
        (s, Seq::<DeliveryView>::empty())
    } else {
        let (before, earlier) = dispatch_all(s, packets.drop_last());
        let (after, delivery) = dispatch(before, packets.last());
        (
            after,
            match delivery {
                Some(d) => earlier.push(d),
                None => earlier,
            },
        )
    }
}

/// The payloads of `packets`, one after the other.
pub open spec fn payload_bytes(packets: Seq<PacketView>) -> Seq<u8>
    decreases packets.len(),
{
    if packets.len() == 0 {
        Seq::<u8>::empty()
    } else {
        payload_bytes(packets.drop_last()) + packets.last().payload
    }
}

/// The bytes that `deliveries` hand to `on_data` for `peer`, one after the
/// other.
pub open spec fn delivered_bytes(deliveries: Seq<DeliveryView>, peer: u32) -> Seq<u8>
    decreases deliveries.len(),
{
    if deliveries.len() == 0 {
        Seq::<u8>::empty()
    } else {
        let d = deliveries.last();
        let earlier = delivered_bytes(deliveries.drop_last(), peer);
        if d.event == Event::Data && d.peer == peer {
            earlier + d.data
        } else {
            earlier
        }
    }
}

/// Whether the owner of the connection of `peer` is registered, so that
/// callbacks for `peer` reach somebody.
pub open spec fn owner_registered(s: RunnerView, peer: u32) -> bool {
    routed(s, peer, Event::Data, Seq::<u8>::empty()) is Some
}

/// At most one connection per peer: a dispatch keeps it so.
pub proof fn lemma_dispatch_keeps_peers_unique(s: RunnerView, p: PacketView)
    requires
        s.wf(),
    ensures
        dispatch(s, p).0.wf(),
{
}

/// At most one connection per peer: any sequence of dispatches keeps it so.
pub proof fn lemma_dispatch_all_keeps_peers_unique(s: RunnerView, packets: Seq<PacketView>)
    requires
        s.wf(),
    ensures
        dispatch_all(s, packets).0.wf(),
    decreases packets.len(),
{
    if packets.len() > 0 {
        lemma_dispatch_all_keeps_peers_unique(s, packets.drop_last());
        lemma_dispatch_keeps_peers_unique(dispatch_all(s, packets.drop_last()).0, packets.last());
    }
}

/// RST removes state: after the dispatch of an RST, the sender's port has no
/// connection and no pending request.
pub proof fn lemma_rst_removes_state(s: RunnerView, p: PacketView)
    requires
        p.hdr.op == VSOCK_OP_RST,
    ensures
        !dispatch(s, p).0.service_conns.contains_key(p.hdr.src_port),
        !dispatch(s, p).0.client_conns.contains_key(p.hdr.src_port),
        !dispatch(s, p).0.pending.contains_key(p.hdr.src_port),
{
}

/// A REQUEST for a port without a listener is answered with an RST and
/// leaves no connection behind.
pub proof fn lemma_unknown_port_reset(s: RunnerView, p: PacketView)
    requires
        p.hdr.op == VSOCK_OP_REQUEST,
        !s.listeners.contains(p.hdr.dst_port),
    ensures
        dispatch(s, p).1 is None,
        dispatch(s, p).0 == (RunnerView {
            write_queue: s.write_queue.push(reply_packet(p.hdr, VSOCK_OP_RST)),
            ..s
        }),
        dispatch(s, p).0.write_queue.last().hdr.op == VSOCK_OP_RST,
        dispatch(s, p).0.write_queue.last().hdr.dst_port == p.hdr.src_port,
{
}

/// Multiplexer ordering: RW packets from one port whose connection has a
/// registered owner change no table, and the bytes handed to `on_data` for
/// that port are the payloads in the order of the packets.
pub proof fn lemma_data_in_order(s: RunnerView, packets: Seq<PacketView>, peer: u32)
    requires
        owner_registered(s, peer),
        forall|i: int|
            0 <= i < packets.len() ==> (#[trigger] packets[i]).hdr.op == VSOCK_OP_RW
                && packets[i].hdr.src_port == peer,
    ensures
        dispatch_all(s, packets).0 == s,
        dispatch_all(s, packets).1.len() == packets.len(),
        delivered_bytes(dispatch_all(s, packets).1, peer) == payload_bytes(packets),
    decreases packets.len(),
{
    if packets.len() > 0 {
        let earlier = packets.drop_last();
        assert forall|i: int| 0 <= i < earlier.len() implies (#[trigger] earlier[i]).hdr.op
            == VSOCK_OP_RW && earlier[i].hdr.src_port == peer by {
            assert(earlier[i] == packets[i]);
        }
        lemma_data_in_order(s, earlier, peer);
        let last = packets.last();
        assert(last == packets[packets.len() - 1]);
        let (before, deliveries) = dispatch_all(s, earlier);
        let d = dispatch(before, last).1;
        assert(d is Some);
        assert(deliveries.push(d.unwrap()).drop_last() =~= deliveries);
    }
}

impl<S: Service, C: Client> RunnerState<S, C> {
    /// The callback owed to whoever owns the connection of `peer`.
    fn route(&self, peer: u32, event: Event, data: Vec<u8>) -> (delivery: Option<Delivery>)
        ensures
            delivery_view(delivery) == routed(self@, peer, event, data@),
    {
        match self.get_service_port(peer) {
            Some(port) => self.for_service(port, peer, event, data),
            None => match self.get_client_port(peer) {
                Some(port) => self.for_client(port, peer, event, data),
                None => None,
            },
        }
    }

    fn for_service(&self, service_port: u32, peer: u32, event: Event, data: Vec<u8>) -> (delivery:
        Option<Delivery>)
        ensures
            delivery_view(delivery) == to_service(self@, service_port, peer, event, data@),
    {
        if self.has_listener(service_port) {
            Some(Delivery { owner: Owner::Service(service_port), peer, event, data })
        } else {
            None
        }
    }

    fn for_client(&self, client_port: u32, peer: u32, event: Event, data: Vec<u8>) -> (delivery:
        Option<Delivery>)
        ensures
            delivery_view(delivery) == to_client(self@, client_port, peer, event, data@),
    {
        if self.has_client(client_port) {
            Some(Delivery { owner: Owner::Client(client_port), peer, event, data })
        } else {
            None
        }
    }

    /// Applies the dispatch table to one packet of the guest: the tables and
    /// queues change as `dispatch` says, and the callback it calls for is
    /// returned, not yet made.
    pub fn decide(&mut self, packet: Packet) -> (delivery: Option<Delivery>)
        ensures
            (final(self)@, delivery_view(delivery)) == dispatch(old(self)@, packet@),
            old(self)@.wf() ==> final(self)@.wf(),
            final(self).held_services() == old(self).held_services(),
            final(self).held_clients() == old(self).held_clients(),
    {
        let (hdr, payload) = packet.into_parts();
        let src: u32 = hdr.src_port;
        let dst: u32 = hdr.dst_port;
        let ghost pre = self@;
        if hdr.op == VSOCK_OP_REQUEST {
            if self.has_listener(dst) {
                let reply = Packet::new(create_reply_header(&hdr, VSOCK_OP_RESPONSE, 0), Vec::new());
                assert(reply@.payload =~= Seq::<u8>::empty());
                let delivery = self.for_service(dst, src, Event::Connection, Vec::new());
                assert(delivery.unwrap()@.data =~= Seq::<u8>::empty());
                self.add_to_write_queue(reply);
                self.add_connection(src, dst);
                delivery
            } else {
                let reply = Packet::new(create_reply_header(&hdr, VSOCK_OP_RST, 0), Vec::new());
                assert(reply@.payload =~= Seq::<u8>::empty());
                self.add_to_write_queue(reply);
                None
            }
        } else if hdr.op == VSOCK_OP_RESPONSE {
            match self.remove_pending_request(src) {
                Some(request) => {
                    let delivery = self.for_client(
                        request.client_port,
                        src,
                        Event::ConnectSuccess,
                        Vec::new(),
                    );
                    assert(delivery is Some ==> delivery.unwrap()@.data =~= Seq::<u8>::empty());
                    self.add_client_connection(src, request.client_port);
                    delivery
                },
                None => {
                    assert(self@.pending =~= pre.pending);
                    None
                },
            }
        } else if hdr.op == VSOCK_OP_RW {
            self.route(src, Event::Data, payload)
        } else if hdr.op == VSOCK_OP_RST {
            let delivery = if self.get_service_port(src).is_some() || self.get_client_port(
                src,
            ).is_some() {
                self.route(src, Event::Reset, Vec::new())
            } else {
                match self.get_pending_request(src) {
                    Some(request) => self.for_client(
                        request.client_port,
                        src,
                        Event::ConnectFailed,
                        Vec::new(),
                    ),
                    None => None,
                }
            };
            assert(delivery is Some ==> delivery.unwrap()@.data =~= Seq::<u8>::empty());
            self.remove_pending_request(src);
            self.remove_connection(src);
            delivery
        } else if hdr.op == VSOCK_OP_SHUTDOWN {
            let delivery = self.route(src, Event::Shutdown, Vec::new());
            assert(delivery is Some ==> delivery.unwrap()@.data =~= Seq::<u8>::empty());
            self.remove_connection(src);
            delivery
        } else {
            None
        }
    }

    /// Makes the callback that `delivery` describes, if its owner is still
    /// registered: the owner is called with the peer and, for data, the
    /// bytes of the delivery. The tables and queues stay as they are, and so
    /// does everybody but the owner.
    pub fn deliver(&mut self, delivery: Delivery)
        ensures
            final(self)@ == old(self)@,
            service_delivered(old(self).held_services(), delivery@, final(self).held_services()),
            client_delivered(old(self).held_clients(), delivery@, final(self).held_clients()),
    {
        let peer: u32 = delivery.peer;
        let ghost services = self.held_services();
        let ghost clients = self.held_clients();
        match delivery.owner {
            Owner::Service(port) => {
                match self.take_listener(port) {
                    Some(mut service) => {
                        match delivery.event {
                            Event::Connection => service.on_connection(peer),
                            Event::Data => service.on_data(peer, delivery.data.as_slice()),
                            Event::Reset => service.on_reset(peer),
                            Event::Shutdown => service.on_shutdown(peer),
                            _ => {},
                        }
                        self.add_listener(port, service);
                        assert(self@.listeners =~= old(self)@.listeners);
                        assert(self.held_services() =~= services.insert(port, service));
                        assert(self.held_services()[port] == service);
                        proof {
                            if !has_callback(delivery@) {
                                assert(service == services[port]);
                                assert(self.held_services() =~= services);
                            }
                        }
                    },
                    None => {
                        assert(self@.listeners =~= old(self)@.listeners);
                        assert(self.held_services() =~= services);
                    },
                }
            },
            Owner::Client(port) => {
                match self.take_client(port) {
                    Some(mut client) => {
                        match delivery.event {
                            Event::ConnectSuccess => client.on_connect_success(peer),
                            Event::ConnectFailed => client.on_connect_failed(peer),
                            Event::Data => client.on_data(peer, delivery.data.as_slice()),
                            Event::Reset => client.on_reset(peer),
                            Event::Shutdown => client.on_shutdown(peer),
                            _ => {},
                        }
                        self.add_client(port, client);
                        assert(self@.clients =~= old(self)@.clients);
                        assert(self.held_clients() =~= clients.insert(port, client));
                        assert(self.held_clients()[port] == client);
                        proof {
                            if !has_callback(delivery@) {
                                assert(client == clients[port]);
                                assert(self.held_clients() =~= clients);
                            }
                        }
                    },
                    None => {
                        assert(self@.clients =~= old(self)@.clients);
                        assert(self.held_clients() =~= clients);
                    },
                }
            },
        }
    }

    /// Dispatches one packet of the guest: the tables and queues change as
    /// `dispatch` says, and the callback it calls for is made on its owner.
    pub fn dispatch_packet(&mut self, packet: Packet)
        ensures
            final(self)@ == dispatch(old(self)@, packet@).0,
            old(self)@.wf() ==> final(self)@.wf(),
            owners_after(
                old(self).held_services(),
                old(self).held_clients(),
                dispatch(old(self)@, packet@).1,
                final(self).held_services(),
                final(self).held_clients(),
            ),
    {
        match self.decide(packet) {
            Some(delivery) => self.deliver(delivery),
            None => {},
        }
    }
}

} // verus!
