//! One tick of the multiplexer: answer the yield with at most one packet,
//! dispatch what the guest sent, and poll the connections' owners for egress.

use vstd::prelude::*;
use crate::dispatch::{
    call_of, clients_delivered_all, delivery_calls, dispatch, has_callback, lemma_dispatch_keeps_peers_unique,
    lemma_owners_after_run, services_delivered_all, with_delivery, DeliveryView, Event, Owner,
};
use crate::runner::{
    bytes_view, called_all, construct_packet, host_packet, inbound_first, mark_sent,
    packet_view, Call, Client, RunnerState, RunnerView, Service,
};
use crate::vsock_protocol::{
    decode, encode, Packet, PacketView, MAX_PAYLOAD_LEN, VSOCK_OP_RW, VSOCK_OP_SHUTDOWN,
};

verus! {

broadcast use vstd::std_specs::hash::group_hash_axioms;

/// What the emulator hands over at a yield, as far as the multiplexer reads
/// it.
pub enum CmioRequest {
    /// An automatic yield that carries an output.
    TxOutput(Vec<u8>),
    /// A manual yield that carries bytes for a domain.
    Gio(Vec<u8>),
    /// Any other yield.
    Other,
}

/// The bytes that a yield carries, if it carries any.
pub open spec fn request_data(request: CmioRequest) -> Option<Seq<u8>> {
    match request {
        CmioRequest::TxOutput(data) => Some(data@),
        CmioRequest::Gio(data) => Some(data@),
        CmioRequest::Other => None,
    }
}

/// The packet that a yield carries: its bytes, where it has any and they
/// decode.
pub open spec fn request_packet_of(request: CmioRequest) -> Option<PacketView> {
    match request_data(request) {
        Some(data) => if data.len() > 0 && decode(data) is Ok {
            Some(decode(data).unwrap())
        } else {
            None
        },
        None => None,
    }
}

/// The half-duplex rule: what a yield is answered with. A packet of the
/// guest is queued for dispatch and answered with nothing, whatever waits in
/// the write queue. Only when the guest sent nothing does the packet staged
/// last leave, as the answer.
pub open spec fn select_reply(s: RunnerView, incoming: Option<PacketView>) -> (
    RunnerView,
    Seq<u8>,
) {
    match incoming {
        Some(p) => (RunnerView { read_queue: s.read_queue.push(p), ..s }, Seq::<u8>::empty()),
        None => if s.write_queue.len() > 0 {
            (
                RunnerView {
                    write_queue: s.write_queue.drop_last(),
                    pending: mark_sent(s.pending, s.write_queue.last()),
                    ..s
                },
                encode(s.write_queue.last()),
            )
        } else {
            (s, Seq::<u8>::empty())
        },
    }
}

/// What draining the read queue leaves: its packets dispatched one by one,
/// the last one first.
pub open spec fn drained(s: RunnerView) -> RunnerView
    decreases s.read_queue.len(),
{
    if s.read_queue.len() == 0 {
        s
    } else {
        let rest = RunnerView { read_queue: s.read_queue.drop_last(), ..s };
        drained(dispatch(rest, s.read_queue.last()).0)
    }
}

/// The callbacks that draining the read queue calls for, in the order in
/// which they are made.
pub open spec fn drained_deliveries(s: RunnerView) -> Seq<DeliveryView>
    decreases s.read_queue.len(),
{
    if s.read_queue.len() == 0 {
        Seq::<DeliveryView>::empty()
    } else {
        let rest = RunnerView { read_queue: s.read_queue.drop_last(), ..s };
        let (after, delivery) = dispatch(rest, s.read_queue.last());
        with_delivery(Seq::<DeliveryView>::empty(), delivery) + drained_deliveries(after)
    }
}

/// The packets that a connection's owner sends to `port` in one poll: an RW
/// with the bytes it handed out, if any and at most 4096, then a SHUTDOWN if
/// it asked for one. More than 4096 bytes make no packet and are dropped.
pub open spec fn egress_for(port: u32, data: Option<Seq<u8>>, shutdown: bool) -> Seq<PacketView> {
    let rw = match data {
        Some(bytes) => if bytes.len() <= MAX_PAYLOAD_LEN {
            seq![host_packet(port, VSOCK_OP_RW, bytes)]
        } else {
            Seq::<PacketView>::empty()
        },
        None => Seq::<PacketView>::empty(),
    };
    if shutdown {
        rw.push(host_packet(port, VSOCK_OP_SHUTDOWN, Seq::<u8>::empty()))
    } else {
        rw
    }
}

/// What the owner of the connection to `port` answered to a poll.
pub struct Egress {
    pub port: u32,
    /// The bytes it handed out, if any.
    pub data: Option<Vec<u8>>,
    /// Whether it asked for the connection to be shut down.
    pub shutdown: bool,
}

/// An answer to a poll as plain values.
pub struct EgressView {
    pub port: u32,
    pub data: Option<Seq<u8>>,
    pub shutdown: bool,
}

impl View for Egress {
    type V = EgressView;

    open spec fn view(&self) -> EgressView {
        EgressView { port: self.port, data: bytes_view(self.data), shutdown: self.shutdown }
    }
}

/// The calls that a poll makes on the owner of the connection to `port`,
/// with what they returned: first for bytes to send, then whether the
/// connection is to be shut down.
pub open spec fn poll_of(port: u32, data: Option<Seq<u8>>, shutdown: bool) -> Seq<Call> {
    seq![Call::WriteData(port, data), Call::ShouldShutdown(port, shutdown)]
}

/// Whether `owner` is registered.
pub open spec fn registered(s: RunnerView, owner: Owner) -> bool {
    match owner {
        Owner::Service(port) => s.listeners.contains(port),
        Owner::Client(port) => s.clients.contains(port),
    }
}

/// What an owner answered to a poll, as plain values.
pub open spec fn answer_view(answer: Option<(Option<Vec<u8>>, bool)>) -> Option<
    (Option<Seq<u8>>, bool),
> {
    match answer {
        Some((data, shutdown)) => Some((bytes_view(data), shutdown)),
        None => None,
    }
}

/// What a poll for the connection to `port` does to the services held: the
/// service that owns the connection, if it is registered, is asked and gave
/// `answer`; nobody else is touched.
pub open spec fn service_asked<S: Service>(
    pre: Map<u32, S>,
    owner: Owner,
    port: u32,
    answer: Option<(Option<Seq<u8>>, bool)>,
    post: Map<u32, S>,
) -> bool {
    match owner {
        Owner::Service(held) => if pre.contains_key(held) {
            &&& answer is Some
            &&& post.contains_key(held)
            &&& post == pre.insert(held, post[held])
            &&& called_all(
                pre[held].records(),
                pre[held].calls(),
                poll_of(port, answer.unwrap().0, answer.unwrap().1),
                post[held].records(),
                post[held].calls(),
            )
        } else {
            post == pre
        },
        Owner::Client(_) => post == pre,
    }
}

/// What a poll for the connection to `port` does to the clients held: the
/// client that owns the connection, if it is registered, is asked and gave
/// `answer`; nobody else is touched.
pub open spec fn client_asked<C: Client>(
    pre: Map<u32, C>,
    owner: Owner,
    port: u32,
    answer: Option<(Option<Seq<u8>>, bool)>,
    post: Map<u32, C>,
) -> bool {
    match owner {
        Owner::Client(held) => if pre.contains_key(held) {
            &&& answer is Some
            &&& post.contains_key(held)
            &&& post == pre.insert(held, post[held])
            &&& called_all(
                pre[held].records(),
                pre[held].calls(),
                poll_of(port, answer.unwrap().0, answer.unwrap().1),
                post[held].records(),
                post[held].calls(),
            )
        } else {
            post == pre
        },
        Owner::Service(_) => post == pre,
    }
}

/// Whom a poll asks for the connection of `peer`: the service of an inbound
/// connection, else the client of an outbound one, if it is registered.
pub open spec fn polled_owner(s: RunnerView, peer: u32) -> Option<Owner> {
    if s.service_conns.contains_key(peer) {
        if s.listeners.contains(s.service_conns[peer]) {
            Some(Owner::Service(s.service_conns[peer]))
        } else {
            None
        }
    } else if s.client_conns.contains_key(peer) {
        if s.clients.contains(s.client_conns[peer]) {
            Some(Owner::Client(s.client_conns[peer]))
        } else {
            None
        }
    } else {
        None
    }
}

/// The calls that the polls behind `answers` made on `owner`, in order.
pub open spec fn poll_calls(s: RunnerView, answers: Seq<EgressView>, owner: Owner) -> Seq<Call>
    decreases answers.len(),
{
    if answers.len() == 0 {
        Seq::<Call>::empty()
    } else {
        let earlier = poll_calls(s, answers.drop_last(), owner);
        let a = answers.last();
        if polled_owner(s, a.port) == Some(owner) {
            earlier + poll_of(a.port, a.data, a.shutdown)
        } else {
            earlier
        }
    }
}

/// Whether the first `inbound` of `answers` are for inbound connections and
/// the others for outbound ones.
pub open spec fn inbound_answers(s: RunnerView, answers: Seq<EgressView>, inbound: int) -> bool {
    &&& 0 <= inbound <= answers.len()
    &&& forall|i: int|
        0 <= i < answers.len() ==> if i < inbound {
            s.service_conns.contains_key((#[trigger] answers[i]).port)
        } else {
            s.client_conns.contains_key(answers[i].port)
        }
}

/// Whether `answers` are what one round of polls in state `s` collects: one
/// answer for every connection whose owner is registered, and none else,
/// those for inbound connections first.
pub open spec fn collected(s: RunnerView, answers: Seq<EgressView>) -> bool {
    &&& exists|inbound: int| #[trigger] inbound_answers(s, answers, inbound)
    &&& forall|i: int|
        0 <= i < answers.len() ==> polled_owner(s, (#[trigger] answers[i]).port) is Some
    &&& forall|peer: u32| #[trigger]
        polled_owner(s, peer) is Some ==> exists|i: int|
            0 <= i < answers.len() && (#[trigger] answers[i]).port == peer
    &&& s.wf() ==> forall|i: int, j: int|
        0 <= i < j < answers.len() ==> (#[trigger] answers[i]).port != (#[trigger] answers[j]).port
}

/// What the polls behind `answers` did to the services held: every service
/// was called as `poll_calls` says, and one that was not asked is as it was.
pub open spec fn services_polled<S: Service>(
    s: RunnerView,
    pre: Map<u32, S>,
    answers: Seq<EgressView>,
    post: Map<u32, S>,
) -> bool {
    &&& post.dom() == pre.dom()
    &&& forall|port: u32| #[trigger]
        pre.contains_key(port) ==> {
            let calls = poll_calls(s, answers, Owner::Service(port));
            &&& called_all(
                pre[port].records(),
                pre[port].calls(),
                calls,
                post[port].records(),
                post[port].calls(),
            )
            &&& calls.len() == 0 ==> post[port] == pre[port]
        }
}

/// What the polls behind `answers` did to the clients held: every client
/// was called as `poll_calls` says, and one that was not asked is as it was.
pub open spec fn clients_polled<C: Client>(
    s: RunnerView,
    pre: Map<u32, C>,
    answers: Seq<EgressView>,
    post: Map<u32, C>,
) -> bool {
    &&& post.dom() == pre.dom()
    &&& forall|port: u32| #[trigger]
        pre.contains_key(port) ==> {
            let calls = poll_calls(s, answers, Owner::Client(port));
            &&& called_all(
                pre[port].records(),
                pre[port].calls(),
                calls,
                post[port].records(),
                post[port].calls(),
            )
            &&& calls.len() == 0 ==> post[port] == pre[port]
        }
}

/// One more answer adds its two calls to the record of the owner it came
/// from, and nothing to anybody else's.
pub proof fn lemma_poll_calls_push(
    s: RunnerView,
    answers: Seq<EgressView>,
    a: EgressView,
    owner: Owner,
)
    ensures
        poll_calls(s, answers.push(a), owner) == if polled_owner(s, a.port) == Some(owner) {
            poll_calls(s, answers, owner) + poll_of(a.port, a.data, a.shutdown)
        } else {
            poll_calls(s, answers, owner)
        },
{
    assert(answers.push(a).drop_last() =~= answers);
}

/// What one round of polls with the answers `answers` makes of the
/// multiplexer: every connection with a registered owner was polled, its
/// owner was asked for bytes and for a shutdown, and what the owners
/// answered is staged.
pub open spec fn poll_done<S: Service, C: Client>(
    pre: RunnerView,
    services: Map<u32, S>,
    clients: Map<u32, C>,
    answers: Seq<EgressView>,
    post: RunnerView,
    services_after: Map<u32, S>,
    clients_after: Map<u32, C>,
) -> bool {
    &&& collected(pre, answers)
    &&& answers_fit(pre, answers)
    &&& post == staged(pre, answers)
    &&& services_polled(pre, services, answers, services_after)
    &&& clients_polled(pre, clients, answers, clients_after)
}

/// What a tick with the answers `answers` makes of the multiplexer. With
/// `queued` the state after the yield is answered and `mid` the state after
/// the read queue is drained: the owners got the callbacks that draining
/// calls for, then every connection with a registered owner was polled, and
/// what the owners answered is staged.
pub open spec fn tick_done<S: Service, C: Client>(
    pre: RunnerView,
    services: Map<u32, S>,
    clients: Map<u32, C>,
    incoming: Option<PacketView>,
    answers: Seq<EgressView>,
    post: RunnerView,
    services_after: Map<u32, S>,
    clients_after: Map<u32, C>,
) -> bool {
    let queued = select_reply(pre, incoming).0;
    let mid = drained(queued);
    let deliveries = drained_deliveries(queued);
    &&& collected(mid, answers)
    &&& answers_fit(mid, answers)
    &&& post == staged(mid, answers)
    &&& services_after.dom() == services.dom()
    &&& clients_after.dom() == clients.dom()
    &&& forall|port: u32| #[trigger]
        services.contains_key(port) ==> {
            let calls = delivery_calls(deliveries, Owner::Service(port)) + poll_calls(
                mid,
                answers,
                Owner::Service(port),
            );
            &&& called_all(
                services[port].records(),
                services[port].calls(),
                calls,
                services_after[port].records(),
                services_after[port].calls(),
            )
            &&& calls.len() == 0 ==> services_after[port] == services[port]
        }
    &&& forall|port: u32| #[trigger]
        clients.contains_key(port) ==> {
            let calls = delivery_calls(deliveries, Owner::Client(port)) + poll_calls(
                mid,
                answers,
                Owner::Client(port),
            );
            &&& called_all(
                clients[port].records(),
                clients[port].calls(),
                calls,
                clients_after[port].records(),
                clients_after[port].calls(),
            )
            &&& calls.len() == 0 ==> clients_after[port] == clients[port]
        }
}

/// A tick is its three parts one after the other: the callbacks of
/// draining, then those of the poll.
pub proof fn lemma_tick_done<S: Service, C: Client>(
    pre: RunnerView,
    services: Map<u32, S>,
    clients: Map<u32, C>,
    incoming: Option<PacketView>,
    services_mid: Map<u32, S>,
    clients_mid: Map<u32, C>,
    answers: Seq<EgressView>,
    post: RunnerView,
    services_after: Map<u32, S>,
    clients_after: Map<u32, C>,
)
    requires
        services_delivered_all(
            services,
            drained_deliveries(select_reply(pre, incoming).0),
            services_mid,
        ),
        clients_delivered_all(
            clients,
            drained_deliveries(select_reply(pre, incoming).0),
            clients_mid,
        ),
        poll_done(
            drained(select_reply(pre, incoming).0),
            services_mid,
            clients_mid,
            answers,
            post,
            services_after,
            clients_after,
        ),
    ensures
        tick_done(pre, services, clients, incoming, answers, post, services_after, clients_after),
{
    let queued = select_reply(pre, incoming).0;
    let mid = drained(queued);
    let deliveries = drained_deliveries(queued);
    assert forall|port: u32| #[trigger] services.contains_key(port) implies {
        let calls = delivery_calls(deliveries, Owner::Service(port)) + poll_calls(
            mid,
            answers,
            Owner::Service(port),
        );
        &&& called_all(
            services[port].records(),
            services[port].calls(),
            calls,
            services_after[port].records(),
            services_after[port].calls(),
        )
        &&& calls.len() == 0 ==> services_after[port] == services[port]
    } by {
        assert(services_mid.contains_key(port));
        let first = delivery_calls(deliveries, Owner::Service(port));
        let second = poll_calls(mid, answers, Owner::Service(port));
        assert((services[port].calls() + first) + second =~= services[port].calls() + (first
            + second));
    }
    assert forall|port: u32| #[trigger] clients.contains_key(port) implies {
        let calls = delivery_calls(deliveries, Owner::Client(port)) + poll_calls(
            mid,
            answers,
            Owner::Client(port),
        );
        &&& called_all(
            clients[port].records(),
            clients[port].calls(),
            calls,
            clients_after[port].records(),
            clients_after[port].calls(),
        )
        &&& calls.len() == 0 ==> clients_after[port] == clients[port]
    } by {
        assert(clients_mid.contains_key(port));
        let first = delivery_calls(deliveries, Owner::Client(port));
        let second = poll_calls(mid, answers, Owner::Client(port));
        assert((clients[port].calls() + first) + second =~= clients[port].calls() + (first
            + second));
    }
}

/// A poll after a run of polls is a run of polls: the run with the answer
/// of the last poll at its end.
pub proof fn lemma_owners_after_ask<S: Service, C: Client>(
    s: RunnerView,
    services: Map<u32, S>,
    clients: Map<u32, C>,
    answers: Seq<EgressView>,
    services_now: Map<u32, S>,
    clients_now: Map<u32, C>,
    owner: Owner,
    a: EgressView,
    services_after: Map<u32, S>,
    clients_after: Map<u32, C>,
)
    requires
        services_polled(s, services, answers, services_now),
        clients_polled(s, clients, answers, clients_now),
        polled_owner(s, a.port) == Some(owner),
        match owner {
            Owner::Service(held) => services_now.contains_key(held),
            Owner::Client(held) => clients_now.contains_key(held),
        },
        service_asked(services_now, owner, a.port, Some((a.data, a.shutdown)), services_after),
        client_asked(clients_now, owner, a.port, Some((a.data, a.shutdown)), clients_after),
    ensures
        services_polled(s, services, answers.push(a), services_after),
        clients_polled(s, clients, answers.push(a), clients_after),
{
    let run = answers.push(a);
    let asked = poll_of(a.port, a.data, a.shutdown);
    assert(services_after.dom() =~= services.dom());
    assert(clients_after.dom() =~= clients.dom());
    assert forall|held: u32| #[trigger] services.contains_key(held) implies {
        let calls = poll_calls(s, run, Owner::Service(held));
        &&& called_all(
            services[held].records(),
            services[held].calls(),
            calls,
            services_after[held].records(),
            services_after[held].calls(),
        )
        &&& calls.len() == 0 ==> services_after[held] == services[held]
    } by {
        lemma_poll_calls_push(s, answers, a, Owner::Service(held));
        assert(services_now.contains_key(held));
        let before = poll_calls(s, answers, Owner::Service(held));
        if owner == Owner::Service(held) {
            assert(services[held].calls() + (before + asked) =~= (services[held].calls() + before)
                + asked);
        }
    }
    assert forall|held: u32| #[trigger] clients.contains_key(held) implies {
        let calls = poll_calls(s, run, Owner::Client(held));
        &&& called_all(
            clients[held].records(),
            clients[held].calls(),
            calls,
            clients_after[held].records(),
            clients_after[held].calls(),
        )
        &&& calls.len() == 0 ==> clients_after[held] == clients[held]
    } by {
        lemma_poll_calls_push(s, answers, a, Owner::Client(held));
        assert(clients_now.contains_key(held));
        let before = poll_calls(s, answers, Owner::Client(held));
        if owner == Owner::Client(held) {
            assert(clients[held].calls() + (before + asked) =~= (clients[held].calls() + before)
                + asked);
        }
    }
}

/// What the answers to a poll make of `s`, one answer after the other: the
/// packets of each answer are staged, and a connection whose owner asked for
/// a shutdown ends.
pub open spec fn staged(s: RunnerView, answers: Seq<EgressView>) -> RunnerView
    decreases answers.len(),
{
    if answers.len() == 0 {
        s
    } else {
        let before = staged(s, answers.drop_last());
        let a = answers.last();
        RunnerView {
            write_queue: before.write_queue + egress_for(a.port, a.data, a.shutdown),
            service_conns: if a.shutdown {
                before.service_conns.remove(a.port)
            } else {
                before.service_conns
            },
            client_conns: if a.shutdown {
                before.client_conns.remove(a.port)
            } else {
                before.client_conns
            },
            ..before
        }
    }
}

/// Whether every answer is for a peer that has a connection in `s`.
pub open spec fn answers_fit(s: RunnerView, answers: Seq<EgressView>) -> bool {
    forall|i: int| 0 <= i < answers.len() ==> s.connected((#[trigger] answers[i]).port)
}

/// What a poll of the connections' owners can make of `pre`: whatever they
/// answer, `post` is `pre` with the answers of owners of its connections
/// staged.
pub open spec fn polled(pre: RunnerView, post: RunnerView) -> bool {
    exists|answers: Seq<EgressView>| answers_fit(pre, answers) && #[trigger] staged(pre, answers) == post
}

/// The half-duplex tick rule: when the guest emitted a packet, nothing
/// leaves the write queue and the answer is empty.
pub proof fn lemma_half_duplex(s: RunnerView, p: PacketView)
    ensures
        select_reply(s, Some(p)).1 == Seq::<u8>::empty(),
        select_reply(s, Some(p)).0.write_queue == s.write_queue,
        select_reply(s, Some(p)).0.read_queue == s.read_queue.push(p),
{
}

/// One packet per tick: with nothing else queued, the packet that the guest
/// emitted is the one dispatched in that tick, and the read queue is empty
/// again afterwards.
pub proof fn lemma_tick_dispatches_incoming(s: RunnerView, p: PacketView)
    requires
        s.read_queue.len() == 0,
    ensures
        drained(select_reply(s, Some(p)).0) == dispatch(s, p).0,
{
    let queued = select_reply(s, Some(p)).0;
    let rest = RunnerView { read_queue: queued.read_queue.drop_last(), ..queued };
    assert(queued.read_queue.last() == p);
    assert(rest.read_queue =~= s.read_queue);
    assert(rest == s);
    let after = dispatch(s, p).0;
    assert(after.read_queue.len() == 0);
    assert(drained(after) == after);
}

/// Ordering, call by call: with nothing else queued, a tick in which the
/// guest emitted an RW packet whose connection has a registered owner calls
/// for one callback, `on_data` on that owner with the packet's payload.
pub proof fn lemma_tick_delivers_data(s: RunnerView, p: PacketView)
    requires
        s.read_queue.len() == 0,
        p.hdr.op == VSOCK_OP_RW,
        polled_owner(s, p.hdr.src_port) is Some,
    ensures
        drained_deliveries(select_reply(s, Some(p)).0).len() == 1,
        drained_deliveries(select_reply(s, Some(p)).0)[0] == (DeliveryView {
            owner: polled_owner(s, p.hdr.src_port).unwrap(),
            peer: p.hdr.src_port,
            event: Event::Data,
            data: p.payload,
        }),
        delivery_calls(
            drained_deliveries(select_reply(s, Some(p)).0),
            polled_owner(s, p.hdr.src_port).unwrap(),
        ) == seq![Call::Data(p.hdr.src_port, p.payload)],
{
    let queued = select_reply(s, Some(p)).0;
    let rest = RunnerView { read_queue: queued.read_queue.drop_last(), ..queued };
    assert(queued.read_queue.last() == p);
    assert(rest.read_queue =~= s.read_queue);
    assert(rest == s);
    let (after, delivery) = dispatch(s, p);
    assert(after.read_queue.len() == 0);
    assert(drained_deliveries(after) =~= Seq::<DeliveryView>::empty());
    let run = drained_deliveries(queued);
    assert(run =~= seq![delivery.unwrap()]);
    let owner = polled_owner(s, p.hdr.src_port).unwrap();
    assert(run.len() == 1 && run.last() == delivery.unwrap());
    assert(run.drop_last() =~= Seq::<DeliveryView>::empty());
    assert(delivery_calls(run.drop_last(), owner) =~= Seq::<Call>::empty());
    assert(delivery.unwrap().owner == owner);
    assert(has_callback(delivery.unwrap()));
    assert(call_of(delivery.unwrap()) == Call::Data(p.hdr.src_port, p.payload));
    assert(delivery_calls(run, owner) =~= seq![Call::Data(p.hdr.src_port, p.payload)]);
}

/// Answering a yield keeps at most one connection per peer.
pub proof fn lemma_select_reply_keeps_peers_unique(s: RunnerView, incoming: Option<PacketView>)
    requires
        s.wf(),
    ensures
        select_reply(s, incoming).0.wf(),
{
}

/// Draining the read queue keeps at most one connection per peer.
pub proof fn lemma_drained_keeps_peers_unique(s: RunnerView)
    requires
        s.wf(),
    ensures
        drained(s).wf(),
        drained(s).read_queue.len() == 0,
    decreases s.read_queue.len(),
{
    if s.read_queue.len() > 0 {
        let rest = RunnerView { read_queue: s.read_queue.drop_last(), ..s };
        lemma_dispatch_keeps_peers_unique(rest, s.read_queue.last());
        lemma_drained_keeps_peers_unique(dispatch(rest, s.read_queue.last()).0);
    }
}

/// Staging answers changes the write queue and the connections only: the
/// queue grows at its end, and connections can only leave.
pub proof fn lemma_staged_grows(s: RunnerView, answers: Seq<EgressView>)
    ensures
        staged(s, answers).listeners == s.listeners,
        staged(s, answers).clients == s.clients,
        staged(s, answers).pending == s.pending,
        staged(s, answers).read_queue == s.read_queue,
        staged(s, answers).service_conns.submap_of(s.service_conns),
        staged(s, answers).client_conns.submap_of(s.client_conns),
        s.write_queue.len() <= staged(s, answers).write_queue.len(),
        staged(s, answers).write_queue.subrange(0, s.write_queue.len() as int) == s.write_queue,
    decreases answers.len(),
{
    if answers.len() > 0 {
        lemma_staged_grows(s, answers.drop_last());
        let before = staged(s, answers.drop_last());
        assert(staged(s, answers).write_queue.subrange(0, s.write_queue.len() as int)
            =~= before.write_queue.subrange(0, s.write_queue.len() as int));
    } else {
        assert(s.write_queue.subrange(0, s.write_queue.len() as int) =~= s.write_queue);
    }
}

/// Staging answers keeps at most one connection per peer.
pub proof fn lemma_staged_keeps_peers_unique(s: RunnerView, answers: Seq<EgressView>)
    requires
        s.wf(),
    ensures
        staged(s, answers).wf(),
{
    lemma_staged_grows(s, answers);
    let post = staged(s, answers);
    assert forall|peer: u32|
        !(post.service_conns.contains_key(peer) && post.client_conns.contains_key(peer)) by {
        if post.service_conns.contains_key(peer) && post.client_conns.contains_key(peer) {
            assert(s.service_conns.contains_key(peer));
            assert(s.client_conns.contains_key(peer));
        }
    }
}

/// A poll keeps at most one connection per peer.
pub proof fn lemma_polled_keeps_peers_unique(pre: RunnerView, post: RunnerView)
    requires
        pre.wf(),
        polled(pre, post),
    ensures
        post.wf(),
{
    let answers = choose|answers: Seq<EgressView>|
        answers_fit(pre, answers) && #[trigger] staged(pre, answers) == post;
    lemma_staged_keeps_peers_unique(pre, answers);
}

/// Receives a vsock packet from what the emulator handed over. A yield
/// without bytes is no packet, and neither are bytes that do not decode.
pub fn receive_packet(request: &CmioRequest) -> (packet: Option<Packet>)
    ensures
        packet_view(packet) == request_packet_of(*request),
{
    let data = match request {
        CmioRequest::TxOutput(data) => data,
        CmioRequest::Gio(data) => data,
        CmioRequest::Other => {
            return None;
        },
    };
    if data.len() == 0 {
        return None;
    }
    match Packet::from_bytes(data.as_slice()) {
        Ok(packet) => Some(packet),
        Err(_) => None,
    }
}

/// The packets for `port` after its owner handed out `data` and said whether
/// the connection is to be shut down.
pub fn egress_packets(port: u32, data: &Option<Vec<u8>>, shutdown: bool) -> (packets: Vec<Packet>)
    ensures
        packets@.map_values(|p: Packet| p@) == egress_for(port, bytes_view(*data), shutdown),
{
    let mut packets: Vec<Packet> = Vec::new();
    if let Some(bytes) = data {
        if let Ok(packet) = construct_packet(port, VSOCK_OP_RW, bytes.as_slice()) {
            packets.push(packet);
        }
    }
    if shutdown {
        let empty: Vec<u8> = Vec::new();
        if let Ok(packet) = construct_packet(port, VSOCK_OP_SHUTDOWN, empty.as_slice()) {
            packets.push(packet);
        }
    }
    assert(packets@.map_values(|p: Packet| p@) =~= egress_for(port, bytes_view(*data), shutdown));
    packets
}

impl<S: Service, C: Client> RunnerState<S, C> {
    /// First half of a tick: answers the yield. The bytes returned go to the
    /// guest as they are; no bytes are the empty response.
    pub fn begin_tick(&mut self, incoming: Option<Packet>) -> (reply: Vec<u8>)
        ensures
            (final(self)@, reply@) == select_reply(old(self)@, packet_view(incoming)),
            old(self)@.wf() ==> final(self)@.wf(),
            final(self).held_services() == old(self).held_services(),
            final(self).held_clients() == old(self).held_clients(),
    {
        match incoming {
            Some(packet) => {
                self.add_to_read_queue(packet);
                Vec::new()
            },
            None => match self.pop_from_write_queue() {
                Some(packet) => {
                    self.mark_request_sent(&packet);
                    packet.to_bytes()
                },
                None => Vec::new(),
            },
        }
    }

    /// Second part of a tick: dispatches every packet in the read queue, the
    /// last one first, and makes the callbacks that they call for.
    pub fn drain_read_queue(&mut self)
        ensures
            final(self)@ == drained(old(self)@),
            old(self)@.wf() ==> final(self)@.wf(),
            services_delivered_all(
                old(self).held_services(),
                drained_deliveries(old(self)@),
                final(self).held_services(),
            ),
            clients_delivered_all(
                old(self).held_clients(),
                drained_deliveries(old(self)@),
                final(self).held_clients(),
            ),
    {
        let ghost mut done = Seq::<DeliveryView>::empty();
        proof {
            assert(done + drained_deliveries(self@) =~= drained_deliveries(self@));
            assert(self.held_services().dom() =~= self.held_services().dom());
        }
        loop
            invariant
                drained(self@) == drained(old(self)@),
                old(self)@.wf() ==> self@.wf(),
                done + drained_deliveries(self@) == drained_deliveries(old(self)@),
                services_delivered_all(old(self).held_services(), done, self.held_services()),
                clients_delivered_all(old(self).held_clients(), done, self.held_clients()),
            ensures
                self@.read_queue.len() == 0,
                done + drained_deliveries(self@) == drained_deliveries(old(self)@),
                services_delivered_all(old(self).held_services(), done, self.held_services()),
                clients_delivered_all(old(self).held_clients(), done, self.held_clients()),
            decreases self@.read_queue.len(),
        {
            let ghost queued = self@;
            let ghost services = self.held_services();
            let ghost clients = self.held_clients();
            match self.pop_from_read_queue() {
                Some(packet) => {
                    let ghost rest = self@;
                    let ghost delivery = dispatch(rest, packet@).1;
                    self.dispatch_packet(packet);
                    proof {
                        assert(drained_deliveries(queued) == with_delivery(
                            Seq::<DeliveryView>::empty(),
                            delivery,
                        ) + drained_deliveries(self@));
                        assert(with_delivery(done, delivery) + drained_deliveries(self@) =~= done
                            + drained_deliveries(queued));
                        lemma_owners_after_run(
                            old(self).held_services(),
                            old(self).held_clients(),
                            done,
                            services,
                            clients,
                            delivery,
                            self.held_services(),
                            self.held_clients(),
                        );
                        done = with_delivery(done, delivery);
                    }
                },
                None => {
                    break ;
                },
            }
        }
        proof {
            assert(done =~= drained_deliveries(old(self)@));
        }
    }

    /// Asks the owner of a connection to `port` for bytes to send and whether
    /// the connection is to be shut down, in this order, and returns what it
    /// answered. `None` where the owner is not registered, and then nobody
    /// is asked. The tables and queues stay as they are.
    fn ask(&mut self, owner: Owner, port: u32) -> (answer: Option<(Option<Vec<u8>>, bool)>)
        ensures
            final(self)@ == old(self)@,
            answer is Some <==> registered(old(self)@, owner),
            service_asked(
                old(self).held_services(),
                owner,
                port,
                answer_view(answer),
                final(self).held_services(),
            ),
            client_asked(
                old(self).held_clients(),
                owner,
                port,
                answer_view(answer),
                final(self).held_clients(),
            ),
    {
        let ghost services = self.held_services();
        let ghost clients = self.held_clients();
        match owner {
            Owner::Service(service_port) => match self.take_listener(service_port) {
                Some(mut service) => {
                    let ghost before = service.calls();
                    let data = service.get_write_data(port);
                    let shutdown = service.should_shutdown(port);
                    self.add_listener(service_port, service);
                    proof {
                        assert(self@.listeners =~= old(self)@.listeners);
                        assert(self.held_services() =~= services.insert(service_port, service));
                        assert(self.held_services()[service_port] == service);
                        assert(before.push(Call::WriteData(port, bytes_view(data))).push(
                            Call::ShouldShutdown(port, shutdown),
                        ) =~= before + poll_of(port, bytes_view(data), shutdown));
                    }
                    Some((data, shutdown))
                },
                None => {
                    proof {
                        assert(self@.listeners =~= old(self)@.listeners);
                        assert(self.held_services() =~= services);
                    }
                    None
                },
            },
            Owner::Client(client_port) => match self.take_client(client_port) {
                Some(mut client) => {
                    let ghost before = client.calls();
                    let data = client.get_write_data(port);
                    let shutdown = client.should_shutdown(port);
                    self.add_client(client_port, client);
                    proof {
                        assert(self@.clients =~= old(self)@.clients);
                        assert(self.held_clients() =~= clients.insert(client_port, client));
                        assert(self.held_clients()[client_port] == client);
                        assert(before.push(Call::WriteData(port, bytes_view(data))).push(
                            Call::ShouldShutdown(port, shutdown),
                        ) =~= before + poll_of(port, bytes_view(data), shutdown));
                    }
                    Some((data, shutdown))
                },
                None => {
                    proof {
                        assert(self@.clients =~= old(self)@.clients);
                        assert(self.held_clients() =~= clients);
                    }
                    None
                },
            },
        }
    }

    /// Asks the owner of every connection for egress, each one time: first
    /// for bytes to send, then whether the connection is to be shut down. The
    /// answers are returned, one for every connection whose owner is
    /// registered; connections whose owner is no longer registered are passed
    /// over. The tables and queues stay as they are.
    pub fn collect_egress(&mut self) -> (answers: Vec<Egress>)
        ensures
            final(self)@ == old(self)@,
            answers_fit(old(self)@, answers@.map_values(|a: Egress| a@)),
            collected(old(self)@, answers@.map_values(|a: Egress| a@)),
            services_polled(
                old(self)@,
                old(self).held_services(),
                answers@.map_values(|a: Egress| a@),
                final(self).held_services(),
            ),
            clients_polled(
                old(self)@,
                old(self).held_clients(),
                answers@.map_values(|a: Egress| a@),
                final(self).held_clients(),
            ),
    {
        let ports = self.get_connection_ports();
        let mut answers: Vec<Egress> = Vec::new();
        let ghost s = self@;
        let ghost services = self.held_services();
        let ghost clients = self.held_clients();
        // For every answer, the place of its port among `ports`.
        let ghost mut places: Seq<int> = Seq::empty();
        // Where the inbound connections end among `ports`, and among the answers.
        let ghost split = choose|split: int| inbound_first(s, ports@, split);
        let ghost mut inbound: int = 0;
        let mut i: usize = 0;
        proof {
            self.lemma_held_ports();
            assert(answers@.map_values(|a: Egress| a@) =~= Seq::<EgressView>::empty());
        }
        while i < ports.len()
            invariant
                i <= ports@.len(),
                s == old(self)@,
                services == old(self).held_services(),
                clients == old(self).held_clients(),
                self@ == s,
                forall|peer: u32| ports@.contains(peer) <==> s.connected(peer),
                s.wf() ==> ports@.no_duplicates(),
                answers_fit(s, answers@.map_values(|a: Egress| a@)),
                places.len() == answers@.len(),
                inbound_first(s, ports@, split),
                0 <= inbound <= places.len(),
                forall|j: int| 0 <= j < inbound ==> #[trigger] places[j] < split,
                forall|j: int| inbound <= j < places.len() ==> #[trigger] places[j] >= split,
                forall|j: int|
                    0 <= j < places.len() ==> 0 <= #[trigger] places[j] < i && answers@[j].port
                        == ports@[places[j]] && polled_owner(s, answers@[j].port) is Some,
                forall|j: int, k: int|
                    0 <= j < k < places.len() ==> #[trigger] places[j] < #[trigger] places[k],
                forall|m: int|
                    0 <= m < i && polled_owner(s, #[trigger] ports@[m]) is Some ==> exists|j: int|
                        0 <= j < places.len() && #[trigger] places[j] == m,
                services_polled(
                    s,
                    services,
                    answers@.map_values(|a: Egress| a@),
                    self.held_services(),
                ),
                clients_polled(
                    s,
                    clients,
                    answers@.map_values(|a: Egress| a@),
                    self.held_clients(),
                ),
            decreases ports@.len() - i,
        {
            let port: u32 = ports[i];
            assert(ports@.contains(port));
            let owner = match self.get_service_port(port) {
                Some(service_port) => Some(Owner::Service(service_port)),
                None => match self.get_client_port(port) {
                    Some(client_port) => Some(Owner::Client(client_port)),
                    None => None,
                },
            };
            let ghost held_services = self.held_services();
            let ghost held_clients = self.held_clients();
            let ghost earlier = answers@.map_values(|a: Egress| a@);
            let ghost old_places = places;
            let mut asked: bool = false;
            proof {
                self.lemma_held_ports();
            }
            if let Some(owner) = owner {
                if let Some((data, shutdown)) = self.ask(owner, port) {
                    let answer = Egress { port, data, shutdown };
                    let ghost last = answer@;
                    answers.push(answer);
                    asked = true;
                    proof {
                        let now = answers@.map_values(|a: Egress| a@);
                        assert(now =~= earlier.push(last));
                        assert(polled_owner(s, port) == Some(owner));
                        places = places.push(i as int);
                        assert forall|j: int| 0 <= j < places.len() implies 0 <= #[trigger] places[j]
                            < i + 1 && answers@[j].port == ports@[places[j]] && polled_owner(
                            s,
                            answers@[j].port,
                        ) is Some by {
                            if j < old_places.len() {
                                assert(places[j] == old_places[j]);
                                assert(answers@[j].port == earlier[j].port);
                            } else {
                                assert(places[j] == i);
                                assert(answers@[j].port == port);
                            }
                        }
                        if i < split {
                            assert(inbound == old_places.len()) by {
                                if inbound < old_places.len() {
                                    assert(old_places[inbound] >= split);
                                }
                            }
                            inbound = inbound + 1;
                        }
                        assert forall|j: int| 0 <= j < inbound implies #[trigger] places[j]
                            < split by {
                            if j < old_places.len() {
                                assert(places[j] == old_places[j]);
                            }
                        }
                        assert forall|j: int| inbound <= j < places.len() implies #[trigger] places[j]
                            >= split by {
                            if j < old_places.len() {
                                assert(places[j] == old_places[j]);
                            }
                        }
                        assert forall|j: int, k: int| 0 <= j < k < places.len() implies #[trigger] places[j]
                            < #[trigger] places[k] by {
                            if k < old_places.len() {
                                assert(places[j] == old_places[j] && places[k] == old_places[k]);
                            } else {
                                assert(places[k] == i);
                                assert(places[j] == old_places[j]);
                            }
                        }
                        lemma_owners_after_ask(
                            s,
                            services,
                            clients,
                            earlier,
                            held_services,
                            held_clients,
                            owner,
                            last,
                            self.held_services(),
                            self.held_clients(),
                        );
                    }
                }
            }
            proof {
                if !asked {
                    assert(polled_owner(s, port) is None);
                }
                assert forall|m: int|
                    0 <= m < i + 1 && polled_owner(s, #[trigger] ports@[m]) is Some implies exists|
                    j: int,
                |
                    0 <= j < places.len() && #[trigger] places[j] == m by {
                    if m < i {
                        let j = choose|j: int|
                            0 <= j < old_places.len() && #[trigger] old_places[j] == m;
                        assert(places[j] == m);
                    } else {
                        assert(asked);
                        assert(places[places.len() - 1] == m);
                    }
                }
            }
            i = i + 1;
        }
        proof {
            let views = answers@.map_values(|a: Egress| a@);
            assert forall|peer: u32| #[trigger] polled_owner(s, peer) is Some implies exists|
                j: int,
            |
                0 <= j < views.len() && (#[trigger] views[j]).port == peer by {
                assert(s.connected(peer));
                assert(ports@.contains(peer));
                let m = choose|m: int| 0 <= m < ports@.len() && ports@[m] == peer;
                let j = choose|j: int| 0 <= j < places.len() && #[trigger] places[j] == m;
                assert(views[j].port == peer);
            }
            if s.wf() {
                assert forall|j: int, k: int| 0 <= j < k < views.len() implies (#[trigger] views[j]).port
                    != (#[trigger] views[k]).port by {
                    assert(places[j] < places[k]);
                    assert(views[j].port == ports@[places[j]]);
                    assert(views[k].port == ports@[places[k]]);
                }
            }
            assert forall|j: int| 0 <= j < views.len() implies polled_owner(
                s,
                (#[trigger] views[j]).port,
            ) is Some by {
                assert(0 <= places[j]);
                assert(views[j].port == answers@[j].port);
            }
            assert forall|j: int| 0 <= j < views.len() implies if j < inbound {
                s.service_conns.contains_key((#[trigger] views[j]).port)
            } else {
                s.client_conns.contains_key(views[j].port)
            } by {
                assert(views[j].port == ports@[places[j]]);
                if j < inbound {
                    assert(places[j] < split);
                } else {
                    assert(places[j] >= split);
                }
            }
            assert(inbound_answers(s, views, inbound));
        }
        answers
    }

    /// Stages what the owners answered: an RW packet for bytes handed out,
    /// then a SHUTDOWN and the end of the connection where one was asked for.
    pub fn apply_egress(&mut self, answers: &Vec<Egress>)
        ensures
            final(self)@ == staged(old(self)@, answers@.map_values(|a: Egress| a@)),
            old(self)@.wf() ==> final(self)@.wf(),
            final(self).held_services() == old(self).held_services(),
            final(self).held_clients() == old(self).held_clients(),
    {
        let ghost all = answers@.map_values(|a: Egress| a@);
        let mut i: usize = 0;
        assert(all.subrange(0, 0) =~= Seq::<EgressView>::empty());
        while i < answers.len()
            invariant
                i <= answers@.len(),
                all == answers@.map_values(|a: Egress| a@),
                self@ == staged(old(self)@, all.subrange(0, i as int)),
                self.held_services() == old(self).held_services(),
                self.held_clients() == old(self).held_clients(),
            decreases answers@.len() - i,
        {
            let answer = &answers[i];
            let packets = egress_packets(answer.port, &answer.data, answer.shutdown);
            self.extend_write_queue(packets);
            if answer.shutdown {
                self.remove_connection(answer.port);
            }
            proof {
                let taken = all.subrange(0, i + 1);
                assert(taken.drop_last() =~= all.subrange(0, i as int));
                assert(taken.last() == answer@);
            }
            i = i + 1;
        }
        proof {
            assert(all.subrange(0, i as int) =~= all);
            if old(self)@.wf() {
                lemma_staged_keeps_peers_unique(old(self)@, all);
            }
        }
    }

    /// Last part of a tick: polls the owner of every connection for egress
    /// and stages what they answer.
    pub fn poll_egress(&mut self)
        ensures
            polled(old(self)@, final(self)@),
            old(self)@.wf() ==> final(self)@.wf(),
            exists|answers: Seq<EgressView>| #[trigger]
                poll_done(
                    old(self)@,
                    old(self).held_services(),
                    old(self).held_clients(),
                    answers,
                    final(self)@,
                    final(self).held_services(),
                    final(self).held_clients(),
                ),
    {
        let answers = self.collect_egress();
        self.apply_egress(&answers);
        assert(poll_done(
            old(self)@,
            old(self).held_services(),
            old(self).held_clients(),
            answers@.map_values(|a: Egress| a@),
            self@,
            self.held_services(),
            self.held_clients(),
        ));
    }

    /// One tick of the multiplexer apart from the emulator's run: answers
    /// the yield (`select_reply`), dispatches what is queued (`drained`), and
    /// polls the connections' owners for egress (`polled`). The bytes
    /// returned are the response to hand to the emulator.
    pub fn tick(&mut self, incoming: Option<Packet>) -> (reply: Vec<u8>)
        ensures
            ({
                let (queued, answer) = select_reply(old(self)@, packet_view(incoming));
                reply@ == answer && polled(drained(queued), final(self)@)
            }),
            old(self)@.wf() ==> final(self)@.wf(),
            exists|answers: Seq<EgressView>| #[trigger]
                tick_done(
                    old(self)@,
                    old(self).held_services(),
                    old(self).held_clients(),
                    packet_view(incoming),
                    answers,
                    final(self)@,
                    final(self).held_services(),
                    final(self).held_clients(),
                ),
    {
        let ghost services = self.held_services();
        let ghost clients = self.held_clients();
        let reply = self.begin_tick(incoming);
        let ghost queued = self@;
        self.drain_read_queue();
        let ghost mid = self@;
        let ghost services_mid = self.held_services();
        let ghost clients_mid = self.held_clients();
        self.poll_egress();
        proof {
            let answers = choose|answers: Seq<EgressView>| #[trigger]
                poll_done(
                    mid,
                    services_mid,
                    clients_mid,
                    answers,
                    self@,
                    self.held_services(),
                    self.held_clients(),
                );
            lemma_tick_done(
                old(self)@,
                services,
                clients,
                packet_view(incoming),
                services_mid,
                clients_mid,
                answers,
                self@,
                self.held_services(),
                self.held_clients(),
            );
        }
        reply
    }
}

} // verus!
