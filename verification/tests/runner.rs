use cmio_vsock::http_client::start_health_check;
use cmio_vsock::http_health_check_client::{add_http_health_check_client, HttpHealthCheckClient};
use cmio_vsock::http_server::{add_http_server, HttpServer};
use cmio_vsock::dispatch::{Delivery, Event, Owner};
use cmio_vsock::runner::{
    construct_packet, Client, RunnerState, Service, GUEST_CID, HOST_CID, HOST_PORT,
};
use cmio_vsock::tick::{egress_packets, receive_packet, CmioRequest, Egress};
use cmio_vsock::vsock_protocol::{
    Packet, ProtocolError, VirtioVsockHdr, VSOCK_OP_CREDIT_UPDATE, VSOCK_OP_REQUEST,
    VSOCK_OP_RESPONSE, VSOCK_OP_RST, VSOCK_OP_RW, VSOCK_OP_SHUTDOWN, VSOCK_TYPE_STREAM,
};

/// A service or client that records every callback and answers polls from a
/// script.
struct Recorder {
    calls: Vec<String>,
    data: Vec<u8>,
    to_write: Vec<Vec<u8>>,
    shutdown: bool,
}

impl Recorder {
    fn new() -> Self {
        Recorder { calls: Vec::new(), data: Vec::new(), to_write: Vec::new(), shutdown: false }
    }
}

impl Service for Recorder {
    fn on_connection(&mut self, port: u32) {
        self.calls.push(format!("connection {}", port));
    }

    fn on_data(&mut self, port: u32, data: &[u8]) {
        self.calls.push(format!("data {} {}", port, data.len()));
        self.data.extend_from_slice(data);
    }

    fn on_reset(&mut self, port: u32) {
        self.calls.push(format!("reset {}", port));
    }

    fn on_shutdown(&mut self, port: u32) {
        self.calls.push(format!("shutdown {}", port));
    }

    fn get_write_data(&mut self, _port: u32) -> Option<Vec<u8>> {
        if self.to_write.is_empty() {
            None
        } else {
            Some(self.to_write.remove(0))
        }
    }

    fn should_shutdown(&mut self, _port: u32) -> bool {
        self.shutdown
    }
}

impl Client for Recorder {
    fn on_connect_success(&mut self, port: u32) {
        self.calls.push(format!("connected {}", port));
    }

    fn on_connect_failed(&mut self, port: u32) {
        self.calls.push(format!("failed {}", port));
    }

    fn on_data(&mut self, port: u32, data: &[u8]) {
        self.calls.push(format!("data {} {}", port, data.len()));
        self.data.extend_from_slice(data);
    }

    fn on_reset(&mut self, port: u32) {
        self.calls.push(format!("reset {}", port));
    }

    fn on_shutdown(&mut self, port: u32) {
        self.calls.push(format!("shutdown {}", port));
    }

    fn get_write_data(&mut self, _port: u32) -> Option<Vec<u8>> {
        if self.to_write.is_empty() {
            None
        } else {
            Some(self.to_write.remove(0))
        }
    }

    fn should_shutdown(&mut self, _port: u32) -> bool {
        self.shutdown
    }
}

fn guest_packet(op: u16, src_port: u32, dst_port: u32, payload: &[u8]) -> Packet {
    let hdr = VirtioVsockHdr {
        src_cid: GUEST_CID,
        dst_cid: HOST_CID,
        src_port,
        dst_port,
        len: payload.len() as u32,
        type_: VSOCK_TYPE_STREAM,
        op,
        flags: 0,
        buf_alloc: 262144,
        fwd_cnt: 17,
    };
    Packet::new(hdr, payload.to_vec())
}

fn sorted(mut ports: Vec<u32>) -> Vec<u32> {
    ports.sort();
    ports
}

fn calls_of_listener(state: &mut RunnerState<Recorder, Recorder>, port: u32) -> Vec<String> {
    state.get_listener(port).unwrap().calls.clone()
}

fn calls_of_client(state: &mut RunnerState<Recorder, Recorder>, port: u32) -> Vec<String> {
    state.get_client(port).unwrap().calls.clone()
}

#[test]
fn addressing_constants() {
    assert_eq!((GUEST_CID, HOST_CID, HOST_PORT), (1, 3, 1025));
}

#[test]
fn construct_packet_addresses_the_guest() {
    let packet = construct_packet(8080, VSOCK_OP_RW, b"abc").unwrap();
    assert_eq!(
        packet.hdr(),
        &VirtioVsockHdr {
            src_cid: 3,
            dst_cid: 1,
            src_port: 1025,
            dst_port: 8080,
            len: 3,
            type_: 1,
            op: 5,
            flags: 0,
            buf_alloc: 0,
            fwd_cnt: 0,
        }
    );
    assert_eq!(packet.payload(), b"abc");
}

#[test]
fn construct_packet_refuses_more_than_4096_bytes() {
    assert!(construct_packet(1, VSOCK_OP_RW, &vec![0u8; 4096]).is_ok());
    assert_eq!(
        construct_packet(1, VSOCK_OP_RW, &vec![0u8; 4097]),
        Err(ProtocolError::PayloadTooLarge)
    );
}

#[test]
fn new_state_is_empty() {
    let mut state: RunnerState<Recorder, Recorder> = RunnerState::new();
    assert!(state.get_connection_ports().is_empty());
    assert!(state.pop_from_write_queue().is_none());
    assert!(state.pop_from_read_queue().is_none());
    assert!(state.get_listener(8080).is_none());
    assert!(state.get_client(9000).is_none());
    assert_eq!(state.get_service_port(1), None);
    assert_eq!(state.get_client_port(1), None);
}

#[test]
fn listeners_and_clients_can_be_added_and_removed() {
    let mut state: RunnerState<Recorder, Recorder> = RunnerState::new();
    state.add_listener(8080, Recorder::new());
    state.add_client(9000, Recorder::new());
    assert!(state.get_listener(8080).is_some());
    assert!(state.get_listener(9000).is_none());
    assert!(state.get_client(9000).is_some());
    state.get_listener(8080).unwrap().shutdown = true;
    assert!(state.get_listener(8080).unwrap().shutdown);
    state.remove_listener(8080);
    state.remove_client(9000);
    assert!(state.get_listener(8080).is_none());
    assert!(state.get_client(9000).is_none());
}

#[test]
fn queues_hand_out_the_last_packet_first() {
    let mut state: RunnerState<Recorder, Recorder> = RunnerState::new();
    let a = construct_packet(1, VSOCK_OP_RW, b"a").unwrap();
    let b = construct_packet(2, VSOCK_OP_RW, b"b").unwrap();
    state.add_to_write_queue(a.clone());
    state.add_to_write_queue(b.clone());
    assert_eq!(state.pop_from_write_queue(), Some(b.clone()));
    assert_eq!(state.pop_from_write_queue(), Some(a.clone()));
    assert_eq!(state.pop_from_write_queue(), None);
    state.add_to_read_queue(a.clone());
    state.add_to_read_queue(b.clone());
    assert_eq!(state.pop_from_read_queue(), Some(b));
    assert_eq!(state.pop_from_read_queue(), Some(a));
    assert_eq!(state.pop_from_read_queue(), None);
}

#[test]
fn a_peer_has_at_most_one_connection() {
    let mut state: RunnerState<Recorder, Recorder> = RunnerState::new();
    state.add_connection(5000, 8080);
    assert_eq!(state.get_service_port(5000), Some(8080));
    state.add_client_connection(5000, 9000);
    assert_eq!(state.get_service_port(5000), None);
    assert_eq!(state.get_client_port(5000), Some(9000));
    assert_eq!(state.get_connection_ports(), vec![5000]);
    state.add_connection(5000, 8081);
    assert_eq!(state.get_service_port(5000), Some(8081));
    assert_eq!(state.get_client_port(5000), None);
    state.add_client_connection(6000, 9000);
    assert_eq!(sorted(state.get_connection_ports()), vec![5000, 6000]);
    state.remove_connection(5000);
    state.remove_connection(6000);
    assert!(state.get_connection_ports().is_empty());
}

#[test]
fn initiate_connection_stages_a_request() {
    let mut state: RunnerState<Recorder, Recorder> = RunnerState::new();
    assert_eq!(state.initiate_connection(9000, GUEST_CID, 8080), Ok(()));
    let packet = state.pop_from_write_queue().unwrap();
    assert_eq!(
        packet.hdr(),
        &VirtioVsockHdr {
            src_cid: HOST_CID,
            dst_cid: GUEST_CID,
            src_port: 9000,
            dst_port: 8080,
            len: 0,
            type_: VSOCK_TYPE_STREAM,
            op: VSOCK_OP_REQUEST,
            flags: 0,
            buf_alloc: 0,
            fwd_cnt: 0,
        }
    );
    assert!(packet.payload().is_empty());
    // Pending, not yet a connection.
    assert!(state.get_connection_ports().is_empty());
}

#[test]
fn request_for_a_listener_is_accepted() {
    let mut state: RunnerState<Recorder, Recorder> = RunnerState::new();
    state.add_listener(8080, Recorder::new());
    let request = guest_packet(VSOCK_OP_REQUEST, 5000, 8080, &[]);
    state.dispatch_packet(request);
    assert_eq!(state.get_service_port(5000), Some(8080));
    assert_eq!(calls_of_listener(&mut state, 8080), vec!["connection 5000"]);
    let reply = state.pop_from_write_queue().unwrap();
    assert_eq!(
        reply.hdr(),
        &VirtioVsockHdr {
            src_cid: HOST_CID,
            dst_cid: GUEST_CID,
            src_port: 8080,
            dst_port: 5000,
            len: 0,
            type_: VSOCK_TYPE_STREAM,
            op: VSOCK_OP_RESPONSE,
            flags: 0,
            buf_alloc: 262144,
            fwd_cnt: 0,
        }
    );
    assert!(state.pop_from_write_queue().is_none());
}

#[test]
fn request_for_an_unknown_port_is_reset() {
    let mut state: RunnerState<Recorder, Recorder> = RunnerState::new();
    state.add_listener(8080, Recorder::new());
    let reply = state.tick(Some(guest_packet(VSOCK_OP_REQUEST, 5000, 9999, &[])));
    assert!(reply.is_empty());
    assert!(state.get_connection_ports().is_empty());
    assert_eq!(state.get_service_port(5000), None);
    assert!(calls_of_listener(&mut state, 8080).is_empty());
    let rst = Packet::from_bytes(&state.tick(None)).unwrap();
    assert_eq!(rst.hdr().op, VSOCK_OP_RST);
    assert_eq!(rst.hdr().dst_port, 5000);
    assert_eq!(rst.hdr().src_port, 9999);
    assert_eq!(rst.hdr().src_cid, HOST_CID);
    assert_eq!(rst.hdr().dst_cid, GUEST_CID);
    assert!(state.tick(None).is_empty());
}

#[test]
fn response_for_a_pending_request_connects_the_client() {
    let mut state: RunnerState<Recorder, Recorder> = RunnerState::new();
    state.add_client(9000, Recorder::new());
    state.initiate_connection(9000, GUEST_CID, 8080).unwrap();
    state.dispatch_packet(guest_packet(VSOCK_OP_RESPONSE, 8080, 9000, &[]));
    assert_eq!(state.get_client_port(8080), Some(9000));
    assert_eq!(calls_of_client(&mut state, 9000), vec!["connected 8080"]);
    // The request is no longer pending: a second response changes nothing.
    state.remove_connection(8080);
    state.dispatch_packet(guest_packet(VSOCK_OP_RESPONSE, 8080, 9000, &[]));
    assert_eq!(state.get_client_port(8080), None);
    assert_eq!(calls_of_client(&mut state, 9000), vec!["connected 8080"]);
}

#[test]
fn response_without_a_pending_request_is_dropped() {
    let mut state: RunnerState<Recorder, Recorder> = RunnerState::new();
    state.add_client(9000, Recorder::new());
    state.dispatch_packet(guest_packet(VSOCK_OP_RESPONSE, 8080, 9000, &[]));
    assert!(state.get_connection_ports().is_empty());
    assert!(state.pop_from_write_queue().is_none());
    assert!(calls_of_client(&mut state, 9000).is_empty());
}

#[test]
fn data_reaches_the_owner_in_order() {
    let mut state: RunnerState<Recorder, Recorder> = RunnerState::new();
    state.add_listener(8080, Recorder::new());
    state.add_client(9000, Recorder::new());
    state.tick(Some(guest_packet(VSOCK_OP_REQUEST, 5000, 8080, &[])));
    state.add_client_connection(7000, 9000);
    for chunk in [&b"GET / HT"[..], &b"TP/1.1\r\n"[..], &b""[..], &b"\r\n"[..]] {
        let reply = state.tick(Some(guest_packet(VSOCK_OP_RW, 5000, 8080, chunk)));
        assert!(reply.is_empty());
    }
    state.tick(Some(guest_packet(VSOCK_OP_RW, 7000, 9000, b"for the client")));
    assert_eq!(state.get_listener(8080).unwrap().data, b"GET / HTTP/1.1\r\n\r\n");
    assert_eq!(
        calls_of_listener(&mut state, 8080),
        vec!["connection 5000", "data 5000 8", "data 5000 8", "data 5000 0", "data 5000 2"]
    );
    assert_eq!(state.get_client(9000).unwrap().data, b"for the client");
}

#[test]
fn data_without_a_connection_is_dropped() {
    let mut state: RunnerState<Recorder, Recorder> = RunnerState::new();
    state.add_listener(8080, Recorder::new());
    state.dispatch_packet(guest_packet(VSOCK_OP_RW, 5000, 8080, b"lost"));
    assert!(calls_of_listener(&mut state, 8080).is_empty());
    assert!(state.pop_from_write_queue().is_none());
}

#[test]
fn reset_removes_every_trace_of_the_peer() {
    let mut state: RunnerState<Recorder, Recorder> = RunnerState::new();
    state.add_listener(8080, Recorder::new());
    state.add_client(9000, Recorder::new());

    state.dispatch_packet(guest_packet(VSOCK_OP_REQUEST, 5000, 8080, &[]));
    state.dispatch_packet(guest_packet(VSOCK_OP_RST, 5000, 8080, &[]));
    assert_eq!(state.get_service_port(5000), None);
    assert_eq!(calls_of_listener(&mut state, 8080), vec!["connection 5000", "reset 5000"]);

    state.add_client_connection(6000, 9000);
    state.dispatch_packet(guest_packet(VSOCK_OP_RST, 6000, 9000, &[]));
    assert_eq!(state.get_client_port(6000), None);
    assert_eq!(calls_of_client(&mut state, 9000), vec!["reset 6000"]);

    state.initiate_connection(9000, GUEST_CID, 7000).unwrap();
    state.dispatch_packet(guest_packet(VSOCK_OP_RST, 7000, 9000, &[]));
    assert_eq!(calls_of_client(&mut state, 9000), vec!["reset 6000", "failed 7000"]);
    // No longer pending: a late response does not connect.
    state.dispatch_packet(guest_packet(VSOCK_OP_RESPONSE, 7000, 9000, &[]));
    assert!(state.get_connection_ports().is_empty());

    // A reset for a port nobody knows changes nothing.
    state.dispatch_packet(guest_packet(VSOCK_OP_RST, 1234, 8080, &[]));
    assert_eq!(calls_of_listener(&mut state, 8080), vec!["connection 5000", "reset 5000"]);
}

#[test]
fn shutdown_ends_the_connection() {
    let mut state: RunnerState<Recorder, Recorder> = RunnerState::new();
    state.add_listener(8080, Recorder::new());
    state.add_client(9000, Recorder::new());
    state.add_connection(5000, 8080);
    state.add_client_connection(6000, 9000);
    state.dispatch_packet(guest_packet(VSOCK_OP_SHUTDOWN, 5000, 8080, &[]));
    state.dispatch_packet(guest_packet(VSOCK_OP_SHUTDOWN, 6000, 9000, &[]));
    assert!(state.get_connection_ports().is_empty());
    assert_eq!(calls_of_listener(&mut state, 8080), vec!["shutdown 5000"]);
    assert_eq!(calls_of_client(&mut state, 9000), vec!["shutdown 6000"]);
}

#[test]
fn other_packets_are_dropped() {
    let mut state: RunnerState<Recorder, Recorder> = RunnerState::new();
    state.add_listener(8080, Recorder::new());
    state.add_connection(5000, 8080);
    state.dispatch_packet(guest_packet(VSOCK_OP_CREDIT_UPDATE, 5000, 8080, &[]));
    state.dispatch_packet(guest_packet(99, 5000, 8080, &[]));
    assert_eq!(state.get_service_port(5000), Some(8080));
    assert!(calls_of_listener(&mut state, 8080).is_empty());
    assert!(state.pop_from_write_queue().is_none());
}

#[test]
fn decide_names_the_callback_without_making_it() {
    let mut state: RunnerState<Recorder, Recorder> = RunnerState::new();
    state.add_listener(8080, Recorder::new());
    state.add_connection(5000, 8080);
    let delivery = state.decide(guest_packet(VSOCK_OP_RW, 5000, 8080, b"xyz")).unwrap();
    assert_eq!(delivery.owner, Owner::Service(8080));
    assert_eq!(delivery.peer, 5000);
    assert_eq!(delivery.event, Event::Data);
    assert_eq!(delivery.data, b"xyz");
    assert!(calls_of_listener(&mut state, 8080).is_empty());
    state.deliver(delivery);
    assert_eq!(calls_of_listener(&mut state, 8080), vec!["data 5000 3"]);
    // A delivery for somebody who left is dropped.
    state.deliver(Delivery { owner: Owner::Client(1), peer: 2, event: Event::Reset, data: Vec::new() });
    // A connection whose owner is gone delivers nothing.
    state.remove_listener(8080);
    assert!(state.decide(guest_packet(VSOCK_OP_RW, 5000, 8080, b"xyz")).is_none());
}

#[test]
fn a_tick_delivers_ingress_or_egress_never_both() {
    let mut state: RunnerState<Recorder, Recorder> = RunnerState::new();
    state.add_listener(8080, Recorder::new());
    let outbound = construct_packet(5000, VSOCK_OP_RW, b"waiting").unwrap();
    state.add_to_write_queue(outbound.clone());
    // The guest emits a packet: the queued packet stays.
    let reply = state.tick(Some(guest_packet(VSOCK_OP_RW, 4000, 8080, b"in")));
    assert!(reply.is_empty());
    // The guest emits nothing: now it leaves.
    let reply = state.tick(None);
    assert_eq!(reply, outbound.to_bytes());
    assert!(state.tick(None).is_empty());
}

#[test]
fn begin_tick_alone_follows_the_half_duplex_rule() {
    let mut state: RunnerState<Recorder, Recorder> = RunnerState::new();
    let outbound = construct_packet(5000, VSOCK_OP_RW, b"waiting").unwrap();
    state.add_to_write_queue(outbound.clone());
    let incoming = guest_packet(VSOCK_OP_RW, 4000, 8080, b"in");
    assert!(state.begin_tick(Some(incoming.clone())).is_empty());
    assert_eq!(state.pop_from_read_queue(), Some(incoming));
    assert_eq!(state.begin_tick(None), outbound.to_bytes());
    assert!(state.begin_tick(None).is_empty());
}

#[test]
fn poll_stages_what_owners_hand_out() {
    let mut state: RunnerState<Recorder, Recorder> = RunnerState::new();
    let mut service = Recorder::new();
    service.to_write.push(b"response".to_vec());
    state.add_listener(8080, service);
    state.add_connection(5000, 8080);
    state.poll_egress();
    let staged = state.pop_from_write_queue().unwrap();
    assert_eq!(staged, construct_packet(5000, VSOCK_OP_RW, b"response").unwrap());
    assert!(state.pop_from_write_queue().is_none());
    assert_eq!(state.get_service_port(5000), Some(8080));
    state.poll_egress();
    assert!(state.pop_from_write_queue().is_none());
}

#[test]
fn poll_shuts_down_on_request() {
    let mut state: RunnerState<Recorder, Recorder> = RunnerState::new();
    let mut client = Recorder::new();
    client.to_write.push(b"bye".to_vec());
    client.shutdown = true;
    state.add_client(9000, client);
    state.add_client_connection(8080, 9000);
    state.poll_egress();
    assert!(state.get_connection_ports().is_empty());
    // The packet staged last leaves first.
    assert_eq!(
        state.pop_from_write_queue(),
        Some(construct_packet(8080, VSOCK_OP_SHUTDOWN, &[]).unwrap())
    );
    assert_eq!(
        state.pop_from_write_queue(),
        Some(construct_packet(8080, VSOCK_OP_RW, b"bye").unwrap())
    );
    assert!(state.pop_from_write_queue().is_none());
    // No callback is made for a shutdown that the owner asked for.
    assert!(calls_of_client(&mut state, 9000).is_empty());
}

#[test]
fn poll_drops_oversized_data_and_passes_over_orphans() {
    let mut state: RunnerState<Recorder, Recorder> = RunnerState::new();
    let mut service = Recorder::new();
    service.to_write.push(vec![0u8; 4097]);
    state.add_listener(8080, service);
    state.add_connection(5000, 8080);
    state.add_connection(5001, 8081);
    state.poll_egress();
    assert!(state.pop_from_write_queue().is_none());
    assert_eq!(sorted(state.get_connection_ports()), vec![5000, 5001]);
}

#[test]
fn egress_packets_for_each_answer() {
    assert!(egress_packets(1, &None, false).is_empty());
    assert_eq!(
        egress_packets(1, &Some(b"x".to_vec()), false),
        vec![construct_packet(1, VSOCK_OP_RW, b"x").unwrap()]
    );
    assert_eq!(
        egress_packets(1, &Some(b"x".to_vec()), true),
        vec![
            construct_packet(1, VSOCK_OP_RW, b"x").unwrap(),
            construct_packet(1, VSOCK_OP_SHUTDOWN, &[]).unwrap()
        ]
    );
    assert_eq!(
        egress_packets(1, &Some(vec![0u8; 5000]), true),
        vec![construct_packet(1, VSOCK_OP_SHUTDOWN, &[]).unwrap()]
    );
}

#[test]
fn answers_are_collected_then_staged() {
    let mut state: RunnerState<Recorder, Recorder> = RunnerState::new();
    let mut service = Recorder::new();
    service.to_write.push(b"one".to_vec());
    state.add_listener(8080, service);
    state.add_connection(5000, 8080);
    state.add_connection(5001, 7070);
    let answers = state.collect_egress();
    assert_eq!(answers.len(), 1);
    assert_eq!(answers[0].port, 5000);
    assert_eq!(answers[0].data, Some(b"one".to_vec()));
    assert!(!answers[0].shutdown);
    // Nothing is staged before the answers are applied.
    assert!(state.pop_from_write_queue().is_none());
    state.apply_egress(&answers);
    state.apply_egress(&vec![Egress { port: 5001, data: None, shutdown: true }]);
    assert_eq!(
        state.pop_from_write_queue(),
        Some(construct_packet(5001, VSOCK_OP_SHUTDOWN, &[]).unwrap())
    );
    assert_eq!(
        state.pop_from_write_queue(),
        Some(construct_packet(5000, VSOCK_OP_RW, b"one").unwrap())
    );
    assert_eq!(state.get_connection_ports(), vec![5000]);
}

#[test]
fn receive_packet_reads_yields_that_carry_a_packet() {
    let packet = guest_packet(VSOCK_OP_RW, 1, 2, b"data");
    assert_eq!(receive_packet(&CmioRequest::TxOutput(packet.to_bytes())), Some(packet.clone()));
    assert_eq!(receive_packet(&CmioRequest::Gio(packet.to_bytes())), Some(packet));
    assert_eq!(receive_packet(&CmioRequest::Gio(Vec::new())), None);
    assert_eq!(receive_packet(&CmioRequest::TxOutput(vec![1, 2, 3])), None);
    assert_eq!(receive_packet(&CmioRequest::Other), None);
}

#[test]
fn health_check_happy_path() {
    let mut state: RunnerState<HttpServer, HttpHealthCheckClient> = RunnerState::new();
    add_http_server(&mut state);
    add_http_health_check_client(&mut state, 9000, 10);
    start_health_check(&mut state, 9000, GUEST_CID, 8080).unwrap();

    // host -> guest: REQUEST
    let request = Packet::from_bytes(&state.tick(None)).unwrap();
    assert_eq!(request.hdr().op, VSOCK_OP_REQUEST);
    assert_eq!(request.hdr().dst_port, 8080);
    assert_eq!(request.hdr().src_port, 9000);
    assert!(state.tick(None).is_empty());

    // guest -> host: RESPONSE
    let reply = state.tick(Some(guest_packet(VSOCK_OP_RESPONSE, 8080, 9000, &[])));
    assert!(reply.is_empty());
    assert_eq!(state.get_client_port(8080), Some(9000));

    // host -> guest: RW with the health request
    let rw = Packet::from_bytes(&state.tick(None)).unwrap();
    assert_eq!(rw.hdr().op, VSOCK_OP_RW);
    assert_eq!(rw.hdr().dst_port, 8080);
    assert_eq!(
        rw.payload(),
        b"GET /health HTTP/1.1\r\nHost: localhost:8080\r\nConnection: close\r\n\r\n"
    );
    assert_eq!(rw.hdr().len as usize, rw.payload().len());
    assert!(state.tick(None).is_empty());

    // guest -> host: RW with the answer
    let answer = b"HTTP/1.1 200 OK\r\nContent-Type: application/json\r\nContent-Length: 17\r\n\r\n{\"status\":\"ok\"}";
    let reply = state.tick(Some(guest_packet(VSOCK_OP_RW, 8080, 9000, answer)));
    assert!(reply.is_empty());

    // host -> guest: SHUTDOWN
    let shutdown = Packet::from_bytes(&state.tick(None)).unwrap();
    assert_eq!(shutdown.hdr().op, VSOCK_OP_SHUTDOWN);
    assert_eq!(shutdown.hdr().dst_port, 8080);

    // Terminal state: no live connections, nothing left to send.
    assert!(state.get_connection_ports().is_empty());
    assert!(state.tick(None).is_empty());
}

#[test]
fn owners_can_be_taken_out_and_put_back() {
    let mut state: RunnerState<Recorder, Recorder> = RunnerState::new();
    state.add_listener(8080, Recorder::new());
    state.add_client(9000, Recorder::new());
    assert!(state.has_listener(8080) && state.has_client(9000));
    assert!(!state.has_listener(9000) && !state.has_client(8080));
    let mut service = state.take_listener(8080).unwrap();
    assert!(!state.has_listener(8080));
    assert!(state.take_listener(8080).is_none());
    service.shutdown = true;
    state.add_listener(8080, service);
    assert!(state.get_listener(8080).unwrap().shutdown);
    assert!(state.take_client(9000).is_some());
    assert!(state.take_client(9000).is_none());
}

#[test]
fn pending_requests_wait_until_answered() {
    let mut state: RunnerState<Recorder, Recorder> = RunnerState::new();
    assert_eq!(state.get_pending_request(8080), None);
    state.initiate_connection(9000, GUEST_CID, 8080).unwrap();
    let waiting = state.get_pending_request(8080).unwrap();
    assert_eq!((waiting.client_port, waiting.target_port), (9000, 8080));
    assert!(waiting.not_yet_sent);
    // The REQUEST leaves with the next empty yield.
    let request = Packet::from_bytes(&state.tick(None)).unwrap();
    assert_eq!(request.hdr().op, VSOCK_OP_REQUEST);
    assert!(!state.get_pending_request(8080).unwrap().not_yet_sent);
    assert_eq!(state.remove_pending_request(8080).map(|r| r.client_port), Some(9000));
    assert_eq!(state.remove_pending_request(8080), None);
}

#[test]
fn packets_are_staged_in_order() {
    let mut state: RunnerState<Recorder, Recorder> = RunnerState::new();
    let a = construct_packet(1, VSOCK_OP_RW, b"a").unwrap();
    let b = construct_packet(2, VSOCK_OP_RW, b"b").unwrap();
    state.add_to_write_queue(a.clone());
    state.extend_write_queue(vec![b.clone(), a.clone()]);
    assert_eq!(state.pop_from_write_queue(), Some(a.clone()));
    assert_eq!(state.pop_from_write_queue(), Some(b));
    assert_eq!(state.pop_from_write_queue(), Some(a));
    assert_eq!(state.pop_from_write_queue(), None);
}

#[test]
fn services_of_different_kinds_share_a_registry() {
    let mut state: RunnerState<Box<dyn Service>, Box<dyn Client>> = RunnerState::new();
    state.add_listener(8080, Box::new(HttpServer::new(8080)));
    state.add_listener(7070, Box::new(Recorder::new()));
    state.add_client(9000, Box::new(HttpHealthCheckClient::new(9000, 3, "guest".to_string())));
    state.add_client(9001, Box::new(Recorder::new()));
    assert!(state.tick(Some(guest_packet(VSOCK_OP_REQUEST, 5000, 8080, &[]))).is_empty());
    assert!(state.tick(Some(guest_packet(VSOCK_OP_REQUEST, 5001, 7070, &[]))).is_empty());
    assert!(state
        .tick(Some(guest_packet(VSOCK_OP_RW, 5000, 8080, b"GET / HTTP/1.1\r\n\r\n")))
        .is_empty());
    let mut ops = Vec::new();
    loop {
        let reply = state.tick(None);
        if reply.is_empty() {
            break;
        }
        let packet = Packet::from_bytes(&reply).unwrap();
        ops.push((packet.hdr().op, packet.hdr().dst_port));
        if packet.hdr().op == VSOCK_OP_RW {
            assert!(packet.payload().starts_with(b"HTTP/1.1 200 OK"));
        }
    }
    assert_eq!(
        ops,
        vec![(VSOCK_OP_RW, 5000), (VSOCK_OP_RESPONSE, 5001), (VSOCK_OP_RESPONSE, 5000)]
    );
}

#[test]
fn inbound_connections_are_polled_first() {
    let mut state: RunnerState<Recorder, Recorder> = RunnerState::new();
    let mut service = Recorder::new();
    service.to_write.push(b"from the service".to_vec());
    let mut client = Recorder::new();
    client.to_write.push(b"from the client".to_vec());
    client.shutdown = true;
    state.add_listener(8080, service);
    state.add_client(9000, client);
    state.add_client_connection(7000, 9000);
    state.add_connection(5000, 8080);
    let answers = state.collect_egress();
    assert_eq!(answers.len(), 2);
    assert_eq!(answers[0].port, 5000);
    assert_eq!(answers[0].data, Some(b"from the service".to_vec()));
    assert!(!answers[0].shutdown);
    assert_eq!(answers[1].port, 7000);
    assert_eq!(answers[1].data, Some(b"from the client".to_vec()));
    assert!(answers[1].shutdown);
    // Each owner was asked once: nothing is left to hand out.
    let again = state.collect_egress();
    assert_eq!(again.len(), 2);
    assert_eq!(again[0].data, None);
    assert_eq!(again[1].data, None);
}

#[test]
fn a_delivery_reaches_its_owner_only() {
    let mut state: RunnerState<Recorder, Recorder> = RunnerState::new();
    state.add_listener(8080, Recorder::new());
    state.add_listener(8081, Recorder::new());
    state.add_client(8080, Recorder::new());
    state.deliver(Delivery {
        owner: Owner::Service(8080),
        peer: 5000,
        event: Event::Data,
        data: b"abc".to_vec(),
    });
    state.deliver(Delivery { owner: Owner::Client(8080), peer: 6000, event: Event::ConnectFailed, data: Vec::new() });
    // An owner has no callback for an event of the other kind.
    state.deliver(Delivery { owner: Owner::Service(8081), peer: 1, event: Event::ConnectSuccess, data: Vec::new() });
    state.deliver(Delivery { owner: Owner::Client(8080), peer: 1, event: Event::Connection, data: Vec::new() });
    assert_eq!(calls_of_listener(&mut state, 8080), vec!["data 5000 3"]);
    assert_eq!(state.get_listener(8080).unwrap().data, b"abc");
    assert!(calls_of_listener(&mut state, 8081).is_empty());
    assert_eq!(calls_of_client(&mut state, 8080), vec!["failed 6000"]);
}
