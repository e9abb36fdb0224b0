//! A small HTTP client for the multiplexer: it sends one request per
//! connection and keeps what comes back until the header is complete.

use vstd::prelude::*;
use vstd::string::StringSliceAdditionalSpecFns;
use vstd::string::StrSliceExecFns;
use vstd::utf8::encode_utf8;
use std::collections::HashMap;
use crate::http_server::holds_blank_line;
use crate::runner::{bytes_view, Call, Client, RunnerState, RunnerView, Service};
use crate::runner::{request_packet, PendingRequest};
use crate::slots::slot_mut;
use crate::text::{
    body_after_blank_line, chars_of, decode_lossy, find_blank_line, find_line_end, find_word,
    first_line, has_blank_line, has_word, nth_word, parse_number, parse_u16, utf8_lossy,
};
use crate::text::lemma_blank_line_bounds;
use crate::vsock_protocol::ProtocolError;

verus! {

broadcast use vstd::std_specs::hash::group_hash_axioms;

/// What the client holds of one connection.
pub struct HttpClientConnection {
    port: u32,
    buffer: Vec<u8>,
    response_complete: bool,
}

/// A connection as plain values.
pub struct HttpClientConnectionView {
    pub port: u32,
    /// The bytes received so far.
    pub buffer: Seq<u8>,
    /// Whether the header of the response was seen in full.
    pub response_complete: bool,
}

impl View for HttpClientConnection {
    type V = HttpClientConnectionView;

    closed spec fn view(&self) -> HttpClientConnectionView {
        HttpClientConnectionView {
            port: self.port,
            buffer: self.buffer@,
            response_complete: self.response_complete,
        }
    }
}

impl HttpClientConnectionView {
    /// A connection on which nothing has arrived.
    pub open spec fn fresh(port: u32) -> HttpClientConnectionView {
        HttpClientConnectionView { port, buffer: Seq::<u8>::empty(), response_complete: false }
    }
}

impl HttpClientConnection {
    pub fn new(port: u32) -> (connection: Self)
        ensures
            connection@ == HttpClientConnectionView::fresh(port),
    {
        Self { port, buffer: Vec::new(), response_complete: false }
    }

    pub fn is_response_complete(&self) -> (complete: bool)
        ensures
            complete == self@.response_complete,
    {
        self.response_complete
    }

    pub fn set_response_complete(&mut self, response_complete: bool)
        ensures
            final(self)@ == (HttpClientConnectionView { response_complete, ..old(self)@ }),
    {
        self.response_complete = response_complete;
    }

    pub fn get_buffer(&self) -> (buffer: &[u8])
        ensures
            buffer@ == self@.buffer,
    {
        self.buffer.as_slice()
    }

    pub fn clear_buffer(&mut self)
        ensures
            final(self)@ == (HttpClientConnectionView {
                buffer: Seq::<u8>::empty(),
                ..old(self)@
            }),
    {
        self.buffer.clear();
    }
}

/// Simple HTTP client that implements the Client trait
pub struct HttpClient {
    port: u32,
    connections: HashMap<u32, HttpClientConnection>,
    pending_requests: HashMap<u32, Vec<u8>>,
    responses: HashMap<u32, Vec<u8>>,
    /// The calls made on this client, oldest first.
    history: Ghost<Seq<Call>>,
}

/// The client as plain values.
pub struct HttpClientView {
    pub port: u32,
    /// The open connections, by peer port.
    pub connections: Map<u32, HttpClientConnectionView>,
    /// The requests that wait to be sent, by peer port.
    pub pending_requests: Map<u32, Seq<u8>>,
    /// The responses whose header is complete, by peer port.
    pub responses: Map<u32, Seq<u8>>,
}

impl View for HttpClient {
    type V = HttpClientView;

    closed spec fn view(&self) -> HttpClientView {
        HttpClientView {
            port: self.port,
            connections: self.connections@.map_values(|c: HttpClientConnection| c@),
            pending_requests: self.pending_requests@.map_values(|r: Vec<u8>| r@),
            responses: self.responses@.map_values(|r: Vec<u8>| r@),
        }
    }
}

/// The bytes of a request: request line, `Host` header, `Connection: close`
/// and a blank line.
pub open spec fn http_request(method: Seq<char>, path: Seq<char>, host: Seq<char>) -> Seq<u8> {
    encode_utf8(method) + " ".spec_bytes() + encode_utf8(path) + " HTTP/1.1\r\nHost: ".spec_bytes()
        + encode_utf8(host) + "\r\nConnection: close\r\n\r\n".spec_bytes()
}

/// The client with `request` queued for `port`.
pub open spec fn client_queue(c: HttpClientView, port: u32, request: Seq<u8>) -> HttpClientView {
    HttpClientView { pending_requests: c.pending_requests.insert(port, request), ..c }
}

/// The client with the connection to `port`, if any, ready for another
/// response: nothing buffered, nothing complete.
pub open spec fn client_reset(c: HttpClientView, port: u32) -> HttpClientView {
    if c.connections.contains_key(port) {
        HttpClientView {
            connections: c.connections.insert(
                port,
                HttpClientConnectionView {
                    buffer: Seq::<u8>::empty(),
                    response_complete: false,
                    ..c.connections[port]
                },
            ),
            ..c
        }
    } else {
        c
    }
}

/// The status that a response with the text `text` carries: the second word
/// of its first line, read as a number, where that line has three words or
/// more.
pub open spec fn response_status(text: Seq<char>) -> Option<u16> {
    let line = first_line(text);
    if has_word(line, 2) {
        parse_u16(nth_word(line, 1))
    } else {
        None
    }
}

/// Whether the connection to `port` has seen its response's header in full.
pub open spec fn response_complete(c: HttpClientView, port: u32) -> bool {
    c.connections.contains_key(port) && c.connections[port].response_complete
}

/// What bytes from `port` do to the client: they are appended to the
/// connection's buffer, and the first time the buffer holds a blank line the
/// response counts as complete and is kept. Bytes for an unknown connection
/// are dropped.
pub open spec fn client_on_data(c: HttpClientView, port: u32, data: Seq<u8>) -> HttpClientView {
    if c.connections.contains_key(port) {
        let conn = c.connections[port];
        let buffer = conn.buffer + data;
        if !conn.response_complete && has_blank_line(utf8_lossy(buffer)) {
            HttpClientView {
                connections: c.connections.insert(
                    port,
                    HttpClientConnectionView { buffer, response_complete: true, ..conn },
                ),
                responses: c.responses.insert(port, buffer),
                ..c
            }
        } else {
            HttpClientView {
                connections: c.connections.insert(
                    port,
                    HttpClientConnectionView { buffer, ..conn },
                ),
                ..c
            }
        }
    } else {
        c
    }
}

/// The client without anything held for `port`.
pub open spec fn client_forget(c: HttpClientView, port: u32) -> HttpClientView {
    HttpClientView {
        connections: c.connections.remove(port),
        pending_requests: c.pending_requests.remove(port),
        responses: c.responses.remove(port),
        ..c
    }
}

/// The status of a response and where its body lies, given its text.
pub fn parse_response_text(text: &[char]) -> (parsed: Option<(u16, usize, usize)>)
    ensures
        match parsed {
            Some((status, start, end)) => response_status(text@) == Some(status) && start <= end
                <= text@.len() && text@.subrange(start as int, end as int)
                == body_after_blank_line(text@),
            None => response_status(text@) is None,
        },
{
    let end: usize = find_line_end(text, 0);
    let line = vstd::slice::slice_subrange(text, 0, end);
    if find_word(line, 2).is_none() {
        return None;
    }
    let word = match find_word(line, 1) {
        Some(word) => word,
        None => {
            return None;
        },
    };
    let status = match parse_number(vstd::slice::slice_subrange(line, word.0, word.1)) {
        Some(status) => status,
        None => {
            return None;
        },
    };
    let at: usize = find_blank_line(text, 0);
    if at < text.len() {
        proof {
            lemma_blank_line_bounds(text@, at + 4);
        }
        let next: usize = find_blank_line(text, at + 4);
        Some((status, at + 4, next))
    } else {
        assert(text@.subrange(0, 0) =~= Seq::<char>::empty());
        Some((status, 0, 0))
    }
}

impl HttpClient {
    pub fn get_connection(&self, port: &u32) -> (connection: Option<&HttpClientConnection>)
        ensures
            match connection {
                Some(c) => self@.connections.contains_key(*port) && c@ == self@.connections[*port],
                None => !self@.connections.contains_key(*port),
            },
    {
        self.connections.get(port)
    }

    pub fn get_mut_connection(&mut self, port: &u32) -> (connection: Option<
        &mut HttpClientConnection,
    >)
        ensures
            match connection {
                Some(c) => old(self)@.connections.contains_key(*port) && c@ == old(
                    self,
                )@.connections[*port] && final(self)@ == (HttpClientView {
                    connections: old(self)@.connections.insert(*port, final(c)@),
                    ..old(self)@
                }),
                None => !old(self)@.connections.contains_key(*port) && final(self)@ == old(self)@,
            },
            final(self).calls() == old(self).calls(),
    {
        let ghost held = self.connections@;
        assert forall|c: HttpClientConnection|
            held.insert(*port, c).map_values(|c: HttpClientConnection| c@) == held.map_values(
                |c: HttpClientConnection| c@,
            ).insert(*port, #[trigger] c@) by {
            assert(held.insert(*port, c).map_values(|c: HttpClientConnection| c@)
                =~= held.map_values(|c: HttpClientConnection| c@).insert(*port, c@));
        }
        slot_mut(&mut self.connections, port)
    }

    pub fn new(port: u32) -> (client: Self)
        ensures
            client@ == (HttpClientView {
                port,
                connections: Map::<u32, HttpClientConnectionView>::empty(),
                pending_requests: Map::<u32, Seq<u8>>::empty(),
                responses: Map::<u32, Seq<u8>>::empty(),
            }),
            client.calls() == Seq::<Call>::empty(),
    {
        let client = Self {
            port,
            connections: HashMap::new(),
            pending_requests: HashMap::new(),
            responses: HashMap::new(),
            history: Ghost(Seq::<Call>::empty()),
        };
        proof {
            assert(client@.connections =~= Map::<u32, HttpClientConnectionView>::empty());
            assert(client@.pending_requests =~= Map::<u32, Seq<u8>>::empty());
            assert(client@.responses =~= Map::<u32, Seq<u8>>::empty());
        }
        client
    }

    pub fn create_http_request(&self, method: &str, path: &str, host: &str) -> (request: Vec<u8>)
        ensures
            request@ == http_request(method@, path@, host@),
    {
        let mut request: Vec<u8> = Vec::new();
        request.extend_from_slice(method.as_bytes());
        request.extend_from_slice(" ".as_bytes());
        request.extend_from_slice(path.as_bytes());
        request.extend_from_slice(" HTTP/1.1\r\nHost: ".as_bytes());
        request.extend_from_slice(host.as_bytes());
        request.extend_from_slice("\r\nConnection: close\r\n\r\n".as_bytes());
        assert(request@ =~= http_request(method@, path@, host@));
        request
    }

    /// Queues a request for the connection to `connection_port`. It is sent
    /// once that connection is polled for egress.
    pub fn make_request(&mut self, connection_port: u32, method: &str, path: &str, host: &str)
        ensures
            final(self)@ == client_queue(
                old(self)@,
                connection_port,
                http_request(method@, path@, host@),
            ),
            final(self).calls() == old(self).calls(),
    {
        let request = self.create_http_request(method, path, host);
        self.pending_requests.insert(connection_port, request);
        assert(self@.pending_requests =~= old(self)@.pending_requests.insert(
            connection_port,
            http_request(method@, path@, host@),
        ));
    }

    /// The status and the body of the response that `response` holds, read
    /// as lossy UTF-8.
    pub fn parse_http_response(&self, response: &[u8]) -> (parsed: Option<(u16, String)>)
        ensures
            match parsed {
                Some((status, body)) => response_status(utf8_lossy(response@)) == Some(status)
                    && body@ == body_after_blank_line(utf8_lossy(response@)),
                None => response_status(utf8_lossy(response@)) is None,
            },
    {
        let text = decode_lossy(response);
        let chars = chars_of(text.as_str());
        match parse_response_text(chars.as_slice()) {
            Some((status, start, end)) => {
                let body = text.as_str().substring_char(start, end).to_owned();
                Some((status, body))
            },
            None => None,
        }
    }

    /// Makes the connection to `port` ready for another response: nothing
    /// buffered, nothing complete.
    pub fn reset_connection(&mut self, port: u32)
        ensures
            final(self)@ == client_reset(old(self)@, port),
            final(self).calls() == old(self).calls(),
    {
        let ghost pre = self@;
        match self.connections.remove(&port) {
            Some(mut connection) => {
                assert(pre.connections.contains_key(port) && pre.connections[port] == connection@);
                connection.set_response_complete(false);
                connection.clear_buffer();
                let ghost after = connection@;
                self.connections.insert(port, connection);
                assert(self@.connections =~= pre.connections.insert(port, after));
            },
            None => {
                assert(!pre.connections.contains_key(port));
                assert(self@.connections =~= pre.connections);
            },
        }
    }
}

impl Client for HttpClient {
    open spec fn records(&self) -> bool {
        true
    }

    closed spec fn calls(&self) -> Seq<Call> {
        self.history@
    }

    fn on_connect_success(&mut self, port: u32)
        ensures
            final(self)@ == (HttpClientView {
                connections: old(self)@.connections.insert(
                    port,
                    HttpClientConnectionView::fresh(port),
                ),
                ..old(self)@
            }),
    {
        proof {
            self.history@ = self.history@.push(Call::ConnectSuccess(port));
        }
        self.connections.insert(port, HttpClientConnection::new(port));
        assert(self@.connections =~= old(self)@.connections.insert(
            port,
            HttpClientConnectionView::fresh(port),
        ));
    }

    fn on_connect_failed(&mut self, port: u32)
        ensures
            final(self)@ == (HttpClientView {
                pending_requests: old(self)@.pending_requests.remove(port),
                ..old(self)@
            }),
    {
        proof {
            self.history@ = self.history@.push(Call::ConnectFailed(port));
        }
        self.pending_requests.remove(&port);
        assert(self@.pending_requests =~= old(self)@.pending_requests.remove(port));
    }

    fn on_data(&mut self, port: u32, data: &[u8])
        ensures
            final(self)@ == client_on_data(old(self)@, port, data@),
    {
        proof {
            self.history@ = self.history@.push(Call::Data(port, data@));
        }
        let ghost pre = self@;
        match self.connections.remove(&port) {
            Some(mut connection) => {
                let ghost c = connection@;
                assert(pre.connections.contains_key(port) && pre.connections[port] == c);
                connection.buffer.extend_from_slice(data);
                assert(connection.buffer@ =~= c.buffer + data@);
                if !connection.response_complete && holds_blank_line(connection.buffer.as_slice()) {
                    connection.response_complete = true;
                    let kept = vstd::slice::slice_to_vec(connection.buffer.as_slice());
                    self.responses.insert(port, kept);
                    assert(self@.responses =~= pre.responses.insert(port, c.buffer + data@));
                }
                let ghost after = connection@;
                self.connections.insert(port, connection);
                assert(self@.connections =~= pre.connections.insert(port, after));
            },
            None => {
                assert(!pre.connections.contains_key(port));
                assert(self@.connections =~= pre.connections);
            },
        }
    }

    fn on_reset(&mut self, port: u32)
        ensures
            final(self)@ == client_forget(old(self)@, port),
    {
        proof {
            self.history@ = self.history@.push(Call::Reset(port));
        }
        self.connections.remove(&port);
        self.pending_requests.remove(&port);
        self.responses.remove(&port);
        assert(self@.connections =~= old(self)@.connections.remove(port));
        assert(self@.pending_requests =~= old(self)@.pending_requests.remove(port));
        assert(self@.responses =~= old(self)@.responses.remove(port));
    }

    fn on_shutdown(&mut self, port: u32)
        ensures
            final(self)@ == client_forget(old(self)@, port),
    {
        proof {
            self.history@ = self.history@.push(Call::Shutdown(port));
        }
        self.connections.remove(&port);
        self.pending_requests.remove(&port);
        self.responses.remove(&port);
        assert(self@.connections =~= old(self)@.connections.remove(port));
        assert(self@.pending_requests =~= old(self)@.pending_requests.remove(port));
        assert(self@.responses =~= old(self)@.responses.remove(port));
    }

    /// Hands out the request that waits for `port`, one time.
    fn get_write_data(&mut self, port: u32) -> (data: Option<Vec<u8>>)
        ensures
            bytes_view(data) == if old(self)@.pending_requests.contains_key(port) {
                Some(old(self)@.pending_requests[port])
            } else {
                None
            },
            final(self)@ == (HttpClientView {
                pending_requests: old(self)@.pending_requests.remove(port),
                ..old(self)@
            }),
    {
        let data = self.pending_requests.remove(&port);
        assert(self@.pending_requests =~= old(self)@.pending_requests.remove(port));
        proof {
            self.history@ = self.history@.push(Call::WriteData(port, bytes_view(data)));
        }
        data
    }

    /// The connection is done once its response is complete.
    fn should_shutdown(&mut self, port: u32) -> (shutdown: bool)
        ensures
            shutdown == response_complete(old(self)@, port),
            final(self)@ == old(self)@,
    {
        let shutdown = match self.connections.get(&port) {
            Some(connection) => connection.response_complete,
            None => false,
        };
        proof {
            self.history@ = self.history@.push(Call::ShouldShutdown(port, shutdown));
        }
        shutdown
    }
}

/// Helper function to create and add an HTTP client to the runner state
pub fn add_http_client<S: Service>(state: &mut RunnerState<S, HttpClient>, client_port: u32)
    ensures
        final(state)@ == (RunnerView {
            clients: old(state)@.clients.insert(client_port),
            ..old(state)@
        }),
{
    let http_client = HttpClient::new(client_port);
    state.add_client(client_port, http_client);
}

/// Helper function to make an HTTP request: the connection is asked for,
/// and the client queues its request once the connection stands.
pub fn make_http_request<S: Service, C: Client>(
    state: &mut RunnerState<S, C>,
    client_port: u32,
    target_cid: u32,
    target_port: u32,
    method: &str,
    path: &str,
    host: &str,
) -> (done: Result<(), ProtocolError>)
    ensures
        done is Ok,
        final(state)@ == (RunnerView {
            write_queue: old(state)@.write_queue.push(request_packet(client_port, target_port)),
            pending: old(state)@.pending.insert(
                target_port,
                PendingRequest { client_port, target_port, not_yet_sent: true },
            ),
            ..old(state)@
        }),
{
    state.initiate_connection(client_port, target_cid, target_port)
}

/// Helper function to start a health check
pub fn start_health_check<S: Service, C: Client>(
    state: &mut RunnerState<S, C>,
    client_port: u32,
    target_cid: u32,
    target_port: u32,
) -> (done: Result<(), ProtocolError>)
    ensures
        done is Ok,
        final(state)@ == (RunnerView {
            write_queue: old(state)@.write_queue.push(request_packet(client_port, target_port)),
            pending: old(state)@.pending.insert(
                target_port,
                PendingRequest { client_port, target_port, not_yet_sent: true },
            ),
            ..old(state)@
        }),
{
    state.initiate_connection(client_port, target_cid, target_port)
}

} // verus!
