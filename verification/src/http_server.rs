//! A small HTTP service for the multiplexer: it answers the first request on
//! each connection with one of three fixed responses.

use vstd::prelude::*;
use vstd::string::StringSliceAdditionalSpecFns;
use vstd::string::StrSliceExecFns;
use std::collections::HashMap;
use crate::runner::{bytes_view, Call, Client, RunnerState, RunnerView, Service};
use crate::text::{
    find_blank_line, find_line_end, find_word, first_line, has_blank_line, has_word, lossy_chars,
    nth_word, same_text, utf8_lossy,
};

verus! {

broadcast use vstd::std_specs::hash::group_hash_axioms;

/// The port the service listens on.
pub const HTTP_PORT: u32 = 8080;

/// The response to `GET /`.
pub const ROOT_RESPONSE: &'static str =
    "HTTP/1.1 200 OK\r\nContent-Type: text/html\r\nContent-Length: 25\r\n\r\n<h1>Hello World!</h1>";

/// The response to `GET /health`.
pub const HEALTH_RESPONSE: &'static str =
    "HTTP/1.1 200 OK\r\nContent-Type: application/json\r\nContent-Length: 17\r\n\r\n{\"status\":\"ok\"}";

/// The response to anything else.
pub const NOT_FOUND_RESPONSE: &'static str =
    "HTTP/1.1 404 Not Found\r\nContent-Type: text/plain\r\nContent-Length: 13\r\n\r\n404 Not Found";

/// What the service holds of one connection.
pub struct HttpConnection {
    port: u32,
    buffer: Vec<u8>,
    request_complete: bool,
    response_ready: bool,
}

/// A connection as plain values.
pub struct HttpConnectionView {
    pub port: u32,
    /// The bytes received so far.
    pub buffer: Seq<u8>,
    /// Whether the request was seen in full, and answered if it could be.
    pub request_complete: bool,
    /// Whether a response was made.
    pub response_ready: bool,
}

impl View for HttpConnection {
    type V = HttpConnectionView;

    closed spec fn view(&self) -> HttpConnectionView {
        HttpConnectionView {
            port: self.port,
            buffer: self.buffer@,
            request_complete: self.request_complete,
            response_ready: self.response_ready,
        }
    }
}

impl HttpConnectionView {
    /// A connection on which nothing has arrived.
    pub open spec fn fresh(port: u32) -> HttpConnectionView {
        HttpConnectionView {
            port,
            buffer: Seq::<u8>::empty(),
            request_complete: false,
            response_ready: false,
        }
    }
}

impl HttpConnection {
    pub fn new(port: u32) -> (connection: Self)
        ensures
            connection@ == HttpConnectionView::fresh(port),
    {
        Self { port, buffer: Vec::new(), request_complete: false, response_ready: false }
    }
}

/// Simple HTTP server that implements the Service trait
pub struct HttpServer {
    port: u32,
    connections: HashMap<u32, HttpConnection>,
    pending_responses: HashMap<u32, Vec<u8>>,
    /// The calls made on this service, oldest first.
    history: Ghost<Seq<Call>>,
}

/// The service as plain values.
pub struct HttpServerView {
    pub port: u32,
    /// The open connections, by peer port.
    pub connections: Map<u32, HttpConnectionView>,
    /// The responses that wait to be sent, by peer port.
    pub pending_responses: Map<u32, Seq<u8>>,
}

impl View for HttpServer {
    type V = HttpServerView;

    closed spec fn view(&self) -> HttpServerView {
        HttpServerView {
            port: self.port,
            connections: self.connections@.map_values(|c: HttpConnection| c@),
            pending_responses: self.pending_responses@.map_values(|r: Vec<u8>| r@),
        }
    }
}

/// The response to a request with the text `text`: by the method and the
/// path, which are the first two words of its first line. A first line with
/// fewer words gets no response.
pub open spec fn http_response(text: Seq<char>) -> Option<Seq<u8>> {
    let line = first_line(text);
    if has_word(line, 1) {
        let method = nth_word(line, 0);
        let path = nth_word(line, 1);
        if method == "GET"@ && path == "/"@ {
            Some(ROOT_RESPONSE.spec_bytes())
        } else if method == "GET"@ && path == "/health"@ {
            Some(HEALTH_RESPONSE.spec_bytes())
        } else {
            Some(NOT_FOUND_RESPONSE.spec_bytes())
        }
    } else {
        None
    }
}

/// What bytes from `port` do to the service: they are appended to the
/// connection's buffer, and once the buffered request holds a blank line it
/// is answered, one time per connection. Bytes for an unknown connection
/// are dropped.
pub open spec fn server_on_data(s: HttpServerView, port: u32, data: Seq<u8>) -> HttpServerView {
    if s.connections.contains_key(port) {
        let c = s.connections[port];
        let buffer = c.buffer + data;
        if !c.request_complete && has_blank_line(utf8_lossy(buffer)) {
            match http_response(utf8_lossy(buffer)) {
                Some(response) => HttpServerView {
                    connections: s.connections.insert(
                        port,
                        HttpConnectionView {
                            buffer,
                            request_complete: true,
                            response_ready: true,
                            ..c
                        },
                    ),
                    pending_responses: s.pending_responses.insert(port, response),
                    ..s
                },
                None => HttpServerView {
                    connections: s.connections.insert(
                        port,
                        HttpConnectionView { buffer, request_complete: true, ..c },
                    ),
                    ..s
                },
            }
        } else {
            HttpServerView {
                connections: s.connections.insert(port, HttpConnectionView { buffer, ..c }),
                ..s
            }
        }
    } else {
        s
    }
}

/// The response to a request, given its text.
pub fn respond(text: &[char]) -> (response: Option<Vec<u8>>)
    ensures
        bytes_view(response) == http_response(text@),
{
    let end: usize = find_line_end(text, 0);
    let line = vstd::slice::slice_subrange(text, 0, end);
    let method = match find_word(line, 0) {
        Some(word) => word,
        None => {
            return None;
        },
    };
    let path = match find_word(line, 1) {
        Some(word) => word,
        None => {
            return None;
        },
    };
    let is_get = same_text(vstd::slice::slice_subrange(line, method.0, method.1), "GET");
    let path = vstd::slice::slice_subrange(line, path.0, path.1);
    if is_get && same_text(path, "/") {
        Some(ROOT_RESPONSE.as_bytes_vec())
    } else if is_get && same_text(path, "/health") {
        Some(HEALTH_RESPONSE.as_bytes_vec())
    } else {
        Some(NOT_FOUND_RESPONSE.as_bytes_vec())
    }
}

/// Whether the lossy text of `data` holds a blank line.
pub fn holds_blank_line(data: &[u8]) -> (found: bool)
    ensures
        found == has_blank_line(utf8_lossy(data@)),
{
    let text = lossy_chars(data);
    find_blank_line(text.as_slice(), 0) < text.len()
}

impl HttpServer {
    pub fn new(port: u32) -> (server: Self)
        ensures
            server@ == (HttpServerView {
                port,
                connections: Map::<u32, HttpConnectionView>::empty(),
                pending_responses: Map::<u32, Seq<u8>>::empty(),
            }),
            server.calls() == Seq::<Call>::empty(),
    {
        let server = Self {
            port,
            connections: HashMap::new(),
            pending_responses: HashMap::new(),
            history: Ghost(Seq::<Call>::empty()),
        };
        proof {
            assert(server@.connections =~= Map::<u32, HttpConnectionView>::empty());
            assert(server@.pending_responses =~= Map::<u32, Seq<u8>>::empty());
        }
        server
    }

    /// The response to the request that `data` holds, read as lossy UTF-8.
    pub fn handle_http_request(&mut self, data: &[u8]) -> (response: Option<Vec<u8>>)
        ensures
            bytes_view(response) == http_response(utf8_lossy(data@)),
            final(self)@ == old(self)@,
            final(self).calls() == old(self).calls(),
    {
        let text = lossy_chars(data);
        respond(text.as_slice())
    }
}

impl Service for HttpServer {
    open spec fn records(&self) -> bool {
        true
    }

    closed spec fn calls(&self) -> Seq<Call> {
        self.history@
    }

    fn on_connection(&mut self, port: u32)
        ensures
            final(self)@ == (HttpServerView {
                connections: old(self)@.connections.insert(port, HttpConnectionView::fresh(port)),
                ..old(self)@
            }),
    {
        proof {
            self.history@ = self.history@.push(Call::Connection(port));
        }
        self.connections.insert(port, HttpConnection::new(port));
        assert(self@.connections =~= old(self)@.connections.insert(
            port,
            HttpConnectionView::fresh(port),
        ));
    }

    fn on_data(&mut self, port: u32, data: &[u8])
        ensures
            final(self)@ == server_on_data(old(self)@, port, data@),
    {
        proof {
            self.history@ = self.history@.push(Call::Data(port, data@));
        }
        let ghost pre = self@;
        match self.connections.remove(&port) {
            Some(mut connection) => {
                let ghost c = connection@;
                assert(pre.connections.contains_key(port) && pre.connections[port] == c);
                connection.buffer.extend_from_slice(data);
                assert(connection.buffer@ =~= c.buffer + data@);
                if !connection.request_complete && holds_blank_line(connection.buffer.as_slice()) {
                    let text = lossy_chars(connection.buffer.as_slice());
                    let response = respond(text.as_slice());
                    connection.request_complete = true;
                    if let Some(response_data) = response {
                        self.pending_responses.insert(port, response_data);
                        connection.response_ready = true;
                        assert(self@.pending_responses =~= pre.pending_responses.insert(
                            port,
                            response_data@,
                        ));
                    }
                }
                let ghost after = connection@;
                self.connections.insert(port, connection);
                assert(self@.connections =~= pre.connections.insert(port, after));
            },
            None => {
                assert(!pre.connections.contains_key(port));
                assert(self@.connections =~= pre.connections);
            },
        }
    }

    fn on_reset(&mut self, port: u32)
        ensures
            final(self)@ == (HttpServerView {
                connections: old(self)@.connections.remove(port),
                pending_responses: old(self)@.pending_responses.remove(port),
                ..old(self)@
            }),
    {
        proof {
            self.history@ = self.history@.push(Call::Reset(port));
        }
        self.connections.remove(&port);
        self.pending_responses.remove(&port);
        assert(self@.connections =~= old(self)@.connections.remove(port));
        assert(self@.pending_responses =~= old(self)@.pending_responses.remove(port));
    }

    fn on_shutdown(&mut self, port: u32)
        ensures
            final(self)@ == (HttpServerView {
                connections: old(self)@.connections.remove(port),
                pending_responses: old(self)@.pending_responses.remove(port),
                ..old(self)@
            }),
    {
        proof {
            self.history@ = self.history@.push(Call::Shutdown(port));
        }
        self.connections.remove(&port);
        self.pending_responses.remove(&port);
        assert(self@.connections =~= old(self)@.connections.remove(port));
        assert(self@.pending_responses =~= old(self)@.pending_responses.remove(port));
    }

    /// Hands out the response that waits for `port`, one time.
    fn get_write_data(&mut self, port: u32) -> (data: Option<Vec<u8>>)
        ensures
            bytes_view(data) == if old(self)@.pending_responses.contains_key(port) {
                Some(old(self)@.pending_responses[port])
            } else {
                None
            },
            final(self)@ == (HttpServerView {
                pending_responses: old(self)@.pending_responses.remove(port),
                ..old(self)@
            }),
    {
        let data = self.pending_responses.remove(&port);
        assert(self@.pending_responses =~= old(self)@.pending_responses.remove(port));
        proof {
            self.history@ = self.history@.push(Call::WriteData(port, bytes_view(data)));
        }
        data
    }

    /// The service never ends a connection by itself.
    fn should_shutdown(&mut self, port: u32) -> (shutdown: bool)
        ensures
            !shutdown,
            final(self)@ == old(self)@,
    {
        proof {
            self.history@ = self.history@.push(Call::ShouldShutdown(port, false));
        }
        false
    }
}

/// Helper function to create and add an HTTP server to the runner state
pub fn add_http_server<C: Client>(state: &mut RunnerState<HttpServer, C>)
    ensures
        final(state)@ == (RunnerView {
            listeners: old(state)@.listeners.insert(HTTP_PORT),
            ..old(state)@
        }),
{
    let http_server = HttpServer::new(HTTP_PORT);
    state.add_listener(HTTP_PORT, http_server);
}

} // verus!
