//! A client that asks the guest for `/health` until it answers with status
//! 200 or the retries run out.

use vstd::prelude::*;
use crate::http_client::{
    client_forget, client_on_data, client_queue, client_reset, http_request, response_complete,
    response_status, HttpClient, HttpClientConnectionView, HttpClientView,
};
use crate::runner::{bytes_view, Call, Client, RunnerState, RunnerView, Service};
use crate::text::utf8_lossy;

verus! {

/// The host that the health check names where none is given.
pub const DEFAULT_TARGET_HOST: &'static str = "localhost:8080";

/// HTTP Health Check Client that implements the Client trait
pub struct HttpHealthCheckClient {
    http_client: HttpClient,
    health_check_retries: u32,
    max_retries: u32,
    target_host: String,
    /// The calls made on this client, oldest first.
    history: Ghost<Seq<Call>>,
}

/// The health check as plain values.
pub struct HealthCheckView {
    pub http: HttpClientView,
    /// Responses with another status than 200 seen since the check started.
    pub retries: u32,
    pub max_retries: u32,
    pub target_host: Seq<char>,
}

impl View for HttpHealthCheckClient {
    type V = HealthCheckView;

    closed spec fn view(&self) -> HealthCheckView {
        HealthCheckView {
            http: self.http_client@,
            retries: self.health_check_retries,
            max_retries: self.max_retries,
            target_host: self.target_host@,
        }
    }
}

/// The request that asks `host` for its health.
pub open spec fn health_request(host: Seq<char>) -> Seq<u8> {
    http_request("GET"@, "/health"@, host)
}

/// The status of the complete response on the connection to `port`, if
/// there is one and it can be read.
pub open spec fn health_status(http: HttpClientView, port: u32) -> Option<u16> {
    if response_complete(http, port) {
        response_status(utf8_lossy(http.connections[port].buffer))
    } else {
        None
    }
}

/// What bytes from `port` do to the health check. The HTTP client takes
/// them first. A complete response with status 200 ends the check; any
/// other status counts as a failed attempt, and while attempts are left the
/// connection is made ready again and the request is queued once more.
pub open spec fn health_on_data(h: HealthCheckView, port: u32, data: Seq<u8>) -> HealthCheckView {
    let http = client_on_data(h.http, port, data);
    match health_status(http, port) {
        Some(status) => if status == 200 {
            HealthCheckView { http, ..h }
        } else {
            let retries = if h.retries < u32::MAX {
                (h.retries + 1) as u32
            } else {
                h.retries
            };
            if retries < h.max_retries {
                HealthCheckView {
                    http: client_queue(
                        client_reset(http, port),
                        port,
                        health_request(h.target_host),
                    ),
                    retries,
                    ..h
                }
            } else {
                HealthCheckView { http, retries, ..h }
            }
        },
        None => HealthCheckView { http, ..h },
    }
}

/// Whether the check on the connection to `port` is over: a complete
/// response came with status 200, or with another status when no attempts
/// are left.
pub open spec fn health_done(h: HealthCheckView, port: u32) -> bool {
    match health_status(h.http, port) {
        Some(status) => status == 200 || h.retries >= h.max_retries,
        None => false,
    }
}

impl HttpHealthCheckClient {
    pub fn new(port: u32, max_retries: u32, target_host: String) -> (client: Self)
        ensures
            client@ == (HealthCheckView {
                http: HttpClientView {
                    port,
                    connections: Map::<u32, HttpClientConnectionView>::empty(),
                    pending_requests: Map::<u32, Seq<u8>>::empty(),
                    responses: Map::<u32, Seq<u8>>::empty(),
                },
                retries: 0,
                max_retries,
                target_host: target_host@,
            }),
            client.calls() == Seq::<Call>::empty(),
    {
        Self {
            http_client: HttpClient::new(port),
            health_check_retries: 0,
            max_retries,
            target_host,
            history: Ghost(Seq::<Call>::empty()),
        }
    }

    /// Starts the check on the connection to `connection_port`: the attempts
    /// count from zero and the request is queued.
    pub fn start_health_check(&mut self, connection_port: u32)
        ensures
            final(self)@ == (HealthCheckView {
                http: client_queue(
                    old(self)@.http,
                    connection_port,
                    health_request(old(self)@.target_host),
                ),
                retries: 0,
                ..old(self)@
            }),
            final(self).calls() == old(self).calls(),
    {
        self.health_check_retries = 0;
        self.http_client.make_request(connection_port, "GET", "/health", self.target_host.as_str());
    }

    /// The status of the complete response on the connection to `port`.
    fn status(&self, port: u32) -> (status: Option<u16>)
        ensures
            status == health_status(self@.http, port),
    {
        match self.http_client.get_connection(&port) {
            Some(connection) => {
                if connection.is_response_complete() {
                    match self.http_client.parse_http_response(connection.get_buffer()) {
                        Some((status, _)) => Some(status),
                        None => None,
                    }
                } else {
                    None
                }
            },
            None => None,
        }
    }
}

impl Client for HttpHealthCheckClient {
    open spec fn records(&self) -> bool {
        true
    }

    closed spec fn calls(&self) -> Seq<Call> {
        self.history@
    }

    /// The connection stands: the check starts at once.
    fn on_connect_success(&mut self, port: u32)
        ensures
            final(self)@ == (HealthCheckView {
                http: client_queue(
                    HttpClientView {
                        connections: old(self)@.http.connections.insert(
                            port,
                            HttpClientConnectionView::fresh(port),
                        ),
                        ..old(self)@.http
                    },
                    port,
                    health_request(old(self)@.target_host),
                ),
                retries: 0,
                ..old(self)@
            }),
    {
        proof {
            self.history@ = self.history@.push(Call::ConnectSuccess(port));
        }
        self.http_client.on_connect_success(port);
        self.start_health_check(port);
    }

    fn on_connect_failed(&mut self, port: u32)
        ensures
            final(self)@ == (HealthCheckView {
                http: HttpClientView {
                    pending_requests: old(self)@.http.pending_requests.remove(port),
                    ..old(self)@.http
                },
                ..old(self)@
            }),
    {
        proof {
            self.history@ = self.history@.push(Call::ConnectFailed(port));
        }
        self.http_client.on_connect_failed(port);
    }

    fn on_data(&mut self, port: u32, data: &[u8])
        ensures
            final(self)@ == health_on_data(old(self)@, port, data@),
    {
        proof {
            self.history@ = self.history@.push(Call::Data(port, data@));
        }
        self.http_client.on_data(port, data);
        if let Some(status) = self.status(port) {
            if status != 200 {
                if self.health_check_retries < u32::MAX {
                    self.health_check_retries = self.health_check_retries + 1;
                }
                if self.health_check_retries < self.max_retries {
                    self.http_client.reset_connection(port);
                    self.http_client.make_request(
                        port,
                        "GET",
                        "/health",
                        self.target_host.as_str(),
                    );
                }
            }
        }
    }

    fn on_reset(&mut self, port: u32)
        ensures
            final(self)@ == (HealthCheckView {
                http: client_forget(old(self)@.http, port),
                ..old(self)@
            }),
    {
        proof {
            self.history@ = self.history@.push(Call::Reset(port));
        }
        self.http_client.on_reset(port);
    }

    fn on_shutdown(&mut self, port: u32)
        ensures
            final(self)@ == (HealthCheckView {
                http: client_forget(old(self)@.http, port),
                ..old(self)@
            }),
    {
        proof {
            self.history@ = self.history@.push(Call::Shutdown(port));
        }
        self.http_client.on_shutdown(port);
    }

    /// Hands out the request that waits for `port`, one time.
    fn get_write_data(&mut self, port: u32) -> (data: Option<Vec<u8>>)
        ensures
            bytes_view(data) == if old(self)@.http.pending_requests.contains_key(port) {
                Some(old(self)@.http.pending_requests[port])
            } else {
                None
            },
            final(self)@ == (HealthCheckView {
                http: HttpClientView {
                    pending_requests: old(self)@.http.pending_requests.remove(port),
                    ..old(self)@.http
                },
                ..old(self)@
            }),
    {
        let data = self.http_client.get_write_data(port);
        proof {
            self.history@ = self.history@.push(Call::WriteData(port, bytes_view(data)));
        }
        data
    }

    /// The connection is done once the check is over.
    fn should_shutdown(&mut self, port: u32) -> (shutdown: bool)
        ensures
            shutdown == health_done(old(self)@, port),
            final(self)@ == old(self)@,
    {
        let shutdown = match self.status(port) {
            Some(status) => status == 200 || self.health_check_retries >= self.max_retries,
            None => false,
        };
        proof {
            self.history@ = self.history@.push(Call::ShouldShutdown(port, shutdown));
        }
        shutdown
    }
}

/// Helper function to create and add an HTTP health check client to the runner state
pub fn add_http_health_check_client<S: Service>(
    state: &mut RunnerState<S, HttpHealthCheckClient>,
    client_port: u32,
    max_retries: u32,
)
    ensures
        final(state)@ == (RunnerView {
            clients: old(state)@.clients.insert(client_port),
            ..old(state)@
        }),
{
    let health_check_client = HttpHealthCheckClient::new(
        client_port,
        max_retries,
        DEFAULT_TARGET_HOST.to_owned(),
    );
    state.add_client(client_port, health_check_client);
}

} // verus!
