use cmio_vsock::http_client::{
    add_http_client, make_http_request, parse_response_text, HttpClient,
};
use cmio_vsock::http_health_check_client::HttpHealthCheckClient;
use cmio_vsock::http_server::{holds_blank_line, respond, HttpServer};
use cmio_vsock::http_service::{check_request, next_response_step, RequestRefusal, ResponseStep};
use cmio_vsock::runner::{Client, RunnerState, Service};
use cmio_vsock::vsock_protocol::{
    Packet, VirtioVsockHdr, VSOCK_OP_CREDIT_UPDATE, VSOCK_OP_REQUEST, VSOCK_OP_RW,
    VSOCK_OP_SHUTDOWN,
};

const ROOT: &[u8] =
    b"HTTP/1.1 200 OK\r\nContent-Type: text/html\r\nContent-Length: 25\r\n\r\n<h1>Hello World!</h1>";
const HEALTH: &[u8] =
    b"HTTP/1.1 200 OK\r\nContent-Type: application/json\r\nContent-Length: 17\r\n\r\n{\"status\":\"ok\"}";
const NOT_FOUND: &[u8] =
    b"HTTP/1.1 404 Not Found\r\nContent-Type: text/plain\r\nContent-Length: 13\r\n\r\n404 Not Found";

fn chars(s: &str) -> Vec<char> {
    s.chars().collect()
}

fn packet(op: u16, payload: &[u8]) -> Packet {
    let hdr = VirtioVsockHdr {
        src_cid: 1,
        dst_cid: 3,
        src_port: 8080,
        dst_port: 1025,
        len: payload.len() as u32,
        type_: 1,
        op,
        flags: 0,
        buf_alloc: 0,
        fwd_cnt: 0,
    };
    Packet::new(hdr, payload.to_vec())
}

#[test]
fn test_health_check_endpoint() {
    let mut server = HttpServer::new(8080);
    let mut client = HttpClient::new(9000);
    client.make_request(8080, "GET", "/health", "localhost:8080");
    let request_data = client.get_write_data(8080).expect("Should have request data");
    println!("Request data: {:?}", String::from_utf8_lossy(&request_data));
    let response = server.handle_http_request(&request_data).expect("Should return a response");
    println!("Response: {:?}", String::from_utf8_lossy(&response));
}

#[test]
fn health_request_gets_the_health_response() {
    let mut server = HttpServer::new(8080);
    let mut client = HttpClient::new(9000);
    client.make_request(8080, "GET", "/health", "localhost:8080");
    let request_data = client.get_write_data(8080).unwrap();
    assert_eq!(
        request_data,
        b"GET /health HTTP/1.1\r\nHost: localhost:8080\r\nConnection: close\r\n\r\n"
    );
    assert_eq!(client.get_write_data(8080), None);
    assert_eq!(server.handle_http_request(&request_data).unwrap(), HEALTH);
}

#[test]
fn server_routes_by_method_and_path() {
    let mut server = HttpServer::new(8080);
    assert_eq!(server.handle_http_request(b"GET / HTTP/1.1\r\n\r\n").unwrap(), ROOT);
    assert_eq!(server.handle_http_request(b"GET /health HTTP/1.1\r\n\r\n").unwrap(), HEALTH);
    assert_eq!(server.handle_http_request(b"GET /other HTTP/1.1\r\n\r\n").unwrap(), NOT_FOUND);
    assert_eq!(server.handle_http_request(b"POST / HTTP/1.1\r\n\r\n").unwrap(), NOT_FOUND);
    assert_eq!(server.handle_http_request(b"get / HTTP/1.1\r\n\r\n").unwrap(), NOT_FOUND);
    assert_eq!(server.handle_http_request(b"GET /").unwrap(), ROOT);
    assert_eq!(server.handle_http_request(b"  GET \t /health").unwrap(), HEALTH);
    assert_eq!(server.handle_http_request(b"GET /\nHost: x").unwrap(), ROOT);
}

#[test]
fn server_needs_a_method_and_a_path_on_the_first_line() {
    let mut server = HttpServer::new(8080);
    assert_eq!(server.handle_http_request(b""), None);
    assert_eq!(server.handle_http_request(b"GET"), None);
    assert_eq!(server.handle_http_request(b"GET\n/"), None);
    assert_eq!(server.handle_http_request(b"\nGET /"), None);
    assert_eq!(server.handle_http_request(b"   \r\n"), None);
}

#[test]
fn server_splits_words_as_text_does() {
    let mut server = HttpServer::new(8080);
    // A no-break space separates words; ill-formed bytes become part of one.
    assert_eq!(server.handle_http_request("GET\u{a0}/".as_bytes()).unwrap(), ROOT);
    assert_eq!(server.handle_http_request("GET\u{3000}/health".as_bytes()).unwrap(), HEALTH);
    assert_eq!(server.handle_http_request(b"GET /\xff").unwrap(), NOT_FOUND);
    assert_eq!(server.handle_http_request(b"GET\xff /").unwrap(), NOT_FOUND);
}

#[test]
fn respond_works_on_text() {
    assert_eq!(respond(&chars("GET / HTTP/1.1")).unwrap(), ROOT);
    assert_eq!(respond(&chars("GET /health")).unwrap(), HEALTH);
    assert_eq!(respond(&chars("PUT /health")).unwrap(), NOT_FOUND);
    assert_eq!(respond(&chars("PUT")), None);
}

#[test]
fn blank_line_is_found_in_bytes() {
    assert!(holds_blank_line(b"GET / HTTP/1.1\r\n\r\n"));
    assert!(holds_blank_line(b"\r\n\r\n"));
    assert!(holds_blank_line(b"a\r\r\n\r\nb"));
    assert!(!holds_blank_line(b"GET / HTTP/1.1\r\n"));
    assert!(!holds_blank_line(b"\r\n\r"));
    assert!(!holds_blank_line(b"\n\r\n\r"));
    assert!(!holds_blank_line(b""));
}

#[test]
fn server_answers_once_the_request_is_complete() {
    let mut server = HttpServer::new(8080);
    server.on_connection(5000);
    assert_eq!(server.get_write_data(5000), None);
    server.on_data(5000, b"GET /health HT");
    assert_eq!(server.get_write_data(5000), None);
    server.on_data(5000, b"TP/1.1\r\nHost: x\r\n");
    assert_eq!(server.get_write_data(5000), None);
    server.on_data(5000, b"\r\n");
    assert_eq!(server.get_write_data(5000).unwrap(), HEALTH);
    assert_eq!(server.get_write_data(5000), None);
    assert!(!server.should_shutdown(5000));
    // One answer per connection.
    server.on_data(5000, b"GET / HTTP/1.1\r\n\r\n");
    assert_eq!(server.get_write_data(5000), None);
}

#[test]
fn server_answers_a_request_that_comes_in_one_piece() {
    let mut server = HttpServer::new(8080);
    server.on_connection(5000);
    server.on_data(5000, b"GET / HTTP/1.1\r\n\r\n");
    assert_eq!(server.get_write_data(5000).unwrap(), ROOT);
}

#[test]
fn server_drops_data_for_unknown_connections() {
    let mut server = HttpServer::new(8080);
    server.on_data(5000, b"GET / HTTP/1.1\r\n\r\n");
    assert_eq!(server.get_write_data(5000), None);
}

#[test]
fn server_forgets_a_connection_on_reset_and_shutdown() {
    let mut server = HttpServer::new(8080);
    server.on_connection(5000);
    server.on_data(5000, b"GET / HTTP/1.1\r\n\r\n");
    server.on_reset(5000);
    assert_eq!(server.get_write_data(5000), None);
    server.on_connection(5001);
    server.on_data(5001, b"GET / HTTP/1.1\r\n\r\n");
    server.on_shutdown(5001);
    assert_eq!(server.get_write_data(5001), None);
    // A new connection from the same port starts afresh.
    server.on_connection(5000);
    server.on_data(5000, b"GET /health HTTP/1.1\r\n\r\n");
    assert_eq!(server.get_write_data(5000).unwrap(), HEALTH);
}

#[test]
fn client_builds_requests() {
    let client = HttpClient::new(9000);
    assert_eq!(
        client.create_http_request("POST", "/submit", "example.org"),
        b"POST /submit HTTP/1.1\r\nHost: example.org\r\nConnection: close\r\n\r\n"
    );
    assert_eq!(
        client.create_http_request("GET", "/caf\u{e9}", "h"),
        "GET /caf\u{e9} HTTP/1.1\r\nHost: h\r\nConnection: close\r\n\r\n".as_bytes()
    );
}

#[test]
fn client_parses_status_and_body() {
    let client = HttpClient::new(9000);
    assert_eq!(
        client.parse_http_response(HEALTH),
        Some((200, "{\"status\":\"ok\"}".to_string()))
    );
    assert_eq!(
        client.parse_http_response(b"HTTP/1.1 404 Not Found\r\n\r\nnothing\r\n\r\nmore"),
        Some((404, "nothing".to_string()))
    );
    assert_eq!(client.parse_http_response(b"HTTP/1.1 +204 No\r\n"), Some((204, String::new())));
    assert_eq!(client.parse_http_response(b"HTTP/1.1 007 Bond\r\n\r\n"), Some((7, String::new())));
    assert_eq!(client.parse_http_response(b"HTTP/1.1 65535 Max"), Some((65535, String::new())));
}

#[test]
fn client_refuses_what_is_no_status_line() {
    let client = HttpClient::new(9000);
    assert_eq!(client.parse_http_response(b""), None);
    assert_eq!(client.parse_http_response(b"HTTP/1.1 200"), None);
    assert_eq!(client.parse_http_response(b"HTTP/1.1 abc OK"), None);
    assert_eq!(client.parse_http_response(b"HTTP/1.1 65536 Big"), None);
    assert_eq!(client.parse_http_response(b"HTTP/1.1 -1 Neg"), None);
    assert_eq!(client.parse_http_response(b"HTTP/1.1 + OK"), None);
    assert_eq!(client.parse_http_response(b"HTTP/1.1 20 0"), Some((20, String::new())));
    assert_eq!(client.parse_http_response(b"HTTP/1.1\n200 OK"), None);
    assert_eq!(parse_response_text(&chars("HTTP/1.1 99999999999 X")), None);
    assert_eq!(parse_response_text(&chars("HTTP/1.1 200 OK\r\n\r\nbody")), Some((200, 19, 23)));
    assert_eq!(parse_response_text(&chars("HTTP/1.1 200 OK")), Some((200, 0, 0)));
}

#[test]
fn client_keeps_a_response_until_it_is_complete() {
    let mut client = HttpClient::new(9000);
    client.on_connect_success(8080);
    assert!(!client.should_shutdown(8080));
    client.on_data(8080, b"HTTP/1.1 200 OK\r\n");
    assert!(!client.should_shutdown(8080));
    assert!(!client.get_connection(&8080).unwrap().is_response_complete());
    client.on_data(8080, b"\r\nbody");
    assert!(client.should_shutdown(8080));
    let connection = client.get_connection(&8080).unwrap();
    assert!(connection.is_response_complete());
    assert_eq!(connection.get_buffer(), b"HTTP/1.1 200 OK\r\n\r\nbody");
}

#[test]
fn client_connections_can_be_changed_in_place() {
    let mut client = HttpClient::new(9000);
    assert!(client.get_mut_connection(&8080).is_none());
    client.on_connect_success(8080);
    client.on_data(8080, b"partial");
    let connection = client.get_mut_connection(&8080).unwrap();
    connection.set_response_complete(true);
    connection.clear_buffer();
    assert!(client.should_shutdown(8080));
    assert!(client.get_connection(&8080).unwrap().get_buffer().is_empty());
    client.reset_connection(8080);
    assert!(!client.should_shutdown(8080));
}

#[test]
fn client_forgets_on_reset_shutdown_and_failure() {
    let mut client = HttpClient::new(9000);
    client.make_request(8080, "GET", "/", "h");
    client.on_connect_failed(8080);
    assert_eq!(client.get_write_data(8080), None);
    client.on_connect_success(8080);
    client.make_request(8080, "GET", "/", "h");
    client.on_reset(8080);
    assert!(client.get_connection(&8080).is_none());
    assert_eq!(client.get_write_data(8080), None);
    client.on_connect_success(8081);
    client.on_shutdown(8081);
    assert!(client.get_connection(&8081).is_none());
    // Data for a connection that is gone is dropped.
    client.on_data(8081, b"HTTP/1.1 200 OK\r\n\r\n");
    assert!(!client.should_shutdown(8081));
}

#[test]
fn helpers_register_and_initiate() {
    let mut state: RunnerState<HttpServer, HttpClient> = RunnerState::new();
    add_http_client(&mut state, 9000);
    assert!(state.get_client(9000).is_some());
    make_http_request(&mut state, 9000, 1, 8080, "GET", "/", "localhost").unwrap();
    let request = state.pop_from_write_queue().unwrap();
    assert_eq!(request.hdr().op, VSOCK_OP_REQUEST);
    assert_eq!((request.hdr().src_port, request.hdr().dst_port), (9000, 8080));
}

#[test]
fn health_check_is_done_on_200() {
    let mut check = HttpHealthCheckClient::new(9000, 3, "guest:8080".to_string());
    check.on_connect_success(8080);
    assert_eq!(
        check.get_write_data(8080).unwrap(),
        b"GET /health HTTP/1.1\r\nHost: guest:8080\r\nConnection: close\r\n\r\n"
    );
    assert_eq!(check.get_write_data(8080), None);
    assert!(!check.should_shutdown(8080));
    check.on_data(8080, HEALTH);
    assert!(check.should_shutdown(8080));
    assert_eq!(check.get_write_data(8080), None);
}

#[test]
fn health_check_retries_until_the_budget_is_spent() {
    let mut check = HttpHealthCheckClient::new(9000, 3, "guest:8080".to_string());
    check.on_connect_success(8080);
    assert!(check.get_write_data(8080).is_some());
    // First and second failure: the request goes out again.
    for _ in 0..2 {
        check.on_data(8080, b"HTTP/1.1 503 Service Unavailable\r\n\r\n");
        assert!(!check.should_shutdown(8080));
        assert_eq!(
            check.get_write_data(8080).unwrap(),
            b"GET /health HTTP/1.1\r\nHost: guest:8080\r\nConnection: close\r\n\r\n"
        );
    }
    // Third failure: the check gives up.
    check.on_data(8080, b"HTTP/1.1 503 Service Unavailable\r\n\r\n");
    assert!(check.should_shutdown(8080));
    assert_eq!(check.get_write_data(8080), None);
}

#[test]
fn health_check_recovers_after_a_failure() {
    let mut check = HttpHealthCheckClient::new(9000, 5, "guest:8080".to_string());
    check.on_connect_success(8080);
    check.get_write_data(8080);
    check.on_data(8080, b"HTTP/1.1 500 Oops\r\n\r\n");
    assert!(!check.should_shutdown(8080));
    // The buffer was emptied: the next response is read on its own.
    check.on_data(8080, HEALTH);
    assert!(check.should_shutdown(8080));
}

#[test]
fn health_check_waits_for_a_readable_status() {
    let mut check = HttpHealthCheckClient::new(9000, 1, "h".to_string());
    check.on_connect_success(8080);
    check.on_data(8080, b"garbage\r\n\r\n");
    assert!(!check.should_shutdown(8080));
    check.on_reset(8080);
    assert!(!check.should_shutdown(8080));
    check.on_connect_failed(8080);
    check.on_shutdown(8080);
    check.start_health_check(8081);
    assert!(check.get_write_data(8081).is_some());
}

#[test]
fn requests_are_checked_before_they_are_sent() {
    assert_eq!(check_request("GET / HTTP/1.1\r\n\r\n"), Ok(()));
    assert_eq!(check_request("POST /x HTTP/1.1\r\n\r\nbody"), Ok(()));
    assert_eq!(check_request("  GET"), Ok(()));
    assert_eq!(check_request(""), Err(RequestRefusal::EmptyRequest));
    assert_eq!(check_request("\nGET /"), Err(RequestRefusal::MalformedRequest));
    assert_eq!(check_request("   \r\nGET /"), Err(RequestRefusal::MalformedRequest));
    assert_eq!(check_request("PUT / HTTP/1.1"), Err(RequestRefusal::UnsupportedMethod));
    assert_eq!(check_request("get /"), Err(RequestRefusal::UnsupportedMethod));
}

#[test]
fn the_exchange_waits_for_data() {
    assert!(matches!(next_response_step(None), ResponseStep::Wait));
    assert!(matches!(next_response_step(Some(packet(VSOCK_OP_RW, b""))), ResponseStep::Wait));
    assert!(matches!(
        next_response_step(Some(packet(VSOCK_OP_SHUTDOWN, b""))),
        ResponseStep::Shutdown
    ));
    assert!(matches!(
        next_response_step(Some(packet(VSOCK_OP_CREDIT_UPDATE, b"x"))),
        ResponseStep::Again
    ));
    match next_response_step(Some(packet(VSOCK_OP_RW, b"HTTP/1.1 200 OK"))) {
        ResponseStep::Done(bytes) => assert_eq!(bytes, b"HTTP/1.1 200 OK"),
        _ => panic!("a packet with data is the response"),
    }
}
