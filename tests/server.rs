use std::collections::HashMap;
use std::io::Read;

use http_server::encoding::{accepts_gzip, gzip_text, gzip_text_response};
use http_server::request::{parse_request, request_complete, HttpRequest, Method, ParseError};
use http_server::response::Response;
use http_server::router::{
    handle_request, has_parent_segment, read_response, resolve_path, route, write_response,
    Action, StoreConfig,
};

fn config(root: &str) -> StoreConfig {
    StoreConfig { root: root.as_bytes().to_vec() }
}

fn respond(raw: &[u8], root: &str) -> Response {
    match handle_request(raw, &config(root)) {
        Some(Action::Respond(r)) => r,
        other => panic!("expected an immediate reply, got {:?}", other),
    }
}

fn header<'a>(r: &'a Response, name: &str) -> Option<&'a [u8]> {
    r.headers.iter().find(|h| h.name == name.as_bytes()).map(|h| h.value.as_slice())
}

fn gunzip(b: &[u8]) -> Vec<u8> {
    let mut out = Vec::new();
    flate2::read::GzDecoder::new(b).read_to_end(&mut out).unwrap();
    out
}

/// Serves one request against an in-memory store where every write succeeds.
fn serve(store: &mut HashMap<Vec<u8>, Vec<u8>>, raw: &[u8], root: &str) -> Vec<u8> {
    let reply = match handle_request(raw, &config(root)).expect("well-formed request") {
        Action::Respond(r) => r,
        Action::ReadFile(p) => read_response(store.get(&p).cloned()),
        Action::WriteFile(p, c) => {
            store.insert(p, c);
            write_response(true)
        }
    };
    reply.to_bytes()
}

#[test]
fn echo_plain_text() {
    let r = respond(b"GET /echo/abc HTTP/1.1\r\nHost: localhost:4221\r\n\r\n", "");
    assert_eq!(
        r.to_bytes(),
        b"HTTP/1.1 200 OK\r\nContent-Type: text/plain\r\nContent-Length: 3\r\n\r\nabc".to_vec()
    );
}

#[test]
fn echo_plain_text_longer() {
    let s = "0123456789abcdefghijklmnopqrstuvwxyz";
    let raw = format!("GET /echo/{} HTTP/1.1\r\nAccept-Encoding: deflate\r\n\r\n", s);
    let r = respond(raw.as_bytes(), "");
    assert_eq!(r.status, 200);
    assert_eq!(header(&r, "Content-Type"), Some(&b"text/plain"[..]));
    assert_eq!(header(&r, "Content-Length"), Some(&b"36"[..]));
    assert_eq!(header(&r, "Content-Encoding"), None);
    assert_eq!(r.body, s.as_bytes().to_vec());
}

#[test]
fn echo_empty_text() {
    let r = respond(b"GET /echo/ HTTP/1.1\r\n\r\n", "");
    assert_eq!(
        r.to_bytes(),
        b"HTTP/1.1 200 OK\r\nContent-Type: text/plain\r\nContent-Length: 0\r\n\r\n".to_vec()
    );
}

#[test]
fn echo_strips_only_the_prefix() {
    let r = respond(b"GET /echo/a/echo/b HTTP/1.1\r\n\r\n", "");
    assert_eq!(r.body, b"a/echo/b".to_vec());
}

#[test]
fn echo_gzip_round_trip() {
    let r = respond(b"GET /echo/abc HTTP/1.1\r\nAccept-Encoding: gzip\r\n\r\n", "");
    assert_eq!(r.status, 200);
    assert_eq!(header(&r, "Content-Type"), Some(&b"text/plain"[..]));
    assert_eq!(header(&r, "Content-Encoding"), Some(&b"gzip"[..]));
    let len = r.body.len().to_string();
    assert_eq!(header(&r, "Content-Length"), Some(len.as_bytes()));
    assert_ne!(r.body, b"abc".to_vec());
    assert_eq!(gunzip(&r.body), b"abc".to_vec());
}

#[test]
fn echo_gzip_among_other_encodings() {
    let r = respond(b"GET /echo/hello HTTP/1.1\r\nAccept-Encoding: deflate, gzip, br\r\n\r\n", "");
    assert_eq!(header(&r, "Content-Encoding"), Some(&b"gzip"[..]));
    assert_eq!(gunzip(&r.body), b"hello".to_vec());
}

#[test]
fn gzip_match_is_case_sensitive() {
    assert!(accepts_gzip(b"gzip"));
    assert!(accepts_gzip(b"x-gzip"));
    assert!(!accepts_gzip(b"GZIP"));
    assert!(!accepts_gzip(b""));
    let r = respond(b"GET /echo/abc HTTP/1.1\r\nAccept-Encoding: GZIP\r\n\r\n", "");
    assert_eq!(r.body, b"abc".to_vec());
}

#[test]
fn gzip_text_encodes_the_body() {
    let r = gzip_text(b"hello hello hello");
    assert_ne!(r.body, b"hello hello hello".to_vec());
    assert_eq!(gunzip(&r.body), b"hello hello hello".to_vec());
}

#[test]
fn gzip_text_response_headers() {
    let r = gzip_text_response(vec![1, 2, 3, 4]);
    assert_eq!(
        r.to_bytes(),
        b"HTTP/1.1 200 OK\r\nContent-Type: text/plain\r\nContent-Encoding: gzip\r\nContent-Length: 4\r\n\r\n\x01\x02\x03\x04"
            .to_vec()
    );
}

#[test]
fn root_probe() {
    let expected = b"HTTP/1.1 200 OK\r\n\r\n".to_vec();
    assert_eq!(respond(b"GET / HTTP/1.1\r\n\r\n", "").to_bytes(), expected);
    let with_headers =
        b"GET / HTTP/1.1\r\nHost: h\r\nUser-Agent: ua\r\nAccept-Encoding: gzip\r\n\r\n";
    assert_eq!(respond(with_headers, "").to_bytes(), expected);
}

#[test]
fn user_agent_echo() {
    let r = respond(b"GET /user-agent HTTP/1.1\r\nHost: localhost\r\nUser-Agent: test-agent\r\n\r\n", "");
    assert_eq!(r.status, 200);
    assert_eq!(r.body, b"test-agent".to_vec());
    assert_eq!(header(&r, "Content-Length"), Some(&b"10"[..]));
    assert_eq!(
        r.to_bytes(),
        b"HTTP/1.1 200 OK\r\nContent-Type: text/plain\r\nContent-Length: 10\r\n\r\ntest-agent".to_vec()
    );
}

#[test]
fn user_agent_absent_is_empty() {
    let r = respond(b"GET /user-agent HTTP/1.1\r\n\r\n", "");
    assert_eq!(r.status, 200);
    assert_eq!(r.body, Vec::<u8>::new());
    assert_eq!(header(&r, "Content-Length"), Some(&b"0"[..]));
}

#[test]
fn write_then_read_file() {
    let mut store = HashMap::new();
    let posted = serve(&mut store, b"POST /files/report.txt HTTP/1.1\r\nContent-Length: 5\r\n\r\nhello", "/data");
    assert_eq!(
        posted,
        b"HTTP/1.1 201 Created\r\nContent-Type: text/plain\r\nContent-Length: 0\r\n\r\n".to_vec()
    );
    assert_eq!(store.get(&b"/data/report.txt".to_vec()), Some(&b"hello".to_vec()));
    let got = serve(&mut store, b"GET /files/report.txt HTTP/1.1\r\n\r\n", "/data");
    assert_eq!(
        got,
        b"HTTP/1.1 200 OK\r\nContent-Type: application/octet-stream\r\nContent-Length: 5\r\n\r\nhello"
            .to_vec()
    );
}

#[test]
fn missing_file_is_not_found() {
    let mut store = HashMap::new();
    let got = serve(&mut store, b"GET /files/missing.txt HTTP/1.1\r\n\r\n", "/data");
    assert_eq!(got, b"HTTP/1.1 404 Not Found\r\n\r\n".to_vec());
    let r = read_response(None);
    assert_eq!(r.status, 404);
    assert!(r.body.is_empty());
}

#[test]
fn unrecognized_path_is_not_found() {
    let r = respond(b"GET /anything-unrecognized HTTP/1.1\r\n\r\n", "");
    assert_eq!(r.to_bytes(), b"HTTP/1.1 404 Not Found\r\n\r\n".to_vec());
}

#[test]
fn other_methods_are_not_found() {
    assert_eq!(respond(b"PUT /files/a HTTP/1.1\r\n\r\nx", "").status, 404);
    assert_eq!(respond(b"DELETE / HTTP/1.1\r\n\r\n", "").status, 404);
    assert_eq!(respond(b"POST /echo/abc HTTP/1.1\r\n\r\n", "").status, 404);
}

#[test]
fn file_read_and_write_actions() {
    match handle_request(b"GET /files/a.txt HTTP/1.1\r\n\r\n", &config("/srv")) {
        Some(Action::ReadFile(p)) => assert_eq!(p, b"/srv/a.txt".to_vec()),
        other => panic!("unexpected {:?}", other),
    }
    match handle_request(b"POST /files/b.bin HTTP/1.1\r\n\r\n\x00\x01", &config("/srv/")) {
        Some(Action::WriteFile(p, c)) => {
            assert_eq!(p, b"/srv/b.bin".to_vec());
            assert_eq!(c, vec![0, 1]);
        }
        other => panic!("unexpected {:?}", other),
    }
}

#[test]
fn traversal_is_refused() {
    let r = respond(b"GET /files/../etc/passwd HTTP/1.1\r\n\r\n", "/srv");
    assert_eq!(r.status, 404);
    let r = respond(b"POST /files/a/../../b HTTP/1.1\r\n\r\nx", "/srv");
    assert_eq!(r.status, 404);
}

#[test]
fn store_paths() {
    assert_eq!(resolve_path(b"/tmp", b"a.txt"), Some(b"/tmp/a.txt".to_vec()));
    assert_eq!(resolve_path(b"/tmp/", b"a.txt"), Some(b"/tmp/a.txt".to_vec()));
    assert_eq!(resolve_path(b"", b"a.txt"), Some(b"/a.txt".to_vec()));
    assert_eq!(resolve_path(b"/tmp", b"a..b"), Some(b"/tmp/a..b".to_vec()));
    assert_eq!(resolve_path(b"/tmp", b".."), None);
    assert_eq!(resolve_path(b"/tmp", b"x/.."), None);
    assert!(has_parent_segment(b"../x"));
    assert!(!has_parent_segment(b"..x/y.."));
}

#[test]
fn write_failure_is_server_error() {
    assert_eq!(
        write_response(false).to_bytes(),
        b"HTTP/1.1 500 Internal Server Error\r\nContent-Type: text/plain\r\nContent-Length: 0\r\n\r\n"
            .to_vec()
    );
}

#[test]
fn parse_reads_fields() {
    let q = parse_request(
        b"POST /files/x HTTP/1.1\r\nHost: example.org\r\nUser-Agent: curl/8.0\r\nAccept-Encoding: gzip\r\nX-Other: 1\r\n\r\nline1\r\nline2",
    )
    .unwrap();
    assert_eq!(q.method, Method::Post);
    assert_eq!(q.path, b"/files/x".to_vec());
    assert_eq!(q.host, b"example.org".to_vec());
    assert_eq!(q.user_agent, b"curl/8.0".to_vec());
    assert_eq!(q.accept_encoding, b"gzip".to_vec());
    assert_eq!(q.body, b"line1\r\nline2".to_vec());
}

#[test]
fn parse_get_has_no_body_and_absent_headers_are_empty() {
    let q = parse_request(b"GET /abc HTTP/1.1\r\n\r\nignored").unwrap();
    assert_eq!(q.method, Method::Get);
    assert!(q.body.is_empty());
    assert!(q.host.is_empty());
    assert!(q.user_agent.is_empty());
    assert!(q.accept_encoding.is_empty());
    let q = parse_request(b"GET /abc HTTP/1.1").unwrap();
    assert_eq!(q.path, b"/abc".to_vec());
}

#[test]
fn parse_ignores_headers_after_the_blank_line() {
    let q = parse_request(b"POST /files/x HTTP/1.1\r\n\r\nUser-Agent: body").unwrap();
    assert!(q.user_agent.is_empty());
    assert_eq!(q.body, b"User-Agent: body".to_vec());
}

#[test]
fn parse_takes_first_matching_header() {
    let q = parse_request(b"GET / HTTP/1.1\r\nUser-Agent: one\r\nUser-Agent: two\r\n\r\n").unwrap();
    assert_eq!(q.user_agent, b"one".to_vec());
    let q = parse_request(b"GET / HTTP/1.1\r\nuser-agent: lower\r\n\r\n").unwrap();
    assert!(q.user_agent.is_empty());
}

#[test]
fn parse_method_kinds() {
    assert_eq!(parse_request(b"GET / HTTP/1.1\r\n\r\n").unwrap().method, Method::Get);
    assert_eq!(parse_request(b"HEAD / HTTP/1.1\r\n\r\n").unwrap().method, Method::Other);
    assert_eq!(parse_request(b"get / HTTP/1.1\r\n\r\n").unwrap().method, Method::Other);
}

#[test]
fn malformed_requests() {
    assert_eq!(parse_request(b"GET /\r\n\r\n").unwrap_err(), ParseError::Malformed);
    assert_eq!(parse_request(b"").unwrap_err(), ParseError::Malformed);
    assert_eq!(parse_request(b"\r\n\r\n").unwrap_err(), ParseError::Malformed);
    assert_eq!(parse_request(b"GET / HTTP/1.1 extra\r\n\r\n").unwrap_err(), ParseError::Malformed);
    assert_eq!(parse_request(b"GET echo HTTP/1.1\r\n\r\n").unwrap_err(), ParseError::Malformed);
    assert_eq!(
        parse_request(b"POST /files/a HTTP/1.1\r\nHost: h\r\n").unwrap_err(),
        ParseError::Malformed
    );
    assert!(handle_request(b"GET /\r\n\r\n", &config("")).is_none());
}

#[test]
fn routes_a_built_request() {
    let mut q = HttpRequest::default();
    assert_eq!(q.method, Method::Get);
    assert_eq!(q.path, b"/".to_vec());
    q.path = b"/user-agent".to_vec();
    q.user_agent = b"me".to_vec();
    match route(&q, &config("")) {
        Action::Respond(r) => assert_eq!(r.body, b"me".to_vec()),
        other => panic!("unexpected {:?}", other),
    }
}

#[test]
fn not_found_and_ok_bytes() {
    assert_eq!(Response::not_found().to_bytes(), b"HTTP/1.1 404 Not Found\r\n\r\n".to_vec());
    assert_eq!(Response::ok_empty().to_bytes(), b"HTTP/1.1 200 OK\r\n\r\n".to_vec());
    let r = Response::with_content(200, b"OK", b"text/plain", vec![b'x'; 1234]);
    assert_eq!(header(&r, "Content-Length"), Some(&b"1234"[..]));
}

#[test]
fn completeness_of_received_bytes() {
    assert!(!request_complete(b""));
    assert!(!request_complete(b"GET / HTTP/1.1\r\nHost: h\r\n"));
    assert!(request_complete(b"GET / HTTP/1.1\r\nHost: h\r\n\r\n"));
    assert!(!request_complete(b"POST /files/a HTTP/1.1\r\nContent-Length: 5\r\n\r\nhel"));
    assert!(request_complete(b"POST /files/a HTTP/1.1\r\nContent-Length: 5\r\n\r\nhello"));
    assert!(request_complete(b"POST /files/a HTTP/1.1\r\nContent-Length: 12\r\n\r\nhello world!"));
    assert!(!request_complete(b"POST /files/a HTTP/1.1\r\nContent-Length: 12\r\n\r\nhello world"));
    assert!(!request_complete(
        b"POST /files/a HTTP/1.1\r\nContent-Length: 99999999999999999999999999\r\n\r\nx"
    ));
    assert!(request_complete(b"POST /files/a HTTP/1.1\r\nContent-Length: abc\r\n\r\n"));
}
