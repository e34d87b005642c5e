use spiderbutter::http::{ParseError, Request, Response};

#[test]
fn parse_reads_the_request_line_and_headers() {
    let req = Request::parse(
        "GET /index.html HTTP/1.1\r\nHost: example.com:8080\r\nAccept-Encoding: gzip, deflate\r\n\r\nbody",
    )
    .unwrap();
    assert_eq!(req.uri(), "/index.html");
    assert_eq!(req.get("Host"), Some("example.com:8080"));
    assert_eq!(req.get("Accept-Encoding"), Some("gzip, deflate"));
    assert_eq!(req.get("host"), None);
    assert_eq!(req.get("body"), None);
}

#[test]
fn parse_accepts_http_1_0_and_extra_words() {
    let req = Request::parse("GET  /a\tHTTP/1.0 trailing words\r\n").unwrap();
    assert_eq!(req.uri(), "/a");
    assert_eq!(req.get("anything"), None);
}

#[test]
fn parse_keeps_the_later_of_two_headers_with_one_key() {
    let req = Request::parse("GET / HTTP/1.1\r\nX: 1\r\nno colon here\r\nX:  2 \r\n").unwrap();
    assert_eq!(req.get("X"), Some("2"));
}

#[test]
fn parse_stops_at_the_first_blank_line() {
    let req = Request::parse("GET / HTTP/1.1\r\nA: b\r\n\r\nC: d\r\n").unwrap();
    assert_eq!(req.get("A"), Some("b"));
    assert_eq!(req.get("C"), None);
}

#[test]
fn parse_refuses_other_methods() {
    assert_eq!(Request::parse("POST / HTTP/1.1\r\n\r\n").unwrap_err(), ParseError::UnsupportedMethod);
    assert_eq!(Request::parse("").unwrap_err(), ParseError::UnsupportedMethod);
    assert_eq!(Request::parse("get / HTTP/1.1\r\n").unwrap_err(), ParseError::UnsupportedMethod);
}

#[test]
fn parse_refuses_other_versions() {
    assert_eq!(Request::parse("GET / HTTP/2.0\r\n\r\n").unwrap_err(), ParseError::InvalidVersion);
    assert_eq!(Request::parse("GET /\r\n\r\n").unwrap_err(), ParseError::InvalidVersion);
    assert_eq!(Request::parse("GET\r\n\r\n").unwrap_err(), ParseError::InvalidVersion);
}

#[test]
fn parse_errors_read_as_they_are_named() {
    assert_eq!(ParseError::UnsupportedMethod.message(), "Non-GET requests not supported");
    assert_eq!(ParseError::InvalidVersion.message(), "Invalid HTTP version");
}

#[test]
fn parse_handles_text_beyond_ascii() {
    let req = Request::parse("GET /caf\u{e9} HTTP/1.1\r\nX-Name:\u{a0}Zo\u{eb}\u{2003}\r\n\r\n").unwrap();
    assert_eq!(req.uri(), "/caf\u{e9}");
    assert_eq!(req.get("X-Name"), Some("Zo\u{eb}"));
}

#[test]
fn response_head_is_status_fields_and_a_blank_line() {
    let mut res = Response::new("HTTP/1.1 200 OK");
    assert_eq!(res.into_bytes(), b"HTTP/1.1 200 OK\r\n\r\n".to_vec());
    res.set("Content-Encoding", "gzip");
    res.set("Content-Type", "text/html");
    assert_eq!(
        res.into_bytes(),
        b"HTTP/1.1 200 OK\r\nContent-Encoding: gzip\r\nContent-Type: text/html\r\n\r\n".to_vec()
    );
}

#[test]
fn response_set_replaces_an_earlier_value_in_place() {
    let mut res = Response::new("HTTP/1.1 301 Moved Permanently");
    res.set("Location", "https://a/");
    res.set("X", "y");
    res.set("Location", "https://b/");
    assert_eq!(
        res.into_bytes(),
        b"HTTP/1.1 301 Moved Permanently\r\nLocation: https://b/\r\nX: y\r\n\r\n".to_vec()
    );
}
