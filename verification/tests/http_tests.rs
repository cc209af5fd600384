use http_capture::http::is_http_request;
use http_capture::http::parse_http_request;

#[test]
fn recognizes_get() {
    assert!(is_http_request(b"GET / HTTP/1.1\r\n\r\n"));
}

#[test]
fn recognizes_post() {
    assert!(is_http_request(b"POST /submit HTTP/1.1\r\n\r\n"));
}

#[test]
fn recognizes_put() {
    assert!(is_http_request(b"PUT /x HTTP/1.1\r\n\r\n"));
}

#[test]
fn recognizes_delete() {
    assert!(is_http_request(b"DELETE /x HTTP/1.1\r\n\r\n"));
}

#[test]
fn rejects_short_payload() {
    assert!(!is_http_request(b"GET"));
    assert!(!is_http_request(b""));
    assert!(!is_http_request(b"G"));
}

#[test]
fn rejects_other_prefixes() {
    assert!(!is_http_request(b"HEAD / HTTP/1.1\r\n\r\n"));
    assert!(!is_http_request(b"OPTIONS / HTTP/1.1\r\n\r\n"));
    assert!(!is_http_request(b"get / HTTP/1.1\r\n\r\n"));
    assert!(!is_http_request(b"HTTP/1.1 200 OK\r\n\r\n"));
    assert!(!is_http_request(b"GETX / HTTP/1.1"));
}

#[test]
fn round_trip_extraction() {
    let payload = b"GET /a HTTP/1.1\r\nHost: x\r\nContent-Type: t\r\n\r\nBODY";
    let req = parse_http_request(payload).unwrap();
    assert_eq!(req.method, "GET");
    assert_eq!(req.path, "/a");
    assert_eq!(req.version, "HTTP/1.1");
    assert_eq!(req.host, "x");
    assert_eq!(req.content_type, "t");
    assert_eq!(req.headers.len(), 2);
    assert_eq!(req.headers[0].0, "Host");
    assert_eq!(req.headers[0].1, "x");
    assert_eq!(req.headers[1].0, "Content-Type");
    assert_eq!(req.headers[1].1, "t");
    assert_eq!(req.body, "BODY");
    assert_eq!(req.id, 0);
    assert_eq!(req.timestamp, 0);
    assert_eq!(req.src_ip, "");
    assert_eq!(req.dst_ip, "");
    assert_eq!(req.src_port, 0);
    assert_eq!(req.dst_port, 0);
}

#[test]
fn no_separator_gives_empty_body() {
    let req = parse_http_request(b"GET /a HTTP/1.1\r\nHost: x").unwrap();
    assert_eq!(req.body, "");
    assert_eq!(req.headers.len(), 1);
    assert_eq!(req.headers[0].0, "Host");
    assert_eq!(req.headers[0].1, "x");
}

#[test]
fn short_request_line_fails() {
    assert!(parse_http_request(b"GET /a\r\nHost: x\r\n\r\n").is_none());
    assert!(parse_http_request(b"GET\r\n\r\n").is_none());
    assert!(parse_http_request(b"\r\n\r\n").is_none());
}

#[test]
fn unrecognized_method_still_extracts() {
    let req = parse_http_request(b"FOO /x HTTP/1.0\r\n\r\n").unwrap();
    assert_eq!(req.method, "FOO");
    assert!(!is_http_request(b"FOO /x HTTP/1.0\r\n\r\n"));
}

#[test]
fn host_match_is_case_insensitive() {
    let req = parse_http_request(b"GET / HTTP/1.1\r\nhOsT: example.com\r\n\r\n").unwrap();
    assert_eq!(req.host, "example.com");
    assert_eq!(req.headers[0].0, "hOsT");
}

#[test]
fn last_duplicate_header_wins_for_captured_fields() {
    let req = parse_http_request(
        b"GET / HTTP/1.1\r\nHost: first\r\nHost: second\r\n\r\n",
    )
    .unwrap();
    assert_eq!(req.host, "second");
    assert_eq!(req.headers.len(), 2);
    assert_eq!(req.headers[0].1, "first");
    assert_eq!(req.headers[1].1, "second");
}

#[test]
fn line_without_separator_is_skipped() {
    let req = parse_http_request(b"GET / HTTP/1.1\r\nbogusline\r\nHost: x\r\n\r\n").unwrap();
    assert_eq!(req.headers.len(), 1);
    assert_eq!(req.host, "x");
}

#[test]
fn body_keeps_embedded_crlf() {
    let req = parse_http_request(b"POST /u HTTP/1.1\r\nHost: h\r\n\r\nline1\r\nline2\r\n").unwrap();
    assert_eq!(req.body, "line1\r\nline2\r\n");
}

#[test]
fn headers_after_blank_line_belong_to_body() {
    let req = parse_http_request(b"GET / HTTP/1.1\r\n\r\nHost: x\r\n\r\nrest").unwrap();
    assert_eq!(req.headers.len(), 0);
    assert_eq!(req.host, "");
    assert_eq!(req.body, "Host: x\r\n\r\nrest");
}

#[test]
fn invalid_utf8_is_replaced() {
    let req = parse_http_request(b"GET /\xff HTTP/1.1\r\n\r\n").unwrap();
    assert_eq!(req.path, "/\u{fffd}");
}

#[test]
fn empty_body_when_payload_ends_at_separator() {
    let req = parse_http_request(b"GET / HTTP/1.1\r\nHost: x\r\n\r\n").unwrap();
    assert_eq!(req.body, "");
}

#[test]
fn header_value_keeps_later_colons() {
    let req = parse_http_request(b"GET / HTTP/1.1\r\nHost: a: b: c\r\n\r\n").unwrap();
    assert_eq!(req.host, "a: b: c");
}
