use weibo_pc::http::{
    build_relay_request, build_request_head, connect_target, encode_body, extract_path, pad_right,
    parse_http_headers, parse_http_request, plan_http_proxy, ProxyError, StrMap,
};
use weibo_pc::proxy::{parse_response, CapturedLog, ProxyServer};

#[test]
fn test_parse_http_headers() {
    let raw = b"GET / HTTP/1.1\r\nHost: example.com\r\nContent-Type: text/html\r\n\r\nbody";
    let (headers, body_start) = parse_http_headers(raw).unwrap();
    assert_eq!(headers.get("Host").unwrap(), "example.com");
    assert_eq!(headers.get("Content-Type").unwrap(), "text/html");
    assert!(body_start > 0);
}

#[test]
fn test_extract_path() {
    assert_eq!(extract_path("/api/test"), "/api/test");
    assert_eq!(extract_path("https://example.com/path?q=1"), "/path?q=1");
}

#[test]
fn test_encode_body() {
    let (b64, text) = encode_body(&Some(b"hello".to_vec()));
    assert_eq!(text.unwrap(), "hello");
    assert!(b64.is_some());
}

#[test]
fn test_encode_body_empty() {
    let (b64, text) = encode_body(&None);
    assert!(b64.is_none());
    assert!(text.is_none());
}

#[test]
fn test_parse_http_request() {
    let raw = b"POST /api/login HTTP/1.1\r\nHost: example.com\r\nContent-Length: 9\r\n\r\nuser=test";
    let (method, url, headers, body) = parse_http_request(raw).unwrap();
    assert_eq!(method, "POST");
    assert_eq!(url, "/api/login");
    assert_eq!(headers.get("Host").unwrap(), "example.com");
    assert_eq!(body.unwrap(), b"user=test");
}

#[test]
fn header_block_ends_at_crlf_crlf() {
    let raw = b"GET / HTTP/1.1\r\nA: 1\r\n\r\nxyz";
    let (headers, start) = parse_http_headers(raw).unwrap();
    assert_eq!(start, 24);
    assert_eq!(headers.len(), 1);
    assert_eq!(headers.get("A").unwrap(), "1");
}

#[test]
fn header_block_ends_at_lf_lf() {
    let raw = b"GET / HTTP/1.1\nKey :  spaced value \n\nrest";
    let (headers, start) = parse_http_headers(raw).unwrap();
    assert_eq!(headers.get("Key").unwrap(), "spaced value");
    assert_eq!(start, raw.len() - 4);
}

#[test]
fn header_without_colon_is_skipped_and_later_value_wins() {
    let raw = b"GET / HTTP/1.1\r\nnocolon\r\nX: a\r\nX: b\r\nY: c:d\r\n\r\n";
    let (headers, _) = parse_http_headers(raw).unwrap();
    assert_eq!(headers.len(), 2);
    assert_eq!(headers.get("X").unwrap(), "b");
    assert_eq!(headers.get("Y").unwrap(), "c:d");
    assert!(headers.get("nocolon").is_none());
}

#[test]
fn missing_terminator_is_an_error() {
    let r = parse_http_headers(b"GET / HTTP/1.1\r\nHost: x\r\n");
    match r {
        Err(e) => assert_eq!(e.message(), "no header terminator found"),
        Ok(_) => panic!("expected an error"),
    }
}

#[test]
fn request_without_body_has_none() {
    let raw = b"GET /x HTTP/1.1\r\nHost: h\r\n\r\n";
    let (method, url, _, body) = parse_http_request(raw).unwrap();
    assert_eq!(method, "GET");
    assert_eq!(url, "/x");
    assert!(body.is_none());
}

#[test]
fn request_line_errors() {
    match parse_http_request(b"") {
        Err(ProxyError::EmptyRequest) => {}
        other => panic!("unexpected {:?}", other.is_ok()),
    }
    match parse_http_request(b"GARBAGE\r\n\r\n") {
        Err(e) => assert_eq!(e.message(), "invalid request: GARBAGE"),
        Ok(_) => panic!("expected an error"),
    }
}

#[test]
fn extract_path_keeps_unparsable_and_relative_targets() {
    assert_eq!(extract_path("http//broken"), "http//broken");
    assert_eq!(extract_path("*"), "*");
    assert_eq!(extract_path("http://example.com"), "/");
}

#[test]
fn encode_body_of_empty_and_binary_data() {
    let (b64, text) = encode_body(&Some(Vec::new()));
    assert!(b64.is_none());
    assert!(text.is_none());
    let (b64, text) = encode_body(&Some(vec![0xff, 0xfe]));
    assert_eq!(b64.unwrap(), "//4=");
    assert!(text.is_none());
    let (b64, _) = encode_body(&Some(b"hello".to_vec()));
    assert_eq!(b64.unwrap(), "aGVsbG8=");
}

#[test]
fn pad_right_pads_to_width_in_bytes() {
    assert_eq!(pad_right("ab", 5), "ab   ");
    assert_eq!(pad_right("abcdef", 3), "abcdef");
    assert_eq!(pad_right("中", 5), "中  ");
}

#[test]
fn connect_targets() {
    let r = connect_target(b"CONNECT login.sina.com.cn:443 HTTP/1.1\r\n\r\n").unwrap();
    assert_eq!(r, Some(("login.sina.com.cn".to_string(), 443)));
    let r = connect_target(b"CONNECT example.com:8443 HTTP/1.1\r\n").unwrap();
    assert_eq!(r, Some(("example.com".to_string(), 8443)));
    let r = connect_target(b"CONNECT example.com:abc HTTP/1.1\r\n").unwrap();
    assert_eq!(r, Some(("example.com".to_string(), 443)));
    let r = connect_target(b"CONNECT example.com HTTP/1.1\r\n").unwrap();
    assert_eq!(r, Some(("example.com".to_string(), 443)));
    assert_eq!(connect_target(b"GET / HTTP/1.1\r\n\r\n").unwrap(), None);
    match connect_target(b"CONNECT\r\n") {
        Err(e) => assert_eq!(e.message(), "invalid CONNECT request: CONNECT"),
        Ok(_) => panic!("expected an error"),
    }
}

#[test]
fn plan_of_a_plain_proxy_request() {
    let raw = b"POST http://example.com:8080/a/b?x=1 HTTP/1.1\r\nHost: example.com\r\n\r\nbody";
    let plan = plan_http_proxy(raw).unwrap();
    assert_eq!(plan.method, "POST");
    assert_eq!(plan.full_url, "http://example.com:8080/a/b?x=1");
    assert_eq!(plan.host, "example.com");
    assert_eq!(plan.port, 8080);
    assert_eq!(plan.body.unwrap(), b"body".to_vec());
    assert_eq!(plan.forward_head, "POST /a/b?x=1 HTTP/1.1\r\nHost: example.com\r\n\r\n");
    let plan = plan_http_proxy(b"GET http://example.com/ HTTP/1.1\r\n\r\n").unwrap();
    assert_eq!(plan.port, 80);
    assert!(plan.body.is_none());
}

#[test]
fn plan_errors() {
    match plan_http_proxy(b"GET /relative HTTP/1.1\r\n\r\n") {
        Err(e) => assert_eq!(e.message(), "invalid URL: /relative"),
        Ok(_) => panic!("expected an error"),
    }
    match plan_http_proxy(b"ONLYONE\r\n\r\n") {
        Err(e) => assert_eq!(e.message(), "invalid request line: ONLYONE"),
        Ok(_) => panic!("expected an error"),
    }
    match plan_http_proxy(b"GET http://example.com/ HTTP/1.1\r\nHost: x\r\n") {
        Err(e) => assert_eq!(e.message(), "no header terminator found"),
        Ok(_) => panic!("expected an error"),
    }
    match plan_http_proxy(b"GET mailto:someone HTTP/1.1\r\n\r\n") {
        Err(e) => assert_eq!(e.message(), "no host in URL"),
        Ok(_) => panic!("expected an error"),
    }
    match plan_http_proxy(b"") {
        Err(e) => assert_eq!(e.message(), "empty request"),
        Ok(_) => panic!("expected an error"),
    }
}

#[test]
fn request_head_lists_headers_in_order() {
    let mut h = StrMap::new();
    h.insert("A".to_string(), "1".to_string());
    h.insert("B".to_string(), "2".to_string());
    assert_eq!(build_request_head("GET", "/p", &h), "GET /p HTTP/1.1\r\nA: 1\r\nB: 2\r\n\r\n");
}

#[test]
fn relay_request_rewrites_host_and_drops_proxy_headers() {
    let mut h = StrMap::new();
    h.insert("HOST".to_string(), "other".to_string());
    h.insert("Accept-Encoding".to_string(), "gzip".to_string());
    h.insert("proxy-connection".to_string(), "keep-alive".to_string());
    h.insert("X-Y".to_string(), "z".to_string());
    let r = build_relay_request("GET", "https://weibo.com/ajax?a=b", &h, "weibo.com");
    assert_eq!(
        r,
        "GET /ajax?a=b HTTP/1.1\r\nHost: weibo.com\r\nX-Y: z\r\nAccept-Encoding: identity\r\n\r\n"
    );
}

#[test]
fn response_is_recorded_with_request() {
    let mut req = StrMap::new();
    req.insert("Host".to_string(), "weibo.com".to_string());
    let resp = b"HTTP/1.1 200 OK\r\nContent-Type: text/plain\r\n\r\nhi";
    let ex = parse_response(
        "GET",
        "/x",
        "weibo.com",
        &req,
        &None,
        resp,
        "2024-01-01T00:00:00Z".to_string(),
    )
    .unwrap();
    assert_eq!(ex.response_status, 200);
    assert_eq!(ex.response_reason, "OK");
    assert_eq!(ex.response_headers.get("Content-Type").unwrap(), "text/plain");
    assert_eq!(ex.response_body_text.unwrap(), "hi");
    assert_eq!(ex.response_body_base64.unwrap(), "aGk=");
    assert!(ex.request_body_base64.is_none());
    assert_eq!(ex.request_headers.get("Host").unwrap(), "weibo.com");
    assert_eq!(ex.timestamp, "2024-01-01T00:00:00Z");
    assert_eq!(ex.host, "weibo.com");
}

#[test]
fn response_without_status_or_terminator_is_not_recorded() {
    let req = StrMap::new();
    assert!(parse_response("GET", "/", "h", &req, &None, b"HTTP/1.1 abc OK\r\n\r\n", String::new()).is_none());
    assert!(parse_response("GET", "/", "h", &req, &None, b"HTTP/1.1 204\r\nA: b\r\n", String::new()).is_none());
    let ex = parse_response("GET", "/", "h", &req, &None, b"HTTP/1.1 204\r\n\r\n", String::new()).unwrap();
    assert_eq!(ex.response_status, 204);
    assert_eq!(ex.response_reason, "");
    assert!(ex.response_body_text.is_none());
}

#[test]
fn proxy_server_counts_captures() {
    let mut p = ProxyServer::new();
    assert_eq!(p.capture_count(), 0);
    let req = StrMap::new();
    let ex = parse_response("GET", "/", "h", &req, &None, b"HTTP/1.1 200 OK\r\n\r\n", String::new()).unwrap();
    assert_eq!(p.record(ex), 1);
    assert_eq!(p.capture_count(), 1);
    let log = CapturedLog::new(Vec::new());
    assert_eq!(log.total_exchanges, 0);
}

#[test]
fn str_map_laws_on_values() {
    let mut m = StrMap::new();
    m.insert("SUB".to_string(), "a".to_string());
    m.insert("SUBP".to_string(), "b".to_string());
    m.insert("SUB".to_string(), "c".to_string());
    assert_eq!(m.get("SUB").unwrap(), "c");
    assert_eq!(m.get("SUBP").unwrap(), "b");
    assert_eq!(m.len(), 2);
    m.insert_if_absent("SUB".to_string(), "d".to_string());
    assert_eq!(m.get("SUB").unwrap(), "c");
    m.insert_if_absent("X".to_string(), "y".to_string());
    assert_eq!(m.get("X").unwrap(), "y");
    m.remove("SUB");
    assert!(m.get("SUB").is_none());
    assert_eq!(m.get("SUBP").unwrap(), "b");
    assert_eq!(m.key_at(0), "SUBP");
    let d = m.duplicate();
    assert_eq!(d.len(), m.len());
}

#[test]
fn request_parser_reads_the_header_parsers_block() {
    let raw = b"PUT /u HTTP/1.1\nA: 1\nB: 2\n\nrest";
    let (headers, start) = parse_http_headers(raw).unwrap();
    let (_, _, req_headers, body) = parse_http_request(raw).unwrap();
    assert_eq!(req_headers.len(), headers.len());
    assert_eq!(req_headers.get("A"), headers.get("A"));
    assert_eq!(req_headers.get("B"), headers.get("B"));
    assert_eq!(body.unwrap(), raw[start..].to_vec());
}

#[test]
fn reason_is_the_rest_of_the_status_line() {
    let req = StrMap::new();
    let resp = b"HTTP/1.1 404 Not Found\r\nServer: s\r\n\r\n";
    let e = parse_response("GET", "/x", "h", &req, &None, resp, String::new()).unwrap();
    assert_eq!(e.response_status, 404);
    assert_eq!(e.response_reason, "Not Found");
    assert_eq!(e.response_headers.get("Server").unwrap(), "s");
    assert!(e.response_body_base64.is_none());
    assert!(e.response_body_text.is_none());
    assert!(e.request_body_base64.is_none());
    assert_eq!((e.method.as_str(), e.url.as_str(), e.host.as_str()), ("GET", "/x", "h"));
    let e = parse_response("GET", "/", "h", &req, &None, b"HTTP/1.1 500   Internal  Error  \n\n", String::new()).unwrap();
    assert_eq!(e.response_reason, "Internal  Error");
}

#[test]
fn records_only_append() {
    let mut p = ProxyServer::new();
    let req = StrMap::new();
    let a = parse_response("GET", "/a", "h", &req, &None, b"HTTP/1.1 200 OK\r\n\r\n", String::new()).unwrap();
    let b = parse_response("POST", "/b", "h", &req, &None, b"HTTP/1.1 201 Created\r\n\r\n", String::new()).unwrap();
    assert_eq!(p.record(a), 1);
    let before = p.capture_count();
    assert_eq!(p.record(b), 2);
    assert!(p.capture_count() >= before);
    let ex = p.exchanges();
    assert_eq!(ex[0].url, "/a");
    assert_eq!(ex[1].url, "/b");
    assert_eq!(ex[1].response_reason, "Created");
}

#[test]
fn valid_utf8_bytes_are_read_as_text() {
    let (h, start) = parse_http_headers("GET / HTTP/1.1\r\nX-Name: 微博\r\n\r\n".as_bytes()).unwrap();
    assert_eq!(h.get("X-Name").unwrap(), "微博");
    assert_eq!(start, "GET / HTTP/1.1\r\nX-Name: 微博\r\n\r\n".len());
}

#[test]
fn body_base64_follows_rfc4648() {
    assert_eq!(encode_body(&Some(b"Man".to_vec())).0.unwrap(), "TWFu");
    assert_eq!(encode_body(&Some(b"Ma".to_vec())).0.unwrap(), "TWE=");
    assert_eq!(encode_body(&Some(b"M".to_vec())).0.unwrap(), "TQ==");
    assert_eq!(encode_body(&Some(vec![0xfbu8, 0xff])).0.unwrap(), "+/8=");
}

#[test]
fn snapshot_keeps_count_order_and_captures() {
    let mut p = ProxyServer::new();
    let req = StrMap::new();
    for (i, path) in ["/1", "/2", "/3"].iter().enumerate() {
        let ex = parse_response("GET", path, "h", &req, &None, b"HTTP/1.1 200 OK\r\n\r\nx", String::new()).unwrap();
        assert_eq!(p.record(ex), i + 1);
    }
    let log = p.snapshot();
    assert_eq!(log.total_exchanges, 3);
    let urls: Vec<&str> = log.exchanges.iter().map(|e| e.url.as_str()).collect();
    assert_eq!(urls, vec!["/1", "/2", "/3"]);
    assert_eq!(log.exchanges[2].response_body_text.as_deref(), Some("x"));
    assert_eq!(p.capture_count(), 3);
}
