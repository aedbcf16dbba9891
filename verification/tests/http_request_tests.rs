use velocity_engine::capture_bridge::HttpRequest;
use velocity_engine::http_request::{
    allowed_extension_origin, capture_url_allowed, extract_content_length, has_complete_http_request, parse_extension_origin,
    parse_http, route_request, BridgeRoute,
};

#[test]
fn parses_a_request_head_and_body() {
    let raw = b"POST /capture?x=1 HTTP/1.1\r\nHost: 127.0.0.1\r\nX-VDM-Client:  abc \r\nContent-Length: 2\r\n\r\n{}";
    let req = parse_http(raw).unwrap();
    assert_eq!(req.method, "POST");
    assert_eq!(req.path, "/capture");
    assert_eq!(
        req.headers,
        vec![
            ("host".to_string(), "127.0.0.1".to_string()),
            ("x-vdm-client".to_string(), "abc".to_string()),
            ("content-length".to_string(), "2".to_string()),
        ]
    );
    assert_eq!(req.body, b"{}".to_vec());
}

#[test]
fn malformed_heads_are_refused() {
    assert!(parse_http(b"GET / HTTP/1.1\r\nHost: x\r\n").is_none());
    assert!(parse_http(b"GET\r\n\r\n").is_none());
    assert!(parse_http(b"GET / HTTP/1.1\r\nbroken line\r\n\r\n").is_none());
}

#[test]
fn completeness_follows_the_announced_length() {
    assert!(!has_complete_http_request(b"POST / HTTP/1.1\r\ncontent-length: 4\r\n\r\nab"));
    assert!(has_complete_http_request(b"POST / HTTP/1.1\r\nCONTENT-LENGTH: 4\r\n\r\nabcd"));
    assert!(has_complete_http_request(b"GET / HTTP/1.1\r\n\r\n"));
    assert_eq!(extract_content_length("a: b\r\nContent-Length:  12 \r\n"), Some(12));
    assert_eq!(extract_content_length("content-length: lots\r\ncontent-length: 3\r\n"), None);
}

#[test]
fn extension_origins() {
    assert_eq!(
        parse_extension_origin(" chrome-extension://abcd/popup.html "),
        Some(("chrome-extension://abcd".to_string(), "abcd".to_string()))
    );
    assert_eq!(parse_extension_origin("https://abcd"), None);
    assert_eq!(parse_extension_origin("chrome-extension:///x"), None);
    let req = HttpRequest {
        method: "GET".to_string(),
        path: "/pair".to_string(),
        headers: vec![
            ("x-vdm-client".to_string(), "abcd".to_string()),
            ("origin".to_string(), "chrome-extension://other".to_string()),
            ("referer".to_string(), "chrome-extension://abcd/page".to_string()),
        ],
        body: Vec::new(),
    };
    assert_eq!(allowed_extension_origin(&req), Some("chrome-extension://abcd".to_string()));
    assert_eq!(route_request(&req), BridgeRoute::Pair);
}

#[test]
fn routes_and_capture_urls() {
    let req = |m: &str, p: &str| HttpRequest { method: m.to_string(), path: p.to_string(), headers: Vec::new(), body: Vec::new() };
    assert_eq!(route_request(&req("OPTIONS", "/anything")), BridgeRoute::Preflight);
    assert_eq!(route_request(&req("POST", "/capture")), BridgeRoute::Capture);
    assert_eq!(route_request(&req("post", "/capture")), BridgeRoute::NotFound);
    assert!(capture_url_allowed("https://x.example/a"));
    assert!(!capture_url_allowed("ftp://x.example/a"));
}
