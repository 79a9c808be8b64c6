use openbrowser::network::{sendable_headers, wire_method_name, HttpError, Method, Request, Response, TransportFailure};
use std::time::Duration;

#[test]
fn request_fluent_api() {
    let req = Request::post("https://example.test/api")
        .header("X-Trace", "abc")
        .text("hello")
        .timeout(Duration::from_secs(5));
    assert_eq!(req.method, Method::Post);
    assert_eq!(req.body.as_deref(), Some(b"hello".as_ref()));
    assert_eq!(req.content_type.as_deref(), Some("text/plain; charset=utf-8"));
    assert_eq!(req.timeout, Some(Duration::from_secs(5)));
    assert_eq!(req.headers, vec![("X-Trace".to_string(), "abc".to_string())]);
}

#[test]
fn method_from_str() {
    assert_eq!(Method::from("get"), Method::Get);
    assert_eq!(Method::from("POST"), Method::Post);
    assert_eq!(Method::from("weird"), Method::Other("WEIRD".to_string()));
}

#[test]
fn response_helpers() {
    let resp = Response {
        status: 200,
        url: "http://x".into(),
        headers: vec![("Content-Type".into(), "text/plain".into())],
        body: b"hi".to_vec(),
    };
    assert!(resp.is_success());
    assert_eq!(resp.text().unwrap(), "hi");
    assert_eq!(resp.header("content-type"), Some("text/plain"));
}

#[test]
fn response_text_rejects_invalid_utf8() {
    let resp = Response { status: 500, url: "http://x".into(), headers: vec![], body: vec![0xff, 0xfe] };
    assert!(!resp.is_success());
    match resp.text() {
        Err(HttpError::BodyReadError(m)) => assert!(m.starts_with("response body is not valid UTF-8: ")),
        other => panic!("unexpected {:?}", other),
    }
}

#[test]
fn response_text_decodes_multibyte() {
    let resp = Response { status: 204, url: "u".into(), headers: vec![], body: "héllo ✓".as_bytes().to_vec() };
    assert_eq!(resp.text().unwrap(), "héllo ✓");
    assert_eq!(resp.bytes(), "héllo ✓".as_bytes().to_vec());
    assert_eq!(resp.status(), 204);
}

#[test]
fn response_header_first_match_ignores_case() {
    let resp = Response {
        status: 200,
        url: "u".into(),
        headers: vec![("X-A".into(), "1".into()), ("x-a".into(), "2".into())],
        body: vec![],
    };
    assert_eq!(resp.header("x-A"), Some("1"));
    assert_eq!(resp.header("missing"), None);
}

#[test]
fn method_names_round_trip() {
    for (name, m) in [("GET", Method::Get), ("PUT", Method::Put), ("DELETE", Method::Delete), ("HEAD", Method::Head), ("PATCH", Method::Patch), ("OPTIONS", Method::Options)] {
        assert_eq!(m.as_str(), name);
        assert_eq!(Method::from(name.to_lowercase().as_str()), m);
    }
    assert_eq!(Method::Other("BREW".into()).as_str(), "BREW");
}

#[test]
fn request_builders() {
    let req = Request::get("http://a").user_agent("bot/1").text("x");
    assert_eq!(req.method, Method::Get);
    assert_eq!(req.url, "http://a");
    assert_eq!(req.user_agent_override.as_deref(), Some("bot/1"));
    assert!(req.headers.is_empty());
}

#[test]
fn http_error_messages() {
    assert_eq!(HttpError::DnsFailed("h".into()).message(), "DNS resolution failed for h");
    assert_eq!(HttpError::Cancelled.message(), "Request was cancelled");
    assert_eq!(HttpError::Other("x".into()).message(), "Other transport error: x");
    assert_eq!(HttpError::Timeout(Duration::from_secs(30)).message(), "Request timed out after 30s");
}

#[test]
fn http_error_from_transport() {
    assert!(matches!(HttpError::from_transport(TransportFailure::Timeout, "u", "d"), HttpError::Timeout(t) if t == Duration::from_secs(30)));
    assert!(matches!(HttpError::from_transport(TransportFailure::Connect, "http://h", "d"), HttpError::ConnectionRefused(u) if u == "http://h"));
    assert!(matches!(HttpError::from_transport(TransportFailure::Decode, "u", "bad"), HttpError::BodyReadError(d) if d == "bad"));
    assert!(matches!(HttpError::from_transport(TransportFailure::Redirect, "u", "loop"), HttpError::Other(d) if d == "redirect error: loop"));
    assert!(matches!(HttpError::from_transport(TransportFailure::Other, "u", "z"), HttpError::Other(d) if d == "z"));
}

#[test]
fn sendable_headers_and_wire_method() {
    let headers = vec![
        ("X-Ok".to_string(), "fine".to_string()),
        ("bad name".to_string(), "v".to_string()),
        ("X-Ctl".to_string(), "a\u{7f}b".to_string()),
        ("X-Tab".to_string(), "a\tb".to_string()),
    ];
    assert_eq!(
        sendable_headers(&headers),
        vec![("X-Ok".to_string(), "fine".to_string()), ("X-Tab".to_string(), "a\tb".to_string())]
    );
    assert_eq!(wire_method_name(&Method::Patch), "PATCH");
    assert_eq!(wire_method_name(&Method::Other("PROPFIND".into())), "PROPFIND");
    assert_eq!(wire_method_name(&Method::Other("BAD METHOD".into())), "GET");
}

#[test]
fn json_bytes_sets_content_type() {
    let r = Request::get("http://x").text("plain").json_bytes(b"{\"a\":1}".to_vec());
    assert_eq!(r.content_type.as_deref(), Some("application/json"));
    assert_eq!(r.body, Some(b"{\"a\":1}".to_vec()));
}
