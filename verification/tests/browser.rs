use openbrowser::browser::{
    extract_cookies, navigation_result, parse_cookie, BrowserError, FetchRequest, FormData, NavigationPolicy,
    ObservedCookie,
};
use openbrowser::dom::{DomNode, DomTree};
use openbrowser::network::{Method, Response};
use openbrowser::timers::{IntervalHandle, TimerHandle};
use std::collections::HashMap;

#[test]
fn fetch_get() {
    let _ = FetchRequest::get("http://x.com".into());
}

#[test]
fn fetch_post() {
    let _ = FetchRequest::post("http://x.com".into(), vec![]);
}

#[test]
fn form_new() {
    let f = FormData::new("http://x.com".into(), Method::Post, HashMap::new());
    assert_eq!(f.enctype, "application/x-www-form-urlencoded");
}

#[test]
fn policy_default() {
    let _ = NavigationPolicy::default();
}

#[test]
fn cookie_parse() {
    assert!(parse_cookie("a=b; Path=/").is_some());
}

#[test]
fn cookie_parse_minimal() {
    assert!(parse_cookie("x=y").is_some());
}

#[test]
fn test_cookie_parse_full() {
    let cookie = ObservedCookie {
        name: "session".into(),
        value: "abc123".into(),
        domain: Some("example.com".into()),
        path: Some("/".into()),
        secure: true,
        http_only: true,
    };
    assert_eq!(cookie.name, "session");
    assert!(cookie.secure);
    assert!(cookie.http_only);
}

#[test]
fn cookie_parse_all_attributes() {
    let c = parse_cookie(" sid = 42 ; Domain= example.com ;Path=/app; secure; HTTPONLY; Max-Age=5").unwrap();
    assert_eq!(c.name, "sid");
    assert_eq!(c.value, "42");
    assert_eq!(c.domain.as_deref(), Some("example.com"));
    assert_eq!(c.path.as_deref(), Some("/app"));
    assert!(c.secure);
    assert!(c.http_only);
}

#[test]
fn cookie_parse_rejects_missing_equals() {
    assert!(parse_cookie("novalue; Path=/").is_none());
    assert!(parse_cookie("").is_none());
}

#[test]
fn cookie_value_keeps_later_equals() {
    let c = parse_cookie("k=a=b").unwrap();
    assert_eq!(c.name, "k");
    assert_eq!(c.value, "a=b");
    assert!(c.domain.is_none() && c.path.is_none() && !c.secure && !c.http_only);
}

#[test]
fn extract_cookies_reads_set_cookie_headers() {
    let resp = Response {
        status: 200,
        url: "http://x".into(),
        headers: vec![
            ("Set-Cookie".into(), "a=1".into()),
            ("Content-Type".into(), "text/html".into()),
            ("set-cookie".into(), "broken".into()),
            ("SET-COOKIE".into(), "b=2; Secure".into()),
        ],
        body: vec![],
    };
    let cs = extract_cookies(&resp);
    assert_eq!(cs.len(), 2);
    assert_eq!((cs[0].name.as_str(), cs[0].value.as_str()), ("a", "1"));
    assert_eq!((cs[1].name.as_str(), cs[1].value.as_str()), ("b", "2"));
    assert!(cs[1].secure);
}

#[test]
fn navigation_result_collects_status_url_and_cookies() {
    let resp = Response {
        status: 201,
        url: "http://final".into(),
        headers: vec![("Set-Cookie".into(), "t=v".into())],
        body: vec![],
    };
    let dom = DomTree::new(vec![DomNode::Document { children: vec![] }], 0).unwrap();
    let r = navigation_result("http://asked", &resp, dom);
    assert_eq!(r.status, 201);
    assert_eq!(r.final_url, "http://asked");
    assert_eq!(r.cookies.len(), 1);
    assert_eq!(r.cookies[0].name, "t");
}

#[test]
fn browser_error_messages() {
    assert_eq!(BrowserError::Navigation("x".into()).message(), "navigation failed: x");
    assert_eq!(BrowserError::FormSubmission("y".into()).message(), "form submission failed: y");
    assert_eq!(BrowserError::Fetch("z".into()).message(), "fetch failed: z");
}

#[test]
fn timer_handles_cancel_shared_state() {
    let t = TimerHandle::new();
    let t2 = t.clone();
    assert!(!t2.is_cancelled());
    t.cancel();
    assert!(t2.is_cancelled());
    let i = IntervalHandle::new();
    let i2 = i.clone();
    i2.cancel();
    assert!(i.is_cancelled());
}
