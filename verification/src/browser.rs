//! Browser-level data: fetch and form requests, navigation results and the
//! `Set-Cookie` parser.

use vstd::prelude::*;
use std::collections::HashMap;
use std::time::Duration;
use crate::dom::DomTree;
use crate::network::{Method, Response};
use crate::text::{
    chars_of, eq_ignore_ascii_case, eq_ignore_case, find_from, has_prefix, index_of,
    lemma_index_of_at, split_on, starts_with_at, string_of_range, trim, trimmed,
};

verus! {

/// A fetch request: method, URL and optional body.
#[derive(Debug, Clone)]
pub struct FetchRequest {
    pub method: Method,
    pub url: String,
    pub body: Option<Vec<u8>>,
}

impl FetchRequest {
    /// A GET of `url` without body.
    pub fn get(url: String) -> (r: FetchRequest)
        ensures
            r.method == Method::Get,
            r.url == url,
            r.body.is_none(),
    {
        FetchRequest { method: Method::Get, url, body: None }
    }

    /// A POST of `body` to `url`.
    pub fn post(url: String, body: Vec<u8>) -> (r: FetchRequest)
        ensures
            r.method == Method::Post,
            r.url == url,
            r.body == Some(body),
    {
        FetchRequest { method: Method::Post, url, body: Some(body) }
    }
}

/// A form to submit.
#[derive(Debug, Clone)]
pub struct FormData {
    pub action: String,
    pub method: Method,
    pub fields: HashMap<String, String>,
    pub enctype: String,
}

pub open spec fn form_urlencoded() -> Seq<char> {
    seq!['a', 'p', 'p', 'l', 'i', 'c', 'a', 't', 'i', 'o', 'n', '/', 'x', '-', 'w', 'w', 'w', '-', 'f', 'o', 'r', 'm', '-', 'u', 'r', 'l', 'e', 'n', 'c', 'o', 'd', 'e', 'd']
}

impl FormData {
    /// A form with the URL-encoded encoding type.
    pub fn new(action: String, method: Method, fields: HashMap<String, String>) -> (f: FormData)
        ensures
            f.action == action,
            f.method == method,
            f.fields == fields,
            f.enctype@ == form_urlencoded(),
    {
        proof { reveal_strlit("application/x-www-form-urlencoded"); }
        FormData {
            action,
            method,
            fields,
            enctype: String::from_str("application/x-www-form-urlencoded"),
        }
    }
}

/// Options for a form submission.
#[derive(Debug, Clone, Default)]
pub struct FormSubmitOptions {
    pub timeout: Option<Duration>,
}

/// Errors of browser operations.
#[derive(Debug)]
pub enum BrowserError {
    Navigation(String),
    FormSubmission(String),
    Fetch(String),
}

/// The message of a browser error.
pub open spec fn browser_error_text(e: BrowserError) -> Seq<char> {
    match e {
        BrowserError::Navigation(s) => "navigation failed: "@ + s@,
        BrowserError::FormSubmission(s) => "form submission failed: "@ + s@,
        BrowserError::Fetch(s) => "fetch failed: "@ + s@,
    }
}

impl BrowserError {
    /// The error's message.
    pub fn message(&self) -> (m: String)
        ensures
            m@ == browser_error_text(*self),
    {
        let mut v: Vec<char> = Vec::new();
        match self {
            BrowserError::Navigation(s) => {
                crate::text::push_str(&mut v, "navigation failed: ");
                crate::text::push_str(&mut v, s.as_str());
            },
            BrowserError::FormSubmission(s) => {
                crate::text::push_str(&mut v, "form submission failed: ");
                crate::text::push_str(&mut v, s.as_str());
            },
            BrowserError::Fetch(s) => {
                crate::text::push_str(&mut v, "fetch failed: ");
                crate::text::push_str(&mut v, s.as_str());
            },
        }
        crate::text::string_from_chars(v.as_slice())
    }
}

/// Restrictions on navigation.
#[derive(Debug, Clone, Default)]
pub struct NavigationPolicy {
    pub allowed_schemes: Vec<String>,
    pub block_external: bool,
    pub max_redirects: Option<usize>,
}

/// Events of a navigation.
#[derive(Debug, Clone)]
pub enum NavigationEvent {
    Started { url: String },
    Redirected { from: String, to: String },
    Loaded { url: String, status: u16 },
    Error { url: String, message: String },
}

/// A cookie seen in a `Set-Cookie` header.
#[derive(Debug, Clone)]
pub struct ObservedCookie {
    pub name: String,
    pub value: String,
    pub domain: Option<String>,
    pub path: Option<String>,
    pub secure: bool,
    pub http_only: bool,
}

/// The result of a navigation: status, final URL, cookies and the parsed page.
#[derive(Debug)]
pub struct NavigationResult {
    pub status: u16,
    pub final_url: String,
    pub cookies: Vec<ObservedCookie>,
    pub dom: DomTree,
}

/// A cookie with its strings as character sequences.
pub struct CookieView {
    pub name: Seq<char>,
    pub value: Seq<char>,
    pub domain: Option<Seq<char>>,
    pub path: Option<Seq<char>>,
    pub secure: bool,
    pub http_only: bool,
}

pub open spec fn opt_view(o: Option<String>) -> Option<Seq<char>> {
    match o {
        Some(s) => Some(s@),
        None => None,
    }
}

impl View for ObservedCookie {
    type V = CookieView;

    open spec fn view(&self) -> CookieView {
        CookieView {
            name: self.name@,
            value: self.value@,
            domain: opt_view(self.domain),
            path: opt_view(self.path),
            secure: self.secure,
            http_only: self.http_only,
        }
    }
}

pub open spec fn attr_secure() -> Seq<char> { seq!['S', 'e', 'c', 'u', 'r', 'e'] }
pub open spec fn attr_http_only() -> Seq<char> { seq!['H', 't', 't', 'p', 'O', 'n', 'l', 'y'] }
pub open spec fn attr_domain() -> Seq<char> { seq!['D', 'o', 'm', 'a', 'i', 'n', '='] }
pub open spec fn attr_path() -> Seq<char> { seq!['P', 'a', 't', 'h', '='] }

/// The cookie after reading one attribute: `Secure` and `HttpOnly` (any ASCII case)
/// set their flags; `Domain=` and `Path=` set the trimmed value; anything else is ignored.
pub open spec fn apply_attr(c: CookieView, part: Seq<char>) -> CookieView {
    let p = trim(part);
    if eq_ignore_case(p, attr_secure()) {
        CookieView { secure: true, ..c }
    } else if eq_ignore_case(p, attr_http_only()) {
        CookieView { http_only: true, ..c }
    } else if has_prefix(p, attr_domain()) {
        CookieView { domain: Some(trim(p.skip(attr_domain().len() as int))), ..c }
    } else if has_prefix(p, attr_path()) {
        CookieView { path: Some(trim(p.skip(attr_path().len() as int))), ..c }
    } else {
        c
    }
}

/// The cookie after reading the attributes `parts`, left to right.
pub open spec fn apply_attrs(c: CookieView, parts: Seq<Seq<char>>) -> CookieView
    decreases parts.len(),
{
    if parts.len() == 0 {
        c
    } else {
        apply_attrs(apply_attr(c, parts[0]), parts.drop_first())
    }
}

/// The cookie a `Set-Cookie` header describes: its first `;`-separated part must
/// hold a `=`; name and value are the trimmed text around the first `=`, and the
/// remaining parts are attributes. `None` when the first part holds no `=`.
pub open spec fn cookie_of_header(h: Seq<char>) -> Option<CookieView> {
    let parts = split_on(h, ';');
    let first = parts[0];
    match index_of(first, '=') {
        Some(eq) => Some(
            apply_attrs(
                CookieView {
                    name: trim(first.take(eq)),
                    value: trim(first.skip(eq + 1)),
                    domain: None,
                    path: None,
                    secure: false,
                    http_only: false,
                },
                parts.drop_first(),
            ),
        ),
        None => None,
    }
}

pub open spec fn cookie_opt_view(c: Option<ObservedCookie>) -> Option<CookieView> {
    match c {
        Some(c) => Some(c@),
        None => None,
    }
}

/// Unfolds `split_on` at the first separator found at or after `from`.
proof fn lemma_split_step(v: Seq<char>, from: int, end: int)
    requires
        0 <= from <= end <= v.len(),
        forall|j: int| from <= j < end ==> v[j] != ';',
        end < v.len() ==> v[end] == ';',
    ensures
        end < v.len() ==> split_on(v.skip(from), ';') == seq![v.subrange(from, end)] + split_on(v.skip(end + 1), ';'),
        end == v.len() ==> split_on(v.skip(from), ';') == seq![v.skip(from)],
{
    let s = v.skip(from);
    lemma_index_of_at(s, ';', end - from);
    if end < v.len() {
        assert(s.take(end - from) =~= v.subrange(from, end));
        assert(s.skip(end - from + 1) =~= v.skip(end + 1));
    }
}

/// Applies the attribute `v[from..to]` to the cookie `c`.
fn apply_cookie_attr(c: &mut ObservedCookie, v: &Vec<char>, from: usize, to: usize)
    requires
        from <= to <= v.len(),
    ensures
        final(c)@ == apply_attr(old(c)@, v@.subrange(from as int, to as int)),
{
    let (a, b) = crate::text::trim_bounds(v, from, to);
    let ghost part = v@.subrange(from as int, to as int);
    let p_str = string_of_range(v, a, b);
    let p = chars_of(p_str.as_str());
    assert(p@ == trim(part));
    let secure = vec!['S', 'e', 'c', 'u', 'r', 'e'];
    let http_only = vec!['H', 't', 't', 'p', 'O', 'n', 'l', 'y'];
    let domain = vec!['D', 'o', 'm', 'a', 'i', 'n', '='];
    let path = vec!['P', 'a', 't', 'h', '='];
    assert(secure@ =~= attr_secure());
    assert(http_only@ =~= attr_http_only());
    assert(domain@ =~= attr_domain());
    assert(path@ =~= attr_path());
    if eq_ignore_ascii_case(&p, &secure) {
        c.secure = true;
    } else if eq_ignore_ascii_case(&p, &http_only) {
        c.http_only = true;
    } else if starts_with_at(&p, 0, p.len(), &domain) {
        assert(p@.subrange(0, p.len() as int) =~= p@);
        let d = trimmed(&p, 7, p.len());
        assert(p@.subrange(7, p.len() as int) =~= p@.skip(7));
        c.domain = Some(d);
    } else if starts_with_at(&p, 0, p.len(), &path) {
        assert(p@.subrange(0, p.len() as int) =~= p@);
        let d = trimmed(&p, 5, p.len());
        assert(p@.subrange(5, p.len() as int) =~= p@.skip(5));
        c.path = Some(d);
    } else {
        assert(p@.subrange(0, p.len() as int) =~= p@);
    }
}

/// Parses one `Set-Cookie` header value.
pub fn parse_cookie(header: &str) -> (r: Option<ObservedCookie>)
    ensures
        cookie_opt_view(r) == cookie_of_header(header@),
{
    let v = chars_of(header);
    let n = v.len();
    let first_end = find_from(&v, ';', 0, n);
    proof {
        lemma_split_step(v@, 0, first_end as int);
        assert(v@.skip(0) =~= v@);
        if first_end < n {
            assert(split_on(v@, ';')[0] == v@.subrange(0, first_end as int));
            assert(split_on(v@, ';').drop_first() =~= split_on(v@.skip(first_end + 1), ';'));
        } else {
            assert(v@.subrange(0, first_end as int) =~= v@);
            assert(split_on(v@, ';').drop_first() =~= Seq::<Seq<char>>::empty());
        }
    }
    let ghost first = v@.subrange(0, first_end as int);
    let eq = find_from(&v, '=', 0, first_end);
    proof {
        lemma_index_of_at(first, '=', eq as int);
    }
    if eq == first_end {
        return None;
    }
    proof {
        assert(first.take(eq as int) =~= v@.subrange(0, eq as int));
        assert(first.skip(eq + 1) =~= v@.subrange(eq + 1, first_end as int));
    }
    let mut c = ObservedCookie {
        name: trimmed(&v, 0, eq),
        value: trimmed(&v, eq + 1, first_end),
        domain: None,
        path: None,
        secure: false,
        http_only: false,
    };
    let ghost target = cookie_of_header(header@);
    let mut pos = first_end;
    while pos < n
        invariant
            n == v.len(),
            v@ == header@,
            first_end <= pos <= n,
            pos < n ==> v@[pos as int] == ';',
            pos < n ==> target == Some(apply_attrs(c@, split_on(v@.skip(pos + 1), ';'))),
            pos == n ==> target == Some(c@),
        decreases n - pos,
    {
        let start = pos + 1;
        let end = find_from(&v, ';', start, n);
        let ghost c0 = c@;
        let ghost part = v@.subrange(start as int, end as int);
        proof {
            lemma_split_step(v@, start as int, end as int);
            if end == n {
                assert(v@.subrange(start as int, end as int) =~= v@.skip(start as int));
            }
        }
        apply_cookie_attr(&mut c, &v, start, end);
        proof {
            let parts = split_on(v@.skip(start as int), ';');
            assert(parts[0] == part);
            if end < n {
                assert(parts.drop_first() =~= split_on(v@.skip(end + 1), ';'));
            } else {
                assert(parts.drop_first() =~= Seq::<Seq<char>>::empty());
            }
            assert(apply_attrs(c0, parts) == apply_attrs(c@, parts.drop_first()));
        }
        pos = end;
    }
    Some(c)
}

pub open spec fn set_cookie_name() -> Seq<char> {
    seq!['s', 'e', 't', '-', 'c', 'o', 'o', 'k', 'i', 'e']
}

/// The cookies of the `Set-Cookie` headers among `hs` that parse, in header order.
pub open spec fn cookies_of_headers(hs: Seq<(String, String)>) -> Seq<CookieView>
    decreases hs.len(),
{
    if hs.len() == 0 {
        Seq::empty()
    } else {
        let rest = cookies_of_headers(hs.drop_last());
        let h = hs.last();
        if eq_ignore_case(h.0@, set_cookie_name()) {
            match cookie_of_header(h.1@) {
                Some(c) => rest.push(c),
                None => rest,
            }
        } else {
            rest
        }
    }
}

pub open spec fn cookie_views(cs: Seq<ObservedCookie>) -> Seq<CookieView> {
    cs.map_values(|c: ObservedCookie| c@)
}

/// The result of navigating to `url`, once `resp` arrived and its page was
/// parsed into `dom`: the response's status, `url` as the final URL, and the
/// cookies its `Set-Cookie` headers carry.
pub fn navigation_result(url: &str, resp: &Response, dom: DomTree) -> (r: NavigationResult)
    ensures
        r.status == resp.status,
        r.final_url@ == url@,
        cookie_views(r.cookies@) == cookies_of_headers(resp.headers@),
        r.dom == dom,
{
    let cookies = extract_cookies(resp);
    NavigationResult { dom, cookies, final_url: url.to_owned(), status: resp.status() }
}

/// The cookies that the response's `Set-Cookie` headers carry.
pub fn extract_cookies(resp: &Response) -> (out: Vec<ObservedCookie>)
    ensures
        cookie_views(out@) == cookies_of_headers(resp.headers@),
{
    let mut out: Vec<ObservedCookie> = Vec::new();
    let set_cookie = vec!['s', 'e', 't', '-', 'c', 'o', 'o', 'k', 'i', 'e'];
    assert(set_cookie@ =~= set_cookie_name());
    let mut i: usize = 0;
    while i < resp.headers.len()
        invariant
            i <= resp.headers@.len(),
            set_cookie@ == set_cookie_name(),
            cookie_views(out@) == cookies_of_headers(resp.headers@.take(i as int)),
        decreases resp.headers.len() - i,
    {
        let ghost before = out@;
        assert(resp.headers@.take(i + 1).drop_last() =~= resp.headers@.take(i as int));
        let k = chars_of(resp.headers[i].0.as_str());
        if eq_ignore_ascii_case(&k, &set_cookie) {
            match parse_cookie(resp.headers[i].1.as_str()) {
                Some(c) => {
                    out.push(c);
                    assert(cookie_views(out@) =~= cookie_views(before).push(c@));
                },
                None => {},
            }
        }
        i += 1;
    }
    assert(resp.headers@.take(resp.headers.len() as int) =~= resp.headers@);
    out
}

/// Reading attributes never changes a cookie's name or value.
proof fn lemma_attrs_keep_name_value(c: CookieView, parts: Seq<Seq<char>>)
    ensures
        apply_attrs(c, parts).name == c.name,
        apply_attrs(c, parts).value == c.value,
    decreases parts.len(),
{
    if parts.len() > 0 {
        lemma_attrs_keep_name_value(apply_attr(c, parts[0]), parts.drop_first());
    }
}

/// A `Set-Cookie` header whose first `;`-separated part (`h[0..k]`) holds a
/// `=` (the first one at `e`) always gives a cookie, whatever follows the `=`
/// (an empty value too): its name is the trimmed text before the `=`, and its
/// value the trimmed text after it, up to the first `;`.
pub proof fn lemma_cookie_name_value(h: Seq<char>, k: int, e: int)
    requires
        0 <= e < k <= h.len(),
        k == h.len() || h[k] == ';',
        forall|j: int| 0 <= j < k ==> h[j] != ';',
        h[e] == '=',
        forall|j: int| 0 <= j < e ==> h[j] != '=',
    ensures
        cookie_of_header(h) matches Some(c) && c.name == trim(h.subrange(0, e)) && c.value == trim(
            h.subrange(e + 1, k),
        ),
{
    lemma_split_step(h, 0, k);
    assert(h.skip(0) =~= h);
    let first = h.subrange(0, k);
    assert(split_on(h, ';')[0] == first);
    lemma_index_of_at(first, '=', e);
    assert(first.take(e) =~= h.subrange(0, e));
    assert(first.skip(e + 1) =~= h.subrange(e + 1, k));
    let c0 = CookieView {
        name: trim(first.take(e)),
        value: trim(first.skip(e + 1)),
        domain: None,
        path: None,
        secure: false,
        http_only: false,
    };
    lemma_attrs_keep_name_value(c0, split_on(h, ';').drop_first());
}

/// A `Set-Cookie` header whose first `;`-separated part (`h[0..k]`) holds no
/// `=` gives no cookie.
pub proof fn lemma_cookie_needs_eq(h: Seq<char>, k: int)
    requires
        0 <= k <= h.len(),
        k == h.len() || h[k] == ';',
        forall|j: int| 0 <= j < k ==> h[j] != ';',
        forall|j: int| 0 <= j < k ==> h[j] != '=',
    ensures
        cookie_of_header(h) is None,
{
    lemma_split_step(h, 0, k);
    assert(h.skip(0) =~= h);
    let first = h.subrange(0, k);
    assert(split_on(h, ';')[0] == first);
    lemma_index_of_at(first, '=', k);
}

} // verus!
