//! HTTP request and response descriptions used by the networking layer.

use vstd::prelude::*;
use std::time::Duration;
use vstd::string::StringSliceAdditionalSpecFns;
use vstd::string::StrSliceExecFns;
use crate::text::{chars_of, eq_ignore_ascii_case, eq_ignore_case, string_from_chars, upper_chars, upper_seq};

verus! {

/// Default upper bound on redirect hops.
pub const DEFAULT_MAX_REDIRECTS: usize = 10;

/// HTTP method.
#[derive(Debug, Clone, PartialEq, Eq)]
pub enum Method {
    Get,
    Post,
    Put,
    Delete,
    Head,
    Patch,
    Options,
    Other(String),
}

/// A method, with the name of an `Other` method as a character sequence.
pub enum MethodView {
    Get,
    Post,
    Put,
    Delete,
    Head,
    Patch,
    Options,
    Other(Seq<char>),
}

impl View for Method {
    type V = MethodView;

    open spec fn view(&self) -> MethodView {
        match self {
            Method::Get => MethodView::Get,
            Method::Post => MethodView::Post,
            Method::Put => MethodView::Put,
            Method::Delete => MethodView::Delete,
            Method::Head => MethodView::Head,
            Method::Patch => MethodView::Patch,
            Method::Options => MethodView::Options,
            Method::Other(s) => MethodView::Other(s@),
        }
    }
}

pub open spec fn name_get() -> Seq<char> { seq!['G', 'E', 'T'] }
pub open spec fn name_post() -> Seq<char> { seq!['P', 'O', 'S', 'T'] }
pub open spec fn name_put() -> Seq<char> { seq!['P', 'U', 'T'] }
pub open spec fn name_delete() -> Seq<char> { seq!['D', 'E', 'L', 'E', 'T', 'E'] }
pub open spec fn name_head() -> Seq<char> { seq!['H', 'E', 'A', 'D'] }
pub open spec fn name_patch() -> Seq<char> { seq!['P', 'A', 'T', 'C', 'H'] }
pub open spec fn name_options() -> Seq<char> { seq!['O', 'P', 'T', 'I', 'O', 'N', 'S'] }

/// The wire name of a method.
pub open spec fn method_name(m: MethodView) -> Seq<char> {
    match m {
        MethodView::Get => name_get(),
        MethodView::Post => name_post(),
        MethodView::Put => name_put(),
        MethodView::Delete => name_delete(),
        MethodView::Head => name_head(),
        MethodView::Patch => name_patch(),
        MethodView::Options => name_options(),
        MethodView::Other(s) => s,
    }
}

/// The method named by `s`, compared without regard to ASCII case; an unknown
/// name becomes `Other` holding the upper-cased name.
pub open spec fn method_from_name(s: Seq<char>) -> MethodView {
    let u = upper_seq(s);
    if u == name_get() {
        MethodView::Get
    } else if u == name_post() {
        MethodView::Post
    } else if u == name_put() {
        MethodView::Put
    } else if u == name_delete() {
        MethodView::Delete
    } else if u == name_head() {
        MethodView::Head
    } else if u == name_patch() {
        MethodView::Patch
    } else if u == name_options() {
        MethodView::Options
    } else {
        MethodView::Other(u)
    }
}

/// Whether `v` holds exactly the characters `s`.
fn chars_eq(v: &Vec<char>, s: &Vec<char>) -> (r: bool)
    ensures
        r == (v@ == s@),
{
    if v.len() != s.len() {
        return false;
    }
    let mut i: usize = 0;
    while i < v.len()
        invariant
            i <= v.len() == s.len(),
            forall|j: int| 0 <= j < i ==> v@[j] == s@[j],
        decreases v.len() - i,
    {
        if v[i] != s[i] {
            return false;
        }
        i += 1;
    }
    assert(v@ =~= s@);
    true
}

impl Method {
    /// The wire name of the method.
    pub fn as_str(&self) -> (r: &str)
        ensures
            r@ == method_name(self@),
    {
        match self {
            Method::Get => {
                proof { reveal_strlit("GET"); }
                "GET"
            },
            Method::Post => {
                proof { reveal_strlit("POST"); }
                "POST"
            },
            Method::Put => {
                proof { reveal_strlit("PUT"); }
                "PUT"
            },
            Method::Delete => {
                proof { reveal_strlit("DELETE"); }
                "DELETE"
            },
            Method::Head => {
                proof { reveal_strlit("HEAD"); }
                "HEAD"
            },
            Method::Patch => {
                proof { reveal_strlit("PATCH"); }
                "PATCH"
            },
            Method::Options => {
                proof { reveal_strlit("OPTIONS"); }
                "OPTIONS"
            },
            Method::Other(s) => s.as_str(),
        }
    }

    /// The method with the given name, ignoring ASCII case.
    pub fn from_name(s: &str) -> (m: Method)
        ensures
            m@ == method_from_name(s@),
    {
        let v = chars_of(s);
        let u = upper_chars(&v);
        if chars_eq(&u, &vec!['G', 'E', 'T']) {
            Method::Get
        } else if chars_eq(&u, &vec!['P', 'O', 'S', 'T']) {
            Method::Post
        } else if chars_eq(&u, &vec!['P', 'U', 'T']) {
            Method::Put
        } else if chars_eq(&u, &vec!['D', 'E', 'L', 'E', 'T', 'E']) {
            Method::Delete
        } else if chars_eq(&u, &vec!['H', 'E', 'A', 'D']) {
            Method::Head
        } else if chars_eq(&u, &vec!['P', 'A', 'T', 'C', 'H']) {
            Method::Patch
        } else if chars_eq(&u, &vec!['O', 'P', 'T', 'I', 'O', 'N', 'S']) {
            Method::Options
        } else {
            Method::Other(string_from_chars(u.as_slice()))
        }
    }
}

impl<'a> From<&'a str> for Method {
    /// Same as [`Method::from_name`].
    fn from(s: &'a str) -> (m: Method)
        ensures
            m@ == method_from_name(s@),
    {
        Method::from_name(s)
    }
}

/// `Method::from(s)` is a method whose view is `method_from_name(s@)`; as two
/// methods with one view need not be equal values to Verus, the conversion's
/// own `ensures` states this, and `from_spec` only names such a method.
impl<'a> vstd::std_specs::convert::FromSpecImpl<&'a str> for Method {
    open spec fn obeys_from_spec() -> bool {
        false
    }

    open spec fn from_spec(s: &'a str) -> Method {
        choose|m: Method| m@ == method_from_name(s@)
    }
}


/// A high-level request description.
#[derive(Debug, Clone)]
pub struct Request {
    pub method: Method,
    pub url: String,
    pub headers: Vec<(String, String)>,
    pub body: Option<Vec<u8>>,
    pub content_type: Option<String>,
    pub timeout: Option<Duration>,
    pub user_agent_override: Option<String>,
}

pub open spec fn header_views(hs: Seq<(String, String)>) -> Seq<(Seq<char>, Seq<char>)> {
    hs.map_values(|h: (String, String)| (h.0@, h.1@))
}

/// A token character of HTTP (RFC 9110 `tchar`): `!#$%&'*+-.^_`|~`, a digit
/// or an ASCII letter.
pub open spec fn token_byte(b: u8) -> bool {
    b == 33 || (35 <= b <= 39) || b == 42 || b == 43 || b == 45 || b == 46 || (48 <= b <= 57) || (65 <= b <= 90)
        || (94 <= b <= 122) || b == 124 || b == 126
}

/// Whether http accepts `name` as a method name (`http::Method::from_bytes`,
/// through reqwest): a non-empty sequence of token characters.
pub open spec fn method_token_ok(name: Seq<u8>) -> bool {
    name.len() > 0 && forall|i: int| 0 <= i < name.len() ==> token_byte(#[trigger] name[i])
}

/// Whether http accepts `name` as a header name (`HeaderName::from_bytes`):
/// between one and 65535 token characters (either case).
pub open spec fn header_name_ok(name: Seq<u8>) -> bool {
    0 < name.len() <= 65535 && forall|i: int| 0 <= i < name.len() ==> token_byte(#[trigger] name[i])
}

/// Whether http accepts `b` in a header value: a byte from 32 up other than
/// 127, or a tab.
pub open spec fn header_value_byte_ok(b: u8) -> bool {
    (b >= 32 && b != 127) || b == 9
}

/// Whether http accepts `value` as a header value (`HeaderValue::from_str`).
pub open spec fn header_value_ok(value: Seq<u8>) -> bool {
    forall|i: int| 0 <= i < value.len() ==> header_value_byte_ok(#[trigger] value[i])
}

/// `reqwest::Method::from_bytes(name)` succeeds.
#[verifier::external_body]
fn method_accepted(name: &str) -> (r: bool)
    ensures
        r == method_token_ok(name.spec_bytes()),
{
    reqwest::Method::from_bytes(name.as_bytes()).is_ok()
}

/// `reqwest::header::HeaderName::from_bytes(name)` succeeds.
#[verifier::external_body]
fn header_name_accepted(name: &str) -> (r: bool)
    ensures
        r == header_name_ok(name.spec_bytes()),
{
    reqwest::header::HeaderName::from_bytes(name.as_bytes()).is_ok()
}

/// `reqwest::header::HeaderValue::from_str(value)` succeeds: exactly when
/// every byte of `value` is accepted (http's `is_valid`).
#[verifier::external_body]
fn header_value_accepted(value: &str) -> (r: bool)
    ensures
        r == header_value_ok(value.spec_bytes()),
{
    reqwest::header::HeaderValue::from_str(value).is_ok()
}

/// The method name a request is sent with: the method's own name when http
/// accepts it, `GET` otherwise.
pub open spec fn wire_method(m: MethodView) -> Seq<char> {
    if method_token_ok(vstd::utf8::encode_utf8(method_name(m))) {
        method_name(m)
    } else {
        "GET"@
    }
}

/// The headers that are sent with a request: those whose name and value
/// http accepts, in their order; the others are left out.
pub open spec fn sendable(hs: Seq<(Seq<char>, Seq<char>)>) -> Seq<(Seq<char>, Seq<char>)>
    decreases hs.len(),
{
    if hs.len() == 0 {
        Seq::empty()
    } else {
        let rest = sendable(hs.drop_last());
        let h = hs.last();
        if header_name_ok(vstd::utf8::encode_utf8(h.0)) && header_value_ok(vstd::utf8::encode_utf8(h.1)) {
            rest.push(h)
        } else {
            rest
        }
    }
}

/// The content type that `Request::text` sets when none is set yet.
pub open spec fn text_plain_utf8() -> Seq<char> {
    seq!['t', 'e', 'x', 't', '/', 'p', 'l', 'a', 'i', 'n', ';', ' ', 'c', 'h', 'a', 'r', 's', 'e', 't', '=', 'u', 't', 'f', '-', '8']
}

impl Request {
    fn with_method(method: Method, url: &str) -> (r: Request)
        ensures
            r.method@ == method@,
            r.url@ == url@,
            r.headers@.len() == 0,
            r.body.is_none(),
            r.content_type.is_none(),
            r.timeout.is_none(),
            r.user_agent_override.is_none(),
    {
        Request {
            method,
            url: String::from_str(url),
            headers: Vec::new(),
            body: None,
            content_type: None,
            timeout: None,
            user_agent_override: None,
        }
    }

    /// A GET request for `url` with nothing else set.
    pub fn get(url: &str) -> (r: Request)
        ensures
            r.method@ == MethodView::Get,
            r.url@ == url@,
            r.headers@.len() == 0,
            r.body.is_none(),
            r.content_type.is_none(),
            r.timeout.is_none(),
            r.user_agent_override.is_none(),
    {
        Request::with_method(Method::Get, url)
    }

    /// A POST request for `url` with nothing else set.
    pub fn post(url: &str) -> (r: Request)
        ensures
            r.method@ == MethodView::Post,
            r.url@ == url@,
            r.headers@.len() == 0,
            r.body.is_none(),
            r.content_type.is_none(),
            r.timeout.is_none(),
            r.user_agent_override.is_none(),
    {
        Request::with_method(Method::Post, url)
    }

    /// Appends the header `name: value`.
    pub fn header(self, name: &str, value: &str) -> (r: Request)
        ensures
            header_views(r.headers@) == header_views(self.headers@).push((name@, value@)),
            r.method == self.method,
            r.url == self.url,
            r.body == self.body,
            r.content_type == self.content_type,
            r.timeout == self.timeout,
            r.user_agent_override == self.user_agent_override,
    {
        let mut r = self;
        let ghost before = r.headers@;
        r.headers.push((String::from_str(name), String::from_str(value)));
        assert(header_views(r.headers@) =~= header_views(before).push((name@, value@)));
        r
    }

    /// Sets the body to the UTF-8 bytes of `body`; the content type becomes
    /// `text/plain; charset=utf-8` unless one is already set.
    pub fn text(self, body: &str) -> (r: Request)
        ensures
            r.body.is_some(),
            r.body.unwrap()@ == body.spec_bytes(),
            match self.content_type {
                Some(ct) => r.content_type == Some(ct),
                None => r.content_type.is_some() && r.content_type.unwrap()@ == text_plain_utf8(),
            },
            r.method == self.method,
            r.url == self.url,
            r.headers == self.headers,
            r.timeout == self.timeout,
            r.user_agent_override == self.user_agent_override,
    {
        let mut r = self;
        if r.content_type.is_none() {
            proof { reveal_strlit("text/plain; charset=utf-8"); }
            r.content_type = Some(String::from_str("text/plain; charset=utf-8"));
        }
        r.body = Some(body.as_bytes_vec());
        r
    }

    /// Sets the body to `body`, the bytes of a JSON document; the content
    /// type becomes `application/json`.
    pub fn json_bytes(self, body: Vec<u8>) -> (r: Request)
        ensures
            r.body == Some(body),
            r.content_type.is_some() && r.content_type.unwrap()@ == "application/json"@,
            r.method == self.method,
            r.url == self.url,
            r.headers == self.headers,
            r.timeout == self.timeout,
            r.user_agent_override == self.user_agent_override,
    {
        let mut r = self;
        r.content_type = Some("application/json".to_owned());
        r.body = Some(body);
        r
    }

    /// Sets the per-request timeout.
    pub fn timeout(self, t: Duration) -> (r: Request)
        ensures
            r.timeout == Some(t),
            r.method == self.method,
            r.url == self.url,
            r.headers == self.headers,
            r.body == self.body,
            r.content_type == self.content_type,
            r.user_agent_override == self.user_agent_override,
    {
        let mut r = self;
        r.timeout = Some(t);
        r
    }

    /// Sets the per-request User-Agent override.
    pub fn user_agent(self, ua: &str) -> (r: Request)
        ensures
            r.user_agent_override.is_some(),
            r.user_agent_override.unwrap()@ == ua@,
            r.method == self.method,
            r.url == self.url,
            r.headers == self.headers,
            r.body == self.body,
            r.content_type == self.content_type,
            r.timeout == self.timeout,
    {
        let mut r = self;
        r.user_agent_override = Some(String::from_str(ua));
        r
    }
}

/// Transport failures, as the HTTP client reports them.
#[derive(Debug, Clone, Copy, PartialEq, Eq)]
pub enum TransportFailure {
    Timeout,
    Connect,
    Decode,
    Redirect,
    Other,
}

/// Typed network errors.
#[derive(Debug)]
pub enum HttpError {
    DnsFailed(String),
    TlsFailed(String),
    ConnectionRefused(String),
    Timeout(Duration),
    Cancelled,
    BodyReadError(String),
    Other(String),
}

pub open spec fn redirect_error_prefix() -> Seq<char> {
    seq!['r', 'e', 'd', 'i', 'r', 'e', 'c', 't', ' ', 'e', 'r', 'r', 'o', 'r', ':', ' ']
}

/// `Duration::from_secs` (std); the result is opaque to the library.
pub assume_specification[ core::time::Duration::from_secs ](secs: u64) -> Duration;

/// The message of an HTTP error; for a timeout, the duration's text follows
/// the prefix given here.
pub open spec fn http_error_prefix(e: HttpError) -> Seq<char> {
    match e {
        HttpError::DnsFailed(s) => "DNS resolution failed for "@ + s@,
        HttpError::TlsFailed(s) => "TLS handshake failed: "@ + s@,
        HttpError::ConnectionRefused(s) => "Connection refused at "@ + s@,
        HttpError::Timeout(_) => "Request timed out after "@,
        HttpError::Cancelled => "Request was cancelled"@,
        HttpError::BodyReadError(s) => "Body read error: "@ + s@,
        HttpError::Other(s) => "Other transport error: "@ + s@,
    }
}

impl HttpError {
    /// The error's message.
    pub fn message(&self) -> (m: String)
        ensures
            m@.len() >= http_error_prefix(*self).len(),
            m@.take(http_error_prefix(*self).len() as int) == http_error_prefix(*self),
            !(*self is Timeout) ==> m@ == http_error_prefix(*self),
    {
        let mut v: Vec<char> = Vec::new();
        match self {
            HttpError::DnsFailed(s) => {
                crate::text::push_str(&mut v, "DNS resolution failed for ");
                crate::text::push_str(&mut v, s.as_str());
            },
            HttpError::TlsFailed(s) => {
                crate::text::push_str(&mut v, "TLS handshake failed: ");
                crate::text::push_str(&mut v, s.as_str());
            },
            HttpError::ConnectionRefused(s) => {
                crate::text::push_str(&mut v, "Connection refused at ");
                crate::text::push_str(&mut v, s.as_str());
            },
            HttpError::Timeout(d) => {
                crate::text::push_str(&mut v, "Request timed out after ");
                let t = duration_debug(d);
                crate::text::push_str(&mut v, t.as_str());
            },
            HttpError::Cancelled => {
                crate::text::push_str(&mut v, "Request was cancelled");
            },
            HttpError::BodyReadError(s) => {
                crate::text::push_str(&mut v, "Body read error: ");
                crate::text::push_str(&mut v, s.as_str());
            },
            HttpError::Other(s) => {
                crate::text::push_str(&mut v, "Other transport error: ");
                crate::text::push_str(&mut v, s.as_str());
            },
        }
        proof {
            assert(v@.take(http_error_prefix(*self).len() as int) =~= http_error_prefix(*self));
        }
        crate::text::string_from_chars(v.as_slice())
    }

    /// Maps a transport failure on `url`, described by `detail`, to a typed error:
    /// a timeout becomes `Timeout` of the default 30 s, a connection failure
    /// `ConnectionRefused(url)`, a decoding failure `BodyReadError(detail)`, a
    /// redirect failure `Other("redirect error: " + detail)`, anything else `Other(detail)`.
    pub fn from_transport(failure: TransportFailure, url: &str, detail: &str) -> (e: HttpError)
        ensures
            failure == TransportFailure::Timeout ==> e is Timeout,
            failure == TransportFailure::Connect ==> (e matches HttpError::ConnectionRefused(u) && u@ == url@),
            failure == TransportFailure::Decode ==> (e matches HttpError::BodyReadError(d) && d@ == detail@),
            failure == TransportFailure::Redirect ==> (e matches HttpError::Other(d) && d@ == redirect_error_prefix() + detail@),
            failure == TransportFailure::Other ==> (e matches HttpError::Other(d) && d@ == detail@),
    {
        match failure {
            TransportFailure::Timeout => HttpError::Timeout(Duration::from_secs(30)),
            TransportFailure::Connect => HttpError::ConnectionRefused(String::from_str(url)),
            TransportFailure::Decode => HttpError::BodyReadError(String::from_str(detail)),
            TransportFailure::Redirect => {
                proof { reveal_strlit("redirect error: "); }
                let s = String::from_str("redirect error: ");
                HttpError::Other(s.concat(detail))
            },
            TransportFailure::Other => HttpError::Other(String::from_str(detail)),
        }
    }
}

/// Structured HTTP response.
#[derive(Debug, Clone)]
pub struct Response {
    pub status: u16,
    pub url: String,
    pub headers: Vec<(String, String)>,
    pub body: Vec<u8>,
}

/// Decodes UTF-8 bytes into a `String` (std's `String::from_utf8`): succeeds exactly
/// when the bytes are valid UTF-8, with the decoded characters; otherwise the
/// error's text (std's `FromUtf8Error` display, of which nothing is stated).
#[verifier::external_body]
fn decode_utf8_bytes(b: Vec<u8>) -> (r: Result<String, String>)
    ensures
        match r {
            Ok(s) => vstd::utf8::valid_utf8(b@) && s@ == vstd::utf8::decode_utf8(b@),
            Err(_) => !vstd::utf8::valid_utf8(b@),
        },
{
    match String::from_utf8(b) {
        Ok(s) => Ok(s),
        Err(e) => Err(e.to_string()),
    }
}

/// `{:?}` of a duration (std's `Debug for Duration`, such as `30s`); nothing is
/// stated of the text.
#[verifier::external_body]
fn duration_debug(d: &Duration) -> (r: String) {
    format!("{:?}", d)
}

pub open spec fn invalid_utf8_message() -> Seq<char> {
    seq!['r', 'e', 's', 'p', 'o', 'n', 's', 'e', ' ', 'b', 'o', 'd', 'y', ' ', 'i', 's', ' ', 'n', 'o', 't', ' ', 'v', 'a', 'l', 'i', 'd', ' ', 'U', 'T', 'F', '-', '8', ':', ' ']
}

/// `hs[i]` is a header named `name`, ignoring ASCII case.
pub open spec fn header_named(hs: Seq<(String, String)>, i: int, name: Seq<char>) -> bool {
    eq_ignore_case(hs[i].0@, name)
}

impl Response {
    /// HTTP status code.
    pub fn status(&self) -> (s: u16)
        ensures
            s == self.status,
    {
        self.status
    }

    /// True for a `2xx` status.
    pub fn is_success(&self) -> (b: bool)
        ensures
            b == (200 <= self.status < 300),
    {
        200 <= self.status && self.status < 300
    }

    /// The raw body bytes.
    pub fn bytes(&self) -> (b: Vec<u8>)
        ensures
            b@ == self.body@,
    {
        self.body.clone()
    }

    /// The body decoded as UTF-8; an error when it is not valid UTF-8.
    pub fn text(&self) -> (r: Result<String, HttpError>)
        ensures
            match r {
                Ok(s) => vstd::utf8::valid_utf8(self.body@) && s@ == vstd::utf8::decode_utf8(self.body@),
                Err(e) => !vstd::utf8::valid_utf8(self.body@) && (e matches HttpError::BodyReadError(m) && m@.len()
                    >= invalid_utf8_message().len() && m@.take(invalid_utf8_message().len() as int) == invalid_utf8_message()),
            },
    {
        match decode_utf8_bytes(self.body.clone()) {
            Ok(s) => Ok(s),
            Err(detail) => {
                proof { reveal_strlit("response body is not valid UTF-8: "); }
                let mut v: Vec<char> = Vec::new();
                crate::text::push_str(&mut v, "response body is not valid UTF-8: ");
                crate::text::push_str(&mut v, detail.as_str());
                proof {
                    assert(v@.take(invalid_utf8_message().len() as int) =~= invalid_utf8_message());
                }
                Err(HttpError::BodyReadError(crate::text::string_from_chars(v.as_slice())))
            },
        }
    }

    /// The value of the first header named `name`, ignoring ASCII case.
    pub fn header(&self, name: &str) -> (r: Option<&str>)
        ensures
            match r {
                Some(v) => exists|i: int|
                    0 <= i < self.headers@.len() && header_named(self.headers@, i, name@)
                        && v@ == self.headers@[i].1@ && forall|j: int|
                        0 <= j < i ==> !header_named(self.headers@, j, name@),
                None => forall|i: int|
                    0 <= i < self.headers@.len() ==> !header_named(self.headers@, i, name@),
            },
    {
        let target = chars_of(name);
        let mut i: usize = 0;
        while i < self.headers.len()
            invariant
                i <= self.headers@.len(),
                target@ == name@,
                forall|j: int| 0 <= j < i ==> !header_named(self.headers@, j, name@),
            decreases self.headers.len() - i,
        {
            let k = chars_of(self.headers[i].0.as_str());
            if eq_ignore_ascii_case(&k, &target) {
                assert(header_named(self.headers@, i as int, name@));
                return Some(self.headers[i].1.as_str());
            }
            i += 1;
        }
        None
    }
}

/// Parsing a method name ignores ASCII case: the parsed method's name is the
/// given name in upper case.
/// The method name that `m` is sent with (`wire_method`).
pub fn wire_method_name(m: &Method) -> (s: String)
    ensures
        s@ == wire_method(m@),
{
    let name = m.as_str();
    if method_accepted(name) {
        name.to_owned()
    } else {
        "GET".to_owned()
    }
}

/// The headers of `headers` that are sent (`sendable`).
pub fn sendable_headers(headers: &Vec<(String, String)>) -> (out: Vec<(String, String)>)
    ensures
        header_views(out@) == sendable(header_views(headers@)),
{
    let mut out: Vec<(String, String)> = Vec::new();
    let mut i: usize = 0;
    while i < headers.len()
        invariant
            i <= headers@.len(),
            header_views(out@) == sendable(header_views(headers@).take(i as int)),
        decreases headers.len() - i,
    {
        proof {
            assert(header_views(headers@).take(i + 1).drop_last() =~= header_views(headers@).take(i as int));
        }
        let name = headers[i].0.as_str();
        let value = headers[i].1.as_str();
        if header_name_accepted(name) && header_value_accepted(value) {
            let ghost before = out@;
            out.push((headers[i].0.clone(), headers[i].1.clone()));
            proof {
                assert(header_views(out@) =~= header_views(before).push(header_views(headers@)[i as int]));
            }
        }
        i += 1;
    }
    assert(header_views(headers@).take(i as int) =~= header_views(headers@));
    out
}

/// Each standard method is read back from its own name: `Method::from(m.as_str())`
/// is `m` for `GET`, `POST`, `PUT`, `DELETE`, `HEAD`, `PATCH` and `OPTIONS`.
pub proof fn lemma_standard_method_round_trip(m: MethodView)
    requires
        m !is Other,
    ensures
        method_from_name(method_name(m)) == m,
{
    assert(upper_seq(name_get()) =~= name_get());
    assert(upper_seq(name_post()) =~= name_post());
    assert(upper_seq(name_put()) =~= name_put());
    assert(upper_seq(name_delete()) =~= name_delete());
    assert(upper_seq(name_head()) =~= name_head());
    assert(upper_seq(name_patch()) =~= name_patch());
    assert(upper_seq(name_options()) =~= name_options());
}

pub proof fn lemma_method_name_round_trip(s: Seq<char>)
    ensures
        method_name(method_from_name(s)) == upper_seq(s),
{
}

} // verus!
