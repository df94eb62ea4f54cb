//! HTTP request descriptions: method, headers, body and per-request settings, and the
//! response and error types a request ends in.

use vstd::prelude::*;
use vstd::std_specs::hash::{builds_valid_hashers, obeys_key_model};
use vstd::string::StringExecFns;
use std::collections::HashMap;
use std::time::Duration;

verus! {

/// Relies on `Duration::from_secs`, which builds a duration of whole seconds and
/// cannot fail; nothing is assumed of the value.
pub assume_specification[ core::time::Duration::from_secs ](secs: u64) -> Duration;

/// HTTP request methods.
#[derive(Debug, Clone, Copy, PartialEq, Eq, Structural)]
pub enum HttpMethod {
    Get,
    Post,
    Put,
    Delete,
    Patch,
    Head,
    Options,
}

/// Per-request settings.
#[derive(Debug)]
pub struct RequestConfig {
    pub timeout: Duration,
    pub follow_redirects: bool,
    pub max_redirects: u32,
    pub verify_ssl: bool,
    pub user_agent: Option<String>,
}

impl Default for RequestConfig {
    /// Thirty seconds, following up to ten redirects, verifying certificates, with the
    /// browser's user agent.
    fn default() -> (r: Self)
        ensures
            r.follow_redirects,
            r.max_redirects == 10,
            r.verify_ssl,
            r.user_agent is Some,
    {
        RequestConfig {
            timeout: Duration::from_secs(30),
            follow_redirects: true,
            max_redirects: 10,
            verify_ssl: true,
            user_agent: Some(<String as StringExecFns>::from_str("ProxyBrowser/1.0")),
        }
    }
}

/// The body of a request.
#[derive(Debug, Clone)]
pub enum RequestBody {
    Empty,
    Text(String),
    Form(HashMap<String, String>),
    Bytes(Vec<u8>),
}

/// A request being put together.
#[derive(Debug)]
pub struct RequestBuilder {
    pub method: HttpMethod,
    pub url: String,
    pub headers: HashMap<String, String>,
    pub body: RequestBody,
    pub config: RequestConfig,
}

/// Whether inserting into a header map is specified.
pub open spec fn header_model() -> bool {
    obeys_key_model::<String>() && builds_valid_hashers::<std::hash::RandomState>()
}

impl RequestBuilder {
    /// A request with `method` for `url`, no headers, no body and default settings.
    pub fn new(method: HttpMethod, url: &str) -> (r: Self)
        ensures
            r.method == method,
            r.url@ == url@,
            r.headers@ == Map::<String, String>::empty(),
            r.body is Empty,
    {
        RequestBuilder {
            method,
            url: <String as StringExecFns>::from_str(url),
            headers: HashMap::new(),
            body: RequestBody::Empty,
            config: RequestConfig::default(),
        }
    }

    pub fn get(url: &str) -> (r: Self)
        ensures
            r.method == HttpMethod::Get && r.url@ == url@ && r.body is Empty,
    {
        RequestBuilder::new(HttpMethod::Get, url)
    }

    pub fn post(url: &str) -> (r: Self)
        ensures
            r.method == HttpMethod::Post && r.url@ == url@ && r.body is Empty,
    {
        RequestBuilder::new(HttpMethod::Post, url)
    }

    pub fn put(url: &str) -> (r: Self)
        ensures
            r.method == HttpMethod::Put && r.url@ == url@ && r.body is Empty,
    {
        RequestBuilder::new(HttpMethod::Put, url)
    }

    pub fn delete(url: &str) -> (r: Self)
        ensures
            r.method == HttpMethod::Delete && r.url@ == url@ && r.body is Empty,
    {
        RequestBuilder::new(HttpMethod::Delete, url)
    }

    pub fn patch(url: &str) -> (r: Self)
        ensures
            r.method == HttpMethod::Patch && r.url@ == url@ && r.body is Empty,
    {
        RequestBuilder::new(HttpMethod::Patch, url)
    }

    pub fn head(url: &str) -> (r: Self)
        ensures
            r.method == HttpMethod::Head && r.url@ == url@ && r.body is Empty,
    {
        RequestBuilder::new(HttpMethod::Head, url)
    }

    pub fn options(url: &str) -> (r: Self)
        ensures
            r.method == HttpMethod::Options && r.url@ == url@ && r.body is Empty,
    {
        RequestBuilder::new(HttpMethod::Options, url)
    }

    /// Sets header `name` to `value`, replacing an earlier value.
    pub fn header(self, name: &str, value: &str) -> (r: Self)
        ensures
            r.method == self.method && r.url == self.url,
            header_model() ==> exists|k: String, v: String| k@ == name@ && v@ == value@
                && r.headers@ == self.headers@.insert(k, v),
    {
        let mut b = self;
        let k = <String as StringExecFns>::from_str(name);
        let v = <String as StringExecFns>::from_str(value);
        b.headers.insert(k, v);
        b
    }

    /// Sets the timeout.
    pub fn timeout(self, timeout: Duration) -> (r: Self)
        ensures
            r.config.timeout == timeout,
            r.config.follow_redirects == self.config.follow_redirects,
            r.method == self.method && r.url == self.url && r.headers == self.headers,
    {
        let mut b = self;
        b.config.timeout = timeout;
        b
    }

    /// Sets whether redirects are followed.
    pub fn follow_redirects(self, follow: bool) -> (r: Self)
        ensures
            r.config.follow_redirects == follow,
            r.config.timeout == self.config.timeout,
            r.method == self.method && r.url == self.url && r.headers == self.headers,
    {
        let mut b = self;
        b.config.follow_redirects = follow;
        b
    }

    /// Sends `fields` URL-encoded, with the matching content type.
    pub fn form(self, fields: HashMap<String, String>) -> (r: Self)
        ensures
            r.body == RequestBody::Form(fields),
            r.method == self.method && r.url == self.url,
            header_model() ==> exists|k: String, v: String| k@ == "Content-Type"@
                && v@ == "application/x-www-form-urlencoded"@ && r.headers@ == self.headers@.insert(k, v),
    {
        let mut b = self.header("Content-Type", "application/x-www-form-urlencoded");
        b.body = RequestBody::Form(fields);
        b
    }

    /// Sends `text` as plain text, with the matching content type.
    pub fn body_text(self, text: &str) -> (r: Self)
        ensures
            r.body matches RequestBody::Text(t) && t@ == text@,
            r.method == self.method && r.url == self.url,
            header_model() ==> exists|k: String, v: String| k@ == "Content-Type"@ && v@ == "text/plain"@
                && r.headers@ == self.headers@.insert(k, v),
    {
        let mut b = self.header("Content-Type", "text/plain");
        b.body = RequestBody::Text(<String as StringExecFns>::from_str(text));
        b
    }

    /// Sends `bytes` as they are.
    pub fn body_bytes(self, bytes: Vec<u8>) -> (r: Self)
        ensures
            r.body == RequestBody::Bytes(bytes),
            r.method == self.method && r.url == self.url && r.headers == self.headers,
    {
        let mut b = self;
        b.body = RequestBody::Bytes(bytes);
        b
    }
}

/// A received response.
#[derive(Debug, Clone)]
pub struct RequestResponse {
    pub status: u16,
    pub status_text: String,
    pub headers: HashMap<String, String>,
    pub body: String,
    pub response_time_ms: u64,
    pub final_url: String,
}

impl RequestResponse {
    /// Whether the status is in the 2xx range.
    pub fn is_success(&self) -> (r: bool)
        ensures
            r == (200 <= self.status && self.status < 300),
    {
        200 <= self.status && self.status < 300
    }
}

/// What went wrong with a request.
#[derive(Debug, Clone, Copy, PartialEq, Eq, Structural)]
pub enum RequestErrorKind {
    Network,
    DnsResolution,
    Timeout,
    InvalidUrl,
    HttpStatus,
    Parse,
}

/// Name of an error kind.
pub open spec fn kind_name(k: RequestErrorKind) -> Seq<char> {
    match k {
        RequestErrorKind::Network => "Network"@,
        RequestErrorKind::DnsResolution => "DnsResolution"@,
        RequestErrorKind::Timeout => "Timeout"@,
        RequestErrorKind::InvalidUrl => "InvalidUrl"@,
        RequestErrorKind::HttpStatus => "HttpStatus"@,
        RequestErrorKind::Parse => "Parse"@,
    }
}

impl RequestErrorKind {
    /// Name of the kind.
    pub fn name(&self) -> (r: &'static str)
        ensures
            r@ == kind_name(*self),
    {
        match self {
            RequestErrorKind::Network => "Network",
            RequestErrorKind::DnsResolution => "DnsResolution",
            RequestErrorKind::Timeout => "Timeout",
            RequestErrorKind::InvalidUrl => "InvalidUrl",
            RequestErrorKind::HttpStatus => "HttpStatus",
            RequestErrorKind::Parse => "Parse",
        }
    }
}

/// A failed request: kind, message, and where known the URL and status code.
#[derive(Debug, Clone)]
pub struct RequestError {
    pub kind: RequestErrorKind,
    pub message: String,
    pub url: Option<String>,
    pub status_code: Option<u16>,
}

impl RequestError {
    pub fn new(kind: RequestErrorKind, message: &str) -> (r: Self)
        ensures
            r.kind == kind,
            r.message@ == message@,
            r.url is None,
            r.status_code is None,
    {
        RequestError { kind, message: <String as StringExecFns>::from_str(message), url: None, status_code: None }
    }

    /// Records the URL the request was for.
    pub fn with_url(self, url: &str) -> (r: Self)
        ensures
            r.kind == self.kind && r.message == self.message && r.status_code == self.status_code,
            r.url matches Some(u) && u@ == url@,
    {
        let mut e = self;
        e.url = Some(<String as StringExecFns>::from_str(url));
        e
    }

    /// Records the HTTP status code.
    pub fn with_status(self, status: u16) -> (r: Self)
        ensures
            r.kind == self.kind && r.message == self.message && r.url == self.url,
            r.status_code == Some(status),
    {
        let mut e = self;
        e.status_code = Some(status);
        e
    }

    /// The error as text: the kind's name, a colon and the message.
    pub fn to_string(&self) -> (r: String)
        ensures
            r@ == kind_name(self.kind) + ": "@ + self.message@,
    {
        let mut s = <String as StringExecFns>::from_str(self.kind.name());
        s.append(": ");
        s.append(self.message.as_str());
        s
    }
}

} // verus!
