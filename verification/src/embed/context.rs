//! What a custom SAPI knows of the request it serves.
use vstd::prelude::*;

verus! {

/// Request details a SAPI fills in before the request starts.
#[derive(Debug, Default, Clone)]
pub struct RequestInfo {
    /// The HTTP method (GET, POST, ...).
    pub request_method: Option<String>,
    /// The query string (after `?`).
    pub query_string: Option<String>,
    /// The full request URI.
    pub request_uri: Option<String>,
    /// The filesystem path of the script.
    pub path_translated: Option<String>,
    /// The Content-Type header.
    pub content_type: Option<String>,
    /// The Content-Length header.
    pub content_length: i64,
    /// The HTTP version: 1000 for HTTP/1.0, 1100 for HTTP/1.1, 2000 for HTTP/2.
    pub proto_num: u16,
    /// The HTTP Basic auth user name.
    pub auth_user: Option<String>,
    /// The HTTP Basic auth password.
    pub auth_password: Option<String>,
}

/// Per-request state of a custom SAPI: the bridge between a server's request
/// and PHP's view of it.
pub trait ServerContext: Sized {
    /// Fills in the request details before the request starts.
    fn init_request_info(&self, info: &mut RequestInfo);

    /// Reads a chunk of the POST body into `buf`; returns how many bytes it read.
    fn read_post(&mut self, buf: &mut [u8]) -> usize;

    /// The raw Cookie header, if any.
    fn read_cookies(&self) -> Option<&str>;

    /// Marks the response complete; `false` when it already was.
    fn finish_request(&mut self) -> bool;

    /// Whether the response is already complete.
    fn is_request_finished(&self) -> bool;
}

} // verus!
