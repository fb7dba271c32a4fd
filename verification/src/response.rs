//! HTTP responses and the conversions handler return values go through.
//!
//! A handler may return a string, a byte buffer, a bare status code, nothing
//! at all, or a `Result` either arm of which converts to a response.  Each
//! conversion is pinned down exactly; converting an error value into a
//! response that reports a success status is a programming mistake and is
//! ruled out at the conversion boundary.

use vstd::prelude::*;
use vstd::utf8::encode_utf8;

verus! {

/// An HTTP response: status line, headers, and a byte body.
#[derive(Debug)]
pub struct Response {
    pub status: u16,
    pub headers: Vec<(String, String)>,
    pub body: Vec<u8>,
}

/// The headers of a response, as pairs of character sequences.
pub open spec fn spec_headers(r: Response) -> Seq<(Seq<char>, Seq<char>)> {
    r.headers@.map_values(|p: (String, String)| (p.0@, p.1@))
}

/// Whether `status` lies in the HTTP success range.
pub open spec fn spec_is_success(status: u16) -> bool {
    200 <= status < 300
}

impl Response {
    /// A response with the given status and a single `content-type` header.
    fn with_content_type(status: u16, content_type: &str, body: Vec<u8>) -> (r: Response)
        ensures
            r.status == status,
            spec_headers(r) =~= seq![("content-type"@, content_type@)],
            r.body == body,
    {
        let mut headers: Vec<(String, String)> = Vec::new();
        let name = String::from_str("content-type");
        let value = String::from_str(content_type);
        headers.push((name, value));
        Response { status, headers, body }
    }

    /// The response an exhausted, empty middleware chain yields: success with
    /// no headers and no body.
    pub fn empty() -> (r: Response)
        ensures
            r.status == 200,
            r.headers@.len() == 0,
            r.body@.len() == 0,
    {
        Response { status: 200, headers: Vec::new(), body: Vec::new() }
    }

    /// The fixed response substituted when no route matches: not found, with
    /// an empty body.
    pub fn not_found() -> (r: Response)
        ensures
            r.status == 404,
            r.headers@.len() == 0,
            r.body@.len() == 0,
    {
        Response { status: 404, headers: Vec::new(), body: Vec::new() }
    }

    /// Whether the status reports success.
    pub fn is_success(&self) -> (b: bool)
        ensures
            b == spec_is_success(self.status),
    {
        200 <= self.status && self.status < 300
    }
}

/// A handler return value that converts into a [`Response`].
pub trait IntoResponse: Sized {
    /// Exactly which responses this value converts to.
    spec fn response_spec(self, r: Response) -> bool;

    /// Converts the value into its response.
    fn into_response(self) -> (r: Response)
        ensures
            self.response_spec(r),
    ;
}

impl IntoResponse for Response {
    open spec fn response_spec(self, r: Response) -> bool {
        r == self
    }

    fn into_response(self) -> (r: Response) {
        self
    }
}

/// A unit return converts to "no content".
impl IntoResponse for () {
    open spec fn response_spec(self, r: Response) -> bool {
        r.status == 204 && r.headers@.len() == 0 && r.body@.len() == 0
    }

    fn into_response(self) -> (r: Response) {
        Response { status: 204, headers: Vec::new(), body: Vec::new() }
    }
}

/// A bare status code converts to a response with that status and no body.
impl IntoResponse for u16 {
    open spec fn response_spec(self, r: Response) -> bool {
        r.status == self && r.headers@.len() == 0 && r.body@.len() == 0
    }

    fn into_response(self) -> (r: Response) {
        Response { status: self, headers: Vec::new(), body: Vec::new() }
    }
}

/// A byte buffer converts to a success response carrying it verbatim as an
/// octet stream.
impl IntoResponse for Vec<u8> {
    open spec fn response_spec(self, r: Response) -> bool {
        r.status == 200 && spec_headers(r) =~= seq![("content-type"@, "application/octet-stream"@)]
            && r.body@ == self@
    }

    fn into_response(self) -> (r: Response) {
        Response::with_content_type(200, "application/octet-stream", self)
    }
}

/// A string converts to a success response carrying its UTF-8 bytes as plain
/// text.
impl IntoResponse for String {
    open spec fn response_spec(self, r: Response) -> bool {
        r.status == 200 && spec_headers(r) =~= seq![("content-type"@, "text/plain; charset=utf-8"@)]
            && r.body@ == encode_utf8(self@)
    }

    fn into_response(self) -> (r: Response) {
        let body = self.as_str().as_bytes_vec();
        Response::with_content_type(200, "text/plain; charset=utf-8", body)
    }
}

/// A string slice converts exactly as the owned string does.
impl IntoResponse for &str {
    open spec fn response_spec(self, r: Response) -> bool {
        r.status == 200 && spec_headers(r) =~= seq![("content-type"@, "text/plain; charset=utf-8"@)]
            && r.body@ == encode_utf8(self@)
    }

    fn into_response(self) -> (r: Response) {
        let body = self.as_bytes_vec();
        Response::with_content_type(200, "text/plain; charset=utf-8", body)
    }
}

/// A response wrapper that overrides the status code of what it wraps.
#[derive(Debug)]
pub struct WithStatus<T> {
    pub inner: T,
    pub status: u16,
}

impl<T: IntoResponse> IntoResponse for WithStatus<T> {
    open spec fn response_spec(self, r: Response) -> bool {
        exists|r0: Response|
            self.inner.response_spec(r0) && r.status == self.status && r.headers == r0.headers
                && r.body == r0.body
    }

    fn into_response(self) -> (r: Response) {
        let mut r = self.inner.into_response();
        let ghost r0 = r;
        r.status = self.status;
        proof {
            assert(self.inner.response_spec(r0));
        }
        r
    }
}

/// Converts a handler's `Result` into a response: the `Ok` arm converts as
/// itself, the `Err` arm through its own conversion, which must not report
/// success.  An error whose conversion would claim a success status would
/// silently mask the failure — that builder-time mistake is excluded here.
pub fn result_into_response<T: IntoResponse, E: IntoResponse>(res: Result<T, E>) -> (r: Response)
    requires
        res matches Err(e) ==> forall|er: Response|
            e.response_spec(er) ==> !spec_is_success(er.status),
    ensures
        match res {
            Ok(t) => t.response_spec(r),
            Err(e) => e.response_spec(r) && !spec_is_success(r.status),
        },
{
    match res {
        Ok(t) => t.into_response(),
        Err(e) => e.into_response(),
    }
}

/// Wraps an HTML page in a success response carrying it as `text/html`.
pub fn html(body: &str) -> (r: Response)
    ensures
        r.status == 200,
        spec_headers(r) =~= seq![("content-type"@, "text/html; charset=utf-8"@)],
        r.body@ == encode_utf8(body@),
{
    let bytes = body.as_bytes_vec();
    Response::with_content_type(200, "text/html; charset=utf-8", bytes)
}

} // verus!
