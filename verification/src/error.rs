//! Request-level errors and their fixed mapping onto responses.
//!
//! An error a handler or middleware produces never leaves the dispatch core
//! as a failure: it becomes a response.  The mapping is by condition: a
//! not-found condition answers not found, a permission condition answers
//! forbidden, anything else answers as an internal error.  A rendered error
//! carries its message as a plain-text body.

use vstd::prelude::*;
use vstd::utf8::encode_utf8;

use crate::response::{spec_headers, IntoResponse, Response};

verus! {

/// The condition a request-level error reports.
#[derive(Clone, Copy, Debug, PartialEq, Eq, Structural)]
pub enum RequestErrorKind {
    /// Something the request referred to does not exist.
    NotFound,
    /// The request may not touch what it referred to.
    PermissionDenied,
    /// Any other failure.
    Other,
}

/// A request-level error: its condition and a message for the body.
#[derive(Debug)]
pub struct RequestError {
    pub kind: RequestErrorKind,
    pub message: String,
}

impl RequestErrorKind {
    /// The status code the condition maps to.
    pub open spec fn spec_status(self) -> u16 {
        match self {
            RequestErrorKind::NotFound => 404,
            RequestErrorKind::PermissionDenied => 403,
            RequestErrorKind::Other => 500,
        }
    }

    /// Maps the condition to its status code.
    pub fn status(self) -> (s: u16)
        ensures
            s == self.spec_status(),
    {
        match self {
            RequestErrorKind::NotFound => 404,
            RequestErrorKind::PermissionDenied => 403,
            RequestErrorKind::Other => 500,
        }
    }
}

impl RequestError {
    /// An error of the given condition, with its message.
    pub fn new(kind: RequestErrorKind, message: String) -> (e: RequestError)
        ensures
            e.kind == kind,
            e.message == message,
    {
        RequestError { kind, message }
    }

    /// The bare response of the error: its condition's status, no body.
    pub fn error_response(&self) -> (r: Response)
        ensures
            r.status == self.kind.spec_status(),
            r.headers@.len() == 0,
            r.body@.len() == 0,
    {
        let r = Response { status: self.kind.status(), headers: Vec::new(), body: Vec::new() };
        r
    }

    /// The rendered response of the error: its condition's status over the
    /// message as a plain-text body.
    pub fn render_response(&self) -> (r: Response)
        ensures
            r.status == self.kind.spec_status(),
            spec_headers(r) =~= seq![("content-type"@, "text/plain; charset=utf-8"@)],
            r.body@ == encode_utf8(self.message@),
    {
        let mut headers: Vec<(String, String)> = Vec::new();
        headers.push((
            String::from_str("content-type"),
            String::from_str("text/plain; charset=utf-8"),
        ));
        let body = self.message.as_str().as_bytes_vec();
        Response { status: self.kind.status(), headers, body }
    }
}

/// An error converts to its bare response, never to a success.
impl IntoResponse for RequestError {
    open spec fn response_spec(self, r: Response) -> bool {
        r.status == self.kind.spec_status() && r.headers@.len() == 0 && r.body@.len() == 0
            && !crate::response::spec_is_success(r.status)
    }

    fn into_response(self) -> (r: Response) {
        self.error_response()
    }
}

} // verus!
