//! The middleware the crate ships.
//!
//! `NotFound` is the fixed terminal for unmatched requests; its response is
//! computed here and proved.  `Logger` and `CookiesMiddleware` are carried
//! as registrable markers: what they do at request time — clock reads, log
//! output, header parsing through a cookie jar — is effectful work a driver
//! performs around the chain.

use vstd::prelude::*;

use crate::context::Context;
use crate::response::Response;

verus! {

/// Logs each request's method, path, status and elapsed time around the
/// rest of the chain.
#[derive(Debug, Clone)]
pub struct Logger;

impl Logger {
    /// A logging middleware marker.
    pub fn new() -> Logger {
        Logger
    }
}

impl Default for Logger {
    fn default() -> Logger {
        Logger
    }
}

/// The terminal middleware for requests no route matched.
#[derive(Debug, Clone)]
pub struct NotFound;

impl Default for NotFound {
    fn default() -> NotFound {
        NotFound
    }
}

impl NotFound {
    /// A not-found terminal.
    pub fn new() -> NotFound {
        NotFound
    }

    /// Answers any request with the fixed not-found response; the context
    /// is consumed and the rest of its chain never runs.
    pub fn call<State, M>(&self, cx: Context<State, M>) -> (r: Response)
        ensures
            r.status == 404,
            r.headers@.len() == 0,
            r.body@.len() == 0,
    {
        let _ = cx;
        Response::not_found()
    }
}

/// Puts the request's cookies at the chain's disposal and injects the
/// changed ones into the response as it passes back out.
#[derive(Debug, Clone)]
pub struct CookiesMiddleware;

impl Default for CookiesMiddleware {
    fn default() -> CookiesMiddleware {
        CookiesMiddleware
    }
}

impl CookiesMiddleware {
    /// A cookie middleware marker.
    pub fn new() -> CookiesMiddleware {
        CookiesMiddleware
    }
}

} // verus!
