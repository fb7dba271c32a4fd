//! The per-request context and the onion execution of a middleware chain.
//!
//! A resolved route hands a request its chain and captures; bundled with the
//! shared application state they form the `Context`.  The context drives
//! execution: `next` consumes the context, so no step can continue the chain
//! twice, pops the first remaining step, and runs it; a step may run the
//! rest of the chain first and then work on its response, which nests the
//! steps like brackets around the terminal handler.
//!
//! The built-in [`Step`] vocabulary is the verified middleware language:
//! wrapping layers, fixed text handlers, the not-found terminal, and a
//! handler echoing the captured parameter.  Middleware with effects outside
//! this vocabulary drives the same chain cursor through
//! [`Context::take_step`].

use std::sync::Arc;
use vstd::prelude::*;
use vstd::utf8::encode_utf8;

use crate::params::{pairs_of, wrong_arity_msg, Parameters};
use crate::response::{spec_headers, IntoResponse, Response, WithStatus};
use crate::shared::unwrap_arcs;

verus! {

/// A verified middleware step.
#[derive(Debug)]
pub enum Step {
    /// Runs the rest of the chain, then brackets the resulting body between
    /// `pre` and `post`.
    Wrap { pre: Vec<u8>, post: Vec<u8> },
    /// A terminal handler answering with a fixed text.
    Text(String),
    /// The terminal that answers "not found" with an empty body.
    NotFound,
    /// A terminal handler echoing the single captured parameter back as
    /// text; any other capture count reports the arity as a server error.
    EchoParam,
}

/// A response reduced to what contracts speak about: status, headers, body.
#[verifier::ext_equal]
pub struct RespModel {
    pub status: int,
    pub headers: Seq<(Seq<char>, Seq<char>)>,
    pub body: Seq<u8>,
}

/// The model of a concrete response.
pub open spec fn resp_model(r: Response) -> RespModel {
    RespModel { status: r.status as int, headers: spec_headers(r), body: r.body@ }
}

/// The model of the plain-text success response carrying `s`.
pub open spec fn text_model(s: Seq<char>) -> RespModel {
    RespModel {
        status: 200,
        headers: seq![("content-type"@, "text/plain; charset=utf-8"@)],
        body: encode_utf8(s),
    }
}

/// What running a chain of steps over the given captures yields.
pub open spec fn spec_run(chain: Seq<Step>, params: Seq<(Seq<char>, Seq<char>)>) -> RespModel
    decreases chain.len(),
{
    if chain.len() == 0 {
        RespModel { status: 200, headers: Seq::empty(), body: Seq::empty() }
    } else {
        match chain[0] {
            Step::Wrap { pre, post } => {
                let inner = spec_run(chain.drop_first(), params);
                RespModel {
                    status: inner.status,
                    headers: inner.headers,
                    body: pre@ + inner.body + post@,
                }
            },
            Step::Text(s) => text_model(s@),
            Step::NotFound => RespModel { status: 404, headers: Seq::empty(), body: Seq::empty() },
            Step::EchoParam => {
                if params.len() == 1 {
                    text_model(params[0].1)
                } else {
                    RespModel {
                        status: 500,
                        headers: seq![("content-type"@, "text/plain; charset=utf-8"@)],
                        body: encode_utf8(wrong_arity_msg(params.len() as int, 1)),
                    }
                }
            },
        }
    }
}

/// The per-request bundle: shared state, ordered captures, and the chain
/// still to run.
pub struct Context<State, M> {
    state: Arc<State>,
    params: Vec<(String, String)>,
    chain: Vec<Arc<M>>,
}

impl<State, M> Context<State, M> {
    /// The shared application state.
    pub closed spec fn spec_state(self) -> State {
        *self.state
    }

    /// The ordered (capture-name, captured-string) pairs of the request.
    pub closed spec fn spec_params(self) -> Seq<(Seq<char>, Seq<char>)> {
        pairs_of(self.params@)
    }

    /// The steps still to run, first to run first.
    pub closed spec fn spec_chain(self) -> Seq<M> {
        unwrap_arcs(self.chain@)
    }

    /// Bundles a request's resolved chain and captures with the shared
    /// state.
    pub fn new(state: Arc<State>, params: Vec<(String, String)>, chain: Vec<Arc<M>>) -> (cx:
        Context<State, M>)
        ensures
            cx.spec_state() == *state,
            cx.spec_params() == pairs_of(params@),
            cx.spec_chain() == unwrap_arcs(chain@),
    {
        Context { state, params, chain }
    }

    /// The shared state.
    pub fn state(&self) -> (s: &State)
        ensures
            *s == self.spec_state(),
    {
        &*self.state
    }

    /// The request's captures, ready to be decoded.
    pub fn params(&self) -> (p: Parameters)
        ensures
            p@ == self.spec_params(),
    {
        let mut items: Vec<(String, String)> = Vec::new();
        let n = self.params.len();
        let mut i: usize = 0;
        while i < n
            invariant
                i <= n,
                n == self.params@.len(),
                items@.len() == i,
                forall|j: int|
                    #![all_triggers]
                    0 <= j < i ==> items@[j].0@ == self.params@[j].0@ && items@[j].1@
                        == self.params@[j].1@,
            decreases n - i,
        {
            items.push((self.params[i].0.clone(), self.params[i].1.clone()));
            i = i + 1;
        }
        let p = Parameters::new(items);
        proof {
            assert(p@ =~= self.spec_params());
        }
        p
    }

    /// Hands out the next step of the chain, shortening it; the way a driver
    /// for steps outside the verified vocabulary advances.
    pub fn take_step(&mut self) -> (r: Option<Arc<M>>)
        ensures
            match r {
                None => old(self).spec_chain().len() == 0 && *final(self) == *old(self),
                Some(m) => old(self).spec_chain().len() > 0 && *m == old(self).spec_chain()[0]
                    && final(self).spec_chain() == old(self).spec_chain().drop_first()
                    && final(self).spec_params() == old(self).spec_params()
                    && final(self).spec_state() == old(self).spec_state(),
            },
    {
        if self.chain.len() == 0 {
            None
        } else {
            let m = self.chain.remove(0);
            proof {
                assert(unwrap_arcs(self.chain@) =~= unwrap_arcs(
                    old(self).chain@,
                ).drop_first());
            }
            Some(m)
        }
    }
}

/// Copies a byte vector.
fn copy_bytes(v: &Vec<u8>) -> (r: Vec<u8>)
    ensures
        r@ == v@,
{
    let mut r: Vec<u8> = Vec::new();
    let n = v.len();
    let mut i: usize = 0;
    while i < n
        invariant
            i <= n,
            n == v@.len(),
            r@.len() == i,
            forall|j: int| 0 <= j < i ==> r@[j] == v@[j],
        decreases n - i,
    {
        r.push(v[i]);
        i = i + 1;
    }
    proof {
        assert(r@ =~= v@);
    }
    r
}

impl<State> Context<State, Step> {
    /// Continues the chain: pops the first remaining step and runs it; an
    /// exhausted chain answers success with no content.  The context is
    /// consumed, so no step can continue the same context twice.
    pub fn next(self) -> (r: Response)
        ensures
            resp_model(r) == spec_run(self.spec_chain(), self.spec_params()),
    {
        let Context { state: _, params, chain } = self;
        run_chain(params, chain)
    }
}

/// Runs a chain of steps over the captures, first step outermost.
fn run_chain(params: Vec<(String, String)>, chain: Vec<Arc<Step>>) -> (r: Response)
    ensures
        resp_model(r) == spec_run(unwrap_arcs(chain@), pairs_of(params@)),
    decreases chain@.len(),
{
    let ghost whole = unwrap_arcs(chain@);
    let ghost ps = pairs_of(params@);
    let mut chain = chain;
    if chain.len() == 0 {
        let r = Response::empty();
        proof {
            assert(resp_model(r) =~~= spec_run(whole, ps));
        }
        r
    } else {
        let m = chain.remove(0);
        proof {
            assert(unwrap_arcs(chain@) =~= whole.drop_first());
            assert(whole[0] == *m);
        }
        match &*m {
            Step::Wrap { pre, post } => {
                let mut body = copy_bytes(pre);
                let mut post_copy = copy_bytes(post);
                let inner = run_chain(params, chain);
                let Response { status, headers, body: inner_body } = inner;
                let mut inner_body = inner_body;
                body.append(&mut inner_body);
                body.append(&mut post_copy);
                let r = Response { status, headers, body };
                proof {
                    assert(resp_model(r) =~~= spec_run(whole, ps));
                }
                r
            },
            Step::Text(s) => {
                let r = s.clone().into_response();
                proof {
                    assert(resp_model(r) =~~= spec_run(whole, ps));
                }
                r
            },
            Step::NotFound => {
                let r = Response::not_found();
                proof {
                    assert(resp_model(r) =~~= spec_run(whole, ps));
                }
                r
            },
            Step::EchoParam => {
                let prm = Parameters::new(params);
                let r = match prm.one_string() {
                    Ok(s) => s.into_response(),
                    Err(e) => {
                        let msg = e.message().clone();
                        (WithStatus { inner: msg, status: 500 }).into_response()
                    },
                };
                proof {
                    assert(resp_model(r) =~~= spec_run(whole, ps));
                }
                r
            },
        }
    }
}

/// The marks the wrapping layers of a chain lay down before the handler
/// runs, in chain order.
pub open spec fn pres_of(layers: Seq<Step>) -> Seq<u8>
    decreases layers.len(),
{
    if layers.len() == 0 {
        Seq::empty()
    } else {
        match layers[0] {
            Step::Wrap { pre, post } => pre@ + pres_of(layers.drop_first()),
            _ => Seq::empty(),
        }
    }
}

/// The marks the wrapping layers lay down after the handler has answered,
/// in reverse chain order.
pub open spec fn posts_of(layers: Seq<Step>) -> Seq<u8>
    decreases layers.len(),
{
    if layers.len() == 0 {
        Seq::empty()
    } else {
        match layers[0] {
            Step::Wrap { pre, post } => posts_of(layers.drop_first()) + post@,
            _ => Seq::empty(),
        }
    }
}

/// Onion ordering: running wrapping layers and a terminal text handler,
/// registered in that order, interleaves their marks as nested brackets —
/// every layer's `pre` falls before the handler's text in chain order, and
/// every layer's `post` after it in reverse chain order, the outermost
/// layer's marks first and last.
pub proof fn lemma_onion_order(
    layers: Seq<Step>,
    text: String,
    params: Seq<(Seq<char>, Seq<char>)>,
)
    requires
        forall|i: int| 0 <= i < layers.len() ==> (#[trigger] layers[i]) is Wrap,
    ensures
        spec_run(layers.push(Step::Text(text)), params).status == 200,
        spec_run(layers.push(Step::Text(text)), params).body == pres_of(layers) + encode_utf8(
            text@,
        ) + posts_of(layers),
    decreases layers.len(),
{
    let chain = layers.push(Step::Text(text));
    if layers.len() == 0 {
        assert(chain[0] == Step::Text(text));
        assert(pres_of(layers) + encode_utf8(text@) + posts_of(layers) =~= encode_utf8(text@));
    } else {
        assert(chain[0] == layers[0]);
        assert(chain.drop_first() =~= layers.drop_first().push(Step::Text(text)));
        lemma_onion_order(layers.drop_first(), text, params);
        let pre0 = layers[0]->Wrap_pre;
        let post0 = layers[0]->Wrap_post;
        assert(spec_run(chain, params).body =~= pres_of(layers) + encode_utf8(text@) + posts_of(
            layers,
        )) by {
            assert(pres_of(layers) == pre0@ + pres_of(layers.drop_first()));
            assert(posts_of(layers) == posts_of(layers.drop_first()) + post0@);
        }
    }
}

} // verus!
