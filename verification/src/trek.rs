//! The application entry type: shared state plus the router built for it.

use vstd::prelude::*;

use crate::router::Router;

verus! {

/// An application: its shared state and the router its routes go into.
/// Serving — binding an address and feeding requests to the router — is the
/// surrounding transport's work.
pub struct Trek<State, M> {
    pub state: State,
    pub router: Router<M>,
}

impl<State, M> Trek<State, M> {
    /// An application around the given state, with a fresh router.
    pub fn with_state(state: State) -> (t: Trek<State, M>)
        ensures
            t.state == state,
            t.router.wf(),
            t.router.spec_path() == "/"@,
            t.router.spec_middleware() == Seq::<M>::empty(),
            forall|method: crate::method::Method, p: Seq<char>|
                t.router.spec_route(method, p) is None,
    {
        Trek { state, router: Router::new() }
    }

}

impl<M> Default for Trek<(), M> {
    fn default() -> (t: Trek<(), M>)
        ensures
            t.router.wf(),
            t.router.spec_path() == "/"@,
            t.router.spec_middleware() == Seq::<M>::empty(),
    {
        Trek::new()
    }
}

impl<M> Trek<(), M> {
    /// An application with no shared state.
    pub fn new() -> (t: Trek<(), M>)
        ensures
            t.router.wf(),
            t.router.spec_path() == "/"@,
            t.router.spec_middleware() == Seq::<M>::empty(),
            forall|method: crate::method::Method, p: Seq<char>|
                t.router.spec_route(method, p) is None,
    {
        Trek::with_state(())
    }
}

} // verus!
