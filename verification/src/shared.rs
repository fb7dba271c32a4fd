//! Shared ownership of middleware.
//!
//! One middleware object may sit in many route chains; chains therefore hold
//! reference-counted handles, and duplicating a chain duplicates handles,
//! never the middleware itself.

use std::sync::Arc;
use vstd::prelude::*;

verus! {

/// The middleware values behind a sequence of shared handles.
pub open spec fn unwrap_arcs<M>(s: Seq<Arc<M>>) -> Seq<M> {
    s.map_values(|a: Arc<M>| *a)
}

/// Relies on Arc::clone: the clone shares the allocation, so it holds the
/// same value as the original.
#[verifier::external_body]
pub(crate) fn arc_clone<T>(a: &Arc<T>) -> (r: Arc<T>)
    ensures
        *r == **a,
{
    Arc::clone(a)
}

/// Duplicates a chain of shared handles, handle by handle.
pub(crate) fn clone_chain<M>(chain: &Vec<Arc<M>>) -> (r: Vec<Arc<M>>)
    ensures
        unwrap_arcs(r@) == unwrap_arcs(chain@),
{
    let mut r: Vec<Arc<M>> = Vec::new();
    let n = chain.len();
    let mut i: usize = 0;
    while i < n
        invariant
            i <= n,
            n == chain@.len(),
            r@.len() == i,
            forall|j: int| 0 <= j < i ==> *r@[j] == *chain@[j],
        decreases n - i,
    {
        r.push(arc_clone(&chain[i]));
        i = i + 1;
    }
    proof {
        assert(unwrap_arcs(r@) =~= unwrap_arcs(chain@));
    }
    r
}

} // verus!
