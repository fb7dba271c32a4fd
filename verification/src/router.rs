//! The router: builds the route table and resolves requests against it.
//!
//! Building is a single-threaded phase: routes are registered under an HTTP
//! method and a pattern, each carrying the router's accumulated middleware
//! prefix plus the route's own handler as the terminal element of its chain.
//! Scoped groups share a path prefix and inherit the middleware registered
//! before the scope began; what a scope adds stays inside it.  Once built,
//! the table is read-only: `find` resolves a method and concrete path to a
//! stored chain and the ordered captures.

use std::sync::Arc;
use vstd::prelude::*;

use path_tree::PathTree;

use crate::inflect::{plural_of, singular_of, to_plural, to_singular};
use crate::matcher::{
    normal_of, spec_tree_find, tree_clone, tree_entries, tree_find, tree_insert, tree_new,
};
use crate::method::{Method, METHOD_COUNT};
use crate::params::pairs_of;
use crate::paths::{after_last_slash, join_paths, last_segment, spec_join_paths};
use crate::resources::{rename_id_param, spec_rename_id, Resource, Resources};
use crate::shared::{arc_clone, clone_chain, unwrap_arcs};

verus! {

/// What registering one route does to a route table: the sub-path is joined
/// onto the router's path, the joined pattern is stored under its
/// normalized form — so a pattern that normalizes like an earlier one
/// replaces it, as the matcher's trie does — and the stored chain is the
/// middleware prefix with the handler as terminal element.
pub open spec fn spec_register<M>(
    routes: Map<(int, Seq<char>), Seq<M>>,
    base: Seq<char>,
    mids: Seq<M>,
    method: Method,
    sub: Seq<char>,
    handler: M,
) -> Map<(int, Seq<char>), Seq<M>> {
    routes.insert(
        (method.spec_index(), normal_of(spec_join_paths(base, sub))),
        mids.push(handler),
    )
}

/// The router: one pattern tree per HTTP method, the chains those trees
/// point into, and the middleware prefix future registrations will carry.
pub struct Router<M> {
    path: String,
    middleware: Vec<Arc<M>>,
    chains: Vec<Vec<Arc<M>>>,
    trees: Vec<PathTree<usize>>,
}

impl<M> Default for Router<M> {
    fn default() -> (r: Router<M>)
        ensures
            r.wf(),
            r.spec_path() == "/"@,
            r.spec_middleware() == Seq::<M>::empty(),
            forall|method: Method, p: Seq<char>| r.spec_route(method, p) is None,
    {
        Router::new()
    }
}

impl<M> Router<M> {
    /// The absolute path prefix registrations are joined onto.
    pub closed spec fn spec_path(self) -> Seq<char> {
        self.path@
    }

    /// The middleware prefix a route registered now would carry.
    pub closed spec fn spec_middleware(self) -> Seq<M> {
        unwrap_arcs(self.middleware@)
    }

    /// The pattern-to-chain-index table of one method.
    spec fn entries(self, mi: int) -> Map<Seq<char>, usize> {
        tree_entries(self.trees@[mi])
    }

    /// The middleware chain stored at one index.
    spec fn chain_at(self, i: int) -> Seq<M> {
        unwrap_arcs(self.chains@[i]@)
    }

    /// The router is well formed: one tree per method, and every tree entry
    /// points at a stored chain.
    pub closed spec fn wf(self) -> bool {
        &&& self.trees@.len() == METHOD_COUNT
        &&& forall|mi: int, p: Seq<char>|
            #![trigger self.entries(mi).dom().contains(p)]
            0 <= mi < METHOD_COUNT && self.entries(mi).dom().contains(p) ==> self.entries(mi)[p]
                < self.chains@.len()
    }

    /// The route table: for each (method index, normalized pattern) pair,
    /// the chain that a hit on that pattern runs.
    pub closed spec fn routes(self) -> Map<(int, Seq<char>), Seq<M>> {
        Map::new(
            |k: (int, Seq<char>)| 0 <= k.0 < METHOD_COUNT && self.entries(k.0).dom().contains(k.1),
            |k: (int, Seq<char>)| self.chain_at(self.entries(k.0)[k.1] as int),
        )
    }

    /// The chain stored under a method and a table key — a pattern in its
    /// normalized form — if any.
    pub open spec fn spec_route_at(self, method: Method, key: Seq<char>) -> Option<Seq<M>> {
        if self.routes().dom().contains((method.spec_index(), key)) {
            Some(self.routes()[(method.spec_index(), key)])
        } else {
            None
        }
    }

    /// The chain registered under a method and pattern, if any.  Patterns
    /// are looked up by their normalized form, as the matcher stores them.
    pub open spec fn spec_route(self, method: Method, pattern: Seq<char>) -> Option<Seq<M>> {
        self.spec_route_at(method, normal_of(pattern))
    }

    /// The absolute path prefix registrations are joined onto.
    pub fn path(&self) -> (p: &String)
        ensures
            p@ == self.spec_path(),
    {
        &self.path
    }

    /// A fresh router: rooted at `/`, no middleware, no routes.
    pub fn new() -> (r: Router<M>)
        ensures
            r.wf(),
            r.spec_path() == "/"@,
            r.spec_middleware() == Seq::<M>::empty(),
            forall|method: Method, p: Seq<char>| r.spec_route(method, p) is None,
    {
        let mut trees: Vec<PathTree<usize>> = Vec::new();
        let mut i: usize = 0;
        while i < METHOD_COUNT
            invariant
                i <= METHOD_COUNT,
                trees@.len() == i,
                forall|j: int|
                    #![trigger trees@[j]]
                    0 <= j < i ==> tree_entries(trees@[j]) =~= Map::empty(),
            decreases METHOD_COUNT - i,
        {
            trees.push(tree_new());
            i = i + 1;
        }
        let r = Router {
            path: String::from_str("/"),
            middleware: Vec::new(),
            chains: Vec::new(),
            trees,
        };
        proof {
            assert(unwrap_arcs(r.middleware@) =~= Seq::<M>::empty());
            assert forall|method: Method, p: Seq<char>| r.spec_route(method, p) is None by {
                assert(!r.entries(method.spec_index()).dom().contains(normal_of(p)));
            }
        }
        r
    }

    /// Appends a middleware step to the prefix that routes registered from
    /// now on will carry.  Already registered routes are untouched.
    pub fn middleware(&mut self, m: M)
        requires
            old(self).wf(),
        ensures
            final(self).wf(),
            final(self).spec_path() == old(self).spec_path(),
            final(self).spec_middleware() == old(self).spec_middleware().push(m),
            final(self).routes() == old(self).routes(),
    {
        self.middleware.push(Arc::new(m));
        proof {
            assert(unwrap_arcs(self.middleware@) =~= unwrap_arcs(
                old(self).middleware@,
            ).push(m));
            self.lemma_same_table(*old(self));
        }
    }

    /// Empties the middleware prefix.  Already registered routes are
    /// untouched.
    pub fn clear_middleware(&mut self)
        requires
            old(self).wf(),
        ensures
            final(self).wf(),
            final(self).spec_path() == old(self).spec_path(),
            final(self).spec_middleware() == Seq::<M>::empty(),
            final(self).routes() == old(self).routes(),
    {
        self.middleware.clear();
        proof {
            assert(unwrap_arcs(self.middleware@) =~= Seq::<M>::empty());
            self.lemma_same_table(*old(self));
        }
    }

    /// Two routers with the same trees and chains have the same route table,
    /// and one is well formed when the other is.
    proof fn lemma_same_table(self, other: Router<M>)
        requires
            self.trees == other.trees,
            self.chains == other.chains,
            other.wf(),
        ensures
            self.wf(),
            self.routes() == other.routes(),
    {
        assert forall|mi: int, p: Seq<char>|
            0 <= mi < METHOD_COUNT && #[trigger] self.entries(mi).dom().contains(
                p,
            ) implies self.entries(mi)[p] < self.chains@.len() by {
            assert(self.entries(mi) == other.entries(mi));
            assert(other.entries(mi).dom().contains(p));
        }
        assert forall|k: (int, Seq<char>)|
            self.routes().dom().contains(k) == other.routes().dom().contains(k) by {
            if 0 <= k.0 < METHOD_COUNT {
                assert(self.entries(k.0) == other.entries(k.0));
            }
        }
        assert forall|k: (int, Seq<char>)| #[trigger]
            other.routes().dom().contains(k) implies self.routes()[k] == other.routes()[k] by {
            assert(self.entries(k.0) == other.entries(k.0));
        }
        assert(self.routes() =~= other.routes());
    }

    /// Registers a route whose handler is already behind a shared handle.
    fn handle_arc(&mut self, method: Method, path: &str, handler: &Arc<M>)
        requires
            old(self).wf(),
        ensures
            final(self).wf(),
            final(self).spec_path() == old(self).spec_path(),
            final(self).spec_middleware() == old(self).spec_middleware(),
            final(self).routes() == spec_register(
                old(self).routes(),
                old(self).spec_path(),
                old(self).spec_middleware(),
                method,
                path@,
                **handler,
            ),
    {
        let pat = join_paths(self.path.as_str(), path);
        let mut chain = clone_chain(&self.middleware);
        chain.push(arc_clone(handler));
        proof {
            assert(unwrap_arcs(chain@) =~= old(self).spec_middleware().push(**handler));
        }
        let idx = self.chains.len();
        self.chains.push(chain);
        proof {
            assert(self.chain_at(idx as int) == old(self).spec_middleware().push(**handler));
        }
        let mi = method.index();
        let mut tree = self.trees.remove(mi);
        proof {
            assert(tree_entries(tree) == old(self).entries(mi as int));
        }
        tree_insert(&mut tree, pat.as_str(), idx);
        let ghost entries_after = tree_entries(tree);
        self.trees.insert(mi, tree);
        proof {
            let ghost mii = method.spec_index();
            let ghost patv = normal_of(spec_join_paths(old(self).spec_path(), path@));
            assert(self.entries(mii) == entries_after);
            assert(entries_after == old(self).entries(mii).insert(patv, idx));
            assert forall|mj: int| 0 <= mj < METHOD_COUNT && mj != mii implies self.trees@[mj]
                == old(self).trees@[mj] by {}
            Self::lemma_register_table(*old(self), *self, method, patv, idx);
            assert(self.routes() =~= spec_register(
                old(self).routes(),
                old(self).spec_path(),
                old(self).spec_middleware(),
                method,
                path@,
                **handler,
            ));
            assert(unwrap_arcs(self.middleware@) =~= unwrap_arcs(old(self).middleware@));
        }
    }

    /// Inserting one pattern into one method's tree, with its chain stored
    /// at a fresh index, registers exactly that route and keeps the rest of
    /// the table.
    proof fn lemma_register_table(
        old_r: Router<M>,
        new_r: Router<M>,
        method: Method,
        patv: Seq<char>,
        idx: usize,
    )
        requires
            old_r.wf(),
            new_r.trees@.len() == METHOD_COUNT,
            forall|mj: int|
                0 <= mj < METHOD_COUNT && mj != method.spec_index() ==> new_r.trees@[mj] == old_r.trees@[mj],
            new_r.entries(method.spec_index()) == old_r.entries(method.spec_index()).insert(
                patv,
                idx,
            ),
            idx == old_r.chains@.len(),
            new_r.chains@.len() == old_r.chains@.len() + 1,
            forall|i: int| 0 <= i < old_r.chains@.len() ==> new_r.chains@[i] == old_r.chains@[i],
        ensures
            new_r.wf(),
            new_r.routes() == old_r.routes().insert(
                (method.spec_index(), patv),
                new_r.chain_at(idx as int),
            ),
    {
        let mii = method.spec_index();
        assert forall|mj: int, p: Seq<char>|
            0 <= mj < METHOD_COUNT && #[trigger] new_r.entries(mj).dom().contains(
                p,
            ) implies new_r.entries(mj)[p] < new_r.chains@.len() by {
            if mj == mii {
                if p != patv {
                    assert(old_r.entries(mj).dom().contains(p));
                }
            } else {
                assert(new_r.entries(mj) == old_r.entries(mj));
                assert(old_r.entries(mj).dom().contains(p));
            }
        }
        let target = old_r.routes().insert((mii, patv), new_r.chain_at(idx as int));
        assert forall|k: (int, Seq<char>)|
            new_r.routes().dom().contains(k) == target.dom().contains(k) by {
            if 0 <= k.0 < METHOD_COUNT && k.0 != mii {
                assert(new_r.entries(k.0) == old_r.entries(k.0));
            }
        }
        assert forall|k: (int, Seq<char>)| #[trigger]
            target.dom().contains(k) implies new_r.routes()[k] == target[k] by {
            if k == (mii, patv) {
                assert(new_r.entries(mii)[patv] == idx);
            } else {
                assert(old_r.routes().dom().contains(k));
                let oi = old_r.entries(k.0)[k.1];
                assert(oi < old_r.chains@.len());
                if k.0 == mii {
                    assert(new_r.entries(mii)[k.1] == oi);
                } else {
                    assert(new_r.entries(k.0) == old_r.entries(k.0));
                }
                assert(new_r.chains@[oi as int] == old_r.chains@[oi as int]);
            }
        }
        assert(new_r.routes() =~= target);
    }

    /// Registers `handler` for requests of `method` at the sub-path, which
    /// is joined onto the router's path.  The stored chain is the current
    /// middleware prefix with the handler last.
    pub fn handle(&mut self, method: Method, path: &str, handler: M)
        requires
            old(self).wf(),
        ensures
            final(self).wf(),
            final(self).spec_path() == old(self).spec_path(),
            final(self).spec_middleware() == old(self).spec_middleware(),
            final(self).routes() == spec_register(
                old(self).routes(),
                old(self).spec_path(),
                old(self).spec_middleware(),
                method,
                path@,
                handler,
            ),
    {
        self.handle_arc(method, path, &Arc::new(handler));
    }

    /// Registers `handler` for GET requests at the sub-path.
    pub fn get(&mut self, path: &str, handler: M)
        requires
            old(self).wf(),
        ensures
            final(self).wf(),
            final(self).spec_path() == old(self).spec_path(),
            final(self).spec_middleware() == old(self).spec_middleware(),
            final(self).routes() == spec_register(
                old(self).routes(),
                old(self).spec_path(),
                old(self).spec_middleware(),
                Method::Get,
                path@,
                handler,
            ),
    {
        self.handle(Method::Get, path, handler);
    }

    /// Registers `handler` for POST requests at the sub-path.
    pub fn post(&mut self, path: &str, handler: M)
        requires
            old(self).wf(),
        ensures
            final(self).wf(),
            final(self).spec_path() == old(self).spec_path(),
            final(self).spec_middleware() == old(self).spec_middleware(),
            final(self).routes() == spec_register(
                old(self).routes(),
                old(self).spec_path(),
                old(self).spec_middleware(),
                Method::Post,
                path@,
                handler,
            ),
    {
        self.handle(Method::Post, path, handler);
    }

    /// Registers `handler` for PUT requests at the sub-path.
    pub fn put(&mut self, path: &str, handler: M)
        requires
            old(self).wf(),
        ensures
            final(self).wf(),
            final(self).spec_path() == old(self).spec_path(),
            final(self).spec_middleware() == old(self).spec_middleware(),
            final(self).routes() == spec_register(
                old(self).routes(),
                old(self).spec_path(),
                old(self).spec_middleware(),
                Method::Put,
                path@,
                handler,
            ),
    {
        self.handle(Method::Put, path, handler);
    }

    /// Registers `handler` for PATCH requests at the sub-path.
    pub fn patch(&mut self, path: &str, handler: M)
        requires
            old(self).wf(),
        ensures
            final(self).wf(),
            final(self).spec_path() == old(self).spec_path(),
            final(self).spec_middleware() == old(self).spec_middleware(),
            final(self).routes() == spec_register(
                old(self).routes(),
                old(self).spec_path(),
                old(self).spec_middleware(),
                Method::Patch,
                path@,
                handler,
            ),
    {
        self.handle(Method::Patch, path, handler);
    }

    /// Registers `handler` for DELETE requests at the sub-path.
    pub fn delete(&mut self, path: &str, handler: M)
        requires
            old(self).wf(),
        ensures
            final(self).wf(),
            final(self).spec_path() == old(self).spec_path(),
            final(self).spec_middleware() == old(self).spec_middleware(),
            final(self).routes() == spec_register(
                old(self).routes(),
                old(self).spec_path(),
                old(self).spec_middleware(),
                Method::Delete,
                path@,
                handler,
            ),
    {
        self.handle(Method::Delete, path, handler);
    }

    /// Registers `handler` for HEAD requests at the sub-path.
    pub fn head(&mut self, path: &str, handler: M)
        requires
            old(self).wf(),
        ensures
            final(self).wf(),
            final(self).spec_path() == old(self).spec_path(),
            final(self).spec_middleware() == old(self).spec_middleware(),
            final(self).routes() == spec_register(
                old(self).routes(),
                old(self).spec_path(),
                old(self).spec_middleware(),
                Method::Head,
                path@,
                handler,
            ),
    {
        self.handle(Method::Head, path, handler);
    }

    /// Registers `handler` for OPTIONS requests at the sub-path.
    pub fn options(&mut self, path: &str, handler: M)
        requires
            old(self).wf(),
        ensures
            final(self).wf(),
            final(self).spec_path() == old(self).spec_path(),
            final(self).spec_middleware() == old(self).spec_middleware(),
            final(self).routes() == spec_register(
                old(self).routes(),
                old(self).spec_path(),
                old(self).spec_middleware(),
                Method::Options,
                path@,
                handler,
            ),
    {
        self.handle(Method::Options, path, handler);
    }

    /// Registers `handler` for CONNECT requests at the sub-path.
    pub fn connect(&mut self, path: &str, handler: M)
        requires
            old(self).wf(),
        ensures
            final(self).wf(),
            final(self).spec_path() == old(self).spec_path(),
            final(self).spec_middleware() == old(self).spec_middleware(),
            final(self).routes() == spec_register(
                old(self).routes(),
                old(self).spec_path(),
                old(self).spec_middleware(),
                Method::Connect,
                path@,
                handler,
            ),
    {
        self.handle(Method::Connect, path, handler);
    }

    /// Registers `handler` for TRACE requests at the sub-path.
    pub fn trace(&mut self, path: &str, handler: M)
        requires
            old(self).wf(),
        ensures
            final(self).wf(),
            final(self).spec_path() == old(self).spec_path(),
            final(self).spec_middleware() == old(self).spec_middleware(),
            final(self).routes() == spec_register(
                old(self).routes(),
                old(self).spec_path(),
                old(self).spec_middleware(),
                Method::Trace,
                path@,
                handler,
            ),
    {
        self.handle(Method::Trace, path, handler);
    }

    /// Registers the same handler under every standard HTTP method at the
    /// sub-path.
    pub fn any(&mut self, path: &str, handler: M)
        requires
            old(self).wf(),
        ensures
            final(self).wf(),
            final(self).spec_path() == old(self).spec_path(),
            final(self).spec_middleware() == old(self).spec_middleware(),
            final(self).routes() == spec_register_many(
                old(self).routes(),
                old(self).spec_path(),
                old(self).spec_middleware(),
                Method::spec_all(),
                path@,
                handler,
            ),
            forall|m: Method|
                final(self).spec_route(m, spec_join_paths(old(self).spec_path(), path@)) == Some(
                    old(self).spec_middleware().push(handler),
                ),
            forall|m: Method, p: Seq<char>|
                normal_of(p) != normal_of(spec_join_paths(old(self).spec_path(), path@))
                    ==> final(self).spec_route(m, p) == old(self).spec_route(m, p),
    {
        let a = Arc::new(handler);
        let methods = Method::all();
        let n = methods.len();
        let mut i: usize = 0;
        while i < n
            invariant
                i <= n,
                n == METHOD_COUNT,
                methods@ == Method::spec_all(),
                self.wf(),
                self.spec_path() == old(self).spec_path(),
                self.spec_middleware() == old(self).spec_middleware(),
                self.routes() == spec_register_many(
                    old(self).routes(),
                    old(self).spec_path(),
                    old(self).spec_middleware(),
                    Method::spec_all().take(i as int),
                    path@,
                    *a,
                ),
            decreases n - i,
        {
            self.handle_arc(methods[i], path, &a);
            proof {
                assert(Method::spec_all().take(i + 1).drop_last() =~= Method::spec_all().take(
                    i as int,
                ));
            }
            i = i + 1;
        }
        proof {
            assert(Method::spec_all().take(METHOD_COUNT as int) =~= Method::spec_all());
            assert forall|m: Method|
                self.spec_route(m, spec_join_paths(old(self).spec_path(), path@)) == Some(
                    old(self).spec_middleware().push(*a),
                ) by {
                Method::lemma_all_complete(m);
                lemma_register_many_lookup(
                    old(self).routes(),
                    old(self).spec_path(),
                    old(self).spec_middleware(),
                    Method::spec_all(),
                    path@,
                    *a,
                    m,
                    normal_of(spec_join_paths(old(self).spec_path(), path@)),
                );
            }
            assert forall|m: Method, p: Seq<char>|
                normal_of(p) != normal_of(
                    spec_join_paths(old(self).spec_path(), path@),
                ) implies self.spec_route(m, p) == old(self).spec_route(m, p) by {
                lemma_register_many_lookup(
                    old(self).routes(),
                    old(self).spec_path(),
                    old(self).spec_middleware(),
                    Method::spec_all(),
                    path@,
                    *a,
                    m,
                    normal_of(p),
                );
            }
        }
    }

    /// Opens a scope: a derived router whose path is the parent's with the
    /// prefix joined on, whose middleware prefix starts as a copy of the
    /// parent's, and whose route table starts as a copy of the parent's.
    /// A prefix that leaves the path unchanged is a builder mistake and is
    /// excluded.  The derived router is registered against independently;
    /// [`Router::merge`] carries its routes back.
    pub fn scope(&self, path: &str) -> (child: Router<M>)
        requires
            self.wf(),
            spec_join_paths(self.spec_path(), path@) != self.spec_path(),
        ensures
            child.wf(),
            child.spec_path() == spec_join_paths(self.spec_path(), path@),
            child.spec_middleware() == self.spec_middleware(),
            child.routes() == self.routes(),
    {
        let new_path = join_paths(self.path.as_str(), path);
        let mut trees: Vec<PathTree<usize>> = Vec::new();
        let mut i: usize = 0;
        while i < METHOD_COUNT
            invariant
                i <= METHOD_COUNT,
                self.wf(),
                trees@.len() == i,
                forall|j: int|
                    #![trigger trees@[j]]
                    0 <= j < i ==> tree_entries(trees@[j]) == tree_entries(self.trees@[j]),
            decreases METHOD_COUNT - i,
        {
            trees.push(tree_clone(&self.trees[i]));
            i = i + 1;
        }
        let mut chains: Vec<Vec<Arc<M>>> = Vec::new();
        let n = self.chains.len();
        let mut i: usize = 0;
        while i < n
            invariant
                i <= n,
                n == self.chains@.len(),
                chains@.len() == i,
                forall|j: int|
                    #![trigger chains@[j]]
                    0 <= j < i ==> unwrap_arcs(chains@[j]@) == unwrap_arcs(self.chains@[j]@),
            decreases n - i,
        {
            chains.push(clone_chain(&self.chains[i]));
            i = i + 1;
        }
        let child = Router {
            path: new_path,
            middleware: clone_chain(&self.middleware),
            chains,
            trees,
        };
        proof {
            Self::lemma_matching_table(*self, child);
        }
        child
    }

    /// Merges a scope's route table back into this router: the routes become
    /// the child's, while this router's own path and middleware prefix stay
    /// as they were.
    pub fn merge(&mut self, child: Router<M>)
        requires
            old(self).wf(),
            child.wf(),
        ensures
            final(self).wf(),
            final(self).spec_path() == old(self).spec_path(),
            final(self).spec_middleware() == old(self).spec_middleware(),
            final(self).routes() == child.routes(),
    {
        let Router { path: _, middleware: _, chains, trees } = child;
        self.chains = chains;
        self.trees = trees;
        proof {
            Self::lemma_matching_table(child, *self);
        }
    }

    /// Two routers whose trees hold the same entries and whose chain stores
    /// hold the same chains have the same route table.
    proof fn lemma_matching_table(a: Router<M>, b: Router<M>)
        requires
            a.wf(),
            b.trees@.len() == METHOD_COUNT,
            forall|mi: int| 0 <= mi < METHOD_COUNT ==> b.entries(mi) == a.entries(mi),
            b.chains@.len() == a.chains@.len(),
            forall|i: int| 0 <= i < a.chains@.len() ==> b.chain_at(i) == a.chain_at(i),
        ensures
            b.wf(),
            b.routes() == a.routes(),
    {
        assert forall|mi: int, p: Seq<char>|
            0 <= mi < METHOD_COUNT && #[trigger] b.entries(mi).dom().contains(
                p,
            ) implies b.entries(mi)[p] < b.chains@.len() by {
            assert(a.entries(mi).dom().contains(p));
        }
        assert forall|k: (int, Seq<char>)|
            b.routes().dom().contains(k) == a.routes().dom().contains(k) by {}
        assert forall|k: (int, Seq<char>)| #[trigger]
            a.routes().dom().contains(k) implies b.routes()[k] == a.routes()[k] by {
            assert(a.entries(k.0)[k.1] < a.chains@.len());
        }
        assert(b.routes() =~= a.routes());
    }

    /// What resolving a method and path against the router yields: whatever
    /// the pattern matcher finds in that method's tree, with the stored
    /// chain in place of its index.
    pub closed spec fn spec_find(self, method: Method, path: Seq<char>) -> Option<
        (Seq<M>, Seq<(Seq<char>, Seq<char>)>),
    > {
        match spec_tree_find(self.trees@[method.spec_index()], path) {
            None => None,
            Some((idx, caps)) => Some((self.chain_at(idx as int), caps)),
        }
    }

    /// Resolves a request: the stored chain and the ordered captures of the
    /// best-matching pattern under the method, or nothing.  A hit always
    /// hands back a chain that some registered route holds.
    pub fn find(&self, method: Method, path: &str) -> (r: Option<
        (Vec<Arc<M>>, Vec<(String, String)>),
    >)
        requires
            self.wf(),
        ensures
            match r {
                None => self.spec_find(method, path@) is None,
                Some((chain, caps)) => self.spec_find(method, path@) == Some(
                    (unwrap_arcs(chain@), pairs_of(caps@)),
                ) && exists|pat: Seq<char>| #[trigger] self.spec_route_at(method, pat) == Some(
                    unwrap_arcs(chain@),
                ),
            },
    {
        let mi = method.index();
        match tree_find(&self.trees[mi], path) {
            None => None,
            Some((idx, caps)) => {
                proof {
                    let pat = choose|p: Seq<char>|
                        self.entries(mi as int).dom().contains(p) && self.entries(mi as int)[p]
                            == idx;
                    assert(self.entries(mi as int).dom().contains(pat));
                }
                let chain = clone_chain(&self.chains[idx]);
                proof {
                    let pat = choose|p: Seq<char>|
                        self.entries(mi as int).dom().contains(p) && self.entries(mi as int)[p]
                            == idx;
                    assert(self.routes().dom().contains((method.spec_index(), pat)));
                    assert(self.spec_route_at(method, pat) == Some(unwrap_arcs(chain@)));
                }
                Some((chain, caps))
            },
        }
    }

    /// Expands a singular resource: each action is registered at the
    /// singular name joined with the action's sub-path.  An empty path takes
    /// the name from the last segment of the router's path.
    pub fn resource(&mut self, path: &str, maps: &Vec<(Resource, Arc<M>)>)
        requires
            old(self).wf(),
        ensures
            final(self).wf(),
            final(self).spec_path() == old(self).spec_path(),
            final(self).spec_middleware() == old(self).spec_middleware(),
            final(self).routes() == spec_register_resource(
                old(self).routes(),
                old(self).spec_path(),
                old(self).spec_middleware(),
                singular_of(spec_resource_name(path@, old(self).spec_path())),
                maps@,
            ),
    {
        let root: String = if path.is_empty() {
            last_segment(self.path.as_str())
        } else {
            path.to_owned()
        };
        let name = to_singular(root.as_str());
        let n = maps.len();
        let mut i: usize = 0;
        while i < n
            invariant
                i <= n,
                n == maps@.len(),
                self.wf(),
                name@ == singular_of(spec_resource_name(path@, old(self).spec_path())),
                self.spec_path() == old(self).spec_path(),
                self.spec_middleware() == old(self).spec_middleware(),
                self.routes() == spec_register_resource(
                    old(self).routes(),
                    old(self).spec_path(),
                    old(self).spec_middleware(),
                    name@,
                    maps@.take(i as int),
                ),
            decreases n - i,
        {
            let (sub, method) = (&maps[i].0).as_tuple();
            let p = join_paths(name.as_str(), sub);
            self.handle_arc(method, p.as_str(), &maps[i].1);
            proof {
                assert(maps@.take(i + 1).drop_last() =~= maps@.take(i as int));
            }
            i = i + 1;
        }
        proof {
            assert(maps@.take(n as int) =~= maps@);
        }
    }

    /// Expands a plural resource collection: each action is registered at
    /// the plural name joined with the action's sub-path, whose `:id` token
    /// is first renamed to `:<singular>_id` so that nested collections keep
    /// distinct capture names.  An empty path takes the name from the last
    /// segment of the router's path.
    pub fn resources(&mut self, path: &str, maps: &Vec<(Resources, Arc<M>)>)
        requires
            old(self).wf(),
        ensures
            final(self).wf(),
            final(self).spec_path() == old(self).spec_path(),
            final(self).spec_middleware() == old(self).spec_middleware(),
            final(self).routes() == spec_register_resources(
                old(self).routes(),
                old(self).spec_path(),
                old(self).spec_middleware(),
                spec_plural_root(path@),
                singular_of(spec_resource_name(path@, old(self).spec_path())),
                maps@,
            ),
    {
        let plural: String = if path.is_empty() {
            String::new()
        } else {
            to_plural(path)
        };
        let root: String = if path.is_empty() {
            last_segment(self.path.as_str())
        } else {
            path.to_owned()
        };
        let name = to_singular(root.as_str());
        let n = maps.len();
        let mut i: usize = 0;
        while i < n
            invariant
                i <= n,
                n == maps@.len(),
                self.wf(),
                plural@ == spec_plural_root(path@),
                name@ == singular_of(spec_resource_name(path@, old(self).spec_path())),
                self.spec_path() == old(self).spec_path(),
                self.spec_middleware() == old(self).spec_middleware(),
                self.routes() == spec_register_resources(
                    old(self).routes(),
                    old(self).spec_path(),
                    old(self).spec_middleware(),
                    plural@,
                    name@,
                    maps@.take(i as int),
                ),
            decreases n - i,
        {
            let (sub, method) = (&maps[i].0).as_tuple();
            let renamed = rename_id_param(sub, name.as_str());
            let p = join_paths(plural.as_str(), renamed.as_str());
            self.handle_arc(method, p.as_str(), &maps[i].1);
            proof {
                assert(maps@.take(i + 1).drop_last() =~= maps@.take(i as int));
            }
            i = i + 1;
        }
        proof {
            assert(maps@.take(n as int) =~= maps@);
        }
    }
}

/// What registering one handler under each of a list of methods does to a
/// route table.
pub open spec fn spec_register_many<M>(
    routes: Map<(int, Seq<char>), Seq<M>>,
    base: Seq<char>,
    mids: Seq<M>,
    methods: Seq<Method>,
    sub: Seq<char>,
    handler: M,
) -> Map<(int, Seq<char>), Seq<M>>
    decreases methods.len(),
{
    if methods.len() == 0 {
        routes
    } else {
        spec_register(
            spec_register_many(routes, base, mids, methods.drop_last(), sub, handler),
            base,
            mids,
            methods.last(),
            sub,
            handler,
        )
    }
}

/// Looking a table key up after a many-method registration: the registered
/// pattern's normalized key answers under every listed method with the
/// registered chain, and every other key is as it was.
pub proof fn lemma_register_many_lookup<M>(
    routes: Map<(int, Seq<char>), Seq<M>>,
    base: Seq<char>,
    mids: Seq<M>,
    methods: Seq<Method>,
    sub: Seq<char>,
    handler: M,
    m: Method,
    k: Seq<char>,
)
    ensures
        ({
            let res = spec_register_many(routes, base, mids, methods, sub, handler);
            let key = (m.spec_index(), k);
            if k == normal_of(spec_join_paths(base, sub)) && methods.contains(m) {
                res.dom().contains(key) && res[key] == mids.push(handler)
            } else {
                res.dom().contains(key) == routes.dom().contains(key) && (routes.dom().contains(
                    key,
                ) ==> res[key] == routes[key])
            }
        }),
    decreases methods.len(),
{
    if methods.len() > 0 {
        let rest = methods.drop_last();
        lemma_register_many_lookup(routes, base, mids, rest, sub, handler, m, k);
        let key = (m.spec_index(), k);
        let key_last = (
            methods.last().spec_index(),
            normal_of(spec_join_paths(base, sub)),
        );
        if key == key_last {
            Method::lemma_index_injective(m, methods.last());
            assert(m == methods.last());
            assert(methods.contains(m)) by {
                assert(methods[methods.len() - 1] == m);
            }
        } else {
            if k == normal_of(spec_join_paths(base, sub)) && methods.contains(m) {
                let i = choose|i: int| 0 <= i < methods.len() && methods[i] == m;
                assert(m != methods.last());
                assert(i < methods.len() - 1);
                assert(rest[i] == m);
                assert(rest.contains(m));
            } else {
                if k == normal_of(spec_join_paths(base, sub)) {
                    assert(!methods.contains(m));
                    if rest.contains(m) {
                        let i = choose|i: int| 0 <= i < rest.len() && rest[i] == m;
                        assert(methods[i] == m);
                        assert(false);
                    }
                }
            }
        }
    }
}

/// The singular or plural root a resource registration inflects: the given
/// path, or the last segment of the router's path when none is given.
pub open spec fn spec_resource_name(path: Seq<char>, base: Seq<char>) -> Seq<char> {
    if path.len() == 0 {
        after_last_slash(base)
    } else {
        path
    }
}

/// The plural base the routes of a resource collection are joined onto.
pub open spec fn spec_plural_root(path: Seq<char>) -> Seq<char> {
    if path.len() == 0 {
        Seq::empty()
    } else {
        plural_of(path)
    }
}

/// What expanding a singular resource does to a route table, action by
/// action.
pub open spec fn spec_register_resource<M>(
    routes: Map<(int, Seq<char>), Seq<M>>,
    base: Seq<char>,
    mids: Seq<M>,
    name: Seq<char>,
    maps: Seq<(Resource, Arc<M>)>,
) -> Map<(int, Seq<char>), Seq<M>>
    decreases maps.len(),
{
    if maps.len() == 0 {
        routes
    } else {
        spec_register(
            spec_register_resource(routes, base, mids, name, maps.drop_last()),
            base,
            mids,
            maps.last().0.spec_method(),
            spec_join_paths(name, maps.last().0.spec_sub_path()),
            *maps.last().1,
        )
    }
}

/// What expanding a plural resource collection does to a route table,
/// action by action, the `:id` token renamed after the singular name.
pub open spec fn spec_register_resources<M>(
    routes: Map<(int, Seq<char>), Seq<M>>,
    base: Seq<char>,
    mids: Seq<M>,
    plural: Seq<char>,
    singular: Seq<char>,
    maps: Seq<(Resources, Arc<M>)>,
) -> Map<(int, Seq<char>), Seq<M>>
    decreases maps.len(),
{
    if maps.len() == 0 {
        routes
    } else {
        spec_register(
            spec_register_resources(routes, base, mids, plural, singular, maps.drop_last()),
            base,
            mids,
            maps.last().0.spec_method(),
            spec_join_paths(plural, spec_rename_id(maps.last().0.spec_sub_path(), singular)),
            *maps.last().1,
        )
    }
}

/// The table key one singular-resource action registers: its method, over
/// the normalized form of the action's sub-path joined onto the singular
/// name and the router's path.
pub open spec fn resource_key(
    base: Seq<char>,
    name: Seq<char>,
    action: Resource,
) -> (int, Seq<char>) {
    (
        action.spec_method().spec_index(),
        normal_of(spec_join_paths(base, spec_join_paths(name, action.spec_sub_path()))),
    )
}

/// Every action of a singular-resource expansion stands in the table under
/// its own key with the expected chain, provided no later action of the
/// same expansion claims the same key.
pub proof fn lemma_register_resource_lookup<M>(
    routes: Map<(int, Seq<char>), Seq<M>>,
    base: Seq<char>,
    mids: Seq<M>,
    name: Seq<char>,
    maps: Seq<(Resource, Arc<M>)>,
    i: int,
)
    requires
        0 <= i < maps.len(),
        forall|j: int|
            i < j < maps.len() ==> resource_key(base, name, maps[j].0) != resource_key(
                base,
                name,
                maps[i].0,
            ),
    ensures
        ({
            let res = spec_register_resource(routes, base, mids, name, maps);
            let key = resource_key(base, name, maps[i].0);
            res.dom().contains(key) && res[key] == mids.push(*maps[i].1)
        }),
    decreases maps.len(),
{
    if i < maps.len() - 1 {
        assert(maps.drop_last()[i] == maps[i]);
        lemma_register_resource_lookup(routes, base, mids, name, maps.drop_last(), i);
    }
}

/// The table key one plural-resource action registers: its method, over the
/// normalized form of the action's sub-path — the `:id` token renamed after
/// the singular name — joined onto the plural name and the router's path.
pub open spec fn resources_key(
    base: Seq<char>,
    plural: Seq<char>,
    singular: Seq<char>,
    action: Resources,
) -> (int, Seq<char>) {
    (
        action.spec_method().spec_index(),
        normal_of(
            spec_join_paths(
                base,
                spec_join_paths(plural, spec_rename_id(action.spec_sub_path(), singular)),
            ),
        ),
    )
}

/// Every action of a plural-resource expansion stands in the table under
/// its own derived key with the expected chain, provided no later action of
/// the same expansion claims the same key.
pub proof fn lemma_register_resources_lookup<M>(
    routes: Map<(int, Seq<char>), Seq<M>>,
    base: Seq<char>,
    mids: Seq<M>,
    plural: Seq<char>,
    singular: Seq<char>,
    maps: Seq<(Resources, Arc<M>)>,
    i: int,
)
    requires
        0 <= i < maps.len(),
        forall|j: int|
            i < j < maps.len() ==> resources_key(base, plural, singular, maps[j].0)
                != resources_key(base, plural, singular, maps[i].0),
    ensures
        ({
            let res = spec_register_resources(routes, base, mids, plural, singular, maps);
            let key = resources_key(base, plural, singular, maps[i].0);
            res.dom().contains(key) && res[key] == mids.push(*maps[i].1)
        }),
    decreases maps.len(),
{
    if i < maps.len() - 1 {
        assert(maps.drop_last()[i] == maps[i]);
        lemma_register_resources_lookup(
            routes,
            base,
            mids,
            plural,
            singular,
            maps.drop_last(),
            i,
        );
    }
}

/// Scoping isolation: a middleware step added inside a scope stands on the
/// chain of a route registered inside that scope, and not on the chain of a
/// sibling route registered on the parent after the scope is merged back —
/// provided the two routes' patterns keep distinct normalized forms, so the
/// sibling does not overwrite the scoped route.
///
/// The table transformations below are exactly those the builder calls
/// perform: `middleware(a)` on the parent; `scope(prefix)`, whose derived
/// router inherits the parent's middleware; `middleware(b)` and
/// `handle(Get, p1, h1)` on the derived router; `merge`, which carries the
/// derived router's routes back while the parent's own middleware prefix
/// stays `[a]`; and finally `handle(Get, p2, h2)` on the parent.
pub proof fn lemma_scope_isolation<M>(
    routes0: Map<(int, Seq<char>), Seq<M>>,
    base: Seq<char>,
    mids0: Seq<M>,
    a: M,
    b: M,
    prefix: Seq<char>,
    p1: Seq<char>,
    h1: M,
    p2: Seq<char>,
    h2: M,
)
    requires
        !mids0.contains(b),
        b != a,
        b != h2,
        normal_of(spec_join_paths(spec_join_paths(base, prefix), p1)) != normal_of(
            spec_join_paths(base, p2),
        ),
    ensures
        ({
            let mids1 = mids0.push(a);
            let scoped = normal_of(spec_join_paths(spec_join_paths(base, prefix), p1));
            let sibling = normal_of(spec_join_paths(base, p2));
            let routes1 = spec_register(
                routes0,
                spec_join_paths(base, prefix),
                mids1.push(b),
                Method::Get,
                p1,
                h1,
            );
            let routes2 = spec_register(routes1, base, mids1, Method::Get, p2, h2);
            &&& routes2[(Method::Get.spec_index(), scoped)] == mids0.push(a).push(b).push(h1)
            &&& routes2[(Method::Get.spec_index(), scoped)].contains(b)
            &&& routes2[(Method::Get.spec_index(), sibling)] == mids0.push(a).push(h2)
            &&& !routes2[(Method::Get.spec_index(), sibling)].contains(b)
        }),
{
    let mids1 = mids0.push(a);
    let scoped_chain = mids1.push(b).push(h1);
    assert(scoped_chain.contains(b)) by {
        assert(scoped_chain[mids0.len() as int + 1] == b);
    }
    let sibling_chain = mids1.push(h2);
    assert(!sibling_chain.contains(b)) by {
        if sibling_chain.contains(b) {
            let i = choose|i: int| 0 <= i < sibling_chain.len() && sibling_chain[i] == b;
            if i < mids0.len() {
                assert(mids0[i] == b);
                assert(mids0.contains(b));
            } else if i == mids0.len() {
                assert(b == a);
            } else {
                assert(b == h2);
            }
        }
    }
}

} // verus!
