//! The pattern matcher the router builds on.
//!
//! Patterns and concrete paths are matched by the `path_tree` crate's radix
//! trie: literal segments match exactly, `:name` captures one segment, a
//! trailing `*` swallows the rest.  The trie's matching algorithm is a black
//! box here; the library relies only on what the trusted contracts below
//! state: what a tree holds, and that a hit hands back a stored value with
//! the ordered captures.

use vstd::prelude::*;

use path_tree::PathTree;

use crate::params::pairs_of;

verus! {

#[verifier::external_type_specification]
#[verifier::external_body]
#[verifier::reject_recursive_types(T)]
pub struct ExPathTree<T>(PathTree<T>);

/// What the trie normalizes a pattern to before storing it: the sequence of
/// trie keys the pattern parses into.  The trie does not key a capture
/// segment by its name, so two patterns that differ only there normalize
/// alike, and the later registration replaces the earlier one.  The result
/// depends on the pattern's characters alone.
pub uninterp spec fn normal_of(pattern: Seq<char>) -> Seq<char>;

/// What a tree holds: the value stored under each registered pattern, keyed
/// by the trie's own normalization of the pattern text.
pub uninterp spec fn tree_entries(t: PathTree<usize>) -> Map<Seq<char>, usize>;

/// What looking a concrete path up in a tree yields: the matched value and
/// the ordered (capture-name, captured-substring) pairs, or nothing.  For a
/// given tree value this depends on the path alone.
pub uninterp spec fn spec_tree_find(t: PathTree<usize>, path: Seq<char>) -> Option<
    (usize, Seq<(Seq<char>, Seq<char>)>),
>;

/// Relies on path_tree::PathTree::new: a fresh tree holds no routes.
#[verifier::external_body]
pub(crate) fn tree_new() -> (tree: PathTree<usize>)
    ensures
        tree_entries(tree) =~= Map::empty(),
{
    PathTree::new()
}

/// Relies on path_tree::PathTree::insert: stores `value` at the node the
/// pattern parses to, replacing what any pattern with the same normalized
/// form held before.
#[verifier::external_body]
pub(crate) fn tree_insert(t: &mut PathTree<usize>, pattern: &str, value: usize)
    ensures
        tree_entries(*final(t)) == tree_entries(*old(t)).insert(normal_of(pattern@), value),
{
    let _ = t.insert(pattern, value);
}

/// Relies on path_tree::PathTree::find: a hit returns a value the tree
/// holds, together with the ordered captures of the matched pattern.
#[verifier::external_body]
pub(crate) fn tree_find(t: &PathTree<usize>, path: &str) -> (r: Option<
    (usize, Vec<(String, String)>),
>)
    ensures
        match r {
            None => spec_tree_find(*t, path@) is None,
            Some((v, caps)) => spec_tree_find(*t, path@) == Some((v, pairs_of(caps@)))
                && exists|pat: Seq<char>|
                tree_entries(*t).dom().contains(pat) && tree_entries(*t)[pat] == v,
        },
{
    t.find(path).map(
        |(v, p)| { (*v, p.params().iter().map(|(k, c)| (k.to_string(), c.to_string())).collect()) },
    )
}

/// Relies on path_tree::PathTree's derived Clone: the copy holds the same
/// routes as the original.
#[verifier::external_body]
pub(crate) fn tree_clone(t: &PathTree<usize>) -> (r: PathTree<usize>)
    ensures
        tree_entries(r) == tree_entries(*t),
{
    t.clone()
}

} // verus!
