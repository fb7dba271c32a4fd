//! Singular and plural resource names.
//!
//! Resource registration derives route names by inflecting the given path:
//! `resources` pluralizes it, and its singular form names the capture
//! parameter (`/books/:book_id`).  The inflection rules live in the
//! `inflector` crate; here each result only gets a name, since both are
//! functions of the input characters alone.

use vstd::prelude::*;

verus! {

/// What inflecting `s` to its singular form yields.
pub uninterp spec fn singular_of(s: Seq<char>) -> Seq<char>;

/// What inflecting `s` to its plural form yields.
pub uninterp spec fn plural_of(s: Seq<char>) -> Seq<char>;

/// Relies on inflector's to_singular: the result depends on the characters
/// alone.
#[verifier::external_body]
pub(crate) fn to_singular(s: &str) -> (r: String)
    ensures
        r@ == singular_of(s@),
{
    inflector::string::singularize::to_singular(s)
}

/// Relies on inflector's to_plural: the result depends on the characters
/// alone.
#[verifier::external_body]
pub(crate) fn to_plural(s: &str) -> (r: String)
    ensures
        r@ == plural_of(s@),
{
    inflector::string::pluralize::to_plural(s)
}

} // verus!
