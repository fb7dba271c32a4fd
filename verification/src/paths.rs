//! Composition of route paths.
//!
//! A scope prefix and a sub-path are joined so that exactly one `/` separates
//! them: the whole trailing `/` run of the prefix and the whole leading `/`
//! run of the sub-path are stripped, and a single `/` is put between them.
//! An empty sub-path leaves the prefix untouched.
//!
//! Stripping the whole run, rather than a single slash, is what makes the
//! never-a-doubled-separator guarantee unconditional: with only one slash
//! stripped, a prefix ending in `//` would leave a doubled seam.  On every
//! input with at most one boundary slash on each side the two readings
//! agree.

use vstd::prelude::*;

verus! {

/// `s` without its trailing run of `/` characters.
pub open spec fn trim_end_slashes(s: Seq<char>) -> Seq<char>
    decreases s.len(),
{
    if s.len() > 0 && s.last() == '/' {
        trim_end_slashes(s.drop_last())
    } else {
        s
    }
}

/// `s` without its leading run of `/` characters.
pub open spec fn trim_start_slashes(s: Seq<char>) -> Seq<char>
    decreases s.len(),
{
    if s.len() > 0 && s.first() == '/' {
        trim_start_slashes(s.drop_first())
    } else {
        s
    }
}

/// What joining a base path `a` with a sub-path `b` yields.
pub open spec fn spec_join_paths(a: Seq<char>, b: Seq<char>) -> Seq<char> {
    if b.len() == 0 {
        a
    } else {
        trim_end_slashes(a) + seq!['/'] + trim_start_slashes(b)
    }
}

/// Trimming the end of a prefix of `s` that still carries the whole trailing
/// slash run gives the same result as trimming `s` itself.
proof fn lemma_trim_end_prefix(s: Seq<char>, k: int)
    requires
        0 <= k <= s.len(),
        forall|i: int| k <= i < s.len() ==> s[i] == '/',
    ensures
        trim_end_slashes(s) == trim_end_slashes(s.take(k)),
    decreases s.len() - k,
{
    if k < s.len() {
        assert(s.take(s.len() - 1) =~= s.drop_last());
        lemma_trim_end_prefix(s.drop_last(), k);
        assert(s.drop_last().take(k) =~= s.take(k));
    } else {
        assert(s.take(k) =~= s);
    }
}

/// Trimming the start of a suffix of `s` that still carries the whole leading
/// slash run gives the same result as trimming `s` itself.
proof fn lemma_trim_start_suffix(s: Seq<char>, k: int)
    requires
        0 <= k <= s.len(),
        forall|i: int| 0 <= i < k ==> s[i] == '/',
    ensures
        trim_start_slashes(s) == trim_start_slashes(s.skip(k)),
    decreases k,
{
    if k > 0 {
        assert(s.skip(1) =~= s.drop_first());
        lemma_trim_start_suffix(s.drop_first(), k - 1);
        assert(s.drop_first().skip(k - 1) =~= s.skip(k));
    } else {
        assert(s.skip(0) =~= s);
    }
}

/// Where the trailing `/` run of `s` begins: the length of the trimmed
/// prefix.
fn end_without_slashes(s: &str) -> (k: usize)
    ensures
        k <= s@.len(),
        s@.take(k as int) == trim_end_slashes(s@),
{
    let n: usize = s.unicode_len();
    let mut k: usize = n;
    while k > 0 && s.get_char(k - 1) == '/'
        invariant
            k <= n,
            n == s@.len(),
            forall|i: int| k <= i < n ==> s@[i] == '/',
        decreases k,
    {
        k = k - 1;
    }
    proof {
        lemma_trim_end_prefix(s@, k as int);
        if k > 0 {
            assert(s@.take(k as int).last() != '/');
        }
        assert(trim_end_slashes(s@.take(k as int)) == s@.take(k as int));
    }
    k
}

/// The number of characters in `s`'s leading `/` run.
fn start_without_slashes(s: &str) -> (k: usize)
    ensures
        k <= s@.len(),
        s@.skip(k as int) == trim_start_slashes(s@),
{
    let n: usize = s.unicode_len();
    let mut k: usize = 0;
    while k < n && s.get_char(k) == '/'
        invariant
            k <= n,
            n == s@.len(),
            forall|i: int| 0 <= i < k ==> s@[i] == '/',
        decreases n - k,
    {
        k = k + 1;
    }
    proof {
        lemma_trim_start_suffix(s@, k as int);
        if k < n {
            assert(s@.skip(k as int).first() != '/');
        }
        assert(trim_start_slashes(s@.skip(k as int)) == s@.skip(k as int));
    }
    k
}

/// Joins a base path and a sub-path with exactly one `/` between them — the
/// whole boundary run of slashes on each side collapses into the single
/// separator — and an empty sub-path returns the base unchanged.
pub fn join_paths(a: &str, b: &str) -> (r: String)
    ensures
        r@ == spec_join_paths(a@, b@),
{
    if b.is_empty() {
        let r = a.to_owned();
        return r;
    }
    let ka: usize = end_without_slashes(a);
    let kb: usize = start_without_slashes(b);
    let mut r = String::new();
    r.append(a.substring_char(0, ka));
    r.append("/");
    r.append(b.substring_char(kb, b.unicode_len()));
    proof {
        reveal_strlit("/");
        assert(a@.subrange(0, ka as int) =~= a@.take(ka as int));
        assert(b@.subrange(kb as int, b@.len() as int) =~= b@.skip(kb as int));
        assert(r@ =~= spec_join_paths(a@, b@));
    }
    r
}

/// Joining any path with the empty sub-path leaves it unchanged.
pub proof fn lemma_join_empty(a: Seq<char>)
    ensures
        spec_join_paths(a, Seq::<char>::empty()) == a,
{
}

/// A trimmed prefix never ends in a separator.
proof fn lemma_trim_end_no_slash(s: Seq<char>)
    ensures
        trim_end_slashes(s).len() > 0 ==> trim_end_slashes(s).last() != '/',
    decreases s.len(),
{
    if s.len() > 0 && s.last() == '/' {
        lemma_trim_end_no_slash(s.drop_last());
    }
}

/// A trimmed sub-path never starts with a separator.
proof fn lemma_trim_start_no_slash(s: Seq<char>)
    ensures
        trim_start_slashes(s).len() > 0 ==> trim_start_slashes(s).first() != '/',
    decreases s.len(),
{
    if s.len() > 0 && s.first() == '/' {
        lemma_trim_start_no_slash(s.drop_first());
    }
}

/// Joining with a non-empty sub-path puts exactly one `/` between the two
/// parts: what precedes it does not end in `/`, and what follows it does
/// not begin with one, so the seam is never doubled and never missing.
pub proof fn lemma_join_single_separator(a: Seq<char>, b: Seq<char>)
    requires
        b.len() > 0,
    ensures
        spec_join_paths(a, b) == trim_end_slashes(a) + seq!['/'] + trim_start_slashes(b),
        trim_end_slashes(a).len() > 0 ==> trim_end_slashes(a).last() != '/',
        trim_start_slashes(b).len() > 0 ==> trim_start_slashes(b).first() != '/',
{
    lemma_trim_end_no_slash(a);
    lemma_trim_start_no_slash(b);
}

/// What follows the last `/` of `s`; all of `s` when it has no `/`.
pub open spec fn after_last_slash(s: Seq<char>) -> Seq<char>
    decreases s.len(),
{
    if s.len() == 0 {
        s
    } else if s.last() == '/' {
        Seq::empty()
    } else {
        after_last_slash(s.drop_last()).push(s.last())
    }
}

/// A position right after a `/`, with no `/` beyond it, marks where the last
/// segment starts.
proof fn lemma_after_last_slash(s: Seq<char>, k: int)
    requires
        0 <= k <= s.len(),
        forall|j: int| k <= j < s.len() ==> s[j] != '/',
        k > 0 ==> s[k - 1] == '/',
    ensures
        after_last_slash(s) == s.skip(k),
    decreases s.len(),
{
    if s.len() == 0 {
        assert(s.skip(0) =~= s);
    } else if s.last() == '/' {
        assert(k == s.len());
        assert(s.skip(k) =~= Seq::<char>::empty());
    } else {
        assert(k < s.len());
        lemma_after_last_slash(s.drop_last(), k);
        assert(s.drop_last().skip(k).push(s.last()) =~= s.skip(k));
    }
}

/// The last segment of a path: what follows its last `/`, or the whole path
/// when it has none.
pub fn last_segment(s: &str) -> (r: String)
    ensures
        r@ == after_last_slash(s@),
{
    let n: usize = s.unicode_len();
    let mut k: usize = n;
    while k > 0 && s.get_char(k - 1) != '/'
        invariant
            k <= n,
            n == s@.len(),
            forall|j: int| k <= j < n ==> s@[j] != '/',
        decreases k,
    {
        k = k - 1;
    }
    proof {
        lemma_after_last_slash(s@, k as int);
    }
    let r = s.substring_char(k, n).to_owned();
    proof {
        assert(s@.subrange(k as int, n as int) =~= s@.skip(k as int));
    }
    r
}

} // verus!
